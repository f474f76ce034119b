use vstd::prelude::*;

use crate::units::{
    board, clamp_i32, clamp_to_i32, dist_sq, distance_squared, hurt, hurt_slot, in_reach, slot_view,
    is_in_range, only_harm, same_economy, placed, pos_at, position_of, trunc_div, unit_at, Effect, EffectType, SkillType,
    Unit, UnitView,
};

verus! {

/// Reach of WhirlwindSlash, in tenths of a square.
pub const WHIRLWIND_RADIUS: u32 = 20;

/// Reach of MultiShot, in tenths of a square.
pub const MULTI_SHOT_RADIUS: u32 = 30;

/// How many units one MultiShot hits at most.
pub const MULTI_SHOT_TARGETS: usize = 3;

/// Reach of ShieldBash, in tenths of a square.
pub const SHIELD_BASH_RADIUS: u32 = 15;

/// Defense that the caster of ShieldBash gains.
pub const SHIELD_BASH_DEFENSE: i32 = 10;

/// A skill of the catalog: what casting it from the unit in slot `caster`
/// with `damage` does to the board. A caster that is not on the board
/// changes nothing.
pub trait SkillExecutor {
    spec fn outcome(b: Seq<Option<UnitView>>, caster: int, damage: int) -> Seq<Option<UnitView>>;

    fn execute(&self, caster: usize, damage: i32, units: &mut Vec<Option<Unit>>)
        ensures
            board(final(units)@) == Self::outcome(board(old(units)@), caster as int, damage as int),
    ;
}

/// Every other unit within two squares loses `damage` hit points.
pub open spec fn whirlwind_outcome(b: Seq<Option<UnitView>>, c: int, d: int) -> Seq<Option<UnitView>> {
    Seq::new(
        b.len(),
        |j: int|
            if in_reach(b, c, j, WHIRLWIND_RADIUS) {
                Some(hurt(unit_at(b, j), d))
            } else {
                b[j]
            },
    )
}

pub struct WhirlwindSlash;

impl SkillExecutor for WhirlwindSlash {
    open spec fn outcome(b: Seq<Option<UnitView>>, caster: int, damage: int) -> Seq<Option<UnitView>> {
        whirlwind_outcome(b, caster, damage)
    }

    fn execute(&self, caster: usize, damage: i32, units: &mut Vec<Option<Unit>>) {
        let ghost b0 = board(units@);
        let ghost goal = whirlwind_outcome(b0, caster as int, damage as int);
        let caster_pos = match position_of(units, caster) {
            Some(p) => p,
            None => {
                assert(board(units@) =~= goal);
                return ;
            },
        };
        let n = units.len();
        let mut j: usize = 0;
        assert forall|k: int| 0 <= k < n implies slot_view(#[trigger] units@[k]) == b0[k] by {}
        while j < n
            invariant
                n == units@.len(),
                b0.len() == n,
                goal == whirlwind_outcome(b0, caster as int, damage as int),
                j <= n,
                placed(b0, caster as int),
                pos_at(b0, caster as int) == caster_pos,
                forall|k: int| 0 <= k < j ==> slot_view(#[trigger] units@[k]) == goal[k],
                forall|k: int| j <= k < n ==> slot_view(#[trigger] units@[k]) == b0[k],
            decreases n - j,
        {
            assert(board(units@)[j as int] == b0[j as int]);
            assert(placed(board(units@), j as int) == placed(b0, j as int));
            if j != caster {
                if let Some(p) = position_of(units, j) {
                    if is_in_range(&caster_pos, &p, WHIRLWIND_RADIUS) {
                                hurt_slot(units, j, damage);
                    }
                }
            }
            assert(slot_view(units@[j as int]) == goal[j as int]);
            j += 1;
        }
        assert(board(units@) =~= goal);
    }
}

/// `v * num / den`, rounded toward zero.
fn scale_toward_zero(v: i32, num: u64, den: u64) -> (r: i64)
    requires
        1 <= num <= 4,
        1 <= den,
    ensures
        r == trunc_div(v * num, den as int),
{
    let m: u64 = if v >= 0 { v as u64 } else { (-(v as i64)) as u64 };
    assert(m * num <= 0x8000_0000u64 * 4) by (nonlinear_arith)
        requires m <= 0x8000_0000u64, num <= 4;
    let mn: u64 = m * num;
    let q: u64 = mn / den;
    assert(q <= mn) by (nonlinear_arith)
        requires q == mn / den, den >= 1;
    if v >= 0 {
        assert(v * num >= 0) by (nonlinear_arith)
            requires v >= 0, num >= 1;
        q as i64
    } else {
        assert(v * num < 0 && -(v * num) == m * num) by (nonlinear_arith)
            requires v < 0, num >= 1, m == -v;
        -(q as i64)
    }
}

/// The number of other units within `range` of the unit in slot `c` whose
/// slot comes before `j`.
pub open spec fn targets_before(b: Seq<Option<UnitView>>, c: int, j: int, range: u32) -> nat
    decreases j,
{
    if j <= 0 {
        0
    } else {
        targets_before(b, c, j - 1, range) + if in_reach(b, c, j - 1, range) {
            1nat
        } else {
            0nat
        }
    }
}

/// What each unit that MultiShot hits loses: four fifths of the skill's
/// damage, rounded toward zero.
pub open spec fn multi_shot_damage(d: int) -> int {
    trunc_div(d * 4, 5)
}

/// The first three other units within three squares, in slot order, each lose
/// four fifths of `damage`.
pub open spec fn multi_shot_outcome(b: Seq<Option<UnitView>>, c: int, d: int) -> Seq<Option<UnitView>> {
    Seq::new(
        b.len(),
        |j: int|
            if in_reach(b, c, j, MULTI_SHOT_RADIUS) && targets_before(b, c, j, MULTI_SHOT_RADIUS)
                < MULTI_SHOT_TARGETS {
                Some(hurt(unit_at(b, j), multi_shot_damage(d)))
            } else {
                b[j]
            },
    )
}

pub struct MultiShot;

impl SkillExecutor for MultiShot {
    open spec fn outcome(b: Seq<Option<UnitView>>, caster: int, damage: int) -> Seq<Option<UnitView>> {
        multi_shot_outcome(b, caster, damage)
    }

    fn execute(&self, caster: usize, damage: i32, units: &mut Vec<Option<Unit>>) {
        let ghost b0 = board(units@);
        let ghost goal = multi_shot_outcome(b0, caster as int, damage as int);
        let caster_pos = match position_of(units, caster) {
            Some(p) => p,
            None => {
                assert(board(units@) =~= goal);
                return ;
            },
        };
        let reduced = scale_toward_zero(damage, 4, 5);
        let n = units.len();
        let mut j: usize = 0;
        let mut found: usize = 0;
        assert forall|k: int| 0 <= k < n implies slot_view(#[trigger] units@[k]) == b0[k] by {}
        while j < n
            invariant
                n == units@.len(),
                b0.len() == n,
                goal == multi_shot_outcome(b0, caster as int, damage as int),
                reduced == multi_shot_damage(damage as int),
                j <= n,
                found == targets_before(b0, caster as int, j as int, MULTI_SHOT_RADIUS),
                found <= j,
                placed(b0, caster as int),
                pos_at(b0, caster as int) == caster_pos,
                forall|k: int| 0 <= k < j ==> slot_view(#[trigger] units@[k]) == goal[k],
                forall|k: int| j <= k < n ==> slot_view(#[trigger] units@[k]) == b0[k],
            decreases n - j,
        {
            assert(board(units@)[j as int] == b0[j as int]);
            assert(placed(board(units@), j as int) == placed(b0, j as int));
            if j != caster {
                if let Some(p) = position_of(units, j) {
                    if is_in_range(&caster_pos, &p, MULTI_SHOT_RADIUS) {
                        if found < MULTI_SHOT_TARGETS {
                            hurt_slot(units, j, reduced as i32);
                        }
                        found += 1;
                    }
                }
            }
            assert(slot_view(units@[j as int]) == goal[j as int]);
            j += 1;
        }
        assert(board(units@) =~= goal);
    }
}

/// The other placed unit nearest to the unit in slot `c` among slots before
/// `n`; of equally near ones, the first.
pub open spec fn nearest(b: Seq<Option<UnitView>>, c: int, n: int) -> Option<int>
    decreases n,
{
    if n <= 0 {
        None
    } else {
        let best = nearest(b, c, n - 1);
        let j = n - 1;
        if placed(b, c) && placed(b, j) && j != c && (best is None || dist_sq(pos_at(b, c), pos_at(b, j))
            < dist_sq(pos_at(b, c), pos_at(b, best->Some_0))) {
            Some(j)
        } else {
            best
        }
    }
}

proof fn lemma_nearest_is_other_placed(b: Seq<Option<UnitView>>, c: int, n: int)
    requires
        n <= b.len(),
    ensures
        nearest(b, c, n) matches Some(t) ==> 0 <= t < n && t != c && placed(b, t) && placed(b, c),
    decreases n,
{
    if n > 0 {
        lemma_nearest_is_other_placed(b, c, n - 1);
    }
}

/// What Fireball's target loses: one and a half times the skill's damage,
/// rounded toward zero and saturated into `i32`.
pub open spec fn fireball_damage(d: int) -> int {
    clamp_i32(trunc_div(d * 3, 2))
}

/// The nearest other unit loses one and a half times `damage`.
pub open spec fn fireball_outcome(b: Seq<Option<UnitView>>, c: int, d: int) -> Seq<Option<UnitView>> {
    match nearest(b, c, b.len() as int) {
        Some(t) => b.update(t, Some(hurt(unit_at(b, t), fireball_damage(d)))),
        None => b,
    }
}

pub struct Fireball;

impl SkillExecutor for Fireball {
    open spec fn outcome(b: Seq<Option<UnitView>>, caster: int, damage: int) -> Seq<Option<UnitView>> {
        fireball_outcome(b, caster, damage)
    }

    fn execute(&self, caster: usize, damage: i32, units: &mut Vec<Option<Unit>>) {
        let ghost b0 = board(units@);
        let ghost s0 = units@;
        proof {
            lemma_nearest_is_other_placed(b0, caster as int, b0.len() as int);
        }
        let caster_pos = match position_of(units, caster) {
            Some(p) => p,
            None => {
                assert(nearest(b0, caster as int, b0.len() as int) is None);
                return ;
            },
        };
        let n = units.len();
        let mut j: usize = 0;
        let mut best: Option<usize> = None;
        let mut best_d: u128 = 0;
        while j < n
            invariant
                n == units@.len(),
                units@ == s0,
                b0 == board(s0),
                j <= n,
                placed(b0, caster as int),
                pos_at(b0, caster as int) == caster_pos,
                match best {
                    Some(t) => nearest(b0, caster as int, j as int) == Some(t as int) && best_d
                        == dist_sq(caster_pos, pos_at(b0, t as int)),
                    None => nearest(b0, caster as int, j as int) is None,
                },
            decreases n - j,
        {
            if j != caster {
                if let Some(p) = position_of(units, j) {
                    let d = distance_squared(&caster_pos, &p);
                    let closer = match best {
                        Some(_) => d < best_d,
                        None => true,
                    };
                    if closer {
                        best = Some(j);
                        best_d = d;
                    }
                }
            }
            j += 1;
        }
        if let Some(t) = best {
            proof {
                lemma_nearest_is_other_placed(b0, caster as int, n as int);
            }
            let magic = clamp_to_i32(scale_toward_zero(damage, 3, 2));
            hurt_slot(units, t, magic);
            assert(board(units@) =~= fireball_outcome(b0, caster as int, damage as int));
        }
    }
}

/// The caster after ShieldBash: ten more defense, saturating.
pub open spec fn braced(u: UnitView) -> UnitView {
    UnitView { defense: clamp_i32(u.defense + SHIELD_BASH_DEFENSE) as i32, ..u }
}

/// The stun that ShieldBash leaves: two ticks, full strength.
pub open spec fn stun() -> Effect {
    Effect { effect_type: EffectType::Stun, duration: 2, magnitude: 100 }
}

/// A unit struck by ShieldBash: it loses `d` hit points and is stunned.
pub open spec fn bashed(u: UnitView, d: int) -> UnitView {
    UnitView { hp: clamp_i32(u.hp - d) as i32, effects: u.effects.push(stun()), ..u }
}

/// The caster gains ten defense; every other unit within one and a half
/// squares loses `damage` hit points and is stunned.
pub open spec fn shield_bash_outcome(b: Seq<Option<UnitView>>, c: int, d: int) -> Seq<Option<UnitView>> {
    if !placed(b, c) {
        b
    } else {
        Seq::new(
            b.len(),
            |j: int|
                if j == c {
                    Some(braced(unit_at(b, j)))
                } else if in_reach(b, c, j, SHIELD_BASH_RADIUS) {
                    Some(bashed(unit_at(b, j), d))
                } else {
                    b[j]
                },
        )
    }
}

/// Raises the defense of the unit in slot `j`.
fn brace_slot(units: &mut Vec<Option<Unit>>, j: usize)
    requires
        j < old(units)@.len(),
        old(units)@[j as int] is Some,
    ensures
        final(units)@.len() == old(units)@.len(),
        forall|k: int| 0 <= k < old(units)@.len() && k != j ==> final(units)@[k] == old(units)@[k],
        final(units)@[j as int] is Some,
        final(units)@[j as int]->Some_0@ == braced(old(units)@[j as int]->Some_0@),
{
    let mut slot: Option<Unit> = None;
    units.set_and_swap(j, &mut slot);
    if let Some(mut u) = slot {
        u.stats.defense = clamp_to_i32(u.stats.defense as i64 + SHIELD_BASH_DEFENSE as i64);
        units.set(j, Some(u));
    }
}

/// Strikes the unit in slot `j` with ShieldBash.
fn bash_slot(units: &mut Vec<Option<Unit>>, j: usize, damage: i32)
    requires
        j < old(units)@.len(),
        old(units)@[j as int] is Some,
    ensures
        final(units)@.len() == old(units)@.len(),
        forall|k: int| 0 <= k < old(units)@.len() && k != j ==> final(units)@[k] == old(units)@[k],
        final(units)@[j as int] is Some,
        final(units)@[j as int]->Some_0@ == bashed(old(units)@[j as int]->Some_0@, damage as int),
{
    let mut slot: Option<Unit> = None;
    units.set_and_swap(j, &mut slot);
    if let Some(mut u) = slot {
        u.stats.hp = clamp_to_i32(u.stats.hp as i64 - damage as i64);
        u.status.effects.push(Effect { effect_type: EffectType::Stun, duration: 2, magnitude: 100 });
        units.set(j, Some(u));
    }
}

pub struct ShieldBash;

impl SkillExecutor for ShieldBash {
    open spec fn outcome(b: Seq<Option<UnitView>>, caster: int, damage: int) -> Seq<Option<UnitView>> {
        shield_bash_outcome(b, caster, damage)
    }

    fn execute(&self, caster: usize, damage: i32, units: &mut Vec<Option<Unit>>) {
        let ghost b0 = board(units@);
        let ghost goal = shield_bash_outcome(b0, caster as int, damage as int);
        let caster_pos = match position_of(units, caster) {
            Some(p) => p,
            None => {
                assert(board(units@) =~= goal);
                return ;
            },
        };
        let n = units.len();
        let mut j: usize = 0;
        assert forall|k: int| 0 <= k < n implies slot_view(#[trigger] units@[k]) == b0[k] by {}
        while j < n
            invariant
                n == units@.len(),
                b0.len() == n,
                goal == shield_bash_outcome(b0, caster as int, damage as int),
                j <= n,
                placed(b0, caster as int),
                pos_at(b0, caster as int) == caster_pos,
                forall|k: int| 0 <= k < j ==> slot_view(#[trigger] units@[k]) == goal[k],
                forall|k: int| j <= k < n ==> slot_view(#[trigger] units@[k]) == b0[k],
            decreases n - j,
        {
            assert(board(units@)[j as int] == b0[j as int]);
            assert(placed(board(units@), j as int) == placed(b0, j as int));
            if j == caster {
                brace_slot(units, j);
            } else if let Some(p) = position_of(units, j) {
                if is_in_range(&caster_pos, &p, SHIELD_BASH_RADIUS) {
                    bash_slot(units, j, damage);
                }
            }
            assert(slot_view(units@[j as int]) == goal[j as int]);
            j += 1;
        }
        assert(board(units@) =~= goal);
    }
}

/// What casting `kind` from slot `c` with `d` does to the board.
pub open spec fn skill_outcome(kind: SkillType, b: Seq<Option<UnitView>>, c: int, d: int) -> Seq<Option<UnitView>> {
    match kind {
        SkillType::WhirlwindSlash => whirlwind_outcome(b, c, d),
        SkillType::Fireball => fireball_outcome(b, c, d),
        SkillType::MultiShot => multi_shot_outcome(b, c, d),
        SkillType::ShieldBash => shield_bash_outcome(b, c, d),
    }
}

/// Casts `kind` from the unit in slot `caster` with `damage`.
pub fn cast_skill(kind: SkillType, caster: usize, damage: i32, units: &mut Vec<Option<Unit>>)
    ensures
        board(final(units)@) == skill_outcome(kind, board(old(units)@), caster as int, damage as int),
{
    match kind {
        SkillType::WhirlwindSlash => WhirlwindSlash.execute(caster, damage, units),
        SkillType::Fireball => Fireball.execute(caster, damage, units),
        SkillType::MultiShot => MultiShot.execute(caster, damage, units),
        SkillType::ShieldBash => ShieldBash.execute(caster, damage, units),
    }
}

/// A skill changes only hit points, defense and status effects.
pub proof fn lemma_skill_only_harm(kind: SkillType, b: Seq<Option<UnitView>>, c: int, d: int)
    ensures
        only_harm(b, skill_outcome(kind, b, c, d)),
{
    let r = skill_outcome(kind, b, c, d);
    match kind {
        SkillType::Fireball => {
            lemma_nearest_is_other_placed(b, c, b.len() as int);
        },
        _ => {},
    }
    assert forall|j: int| 0 <= j < b.len() implies {
        &&& (#[trigger] r[j]) is Some == b[j] is Some
        &&& b[j] is Some ==> same_economy(b[j]->Some_0, r[j]->Some_0)
    } by {}
}

/// ShieldBash away from the bounds of `i32`: the caster gains exactly ten
/// defense and keeps its hit points, mana, skill and effects; a unit within
/// one and a half squares loses exactly `d` hit points and gains one Stun of
/// two ticks at full strength after its earlier effects; any other unit is
/// untouched.
pub proof fn lemma_shield_bash_exact(b: Seq<Option<UnitView>>, c: int, d: int, t: int)
    requires
        placed(b, c),
        0 <= t < b.len(),
        unit_at(b, c).defense <= i32::MAX - SHIELD_BASH_DEFENSE,
        in_reach(b, c, t, SHIELD_BASH_RADIUS) ==> i32::MIN <= unit_at(b, t).hp - d <= i32::MAX,
    ensures
        ({
            let r = shield_bash_outcome(b, c, d);
            let u = unit_at(b, c);
            let v = unit_at(r, c);
            &&& r.len() == b.len()
            &&& r[c] is Some
            &&& v.defense == u.defense + 10
            &&& v.hp == u.hp && v.mana == u.mana && v.skill == u.skill && v.effects == u.effects
            &&& in_reach(b, c, t, SHIELD_BASH_RADIUS) ==> {
                &&& r[t] is Some
                &&& unit_at(r, t).hp == unit_at(b, t).hp - d
                &&& unit_at(r, t).effects == unit_at(b, t).effects.push(
                    Effect { effect_type: EffectType::Stun, duration: 2, magnitude: 100 },
                )
                &&& unit_at(r, t).defense == unit_at(b, t).defense
            }
            &&& (t != c && !in_reach(b, c, t, SHIELD_BASH_RADIUS)) ==> r[t] == b[t]
        }),
{
}

} // verus!

use vstd::prelude::*;

use crate::skills::{cast_skill, lemma_skill_only_harm, skill_outcome};
use crate::units::{
    board, clamp_i32, clamp_to_i32, hurt, in_reach, is_in_range, placed, pos_at, position_of, slot_view,
    unit_at, unit_wf, units_wf, only_harm, same_economy, CombatStats, Skill, SkillType, Unit, UnitView,
};

verus! {

/// Mana that the target of a basic attack gains.
pub const TARGET_MANA_GAIN: i32 = 1;

/// Mana that the attacker of a basic attack gains.
pub const ATTACKER_MANA_GAIN: i32 = 5;

/// A skill cast decided in the scan of a tick.
#[derive(Debug, Clone, Copy, PartialEq, Eq, Structural)]
pub struct SkillCast {
    pub caster: usize,
    pub kind: SkillType,
    pub damage: i32,
}

/// Damage of a basic attack: `attack * (1 - defense / 100)` rounded toward
/// zero, never below zero, saturated into `i32`.
pub open spec fn basic_damage(attack: int, defense: int) -> int {
    let p = attack * (100 - defense);
    if p <= 0 {
        0
    } else {
        clamp_i32(p / 100)
    }
}

/// For a non-negative attack and a defense between 0 and 100, the damage of
/// a basic attack is exactly `attack * (100 - defense) / 100` rounded down,
/// and lies between zero and the attack.
pub proof fn lemma_basic_damage_formula(attack: int, defense: int)
    requires
        0 <= attack <= i32::MAX,
        0 <= defense <= 100,
    ensures
        basic_damage(attack, defense) == (attack * (100 - defense)) / 100,
        0 <= basic_damage(attack, defense) <= attack,
{
    assert(0 <= attack * (100 - defense) <= attack * 100) by (nonlinear_arith)
        requires
            0 <= attack,
            0 <= defense <= 100,
    ;
}

/// A unit casts its skill when its mana is full and its skill is ready.
pub open spec fn wants_cast(u: UnitView) -> bool {
    u.mana == u.max_mana && u.skill.current_cooldown == 0
}

/// The first slot from `j` on whose unit the unit in slot `i` can reach with
/// a basic attack.
pub open spec fn first_target(b: Seq<Option<UnitView>>, i: int, j: int) -> Option<int>
    decreases b.len() - j,
{
    if j < 0 || j >= b.len() {
        None
    } else if in_reach(b, i, j, unit_at(b, i).attack_range) {
        Some(j)
    } else {
        first_target(b, i, j + 1)
    }
}

/// The skill casts that the scan of slots before `n` decides, in slot order.
pub open spec fn pending_casts(b: Seq<Option<UnitView>>, n: int) -> Seq<SkillCast>
    decreases n,
{
    if n <= 0 {
        Seq::empty()
    } else {
        let p = pending_casts(b, n - 1);
        let u = unit_at(b, n - 1);
        if placed(b, n - 1) && wants_cast(u) {
            p.push(SkillCast { caster: (n - 1) as usize, kind: u.skill.skill_type, damage: u.skill.damage })
        } else {
            p
        }
    }
}

/// The basic attacks (attacker, target) that the scan of slots before `n`
/// decides, in slot order.
pub open spec fn pending_attacks(b: Seq<Option<UnitView>>, n: int) -> Seq<(usize, usize)>
    decreases n,
{
    if n <= 0 {
        Seq::empty()
    } else {
        let p = pending_attacks(b, n - 1);
        if placed(b, n - 1) && !wants_cast(unit_at(b, n - 1)) && first_target(b, n - 1, 0) is Some {
            p.push(((n - 1) as usize, first_target(b, n - 1, 0)->Some_0 as usize))
        } else {
            p
        }
    }
}

/// A caster once its cast is committed: no mana, skill cooling down.
pub open spec fn committed(u: UnitView) -> UnitView {
    UnitView { mana: 0, skill: Skill { current_cooldown: u.skill.cooldown, ..u.skill }, ..u }
}

pub open spec fn commit_all(b: Seq<Option<UnitView>>) -> Seq<Option<UnitView>> {
    Seq::new(
        b.len(),
        |j: int|
            if placed(b, j) && wants_cast(unit_at(b, j)) {
                Some(committed(unit_at(b, j)))
            } else {
                b[j]
            },
    )
}

/// `u` with `k` more mana, up to its maximum.
pub open spec fn gain_mana(u: UnitView, k: int) -> UnitView {
    UnitView { mana: if u.mana + k < u.max_mana { (u.mana + k) as i32 } else { u.max_mana }, ..u }
}

/// One basic attack: the target loses the damage and gains one mana, then the
/// attacker gains five mana.
pub open spec fn apply_attack(b: Seq<Option<UnitView>>, a: (usize, usize)) -> Seq<Option<UnitView>> {
    let x = a.0 as int;
    let t = a.1 as int;
    if x < b.len() && t < b.len() && b[x] is Some && b[t] is Some {
        let dmg = basic_damage(unit_at(b, x).attack as int, unit_at(b, t).defense as int);
        let b1 = b.update(t, Some(gain_mana(hurt(unit_at(b, t), dmg), TARGET_MANA_GAIN as int)));
        b1.update(x, Some(gain_mana(unit_at(b1, x), ATTACKER_MANA_GAIN as int)))
    } else {
        b
    }
}

pub open spec fn apply_attacks(b: Seq<Option<UnitView>>, a: Seq<(usize, usize)>) -> Seq<Option<UnitView>>
    decreases a.len(),
{
    if a.len() == 0 {
        b
    } else {
        apply_attack(apply_attacks(b, a.drop_last()), a.last())
    }
}

pub open spec fn apply_casts(b: Seq<Option<UnitView>>, c: Seq<SkillCast>) -> Seq<Option<UnitView>>
    decreases c.len(),
{
    if c.len() == 0 {
        b
    } else {
        let last = c.last();
        skill_outcome(last.kind, apply_casts(b, c.drop_last()), last.caster as int, last.damage as int)
    }
}

pub open spec fn cool_all(b: Seq<Option<UnitView>>) -> Seq<Option<UnitView>> {
    Seq::new(
        b.len(),
        |j: int|
            if b[j] is Some && unit_at(b, j).skill.current_cooldown > 0 {
                Some(
                    UnitView {
                        skill: Skill {
                            current_cooldown: (unit_at(b, j).skill.current_cooldown - 1) as u32,
                            ..unit_at(b, j).skill
                        },
                        ..unit_at(b, j)
                    },
                )
            } else {
                b[j]
            },
    )
}

/// One tick of combat: decide on the board as it stands, commit the casts,
/// resolve the basic attacks, then the casts, then cool every skill by one.
pub open spec fn tick_outcome(b: Seq<Option<UnitView>>) -> Seq<Option<UnitView>> {
    let n = b.len() as int;
    cool_all(apply_casts(apply_attacks(commit_all(b), pending_attacks(b, n)), pending_casts(b, n)))
}

/// Every unit of `a` is still in `b`, with the same maximum mana and the
/// same configured cooldown; a unit whose mana lay within `[0, max_mana]`
/// still has it there, and a unit whose remaining cooldown lay within
/// `[0, cooldown]` still has it there.
pub open spec fn keeps_bounds(a: Seq<Option<UnitView>>, b: Seq<Option<UnitView>>) -> bool {
    &&& a.len() == b.len()
    &&& forall|j: int|
        0 <= j < a.len() ==> {
            &&& (#[trigger] b[j]) is Some == a[j] is Some
            &&& a[j] is Some ==> {
                let u = a[j]->Some_0;
                let v = b[j]->Some_0;
                &&& v.max_mana == u.max_mana
                &&& v.skill.cooldown == u.skill.cooldown
                &&& (0 <= u.mana <= u.max_mana ==> 0 <= v.mana <= v.max_mana)
                &&& (u.skill.current_cooldown <= u.skill.cooldown ==> v.skill.current_cooldown
                    <= v.skill.cooldown)
            }
        }
}

proof fn lemma_keeps_bounds_refl(a: Seq<Option<UnitView>>)
    ensures
        keeps_bounds(a, a),
{
}

proof fn lemma_keeps_bounds_trans(
    a: Seq<Option<UnitView>>,
    b: Seq<Option<UnitView>>,
    c: Seq<Option<UnitView>>,
)
    requires
        keeps_bounds(a, b),
        keeps_bounds(b, c),
    ensures
        keeps_bounds(a, c),
{
    assert forall|j: int| 0 <= j < a.len() implies {
        &&& (#[trigger] c[j]) is Some == a[j] is Some
        &&& a[j] is Some ==> {
            let u = a[j]->Some_0;
            let v = c[j]->Some_0;
            &&& v.max_mana == u.max_mana
            &&& v.skill.cooldown == u.skill.cooldown
            &&& (0 <= u.mana <= u.max_mana ==> 0 <= v.mana <= v.max_mana)
            &&& (u.skill.current_cooldown <= u.skill.cooldown ==> v.skill.current_cooldown
                <= v.skill.cooldown)
        }
    } by {
        assert(b[j] is Some == a[j] is Some);
    }
}

proof fn lemma_harm_keeps_bounds(a: Seq<Option<UnitView>>, b: Seq<Option<UnitView>>)
    requires
        only_harm(a, b),
    ensures
        keeps_bounds(a, b),
{
    assert forall|j: int| 0 <= j < a.len() implies {
        &&& (#[trigger] b[j]) is Some == a[j] is Some
        &&& a[j] is Some ==> {
            let u = a[j]->Some_0;
            let v = b[j]->Some_0;
            &&& v.max_mana == u.max_mana
            &&& v.skill.cooldown == u.skill.cooldown
            &&& (0 <= u.mana <= u.max_mana ==> 0 <= v.mana <= v.max_mana)
            &&& (u.skill.current_cooldown <= u.skill.cooldown ==> v.skill.current_cooldown
                <= v.skill.cooldown)
        }
    } by {
        assert(b[j] is Some == a[j] is Some);
        if a[j] is Some {
            assert(same_economy(a[j]->Some_0, b[j]->Some_0));
        }
    }
}

proof fn lemma_attack_keeps_bounds(b: Seq<Option<UnitView>>, a: (usize, usize))
    ensures
        keeps_bounds(b, apply_attack(b, a)),
{
    let x = a.0 as int;
    let t = a.1 as int;
    if x < b.len() && t < b.len() && b[x] is Some && b[t] is Some {
        let dmg = basic_damage(unit_at(b, x).attack as int, unit_at(b, t).defense as int);
        let b1 = b.update(t, Some(gain_mana(hurt(unit_at(b, t), dmg), TARGET_MANA_GAIN as int)));
        assert(keeps_bounds(b, b1));
        assert(keeps_bounds(b1, apply_attack(b, a)));
        lemma_keeps_bounds_trans(b, b1, apply_attack(b, a));
    }
}

proof fn lemma_attacks_keep_bounds(b: Seq<Option<UnitView>>, a: Seq<(usize, usize)>)
    ensures
        keeps_bounds(b, apply_attacks(b, a)),
    decreases a.len(),
{
    if a.len() > 0 {
        let prev = apply_attacks(b, a.drop_last());
        lemma_attacks_keep_bounds(b, a.drop_last());
        lemma_attack_keeps_bounds(prev, a.last());
        lemma_keeps_bounds_trans(b, prev, apply_attacks(b, a));
    }
}

proof fn lemma_casts_keep_bounds(b: Seq<Option<UnitView>>, c: Seq<SkillCast>)
    ensures
        keeps_bounds(b, apply_casts(b, c)),
    decreases c.len(),
{
    if c.len() > 0 {
        let last = c.last();
        let prev = apply_casts(b, c.drop_last());
        lemma_casts_keep_bounds(b, c.drop_last());
        lemma_skill_only_harm(last.kind, prev, last.caster as int, last.damage as int);
        lemma_harm_keeps_bounds(prev, apply_casts(b, c));
        lemma_keeps_bounds_trans(b, prev, apply_casts(b, c));
    }
}

/// A tick keeps each unit's maximum mana and configured cooldown, keeps its
/// mana within `[0, max_mana]` where it was there, and keeps its remaining
/// cooldown within `[0, cooldown]` where it was there; the two bounds hold
/// independently of each other.
pub proof fn lemma_tick_keeps_bounds(b: Seq<Option<UnitView>>)
    ensures
        keeps_bounds(b, tick_outcome(b)),
        units_wf(b) ==> units_wf(tick_outcome(b)),
{
    let n = b.len() as int;
    let b1 = commit_all(b);
    let b2 = apply_attacks(b1, pending_attacks(b, n));
    let b3 = apply_casts(b2, pending_casts(b, n));
    assert(keeps_bounds(b, b1));
    lemma_attacks_keep_bounds(b1, pending_attacks(b, n));
    lemma_casts_keep_bounds(b2, pending_casts(b, n));
    assert(keeps_bounds(b3, cool_all(b3)));
    lemma_keeps_bounds_trans(b, b1, b2);
    lemma_keeps_bounds_trans(b, b2, b3);
    lemma_keeps_bounds_trans(b, b3, cool_all(b3));
    let r = tick_outcome(b);
    if units_wf(b) {
        assert forall|j: int| 0 <= j < r.len() && (#[trigger] r[j]) is Some implies unit_wf(
            r[j]->Some_0,
        ) by {
            assert(b[j] is Some);
        }
    }
}

/// The board after `k` ticks of combat.
pub open spec fn ticks(b: Seq<Option<UnitView>>, k: nat) -> Seq<Option<UnitView>>
    decreases k,
{
    if k == 0 {
        b
    } else {
        tick_outcome(ticks(b, (k - 1) as nat))
    }
}

/// Over any number of ticks, each unit keeps its maximum mana and configured
/// cooldown, a unit whose mana lay within `[0, max_mana]` still has it
/// there, and a unit whose remaining cooldown lay within `[0, cooldown]`
/// still has it there.
pub proof fn lemma_ticks_keep_bounds(b: Seq<Option<UnitView>>, k: nat)
    ensures
        keeps_bounds(b, ticks(b, k)),
    decreases k,
{
    if k == 0 {
        lemma_keeps_bounds_refl(b);
    } else {
        lemma_ticks_keep_bounds(b, (k - 1) as nat);
        lemma_tick_keeps_bounds(ticks(b, (k - 1) as nat));
        lemma_keeps_bounds_trans(b, ticks(b, (k - 1) as nat), ticks(b, k));
    }
}

/// Mana stays within `[0, max_mana]` over any number of ticks.
pub proof fn lemma_ticks_keep_mana(b: Seq<Option<UnitView>>, k: nat)
    requires
        forall|j: int|
            0 <= j < b.len() && (#[trigger] b[j]) is Some ==> 0 <= b[j]->Some_0.mana
                <= b[j]->Some_0.max_mana,
    ensures
        forall|j: int|
            0 <= j < ticks(b, k).len() && (#[trigger] ticks(b, k)[j]) is Some ==> 0 <= ticks(
                b,
                k,
            )[j]->Some_0.mana <= ticks(b, k)[j]->Some_0.max_mana,
{
    lemma_ticks_keep_bounds(b, k);
    let r = ticks(b, k);
    assert forall|j: int| 0 <= j < r.len() && (#[trigger] r[j]) is Some implies 0
        <= r[j]->Some_0.mana <= r[j]->Some_0.max_mana by {
        assert(b[j] is Some);
    }
}

/// The remaining cooldown stays within `[0, cooldown]` over any number of
/// ticks.
pub proof fn lemma_ticks_keep_cooldown(b: Seq<Option<UnitView>>, k: nat)
    requires
        forall|j: int|
            0 <= j < b.len() && (#[trigger] b[j]) is Some ==> b[j]->Some_0.skill.current_cooldown
                <= b[j]->Some_0.skill.cooldown,
    ensures
        forall|j: int|
            0 <= j < ticks(b, k).len() && (#[trigger] ticks(b, k)[j]) is Some ==> ticks(
                b,
                k,
            )[j]->Some_0.skill.current_cooldown <= ticks(b, k)[j]->Some_0.skill.cooldown,
{
    lemma_ticks_keep_bounds(b, k);
    let r = ticks(b, k);
    assert forall|j: int| 0 <= j < r.len() && (#[trigger] r[j]) is Some implies r[j]->Some_0.skill.current_cooldown
        <= r[j]->Some_0.skill.cooldown by {
        assert(b[j] is Some);
    }
}

/// Whether the basic attack `a` can be resolved on `b`: both its units exist.
pub open spec fn attack_valid(b: Seq<Option<UnitView>>, a: (usize, usize)) -> bool {
    a.0 < b.len() && a.1 < b.len() && b[a.0 as int] is Some && b[a.1 as int] is Some
}

/// The damage that the attacks `a` deal the unit in slot `t`, each by the
/// formula on the attacker's attack and the target's defense in `b`.
pub open spec fn damage_to(b: Seq<Option<UnitView>>, a: Seq<(usize, usize)>, t: int) -> int
    decreases a.len(),
{
    if a.len() == 0 {
        0
    } else {
        let last = a.last();
        damage_to(b, a.drop_last(), t) + if last.1 == t && attack_valid(b, last) {
            basic_damage(unit_at(b, last.0 as int).attack as int, unit_at(b, t).defense as int)
        } else {
            0
        }
    }
}

proof fn lemma_basic_damage_nonneg(attack: int, defense: int)
    ensures
        basic_damage(attack, defense) >= 0,
{
}

proof fn lemma_damage_to_grows(b: Seq<Option<UnitView>>, a: Seq<(usize, usize)>, t: int)
    ensures
        damage_to(b, a, t) >= 0,
        a.len() > 0 ==> damage_to(b, a.drop_last(), t) <= damage_to(b, a, t),
    decreases a.len(),
{
    if a.len() > 0 {
        lemma_damage_to_grows(b, a.drop_last(), t);
        let last = a.last();
        lemma_basic_damage_nonneg(
            unit_at(b, last.0 as int).attack as int,
            unit_at(b, t).defense as int,
        );
    }
}

/// Basic attacks keep every slot filled as it was, and every unit's attack
/// and defense.
proof fn lemma_attacks_keep_figures(b: Seq<Option<UnitView>>, a: Seq<(usize, usize)>)
    ensures
        apply_attacks(b, a).len() == b.len(),
        forall|j: int|
            0 <= j < b.len() ==> {
                &&& (#[trigger] apply_attacks(b, a)[j]) is Some == b[j] is Some
                &&& b[j] is Some ==> {
                    &&& apply_attacks(b, a)[j]->Some_0.attack == b[j]->Some_0.attack
                    &&& apply_attacks(b, a)[j]->Some_0.defense == b[j]->Some_0.defense
                }
            },
    decreases a.len(),
{
    if a.len() > 0 {
        lemma_attacks_keep_figures(b, a.drop_last());
        let prev = apply_attacks(b, a.drop_last());
        assert forall|j: int| 0 <= j < b.len() implies {
            &&& (#[trigger] apply_attacks(b, a)[j]) is Some == b[j] is Some
            &&& b[j] is Some ==> {
                &&& apply_attacks(b, a)[j]->Some_0.attack == b[j]->Some_0.attack
                &&& apply_attacks(b, a)[j]->Some_0.defense == b[j]->Some_0.defense
            }
        } by {
            assert(prev[j] is Some == b[j] is Some);
        }
    }
}

/// Where no hit points reach the bound of `i32`, the attacks `a` take from
/// the unit in slot `t` exactly the sum of their damages.
proof fn lemma_attacks_hp(b: Seq<Option<UnitView>>, a: Seq<(usize, usize)>, t: int)
    requires
        0 <= t < b.len(),
        b[t] is Some,
        i32::MIN <= unit_at(b, t).hp - damage_to(b, a, t),
    ensures
        apply_attacks(b, a)[t] is Some,
        unit_at(apply_attacks(b, a), t).hp == unit_at(b, t).hp - damage_to(b, a, t),
    decreases a.len(),
{
    if a.len() > 0 {
        let prev = apply_attacks(b, a.drop_last());
        let last = a.last();
        lemma_damage_to_grows(b, a, t);
        lemma_damage_to_grows(b, a.drop_last(), t);
        lemma_attacks_hp(b, a.drop_last(), t);
        lemma_attacks_keep_figures(b, a.drop_last());
        let x = last.0 as int;
        if attack_valid(prev, last) {
            assert(b[x] is Some);
            assert(prev[x]->Some_0.attack == b[x]->Some_0.attack);
            assert(prev[t]->Some_0.defense == b[t]->Some_0.defense);
            lemma_basic_damage_nonneg(
                unit_at(b, x).attack as int,
                unit_at(b, t).defense as int,
            );
        } else {
            assert(!attack_valid(b, last));
        }
    }
}

proof fn lemma_no_casts(b: Seq<Option<UnitView>>, n: int)
    requires
        forall|j: int| 0 <= j < b.len() && placed(b, j) ==> !wants_cast(#[trigger] unit_at(b, j)),
    ensures
        pending_casts(b, n).len() == 0,
    decreases n,
{
    if n > 0 {
        lemma_no_casts(b, n - 1);
    }
}

/// A tick in which no unit casts takes from each unit exactly the damage of
/// the basic attacks aimed at it (each attacker hitting the first unit in
/// slot order within its reach), each by the damage formula, while no hit
/// points reach the bound of `i32`.
pub proof fn lemma_tick_damage(b: Seq<Option<UnitView>>, t: int)
    requires
        forall|j: int| 0 <= j < b.len() && placed(b, j) ==> !wants_cast(#[trigger] unit_at(b, j)),
        0 <= t < b.len(),
        b[t] is Some,
        i32::MIN <= unit_at(b, t).hp - damage_to(b, pending_attacks(b, b.len() as int), t),
    ensures
        tick_outcome(b)[t] is Some,
        unit_at(tick_outcome(b), t).hp == unit_at(b, t).hp - damage_to(
            b,
            pending_attacks(b, b.len() as int),
            t,
        ),
{
    let n = b.len() as int;
    assert(commit_all(b) =~= b);
    lemma_no_casts(b, n);
    let a = pending_attacks(b, n);
    lemma_attacks_hp(b, a, t);
    lemma_attacks_keep_figures(b, a);
    assert(apply_casts(apply_attacks(b, a), pending_casts(b, n)) == apply_attacks(b, a));
}

/// Damage that `attacker` deals `defender` with a basic attack.
pub fn calculate_damage(attacker: &CombatStats, defender: &CombatStats) -> (r: i32)
    ensures
        r == basic_damage(attacker.attack as int, defender.defense as int),
{
    let a: i64 = attacker.attack as i64;
    let f: i64 = 100 - defender.defense as i64;
    assert(-0x8000_0000i64 * 0x8000_0064i64 <= a * f <= 0x8000_0000i64 * 0x8000_0064i64)
        by (nonlinear_arith)
        requires -0x8000_0000i64 <= a <= 0x8000_0000i64, -0x8000_0064i64 <= f <= 0x8000_0064i64;
    let p: i64 = a * f;
    if p <= 0 {
        0
    } else {
        clamp_to_i32(p / 100)
    }
}

fn commit_slot(units: &mut Vec<Option<Unit>>, j: usize)
    requires
        j < old(units)@.len(),
        old(units)@[j as int] is Some,
    ensures
        final(units)@.len() == old(units)@.len(),
        forall|k: int| 0 <= k < old(units)@.len() && k != j ==> final(units)@[k] == old(units)@[k],
        slot_view(final(units)@[j as int]) == Some(committed(old(units)@[j as int]->Some_0@)),
{
    let mut slot: Option<Unit> = None;
    units.set_and_swap(j, &mut slot);
    if let Some(mut u) = slot {
        u.stats.mana = 0;
        u.stats.skill.current_cooldown = u.stats.skill.cooldown;
        units.set(j, Some(u));
    }
}

fn with_mana_gain(mana: i32, max_mana: i32, k: i32) -> (r: i32)
    requires
        0 <= k,
    ensures
        r == (if mana + k < max_mana { (mana + k) as i32 } else { max_mana }),
{
    let m: i64 = mana as i64 + k as i64;
    if m < max_mana as i64 {
        m as i32
    } else {
        max_mana
    }
}

/// The target of a basic attack loses `dmg` hit points and gains mana.
fn strike_slot(units: &mut Vec<Option<Unit>>, j: usize, dmg: i32)
    requires
        j < old(units)@.len(),
        old(units)@[j as int] is Some,
    ensures
        final(units)@.len() == old(units)@.len(),
        forall|k: int| 0 <= k < old(units)@.len() && k != j ==> final(units)@[k] == old(units)@[k],
        slot_view(final(units)@[j as int]) == Some(
            gain_mana(hurt(old(units)@[j as int]->Some_0@, dmg as int), TARGET_MANA_GAIN as int),
        ),
{
    let mut slot: Option<Unit> = None;
    units.set_and_swap(j, &mut slot);
    if let Some(mut u) = slot {
        u.stats.hp = clamp_to_i32(u.stats.hp as i64 - dmg as i64);
        u.stats.mana = with_mana_gain(u.stats.mana, u.stats.max_mana, TARGET_MANA_GAIN);
        units.set(j, Some(u));
    }
}

/// The attacker of a basic attack gains mana.
fn reward_slot(units: &mut Vec<Option<Unit>>, j: usize)
    requires
        j < old(units)@.len(),
        old(units)@[j as int] is Some,
    ensures
        final(units)@.len() == old(units)@.len(),
        forall|k: int| 0 <= k < old(units)@.len() && k != j ==> final(units)@[k] == old(units)@[k],
        slot_view(final(units)@[j as int]) == Some(
            gain_mana(old(units)@[j as int]->Some_0@, ATTACKER_MANA_GAIN as int),
        ),
{
    let mut slot: Option<Unit> = None;
    units.set_and_swap(j, &mut slot);
    if let Some(mut u) = slot {
        u.stats.mana = with_mana_gain(u.stats.mana, u.stats.max_mana, ATTACKER_MANA_GAIN);
        units.set(j, Some(u));
    }
}

fn cool_slot(units: &mut Vec<Option<Unit>>, j: usize)
    requires
        j < old(units)@.len(),
    ensures
        final(units)@.len() == old(units)@.len(),
        forall|k: int| 0 <= k < old(units)@.len() && k != j ==> final(units)@[k] == old(units)@[k],
        slot_view(final(units)@[j as int]) == cool_all(board(old(units)@))[j as int],
{
    let mut slot: Option<Unit> = None;
    units.set_and_swap(j, &mut slot);
    if let Some(mut u) = slot {
        if u.stats.skill.current_cooldown > 0 {
            u.stats.skill.current_cooldown = u.stats.skill.current_cooldown - 1;
        }
        units.set(j, Some(u));
    }
}

/// Runs one tick of combat over the board.
pub struct CombatSystem;

impl CombatSystem {
    /// Runs one tick of combat: every placed unit whose mana is full and
    /// whose skill is ready casts it; every other placed unit attacks the
    /// first unit in slot order that it can reach. Casts are committed, basic
    /// attacks resolved, then casts, then every skill cools by one.
    pub fn run(&mut self, units: &mut Vec<Option<Unit>>)
        ensures
            board(final(units)@) == tick_outcome(board(old(units)@)),
            keeps_bounds(board(old(units)@), board(final(units)@)),
            units_wf(board(old(units)@)) ==> units_wf(board(final(units)@)),
    {
        let ghost b0 = board(units@);
        let n = units.len();
        let mut attacks: Vec<(usize, usize)> = Vec::new();
        let mut casts: Vec<SkillCast> = Vec::new();
        let mut i: usize = 0;
        while i < n
            invariant
                n == units@.len(),
                b0 == board(units@),
                i <= n,
                casts@ == pending_casts(b0, i as int),
                attacks@ == pending_attacks(b0, i as int),
            decreases n - i,
        {
            if let Some(pos_i) = position_of(units, i) {
                match &units[i] {
                    Some(u) => {
                        if u.stats.mana == u.stats.max_mana && u.stats.skill.current_cooldown == 0 {
                            casts.push(
                                SkillCast {
                                    caster: i,
                                    kind: u.stats.skill.skill_type,
                                    damage: u.stats.skill.damage,
                                },
                            );
                        } else {
                            let range = u.stats.attack_range;
                            let mut found: Option<usize> = None;
                            let mut j: usize = 0;
                            while j < n && found.is_none()
                                invariant
                                    n == units@.len(),
                                    b0 == board(units@),
                                    j <= n,
                                    placed(b0, i as int),
                                    pos_i == pos_at(b0, i as int),
                                    range == unit_at(b0, i as int).attack_range,
                                    first_target(b0, i as int, 0) == (match found {
                                        Some(t) => Some(t as int),
                                        None => first_target(b0, i as int, j as int),
                                    }),
                                decreases n - j,
                            {
                                if j != i {
                                    if let Some(p) = position_of(units, j) {
                                        if is_in_range(&pos_i, &p, range) {
                                            found = Some(j);
                                        }
                                    }
                                }
                                j += 1;
                            }
                            if let Some(t) = found {
                                attacks.push((i, t));
                            }
                        }
                    },
                    None => {},
                }
            }
            i += 1;
        }
        assert(casts@ =~= casts@.take(casts@.len() as int));
        assert(attacks@ =~= attacks@.take(attacks@.len() as int));

        let ghost goal1 = commit_all(b0);
        let mut j: usize = 0;
        while j < n
            invariant
                n == units@.len(),
                b0.len() == n,
                goal1 == commit_all(b0),
                j <= n,
                forall|k: int| 0 <= k < j ==> slot_view(#[trigger] units@[k]) == goal1[k],
                forall|k: int| j <= k < n ==> slot_view(#[trigger] units@[k]) == b0[k],
            decreases n - j,
        {
            assert(board(units@)[j as int] == b0[j as int]);
            if position_of(units, j).is_some() {
                let wants = match &units[j] {
                    Some(u) => u.stats.mana == u.stats.max_mana && u.stats.skill.current_cooldown == 0,
                    None => false,
                };
                if wants {
                    commit_slot(units, j);
                }
            }
            assert(slot_view(units@[j as int]) == goal1[j as int]);
            j += 1;
        }
        assert(board(units@) =~= goal1);

        let ghost b1 = board(units@);
        let mut k: usize = 0;
        while k < attacks.len()
            invariant
                n == units@.len(),
                b1.len() == n,
                k <= attacks@.len(),
                board(units@) == apply_attacks(b1, attacks@.take(k as int)),
            decreases attacks@.len() - k,
        {
            let ghost before = board(units@);
            let (x, t) = attacks[k];
            if x < units.len() && t < units.len() && units[x].is_some() && units[t].is_some() {
                let dmg: i32 = match &units[x] {
                    Some(ua) => match &units[t] {
                        Some(ut) => calculate_damage(&ua.stats, &ut.stats),
                        None => 0,
                    },
                    None => 0,
                };
                strike_slot(units, t, dmg);
                let ghost mid = board(units@);
                assert(mid =~= before.update(
                    t as int,
                    Some(gain_mana(hurt(unit_at(before, t as int), dmg as int), TARGET_MANA_GAIN as int)),
                ));
                reward_slot(units, x);
                assert(board(units@) =~= mid.update(
                    x as int,
                    Some(gain_mana(unit_at(mid, x as int), ATTACKER_MANA_GAIN as int)),
                ));
            }
            assert(attacks@.take(k + 1).drop_last() =~= attacks@.take(k as int));
            assert(board(units@) == apply_attack(before, attacks@[k as int]));
            k += 1;
        }

        let ghost b2 = board(units@);
        let mut k: usize = 0;
        while k < casts.len()
            invariant
                b2.len() == n,
                k <= casts@.len(),
                board(units@) == apply_casts(b2, casts@.take(k as int)),
            decreases casts@.len() - k,
        {
            let c = casts[k];
            cast_skill(c.kind, c.caster, c.damage, units);
            assert(casts@.take(k + 1).drop_last() =~= casts@.take(k as int));
            k += 1;
        }

        let ghost b3 = board(units@);
        let ghost goal3 = cool_all(b3);
        let n3 = units.len();
        let mut j: usize = 0;
        while j < n3
            invariant
                n3 == units@.len(),
                b3.len() == n3,
                goal3 == cool_all(b3),
                j <= n3,
                forall|k: int| 0 <= k < j ==> slot_view(#[trigger] units@[k]) == goal3[k],
                forall|k: int| j <= k < n3 ==> slot_view(#[trigger] units@[k]) == b3[k],
            decreases n3 - j,
        {
            assert(board(units@)[j as int] == b3[j as int]);
            cool_slot(units, j);
            assert(slot_view(units@[j as int]) == goal3[j as int]);
            j += 1;
        }
        assert(board(units@) =~= goal3);
        proof {
            lemma_tick_keeps_bounds(b0);
        }
    }
}

} // verus!

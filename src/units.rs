use vstd::prelude::*;

verus! {

/// A square of the board. Distances between squares are Euclidean.
#[derive(Debug, Clone, Copy, PartialEq, Eq, Structural)]
pub struct Position {
    pub x: i32,
    pub y: i32,
}

/// The archetypes a unit can be spawned as.
#[derive(Debug, Clone, Copy, PartialEq, Eq, Structural)]
pub enum ChessType {
    Warrior,
    Mage,
    Archer,
    Tank,
}

/// Identity of a unit on the board.
#[derive(Debug, Clone)]
pub struct Chess {
    pub id: u128,
    pub name: String,
    pub level: u32,
    pub chess_type: ChessType,
}

/// The four skills of the catalog.
#[derive(Debug, Clone, Copy, PartialEq, Eq, Structural)]
pub enum SkillType {
    /// Hits every other unit within 2 squares.
    WhirlwindSlash,
    /// Hits the nearest other unit for one and a half times its damage.
    Fireball,
    /// Hits up to three other units within 3 squares for four fifths of its damage.
    MultiShot,
    /// Raises the caster's defense and stuns every other unit within 1.5 squares.
    ShieldBash,
}

/// A unit's skill. Ranges are in tenths of a square.
#[derive(Debug, Clone, Copy, PartialEq, Eq, Structural)]
pub struct Skill {
    pub skill_type: SkillType,
    pub damage: i32,
    pub range: u32,
    pub duration: Option<u32>,
    pub cooldown: u32,
    pub current_cooldown: u32,
}

/// Combat figures of a unit. `attack_speed` is in hundredths, `attack_range`
/// in tenths of a square.
#[derive(Debug, Clone)]
pub struct CombatStats {
    pub name: String,
    pub hp: i32,
    pub max_hp: i32,
    pub attack: i32,
    pub defense: i32,
    pub magic_resist: i32,
    pub attack_speed: u32,
    pub attack_range: u32,
    pub mana: i32,
    pub max_mana: i32,
    pub skill: Skill,
}

#[derive(Debug, Clone, Copy, PartialEq, Eq, Structural)]
pub enum EffectType {
    Stun,
    Poison,
    Heal,
    AttackBuff,
    DefenseBuff,
}

/// A timed modifier; `magnitude` is in hundredths.
#[derive(Debug, Clone, Copy, PartialEq, Eq, Structural)]
pub struct Effect {
    pub effect_type: EffectType,
    pub duration: u32,
    pub magnitude: u32,
}

/// The ordered list of effects on one unit.
#[derive(Debug, Clone)]
pub struct StatusEffects {
    pub effects: Vec<Effect>,
}

/// One record of the board: a unit, where it stands (if it has been placed),
/// its figures and its effects.
#[derive(Debug, Clone)]
pub struct Unit {
    pub chess: Chess,
    pub position: Option<Position>,
    pub stats: CombatStats,
    pub status: StatusEffects,
}

/// Squared Euclidean distance between two squares.
pub open spec fn dist_sq(a: Position, b: Position) -> int {
    (a.x - b.x) * (a.x - b.x) + (a.y - b.y) * (a.y - b.y)
}

/// `b` is at most `range` tenths of a square away from `a`.
pub open spec fn within(a: Position, b: Position, range: u32) -> bool {
    100 * dist_sq(a, b) <= range * range
}

pub open spec fn clamp_i32(v: int) -> int {
    if v < i32::MIN {
        i32::MIN as int
    } else if v > i32::MAX {
        i32::MAX as int
    } else {
        v
    }
}

/// `a / b` rounded toward zero, for `b > 0`.
pub open spec fn trunc_div(a: int, b: int) -> int {
    if a >= 0 {
        a / b
    } else {
        -((-a) / b)
    }
}

/// What a unit is, as plain values: its identity, where it stands, its
/// figures and its effects.
pub struct UnitView {
    pub id: u128,
    pub name: Seq<char>,
    pub level: u32,
    pub chess_type: ChessType,
    pub position: Option<Position>,
    pub stats_name: Seq<char>,
    pub hp: i32,
    pub max_hp: i32,
    pub attack: i32,
    pub defense: i32,
    pub magic_resist: i32,
    pub attack_speed: u32,
    pub attack_range: u32,
    pub mana: i32,
    pub max_mana: i32,
    pub skill: Skill,
    pub effects: Seq<Effect>,
}

impl View for Unit {
    type V = UnitView;

    open spec fn view(&self) -> UnitView {
        UnitView {
            id: self.chess.id,
            name: self.chess.name@,
            level: self.chess.level,
            chess_type: self.chess.chess_type,
            position: self.position,
            stats_name: self.stats.name@,
            hp: self.stats.hp,
            max_hp: self.stats.max_hp,
            attack: self.stats.attack,
            defense: self.stats.defense,
            magic_resist: self.stats.magic_resist,
            attack_speed: self.stats.attack_speed,
            attack_range: self.stats.attack_range,
            mana: self.stats.mana,
            max_mana: self.stats.max_mana,
            skill: self.stats.skill,
            effects: self.status.effects@,
        }
    }
}

pub open spec fn slot_view(o: Option<Unit>) -> Option<UnitView> {
    match o {
        Some(u) => Some(u@),
        None => None,
    }
}

/// The board as plain values: slot `j` holds the view of the unit with
/// handle `j`, or nothing where that unit was removed.
pub open spec fn board(s: Seq<Option<Unit>>) -> Seq<Option<UnitView>> {
    s.map_values(|o: Option<Unit>| slot_view(o))
}

/// The unit in slot `j` (meaningful only where the slot is filled).
pub open spec fn unit_at(b: Seq<Option<UnitView>>, j: int) -> UnitView {
    b[j]->Some_0
}

/// Slot `j` holds a unit that stands on the board.
pub open spec fn placed(b: Seq<Option<UnitView>>, j: int) -> bool {
    0 <= j < b.len() && b[j] is Some && unit_at(b, j).position is Some
}

pub open spec fn pos_at(b: Seq<Option<UnitView>>, j: int) -> Position {
    unit_at(b, j).position->Some_0
}

/// Slot `j` holds a placed unit, other than the placed unit in slot `c`, at
/// most `range` tenths of a square away from it.
pub open spec fn in_reach(b: Seq<Option<UnitView>>, c: int, j: int, range: u32) -> bool {
    placed(b, c) && placed(b, j) && j != c && within(pos_at(b, c), pos_at(b, j), range)
}

/// The mana and cooldown bounds that every unit keeps.
pub open spec fn unit_wf(u: UnitView) -> bool {
    &&& 0 <= u.mana <= u.max_mana
    &&& u.skill.current_cooldown <= u.skill.cooldown
}

pub open spec fn units_wf(b: Seq<Option<UnitView>>) -> bool {
    forall|j: int| 0 <= j < b.len() && (#[trigger] b[j]) is Some ==> unit_wf(b[j]->Some_0)
}

/// `u` keeps from `v` where it stands, its mana, its skill and its reach.
pub open spec fn same_economy(v: UnitView, u: UnitView) -> bool {
    &&& u.position == v.position
    &&& u.mana == v.mana
    &&& u.max_mana == v.max_mana
    &&& u.skill == v.skill
    &&& u.attack_range == v.attack_range
}

/// `b` differs from `a` at most in hit points, defense and status effects:
/// the same slots are filled, units stand where they stood, and mana and
/// skills are untouched.
pub open spec fn only_harm(a: Seq<Option<UnitView>>, b: Seq<Option<UnitView>>) -> bool {
    &&& a.len() == b.len()
    &&& forall|j: int|
        0 <= j < a.len() ==> {
            &&& (#[trigger] b[j]) is Some == a[j] is Some
            &&& a[j] is Some ==> same_economy(a[j]->Some_0, b[j]->Some_0)
        }
}

/// Squared distance between two squares, exact.
pub fn distance_squared(a: &Position, b: &Position) -> (r: u128)
    ensures
        r == dist_sq(*a, *b),
        r <= 0x2_0000_0000_0000_0000u128,
{
    let dx: i64 = a.x as i64 - b.x as i64;
    let dy: i64 = a.y as i64 - b.y as i64;
    let ax: u128 = if dx < 0 { (-dx) as u128 } else { dx as u128 };
    let ay: u128 = if dy < 0 { (-dy) as u128 } else { dy as u128 };
    assert(ax * ax == dx * dx) by (nonlinear_arith)
        requires ax == dx || ax == -dx;
    assert(ay * ay == dy * dy) by (nonlinear_arith)
        requires ay == dy || ay == -dy;
    assert(ax * ax <= 0x1_0000_0000u128 * 0x1_0000_0000u128) by (nonlinear_arith)
        requires ax <= 0x1_0000_0000u128;
    assert(ay * ay <= 0x1_0000_0000u128 * 0x1_0000_0000u128) by (nonlinear_arith)
        requires ay <= 0x1_0000_0000u128;
    ax * ax + ay * ay
}

/// Whether `target_pos` is at most `range` tenths of a square away from
/// `attacker_pos`.
pub fn is_in_range(attacker_pos: &Position, target_pos: &Position, range: u32) -> (r: bool)
    ensures
        r == within(*attacker_pos, *target_pos, range),
{
    let d = distance_squared(attacker_pos, target_pos);
    let r64: u64 = range as u64;
    assert(r64 * r64 <= 0xFFFF_FFFFu64 * 0xFFFF_FFFFu64) by (nonlinear_arith)
        requires r64 <= 0xFFFF_FFFFu64;
    let rr: u128 = (r64 * r64) as u128;
    100 * d <= rr
}

/// `u` after losing `amount` hit points (saturating at the bounds of `i32`).
pub open spec fn hurt(u: UnitView, amount: int) -> UnitView {
    UnitView { hp: clamp_i32(u.hp - amount) as i32, ..u }
}

/// Saturates `v` into `i32`.
pub fn clamp_to_i32(v: i64) -> (r: i32)
    ensures
        r == clamp_i32(v as int),
{
    if v < i32::MIN as i64 {
        i32::MIN
    } else if v > i32::MAX as i64 {
        i32::MAX
    } else {
        v as i32
    }
}

/// Where the unit with handle `j` stands, if it exists and has been placed.
pub fn position_of(units: &Vec<Option<Unit>>, j: usize) -> (r: Option<Position>)
    ensures
        r == (if placed(board(units@), j as int) {
            Some(pos_at(board(units@), j as int))
        } else {
            None::<Position>
        }),
{
    if j >= units.len() {
        return None;
    }
    match &units[j] {
        Some(u) => u.position,
        None => None,
    }
}

/// Takes `amount` hit points from the unit in slot `j`.
pub(crate) fn hurt_slot(units: &mut Vec<Option<Unit>>, j: usize, amount: i32)
    requires
        j < old(units)@.len(),
        old(units)@[j as int] is Some,
    ensures
        final(units)@.len() == old(units)@.len(),
        forall|k: int| 0 <= k < old(units)@.len() && k != j ==> final(units)@[k] == old(units)@[k],
        final(units)@[j as int] is Some,
        final(units)@[j as int]->Some_0@ == hurt(old(units)@[j as int]->Some_0@, amount as int),
{
    let mut slot: Option<Unit> = None;
    units.set_and_swap(j, &mut slot);
    if let Some(mut u) = slot {
        u.stats.hp = clamp_to_i32(u.stats.hp as i64 - amount as i64);
        units.set(j, Some(u));
    }
}

} // verus!

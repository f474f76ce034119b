use vstd::prelude::*;
use vstd::string::*;

use crate::combat::{tick_outcome, CombatSystem};
use crate::turn::{advance_n, advance_phase, lemma_advance_shift, lemma_full_rotation, next_turn_state, Player, TurnManager, TurnPhase, TurnState};
use crate::units::{
    board, unit_at, unit_wf, units_wf, Chess, ChessType, CombatStats, Position, Skill,
    SkillType, StatusEffects, Unit, UnitView,
};

verus! {

/// Length of the Preparation phase, in milliseconds.
pub const PREPARATION_TIME: u64 = 30000;

/// Length of the Combat phase, in milliseconds.
pub const COMBAT_TIME: u64 = 60000;

/// Length of the Resolution phase, in milliseconds.
pub const RESOLUTION_TIME: u64 = 5000;

/// Length of the opening Selection countdown, in milliseconds.
pub const SELECTION_TIME: i64 = 10000;

/// The top-level mode of a match: the opening selection, then combat.
#[derive(Debug, Clone, Copy, PartialEq, Eq, Structural)]
pub enum Mode {
    Selection,
    Combat,
}

/// What a match refuses at set-up.
#[derive(Debug, Clone, Copy, PartialEq, Eq, Structural)]
pub enum GameError {
    /// A match needs at least one player, and each needs a column of the board.
    InvalidPlayerCount,
    /// The match already has its turn state.
    AlreadyInitialized,
}

/// A message between a player's connection and the simulation.
#[derive(Debug, Clone)]
pub enum ChannelMessage {
    WebSocketEvent(String),
    SpecsEvent(String),
}

/// What a tick reports to the host.
#[derive(Debug, Clone, Copy, PartialEq, Eq, Structural)]
pub struct TickEvents {
    /// The selection countdown ran out in this tick: players are to be paired
    /// for combat.
    pub paired: bool,
    /// A Preparation phase opened in this tick (the first one opens when
    /// combat mode begins): the players' buffered commands are to be drained
    /// now.
    pub drain_commands: bool,
}

/// The digits of `n` in base ten.
pub open spec fn decimal(n: nat) -> Seq<char>
    decreases n,
{
    if n < 10 {
        seq![seq!['0', '1', '2', '3', '4', '5', '6', '7', '8', '9'][n as int]]
    } else {
        decimal(n / 10).push(seq!['0', '1', '2', '3', '4', '5', '6', '7', '8', '9'][(n % 10) as int])
    }
}

/// The key of the `i`-th player: `player_` and then `i` in base ten.
pub open spec fn player_key(i: usize) -> Seq<char> {
    "player_"@ + decimal(i as nat)
}

/// Relies on std's `ToString` for `usize`, which writes the number in base
/// ten.
#[verifier::external_body]
fn decimal_string(i: usize) -> (r: String)
    ensures
        r@ == decimal(i as nat),
{
    i.to_string()
}

/// The key of the `i`-th player, under which its messages are routed.
pub fn player_name(i: usize) -> (r: String)
    ensures
        r@ == player_key(i),
{
    let digits = decimal_string(i);
    let mut r = String::from_str("player_");
    r.append(digits.as_str());
    r
}

/// Relies on rand's `SliceRandom::choose` with the thread's generator: an
/// element of the slice, and none only when the slice is empty.
#[verifier::external_body]
fn choose_chess_type(options: &Vec<ChessType>) -> (r: Option<ChessType>)
    ensures
        r is Some == (options@.len() > 0),
        r matches Some(t) ==> options@.contains(t),
{
    <[ChessType] as rand::seq::SliceRandom>::choose(options, &mut rand::thread_rng()).copied()
}

/// Relies on uuid's `Uuid::new_v4` and `Uuid::as_u128`: a random identifier
/// whose version field reads 4.
#[verifier::external_body]
fn new_unit_id() -> (r: u128)
    ensures
        (r >> 76u128) & 0xFu128 == 4,
{
    uuid::Uuid::new_v4().as_u128()
}

/// The name of an archetype.
pub open spec fn chess_type_name(t: ChessType) -> Seq<char> {
    match t {
        ChessType::Warrior => "Warrior"@,
        ChessType::Mage => "Mage"@,
        ChessType::Archer => "Archer"@,
        ChessType::Tank => "Tank"@,
    }
}

/// A fresh unit of archetype `t` with identifier `id`, standing at `(x, y)`:
/// full health, no mana, skill ready, no effects.
pub open spec fn base_unit(t: ChessType, x: i32, y: i32, id: u128) -> UnitView {
    let (hp, attack, defense, magic_resist, attack_speed, attack_range, max_mana) = match t {
        ChessType::Warrior => (100i32, 15i32, 10i32, 5i32, 100u32, 10u32, 100i32),
        ChessType::Mage => (70i32, 8i32, 5i32, 15i32, 80u32, 30u32, 80i32),
        ChessType::Archer => (80i32, 20i32, 5i32, 5i32, 120u32, 40u32, 90i32),
        ChessType::Tank => (150i32, 10i32, 20i32, 20i32, 70u32, 10u32, 120i32),
    };
    UnitView {
        id,
        name: chess_type_name(t),
        level: 1,
        chess_type: t,
        position: Some(Position { x, y }),
        stats_name: chess_type_name(t),
        hp,
        max_hp: hp,
        attack,
        defense,
        magic_resist,
        attack_speed,
        attack_range,
        mana: 0,
        max_mana,
        skill: base_skill(t),
        effects: Seq::empty(),
    }
}

/// The skill that each archetype is born with.
pub open spec fn base_skill(t: ChessType) -> Skill {
    match t {
        ChessType::Warrior => Skill {
            skill_type: SkillType::WhirlwindSlash,
            damage: 30,
            range: 20,
            duration: None,
            cooldown: 3,
            current_cooldown: 0,
        },
        ChessType::Mage => Skill {
            skill_type: SkillType::Fireball,
            damage: 50,
            range: 40,
            duration: None,
            cooldown: 4,
            current_cooldown: 0,
        },
        ChessType::Archer => Skill {
            skill_type: SkillType::MultiShot,
            damage: 25,
            range: 30,
            duration: None,
            cooldown: 3,
            current_cooldown: 0,
        },
        ChessType::Tank => Skill {
            skill_type: SkillType::ShieldBash,
            damage: 15,
            range: 15,
            duration: Some(2),
            cooldown: 5,
            current_cooldown: 0,
        },
    }
}

fn archetype_name(t: ChessType) -> (r: String)
    ensures
        r@ == chess_type_name(t),
{
    match t {
        ChessType::Warrior => String::from_str("Warrior"),
        ChessType::Mage => String::from_str("Mage"),
        ChessType::Archer => String::from_str("Archer"),
        ChessType::Tank => String::from_str("Tank"),
    }
}

fn base_skill_of(t: ChessType) -> (r: Skill)
    ensures
        r == base_skill(t),
{
    match t {
        ChessType::Warrior => Skill {
            skill_type: SkillType::WhirlwindSlash,
            damage: 30,
            range: 20,
            duration: None,
            cooldown: 3,
            current_cooldown: 0,
        },
        ChessType::Mage => Skill {
            skill_type: SkillType::Fireball,
            damage: 50,
            range: 40,
            duration: None,
            cooldown: 4,
            current_cooldown: 0,
        },
        ChessType::Archer => Skill {
            skill_type: SkillType::MultiShot,
            damage: 25,
            range: 30,
            duration: None,
            cooldown: 3,
            current_cooldown: 0,
        },
        ChessType::Tank => Skill {
            skill_type: SkillType::ShieldBash,
            damage: 15,
            range: 15,
            duration: Some(2),
            cooldown: 5,
            current_cooldown: 0,
        },
    }
}

/// A fresh unit of archetype `t` at `(x, y)`.
fn fresh_unit(t: ChessType, x: i32, y: i32, id: u128) -> (r: Unit)
    ensures
        r@ == base_unit(t, x, y, id),
{
    let (hp, attack, defense, magic_resist, attack_speed, attack_range, max_mana) = match t {
        ChessType::Warrior => (100i32, 15i32, 10i32, 5i32, 100u32, 10u32, 100i32),
        ChessType::Mage => (70i32, 8i32, 5i32, 15i32, 80u32, 30u32, 80i32),
        ChessType::Archer => (80i32, 20i32, 5i32, 5i32, 120u32, 40u32, 90i32),
        ChessType::Tank => (150i32, 10i32, 20i32, 20i32, 70u32, 10u32, 120i32),
    };
    let r = Unit {
        chess: Chess { id, name: archetype_name(t), level: 1, chess_type: t },
        position: Some(Position { x, y }),
        stats: CombatStats {
            name: archetype_name(t),
            hp,
            max_hp: hp,
            attack,
            defense,
            magic_resist,
            attack_speed,
            attack_range,
            mana: 0,
            max_mana,
            skill: base_skill_of(t),
        },
        status: StatusEffects { effects: Vec::new() },
    };
    assert(r@.effects =~= Seq::<crate::units::Effect>::empty());
    r
}

/// The selection countdown after `d` more milliseconds, saturating.
pub open spec fn timer_after(t: i64, d: u64) -> i64 {
    if t - d < i64::MIN {
        i64::MIN
    } else {
        (t - d) as i64
    }
}

/// The mode gate for one tick of `d` milliseconds: the mode, the countdown,
/// and whether the switch to combat happened in this tick.
pub open spec fn gate_step(mode: Mode, timer: i64, d: u64) -> (Mode, i64, bool) {
    let t = timer_after(timer, d);
    match mode {
        Mode::Selection => if t <= 0 {
            (Mode::Combat, 0i64, true)
        } else {
            (Mode::Selection, t, false)
        },
        Mode::Combat => (Mode::Combat, t, false),
    }
}

/// How many times the switch to combat happens over ticks of lengths `ds`.
pub open spec fn gate_fires(mode: Mode, timer: i64, ds: Seq<u64>) -> nat
    decreases ds.len(),
{
    if ds.len() == 0 {
        0
    } else {
        let (m, t, fired) = gate_step(mode, timer, ds[0]);
        (if fired { 1nat } else { 0nat }) + gate_fires(m, t, ds.drop_first())
    }
}

proof fn lemma_combat_never_fires(timer: i64, ds: Seq<u64>)
    ensures
        gate_fires(Mode::Combat, timer, ds) == 0,
    decreases ds.len(),
{
    if ds.len() > 0 {
        let (m, t, fired) = gate_step(Mode::Combat, timer, ds[0]);
        lemma_combat_never_fires(t, ds.drop_first());
    }
}

/// Whatever the lengths of the ticks, the switch from selection to combat
/// happens at most once, and never once the match is in combat.
pub proof fn lemma_gate_fires_once(mode: Mode, timer: i64, ds: Seq<u64>)
    ensures
        gate_fires(mode, timer, ds) <= 1,
        mode == Mode::Combat ==> gate_fires(mode, timer, ds) == 0,
    decreases ds.len(),
{
    if ds.len() > 0 {
        let (m, t, fired) = gate_step(mode, timer, ds[0]);
        if fired {
            lemma_combat_never_fires(t, ds.drop_first());
        } else {
            lemma_gate_fires_once(m, t, ds.drop_first());
        }
    } else {
    }
}

/// While the match is in selection no phase ends, however long the tick.
pub proof fn lemma_selection_holds_turns(g: GameState, delta: u64)
    requires
        g.mode == Mode::Selection,
    ensures
        g.turn_after(delta) == g.turn_state,
        g.manager_after(delta) == g.turn_manager,
{
}

/// The match after `update` has run for ticks of lengths `ds`, in order.
pub open spec fn after_updates(g: GameState, ds: Seq<u64>) -> GameState
    decreases ds.len(),
{
    if ds.len() == 0 {
        g
    } else {
        after_updates(g.after_update(ds[0]), ds.drop_first())
    }
}

/// How many phases end over ticks of lengths `ds`.
pub open spec fn phase_ends(g: GameState, ds: Seq<u64>) -> nat
    decreases ds.len(),
{
    if ds.len() == 0 {
        0
    } else {
        (if g.phase_ends_in(ds[0]) {
            1nat
        } else {
            0nat
        }) + phase_ends(g.after_update(ds[0]), ds.drop_first())
    }
}

/// In combat mode, a run of ticks moves the turn state exactly as many
/// phases forward as end in it.
pub proof fn lemma_updates_advance(g: GameState, ds: Seq<u64>)
    requires
        g.mode == Mode::Combat,
        g.turn_state is Some,
    ensures
        after_updates(g, ds).mode == Mode::Combat,
        after_updates(g, ds).turn_state == Some(
            advance_n(g.turn_state->Some_0, phase_ends(g, ds)),
        ),
    decreases ds.len(),
{
    if ds.len() > 0 {
        let s = g.turn_state->Some_0;
        let g1 = g.after_update(ds[0]);
        lemma_updates_advance(g1, ds.drop_first());
        let k = phase_ends(g1, ds.drop_first());
        if g.phase_ends_in(ds[0]) {
            lemma_advance_shift(s, k);
        }
    }
}

/// Over a run of ticks in combat mode that starts in a Preparation phase and
/// ends `3 * total_players` phases (so passes `total_players` times from
/// Resolution to Preparation), play comes back to the same player and the
/// round number grows by exactly one.
pub proof fn lemma_updates_full_rotation(g: GameState, ds: Seq<u64>)
    requires
        g.mode == Mode::Combat,
        g.turn_state matches Some(s) && s.wf() && s.current_phase == TurnPhase::Preparation
            && s.turn_number < u32::MAX && phase_ends(g, ds) == 3 * s.total_players,
    ensures
        after_updates(g, ds).turn_state == Some(
            TurnState { turn_number: (g.turn_state->Some_0.turn_number + 1) as u32, ..g.turn_state->Some_0 },
        ),
{
    lemma_updates_advance(g, ds);
    lemma_full_rotation(g.turn_state->Some_0);
}

/// Whether the passage from `before` to `after` opens a Preparation phase.
pub open spec fn opens_preparation(before: Option<TurnState>, after: Option<TurnState>) -> bool {
    &&& after matches Some(a) && a.current_phase == TurnPhase::Preparation
    &&& (before matches Some(b) ==> b.current_phase != TurnPhase::Preparation)
}

/// Decides when the players' buffered commands reach the simulation.
pub struct PlayersSystem;

impl PlayersSystem {
    /// Commands are drained only where a Preparation phase opens.
    pub fn run(&self, before: &Option<TurnState>, after: &Option<TurnState>) -> (r: bool)
        ensures
            r == opens_preparation(*before, *after),
    {
        match after {
            Some(a) => {
                a.current_phase == TurnPhase::Preparation && match before {
                    Some(b) => b.current_phase != TurnPhase::Preparation,
                    None => true,
                }
            },
            None => false,
        }
    }
}

/// The root of a match: the board, the turn machine and the mode gate.
pub struct GameState {
    /// The board; a unit's handle is its slot, which stays empty once the
    /// unit is removed.
    pub units: Vec<Option<Unit>>,
    pub turn_manager: TurnManager,
    pub turn_state: Option<TurnState>,
    pub players: Vec<Player>,
    pub mode: Mode,
    /// Milliseconds left in the selection countdown.
    pub mode_timer: i64,
    pub combat: CombatSystem,
}

impl GameState {
    /// The match's invariant: every unit keeps its mana and cooldown bounds,
    /// and the turn state, once there, names a player of the match.
    pub open spec fn wf(&self) -> bool {
        &&& units_wf(board(self.units@))
        &&& (self.turn_state matches Some(s) ==> s.wf())
    }

    /// A match in selection, with an empty board, no players yet, and the
    /// standard phase lengths.
    pub fn new() -> (r: Self)
        ensures
            r.wf(),
            r.units@.len() == 0,
            r.players@.len() == 0,
            r.turn_state is None,
            r.mode == Mode::Selection,
            r.mode_timer == SELECTION_TIME,
            r.turn_manager == (TurnManager {
                preparation_time: PREPARATION_TIME,
                combat_time: COMBAT_TIME,
                resolution_time: RESOLUTION_TIME,
                current_time: 0,
            }),
    {
        let r = GameState {
            units: Vec::new(),
            turn_manager: TurnManager::new(PREPARATION_TIME, COMBAT_TIME, RESOLUTION_TIME),
            turn_state: None,
            players: Vec::new(),
            mode: Mode::Selection,
            mode_timer: SELECTION_TIME,
            combat: CombatSystem,
        };
        assert(board(r.units@) =~= Seq::empty());
        r
    }

    /// The turn state once a tick of `delta` milliseconds has gone by: in
    /// combat mode the current phase ends when its time is up; in selection
    /// nothing moves.
    pub open spec fn turn_after(&self, delta: u64) -> Option<TurnState> {
        match (self.mode, self.turn_state) {
            (Mode::Combat, Some(s)) => Some(
                if self.turn_manager.ends_phase(delta, s.current_phase) {
                    next_turn_state(s)
                } else {
                    s
                },
            ),
            _ => self.turn_state,
        }
    }

    /// The phase clock once a tick of `delta` milliseconds has gone by.
    pub open spec fn manager_after(&self, delta: u64) -> TurnManager {
        match (self.mode, self.turn_state) {
            (Mode::Combat, Some(s)) => self.turn_manager.after(delta, s.current_phase),
            _ => self.turn_manager,
        }
    }

    /// The match once `update` has run for a tick of `delta` milliseconds.
    pub open spec fn after_update(&self, delta: u64) -> GameState {
        GameState {
            mode: gate_step(self.mode, self.mode_timer, delta).0,
            mode_timer: gate_step(self.mode, self.mode_timer, delta).1,
            turn_state: self.turn_after(delta),
            turn_manager: self.manager_after(delta),
            ..*self
        }
    }

    /// Whether a tick of `delta` milliseconds ends the current phase.
    pub open spec fn phase_ends_in(&self, delta: u64) -> bool {
        match (self.mode, self.turn_state) {
            (Mode::Combat, Some(s)) => self.turn_manager.ends_phase(delta, s.current_phase),
            _ => false,
        }
    }

    /// Places a fresh unit of archetype `chess_type` at `(x, y)` and returns
    /// its handle, the next free slot.
    pub fn spawn_chess(&mut self, chess_type: ChessType, x: i32, y: i32) -> (r: usize)
        requires
            old(self).units@.len() < usize::MAX,
        ensures
            r == old(self).units@.len(),
            final(self).units@.len() == r + 1,
            board(final(self).units@) == board(old(self).units@).push(
                Some(base_unit(chess_type, x, y, unit_at(board(final(self).units@), r as int).id)),
            ),
            final(self).turn_state == old(self).turn_state,
            final(self).turn_manager == old(self).turn_manager,
            final(self).players == old(self).players,
            final(self).mode == old(self).mode,
            final(self).mode_timer == old(self).mode_timer,
            old(self).wf() ==> final(self).wf(),
    {
        let r = self.units.len();
        let id = new_unit_id();
        let u = fresh_unit(chess_type, x, y, id);
        self.units.push(Some(u));
        assert(board(self.units@) =~= board(old(self).units@).push(Some(base_unit(chess_type, x, y, id))));
        r
    }

    /// Takes the unit with handle `entity` off the board; a handle that
    /// names no unit changes nothing.
    pub fn remove_chess(&mut self, entity: usize)
        ensures
            final(self).units@ == (if entity < old(self).units@.len() {
                old(self).units@.update(entity as int, None)
            } else {
                old(self).units@
            }),
            final(self).turn_state == old(self).turn_state,
            final(self).turn_manager == old(self).turn_manager,
            final(self).players == old(self).players,
            final(self).mode == old(self).mode,
            final(self).mode_timer == old(self).mode_timer,
            old(self).wf() ==> final(self).wf(),
    {
        if entity < self.units.len() {
            self.units.set(entity, None);
            proof {
                let b = board(self.units@);
                let b0 = board(old(self).units@);
                if old(self).wf() {
                    assert forall|j: int| 0 <= j < b.len() && (#[trigger] b[j]) is Some implies unit_wf(
                        b[j]->Some_0,
                    ) by {
                        assert(b0[j] is Some);
                    }
                }
            }
        }
    }

    /// Sets up a match for `num_players` players: the turn state (first
    /// player's Preparation, round one), the players, and for each player one
    /// unit of a randomly chosen archetype in the player's column of the
    /// first row. A match is set up once, with at least one player and no
    /// more players than columns.
    pub fn initialize_game(&mut self, num_players: usize) -> (r: Result<(), GameError>)
        requires
            old(self).wf(),
            old(self).units@.len() + num_players < usize::MAX,
            old(self).players@.len() + num_players < usize::MAX,
        ensures
            final(self).wf(),
            old(self).turn_state is Some ==> r == Err::<(), GameError>(GameError::AlreadyInitialized),
            old(self).turn_state is None && (num_players == 0 || num_players > i32::MAX) ==> r
                == Err::<(), GameError>(GameError::InvalidPlayerCount),
            old(self).turn_state is None && 0 < num_players <= i32::MAX ==> r is Ok,
            r is Err ==> *final(self) == *old(self),
            r is Ok ==> {
                let n0 = old(self).units@.len() as int;
                let p0 = old(self).players@.len() as int;
                let b = board(final(self).units@);
                &&& final(self).turn_state == Some(
                    TurnState {
                        current_phase: TurnPhase::Preparation,
                        current_player: 0,
                        total_players: num_players,
                        turn_number: 1,
                    },
                )
                &&& final(self).players@.len() == p0 + num_players
                &&& forall|k: int| 0 <= k < p0 ==> final(self).players@[k] == old(self).players@[k]
                &&& forall|i: int|
                    0 <= i < num_players ==> {
                        let p = #[trigger] final(self).players@[p0 + i];
                        &&& p.id == i
                        &&& p.name_id@ == player_key(i as usize)
                        &&& p.health == 100
                        &&& p.gold == 0
                        &&& p.level == 1
                        &&& p.experience == 0
                    }
                &&& b.len() == n0 + num_players
                &&& forall|k: int| 0 <= k < n0 ==> b[k] == board(old(self).units@)[k]
                &&& forall|i: int|
                    0 <= i < num_players ==> {
                        &&& (#[trigger] b[n0 + i]) is Some
                        &&& unit_at(b, n0 + i) == base_unit(
                            unit_at(b, n0 + i).chess_type,
                            i as i32,
                            0,
                            unit_at(b, n0 + i).id,
                        )
                    }
                &&& final(self).mode == old(self).mode
                &&& final(self).mode_timer == old(self).mode_timer
                &&& final(self).turn_manager == old(self).turn_manager
            },
    {
        if self.turn_state.is_some() {
            return Err(GameError::AlreadyInitialized);
        }
        if num_players == 0 || num_players > i32::MAX as usize {
            return Err(GameError::InvalidPlayerCount);
        }
        self.turn_state = Some(
            TurnState {
                current_phase: TurnPhase::Preparation,
                current_player: 0,
                total_players: num_players,
                turn_number: 1,
            },
        );
        let chess_types = vec![ChessType::Warrior, ChessType::Mage, ChessType::Archer, ChessType::Tank];
        let ghost n0 = old(self).units@.len() as int;
        let ghost p0 = old(self).players@.len() as int;
        let ghost b0 = board(old(self).units@);
        let mut i: usize = 0;
        while i < num_players
            invariant
                0 < num_players <= i32::MAX,
                i <= num_players,
                chess_types@.len() == 4,
                n0 == old(self).units@.len(),
                p0 == old(self).players@.len(),
                b0 == board(old(self).units@),
                n0 + num_players < usize::MAX,
                p0 + num_players < usize::MAX,
                self.turn_state == Some(
                    TurnState {
                        current_phase: TurnPhase::Preparation,
                        current_player: 0,
                        total_players: num_players,
                        turn_number: 1,
                    },
                ),
                self.wf(),
                self.players@.len() == p0 + i,
                forall|k: int| 0 <= k < p0 ==> self.players@[k] == old(self).players@[k],
                forall|j: int|
                    0 <= j < i ==> {
                        let p = #[trigger] self.players@[p0 + j];
                        &&& p.id == j
                        &&& p.name_id@ == player_key(j as usize)
                        &&& p.health == 100
                        &&& p.gold == 0
                        &&& p.level == 1
                        &&& p.experience == 0
                    },
                board(self.units@).len() == n0 + i,
                forall|k: int| 0 <= k < n0 ==> board(self.units@)[k] == b0[k],
                forall|j: int|
                    0 <= j < i ==> {
                        &&& (#[trigger] board(self.units@)[n0 + j]) is Some
                        &&& unit_at(board(self.units@), n0 + j) == base_unit(
                            unit_at(board(self.units@), n0 + j).chess_type,
                            j as i32,
                            0,
                            unit_at(board(self.units@), n0 + j).id,
                        )
                    },
                self.mode == old(self).mode,
                self.mode_timer == old(self).mode_timer,
                self.turn_manager == old(self).turn_manager,
            decreases num_players - i,
        {
            self.players.push(
                Player {
                    id: i,
                    name_id: player_name(i),
                    health: 100,
                    gold: 0,
                    level: 1,
                    experience: 0,
                },
            );
            if let Some(t) = choose_chess_type(&chess_types) {
                let ghost before = board(self.units@);
                let h = self.spawn_chess(t, i as i32, 0);
                let ghost after = board(self.units@);
                assert(after[n0 + i] == after[h as int]);
                assert forall|k: int| 0 <= k < n0 + i implies after[k] == before[k] by {}
                assert(unit_at(after, n0 + i).chess_type == t);
            } else {
                assert(chess_types@[0] == ChessType::Warrior);
                assert(chess_types@.contains(ChessType::Warrior));
            }
            i += 1;
        }
        Ok(())
    }

    /// Runs the mode gate and, in combat mode, the phase clock, for a tick
    /// of `delta_time` milliseconds. The result says whether the selection
    /// countdown ran out in this tick, which is when players are paired.
    pub fn update(&mut self, delta_time: u64) -> (paired: bool)
        requires
            old(self).wf(),
        ensures
            final(self).wf(),
            (final(self).mode, final(self).mode_timer, paired) == gate_step(
                old(self).mode,
                old(self).mode_timer,
                delta_time,
            ),
            final(self).turn_state == old(self).turn_after(delta_time),
            final(self).turn_manager == old(self).manager_after(delta_time),
            final(self).units == old(self).units,
            final(self).players == old(self).players,
            *final(self) == old(self).after_update(delta_time),
    {
        let t: i128 = self.mode_timer as i128 - delta_time as i128;
        self.mode_timer = if t < i64::MIN as i128 {
            i64::MIN
        } else {
            t as i64
        };
        match self.mode {
            Mode::Selection => {
                if self.mode_timer <= 0 {
                    self.mode = Mode::Combat;
                    self.mode_timer = 0;
                    return true;
                }
                false
            },
            Mode::Combat => {
                match self.turn_state {
                    Some(s) => {
                        if self.turn_manager.update(delta_time, &s) {
                            self.turn_state = Some(advance_phase(s));
                        }
                    },
                    None => {},
                }
                false
            },
        }
    }

    /// One tick of the simulation, `delta_time` milliseconds long: the mode
    /// gate and phase clock, then a tick of combat on the board.
    pub fn tick(&mut self, delta_time: u64) -> (r: TickEvents)
        requires
            old(self).wf(),
        ensures
            final(self).wf(),
            (final(self).mode, final(self).mode_timer, r.paired) == gate_step(
                old(self).mode,
                old(self).mode_timer,
                delta_time,
            ),
            final(self).turn_state == old(self).turn_after(delta_time),
            final(self).turn_manager == old(self).manager_after(delta_time),
            r.drain_commands == opens_preparation(
                if r.paired {
                    None
                } else {
                    old(self).turn_state
                },
                final(self).turn_state,
            ),
            board(final(self).units@) == tick_outcome(board(old(self).units@)),
            final(self).players == old(self).players,
    {
        let earlier = self.turn_state;
        let paired = self.update(delta_time);
        let before = if paired {
            None
        } else {
            earlier
        };
        let players_system = PlayersSystem;
        let drain_commands = players_system.run(&before, &self.turn_state);
        self.combat.run(&mut self.units);
        TickEvents { paired, drain_commands }
    }
}

} // verus!

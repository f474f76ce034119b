use vstd::prelude::*;

verus! {

/// The phases of one player's turn.
#[derive(Debug, Clone, Copy, PartialEq, Eq, Structural)]
pub enum TurnPhase {
    /// Players buy, upgrade and place units.
    Preparation,
    /// Units fight on their own.
    Combat,
    /// Damage and rewards are settled.
    Resolution,
}

/// Where the match stands: the phase, whose turn it is, and which round.
#[derive(Debug, Clone, Copy, PartialEq, Eq, Structural)]
pub struct TurnState {
    pub current_phase: TurnPhase,
    pub current_player: usize,
    pub total_players: usize,
    pub turn_number: u32,
}

impl TurnState {
    /// There is at least one player, and the current one is among them.
    pub open spec fn wf(&self) -> bool {
        0 < self.total_players && self.current_player < self.total_players
    }
}

/// A player of the match.
#[derive(Debug, Clone)]
pub struct Player {
    pub id: usize,
    pub name_id: String,
    pub health: i32,
    pub gold: i32,
    pub level: u32,
    pub experience: u32,
}

/// The state after the current phase ends: Preparation gives way to Combat,
/// Combat to Resolution, and Resolution to the next player's Preparation;
/// when play comes back to the first player a new round begins.
pub open spec fn next_turn_state(s: TurnState) -> TurnState {
    match s.current_phase {
        TurnPhase::Preparation => TurnState { current_phase: TurnPhase::Combat, ..s },
        TurnPhase::Combat => TurnState { current_phase: TurnPhase::Resolution, ..s },
        TurnPhase::Resolution => {
            let p = ((s.current_player + 1) % (s.total_players as int)) as usize;
            TurnState {
                current_phase: TurnPhase::Preparation,
                current_player: p,
                turn_number: if p == 0 {
                    if s.turn_number < u32::MAX {
                        (s.turn_number + 1) as u32
                    } else {
                        u32::MAX
                    }
                } else {
                    s.turn_number
                },
                ..s
            }
        },
    }
}

/// Ends the current phase.
pub struct TurnSystem;

impl TurnSystem {
    /// Moves the match to its next phase; with no turn state there is
    /// nothing to move.
    pub fn run(&mut self, turn_state: &mut Option<TurnState>)
        requires
            *old(turn_state) matches Some(s) ==> s.wf(),
        ensures
            *final(turn_state) == (match *old(turn_state) {
                Some(s) => Some(next_turn_state(s)),
                None => None,
            }),
            *final(turn_state) matches Some(s) ==> s.wf(),
    {
        if let Some(s) = turn_state {
            *s = advance_phase(*s);
        }
    }
}

/// The state after the current phase of `s` ends.
pub fn advance_phase(s: TurnState) -> (r: TurnState)
    requires
        s.wf(),
    ensures
        r == next_turn_state(s),
        r.wf(),
{
    match s.current_phase {
        TurnPhase::Preparation => TurnState { current_phase: TurnPhase::Combat, ..s },
        TurnPhase::Combat => TurnState { current_phase: TurnPhase::Resolution, ..s },
        TurnPhase::Resolution => {
            let p = (s.current_player + 1) % s.total_players;
            let turn_number = if p == 0 {
                s.turn_number.saturating_add(1)
            } else {
                s.turn_number
            };
            TurnState { current_phase: TurnPhase::Preparation, current_player: p, turn_number, ..s }
        },
    }
}

/// Paces the phases: each lasts a set number of milliseconds.
#[derive(Debug, Clone, Copy, PartialEq, Eq, Structural)]
pub struct TurnManager {
    pub preparation_time: u64,
    pub combat_time: u64,
    pub resolution_time: u64,
    pub current_time: u64,
}

impl TurnManager {
    /// How long `phase` lasts, in milliseconds.
    pub open spec fn duration_of(&self, phase: TurnPhase) -> u64 {
        match phase {
            TurnPhase::Preparation => self.preparation_time,
            TurnPhase::Combat => self.combat_time,
            TurnPhase::Resolution => self.resolution_time,
        }
    }

    /// A manager with the given phase lengths, in milliseconds, and no time
    /// spent yet.
    pub fn new(preparation_time: u64, combat_time: u64, resolution_time: u64) -> (r: Self)
        ensures
            r == (TurnManager { preparation_time, combat_time, resolution_time, current_time: 0 }),
    {
        TurnManager { preparation_time, combat_time, resolution_time, current_time: 0 }
    }

    fn phase_time(&self, phase: TurnPhase) -> (r: u64)
        ensures
            r == self.duration_of(phase),
    {
        match phase {
            TurnPhase::Preparation => self.preparation_time,
            TurnPhase::Combat => self.combat_time,
            TurnPhase::Resolution => self.resolution_time,
        }
    }

    /// Time spent in the current phase once `delta` more milliseconds have
    /// passed, saturating.
    pub open spec fn spent_after(&self, delta: u64) -> int {
        if self.current_time + delta <= u64::MAX {
            self.current_time + delta
        } else {
            u64::MAX as int
        }
    }

    /// Whether `phase` ends once `delta` more milliseconds have passed.
    pub open spec fn ends_phase(&self, delta: u64, phase: TurnPhase) -> bool {
        self.spent_after(delta) >= self.duration_of(phase)
    }

    /// The manager once `delta` more milliseconds have passed in `phase`: its
    /// clock starts over when the phase ends.
    pub open spec fn after(&self, delta: u64, phase: TurnPhase) -> TurnManager {
        TurnManager {
            current_time: if self.ends_phase(delta, phase) {
                0
            } else {
                self.spent_after(delta) as u64
            },
            ..*self
        }
    }

    /// Adds `delta_time` milliseconds to the time spent in the current phase
    /// (saturating). When that reaches the phase's length the clock starts
    /// over and the result says that the phase has ended.
    pub fn update(&mut self, delta_time: u64, turn_state: &TurnState) -> (r: bool)
        ensures
            r == old(self).ends_phase(delta_time, turn_state.current_phase),
            *final(self) == old(self).after(delta_time, turn_state.current_phase),
    {
        self.current_time = self.current_time.saturating_add(delta_time);
        let phase_time = self.phase_time(turn_state.current_phase);
        if self.current_time >= phase_time {
            self.current_time = 0;
            true
        } else {
            false
        }
    }

    /// Milliseconds left in the current phase; negative once it has overrun.
    pub fn get_remaining_time(&self, turn_state: &TurnState) -> (r: i128)
        ensures
            r == self.duration_of(turn_state.current_phase) - self.current_time,
    {
        self.phase_time(turn_state.current_phase) as i128 - self.current_time as i128
    }
}

/// The state after `k` phases end, one after another.
pub open spec fn advance_n(s: TurnState, k: nat) -> TurnState
    decreases k,
{
    if k == 0 {
        s
    } else {
        next_turn_state(advance_n(s, (k - 1) as nat))
    }
}

/// Ending one phase and then `k` more is ending `k + 1` phases.
pub proof fn lemma_advance_shift(s: TurnState, k: nat)
    ensures
        advance_n(next_turn_state(s), k) == advance_n(s, k + 1),
    decreases k,
{
    if k > 0 {
        lemma_advance_shift(s, (k - 1) as nat);
        assert(advance_n(next_turn_state(s), k) == next_turn_state(
            advance_n(next_turn_state(s), (k - 1) as nat),
        ));
        assert(advance_n(s, k + 1) == next_turn_state(advance_n(s, k)));
    } else {
        assert(advance_n(s, 1) == next_turn_state(advance_n(s, 0)));
    }
}

proof fn lemma_rotations(s: TurnState, k: nat)
    requires
        s.wf(),
        s.current_phase == TurnPhase::Preparation,
        s.turn_number < u32::MAX,
        k <= s.total_players,
    ensures
        ({
            let r = advance_n(s, 3 * k);
            let n = s.total_players as int;
            let p = s.current_player as int;
            &&& r.current_phase == TurnPhase::Preparation
            &&& r.total_players == s.total_players
            &&& r.current_player == (if p + k < n { p + k } else { p + k - n })
            &&& r.turn_number == s.turn_number + (if p + k >= n { 1int } else { 0 })
        }),
    decreases k,
{
    if k > 0 {
        let k1 = (k - 1) as nat;
        lemma_rotations(s, k1);
        let r0 = advance_n(s, 3 * k1);
        let n = s.total_players as int;
        let p = s.current_player as int;
        assert(advance_n(s, 3 * k1 + 1) == next_turn_state(r0));
        assert(advance_n(s, 3 * k1 + 2) == next_turn_state(next_turn_state(r0)));
        assert(advance_n(s, 3 * k) == next_turn_state(next_turn_state(next_turn_state(r0))));
        let q = r0.current_player as int + 1;
        assert(0 < q <= n);
        if q < n {
            vstd::arithmetic::div_mod::lemma_small_mod(q as nat, n as nat);
        } else {
            vstd::arithmetic::div_mod::lemma_mod_self_0(n);
        }
    }
}

/// Once every player has had a turn, play is back with the player who
/// started, in a new round: from any Preparation phase, after
/// `3 * total_players` phase ends (that is, `total_players` passes from
/// Resolution to Preparation), the current player is the same again and the
/// round number has grown by exactly one.
pub proof fn lemma_full_rotation(s: TurnState)
    requires
        s.wf(),
        s.current_phase == TurnPhase::Preparation,
        s.turn_number < u32::MAX,
    ensures
        advance_n(s, 3 * s.total_players as nat) == (TurnState {
            turn_number: (s.turn_number + 1) as u32,
            ..s
        }),
{
    lemma_rotations(s, s.total_players as nat);
}

} // verus!

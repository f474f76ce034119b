use auto_chess::{advance_phase, TurnManager, TurnPhase, TurnState, TurnSystem};

fn start(total_players: usize) -> TurnState {
    TurnState { current_phase: TurnPhase::Preparation, current_player: 0, total_players, turn_number: 1 }
}

#[test]
fn phases_cycle_in_order() {
    let s = start(2);
    let s = advance_phase(s);
    assert_eq!(s.current_phase, TurnPhase::Combat);
    let s = advance_phase(s);
    assert_eq!(s.current_phase, TurnPhase::Resolution);
    let s = advance_phase(s);
    assert_eq!(s.current_phase, TurnPhase::Preparation);
    assert_eq!(s.current_player, 1);
    assert_eq!(s.turn_number, 1);
}

#[test]
fn four_players_rotate_back_with_one_new_round() {
    let mut s = start(4);
    let mut wraps = 0;
    for _ in 0..4 {
        s = advance_phase(s);
        s = advance_phase(s);
        assert_eq!(s.current_phase, TurnPhase::Resolution);
        s = advance_phase(s);
        wraps += 1;
    }
    assert_eq!(wraps, 4);
    assert_eq!(s.current_phase, TurnPhase::Preparation);
    assert_eq!(s.current_player, 0);
    assert_eq!(s.turn_number, 2);
}

#[test]
fn rotation_from_a_later_player() {
    let mut s = TurnState { current_phase: TurnPhase::Preparation, current_player: 2, total_players: 3, turn_number: 7 };
    for _ in 0..9 {
        s = advance_phase(s);
    }
    assert_eq!(s.current_player, 2);
    assert_eq!(s.turn_number, 8);
}

#[test]
fn round_number_saturates() {
    let s = TurnState { current_phase: TurnPhase::Resolution, current_player: 0, total_players: 1, turn_number: u32::MAX };
    assert_eq!(advance_phase(s).turn_number, u32::MAX);
}

#[test]
fn turn_system_moves_present_state_only() {
    let mut none: Option<TurnState> = None;
    TurnSystem.run(&mut none);
    assert!(none.is_none());
    let mut some = Some(start(3));
    TurnSystem.run(&mut some);
    assert_eq!(some.unwrap().current_phase, TurnPhase::Combat);
}

#[test]
fn manager_ends_phase_on_threshold() {
    let mut m = TurnManager::new(30000, 60000, 5000);
    let s = start(2);
    assert!(!m.update(29999, &s));
    assert_eq!(m.current_time, 29999);
    assert_eq!(m.get_remaining_time(&s), 1);
    assert!(m.update(1, &s));
    assert_eq!(m.current_time, 0);
    let c = advance_phase(s);
    assert_eq!(m.get_remaining_time(&c), 60000);
    assert!(!m.update(59999, &c));
    assert!(m.update(5000, &c));
    let r = advance_phase(c);
    assert_eq!(m.get_remaining_time(&r), 5000);
}

#[test]
fn manager_clock_saturates() {
    let mut m = TurnManager::new(u64::MAX, 1, 1);
    let s = start(1);
    assert!(!m.update(u64::MAX - 1, &s));
    assert!(m.update(10, &s));
    assert_eq!(m.current_time, 0);
}

#[test]
fn remaining_time_can_go_negative() {
    let mut m = TurnManager::new(10, 10, 10);
    m.current_time = 25;
    assert_eq!(m.get_remaining_time(&start(1)), -15);
}

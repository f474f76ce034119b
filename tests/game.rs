use auto_chess::{
    player_name, ChessType, GameError, GameState, Mode, PlayersSystem, SkillType, TurnPhase, TurnState,
};

#[test]
fn new_match_starts_in_selection() {
    let g = GameState::new();
    assert_eq!(g.mode, Mode::Selection);
    assert_eq!(g.mode_timer, 10000);
    assert!(g.turn_state.is_none());
    assert!(g.units.is_empty());
    assert!(g.players.is_empty());
    assert_eq!(g.turn_manager.preparation_time, 30000);
    assert_eq!(g.turn_manager.combat_time, 60000);
    assert_eq!(g.turn_manager.resolution_time, 5000);
}

#[test]
fn initialize_sets_up_players_and_units() {
    let mut g = GameState::new();
    assert_eq!(g.initialize_game(4), Ok(()));
    let s = g.turn_state.unwrap();
    assert_eq!(s.current_phase, TurnPhase::Preparation);
    assert_eq!(s.current_player, 0);
    assert_eq!(s.total_players, 4);
    assert_eq!(s.turn_number, 1);
    assert_eq!(g.players.len(), 4);
    for (i, p) in g.players.iter().enumerate() {
        assert_eq!(p.id, i);
        assert_eq!(p.name_id, format!("player_{}", i));
        assert_eq!(p.health, 100);
        assert_eq!(p.gold, 0);
        assert_eq!(p.level, 1);
        assert_eq!(p.experience, 0);
    }
    assert_eq!(g.players[3].name_id, "player_3");
    assert_eq!(g.units.len(), 4);
    for (i, u) in g.units.iter().enumerate() {
        let u = u.as_ref().unwrap();
        let pos = u.position.unwrap();
        assert_eq!((pos.x, pos.y), (i as i32, 0));
        assert_eq!(u.stats.mana, 0);
        assert_eq!(u.stats.hp, u.stats.max_hp);
        let expected = match u.chess.chess_type {
            ChessType::Warrior => ("Warrior", SkillType::WhirlwindSlash, 100),
            ChessType::Mage => ("Mage", SkillType::Fireball, 70),
            ChessType::Archer => ("Archer", SkillType::MultiShot, 80),
            ChessType::Tank => ("Tank", SkillType::ShieldBash, 150),
        };
        assert_eq!(u.chess.name, expected.0);
        assert_eq!(u.stats.name, expected.0);
        assert_eq!(u.stats.skill.skill_type, expected.1);
        assert_eq!(u.stats.hp, expected.2);
    }
    assert_ne!(g.units[0].as_ref().unwrap().chess.id, g.units[1].as_ref().unwrap().chess.id);
}

#[test]
fn initialize_refuses_zero_players() {
    let mut g = GameState::new();
    assert_eq!(g.initialize_game(0), Err(GameError::InvalidPlayerCount));
    assert!(g.turn_state.is_none());
    assert!(g.players.is_empty());
}

#[test]
fn initialize_refuses_too_many_players() {
    let mut g = GameState::new();
    assert_eq!(g.initialize_game(i32::MAX as usize + 1), Err(GameError::InvalidPlayerCount));
    assert!(g.units.is_empty());
}

#[test]
fn initialize_only_once() {
    let mut g = GameState::new();
    assert_eq!(g.initialize_game(2), Ok(()));
    assert_eq!(g.initialize_game(3), Err(GameError::AlreadyInitialized));
    assert_eq!(g.players.len(), 2);
    assert_eq!(g.turn_state.unwrap().total_players, 2);
}

#[test]
fn spawn_uses_archetype_table() {
    let mut g = GameState::new();
    let h = g.spawn_chess(ChessType::Tank, 3, -2);
    assert_eq!(h, 0);
    let u = g.units[0].as_ref().unwrap();
    assert_eq!(u.stats.hp, 150);
    assert_eq!(u.stats.attack, 10);
    assert_eq!(u.stats.defense, 20);
    assert_eq!(u.stats.magic_resist, 20);
    assert_eq!(u.stats.attack_speed, 70);
    assert_eq!(u.stats.attack_range, 10);
    assert_eq!(u.stats.max_mana, 120);
    assert_eq!(u.stats.skill.damage, 15);
    assert_eq!(u.stats.skill.duration, Some(2));
    assert_eq!(u.stats.skill.cooldown, 5);
    assert_eq!(u.chess.level, 1);
    assert_eq!((u.chess.id >> 76) & 0xF, 4);
    let h2 = g.spawn_chess(ChessType::Mage, 0, 0);
    assert_eq!(h2, 1);
    let m = g.units[1].as_ref().unwrap();
    assert_eq!(m.stats.skill.damage, 50);
    assert_eq!(m.stats.attack_range, 30);
    assert_eq!(m.stats.max_mana, 80);
}

#[test]
fn remove_leaves_an_empty_slot() {
    let mut g = GameState::new();
    g.spawn_chess(ChessType::Warrior, 0, 0);
    g.spawn_chess(ChessType::Archer, 1, 0);
    g.remove_chess(0);
    assert!(g.units[0].is_none());
    assert!(g.units[1].is_some());
    g.remove_chess(0);
    g.remove_chess(9);
    assert_eq!(g.units.len(), 2);
    assert!(g.units[1].is_some());
}

#[test]
fn selection_holds_phase_then_switches_once() {
    let mut g = GameState::new();
    g.initialize_game(2).unwrap();
    assert!(!g.update(4999));
    assert_eq!(g.mode, Mode::Selection);
    assert_eq!(g.turn_state.unwrap().current_phase, TurnPhase::Preparation);
    assert!(!g.update(5000));
    assert_eq!(g.mode_timer, 1);
    assert_eq!(g.turn_manager.current_time, 0);
    assert!(g.update(1));
    assert_eq!(g.mode, Mode::Combat);
    assert_eq!(g.mode_timer, 0);
    assert_eq!(g.turn_state.unwrap().current_phase, TurnPhase::Preparation);
    assert!(!g.update(1));
    assert!(!g.update(40000));
    assert_eq!(g.mode, Mode::Combat);
    assert_eq!(g.turn_state.unwrap().current_phase, TurnPhase::Combat);
}

#[test]
fn huge_selection_tick_switches_without_moving_phase() {
    let mut g = GameState::new();
    g.initialize_game(1).unwrap();
    assert!(g.update(u64::MAX));
    assert_eq!(g.mode, Mode::Combat);
    assert_eq!(g.turn_state.unwrap().current_phase, TurnPhase::Preparation);
    assert_eq!(g.turn_manager.current_time, 0);
}

#[test]
fn combat_mode_without_turn_state_is_quiet() {
    let mut g = GameState::new();
    assert!(g.update(10000));
    assert!(!g.update(100000));
    assert!(g.turn_state.is_none());
}

#[test]
fn tick_reports_pairing_and_drain_point() {
    let mut g = GameState::new();
    g.initialize_game(2).unwrap();
    let e = g.tick(10000);
    assert!(e.paired);
    assert!(e.drain_commands);
    let e = g.tick(1);
    assert!(!e.drain_commands);
    let e = g.tick(29999);
    assert!(!e.paired);
    assert!(!e.drain_commands);
    assert_eq!(g.turn_state.unwrap().current_phase, TurnPhase::Combat);
    let e = g.tick(60000);
    assert!(!e.drain_commands);
    let e = g.tick(5000);
    assert!(e.drain_commands);
    let s = g.turn_state.unwrap();
    assert_eq!(s.current_phase, TurnPhase::Preparation);
    assert_eq!(s.current_player, 1);
}

#[test]
fn tick_runs_combat() {
    let mut g = GameState::new();
    g.spawn_chess(ChessType::Warrior, 0, 0);
    g.spawn_chess(ChessType::Warrior, 1, 0);
    g.tick(16);
    let a = g.units[0].as_ref().unwrap();
    let b = g.units[1].as_ref().unwrap();
    assert_eq!(a.stats.hp, 87);
    assert_eq!(b.stats.hp, 87);
    assert_eq!(a.stats.mana, 6);
}

#[test]
fn players_system_drains_where_preparation_opens() {
    let prep = TurnState { current_phase: TurnPhase::Preparation, current_player: 1, total_players: 2, turn_number: 1 };
    let res = TurnState { current_phase: TurnPhase::Resolution, ..prep };
    let ps = PlayersSystem;
    assert!(ps.run(&Some(res), &Some(prep)));
    assert!(ps.run(&None, &Some(prep)));
    assert!(!ps.run(&Some(prep), &Some(prep)));
    assert!(!ps.run(&Some(prep), &Some(res)));
    assert!(!ps.run(&Some(prep), &None));
}

#[test]
fn player_keys_are_prefixed_decimal() {
    assert_eq!(player_name(0), "player_0");
    assert_eq!(player_name(12), "player_12");
    assert_eq!(player_name(usize::MAX), format!("player_{}", usize::MAX));
}

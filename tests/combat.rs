use auto_chess::{
    calculate_damage, distance_squared, is_in_range, Chess, ChessType, CombatStats, CombatSystem,
    Position, Skill, SkillType, StatusEffects, Unit,
};

fn stats(attack: i32, defense: i32) -> CombatStats {
    CombatStats {
        name: "S".to_string(),
        hp: 100,
        max_hp: 100,
        attack,
        defense,
        magic_resist: 0,
        attack_speed: 100,
        attack_range: 10,
        mana: 0,
        max_mana: 100,
        skill: Skill {
            skill_type: SkillType::WhirlwindSlash,
            damage: 30,
            range: 20,
            duration: None,
            cooldown: 3,
            current_cooldown: 0,
        },
    }
}

fn unit(x: i32, y: i32, s: CombatStats) -> Option<Unit> {
    Some(Unit {
        chess: Chess { id: 1, name: "S".to_string(), level: 1, chess_type: ChessType::Warrior },
        position: Some(Position { x, y }),
        stats: s,
        status: StatusEffects { effects: Vec::new() },
    })
}

fn get(units: &Vec<Option<Unit>>, i: usize) -> &CombatStats {
    &units[i].as_ref().unwrap().stats
}

#[test]
fn damage_formula_exact_values() {
    assert_eq!(calculate_damage(&stats(15, 0), &stats(0, 20)), 12);
    assert_eq!(calculate_damage(&stats(15, 0), &stats(0, 10)), 13);
    assert_eq!(calculate_damage(&stats(20, 0), &stats(0, 5)), 19);
    assert_eq!(calculate_damage(&stats(7, 0), &stats(0, 0)), 7);
    assert_eq!(calculate_damage(&stats(50, 0), &stats(0, 100)), 0);
    assert_eq!(calculate_damage(&stats(0, 0), &stats(0, 30)), 0);
}

#[test]
fn damage_never_negative() {
    assert_eq!(calculate_damage(&stats(50, 0), &stats(0, 130)), 0);
    assert_eq!(calculate_damage(&stats(-5, 0), &stats(0, 10)), 0);
    assert_eq!(calculate_damage(&stats(i32::MAX, 0), &stats(0, i32::MIN)), i32::MAX);
}

#[test]
fn distances_are_exact() {
    let o = Position { x: 0, y: 0 };
    assert_eq!(distance_squared(&o, &Position { x: 3, y: 4 }), 25);
    assert_eq!(distance_squared(&Position { x: i32::MIN, y: 0 }, &Position { x: i32::MAX, y: 0 }), 0xFFFF_FFFFu128 * 0xFFFF_FFFF);
    assert!(is_in_range(&o, &Position { x: 2, y: 0 }, 20));
    assert!(!is_in_range(&o, &Position { x: 2, y: 1 }, 20));
    assert!(is_in_range(&o, &Position { x: 1, y: 1 }, 15));
    assert!(!is_in_range(&o, &Position { x: 1, y: 1 }, 14));
    assert!(is_in_range(&o, &o, 0));
}

#[test]
fn basic_attacks_trade_damage_and_mana() {
    let mut units = vec![unit(0, 0, stats(15, 10)), unit(1, 0, stats(15, 10))];
    CombatSystem.run(&mut units);
    assert_eq!(get(&units, 0).hp, 87);
    assert_eq!(get(&units, 1).hp, 87);
    assert_eq!(get(&units, 0).mana, 6);
    assert_eq!(get(&units, 1).mana, 6);
}

#[test]
fn first_unit_in_reach_is_attacked_not_nearest() {
    let mut a = stats(10, 0);
    a.attack_range = 30;
    let mut units = vec![unit(0, 0, a), unit(3, 0, stats(0, 0)), unit(1, 0, stats(0, 0))];
    units[1].as_mut().unwrap().stats.attack_range = 0;
    units[2].as_mut().unwrap().stats.attack_range = 0;
    CombatSystem.run(&mut units);
    assert_eq!(get(&units, 1).hp, 90);
    assert_eq!(get(&units, 2).hp, 100);
    assert_eq!(get(&units, 0).mana, 5);
    assert_eq!(get(&units, 1).mana, 1);
}

#[test]
fn full_mana_casts_and_cools() {
    let mut mage = stats(8, 5);
    mage.max_mana = 80;
    mage.mana = 80;
    mage.skill = Skill {
        skill_type: SkillType::Fireball,
        damage: 50,
        range: 40,
        duration: None,
        cooldown: 4,
        current_cooldown: 0,
    };
    let mut units = vec![unit(0, 0, mage), unit(5, 0, stats(0, 0))];
    units[1].as_mut().unwrap().stats.attack_range = 0;
    CombatSystem.run(&mut units);
    assert_eq!(get(&units, 0).mana, 0);
    assert_eq!(get(&units, 0).skill.current_cooldown, 3);
    assert_eq!(get(&units, 1).hp, 25);
    assert_eq!(get(&units, 1).mana, 0);
}

#[test]
fn mana_gain_stops_at_maximum() {
    let mut a = stats(1, 0);
    a.max_mana = 3;
    let mut units = vec![unit(0, 0, a), unit(5, 5, stats(0, 0))];
    units[0].as_mut().unwrap().stats.skill.current_cooldown = 2;
    units[0].as_mut().unwrap().stats.mana = 3;
    units[1].as_mut().unwrap().stats.attack_range = 100;
    CombatSystem.run(&mut units);
    assert_eq!(get(&units, 0).mana, 3);
    assert_eq!(get(&units, 0).skill.current_cooldown, 1);
}

#[test]
fn no_target_means_idle() {
    let mut units = vec![unit(0, 0, stats(10, 0)), unit(9, 9, stats(10, 0)), None];
    CombatSystem.run(&mut units);
    assert_eq!(get(&units, 0).hp, 100);
    assert_eq!(get(&units, 1).hp, 100);
    assert_eq!(get(&units, 0).mana, 0);
    assert!(units[2].is_none());
}

#[test]
fn bounds_hold_over_many_ticks() {
    let mut units = Vec::new();
    for i in 0..6 {
        let mut s = stats(10 + i, 5);
        s.max_mana = 12 + i;
        s.attack_range = 30;
        s.skill.skill_type = match i % 4 {
            0 => SkillType::WhirlwindSlash,
            1 => SkillType::Fireball,
            2 => SkillType::MultiShot,
            _ => SkillType::ShieldBash,
        };
        units.push(unit(i % 3, i / 3, s));
    }
    for _ in 0..50 {
        CombatSystem.run(&mut units);
        for u in units.iter() {
            let s = &u.as_ref().unwrap().stats;
            assert!(0 <= s.mana && s.mana <= s.max_mana);
            assert!(s.skill.current_cooldown <= s.skill.cooldown);
        }
    }
}

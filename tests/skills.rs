use auto_chess::{
    cast_skill, Chess, ChessType, CombatStats, EffectType, Fireball, MultiShot, Position,
    ShieldBash, Skill, SkillExecutor, SkillType, StatusEffects, Unit, WhirlwindSlash,
};

fn unit(x: i32, y: i32, kind: SkillType, damage: i32) -> Option<Unit> {
    Some(Unit {
        chess: Chess { id: 0, name: "T".to_string(), level: 1, chess_type: ChessType::Warrior },
        position: Some(Position { x, y }),
        stats: CombatStats {
            name: "T".to_string(),
            hp: 100,
            max_hp: 100,
            attack: 10,
            defense: 10,
            magic_resist: 0,
            attack_speed: 100,
            attack_range: 10,
            mana: 0,
            max_mana: 100,
            skill: Skill {
                skill_type: kind,
                damage,
                range: 20,
                duration: None,
                cooldown: 3,
                current_cooldown: 0,
            },
        },
        status: StatusEffects { effects: Vec::new() },
    })
}

fn hp(units: &Vec<Option<Unit>>, i: usize) -> i32 {
    units[i].as_ref().unwrap().stats.hp
}

#[test]
fn whirlwind_hits_at_two_and_spares_beyond() {
    let mut units = vec![
        unit(0, 0, SkillType::WhirlwindSlash, 30),
        unit(2, 0, SkillType::WhirlwindSlash, 30),
        unit(2, 1, SkillType::WhirlwindSlash, 30),
        unit(0, -2, SkillType::WhirlwindSlash, 30),
    ];
    WhirlwindSlash.execute(0, 30, &mut units);
    assert_eq!(hp(&units, 0), 100);
    assert_eq!(hp(&units, 1), 70);
    assert_eq!(hp(&units, 2), 100);
    assert_eq!(hp(&units, 3), 70);
}

#[test]
fn fireball_hits_only_the_nearest() {
    let mut units = vec![
        unit(3, 0, SkillType::Fireball, 50),
        unit(0, 0, SkillType::Fireball, 50),
        unit(0, 1, SkillType::Fireball, 50),
    ];
    Fireball.execute(1, 50, &mut units);
    assert_eq!(hp(&units, 0), 100);
    assert_eq!(hp(&units, 1), 100);
    assert_eq!(hp(&units, 2), 25);
}

#[test]
fn fireball_ties_go_to_the_first() {
    let mut units = vec![
        unit(0, 0, SkillType::Fireball, 7),
        unit(1, 0, SkillType::Fireball, 7),
        unit(-1, 0, SkillType::Fireball, 7),
    ];
    Fireball.execute(0, 7, &mut units);
    assert_eq!(hp(&units, 1), 90);
    assert_eq!(hp(&units, 2), 100);
}

#[test]
fn fireball_rounds_toward_zero_for_negative_damage() {
    let mut units = vec![unit(0, 0, SkillType::Fireball, -3), unit(1, 0, SkillType::Fireball, -3)];
    Fireball.execute(0, -3, &mut units);
    assert_eq!(hp(&units, 1), 104);
}

#[test]
fn multi_shot_hits_first_three_in_order() {
    let mut units = vec![
        unit(0, 0, SkillType::MultiShot, 25),
        unit(3, 0, SkillType::MultiShot, 25),
        unit(5, 0, SkillType::MultiShot, 25),
        unit(0, 3, SkillType::MultiShot, 25),
        unit(2, 2, SkillType::MultiShot, 25),
        unit(1, 0, SkillType::MultiShot, 25),
    ];
    MultiShot.execute(0, 25, &mut units);
    assert_eq!(hp(&units, 0), 100);
    assert_eq!(hp(&units, 1), 80);
    assert_eq!(hp(&units, 2), 100);
    assert_eq!(hp(&units, 3), 80);
    assert_eq!(hp(&units, 4), 80);
    assert_eq!(hp(&units, 5), 100);
}

#[test]
fn shield_bash_braces_and_stuns_close_units() {
    let mut units = vec![
        unit(0, 0, SkillType::ShieldBash, 15),
        unit(1, 1, SkillType::ShieldBash, 15),
        unit(2, 0, SkillType::ShieldBash, 15),
    ];
    ShieldBash.execute(0, 15, &mut units);
    let caster = units[0].as_ref().unwrap();
    assert_eq!(caster.stats.defense, 20);
    assert_eq!(caster.stats.hp, 100);
    assert!(caster.status.effects.is_empty());
    let near = units[1].as_ref().unwrap();
    assert_eq!(near.stats.hp, 85);
    assert_eq!(near.status.effects.len(), 1);
    assert_eq!(near.status.effects[0].effect_type, EffectType::Stun);
    assert_eq!(near.status.effects[0].duration, 2);
    assert_eq!(near.status.effects[0].magnitude, 100);
    let far = units[2].as_ref().unwrap();
    assert_eq!(far.stats.hp, 100);
    assert!(far.status.effects.is_empty());
}

#[test]
fn caster_off_the_board_does_nothing() {
    let mut units = vec![unit(0, 0, SkillType::WhirlwindSlash, 30), unit(1, 0, SkillType::WhirlwindSlash, 30)];
    units[0].as_mut().unwrap().position = None;
    cast_skill(SkillType::WhirlwindSlash, 0, 30, &mut units);
    cast_skill(SkillType::ShieldBash, 0, 30, &mut units);
    cast_skill(SkillType::Fireball, 7, 30, &mut units);
    assert_eq!(hp(&units, 1), 100);
    assert_eq!(units[0].as_ref().unwrap().stats.defense, 10);
}

#[test]
fn units_without_position_are_never_hit() {
    let mut units = vec![unit(0, 0, SkillType::Fireball, 50), unit(1, 0, SkillType::Fireball, 50), None];
    units[1].as_mut().unwrap().position = None;
    cast_skill(SkillType::Fireball, 0, 50, &mut units);
    cast_skill(SkillType::WhirlwindSlash, 0, 50, &mut units);
    assert_eq!(hp(&units, 1), 100);
    assert!(units[2].is_none());
}

#[test]
fn hit_points_saturate() {
    let mut units = vec![unit(0, 0, SkillType::WhirlwindSlash, i32::MAX), unit(1, 0, SkillType::WhirlwindSlash, 0)];
    units[1].as_mut().unwrap().stats.hp = i32::MIN + 5;
    cast_skill(SkillType::WhirlwindSlash, 0, i32::MAX, &mut units);
    assert_eq!(hp(&units, 1), i32::MIN);
}

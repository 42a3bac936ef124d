use bevy::math::Vec2;
use bevy::prelude::Entity;
use skirmish::{
    attack_input_system, attack_provider, convert_hits_to_damage, direction_to, DealDamageEvent,
    EntityHitEvent, PlayerAttackEvent, ShapeCast, ATTACK_REACH, ATTACK_SWEEP_RADIUS, HIT_DAMAGE,
};

fn attack(player: Entity, direction: Vec2) -> PlayerAttackEvent {
    PlayerAttackEvent { player_entity: player, player_pos: Vec2::ZERO, direction }
}

#[test]
fn attack_with_nothing_in_reach_hits_nothing() {
    let player = Entity::from_raw(0);
    let swing = attack(player, Vec2::new(1.0, 0.0));
    assert_eq!(swing.sweep().max_distance, 8);
    assert_eq!(swing.resolve(None), None);
    assert!(attack_provider(&vec![(swing, None)]).is_empty());
}

#[test]
fn sweep_is_a_ball_cast_that_spares_the_attacker() {
    let player = Entity::from_raw(9);
    let swing = PlayerAttackEvent {
        player_entity: player,
        player_pos: Vec2::new(2.0, -1.0),
        direction: Vec2::new(0.0, 1.0),
    };
    assert_eq!(
        swing.sweep(),
        ShapeCast {
            origin: Vec2::new(2.0, -1.0),
            direction: Vec2::new(0.0, 1.0),
            radius: 1,
            max_distance: 8,
            exclude: player,
            exclude_sensors: true,
        }
    );
    assert_eq!(ATTACK_REACH, 8);
    assert_eq!(ATTACK_SWEEP_RADIUS, 1);
}

#[test]
fn first_contact_is_the_hit() {
    let player = Entity::from_raw(0);
    let dummy = Entity::from_raw(5);
    let swing = attack(player, Vec2::X);
    assert_eq!(swing.resolve(Some(dummy)), Some(EntityHitEvent { entity: dummy }));
}

#[test]
fn attacker_is_never_its_own_hit() {
    let player = Entity::from_raw(3);
    let swing = attack(player, Vec2::X);
    assert_eq!(swing.resolve(Some(player)), None);
    assert!(attack_provider(&vec![(swing, Some(player))]).is_empty());
}

#[test]
fn each_attack_gives_at_most_one_hit_in_order() {
    let player = Entity::from_raw(0);
    let a = Entity::from_raw(1);
    let b = Entity::from_raw(2);
    let swing = attack(player, Vec2::X);
    let outcomes = vec![
        (swing, Some(a)),
        (swing, None),
        (swing, Some(player)),
        (swing, Some(b)),
        (swing, Some(a)),
    ];
    let hits = attack_provider(&outcomes);
    assert!(hits.len() <= outcomes.len());
    assert_eq!(
        hits,
        vec![EntityHitEvent { entity: a }, EntityHitEvent { entity: b }, EntityHitEvent { entity: a }]
    );
    assert!(hits.iter().all(|hit| hit.entity != player));
    assert!(attack_provider(&Vec::new()).is_empty());
}

#[test]
fn press_with_cursor_in_the_world_attacks_toward_it() {
    let player = Entity::from_raw(0);
    let at = Vec2::new(1.0, 2.0);
    let made = attack_input_system(player, at, true, Some(Vec2::new(4.0, 6.0)));
    let made = made.expect("an attack");
    assert_eq!(made.player_entity, player);
    assert_eq!(made.player_pos, at);
    assert!((made.direction - Vec2::new(0.6, 0.8)).length() < 1e-6);
}

#[test]
fn no_press_or_no_cursor_is_no_attack() {
    let player = Entity::from_raw(0);
    let at = Vec2::new(1.0, 2.0);
    assert_eq!(attack_input_system(player, at, false, Some(Vec2::new(4.0, 6.0))), None);
    assert_eq!(attack_input_system(player, at, true, None), None);
    assert_eq!(attack_input_system(player, at, false, None), None);
}

#[test]
fn cursor_on_the_player_gives_the_zero_direction() {
    let player = Entity::from_raw(0);
    let at = Vec2::new(1.0, 2.0);
    let made = attack_input_system(player, at, true, Some(at)).expect("an attack");
    assert_eq!(made.direction, Vec2::ZERO);
}

#[test]
fn direction_is_the_unit_vector_between_two_points() {
    assert_eq!(direction_to(Vec2::new(1.0, 1.0), Vec2::new(1.0, 5.0)), Vec2::new(0.0, 1.0));
    assert_eq!(direction_to(Vec2::new(1.0, 5.0), Vec2::new(1.0, 1.0)), Vec2::new(0.0, -1.0));
    assert_eq!(direction_to(Vec2::new(2.0, 0.0), Vec2::new(-6.0, 0.0)), Vec2::new(-1.0, 0.0));
    assert_eq!(direction_to(Vec2::new(2.0, 3.0), Vec2::new(2.0, 3.0)), Vec2::ZERO);
    let d = direction_to(Vec2::ZERO, Vec2::new(30.0, 40.0));
    assert!((d.length() - 1.0).abs() < 1e-6);
    assert_eq!(d, Vec2::new(30.0, 40.0).normalize_or_zero());
}

#[test]
fn each_hit_deals_one_damage_without_origin() {
    let a = Entity::from_raw(1);
    let b = Entity::from_raw(2);
    let deals = convert_hits_to_damage(&vec![EntityHitEvent { entity: a }, EntityHitEvent { entity: b }]);
    assert_eq!(
        deals,
        vec![
            DealDamageEvent { from_position: None, damage: 1, target: a },
            DealDamageEvent { from_position: None, damage: 1, target: b },
        ]
    );
    assert_eq!(HIT_DAMAGE, 1);
    assert!(convert_hits_to_damage(&Vec::new()).is_empty());
}

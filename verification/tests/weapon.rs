use bevy::math::Vec2;
use bevy::prelude::Entity;
use skirmish::{
    animate_player_attack, animate_player_weapon, Animator, AnimatorStateMachine, FrameAction,
    PlayerAttackEvent, WeaponAnimationState, WeaponAnimationStateState, ATTACK_ANIMATION_NANOS,
    ATTACK_RANGE,
};
use std::time::Duration;

fn swing() -> PlayerAttackEvent {
    PlayerAttackEvent {
        player_entity: Entity::from_raw(0),
        player_pos: Vec2::ZERO,
        direction: Vec2::X,
    }
}

fn resting() -> WeaponAnimationState {
    WeaponAnimationState { look_direction: None, state: WeaponAnimationStateState::Idle }
}

fn thrusting() -> WeaponAnimationState {
    WeaponAnimationState {
        look_direction: None,
        state: WeaponAnimationStateState::Attacking { range: 5 },
    }
}

#[test]
fn weapon_durations() {
    assert_eq!(WeaponAnimationState::default(), resting());
    assert_eq!(resting().duration(), 0);
    assert_eq!(thrusting().duration(), ATTACK_ANIMATION_NANOS);
    assert_eq!(Duration::from_nanos(thrusting().duration()), Duration::from_secs_f32(0.23));
    assert_eq!(thrusting().next(), Some(resting()));
    assert_eq!(ATTACK_RANGE, 5);
}

#[test]
fn attack_starts_a_thrust() {
    let mut weapon = Animator::<WeaponAnimationState>::default();
    animate_player_attack(&mut weapon, &vec![swing()]);
    assert_eq!(weapon.state(), &thrusting());
    assert_eq!(weapon.timer().duration(), Duration::from_nanos(230_000_004));
    assert_eq!(weapon.timer().elapsed(), Duration::ZERO);
}

#[test]
fn several_attacks_start_one_thrust() {
    let mut weapon = Animator::<WeaponAnimationState>::default();
    animate_player_attack(&mut weapon, &vec![swing(), swing(), swing()]);
    assert_eq!(weapon.state(), &thrusting());
    assert_eq!(weapon.timer().elapsed(), Duration::ZERO);
}

#[test]
fn no_attack_leaves_the_weapon_alone() {
    let mut weapon = Animator::from(thrusting());
    weapon.advance(1_000);
    animate_player_attack(&mut weapon, &Vec::new());
    assert_eq!(weapon.timer().elapsed(), Duration::from_nanos(1_000));
    assert_eq!(weapon.state(), &thrusting());
}

#[test]
fn aim_turns_the_weapon_without_restarting_the_thrust() {
    let mut weapon = Animator::from(thrusting());
    weapon.advance(100_000_000);
    let aim = Vec2::new(0.0, -1.0);
    animate_player_weapon(&mut weapon, Some(aim));
    assert_eq!(weapon.state().look_direction, Some(aim));
    assert_eq!(weapon.state().state, WeaponAnimationStateState::Attacking { range: 5 });
    assert_eq!(weapon.timer().elapsed(), Duration::from_nanos(100_000_000));
    animate_player_weapon(&mut weapon, None);
    assert_eq!(weapon.state().look_direction, Some(aim));
}

#[test]
fn thrust_ends_at_rest() {
    let mut weapon = Animator::<WeaponAnimationState>::default();
    animate_player_weapon(&mut weapon, Some(Vec2::X));
    assert_eq!(weapon.advance(16_000_000), FrameAction::Rest);
    animate_player_attack(&mut weapon, &vec![swing()]);
    let mut frames = 0;
    loop {
        frames += 1;
        match weapon.advance(16_000_000) {
            FrameAction::Pose => assert!(weapon.timer().percent() < 1.0),
            FrameAction::Transitioned => break,
            FrameAction::Rest => panic!("a thrust does not rest"),
        }
    }
    assert_eq!(frames, 15);
    assert_eq!(weapon.state(), &resting());
    assert_eq!(weapon.advance(16_000_000), FrameAction::Rest);
}

use bevy::time::Timer;
use skirmish::{animator_system, Animator, AnimatorStateMachine, FrameAction};
use std::time::Duration;

/// A lamp that blinks: on for a while, then off for good unless told otherwise.
#[derive(Debug, Clone, PartialEq)]
enum Lamp {
    Off,
    On { nanos: u64, again: bool },
    Fading,
}

impl Default for Lamp {
    fn default() -> Self {
        Lamp::Off
    }
}

impl AnimatorStateMachine for Lamp {
    fn duration(&self) -> u64 {
        match self {
            Lamp::Off => 0,
            Lamp::On { nanos, .. } => *nanos,
            Lamp::Fading => 50,
        }
    }

    fn next(&self) -> Option<Self> {
        match self {
            Lamp::On { again: true, nanos } => Some(Lamp::On { nanos: *nanos, again: false }),
            Lamp::On { again: false, .. } => Some(Lamp::Fading),
            _ => None,
        }
    }
}

fn on(nanos: u64) -> Lamp {
    Lamp::On { nanos, again: false }
}

fn elapsed(timer: &Timer) -> u128 {
    timer.elapsed().as_nanos()
}

#[test]
fn from_arms_the_timer_for_the_state() {
    let lamp = Animator::from(on(700));
    assert_eq!(lamp.state(), &on(700));
    assert_eq!(lamp.timer().duration(), Duration::from_nanos(700));
    assert_eq!(elapsed(lamp.timer()), 0);
    assert!(!lamp.timer().finished());
    assert!(!lamp.timer().just_finished());
    assert!(!lamp.timer().paused());
}

#[test]
fn default_animator_rests_in_the_default_state() {
    let lamp: Animator<Lamp> = Animator::default();
    assert_eq!(lamp.state(), &Lamp::Off);
    assert_eq!(lamp.timer().duration(), Duration::ZERO);
}

#[test]
fn transition_resets_time_whatever_came_before() {
    let mut lamp = Animator::from(on(700));
    assert_eq!(lamp.advance(300), FrameAction::Pose);
    assert_eq!(elapsed(lamp.timer()), 300);

    let left = lamp.transition_into(on(40));
    assert_eq!(left, on(700));
    assert_eq!(lamp.state(), &on(40));
    assert_eq!(elapsed(lamp.timer()), 0);
    assert_eq!(lamp.timer().duration(), Duration::from_nanos(40));

    let left = lamp.transition_into(Lamp::Off);
    assert_eq!(left, on(40));
    assert_eq!(lamp.timer().duration(), Duration::ZERO);
    assert_eq!(elapsed(lamp.timer()), 0);

    let left = lamp.transition_into(Lamp::Fading);
    assert_eq!(left, Lamp::Off);
    assert_eq!(lamp.timer().duration(), Duration::from_nanos(50));
}

#[test]
fn state_without_duration_rests_forever() {
    let mut lamp = Animator::from(Lamp::Off);
    for delta in [0u64, 1, 1_000_000_000, u64::MAX] {
        assert_eq!(lamp.advance(delta), FrameAction::Rest);
        assert_eq!(lamp.state(), &Lamp::Off);
        assert!(!lamp.timer().just_finished());
        assert!(!lamp.timer().finished());
        assert_eq!(elapsed(lamp.timer()), 0);
    }
}

#[test]
fn timed_state_poses_until_its_time_is_up_then_moves_on_once() {
    let mut lamp = Animator::from(on(1000));
    let mut seen = Vec::new();
    for _ in 0..3 {
        seen.push(lamp.advance(300));
        assert_eq!(lamp.state(), &on(1000));
        assert!(lamp.timer().elapsed() < lamp.timer().duration());
        let t = lamp.timer().percent();
        assert!((0.0..1.0).contains(&t));
    }
    assert_eq!(elapsed(lamp.timer()), 900);
    seen.push(lamp.advance(300));
    assert_eq!(
        seen,
        vec![FrameAction::Pose, FrameAction::Pose, FrameAction::Pose, FrameAction::Transitioned]
    );
    assert_eq!(lamp.state(), &Lamp::Fading);
    assert_eq!(elapsed(lamp.timer()), 0);
    assert_eq!(lamp.timer().duration(), Duration::from_nanos(50));
    assert!(!lamp.timer().just_finished());
}

#[test]
fn reaching_the_duration_exactly_is_running_out() {
    let mut lamp = Animator::from(on(1000));
    assert_eq!(lamp.advance(999), FrameAction::Pose);
    assert_eq!(lamp.advance(1), FrameAction::Transitioned);
    let mut lamp = Animator::from(on(1000));
    assert_eq!(lamp.advance(1000), FrameAction::Transitioned);
    let mut lamp = Animator::from(on(1000));
    assert_eq!(lamp.advance(0), FrameAction::Pose);
    assert_eq!(elapsed(lamp.timer()), 0);
}

#[test]
fn named_successor_is_entered_else_the_default() {
    let mut lamp = Animator::from(Lamp::On { nanos: 10, again: true });
    assert_eq!(lamp.advance(10), FrameAction::Transitioned);
    assert_eq!(lamp.state(), &on(10));
    assert_eq!(lamp.advance(10), FrameAction::Transitioned);
    assert_eq!(lamp.state(), &Lamp::Fading);
    assert_eq!(lamp.advance(49), FrameAction::Pose);
    assert_eq!(lamp.advance(1), FrameAction::Transitioned);
    assert_eq!(lamp.state(), &Lamp::Off);
    assert_eq!(lamp.advance(1), FrameAction::Rest);
}

#[test]
fn long_frames_do_not_overflow() {
    let mut lamp = Animator::from(on(u64::MAX));
    assert_eq!(lamp.advance(u64::MAX - 1), FrameAction::Pose);
    assert_eq!(elapsed(lamp.timer()), (u64::MAX - 1) as u128);
    assert_eq!(lamp.advance(u64::MAX), FrameAction::Transitioned);
    assert_eq!(lamp.state(), &Lamp::Fading);
}

#[test]
fn mutate_state_keeps_the_timer() {
    let mut lamp = Animator::from(on(1000));
    lamp.advance(400);
    lamp.mutate_state(|state| {
        if let Lamp::On { again, .. } = state {
            *again = true;
        }
    });
    assert_eq!(lamp.state(), &Lamp::On { nanos: 1000, again: true });
    assert_eq!(elapsed(lamp.timer()), 400);
    assert_eq!(lamp.timer().duration(), Duration::from_nanos(1000));
    assert_eq!(lamp.advance(600), FrameAction::Transitioned);
    assert_eq!(lamp.state(), &on(1000));
}

#[test]
fn system_advances_every_animator_by_the_same_frame() {
    let mut lamps = vec![Animator::from(Lamp::Off), Animator::from(on(100)), Animator::from(on(30))];
    let actions = animator_system(&mut lamps, 30);
    assert_eq!(actions, vec![FrameAction::Rest, FrameAction::Pose, FrameAction::Transitioned]);
    assert_eq!(lamps[0].state(), &Lamp::Off);
    assert_eq!(elapsed(lamps[1].timer()), 30);
    assert_eq!(lamps[2].state(), &Lamp::Fading);
    let mut none: Vec<Animator<Lamp>> = Vec::new();
    assert!(animator_system(&mut none, 30).is_empty());
}

#[test]
fn clone_keeps_state_and_time_apart() {
    let mut lamp = Animator::from(on(1000));
    lamp.advance(400);
    let mut copy = lamp.clone();
    assert_eq!(copy.state(), lamp.state());
    assert_eq!(copy.timer(), lamp.timer());
    assert_eq!(copy.advance(100), FrameAction::Pose);
    assert_eq!(elapsed(copy.timer()), 500);
    assert_eq!(elapsed(lamp.timer()), 400);
}

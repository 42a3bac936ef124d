//! The player's weapon: at rest it follows the aim, on an attack it thrusts.

use crate::animation::{armed, Animator, AnimatorStateMachine};
use crate::combat::PlayerAttackEvent;
use bevy::math::Vec2;
use vstd::prelude::*;

verus! {

/// How long a thrust lasts, in nanoseconds: twenty-three hundredths of a
/// second as single precision holds it.
pub const ATTACK_ANIMATION_NANOS: u64 = 230_000_004;

/// How far a thrust carries the weapon, in world units.
pub const ATTACK_RANGE: u32 = 5;

/// Whether the weapon is thrusting.
#[derive(Debug, Clone, Copy, PartialEq, Eq, Structural)]
pub enum WeaponAnimationStateState {
    Idle,
    Attacking { range: u32 },
}

/// What the weapon's sprite is doing, and where it points.
#[derive(Debug, Clone, Copy, PartialEq)]
pub struct WeaponAnimationState {
    /// From the weapon's pivot toward the cursor, of length one at most;
    /// absent until the cursor has been seen.
    pub look_direction: Option<Vec2>,
    pub state: WeaponAnimationStateState,
}

impl WeaponAnimationState {
    /// The weapon at rest, before any aim.
    pub open spec fn resting() -> WeaponAnimationState {
        WeaponAnimationState { look_direction: None, state: WeaponAnimationStateState::Idle }
    }

    /// The weapon at the start of a thrust.
    pub open spec fn thrusting() -> WeaponAnimationState {
        WeaponAnimationState {
            look_direction: None,
            state: WeaponAnimationStateState::Attacking { range: ATTACK_RANGE },
        }
    }
}

impl Default for WeaponAnimationState {
    fn default() -> (state: Self)
        ensures
            state == WeaponAnimationState::resting(),
    {
        WeaponAnimationState { look_direction: None, state: WeaponAnimationStateState::Idle }
    }
}

impl AnimatorStateMachine for WeaponAnimationState {
    open spec fn spec_duration(&self) -> u64 {
        match self.state {
            WeaponAnimationStateState::Idle => 0,
            WeaponAnimationStateState::Attacking { .. } => ATTACK_ANIMATION_NANOS,
        }
    }

    open spec fn spec_next(&self) -> Option<Self> {
        Some(WeaponAnimationState::resting())
    }

    fn duration(&self) -> (nanos: u64) {
        match self.state {
            WeaponAnimationStateState::Idle => 0,
            WeaponAnimationStateState::Attacking { .. } => ATTACK_ANIMATION_NANOS,
        }
    }

    fn next(&self) -> (state: Option<Self>) {
        Some(WeaponAnimationState::default())
    }
}

/// Points the weapon along `look`, the aim of this frame if the cursor gave
/// one. The running animation keeps its timing.
pub fn animate_player_weapon(weapon: &mut Animator<WeaponAnimationState>, look: Option<Vec2>)
    ensures
        final(weapon)@.state.state == old(weapon)@.state.state,
        final(weapon)@.state.look_direction == match look {
            Some(aim) => Some(aim),
            None => old(weapon)@.state.look_direction,
        },
        final(weapon)@.elapsed == old(weapon)@.elapsed,
        final(weapon)@.duration == old(weapon)@.duration,
        final(weapon).clock() == old(weapon).clock(),
{
    match look {
        Some(aim) => {
            let take_aim = |state: &mut WeaponAnimationState| -> (done: ())
                ensures
                    final(state).state == old(state).state,
                    final(state).look_direction == Some(aim),
                {
                    state.look_direction = Some(aim);
                };
            weapon.mutate_state(take_aim);
        },
        None => {},
    }
}

/// Starts a thrust if the frame brought an attack, however many it brought.
pub fn animate_player_attack(
    weapon: &mut Animator<WeaponAnimationState>,
    attacks: &Vec<PlayerAttackEvent>,
)
    ensures
        attacks.len() == 0 ==> *final(weapon) == *old(weapon),
        attacks.len() > 0 ==> final(weapon)@ == armed(WeaponAnimationState::thrusting()),
{
    if attacks.len() > 0 {
        weapon.transition_into(
            WeaponAnimationState {
                look_direction: None,
                state: WeaponAnimationStateState::Attacking { range: ATTACK_RANGE },
            },
        );
    }
}

} // verus!

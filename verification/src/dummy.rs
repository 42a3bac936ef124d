//! The target dummy: how its sprite reacts to damage, and when it gives way
//! to its wreck.

use crate::animation::{armed, Animator, AnimatorStateMachine};
use crate::damage::DamageTakenEvent;
use crate::entity::same_entity;
use crate::health::HealthPool;
use crate::vector::{direction, direction_to};
use bevy::math::Vec2;
use bevy::prelude::Entity;
use vstd::prelude::*;

verus! {

/// How long a dummy rattles after a blow, in nanoseconds: six tenths of a
/// second as single precision holds it.
pub const DAMAGED_ANIMATION_NANOS: u64 = 600_000_024;

/// What a dummy's sprite is doing.
#[derive(Debug, Clone, Copy, PartialEq)]
pub enum DummyAnimationState {
    Idle,
    /// Rattling away from a blow. The direction points from the attacker to
    /// the dummy and has length one; it is absent where the blow had no
    /// origin.
    Damaged { relative_blow_direction: Option<Vec2> },
}

impl Default for DummyAnimationState {
    fn default() -> (state: Self)
        ensures
            state == DummyAnimationState::Idle,
    {
        DummyAnimationState::Idle
    }
}

impl AnimatorStateMachine for DummyAnimationState {
    open spec fn spec_duration(&self) -> u64 {
        match self {
            DummyAnimationState::Damaged { .. } => DAMAGED_ANIMATION_NANOS,
            DummyAnimationState::Idle => 0,
        }
    }

    open spec fn spec_next(&self) -> Option<Self> {
        Some(DummyAnimationState::Idle)
    }

    fn duration(&self) -> (nanos: u64) {
        match self {
            DummyAnimationState::Damaged { .. } => DAMAGED_ANIMATION_NANOS,
            DummyAnimationState::Idle => 0,
        }
    }

    fn next(&self) -> (state: Option<Self>) {
        Some(DummyAnimationState::Idle)
    }
}

/// A dummy's sprite: the body it belongs to, where it stands in the world,
/// and its animator.
pub struct DummySprite {
    pub parent: Entity,
    pub position: Vec2,
    pub animator: Animator<DummyAnimationState>,
}

/// `j` is the last event of `events` that `parent` took.
pub open spec fn is_last_blow(events: Seq<DamageTakenEvent>, parent: Entity, j: int) -> bool {
    &&& 0 <= j < events.len()
    &&& events[j].taken_by == parent
    &&& forall|k: int| j < k < events.len() ==> (#[trigger] events[k]).taken_by != parent
}

/// The last event of `events` that `parent` took, if it took any.
pub open spec fn last_blow(events: Seq<DamageTakenEvent>, parent: Entity) -> Option<int> {
    if exists|j: int| is_last_blow(events, parent, j) {
        Some(choose|j: int| is_last_blow(events, parent, j))
    } else {
        None
    }
}

/// The direction in which a blow from `origin` pushes a sprite at `position`.
pub open spec fn blow_direction(position: Vec2, origin: Option<Vec2>) -> Option<Vec2> {
    match origin {
        Some(from) => Some(direction(from, position)),
        None => None,
    }
}

/// The state that a sprite at `position` enters on `blow`.
pub open spec fn shaken_by(position: Vec2, blow: DamageTakenEvent) -> DummyAnimationState {
    DummyAnimationState::Damaged {
        relative_blow_direction: blow_direction(position, blow.from_position),
    }
}

/// The entities of `dummies` whose pool died in the latest pass, in order.
pub open spec fn just_dead(dummies: Seq<(Entity, HealthPool)>) -> Seq<Entity> {
    dummies.filter(|d: (Entity, HealthPool)| d.1.just_died).map_values(
        |d: (Entity, HealthPool)| d.0,
    )
}

/// What the damage of one pass does to a sprite's animator: it enters the
/// damaged state, pushed away from the origin of the last event that the
/// sprite's body took; without such an event it is left alone.
pub open spec fn shaken(
    before: Animator<DummyAnimationState>,
    parent: Entity,
    position: Vec2,
    events: Seq<DamageTakenEvent>,
    after: Animator<DummyAnimationState>,
) -> bool {
    match last_blow(events, parent) {
        Some(j) => after@ == armed(shaken_by(position, events[j])),
        None => after == before,
    }
}

/// The last blow is the only last blow.
pub proof fn lemma_last_blow_is(events: Seq<DamageTakenEvent>, parent: Entity, j: int)
    requires
        is_last_blow(events, parent, j),
    ensures
        last_blow(events, parent) == Some(j),
{
}

/// Makes one sprite react to the damage that its body took: with each such
/// event, in order, the animator enters the damaged state anew, pushed away
/// from that event's origin. So the last such event decides, and without one
/// the animator is left alone.
pub fn shake_if_hit(
    animator: &mut Animator<DummyAnimationState>,
    parent: Entity,
    position: Vec2,
    events: &Vec<DamageTakenEvent>,
)
    ensures
        shaken(*old(animator), parent, position, events@, *final(animator)),
{
    let ghost mut blow: Option<int> = None;
    let n = events.len();
    let mut i: usize = 0;
    while i < n
        invariant
            i <= n,
            n == events.len(),
            match blow {
                Some(j) => {
                    &&& is_last_blow(events@.take(i as int), parent, j)
                    &&& animator@ == armed(shaken_by(position, events@[j]))
                },
                None => {
                    &&& forall|k: int| 0 <= k < i ==> (#[trigger] events@[k]).taken_by != parent
                    &&& *animator == *old(animator)
                },
            },
        decreases n - i,
    {
        let event = events[i];
        if same_entity(parent, event.taken_by) {
            let relative_blow_direction = match event.from_position {
                Some(from) => Some(direction_to(from, position)),
                None => None,
            };
            animator.transition_into(DummyAnimationState::Damaged { relative_blow_direction });
            proof {
                blow = Some(i as int);
            }
        } else {
            proof {
                if let Some(j) = blow {
                    assert forall|k: int| j < k < i + 1 implies (#[trigger] events@.take(
                        i + 1,
                    )[k]).taken_by != parent by {
                        if k < i {
                            assert(events@.take(i as int)[k].taken_by != parent);
                        }
                    }
                }
            }
        }
        i += 1;
    }
    proof {
        assert(events@.take(n as int) =~= events@);
        match blow {
            Some(j) => {
                lemma_last_blow_is(events@, parent, j);
            },
            None => {
                if exists|j: int| is_last_blow(events@, parent, j) {
                    let j = choose|j: int| is_last_blow(events@, parent, j);
                    assert(events@[j].taken_by != parent);
                }
            },
        }
    }
}

/// Makes every dummy sprite react to the damage that its body took in this
/// pass.
pub fn dummy_damage_shake(sprites: &mut Vec<DummySprite>, events: &Vec<DamageTakenEvent>)
    ensures
        final(sprites).len() == old(sprites).len(),
        forall|i: int|
            0 <= i < old(sprites).len() ==> {
                let before = #[trigger] old(sprites)[i];
                let after = final(sprites)[i];
                &&& after.parent == before.parent
                &&& after.position == before.position
                &&& shaken(before.animator, before.parent, before.position, events@, after.animator)
            },
{
    let n = sprites.len();
    let mut i: usize = 0;
    while i < n
        invariant
            i <= n,
            n == sprites.len(),
            n == old(sprites).len(),
            forall|k: int| i <= k < n ==> #[trigger] sprites[k] == old(sprites)[k],
            forall|k: int|
                0 <= k < i ==> {
                    let before = #[trigger] old(sprites)[k];
                    let after = sprites[k];
                    &&& after.parent == before.parent
                    &&& after.position == before.position
                    &&& shaken(
                        before.animator,
                        before.parent,
                        before.position,
                        events@,
                        after.animator,
                    )
                },
        decreases n - i,
    {
        let parent = sprites[i].parent;
        let position = sprites[i].position;
        shake_if_hit(&mut sprites[i].animator, parent, position, events);
        i += 1;
    }
}

/// Picks the dummies to replace by their wreck: those whose pool died in the
/// latest damage pass, in the order given.
pub fn tick_dummy_sprite(dummies: &Vec<(Entity, HealthPool)>) -> (dead: Vec<Entity>)
    ensures
        dead@ == just_dead(dummies@),
{
    let mut dead: Vec<Entity> = Vec::new();
    let n = dummies.len();
    let mut i: usize = 0;
    while i < n
        invariant
            i <= n,
            n == dummies.len(),
            dead@ == just_dead(dummies@.take(i as int)),
        decreases n - i,
    {
        let (entity, pool) = dummies[i];
        proof {
            let died = |d: (Entity, HealthPool)| d.1.just_died;
            assert(dummies@.take(i + 1).drop_last() =~= dummies@.take(i as int));
            reveal(Seq::filter);
            assert(dummies@.take(i + 1).filter(died) == if pool.just_died {
                dummies@.take(i as int).filter(died).push(dummies@[i as int])
            } else {
                dummies@.take(i as int).filter(died)
            });
            assert(just_dead(dummies@.take(i + 1)) =~= if pool.just_died {
                just_dead(dummies@.take(i as int)).push(entity)
            } else {
                just_dead(dummies@.take(i as int))
            });
        }
        if pool.just_died {
            dead.push(entity);
        }
        i += 1;
    }
    proof {
        assert(dummies@.take(n as int) =~= dummies@);
    }
    dead
}

} // verus!

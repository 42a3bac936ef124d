//! From an attack press to damage: the attack event, the sweep it asks of the
//! physics world, the hit that the sweep's answer amounts to, and the damage
//! a hit deals.

use crate::damage::DealDamageEvent;
use crate::entity::same_entity;
use crate::vector::{direction, direction_to};
use bevy::math::Vec2;
use bevy::prelude::Entity;
use vstd::prelude::*;

verus! {

/// How far an attack reaches, in world units.
pub const ATTACK_REACH: u32 = 8;

/// Radius of the ball that an attack sweeps along its path, in world units.
pub const ATTACK_SWEEP_RADIUS: u32 = 1;

/// Hit points that one hit takes.
pub const HIT_DAMAGE: u32 = 1;

/// An attack by the player, in a direction of length one (or zero).
#[derive(Debug, Clone, Copy, PartialEq)]
pub struct PlayerAttackEvent {
    pub player_entity: Entity,
    pub player_pos: Vec2,
    pub direction: Vec2,
}

/// The one entity that an attack struck.
#[derive(Debug, Clone, Copy, PartialEq)]
pub struct EntityHitEvent {
    pub entity: Entity,
}

/// The sweep that resolves an attack: a ball cast forward from `origin`,
/// answered by the first collider in its way.
#[derive(Debug, Clone, Copy, PartialEq)]
pub struct ShapeCast {
    pub origin: Vec2,
    pub direction: Vec2,
    pub radius: u32,
    pub max_distance: u32,
    /// The entity whose own collider the sweep passes through.
    pub exclude: Entity,
    pub exclude_sensors: bool,
}

/// The attack that an input frame amounts to: one on the press, if the cursor
/// lies in the world, aimed from the player at the cursor.
pub open spec fn attack_of(
    player_entity: Entity,
    player_pos: Vec2,
    just_pressed: bool,
    cursor: Option<Vec2>,
) -> Option<PlayerAttackEvent> {
    match cursor {
        Some(at) => if just_pressed {
            Some(
                PlayerAttackEvent {
                    player_entity,
                    player_pos,
                    direction: direction(player_pos, at),
                },
            )
        } else {
            None
        },
        None => None,
    }
}

/// The sweep for `attack`.
pub open spec fn sweep_of(attack: PlayerAttackEvent) -> ShapeCast {
    ShapeCast {
        origin: attack.player_pos,
        direction: attack.direction,
        radius: ATTACK_SWEEP_RADIUS,
        max_distance: ATTACK_REACH,
        exclude: attack.player_entity,
        exclude_sensors: true,
    }
}

/// The hit that a sweep's answer amounts to. No contact, no hit; and an
/// attacker is never hit by its own attack.
pub open spec fn hit_of(attack: PlayerAttackEvent, contact: Option<Entity>) -> Option<
    EntityHitEvent,
> {
    match contact {
        Some(entity) => if entity == attack.player_entity {
            None
        } else {
            Some(EntityHitEvent { entity })
        },
        None => None,
    }
}

/// The hits of a frame's attacks, in the attacks' order.
pub open spec fn hits_of(outcomes: Seq<(PlayerAttackEvent, Option<Entity>)>) -> Seq<EntityHitEvent>
    decreases outcomes.len(),
{
    if outcomes.len() == 0 {
        Seq::empty()
    } else {
        let earlier = hits_of(outcomes.drop_last());
        match hit_of(outcomes.last().0, outcomes.last().1) {
            Some(hit) => earlier.push(hit),
            None => earlier,
        }
    }
}

/// For each hit of `hits_of`, the place of the attack that it came from.
pub open spec fn hit_sources(outcomes: Seq<(PlayerAttackEvent, Option<Entity>)>) -> Seq<int>
    decreases outcomes.len(),
{
    if outcomes.len() == 0 {
        Seq::empty()
    } else {
        let earlier = hit_sources(outcomes.drop_last());
        match hit_of(outcomes.last().0, outcomes.last().1) {
            Some(hit) => earlier.push(outcomes.len() - 1),
            None => earlier,
        }
    }
}

/// The damage that a frame's hits deal: one event a hit, in order, each for
/// `HIT_DAMAGE` and without an origin.
pub open spec fn deals_of(hits: Seq<EntityHitEvent>) -> Seq<DealDamageEvent> {
    Seq::new(
        hits.len(),
        |i: int| DealDamageEvent { from_position: None, damage: HIT_DAMAGE, target: hits[i].entity },
    )
}

/// Hit resolution gives each attack at most one hit and never hits the
/// attacker. Every hit comes from an attack of its own, the hits keep the
/// attacks' order, the entity hit is the one that the attack's sweep met,
/// and it is not the entity that attacked.
pub proof fn lemma_one_hit_per_attack(outcomes: Seq<(PlayerAttackEvent, Option<Entity>)>)
    ensures
        hits_of(outcomes).len() <= outcomes.len(),
        hit_sources(outcomes).len() == hits_of(outcomes).len(),
        forall|k: int|
            0 <= k < hits_of(outcomes).len() ==> {
                let i = #[trigger] hit_sources(outcomes)[k];
                &&& 0 <= i < outcomes.len()
                &&& outcomes[i].1 == Some(hits_of(outcomes)[k].entity)
                &&& hits_of(outcomes)[k].entity != outcomes[i].0.player_entity
            },
        forall|k: int, l: int|
            0 <= k < l < hits_of(outcomes).len() ==> hit_sources(outcomes)[k] < hit_sources(
                outcomes,
            )[l],
    decreases outcomes.len(),
{
    if outcomes.len() > 0 {
        let head = outcomes.drop_last();
        lemma_one_hit_per_attack(head);
        assert forall|k: int| 0 <= k < hits_of(outcomes).len() implies {
            let i = #[trigger] hit_sources(outcomes)[k];
            &&& 0 <= i < outcomes.len()
            &&& outcomes[i].1 == Some(hits_of(outcomes)[k].entity)
            &&& hits_of(outcomes)[k].entity != outcomes[i].0.player_entity
        } by {
            if k < hits_of(head).len() {
                let i = hit_sources(head)[k];
                assert(head[i] == outcomes[i]);
            }
        }
        assert forall|k: int, l: int| 0 <= k < l < hits_of(outcomes).len() implies hit_sources(
            outcomes,
        )[k] < hit_sources(outcomes)[l] by {
            if l < hits_of(head).len() {
                assert(hit_sources(head)[k] < hit_sources(head)[l]);
            } else {
                let i = hit_sources(head)[k];
                assert(0 <= i < head.len());
            }
        }
    }
}

/// An attack whose sweep met nothing yields no hit.
pub proof fn lemma_miss_hits_nothing(attack: PlayerAttackEvent)
    ensures
        hits_of(seq![(attack, None::<Entity>)]) == Seq::<EntityHitEvent>::empty(),
{
    let one = seq![(attack, None::<Entity>)];
    assert(hits_of(one.drop_last()) == Seq::<EntityHitEvent>::empty());
}

/// Turns an input frame into an attack: on the press of the attack button,
/// and only with a cursor that resolves to a world position, one attack from
/// the player's position toward the cursor.
pub fn attack_input_system(
    player_entity: Entity,
    player_pos: Vec2,
    just_pressed: bool,
    cursor: Option<Vec2>,
) -> (attack: Option<PlayerAttackEvent>)
    ensures
        attack == attack_of(player_entity, player_pos, just_pressed, cursor),
{
    match cursor {
        Some(at) => {
            if just_pressed {
                Some(
                    PlayerAttackEvent {
                        player_entity,
                        player_pos,
                        direction: direction_to(player_pos, at),
                    },
                )
            } else {
                None
            }
        },
        None => None,
    }
}

impl PlayerAttackEvent {
    /// The sweep to ask of the physics world for this attack.
    pub fn sweep(&self) -> (cast: ShapeCast)
        ensures
            cast == sweep_of(*self),
    {
        ShapeCast {
            origin: self.player_pos,
            direction: self.direction,
            radius: ATTACK_SWEEP_RADIUS,
            max_distance: ATTACK_REACH,
            exclude: self.player_entity,
            exclude_sensors: true,
        }
    }

    /// The hit, if any, given the first entity that the sweep met.
    pub fn resolve(&self, contact: Option<Entity>) -> (hit: Option<EntityHitEvent>)
        ensures
            hit == hit_of(*self, contact),
    {
        match contact {
            Some(entity) => {
                if same_entity(entity, self.player_entity) {
                    None
                } else {
                    Some(EntityHitEvent { entity })
                }
            },
            None => None,
        }
    }
}

/// Resolves a frame's attacks, each given with the first entity that its
/// sweep met, into hit events.
pub fn attack_provider(outcomes: &Vec<(PlayerAttackEvent, Option<Entity>)>) -> (hits: Vec<
    EntityHitEvent,
>)
    ensures
        hits@ == hits_of(outcomes@),
{
    let mut hits: Vec<EntityHitEvent> = Vec::new();
    let n = outcomes.len();
    let mut i: usize = 0;
    while i < n
        invariant
            i <= n,
            n == outcomes.len(),
            hits@ == hits_of(outcomes@.take(i as int)),
        decreases n - i,
    {
        let (attack, contact) = outcomes[i];
        proof {
            assert(outcomes@.take(i + 1).drop_last() =~= outcomes@.take(i as int));
        }
        match attack.resolve(contact) {
            Some(hit) => {
                hits.push(hit);
            },
            None => {},
        }
        i += 1;
    }
    proof {
        assert(outcomes@.take(n as int) =~= outcomes@);
    }
    hits
}

/// Turns each hit into the damage it deals.
pub fn convert_hits_to_damage(hits: &Vec<EntityHitEvent>) -> (deals: Vec<DealDamageEvent>)
    ensures
        deals@ == deals_of(hits@),
{
    let mut deals: Vec<DealDamageEvent> = Vec::new();
    let n = hits.len();
    let mut i: usize = 0;
    while i < n
        invariant
            i <= n,
            n == hits.len(),
            deals.len() == i,
            forall|j: int| 0 <= j < i ==> #[trigger] deals@[j] == deals_of(hits@)[j],
        decreases n - i,
    {
        deals.push(DealDamageEvent { from_position: None, damage: HIT_DAMAGE, target: hits[i].entity });
        i += 1;
    }
    deals
}

} // verus!

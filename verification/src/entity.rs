//! The engine's entity handle and plane vector, as values this crate carries
//! but never looks inside.

use bevy::math::Vec2;
use bevy::prelude::Entity;
use vstd::prelude::*;

verus! {

/// `bevy::prelude::Entity`: an index and a generation, opaque here.
#[verifier::external_type_specification]
#[verifier::external_body]
pub struct ExEntity(Entity);

/// `bevy::math::Vec2`: two single-precision coordinates, opaque here.
#[verifier::external_type_specification]
#[verifier::external_body]
pub struct ExVec2(Vec2);

/// `Entity`'s `==`. The engine derives it over the handle's two integer
/// fields, index and generation, so it answers `true` exactly when both
/// handles are the same value.
#[verifier::external_body]
pub(crate) fn same_entity(a: Entity, b: Entity) -> (same: bool)
    ensures
        same == (a == b),
{
    a == b
}

} // verus!

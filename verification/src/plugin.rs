//! The damage core as one unit of a frame.

use crate::combat::{convert_hits_to_damage, deals_of, EntityHitEvent};
use crate::damage::{damage_pass, damage_system, DamageTakenEvent, DealDamageEvent};
use crate::health::HealthPool;
use bevy::prelude::Entity;
use vstd::prelude::*;

verus! {

/// The damage core: health pools and the one pass a frame that hurts them.
pub struct CorePlugin;

impl CorePlugin {
    /// Applies the damage of a frame in a single pass: first what the
    /// frame's hits deal, then what was dealt directly. One pass takes both,
    /// so a flag raised for one source is not lowered again for the other.
    pub fn update(
        &self,
        pools: &mut Vec<(Entity, HealthPool)>,
        hits: &Vec<EntityHitEvent>,
        direct: &Vec<DealDamageEvent>,
    ) -> (taken: Vec<DamageTakenEvent>)
        ensures
            (final(pools)@, taken@) == damage_pass(old(pools)@, deals_of(hits@) + direct@),
    {
        let mut deals = convert_hits_to_damage(hits);
        let n = direct.len();
        let mut i: usize = 0;
        while i < n
            invariant
                i <= n,
                n == direct.len(),
                deals@ == deals_of(hits@) + direct@.take(i as int),
            decreases n - i,
        {
            deals.push(direct[i]);
            i += 1;
        }
        proof {
            assert(direct@.take(n as int) =~= direct@);
        }
        damage_system(pools, &deals)
    }
}

} // verus!

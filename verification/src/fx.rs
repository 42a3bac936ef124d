//! What is worth telling about the damage of a pass.

use crate::damage::{find_pool, pool_index, DamageTakenEvent};
use crate::health::HealthPool;
use bevy::prelude::Entity;
use vstd::prelude::*;

verus! {

/// One line of the damage report: who took how much, and what is left.
#[derive(Debug, Clone, Copy, PartialEq)]
pub struct DamageReport {
    pub taken_by: Entity,
    pub damage: u32,
    pub current_hp: u32,
}

/// The line for `event`, if the entity that took the damage still has a pool.
pub open spec fn report_of(event: DamageTakenEvent, pools: Seq<(Entity, HealthPool)>) -> Option<
    DamageReport,
> {
    match pool_index(pools, event.taken_by) {
        Some(i) => Some(
            DamageReport {
                taken_by: event.taken_by,
                damage: event.damage,
                current_hp: pools[i].1.current_hp,
            },
        ),
        None => None,
    }
}

/// The lines for `events`, in order.
pub open spec fn reports_of(events: Seq<DamageTakenEvent>, pools: Seq<(Entity, HealthPool)>) -> Seq<
    DamageReport,
>
    decreases events.len(),
{
    if events.len() == 0 {
        Seq::empty()
    } else {
        let earlier = reports_of(events.drop_last(), pools);
        match report_of(events.last(), pools) {
            Some(line) => earlier.push(line),
            None => earlier,
        }
    }
}

/// Reports the damage of a pass: for each event whose entity has a pool, the
/// entity, the damage and the hit points it now has. Events about entities
/// without a pool are passed over.
pub fn damage_numbers(events: &Vec<DamageTakenEvent>, pools: &Vec<(Entity, HealthPool)>) -> (lines:
    Vec<DamageReport>)
    ensures
        lines@ == reports_of(events@, pools@),
{
    let mut lines: Vec<DamageReport> = Vec::new();
    let n = events.len();
    let mut k: usize = 0;
    while k < n
        invariant
            k <= n,
            n == events.len(),
            lines@ == reports_of(events@.take(k as int), pools@),
        decreases n - k,
    {
        let event = events[k];
        proof {
            assert(events@.take(k + 1).drop_last() =~= events@.take(k as int));
        }
        match find_pool(pools, event.taken_by) {
            Some(i) => {
                lines.push(
                    DamageReport {
                        taken_by: event.taken_by,
                        damage: event.damage,
                        current_hp: pools[i].1.current_hp,
                    },
                );
            },
            None => {},
        }
        k += 1;
    }
    proof {
        assert(events@.take(n as int) =~= events@);
    }
    lines
}

} // verus!

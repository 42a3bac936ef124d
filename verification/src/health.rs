//! Hit points of one living entity.

use vstd::prelude::*;

verus! {

/// Authoritative hit-point state of an entity.
#[derive(Debug, Clone, Copy, PartialEq, Eq, Structural)]
pub struct HealthPool {
    pub max_hp: u32,
    pub current_hp: u32,
    /// Set by the damage pass in which the pool reached zero, cleared by the next.
    pub just_died: bool,
}

impl HealthPool {
    /// A pool never holds more than its maximum.
    pub open spec fn wf(&self) -> bool {
        self.current_hp <= self.max_hp
    }

    /// A pool of `current_hp` hit points out of `max_hp`, its flag down. No
    /// pool starts with more than its maximum.
    pub fn new(max_hp: u32, current_hp: u32) -> (pool: HealthPool)
        requires
            current_hp <= max_hp,
        ensures
            pool == (HealthPool { max_hp, current_hp, just_died: false }),
            pool.wf(),
    {
        HealthPool { max_hp, current_hp, just_died: false }
    }
}

} // verus!

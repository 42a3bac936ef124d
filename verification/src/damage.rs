//! The damage pass: deal-damage events in, health mutated, damage-taken events out.

use crate::entity::same_entity;
use crate::health::HealthPool;
use bevy::math::Vec2;
use bevy::prelude::Entity;
use vstd::prelude::*;

verus! {

/// A request to hurt `target`.
#[derive(Debug, Clone, Copy, PartialEq)]
pub struct DealDamageEvent {
    /// Where the blow came from, when the producer knows.
    pub from_position: Option<Vec2>,
    pub damage: u32,
    pub target: Entity,
}

/// Damage that a living entity took in this pass.
#[derive(Debug, Clone, Copy, PartialEq)]
pub struct DamageTakenEvent {
    /// The origin of the deal-damage event, echoed.
    pub from_position: Option<Vec2>,
    pub damage: u32,
    pub taken_by: Entity,
    /// Whether this blow brought the pool to zero.
    pub killing_blow: bool,
}

/// `i` is the first entry of `pools` that belongs to `target`.
pub open spec fn is_first_pool(pools: Seq<(Entity, HealthPool)>, target: Entity, i: int) -> bool {
    &&& 0 <= i < pools.len()
    &&& pools[i].0 == target
    &&& forall|j: int| 0 <= j < i ==> (#[trigger] pools[j]).0 != target
}

/// Where `target`'s pool stands, if it has one.
pub open spec fn pool_index(pools: Seq<(Entity, HealthPool)>, target: Entity) -> Option<int> {
    if exists|i: int| is_first_pool(pools, target, i) {
        Some(choose|i: int| is_first_pool(pools, target, i))
    } else {
        None
    }
}

/// A living pool after a blow of `damage`: hit points floor at zero, and the
/// flag goes up when they reach it.
pub open spec fn struck(pool: HealthPool, damage: u32) -> HealthPool {
    HealthPool {
        max_hp: pool.max_hp,
        current_hp: if damage >= pool.current_hp {
            0
        } else {
            (pool.current_hp - damage) as u32
        },
        just_died: pool.just_died || damage >= pool.current_hp,
    }
}

/// One deal-damage event applied: a target without a pool, or already at
/// zero, absorbs it silently.
pub open spec fn apply_deal(pools: Seq<(Entity, HealthPool)>, deal: DealDamageEvent) -> (
    Seq<(Entity, HealthPool)>,
    Option<DamageTakenEvent>,
) {
    match pool_index(pools, deal.target) {
        Some(i) => if pools[i].1.current_hp == 0 {
            (pools, None)
        } else {
            (
                pools.update(i, (pools[i].0, struck(pools[i].1, deal.damage))),
                Some(
                    DamageTakenEvent {
                        from_position: deal.from_position,
                        damage: deal.damage,
                        taken_by: pools[i].0,
                        killing_blow: deal.damage >= pools[i].1.current_hp,
                    },
                ),
            )
        },
        None => (pools, None),
    }
}

/// The events applied in order, with what each living target took.
pub open spec fn apply_deals(pools: Seq<(Entity, HealthPool)>, deals: Seq<DealDamageEvent>) -> (
    Seq<(Entity, HealthPool)>,
    Seq<DamageTakenEvent>,
)
    decreases deals.len(),
{
    if deals.len() == 0 {
        (pools, Seq::empty())
    } else {
        let (before, taken) = apply_deals(pools, deals.drop_last());
        let (after, event) = apply_deal(before, deals.last());
        (
            after,
            match event {
                Some(e) => taken.push(e),
                None => taken,
            },
        )
    }
}

/// Every pool with its just-died flag down.
pub open spec fn cleared(pools: Seq<(Entity, HealthPool)>) -> Seq<(Entity, HealthPool)> {
    Seq::new(
        pools.len(),
        |i: int|
            (
                pools[i].0,
                HealthPool {
                    max_hp: pools[i].1.max_hp,
                    current_hp: pools[i].1.current_hp,
                    just_died: false,
                },
            ),
    )
}

/// A whole pass: flags of earlier deaths go down, then the events apply.
pub open spec fn damage_pass(pools: Seq<(Entity, HealthPool)>, deals: Seq<DealDamageEvent>) -> (
    Seq<(Entity, HealthPool)>,
    Seq<DamageTakenEvent>,
) {
    apply_deals(cleared(pools), deals)
}

/// The first pool is the only first pool.
pub proof fn lemma_pool_index_is(pools: Seq<(Entity, HealthPool)>, target: Entity, i: int)
    requires
        is_first_pool(pools, target, i),
    ensures
        pool_index(pools, target) == Some(i),
{
}

/// Lowering the flags moves no pool.
pub proof fn lemma_cleared_keeps_index(pools: Seq<(Entity, HealthPool)>, target: Entity)
    ensures
        pool_index(cleared(pools), target) == pool_index(pools, target),
{
    let low = cleared(pools);
    if exists|i: int| is_first_pool(pools, target, i) {
        let i = choose|i: int| is_first_pool(pools, target, i);
        lemma_pool_index_is(low, target, i);
    } else if exists|i: int| is_first_pool(low, target, i) {
        let i = choose|i: int| is_first_pool(low, target, i);
        assert forall|j: int| 0 <= j < i implies (#[trigger] pools[j]).0 != target by {
            assert(low[j].0 != target);
        }
        assert(is_first_pool(pools, target, i));
    }
}

/// A blow at least as large as what a living target has left brings it to
/// exactly zero and is reported as the killing blow; a smaller one takes
/// exactly its amount. Hit points never pass below zero.
pub proof fn lemma_blow_on_the_living(pools: Seq<(Entity, HealthPool)>, deal: DealDamageEvent, i: int)
    requires
        pool_index(pools, deal.target) == Some(i),
        pools[i].1.current_hp > 0,
    ensures
        apply_deal(pools, deal).0.len() == pools.len(),
        apply_deal(pools, deal).0[i].1.current_hp == if deal.damage >= pools[i].1.current_hp {
            0
        } else {
            pools[i].1.current_hp - deal.damage
        },
        apply_deal(pools, deal).0[i].1.just_died == (pools[i].1.just_died || deal.damage
            >= pools[i].1.current_hp),
        apply_deal(pools, deal).1 == Some(
            DamageTakenEvent {
                from_position: deal.from_position,
                damage: deal.damage,
                taken_by: deal.target,
                killing_blow: deal.damage >= pools[i].1.current_hp,
            },
        ),
{
}

/// A pass of one killing event on a living target: the pool ends at zero with
/// its flag up, and the one event that comes out is a killing blow.
pub proof fn lemma_lethal_pass(pools: Seq<(Entity, HealthPool)>, deal: DealDamageEvent, i: int)
    requires
        pool_index(pools, deal.target) == Some(i),
        pools[i].1.current_hp > 0,
        deal.damage >= pools[i].1.current_hp,
    ensures
        damage_pass(pools, seq![deal]).0[i].1.current_hp == 0,
        damage_pass(pools, seq![deal]).0[i].1.just_died,
        damage_pass(pools, seq![deal]).1.len() == 1,
        damage_pass(pools, seq![deal]).1[0].killing_blow,
        damage_pass(pools, seq![deal]).1[0].taken_by == deal.target,
        damage_pass(pools, seq![deal]).1[0].damage == deal.damage,
{
    let low = cleared(pools);
    let one = seq![deal];
    lemma_cleared_keeps_index(pools, deal.target);
    lemma_blow_on_the_living(low, deal, i);
    assert(apply_deals(low, one.drop_last()) == (low, Seq::<DamageTakenEvent>::empty()));
}

/// An event aimed at a pool that is already at zero, or at an entity without
/// a pool, changes nothing and reports nothing.
pub proof fn lemma_dead_target_absorbs(pools: Seq<(Entity, HealthPool)>, deal: DealDamageEvent)
    requires
        match pool_index(pools, deal.target) {
            Some(i) => pools[i].1.current_hp == 0,
            None => true,
        },
    ensures
        apply_deal(pools, deal) == (pools, None::<DamageTakenEvent>),
        damage_pass(pools, seq![deal]) == (cleared(pools), Seq::<DamageTakenEvent>::empty()),
{
    let low = cleared(pools);
    let one = seq![deal];
    lemma_cleared_keeps_index(pools, deal.target);
    assert(apply_deals(low, one.drop_last()) == (low, Seq::<DamageTakenEvent>::empty()));
}

/// What a run of events can do to the pools it starts from: none is added,
/// removed or renamed, no maximum moves, no pool gains hit points, and a flag
/// is up afterwards exactly if it was up before or the pool went from living
/// to zero.
pub proof fn lemma_apply_deals_outcome(start: Seq<(Entity, HealthPool)>, deals: Seq<DealDamageEvent>)
    ensures
        apply_deals(start, deals).0.len() == start.len(),
        apply_deals(start, deals).1.len() <= deals.len(),
        forall|i: int|
            0 <= i < start.len() ==> {
                let before = #[trigger] start[i];
                let after = apply_deals(start, deals).0[i];
                &&& after.0 == before.0
                &&& after.1.max_hp == before.1.max_hp
                &&& after.1.current_hp <= before.1.current_hp
                &&& after.1.just_died == (before.1.just_died || (before.1.current_hp > 0
                    && after.1.current_hp == 0))
            },
    decreases deals.len(),
{
    if deals.len() > 0 {
        lemma_apply_deals_outcome(start, deals.drop_last());
        let mid = apply_deals(start, deals.drop_last()).0;
        let deal = deals.last();
        if exists|k: int| is_first_pool(mid, deal.target, k) {
            let k = choose|k: int| is_first_pool(mid, deal.target, k);
            assert(is_first_pool(mid, deal.target, k));
        }
        assert forall|i: int| 0 <= i < start.len() implies {
            let before = #[trigger] start[i];
            let after = apply_deals(start, deals).0[i];
            &&& after.0 == before.0
            &&& after.1.max_hp == before.1.max_hp
            &&& after.1.current_hp <= before.1.current_hp
            &&& after.1.just_died == (before.1.just_died || (before.1.current_hp > 0
                && after.1.current_hp == 0))
        } by {
            let m = mid[i];
            assert(m.0 == start[i].0);
        }
    }
}

/// The damage that `deals` aim at `target`, all told.
pub open spec fn damage_aimed(deals: Seq<DealDamageEvent>, target: Entity) -> nat
    decreases deals.len(),
{
    if deals.len() == 0 {
        0
    } else {
        damage_aimed(deals.drop_last(), target) + if deals.last().target == target {
            deals.last().damage as nat
        } else {
            0
        }
    }
}

/// An entity with an entry has a first entry, at that place or before it.
pub proof fn lemma_entry_has_first(pools: Seq<(Entity, HealthPool)>, target: Entity, i: int)
    requires
        0 <= i < pools.len(),
        pools[i].0 == target,
    ensures
        pool_index(pools, target).is_some(),
        0 <= pool_index(pools, target).unwrap() <= i,
        is_first_pool(pools, target, pool_index(pools, target).unwrap()),
    decreases i,
{
    if exists|j: int| 0 <= j < i && (#[trigger] pools[j]).0 == target {
        let j = choose|j: int| 0 <= j < i && (#[trigger] pools[j]).0 == target;
        lemma_entry_has_first(pools, target, j);
    } else {
        lemma_pool_index_is(pools, target, i);
    }
}

/// Where an entity's pool stands depends on the entities alone.
pub proof fn lemma_same_entities_same_index(
    a: Seq<(Entity, HealthPool)>,
    b: Seq<(Entity, HealthPool)>,
    target: Entity,
)
    requires
        a.len() == b.len(),
        forall|i: int| 0 <= i < a.len() ==> (#[trigger] a[i]).0 == b[i].0,
    ensures
        pool_index(a, target) == pool_index(b, target),
{
    if exists|i: int| is_first_pool(a, target, i) {
        let i = choose|i: int| is_first_pool(a, target, i);
        assert forall|j: int| 0 <= j < i implies (#[trigger] b[j]).0 != target by {
            assert(a[j].0 == b[j].0);
        }
        lemma_pool_index_is(b, target, i);
    } else if exists|i: int| is_first_pool(b, target, i) {
        let i = choose|i: int| is_first_pool(b, target, i);
        assert(is_first_pool(a, target, i));
    }
}

/// What a pool has left when `aimed` damage came its way.
pub open spec fn left_after(current_hp: u32, aimed: nat) -> int {
    if aimed >= current_hp {
        0
    } else {
        current_hp - aimed
    }
}

/// Hit points after a run of events: an entity's pool has what it had, less
/// all the damage aimed at the entity, and no less than zero. An entry that
/// is not the first of its entity is never touched.
pub proof fn lemma_apply_deals_hit_points(
    start: Seq<(Entity, HealthPool)>,
    deals: Seq<DealDamageEvent>,
    i: int,
)
    requires
        0 <= i < start.len(),
    ensures
        apply_deals(start, deals).0.len() == start.len(),
        apply_deals(start, deals).0[i].1.current_hp == if pool_index(start, start[i].0) == Some(i) {
            left_after(start[i].1.current_hp, damage_aimed(deals, start[i].0))
        } else {
            start[i].1.current_hp as int
        },
    decreases deals.len(),
{
    lemma_apply_deals_outcome(start, deals);
    if deals.len() > 0 {
        let head = deals.drop_last();
        let deal = deals.last();
        let mid = apply_deals(start, head).0;
        lemma_apply_deals_hit_points(start, head, i);
        lemma_apply_deals_outcome(start, head);
        assert forall|j: int| 0 <= j < start.len() implies (#[trigger] start[j]).0 == mid[j].0 by {}
        lemma_same_entities_same_index(start, mid, deal.target);
        if pool_index(mid, deal.target).is_none() && start[i].0 == deal.target {
            lemma_entry_has_first(start, deal.target, i);
        }
    }
}

/// Hit points after a damage pass: what the pool had, less all the damage
/// that the pass aimed at its entity, and no less than zero.
pub proof fn lemma_hit_points_floor_at_zero(
    pools: Seq<(Entity, HealthPool)>,
    deals: Seq<DealDamageEvent>,
    i: int,
)
    requires
        0 <= i < pools.len(),
        pool_index(pools, pools[i].0) == Some(i),
    ensures
        damage_pass(pools, deals).0[i].1.current_hp == left_after(
            pools[i].1.current_hp,
            damage_aimed(deals, pools[i].0),
        ),
{
    let low = cleared(pools);
    lemma_cleared_keeps_index(pools, pools[i].0);
    lemma_apply_deals_hit_points(low, deals, i);
}

/// How many of `taken` are killing blows to `target`.
pub open spec fn killing_blows(taken: Seq<DamageTakenEvent>, target: Entity) -> nat
    decreases taken.len(),
{
    if taken.len() == 0 {
        0
    } else {
        killing_blows(taken.drop_last(), target) + if taken.last().taken_by == target
            && taken.last().killing_blow {
            1nat
        } else {
            0nat
        }
    }
}

/// From pools whose flags are down, a run of events reports a killing blow
/// to an entity exactly once if its pool's flag is up afterwards, and never
/// otherwise.
pub proof fn lemma_apply_deals_killing_blows(
    start: Seq<(Entity, HealthPool)>,
    deals: Seq<DealDamageEvent>,
    i: int,
)
    requires
        0 <= i < start.len(),
        pool_index(start, start[i].0) == Some(i),
        forall|j: int| 0 <= j < start.len() ==> !(#[trigger] start[j]).1.just_died,
    ensures
        killing_blows(apply_deals(start, deals).1, start[i].0) == if apply_deals(
            start,
            deals,
        ).0[i].1.just_died {
            1nat
        } else {
            0nat
        },
    decreases deals.len(),
{
    if deals.len() > 0 {
        let head = deals.drop_last();
        let deal = deals.last();
        let mid = apply_deals(start, head).0;
        let told = apply_deals(start, head).1;
        lemma_apply_deals_killing_blows(start, head, i);
        lemma_apply_deals_outcome(start, head);
        assert forall|j: int| 0 <= j < start.len() implies (#[trigger] start[j]).0 == mid[j].0 by {}
        lemma_same_entities_same_index(start, mid, deal.target);
        if let Some(event) = apply_deal(mid, deal).1 {
            assert(told.push(event).drop_last() =~= told);
        }
    }
}

/// A death is reported by exactly one killing blow. After a damage pass, the
/// events that came out hold one killing blow to an entity if its pool's flag
/// is up, and none if it is down.
pub proof fn lemma_one_killing_blow_per_death(
    pools: Seq<(Entity, HealthPool)>,
    deals: Seq<DealDamageEvent>,
    i: int,
)
    requires
        0 <= i < pools.len(),
        pool_index(pools, pools[i].0) == Some(i),
    ensures
        killing_blows(damage_pass(pools, deals).1, pools[i].0) == if damage_pass(
            pools,
            deals,
        ).0[i].1.just_died {
            1nat
        } else {
            0nat
        },
{
    let low = cleared(pools);
    lemma_cleared_keeps_index(pools, pools[i].0);
    lemma_apply_deals_killing_blows(low, deals, i);
}

/// What one damage pass does, pool by pool: its flag is up afterwards exactly
/// if the pool was alive before the pass and is at zero after it. Entities,
/// maxima and the bound of each pool by its maximum are kept, and at most one
/// event comes out for each that went in.
pub proof fn lemma_pass_outcome(pools: Seq<(Entity, HealthPool)>, deals: Seq<DealDamageEvent>)
    ensures
        damage_pass(pools, deals).0.len() == pools.len(),
        damage_pass(pools, deals).1.len() <= deals.len(),
        forall|i: int|
            0 <= i < pools.len() ==> {
                let before = #[trigger] pools[i];
                let after = damage_pass(pools, deals).0[i];
                &&& after.0 == before.0
                &&& after.1.max_hp == before.1.max_hp
                &&& after.1.current_hp <= before.1.current_hp
                &&& after.1.just_died == (before.1.current_hp > 0 && after.1.current_hp == 0)
                &&& before.1.wf() ==> after.1.wf()
            },
{
    let low = cleared(pools);
    lemma_apply_deals_outcome(low, deals);
    assert forall|i: int| 0 <= i < pools.len() implies {
        let before = #[trigger] pools[i];
        let after = damage_pass(pools, deals).0[i];
        &&& after.0 == before.0
        &&& after.1.max_hp == before.1.max_hp
        &&& after.1.current_hp <= before.1.current_hp
        &&& after.1.just_died == (before.1.current_hp > 0 && after.1.current_hp == 0)
        &&& before.1.wf() ==> after.1.wf()
    } by {
        assert(low[i].0 == pools[i].0);
    }
}

/// The just-died flag lasts one pass. A pool whose flag is up after a pass
/// died in that pass, and its flag is down again after the next pass,
/// whatever that pass deals; a pool still alive after a pass has its flag down.
pub proof fn lemma_just_died_lasts_one_pass(
    pools: Seq<(Entity, HealthPool)>,
    first: Seq<DealDamageEvent>,
    second: Seq<DealDamageEvent>,
    i: int,
)
    requires
        0 <= i < pools.len(),
    ensures
        ({
            let one = damage_pass(pools, first).0;
            let two = damage_pass(one, second).0;
            &&& one[i].1.just_died ==> pools[i].1.current_hp > 0 && one[i].1.current_hp == 0
            &&& one[i].1.just_died ==> !two[i].1.just_died
            &&& one[i].1.current_hp > 0 ==> !one[i].1.just_died
        }),
{
    let one = damage_pass(pools, first).0;
    lemma_pass_outcome(pools, first);
    lemma_pass_outcome(one, second);
}

/// Lowers every just-died flag and leaves the rest as it was.
pub fn cleanup_just_dead(pools: &mut Vec<(Entity, HealthPool)>)
    ensures
        final(pools)@ == cleared(old(pools)@),
{
    let n = pools.len();
    let mut i: usize = 0;
    while i < n
        invariant
            i <= n,
            n == pools.len(),
            pools.len() == old(pools).len(),
            forall|j: int| 0 <= j < i ==> #[trigger] pools@[j] == cleared(old(pools)@)[j],
            forall|j: int| i <= j < n ==> #[trigger] pools@[j] == old(pools)@[j],
        decreases n - i,
    {
        let (entity, pool) = pools[i];
        pools.set(
            i,
            (entity, HealthPool { max_hp: pool.max_hp, current_hp: pool.current_hp, just_died: false }),
        );
        i += 1;
    }
}

/// Looks up `target`'s pool: the index of the first entry that belongs to it.
pub fn find_pool(pools: &Vec<(Entity, HealthPool)>, target: Entity) -> (found: Option<usize>)
    ensures
        match found {
            Some(i) => pool_index(pools@, target) == Some(i as int) && i < pools.len(),
            None => pool_index(pools@, target).is_none(),
        },
{
    let n = pools.len();
    let mut i: usize = 0;
    while i < n
        invariant
            i <= n,
            n == pools.len(),
            forall|j: int| 0 <= j < i ==> (#[trigger] pools@[j]).0 != target,
        decreases n - i,
    {
        if same_entity(pools[i].0, target) {
            proof {
                lemma_pool_index_is(pools@, target, i as int);
            }
            return Some(i);
        }
        i += 1;
    }
    None
}

/// Runs one damage pass over `pools`.
///
/// Flags left by the pass before are lowered first. Then each event, in
/// order, is looked up by its target: a target without a pool or with no hit
/// points left is skipped; any other loses `damage` hit points, down to zero
/// at most, and a damage-taken event reports it.
pub fn damage_system(pools: &mut Vec<(Entity, HealthPool)>, deals: &Vec<DealDamageEvent>) -> (taken:
    Vec<DamageTakenEvent>)
    ensures
        (final(pools)@, taken@) == damage_pass(old(pools)@, deals@),
{
    cleanup_just_dead(pools);
    let mut taken: Vec<DamageTakenEvent> = Vec::new();
    let n = deals.len();
    let mut k: usize = 0;
    while k < n
        invariant
            k <= n,
            n == deals.len(),
            (pools@, taken@) == apply_deals(cleared(old(pools)@), deals@.take(k as int)),
        decreases n - k,
    {
        let deal = deals[k];
        proof {
            assert(deals@.take(k + 1).drop_last() =~= deals@.take(k as int));
        }
        match find_pool(pools, deal.target) {
            Some(i) => {
                let (entity, pool) = pools[i];
                if pool.current_hp != 0 {
                    let killing_blow = deal.damage >= pool.current_hp;
                    let left: u32 = if killing_blow {
                        0
                    } else {
                        pool.current_hp - deal.damage
                    };
                    pools.set(
                        i,
                        (
                            entity,
                            HealthPool {
                                max_hp: pool.max_hp,
                                current_hp: left,
                                just_died: pool.just_died || killing_blow,
                            },
                        ),
                    );
                    taken.push(
                        DamageTakenEvent {
                            from_position: deal.from_position,
                            damage: deal.damage,
                            taken_by: entity,
                            killing_blow,
                        },
                    );
                }
            },
            None => {},
        }
        k += 1;
    }
    proof {
        assert(deals@.take(n as int) =~= deals@);
    }
    taken
}

} // verus!

use bevy::prelude::Entity;
use skirmish::{damage_numbers, damage_system, DamageReport, DamageTakenEvent, DealDamageEvent, HealthPool};

#[test]
fn report_tells_damage_and_what_is_left() {
    let dummy = Entity::from_raw(1);
    let gone = Entity::from_raw(2);
    let mut pools = vec![(dummy, HealthPool::new(10, 10))];
    let taken = damage_system(
        &mut pools,
        &vec![
            DealDamageEvent { from_position: None, damage: 3, target: dummy },
            DealDamageEvent { from_position: None, damage: 4, target: dummy },
        ],
    );
    let lines = damage_numbers(&taken, &pools);
    assert_eq!(
        lines,
        vec![
            DamageReport { taken_by: dummy, damage: 3, current_hp: 3 },
            DamageReport { taken_by: dummy, damage: 4, current_hp: 3 },
        ]
    );
    let stale = vec![DamageTakenEvent {
        from_position: None,
        damage: 9,
        taken_by: gone,
        killing_blow: true,
    }];
    assert!(damage_numbers(&stale, &pools).is_empty());
    assert!(damage_numbers(&Vec::new(), &pools).is_empty());
}

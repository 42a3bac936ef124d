//! Verified core of a top-down action game: health pools and the damage pass,
//! hit resolution, and the per-entity animator state machine.
//!
//! Time is counted in whole nanoseconds. Entities and positions are the
//! engine's own values, carried through unchanged.

pub mod animation;
pub mod combat;
pub mod damage;
pub mod dummy;
pub mod entity;
pub mod fx;
pub mod health;
pub mod plugin;
pub mod timer;
pub mod vector;
pub mod weapon;

pub use animation::{
    advanced, animator_system, armed, follows, is_run, total, Animator, AnimatorStateMachine,
    AnimatorView, FrameAction,
};
pub use combat::{
    attack_input_system, attack_of, attack_provider, convert_hits_to_damage, deals_of, hit_of,
    hit_sources, hits_of, sweep_of, EntityHitEvent, PlayerAttackEvent, ShapeCast, ATTACK_REACH,
    ATTACK_SWEEP_RADIUS, HIT_DAMAGE,
};
pub use damage::{
    apply_deal, apply_deals, cleanup_just_dead, cleared, damage_aimed, damage_pass, damage_system,
    find_pool, is_first_pool, killing_blows, left_after, pool_index, struck, DamageTakenEvent,
    DealDamageEvent,
};
pub use dummy::{
    blow_direction, dummy_damage_shake, is_last_blow, just_dead, last_blow, shake_if_hit, shaken,
    shaken_by, tick_dummy_sprite, DummyAnimationState, DummySprite, DAMAGED_ANIMATION_NANOS,
};
pub use fx::{damage_numbers, report_of, reports_of, DamageReport};
pub use health::HealthPool;
pub use plugin::CorePlugin;
pub use timer::{fresh, ticked, timer_view, TimerView};
pub use vector::{direction, direction_to, vec2_difference, vec2_unit_or_zero};
pub use weapon::{
    animate_player_attack, animate_player_weapon, WeaponAnimationState, WeaponAnimationStateState,
    ATTACK_ANIMATION_NANOS, ATTACK_RANGE,
};

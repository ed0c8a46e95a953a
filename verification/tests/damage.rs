use gameplay_core::combat::{
    resolve_contact_events, spike_damage_tick, ContactEvent, EntityState, Fireball, Role, Spikes,
};
use gameplay_core::cooldown::SpikeDamageCooldown;
use gameplay_core::fixvec::Vec3;
use gameplay_core::health::Health;
use gameplay_core::steering::Enemy;

fn hostile_at(health: i64, damage: i64, pos: Vec3) -> EntityState {
    EntityState::hostile(Enemy { health, speed: 4_000, damage }, pos, Vec3::new(0, 0, 0))
}

fn projectile_at(damage: i64, pos: Vec3) -> EntityState {
    EntityState::projectile(Fireball { damage }, pos, Vec3::new(0, 0, 0))
}

fn player_at(health: i64, pos: Vec3) -> EntityState {
    EntityState::player(Health(health), pos, Vec3::new(0, 0, 0))
}

#[test]
fn scenario_projectile_hit() {
    // A projectile with damage 25 contacts a hostile with health 40:
    // the hostile ends at 15 and the projectile no longer exists.
    let mut es = vec![
        projectile_at(25_000, Vec3::new(0, 0, 0)),
        hostile_at(40_000, 5_000, Vec3::new(500, 0, 0)),
    ];
    let events = vec![ContactEvent { a: 0, b: 1 }];
    resolve_contact_events(&mut es, &events);
    assert_eq!(es[1].health, Health(15_000));
    assert!(!es[0].alive);
    assert!(es[1].alive);
}

#[test]
fn projectile_hit_matches_in_either_order() {
    let mut es = vec![
        hostile_at(40_000, 5_000, Vec3::new(500, 0, 0)),
        projectile_at(25_000, Vec3::new(0, 0, 0)),
    ];
    let events = vec![ContactEvent { a: 0, b: 1 }];
    resolve_contact_events(&mut es, &events);
    assert_eq!(es[0].health, Health(15_000));
    assert!(!es[1].alive);
}

#[test]
fn projectile_is_single_use() {
    // Two hostiles report contact with the same projectile in one
    // tick: only the first event resolves; the projectile is gone for
    // the second.
    let mut es = vec![
        projectile_at(25_000, Vec3::new(0, 0, 0)),
        hostile_at(40_000, 5_000, Vec3::new(500, 0, 0)),
        hostile_at(40_000, 5_000, Vec3::new(-500, 0, 0)),
    ];
    let events = vec![ContactEvent { a: 0, b: 1 }, ContactEvent { a: 2, b: 0 }];
    resolve_contact_events(&mut es, &events);
    assert_eq!(es[1].health, Health(15_000));
    assert_eq!(es[2].health, Health(40_000));
    assert!(!es[0].alive);
}

#[test]
fn hostile_health_may_go_transiently_negative() {
    let mut es = vec![
        projectile_at(50_000, Vec3::new(0, 0, 0)),
        hostile_at(40_000, 5_000, Vec3::new(500, 0, 0)),
    ];
    let events = vec![ContactEvent { a: 0, b: 1 }];
    resolve_contact_events(&mut es, &events);
    assert_eq!(es[1].health, Health(-10_000));
    // The external clamp cuts it at zero before anything reads it.
    let mut clamped = es[1].health;
    clamped.clamp_floor();
    assert_eq!(clamped, Health(0));
}

#[test]
fn scenario_two_melee_hits_stack() {
    // Two melee hostiles each dealing 5 register contact-begin with
    // the player in the same tick: both events are processed, ungated,
    // and the player loses 10 that tick.
    let mut es = vec![
        player_at(100_000, Vec3::new(0, 0, 0)),
        hostile_at(40_000, 5_000, Vec3::new(10_000, 0, 0)),
        hostile_at(40_000, 5_000, Vec3::new(10_000, 0, 0)),
    ];
    let events = vec![ContactEvent { a: 0, b: 1 }, ContactEvent { a: 2, b: 0 }];
    resolve_contact_events(&mut es, &events);
    assert_eq!(es[0].health, Health(90_000));
    // Both knockbacks point away from the hostiles and compound.
    assert_eq!(es[0].vel, Vec3::new(-16_000, 0, 0));
}

#[test]
fn melee_knockback_is_horizontal_and_exact() {
    let mut es = vec![
        player_at(100_000, Vec3::new(0, 3_000, 0)),
        hostile_at(40_000, 5_000, Vec3::new(-5_000, 0, 0)),
    ];
    let events = vec![ContactEvent { a: 1, b: 0 }];
    resolve_contact_events(&mut es, &events);
    assert_eq!(es[0].health, Health(95_000));
    assert_eq!(es[0].vel, Vec3::new(8_000, 0, 0));
}

#[test]
fn unmatched_pairs_are_ignored() {
    let mut es = vec![
        hostile_at(40_000, 5_000, Vec3::new(0, 0, 0)),
        hostile_at(40_000, 5_000, Vec3::new(500, 0, 0)),
    ];
    let events = vec![ContactEvent { a: 0, b: 1 }];
    resolve_contact_events(&mut es, &events);
    assert_eq!(es[0].health, Health(40_000));
    assert_eq!(es[1].health, Health(40_000));
    assert!(es[0].alive && es[1].alive);
}

#[test]
fn unknown_handles_are_ignored() {
    let mut es = vec![player_at(100_000, Vec3::new(0, 0, 0))];
    let events = vec![ContactEvent { a: 0, b: 7 }, ContactEvent { a: 9, b: 9 }];
    resolve_contact_events(&mut es, &events);
    assert_eq!(es[0].health, Health(100_000));
}

#[test]
fn dead_entities_no_longer_match() {
    let mut dead = hostile_at(40_000, 5_000, Vec3::new(500, 0, 0));
    dead.alive = false;
    let mut es = vec![player_at(100_000, Vec3::new(0, 0, 0)), dead];
    let events = vec![ContactEvent { a: 0, b: 1 }];
    resolve_contact_events(&mut es, &events);
    assert_eq!(es[0].health, Health(100_000));
}

#[test]
fn scenario_spike_cooldown_three_triggers() {
    // The player stands in a hazard's radius for 3.0 time units with
    // cooldown duration 1.0 and damage 10: exactly three damage
    // applications — around t 0, 1.0 and 2.0 — leaving health at 70.
    let mut health = Health(100_000);
    let mut cooldown = SpikeDamageCooldown::new(1_000);
    let spikes = vec![Spikes { damage: 10_000, pos: Vec3::new(1_000, 0, 0) }];
    let player_pos = Vec3::new(0, 0, 0);
    let mut triggers: usize = 0;
    for _ in 0..30 {
        let dash = spike_damage_tick(&mut health, &mut cooldown, player_pos, &spikes, 100);
        if dash.is_some() {
            triggers += 1;
        }
    }
    assert_eq!(triggers, 3);
    assert_eq!(health, Health(70_000));
}

#[test]
fn spike_out_of_range_is_harmless() {
    let mut health = Health(100_000);
    let mut cooldown = SpikeDamageCooldown::new(1_000);
    let spikes = vec![Spikes { damage: 10_000, pos: Vec3::new(3_000, 0, 0) }];
    let dash = spike_damage_tick(&mut health, &mut cooldown, Vec3::new(0, 0, 0), &spikes, 16);
    assert!(dash.is_none());
    assert_eq!(health, Health(100_000));
}

#[test]
fn spike_damage_clamps_at_zero() {
    let mut health = Health(4_000);
    let mut cooldown = SpikeDamageCooldown::new(1_000);
    let spikes = vec![Spikes { damage: 10_000, pos: Vec3::new(1_000, 0, 0) }];
    let dash = spike_damage_tick(&mut health, &mut cooldown, Vec3::new(0, 0, 0), &spikes, 16);
    assert!(dash.is_some());
    assert_eq!(health, Health(0));
}

#[test]
fn spike_dash_pushes_player_away() {
    let mut health = Health(100_000);
    let mut cooldown = SpikeDamageCooldown::new(1_000);
    let spikes = vec![Spikes { damage: 10_000, pos: Vec3::new(0, 0, 2_000) }];
    let dash = spike_damage_tick(&mut health, &mut cooldown, Vec3::new(0, 0, 0), &spikes, 16);
    assert_eq!(dash, Some(Vec3::new(0, 0, -5_000)));
}

#[test]
fn only_one_spike_triggers_per_tick() {
    let mut health = Health(100_000);
    let mut cooldown = SpikeDamageCooldown::new(1_000);
    let spikes = vec![
        Spikes { damage: 10_000, pos: Vec3::new(1_000, 0, 0) },
        Spikes { damage: 10_000, pos: Vec3::new(-1_000, 0, 0) },
    ];
    let dash = spike_damage_tick(&mut health, &mut cooldown, Vec3::new(0, 0, 0), &spikes, 16);
    assert!(dash.is_some());
    assert_eq!(health, Health(90_000));
}

#[test]
fn cooldown_counts_down_and_saturates() {
    let mut cd = SpikeDamageCooldown::new(1_000);
    assert!(cd.finished());
    cd.reset();
    assert!(!cd.finished());
    cd.tick(400);
    assert_eq!(cd.remaining, 600);
    cd.tick(900);
    assert_eq!(cd.remaining, 0);
    assert!(cd.finished());
}

#[test]
fn health_display_is_clamped() {
    assert_eq!(Health(-5_000).display_value(), 0);
    assert_eq!(Health(42_000).display_value(), 42_000);
    assert_eq!(Health(150_000).display_value(), 100_000);
}

#[test]
fn health_damage_and_clamp() {
    let mut h = Health::new_full();
    h.apply_damage(30_000);
    assert_eq!(h, Health(70_000));
    h.apply_damage(80_000);
    assert_eq!(h, Health(-10_000));
    h.clamp_floor();
    assert_eq!(h, Health(0));
    let mut g = Health(5_000);
    g.apply_damage_clamped(30_000);
    assert_eq!(g, Health(0));
}

#[test]
fn roles_and_spawners_tag_entities() {
    let h = hostile_at(40_000, 5_000, Vec3::new(0, 0, 0));
    assert_eq!(h.role, Role::Hostile);
    assert!(h.alive);
    let p = projectile_at(25_000, Vec3::new(0, 0, 0));
    assert_eq!(p.role, Role::Projectile);
    assert_eq!(p.damage, 25_000);
    let pl = player_at(100_000, Vec3::new(0, 0, 0));
    assert_eq!(pl.role, Role::Player);
    assert_eq!(pl.health, Health(100_000));
}

use gameplay_core::control::{apply_controls, ControlInput};
use gameplay_core::fixvec::{isqrt_ceil, Vec3};
use gameplay_core::platform::MovingPlatform;
use gameplay_core::steering::{melee_creep_velocity, Enemy};
use gameplay_core::waypoints::PlatformPath;

fn enemy(speed: i64) -> Enemy {
    Enemy { health: 10_000, speed, damage: 5_000 }
}

fn norm_sq(v: Vec3) -> i128 {
    (v.x as i128) * (v.x as i128) + (v.y as i128) * (v.y as i128) + (v.z as i128) * (v.z as i128)
}

#[test]
fn scenario_seek_only_velocity_is_exact() {
    // A hostile with speed 4.0 at distance 10 directly north of the
    // player and no neighbours in range seeks at exactly (0, 0, 4.0).
    let hostile_pos = Vec3::new(0, 0, -10_000);
    let player_pos = Vec3::new(0, 0, 0);
    let others: Vec<Vec3> = Vec::new();
    let vel = melee_creep_velocity(&enemy(4_000), hostile_pos, player_pos, &others);
    assert_eq!(vel, Vec3::new(0, 0, 4_000));
}

#[test]
fn neighbour_beyond_radius_contributes_nothing() {
    let hostile_pos = Vec3::new(0, 0, -10_000);
    let player_pos = Vec3::new(0, 0, 0);
    // 3.6 units away: outside the 3.5 separation radius.
    let others = vec![Vec3::new(3_600, 0, -10_000)];
    let vel = melee_creep_velocity(&enemy(4_000), hostile_pos, player_pos, &others);
    assert_eq!(vel, Vec3::new(0, 0, 4_000));
}

#[test]
fn separation_pushes_away_from_close_neighbour() {
    let hostile_pos = Vec3::new(0, 0, -10_000);
    let player_pos = Vec3::new(0, 0, 0);
    // A neighbour 2.0 units east: the hostile should drift west.
    let others = vec![Vec3::new(2_000, 0, -10_000)];
    let vel = melee_creep_velocity(&enemy(4_000), hostile_pos, player_pos, &others);
    assert!(vel.x < 0);
    assert!(vel.z > 0);
}

#[test]
fn separation_velocity_exact() {
    // One neighbour 2.0 units east: its term is the unit vector west
    // over the distance, (-500, 0, 0); the half-weighted sum joins the
    // seek term (0, 0, 1000) and the combination (-250, 0, 1000) is
    // scaled to speed 4.0 with the ceiling norm 1031.
    let hostile_pos = Vec3::new(0, 0, -10_000);
    let player_pos = Vec3::new(0, 0, 0);
    let others = vec![Vec3::new(2_000, 0, -10_000)];
    let vel = melee_creep_velocity(&enemy(4_000), hostile_pos, player_pos, &others);
    assert_eq!(vel, Vec3::new(-969, 0, 3_879));
}

#[test]
fn steering_speed_never_exceeded() {
    // A dense cluster of neighbours: however strong the separation
    // sum, the emitted magnitude stays within the configured speed.
    let speed: i64 = 4_000;
    let hostile_pos = Vec3::new(0, 0, 0);
    let player_pos = Vec3::new(500, 0, 700);
    let others = vec![
        Vec3::new(10, 0, 0),
        Vec3::new(0, 0, 10),
        Vec3::new(-10, 0, 5),
        Vec3::new(5, 0, -10),
        Vec3::new(100, 0, 100),
    ];
    let vel = melee_creep_velocity(&enemy(speed), hostile_pos, player_pos, &others);
    assert!(norm_sq(vel) <= (speed as i128) * (speed as i128));
}

#[test]
fn coincident_neighbour_is_ignored() {
    let hostile_pos = Vec3::new(0, 0, -10_000);
    let player_pos = Vec3::new(0, 0, 0);
    let others = vec![Vec3::new(0, 0, -10_000)];
    let vel = melee_creep_velocity(&enemy(4_000), hostile_pos, player_pos, &others);
    assert_eq!(vel, Vec3::new(0, 0, 4_000));
}

#[test]
fn platform_moves_toward_target_at_speed() {
    let path = PlatformPath { locations: vec![Vec3::new(100_000, 0, 0), Vec3::new(0, 0, 0)] };
    let mut platform = MovingPlatform { current_leg: 0, speed: 2_000 };
    // 90 units away from the leg target, dt of 16 milli-time-units.
    let vel = platform.tick(&path, Vec3::new(10_000, 0, 0), 16);
    assert_eq!(vel, Vec3::new(2_000, 0, 0));
    assert_eq!(platform.current_leg, 0);
}

#[test]
fn platform_advances_leg_on_arrival() {
    let path = PlatformPath { locations: vec![Vec3::new(10_020, 0, 0), Vec3::new(0, 0, 0)] };
    let mut platform = MovingPlatform { current_leg: 0, speed: 2_000 };
    // 0.02 units away; the step at speed 2.0 over dt 16 covers 0.032.
    let vel = platform.tick(&path, Vec3::new(10_000, 0, 0), 16);
    assert_eq!(vel, Vec3::new(0, 0, 0));
    assert_eq!(platform.current_leg, 1);
}

#[test]
fn platform_leg_wraps_around() {
    let path = PlatformPath { locations: vec![Vec3::new(0, 0, 0), Vec3::new(10, 0, 0)] };
    let mut platform = MovingPlatform { current_leg: 1, speed: 2_000 };
    let vel = platform.tick(&path, Vec3::new(10, 0, 0), 16);
    assert_eq!(vel, Vec3::new(0, 0, 0));
    assert_eq!(platform.current_leg, 0);
}

#[test]
fn platform_single_point_path_holds() {
    let spawn = Vec3::new(5_000, 0, 5_000);
    let path = PlatformPath { locations: vec![spawn] };
    let mut platform = MovingPlatform { current_leg: 0, speed: 2_000 };
    for _ in 0..5 {
        let vel = platform.tick(&path, spawn, 16);
        assert_eq!(vel, Vec3::new(0, 0, 0));
        assert_eq!(platform.current_leg, 0);
    }
}

#[test]
fn platform_leg_always_valid_over_many_ticks() {
    let path = PlatformPath {
        locations: vec![Vec3::new(0, 0, 0), Vec3::new(3_000, 0, 0), Vec3::new(0, 0, 3_000)],
    };
    let mut platform = MovingPlatform { current_leg: 0, speed: 3_000 };
    let mut pos = Vec3::new(1_000, 0, 0);
    for step in 0..200 {
        let vel = platform.tick(&path, pos, 16);
        assert!(platform.current_leg < path.locations.len());
        // Crude integration, enough to keep the platform wandering.
        pos = Vec3::new(
            pos.x + vel.x * 16 / 1000,
            pos.y + vel.y * 16 / 1000,
            pos.z + vel.z * 16 / 1000,
        );
        let _ = step;
    }
}

#[test]
fn walk_velocity_from_keys() {
    let input = ControlInput {
        forward: true,
        back: false,
        left: false,
        right: false,
        jump: false,
        crouch: false,
        dash: false,
    };
    let intent = apply_controls(input);
    assert_eq!(intent.walk, Vec3::new(0, 0, -10_000));
    assert!(intent.dash.is_none());
    assert!(!intent.jump);
}

#[test]
fn opposite_keys_cancel() {
    let input = ControlInput {
        forward: true,
        back: true,
        left: true,
        right: true,
        jump: false,
        crouch: true,
        dash: false,
    };
    let intent = apply_controls(input);
    assert_eq!(intent.walk, Vec3::new(0, 0, 0));
    assert!(intent.crouch);
}

#[test]
fn dash_scales_to_dash_distance() {
    let input = ControlInput {
        forward: false,
        back: false,
        left: true,
        right: false,
        jump: true,
        crouch: false,
        dash: true,
    };
    let intent = apply_controls(input);
    assert_eq!(intent.dash, Some(Vec3::new(-20_000, 0, 0)));
    assert_eq!(intent.walk, Vec3::new(-10_000, 0, 0));
    assert!(intent.jump);
}

#[test]
fn ceiling_square_root_exact_values() {
    assert_eq!(isqrt_ceil(0), 0);
    assert_eq!(isqrt_ceil(1), 1);
    assert_eq!(isqrt_ceil(2), 2);
    assert_eq!(isqrt_ceil(4), 2);
    assert_eq!(isqrt_ceil(9), 3);
    assert_eq!(isqrt_ceil(10), 4);
    assert_eq!(isqrt_ceil(99_980_001), 9_999);
    assert_eq!(isqrt_ceil(0x4000_0000_0000_0000), 0x8000_0000);
}

#[test]
fn zero_vector_normalizes_to_zero() {
    let v = Vec3::new(0, 0, 0);
    assert_eq!(v.normalize_to(4_000), Vec3::new(0, 0, 0));
}

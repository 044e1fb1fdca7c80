use boids::boid::{viewport_bounds, Acceleration, Boid, Bounds, Settings, Velocity};
use boids::flock::{boid_flock, flock_acceleration, flock_forces, neighbor_scan};
use boids::motion::{integrate, TIME_SCALE};
use boids::player::{player_acceleration, spawn_player, PlayerInput};
use boids::sim::tick;
use boids::vector::{Vec2, UNIT};

fn agent(x: i64, y: i64, vx: i64, vy: i64, weight: i64) -> Boid {
    Boid {
        position: Vec2 { x, y },
        velocity: Velocity(Vec2 { x: vx, y: vy }),
        acceleration: Acceleration(Vec2 { x: 0, y: 0 }),
        heading: Vec2 { x: 0, y: UNIT },
        weight,
        max_velocity: None,
        is_player: false,
    }
}

fn wide_bounds() -> Bounds {
    viewport_bounds(Vec2 { x: 0, y: 0 }, 1000 * UNIT, 1000 * UNIT)
}

fn pair() -> Vec<Boid> {
    vec![
        agent(0, 0, 10 * UNIT, 0, 1000),
        agent(20 * UNIT, 0, -10 * UNIT, 0, 1000),
    ]
}

#[test]
fn default_settings_values() {
    let s = Settings::default();
    assert_eq!(s.visual_radius, 50_000);
    assert_eq!(s.separation_radius, 30_000);
    assert_eq!(s.cohesion, 600);
    assert_eq!(s.separation, 800);
    assert_eq!(s.alignment, 600);
    assert_eq!(s.max_speed, 100_000);
    assert_eq!(s.max_force, 50_000);
}

#[test]
fn separation_is_symmetric_for_two_agents() {
    let flock = pair();
    let s = Settings::default();
    let b = wide_bounds();
    let a = flock_forces(&flock, 0, &s, &b);
    let o = flock_forces(&flock, 1, &s, &b);
    assert!(a.separation.x < 0);
    assert_eq!(a.separation.y, 0);
    assert!(o.separation.x > 0);
    assert_eq!(o.separation.y, 0);
    let limit = 40 * UNIT;
    assert!(a.separation.x * a.separation.x <= limit * limit);
    assert!(o.separation.x * o.separation.x <= limit * limit);
    assert_eq!(a.separation, Vec2 { x: -40_000, y: 0 });
    assert_eq!(o.separation, Vec2 { x: 40_000, y: 0 });
}

#[test]
fn two_agent_forces_exact() {
    let flock = pair();
    let s = Settings::default();
    let b = wide_bounds();
    let a = flock_forces(&flock, 0, &s, &b);
    assert_eq!(a.alignment, Vec2 { x: -30_000, y: 0 });
    assert_eq!(a.cohesion, Vec2 { x: 30_000, y: 0 });
    assert_eq!(a.boundary, Vec2 { x: 0, y: 0 });
    assert_eq!(flock_acceleration(&flock, 0, &s, &b), Vec2 { x: -40_000, y: 0 });
}

#[test]
fn lone_agent_has_no_pull() {
    let flock = vec![agent(0, 0, 10 * UNIT, 5 * UNIT, 1000), agent(200 * UNIT, 0, 0, 0, 1000)];
    let s = Settings::default();
    let f = flock_forces(&flock, 0, &s, &wide_bounds());
    assert_eq!(f.alignment, Vec2 { x: 0, y: 0 });
    assert_eq!(f.cohesion, Vec2 { x: 0, y: 0 });
    assert_eq!(f.separation, Vec2 { x: 0, y: 0 });
}

#[test]
fn neighbour_on_separation_radius_is_excluded() {
    let s = Settings::default();
    let flock = vec![agent(0, 0, 0, 0, 1000), agent(s.separation_radius, 0, 0, 0, 1000)];
    let sums = neighbor_scan(&flock, 0, &s);
    assert_eq!(sums.separation_count, 0);
    assert_eq!(sums.count, 1);
    let closer = vec![agent(0, 0, 0, 0, 1000), agent(s.separation_radius - 1, 0, 0, 0, 1000)];
    assert_eq!(neighbor_scan(&closer, 0, &s).separation_count, 1);
}

#[test]
fn neighbour_on_visual_radius_is_excluded() {
    let s = Settings::default();
    let flock = vec![agent(0, 0, 0, 0, 1000), agent(0, s.visual_radius, 0, 0, 1000)];
    let sums = neighbor_scan(&flock, 0, &s);
    assert_eq!(sums.count, 0);
    assert_eq!(sums.alignment_x, 0);
    assert_eq!(sums.cohesion_y, 0);
    let f = flock_forces(&flock, 0, &s, &wide_bounds());
    assert_eq!(f.alignment, Vec2 { x: 0, y: 0 });
    assert_eq!(f.cohesion, Vec2 { x: 0, y: 0 });
}

#[test]
fn coincident_agents_still_see_each_other() {
    let s = Settings::default();
    let flock = vec![agent(5, 5, 0, 0, 1000), agent(5, 5, 0, 0, 1000)];
    let sums = neighbor_scan(&flock, 0, &s);
    assert_eq!(sums.count, 1);
    assert_eq!(sums.separation_count, 1);
    assert_eq!(sums.separation_x, 0);
    assert_eq!(sums.separation_y, 0);
}

#[test]
fn weights_scale_the_sums() {
    let s = Settings::default();
    let flock = vec![agent(0, 0, 0, 0, 1000), agent(10 * UNIT, 0, 3, 4, 10_000)];
    let sums = neighbor_scan(&flock, 0, &s);
    assert_eq!(sums.alignment_x, 30_000);
    assert_eq!(sums.alignment_y, 40_000);
    assert_eq!(sums.cohesion_x, 100_000_000);
}

#[test]
fn boundary_pushes_back_inside() {
    let s = Settings::default();
    let b = Bounds { min_x: 0, max_x: 100, min_y: 0, max_y: 100 };
    let flock = vec![agent(-5, 150, 0, 0, 1000)];
    let f = flock_forces(&flock, 0, &s, &b);
    assert_eq!(f.boundary, Vec2 { x: 200_000, y: -200_000 });
}

#[test]
fn viewport_bounds_are_pulled_in_by_margin() {
    let b = viewport_bounds(Vec2 { x: 100, y: -100 }, 800, 600);
    assert_eq!(b, Bounds { min_x: -300 + 10_000, max_x: 500 - 10_000, min_y: -400 + 10_000, max_y: 200 - 10_000 });
}

#[test]
fn flock_uses_one_snapshot_and_skips_player() {
    let mut flock = pair();
    let mut player = agent(500 * UNIT, 0, 1, 1, 10_000_000);
    player.is_player = true;
    player.acceleration = Acceleration(Vec2 { x: 7, y: 7 });
    flock.push(player);
    let s = Settings::default();
    let b = wide_bounds();
    let expected0 = flock_acceleration(&flock, 0, &s, &b);
    let expected1 = flock_acceleration(&flock, 1, &s, &b);
    boid_flock(&mut flock, &s, &b);
    assert_eq!(flock[0].acceleration.0, expected0);
    assert_eq!(flock[1].acceleration.0, expected1);
    assert_eq!(flock[2].acceleration.0, Vec2 { x: 7, y: 7 });
    assert_eq!(flock[0].position, Vec2 { x: 0, y: 0 });
    assert_eq!(flock[1].velocity.0, Vec2 { x: -10 * UNIT, y: 0 });
}

#[test]
fn tick_steers_then_moves() {
    let mut flock = pair();
    flock.push(spawn_player(1000 * UNIT, 1000 * UNIT));
    let s = Settings::default();
    let b = wide_bounds();
    let input = PlayerInput { left: false, right: false, up: true, down: false };
    let dt = TIME_SCALE / 60;
    let mut expected = flock.clone();
    for i in 0..2 {
        expected[i].acceleration = Acceleration(flock_acceleration(&flock, i, &s, &b));
    }
    expected[2].acceleration = Acceleration(player_acceleration(&input, flock[2].velocity.0, dt));
    let expected: Vec<Boid> = expected.into_iter().map(|e| integrate(e, dt)).collect();
    tick(&mut flock, &input, &s, &b, dt);
    for i in 0..3 {
        assert_eq!(flock[i].position, expected[i].position);
        assert_eq!(flock[i].velocity, expected[i].velocity);
        assert_eq!(flock[i].acceleration, expected[i].acceleration);
    }
    assert_eq!(flock[0].acceleration.0, Vec2 { x: -40_000, y: 0 });
    assert!(flock[2].velocity.0.y > 0);
}

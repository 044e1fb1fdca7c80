use boids::boid::{Acceleration, Boid, MaxVelocity, Velocity};
use boids::motion::{boid_update, integrate, move_boid_to_player, wrap_around_window, TIME_SCALE};
use boids::player::{count_players, move_player, player_acceleration, spawn_player, PlayerInput, PLAYER_WEIGHT};
use boids::spawn::{spawn_boid, spawn_boids, ENEMY_SPEED};
use boids::vector::{ceil_sqrt_u128, limit_vec, scale_to, Vec2, UNIT};

fn agent(vx: i64, vy: i64, ax: i64, ay: i64, cap: Option<i64>) -> Boid {
    Boid {
        position: Vec2 { x: 0, y: 0 },
        velocity: Velocity(Vec2 { x: vx, y: vy }),
        acceleration: Acceleration(Vec2 { x: ax, y: ay }),
        heading: Vec2 { x: 0, y: UNIT },
        weight: 1000,
        max_velocity: cap.map(MaxVelocity),
        is_player: false,
    }
}

#[test]
fn ceil_sqrt_rounds_up() {
    assert_eq!(ceil_sqrt_u128(0), 0);
    assert_eq!(ceil_sqrt_u128(1), 1);
    assert_eq!(ceil_sqrt_u128(2), 2);
    assert_eq!(ceil_sqrt_u128(25), 5);
    assert_eq!(ceil_sqrt_u128(26), 6);
    assert_eq!(ceil_sqrt_u128(2_000_000_000_000_000_000), 1_414_213_563);
}

#[test]
fn scale_to_keeps_direction() {
    assert_eq!(scale_to(3, 4, 10), Vec2 { x: 6, y: 8 });
    assert_eq!(scale_to(-30, 40, 100), Vec2 { x: -60, y: 80 });
    assert_eq!(scale_to(0, 0, 100), Vec2 { x: 0, y: 0 });
}

#[test]
fn limit_vec_rescales_only_long_vectors() {
    let mut v = Vec2 { x: 3000, y: 4000 };
    limit_vec(&mut v, 1000);
    assert_eq!(v, Vec2 { x: 600, y: 800 });
    let mut w = Vec2 { x: 300, y: 400 };
    limit_vec(&mut w, 1000);
    assert_eq!(w, Vec2 { x: 300, y: 400 });
    let mut e = Vec2 { x: 600, y: 800 };
    limit_vec(&mut e, 1000);
    assert_eq!(e, Vec2 { x: 600, y: 800 });
}

#[test]
fn integrate_moves_then_accelerates() {
    let b = agent(1000, 0, 0, 2000, None);
    let r = integrate(b, TIME_SCALE / 2);
    assert_eq!(r.position, Vec2 { x: 500, y: 0 });
    assert_eq!(r.velocity.0, Vec2 { x: 1000, y: 1000 });
    assert_eq!(r.heading, Vec2 { x: 1000, y: 1000 });
}

#[test]
fn velocity_cap_holds_after_steps() {
    let mut b = agent(3000, 4000, 0, 0, Some(1000));
    b = integrate(b, TIME_SCALE / 60);
    assert_eq!(b.velocity.0, Vec2 { x: 600, y: 800 });
    for k in 0..50 {
        b.acceleration = Acceleration(Vec2 { x: 90_000 * (k % 3 - 1), y: 70_000 });
        b = integrate(b, TIME_SCALE / 30);
        let v = b.velocity.0;
        assert!(v.x * v.x + v.y * v.y <= 1000 * 1000);
    }
}

#[test]
fn zero_acceleration_keeps_velocity() {
    let b = agent(123, -456, 0, 0, None);
    let r = integrate(b, TIME_SCALE / 60);
    assert_eq!(r.velocity.0, Vec2 { x: 123, y: -456 });
    let capped = agent(300, 400, 0, 0, Some(500));
    assert_eq!(integrate(capped, TIME_SCALE).velocity.0, Vec2 { x: 300, y: 400 });
}

#[test]
fn zero_velocity_keeps_heading() {
    let mut b = agent(1000, 0, -2000, 0, None);
    b.heading = Vec2 { x: 1000, y: 0 };
    let r = integrate(b, TIME_SCALE / 2);
    assert_eq!(r.velocity.0, Vec2 { x: 0, y: 0 });
    assert_eq!(r.heading, Vec2 { x: 1000, y: 0 });
}

#[test]
fn boid_update_steps_every_agent() {
    let mut flock = vec![agent(1000, 0, 0, 0, None), agent(0, -2000, 0, 0, None)];
    boid_update(&mut flock, TIME_SCALE);
    assert_eq!(flock[0].position, Vec2 { x: 1000, y: 0 });
    assert_eq!(flock[1].position, Vec2 { x: 0, y: -2000 });
}

#[test]
fn player_brakes_without_input() {
    let input = PlayerInput { left: false, right: false, up: false, down: false };
    let a = player_acceleration(&input, Vec2 { x: 500, y: -700 }, TIME_SCALE / 60);
    assert_eq!(a, Vec2 { x: -500, y: 700 });
}

#[test]
fn player_accelerates_toward_input() {
    let input = PlayerInput { left: false, right: true, up: false, down: false };
    let a = player_acceleration(&input, Vec2 { x: 0, y: 0 }, 16_666);
    assert_eq!(a, Vec2 { x: 166_660, y: 0 });
    let both = PlayerInput { left: true, right: true, up: true, down: false };
    let d = player_acceleration(&both, Vec2 { x: 0, y: 0 }, 16_666);
    assert_eq!(d.x, 0);
    assert_eq!(d.y, 166_660);
}

#[test]
fn diagonal_input_is_normalised() {
    let input = PlayerInput { left: false, right: true, up: true, down: false };
    let a = player_acceleration(&input, Vec2 { x: 0, y: 0 }, 16_666);
    assert_eq!(a.x, a.y);
    let len_sq = a.x * a.x + a.y * a.y;
    assert!(len_sq <= 166_660 * 166_660);
    assert!(len_sq >= 166_650 * 166_650);
}

#[test]
fn player_velocity_converges_without_overshoot() {
    let input = PlayerInput { left: false, right: true, up: false, down: false };
    let mut flock = vec![spawn_player(1000 * UNIT, 800 * UNIT)];
    let dt = 16_666;
    let target = 166_660;
    let mut last_gap = target;
    let mut last_acc = i64::MAX;
    for _ in 0..1000 {
        move_player(&mut flock, &input, dt);
        let acc = flock[0].acceleration.0.x;
        assert!(acc <= last_acc);
        last_acc = acc;
        boid_update(&mut flock, dt);
        let v = flock[0].velocity.0.x;
        assert!(v <= target);
        assert!(target - v <= last_gap);
        last_gap = target - v;
    }
    assert!(last_gap < 100);
}

#[test]
fn move_player_touches_only_the_player() {
    let input = PlayerInput { left: true, right: false, up: false, down: false };
    let mut flock = vec![agent(5, 5, 1, 1, None), spawn_player(100, 100)];
    move_player(&mut flock, &input, TIME_SCALE / 60);
    assert_eq!(flock[0].acceleration.0, Vec2 { x: 1, y: 1 });
    assert_eq!(flock[1].acceleration.0, Vec2 { x: -166_660, y: 0 });
}

#[test]
fn spawned_player_is_centred_and_heavy() {
    let p = spawn_player(1000, 600);
    assert_eq!(p.position, Vec2 { x: 500, y: 300 });
    assert_eq!(p.weight, PLAYER_WEIGHT);
    assert!(p.is_player);
    assert!(p.max_velocity.is_some());
}

#[test]
fn spawn_boid_maps_draws() {
    let b = spawn_boid(0, u32::MAX, 0, u32::MAX, 1000, 2000);
    assert_eq!(b.position, Vec2 { x: 0, y: 1999 });
    assert_eq!(b.velocity.0, Vec2 { x: -ENEMY_SPEED / 2, y: 99_999 });
    assert_eq!(b.weight, 1000);
    assert!(!b.is_player);
}

#[test]
fn spawn_boids_stay_in_window() {
    let flock = spawn_boids(50, 800 * UNIT, 600 * UNIT);
    assert_eq!(flock.len(), 50);
    for b in &flock {
        assert!(b.position.x >= 0 && b.position.x <= 800 * UNIT);
        assert!(b.position.y >= 0 && b.position.y <= 600 * UNIT);
        assert!(b.velocity.0.x.abs() <= ENEMY_SPEED / 2);
    }
    assert!(flock.iter().any(|b| b.position != flock[0].position));
}

#[test]
fn wrap_moves_across_the_window() {
    let mut flock = vec![agent(0, 0, 0, 0, None), agent(0, 0, 0, 0, None)];
    flock[0].position = Vec2 { x: -20_000, y: 50 };
    flock[1].position = Vec2 { x: 50, y: 700_000 };
    wrap_around_window(&mut flock, 600_000, 600_000);
    assert_eq!(flock[0].position, Vec2 { x: 600_000, y: 50 });
    assert_eq!(flock[1].position, Vec2 { x: 50, y: 80_000 });
}

#[test]
fn chase_moves_toward_player() {
    let mut flock = vec![agent(0, 0, 0, 0, None)];
    move_boid_to_player(&mut flock, Vec2 { x: 0, y: 1_000_000 }, TIME_SCALE / 2);
    assert_eq!(flock[0].position, Vec2 { x: 0, y: ENEMY_SPEED / 2 });
}

#[test]
fn move_player_needs_exactly_one_player() {
    let input = PlayerInput { left: false, right: true, up: false, down: false };
    let mut two = vec![spawn_player(100, 100), spawn_player(200, 200), agent(1, 1, 5, 5, None)];
    assert_eq!(count_players(&two), 2);
    move_player(&mut two, &input, TIME_SCALE / 60);
    assert_eq!(two[0].acceleration.0, Vec2 { x: 0, y: 0 });
    assert_eq!(two[1].acceleration.0, Vec2 { x: 0, y: 0 });
    assert_eq!(two[2].acceleration.0, Vec2 { x: 5, y: 5 });
    let mut none = vec![agent(1, 1, 5, 5, None)];
    assert_eq!(count_players(&none), 0);
    move_player(&mut none, &input, TIME_SCALE / 60);
    assert_eq!(none[0].acceleration.0, Vec2 { x: 5, y: 5 });
}

#[test]
fn player_at_target_gets_no_acceleration() {
    let input = PlayerInput { left: false, right: true, up: false, down: false };
    let a = player_acceleration(&input, Vec2 { x: 166_660, y: 0 }, 16_666);
    assert_eq!(a, Vec2 { x: 0, y: 0 });
}

#[test]
fn player_weight_is_ten_thousand_boids() {
    assert_eq!(PLAYER_WEIGHT, 10_000_000);
}

use crate::boid::{Acceleration, Boid, Velocity, WEIGHT_SCALE};
use crate::vector::{abs, div_trunc, div_trunc_i128, lemma_div_trunc_bound, zero, Vec2, COORD_LIMIT, UNIT};
use vstd::arithmetic::div_mod::lemma_div_pos_is_pos;
use vstd::prelude::*;

verus! {

/// Number of boids in a flock at startup.
pub const BOID_COUNT: usize = 200;

/// Speed scale of the boids' random starting velocities.
pub const ENEMY_SPEED: i64 = 200 * UNIT;

/// Number of values a random `u32` can take.
pub const DRAW_RANGE: i128 = 4_294_967_296;

/// Relies on rand::random: a value drawn from the thread-local generator; any
/// value of the type may come back.
pub assume_specification<T>[ rand::random::<T> ]() -> (r: T)
    where
        rand::distributions::Standard: rand::distributions::Distribution<T>,
;

/// The fraction `r / 2^32` of `size`, rounded down.
pub open spec fn spread(r: u32, size: int) -> int {
    (size * r) / DRAW_RANGE as int
}

/// The fraction `r / 2^32 - 1/2` of `speed`, rounded toward zero.
pub open spec fn centered(r: u32, speed: int) -> int {
    div_trunc(speed * (r - DRAW_RANGE / 2), DRAW_RANGE as int)
}

/// `b` is the boid that the four draws give in a `width` by `height`
/// window.
pub open spec fn spawned_from(b: Boid, rx: u32, ry: u32, rvx: u32, rvy: u32, width: int, height: int) -> bool {
    &&& b.position@ == (spread(rx, width), spread(ry, height))
    &&& b.velocity.0@ == (centered(rvx, ENEMY_SPEED as int), centered(rvy, ENEMY_SPEED as int))
    &&& b.acceleration.0@ == zero()
    &&& b.heading == (Vec2 { x: 0, y: UNIT })
    &&& b.weight == WEIGHT_SCALE
    &&& b.max_velocity.is_none()
    &&& !b.is_player
}

/// A boid at a position and with a velocity given by four draws: inside
/// the `width` by `height` window, with each velocity component within half
/// of `ENEMY_SPEED`.
pub fn spawn_boid(rx: u32, ry: u32, rvx: u32, rvy: u32, width: i64, height: i64) -> (r: Boid)
    requires
        0 <= width <= COORD_LIMIT,
        0 <= height <= COORD_LIMIT,
    ensures
        spawned_from(r, rx, ry, rvx, rvy, width as int, height as int),
        0 <= r.position.x <= width,
        0 <= r.position.y <= height,
        abs(r.velocity.0.x as int) <= ENEMY_SPEED / 2,
        abs(r.velocity.0.y as int) <= ENEMY_SPEED / 2,
        r.wf(),
{
    proof {
        lemma_spread_bound(rx, width as int);
        lemma_spread_bound(ry, height as int);
        lemma_centered_bound(rvx);
        lemma_centered_bound(rvy);
    }
    let x: i128 = (width as i128 * rx as i128) / DRAW_RANGE;
    let y: i128 = (height as i128 * ry as i128) / DRAW_RANGE;
    let vx: i128 = div_trunc_i128(ENEMY_SPEED as i128 * (rvx as i128 - DRAW_RANGE / 2), DRAW_RANGE);
    let vy: i128 = div_trunc_i128(ENEMY_SPEED as i128 * (rvy as i128 - DRAW_RANGE / 2), DRAW_RANGE);
    Boid {
        position: Vec2 { x: x as i64, y: y as i64 },
        velocity: Velocity(Vec2 { x: vx as i64, y: vy as i64 }),
        acceleration: Acceleration(Vec2 { x: 0, y: 0 }),
        heading: Vec2 { x: 0, y: UNIT },
        weight: WEIGHT_SCALE,
        max_velocity: None,
        is_player: false,
    }
}

proof fn lemma_spread_bound(r: u32, size: int)
    requires
        0 <= size <= COORD_LIMIT,
    ensures
        0 <= spread(r, size) <= size,
        0 <= size * r <= COORD_LIMIT * DRAW_RANGE,
{
    assert(0 <= size * r <= size * DRAW_RANGE) by (nonlinear_arith)
        requires
            0 <= size,
            0 <= r < DRAW_RANGE,
    ;
    assert(size * DRAW_RANGE <= COORD_LIMIT * DRAW_RANGE) by (nonlinear_arith)
        requires
            0 <= size <= COORD_LIMIT,
    ;
    lemma_div_pos_is_pos(size * r, DRAW_RANGE as int);
    lemma_div_trunc_bound(size * r, DRAW_RANGE as int, size);
}

proof fn lemma_centered_bound(r: u32)
    ensures
        abs(centered(r, ENEMY_SPEED as int)) <= ENEMY_SPEED / 2,
{
    let c = r - DRAW_RANGE / 2;
    assert(abs(ENEMY_SPEED * c) <= DRAW_RANGE * (ENEMY_SPEED / 2)) by (nonlinear_arith)
        requires
            -(DRAW_RANGE / 2) <= c <= DRAW_RANGE / 2,
            ENEMY_SPEED == 200000,
            DRAW_RANGE == 4_294_967_296,
            abs(ENEMY_SPEED * c) == (if ENEMY_SPEED * c >= 0 {
                ENEMY_SPEED * c
            } else {
                -(ENEMY_SPEED * c)
            }),
    ;
    lemma_div_trunc_bound(ENEMY_SPEED * c, DRAW_RANGE as int, ENEMY_SPEED / 2);
}

/// `count` boids placed at random inside the `width` by `height` window,
/// with random velocities whose components are within half of
/// `ENEMY_SPEED`: each is the boid that some four draws give.
///
/// Panics only where the operating system's random source fails, as the
/// thread-local generator it draws from does.
pub fn spawn_boids(count: usize, width: i64, height: i64) -> (r: Vec<Boid>)
    requires
        0 <= width <= COORD_LIMIT,
        0 <= height <= COORD_LIMIT,
    ensures
        r.len() == count,
        forall|j: int|
            0 <= j < count ==> {
                let b = #[trigger] r@[j];
                &&& b.wf()
                &&& 0 <= b.position.x <= width
                &&& 0 <= b.position.y <= height
                &&& abs(b.velocity.0.x as int) <= ENEMY_SPEED / 2
                &&& abs(b.velocity.0.y as int) <= ENEMY_SPEED / 2
                &&& exists|rx: u32, ry: u32, rvx: u32, rvy: u32|
                    spawned_from(b, rx, ry, rvx, rvy, width as int, height as int)
            },
{
    let mut r: Vec<Boid> = Vec::new();
    let mut k: usize = 0;
    while k < count
        invariant
            0 <= k <= count,
            r.len() == k,
            0 <= width <= COORD_LIMIT,
            0 <= height <= COORD_LIMIT,
            forall|j: int|
                0 <= j < k ==> {
                    let b = #[trigger] r@[j];
                    &&& b.wf()
                    &&& 0 <= b.position.x <= width
                    &&& 0 <= b.position.y <= height
                    &&& abs(b.velocity.0.x as int) <= ENEMY_SPEED / 2
                    &&& abs(b.velocity.0.y as int) <= ENEMY_SPEED / 2
                    &&& exists|rx: u32, ry: u32, rvx: u32, rvy: u32|
                        spawned_from(b, rx, ry, rvx, rvy, width as int, height as int)
                },
        decreases count - k,
    {
        let rx: u32 = rand::random::<u32>();
        let ry: u32 = rand::random::<u32>();
        let rvx: u32 = rand::random::<u32>();
        let rvy: u32 = rand::random::<u32>();
        let b = spawn_boid(rx, ry, rvx, rvy, width, height);
        assert(spawned_from(b, rx, ry, rvx, rvy, width as int, height as int));
        let ghost before = r@;
        r.push(b);
        assert(forall|j: int| 0 <= j < k ==> r@[j] == before[j]);
        k = k + 1;
    }
    r
}

} // verus!

use crate::boid::{vec_within, Boid, MaxVelocity, Velocity, BORDER_MARGIN};
use crate::spawn::ENEMY_SPEED;
use crate::vector::{
    frac, lemma_limit_within, limit_spec, limit_vec, len_sq, scale_spec, scale_to, vadd, vfrac, vsub, within, zero,
    Vec2, COORD_LIMIT,
};
use vstd::arithmetic::div_mod::lemma_div_pos_is_pos;
use vstd::prelude::*;

verus! {

/// Microseconds in one second: time steps are counted in microseconds.
pub const TIME_SCALE: i64 = 1_000_000;

/// Largest magnitude of an acceleration component the integrator takes.
pub const ACCEL_LIMIT: i64 = 8 * COORD_LIMIT;

/// The position after moving at the current velocity for `dt` microseconds.
pub open spec fn moved_position(b: Boid, dt: int) -> (int, int) {
    vadd(b.position@, vfrac(b.velocity.0@, dt, TIME_SCALE as int))
}

/// The velocity after applying the acceleration for `dt` microseconds,
/// before any cap.
pub open spec fn raw_velocity(b: Boid, dt: int) -> (int, int) {
    vadd(b.velocity.0@, vfrac(b.acceleration.0@, dt, TIME_SCALE as int))
}

/// The velocity after one step from `v` under acceleration `a` for `dt`
/// microseconds, held to `cap` if there is one.
pub open spec fn capped_step(v: (int, int), a: (int, int), dt: int, cap: Option<MaxVelocity>) -> (
    int,
    int,
) {
    let raw = vadd(v, vfrac(a, dt, TIME_SCALE as int));
    match cap {
        Some(m) => limit_spec(raw, m.0 as int),
        None => raw,
    }
}

/// The velocity after one step, held to the agent's cap if it has one.
pub open spec fn stepped_velocity(b: Boid, dt: int) -> (int, int) {
    capped_step(b.velocity.0@, b.acceleration.0@, dt, b.max_velocity)
}

/// The velocity after a run of steps from `v`, the `k`-th under
/// acceleration `accs[k]` for `dts[k]` microseconds.
pub open spec fn velocity_after(
    v: (int, int),
    accs: Seq<(int, int)>,
    dts: Seq<int>,
    cap: Option<MaxVelocity>,
) -> (int, int)
    decreases accs.len(),
{
    if accs.len() == 0 {
        v
    } else {
        capped_step(
            velocity_after(v, accs.drop_last(), dts.drop_last(), cap),
            accs.last(),
            dts.last(),
            cap,
        )
    }
}

/// What the integrator accepts: a well-formed agent with a bounded
/// acceleration.
pub open spec fn integrable(b: Boid) -> bool {
    b.wf() && within(b.acceleration.0, ACCEL_LIMIT as int)
}

/// Tells whether the integrator accepts every agent.
pub fn all_integrable(boids: &Vec<Boid>) -> (r: bool)
    ensures
        r == forall|j: int| 0 <= j < boids.len() ==> integrable(#[trigger] boids@[j]),
{
    let mut k: usize = 0;
    while k < boids.len()
        invariant
            0 <= k <= boids.len(),
            forall|j: int| 0 <= j < k ==> integrable(#[trigger] boids@[j]),
        decreases boids.len() - k,
    {
        if !(boids[k].is_wf() && vec_within(boids[k].acceleration.0, ACCEL_LIMIT)) {
            return false;
        }
        k = k + 1;
    }
    true
}

/// `after` is `before` advanced by `dt` microseconds: moved at the old
/// velocity, the velocity changed by the acceleration and held to the cap,
/// the heading turned to the new velocity unless that is zero.
pub open spec fn integrated(before: Boid, after: Boid, dt: int) -> bool {
    &&& after.position@ == moved_position(before, dt)
    &&& after.velocity.0@ == stepped_velocity(before, dt)
    &&& after.heading == if after.velocity.0@ == zero() {
        before.heading
    } else {
        after.velocity.0
    }
    &&& after.acceleration == before.acceleration
    &&& after.weight == before.weight
    &&& after.max_velocity == before.max_velocity
    &&& after.is_player == before.is_player
}

/// Advances one agent by `dt` microseconds. An agent with a cap never
/// leaves it moving faster than the cap, and one whose velocity becomes
/// zero keeps its heading.
pub fn integrate(b: Boid, dt: i64) -> (r: Boid)
    requires
        integrable(b),
        0 <= dt <= TIME_SCALE,
    ensures
        integrated(b, r, dt as int),
        match b.max_velocity {
            Some(m) => len_sq(r.velocity.0.x as int, r.velocity.0.y as int) <= m.0 * m.0,
            None => true,
        },
        r.velocity.0@ == zero() ==> r.heading == b.heading,
        within(r.position, 2 * COORD_LIMIT),
{
    let step = frac(b.velocity.0, dt, TIME_SCALE);
    let position = Vec2 { x: b.position.x + step.x, y: b.position.y + step.y };
    let dv = frac(b.acceleration.0, dt, TIME_SCALE);
    let mut velocity = Vec2 { x: b.velocity.0.x + dv.x, y: b.velocity.0.y + dv.y };
    match b.max_velocity {
        Some(m) => {
            limit_vec(&mut velocity, m.0);
        },
        None => {},
    }
    let heading = if velocity.x == 0 && velocity.y == 0 {
        b.heading
    } else {
        velocity
    };
    Boid { position, velocity: Velocity(velocity), heading, ..b }
}

/// Advances every agent by `dt` microseconds, each on its own.
pub fn boid_update(boids: &mut Vec<Boid>, dt: i64)
    requires
        forall|j: int| 0 <= j < old(boids).len() ==> integrable(#[trigger] old(boids)@[j]),
        0 <= dt <= TIME_SCALE,
    ensures
        final(boids).len() == old(boids).len(),
        forall|j: int|
            0 <= j < old(boids).len() ==> integrated(
                #[trigger] old(boids)@[j],
                final(boids)@[j],
                dt as int,
            ),
        forall|j: int|
            0 <= j < old(boids).len() ==> match (#[trigger] old(boids)@[j]).max_velocity {
                Some(m) => len_sq(final(boids)@[j].velocity.0.x as int, final(boids)@[j].velocity.0.y as int)
                    <= m.0 * m.0,
                None => true,
            },
{
    let n = boids.len();
    let ghost start = boids@;
    let mut k: usize = 0;
    while k < n
        invariant
            n == boids.len() == start.len(),
            0 <= k <= n,
            0 <= dt <= TIME_SCALE,
            forall|j: int| 0 <= j < n ==> integrable(#[trigger] start[j]),
            forall|j: int| k <= j < n ==> #[trigger] boids@[j] == start[j],
            forall|j: int| 0 <= j < k ==> integrated(#[trigger] start[j], boids@[j], dt as int),
            forall|j: int|
                0 <= j < k ==> match (#[trigger] start[j]).max_velocity {
                    Some(m) => len_sq(boids@[j].velocity.0.x as int, boids@[j].velocity.0.y as int)
                        <= m.0 * m.0,
                    None => true,
                },
        decreases n - k,
    {
        let b = boids[k];
        assert(integrable(start[k as int]));
        let moved = integrate(b, dt);
        boids.set(k, moved);
        k = k + 1;
    }
}

/// An agent with a cap leaves every step no faster than the cap, whatever
/// its acceleration and time step; so the cap holds after any number of
/// steps.
pub proof fn lemma_cap_holds(b: Boid, dt: int)
    requires
        match b.max_velocity {
            Some(m) => 0 <= m.0,
            None => true,
        },
    ensures
        match b.max_velocity {
            Some(m) => len_sq(stepped_velocity(b, dt).0, stepped_velocity(b, dt).1) <= m.0 * m.0,
            None => true,
        },
{
    match b.max_velocity {
        Some(m) => lemma_limit_within(raw_velocity(b, dt), m.0 as int),
        None => {},
    }
}

/// After any positive number of steps, with any accelerations and time
/// steps, an agent with a cap is no faster than the cap.
pub proof fn lemma_cap_holds_after_steps(
    v: (int, int),
    accs: Seq<(int, int)>,
    dts: Seq<int>,
    m: MaxVelocity,
)
    requires
        0 <= m.0,
        accs.len() >= 1,
    ensures
        ({
            let w = velocity_after(v, accs, dts, Some(m));
            len_sq(w.0, w.1) <= m.0 * m.0
        }),
{
    let prev = velocity_after(v, accs.drop_last(), dts.drop_last(), Some(m));
    lemma_limit_within(vadd(prev, vfrac(accs.last(), dts.last(), TIME_SCALE as int)), m.0 as int);
}

/// With a zero acceleration and a velocity within its cap, an agent's
/// velocity is unchanged by a step.
pub proof fn lemma_zero_acceleration_keeps_velocity(b: Boid, dt: int)
    requires
        b.acceleration.0@ == zero(),
        match b.max_velocity {
            Some(m) => len_sq(b.velocity.0.x as int, b.velocity.0.y as int) <= m.0 * m.0,
            None => true,
        },
    ensures
        stepped_velocity(b, dt) == b.velocity.0@,
{
    assert(raw_velocity(b, dt) == b.velocity.0@);
}

/// One coordinate wrapped round a window side of length `size`: past the
/// margin below, it comes back near the top; past the margin above, near
/// the bottom.
pub open spec fn wrap_spec(c: int, size: int) -> int {
    let span = size + 2 * BORDER_MARGIN;
    let c1 = if c < -BORDER_MARGIN {
        c + span
    } else {
        c
    };
    if c1 > size + BORDER_MARGIN {
        c1 - span
    } else {
        c1
    }
}

fn wrap_coord(c: i64, size: i64) -> (r: i64)
    requires
        -COORD_LIMIT <= c <= COORD_LIMIT,
        0 <= size <= COORD_LIMIT,
    ensures
        r == wrap_spec(c as int, size as int),
{
    let span = size + 2 * BORDER_MARGIN;
    let mut r = c;
    if r < -BORDER_MARGIN {
        r = r + span;
    }
    if r > size + BORDER_MARGIN {
        r = r - span;
    }
    r
}

/// Wraps every agent round the edges of a `width` by `height` window, so
/// that one leaving on a side comes back on the other; nothing else changes.
pub fn wrap_around_window(boids: &mut Vec<Boid>, width: i64, height: i64)
    requires
        forall|j: int| 0 <= j < old(boids).len() ==> (#[trigger] old(boids)@[j]).wf(),
        0 <= width <= COORD_LIMIT,
        0 <= height <= COORD_LIMIT,
    ensures
        final(boids).len() == old(boids).len(),
        forall|j: int|
            0 <= j < old(boids).len() ==> {
                &&& (#[trigger] final(boids)@[j]) == Boid {
                    position: final(boids)@[j].position,
                    ..old(boids)@[j]
                }
                &&& final(boids)@[j].position@ == (
                    wrap_spec(old(boids)@[j].position.x as int, width as int),
                    wrap_spec(old(boids)@[j].position.y as int, height as int),
                )
            },
{
    let n = boids.len();
    let ghost start = boids@;
    let mut k: usize = 0;
    while k < n
        invariant
            n == boids.len() == start.len(),
            0 <= k <= n,
            0 <= width <= COORD_LIMIT,
            0 <= height <= COORD_LIMIT,
            forall|j: int| 0 <= j < n ==> (#[trigger] start[j]).wf(),
            forall|j: int| k <= j < n ==> #[trigger] boids@[j] == start[j],
            forall|j: int|
                0 <= j < k ==> {
                    &&& (#[trigger] boids@[j]) == Boid { position: boids@[j].position, ..start[j] }
                    &&& boids@[j].position@ == (
                        wrap_spec(start[j].position.x as int, width as int),
                        wrap_spec(start[j].position.y as int, height as int),
                    )
                },
        decreases n - k,
    {
        let b = boids[k];
        assert(start[k as int].wf());
        let position = Vec2 { x: wrap_coord(b.position.x, width), y: wrap_coord(b.position.y, height) };
        boids.set(k, Boid { position, ..b });
        k = k + 1;
    }
}

/// The distance a boid chasing the player covers in `dt` microseconds.
pub open spec fn chase_step(dt: int) -> int {
    (ENEMY_SPEED * dt) / TIME_SCALE as int
}

/// Moves every agent but the player straight toward `player` at
/// `ENEMY_SPEED` for `dt` microseconds; an agent already on the player's
/// spot stays there.
pub fn move_boid_to_player(boids: &mut Vec<Boid>, player: Vec2, dt: i64)
    requires
        forall|j: int| 0 <= j < old(boids).len() ==> (#[trigger] old(boids)@[j]).wf(),
        within(player, COORD_LIMIT as int),
        0 <= dt <= TIME_SCALE,
    ensures
        final(boids).len() == old(boids).len(),
        forall|j: int|
            0 <= j < old(boids).len() ==> {
                &&& (#[trigger] final(boids)@[j]) == Boid {
                    position: final(boids)@[j].position,
                    ..old(boids)@[j]
                }
                &&& final(boids)@[j].position@ == if old(boids)@[j].is_player {
                    old(boids)@[j].position@
                } else {
                    vadd(
                        old(boids)@[j].position@,
                        scale_spec(vsub(player@, old(boids)@[j].position@), chase_step(dt as int)),
                    )
                }
            },
{
    proof {
        assert(ENEMY_SPEED * dt <= ENEMY_SPEED * TIME_SCALE) by (nonlinear_arith)
            requires
                0 <= dt <= TIME_SCALE,
        ;
        lemma_div_pos_is_pos(ENEMY_SPEED * dt, TIME_SCALE as int);
    }
    let step: i64 = ENEMY_SPEED * dt / TIME_SCALE;
    let n = boids.len();
    let ghost start = boids@;
    let mut k: usize = 0;
    while k < n
        invariant
            n == boids.len() == start.len(),
            0 <= k <= n,
            within(player, COORD_LIMIT as int),
            step == chase_step(dt as int),
            0 <= step <= COORD_LIMIT,
            forall|j: int| 0 <= j < n ==> (#[trigger] start[j]).wf(),
            forall|j: int| k <= j < n ==> #[trigger] boids@[j] == start[j],
            forall|j: int|
                0 <= j < k ==> {
                    &&& (#[trigger] boids@[j]) == Boid { position: boids@[j].position, ..start[j] }
                    &&& boids@[j].position@ == if start[j].is_player {
                        start[j].position@
                    } else {
                        vadd(
                            start[j].position@,
                            scale_spec(vsub(player@, start[j].position@), step as int),
                        )
                    }
                },
        decreases n - k,
    {
        let b = boids[k];
        assert(start[k as int].wf());
        if !b.is_player {
            let d = scale_to(
                player.x as i128 - b.position.x as i128,
                player.y as i128 - b.position.y as i128,
                step,
            );
            let position = Vec2 { x: b.position.x + d.x, y: b.position.y + d.y };
            boids.set(k, Boid { position, ..b });
        }
        k = k + 1;
    }
}

} // verus!

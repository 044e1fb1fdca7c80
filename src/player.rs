use crate::boid::{Acceleration, Boid, MaxVelocity, Velocity, WEIGHT_SCALE};
use crate::motion::{raw_velocity, stepped_velocity, TIME_SCALE};
use crate::vector::{
    abs, div_trunc, lemma_frac_shrinks, len_sq, scale_spec, scale_to, vsub,
    within, zero, Vec2, COORD_LIMIT, UNIT,
};
use vstd::arithmetic::div_mod::lemma_div_pos_is_pos;
use vstd::prelude::*;

verus! {

/// Strength of the player's steering, in fixed-point units.
pub const PLAYER_FORCE: i64 = 50 * UNIT;

/// Factor between the player's force and the speed it aims for per second.
pub const PLAYER_FORCE_FACTOR: i64 = 200;

/// Speed cap of the player.
pub const PLAYER_MAX_SPEED: i64 = 300 * UNIT;

/// How many boids the player counts for, in thousandths.
pub const PLAYER_WEIGHT: i64 = 10_000 * WEIGHT_SCALE;

/// The directional keys held this tick.
#[derive(Clone, Copy, Debug, PartialEq, Eq, Structural)]
pub struct PlayerInput {
    pub left: bool,
    pub right: bool,
    pub up: bool,
    pub down: bool,
}

/// One axis of the input: `1` toward `plus`, `-1` toward `minus`, `0` for
/// both or neither.
pub open spec fn axis(minus: bool, plus: bool) -> int {
    (if plus {
        1int
    } else {
        0
    }) - (if minus {
        1int
    } else {
        0
    })
}

/// The input direction, stretched so that its rounding when normalised is
/// small.
pub open spec fn input_direction(input: PlayerInput) -> (int, int) {
    (
        axis(input.left, input.right) * COORD_LIMIT,
        axis(input.down, input.up) * COORD_LIMIT,
    )
}

/// The speed the player aims for over a step of `dt` microseconds.
pub open spec fn player_speed(dt: int) -> int {
    (PLAYER_FORCE * PLAYER_FORCE_FACTOR * dt) / TIME_SCALE as int
}

/// The velocity the player aims for: the unit input direction times the
/// player's speed; zero without input.
pub open spec fn desired_velocity(input: PlayerInput, dt: int) -> (int, int) {
    scale_spec(input_direction(input), player_speed(dt))
}

/// The player's acceleration: the aimed-for velocity less the current one.
pub open spec fn player_acceleration_spec(input: PlayerInput, velocity: (int, int), dt: int) -> (
    int,
    int,
) {
    vsub(desired_velocity(input, dt), velocity)
}

/// The player's steering: toward the velocity the input asks for, so that
/// letting go of the keys brakes the player to rest.
pub fn player_acceleration(input: &PlayerInput, velocity: Vec2, dt: i64) -> (r: Vec2)
    requires
        within(velocity, COORD_LIMIT as int),
        0 <= dt <= TIME_SCALE,
    ensures
        r@ == player_acceleration_spec(*input, velocity@, dt as int),
        within(r, 2 * COORD_LIMIT),
{
    let mut dx: i128 = 0;
    if input.right {
        dx = dx + COORD_LIMIT as i128;
    }
    if input.left {
        dx = dx - COORD_LIMIT as i128;
    }
    let mut dy: i128 = 0;
    if input.up {
        dy = dy + COORD_LIMIT as i128;
    }
    if input.down {
        dy = dy - COORD_LIMIT as i128;
    }
    proof {
        assert(PLAYER_FORCE * PLAYER_FORCE_FACTOR * dt <= PLAYER_FORCE * PLAYER_FORCE_FACTOR
            * TIME_SCALE) by (nonlinear_arith)
            requires
                0 <= dt <= TIME_SCALE,
        ;
        lemma_div_pos_is_pos(PLAYER_FORCE * PLAYER_FORCE_FACTOR * dt, TIME_SCALE as int);
    }
    let speed: i64 = PLAYER_FORCE * PLAYER_FORCE_FACTOR * dt / TIME_SCALE;
    let desired = scale_to(dx, dy, speed);
    Vec2 { x: desired.x - velocity.x, y: desired.y - velocity.y }
}

/// The number of player agents among the first `k` agents of `s`.
pub open spec fn player_count(s: Seq<Boid>, k: int) -> int
    decreases k,
{
    if k <= 0 {
        0
    } else {
        player_count(s, k - 1) + if s[k - 1].is_player {
            1int
        } else {
            0
        }
    }
}

/// The number of player agents in `s`.
pub open spec fn players(s: Seq<Boid>) -> int {
    player_count(s, s.len() as int)
}

/// Counts the player agents.
pub fn count_players(boids: &Vec<Boid>) -> (r: usize)
    ensures
        r == players(boids@),
{
    let mut count: usize = 0;
    let mut k: usize = 0;
    while k < boids.len()
        invariant
            0 <= k <= boids.len(),
            count == player_count(boids@, k as int),
            count <= k,
        decreases boids.len() - k,
    {
        if boids[k].is_player {
            count = count + 1;
        }
        k = k + 1;
    }
    count
}

/// Steers the single player agent from the input. With no player agent or
/// more than one, nothing changes; otherwise only the player's acceleration
/// is set.
pub fn move_player(boids: &mut Vec<Boid>, input: &PlayerInput, dt: i64)
    requires
        forall|j: int| 0 <= j < old(boids).len() ==> (#[trigger] old(boids)@[j]).wf(),
        0 <= dt <= TIME_SCALE,
    ensures
        players(old(boids)@) != 1 ==> final(boids)@ == old(boids)@,
        final(boids).len() == old(boids).len(),
        players(old(boids)@) == 1 ==> forall|j: int|
            0 <= j < old(boids).len() ==> {
                &&& (#[trigger] final(boids)@[j]) == Boid {
                    acceleration: final(boids)@[j].acceleration,
                    ..old(boids)@[j]
                }
                &&& if old(boids)@[j].is_player {
                    &&& final(boids)@[j].acceleration.0@ == player_acceleration_spec(
                        *input,
                        old(boids)@[j].velocity.0@,
                        dt as int,
                    )
                    &&& within(final(boids)@[j].acceleration.0, 2 * COORD_LIMIT)
                } else {
                    final(boids)@[j].acceleration == old(boids)@[j].acceleration
                }
            },
{
    if count_players(boids) == 1 {
        steer_players(boids, input, dt);
    }
}

/// Sets the acceleration of every player agent from the input; the other
/// agents are left as they are.
fn steer_players(boids: &mut Vec<Boid>, input: &PlayerInput, dt: i64)
    requires
        forall|j: int| 0 <= j < old(boids).len() ==> (#[trigger] old(boids)@[j]).wf(),
        0 <= dt <= TIME_SCALE,
    ensures
        final(boids).len() == old(boids).len(),
        forall|j: int|
            0 <= j < old(boids).len() ==> {
                &&& (#[trigger] final(boids)@[j]) == Boid {
                    acceleration: final(boids)@[j].acceleration,
                    ..old(boids)@[j]
                }
                &&& if old(boids)@[j].is_player {
                    &&& final(boids)@[j].acceleration.0@ == player_acceleration_spec(
                        *input,
                        old(boids)@[j].velocity.0@,
                        dt as int,
                    )
                    &&& within(final(boids)@[j].acceleration.0, 2 * COORD_LIMIT)
                } else {
                    final(boids)@[j].acceleration == old(boids)@[j].acceleration
                }
            },
{
    let n = boids.len();
    let ghost start = boids@;
    let mut k: usize = 0;
    while k < n
        invariant
            n == boids.len() == start.len(),
            0 <= k <= n,
            0 <= dt <= TIME_SCALE,
            forall|j: int| 0 <= j < n ==> (#[trigger] start[j]).wf(),
            forall|j: int| k <= j < n ==> #[trigger] boids@[j] == start[j],
            forall|j: int|
                0 <= j < k ==> {
                    &&& (#[trigger] boids@[j]) == Boid {
                        acceleration: boids@[j].acceleration,
                        ..start[j]
                    }
                    &&& if start[j].is_player {
                        &&& boids@[j].acceleration.0@ == player_acceleration_spec(
                            *input,
                            start[j].velocity.0@,
                            dt as int,
                        )
                        &&& within(boids@[j].acceleration.0, 2 * COORD_LIMIT)
                    } else {
                        boids@[j].acceleration == start[j].acceleration
                    }
                },
        decreases n - k,
    {
        let b = boids[k];
        if b.is_player {
            assert(start[k as int].wf());
            let a = player_acceleration(input, b.velocity.0, dt);
            boids.set(k, Boid { acceleration: Acceleration(a), ..b });
        }
        k = k + 1;
    }
}

/// The player agent, resting at the centre of a `width` by `height` window
/// and weighing as many boids as `PLAYER_WEIGHT`.
pub fn spawn_player(width: i64, height: i64) -> (r: Boid)
    requires
        0 <= width <= COORD_LIMIT,
        0 <= height <= COORD_LIMIT,
    ensures
        r.position@ == (width / 2, height / 2),
        r.velocity.0@ == zero(),
        r.acceleration.0@ == zero(),
        r.weight == PLAYER_WEIGHT,
        r.max_velocity == Some(MaxVelocity(PLAYER_MAX_SPEED)),
        r.is_player,
        r.wf(),
{
    Boid {
        position: Vec2 { x: width / 2, y: height / 2 },
        velocity: Velocity(Vec2 { x: 0, y: 0 }),
        acceleration: Acceleration(Vec2 { x: 0, y: 0 }),
        heading: Vec2 { x: 0, y: UNIT },
        weight: PLAYER_WEIGHT,
        max_velocity: Some(MaxVelocity(PLAYER_MAX_SPEED)),
        is_player: true,
    }
}

/// `b` moved toward `a` without passing it: it lies between `a` and the
/// old value, or on `a`.
pub open spec fn approaches(a: int, before: int, after: int) -> bool {
    if before <= a {
        before <= after <= a
    } else {
        a <= after <= before
    }
}

/// Holding the same input, a step with a time step of at most one second
/// moves the player's velocity toward the velocity it aims for on each axis
/// without passing it, so the next acceleration is no larger; where the cap
/// does not bite, the integrator's velocity is that uncapped step.
pub proof fn lemma_player_damping(b: Boid, input: PlayerInput, dt: int)
    requires
        0 <= dt <= TIME_SCALE,
        b.acceleration.0@ == player_acceleration_spec(input, b.velocity.0@, dt),
    ensures
        ({
            let d = desired_velocity(input, dt);
            let v = b.velocity.0@;
            let v2 = raw_velocity(b, dt);
            let a2 = player_acceleration_spec(input, v2, dt);
            &&& approaches(d.0, v.0, v2.0)
            &&& approaches(d.1, v.1, v2.1)
            &&& abs(a2.0) <= abs(b.acceleration.0.x as int)
            &&& abs(a2.1) <= abs(b.acceleration.0.y as int)
            &&& (match b.max_velocity {
                Some(m) => len_sq(v2.0, v2.1) <= m.0 * m.0,
                None => true,
            } ==> stepped_velocity(b, dt) == v2)
        }),
{
    let a = b.acceleration.0@;
    lemma_frac_shrinks(a.0, dt, TIME_SCALE as int);
    lemma_frac_shrinks(a.1, dt, TIME_SCALE as int);
    lemma_same_sign(a.0, dt);
    lemma_same_sign(a.1, dt);
}

/// A player already moving at the velocity its input asks for gets no
/// acceleration: that velocity is the steady state.
pub proof fn lemma_player_steady_state(input: PlayerInput, v: (int, int), dt: int)
    requires
        v == desired_velocity(input, dt),
    ensures
        player_acceleration_spec(input, v, dt) == zero(),
{
}

proof fn lemma_same_sign(a: int, dt: int)
    requires
        0 <= dt,
    ensures
        a >= 0 ==> div_trunc(a * dt, TIME_SCALE as int) >= 0,
        a < 0 ==> div_trunc(a * dt, TIME_SCALE as int) <= 0,
{
    if a >= 0 {
        assert(a * dt >= 0) by (nonlinear_arith)
            requires
                a >= 0,
                dt >= 0,
        ;
        lemma_div_pos_is_pos(a * dt, TIME_SCALE as int);
    } else {
        assert(-(a * dt) >= 0) by (nonlinear_arith)
            requires
                a < 0,
                dt >= 0,
        ;
        if a * dt >= 0 {
            assert(a * dt == 0);
        } else {
            lemma_div_pos_is_pos(-(a * dt), TIME_SCALE as int);
        }
    }
}

} // verus!

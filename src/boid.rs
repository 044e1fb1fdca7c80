use crate::vector::{abs, within, Vec2, COORD_LIMIT, UNIT};
use vstd::prelude::*;

verus! {

/// Tuning weights are counted in thousandths.
pub const WEIGHT_SCALE: i64 = 1000;

/// Largest influence weight an agent may carry, in thousandths of a boid.
pub const MAX_WEIGHT: i64 = 1_000_000_000;

/// Largest number of agents in a flock.
pub const MAX_AGENTS: usize = 65536;

/// Inward margin of the viewport rectangle used by the boundary guard.
pub const BORDER_MARGIN: i64 = 10 * UNIT;

/// Factor applied to the boundary guard's correction.
pub const BORDER_FACTOR: i64 = 2;

/// Current speed and direction of an agent.
#[derive(Clone, Copy, Debug, PartialEq, Eq, Structural)]
pub struct Velocity(pub Vec2);

/// Hard cap on the length of an agent's velocity.
#[derive(Clone, Copy, Debug, PartialEq, Eq, Structural)]
pub struct MaxVelocity(pub i64);

/// Steering force of the current tick.
#[derive(Clone, Copy, Debug, PartialEq, Eq, Structural)]
pub struct Acceleration(pub Vec2);

/// One agent of the flock; the player is one too.
#[derive(Clone, Copy, Debug)]
pub struct Boid {
    pub position: Vec2,
    pub velocity: Velocity,
    pub acceleration: Acceleration,
    /// Direction the agent faces: its last non-zero velocity.
    pub heading: Vec2,
    /// How many boids this boid counts for, in thousandths.
    pub weight: i64,
    pub max_velocity: Option<MaxVelocity>,
    pub is_player: bool,
}

/// Simulation settings, in fixed-point units; weights in thousandths.
#[derive(Clone, Copy, Debug, PartialEq, Eq, Structural)]
pub struct Settings {
    /// Radius of the circle in which boids can see.
    pub visual_radius: i64,
    /// Radius of the circle in which boids want to be alone.
    pub separation_radius: i64,
    /// Cohesion rule: move toward the centre of mass of the neighbours.
    pub cohesion: i64,
    /// Separation rule: move away from neighbours in the protected range.
    pub separation: i64,
    /// Alignment rule: match the average velocity of the neighbours.
    pub alignment: i64,
    /// Speed that the steering rules aim for.
    pub max_speed: i64,
    /// Largest length of one steering force before its weight.
    pub max_force: i64,
}

impl Settings {
    /// Radii and speeds within the coordinate range, weights between zero
    /// and one.
    pub open spec fn wf(&self) -> bool {
        &&& 0 <= self.visual_radius <= COORD_LIMIT
        &&& 0 <= self.separation_radius <= COORD_LIMIT
        &&& 0 <= self.max_speed <= COORD_LIMIT
        &&& 0 <= self.max_force <= COORD_LIMIT
        &&& 0 <= self.cohesion <= WEIGHT_SCALE
        &&& 0 <= self.separation <= WEIGHT_SCALE
        &&& 0 <= self.alignment <= WEIGHT_SCALE
    }
}

impl Settings {
    /// Tells whether the settings are well formed.
    pub fn is_wf(&self) -> (r: bool)
        ensures
            r == self.wf(),
    {
        0 <= self.visual_radius && self.visual_radius <= COORD_LIMIT && 0 <= self.separation_radius
            && self.separation_radius <= COORD_LIMIT && 0 <= self.max_speed && self.max_speed
            <= COORD_LIMIT && 0 <= self.max_force && self.max_force <= COORD_LIMIT && 0
            <= self.cohesion && self.cohesion <= WEIGHT_SCALE && 0 <= self.separation
            && self.separation <= WEIGHT_SCALE && 0 <= self.alignment && self.alignment
            <= WEIGHT_SCALE
    }
}

/// `v` lies within `bound` on both axes.
pub fn vec_within(v: Vec2, bound: i64) -> (r: bool)
    requires
        0 <= bound,
    ensures
        r == within(v, bound as int),
{
    -bound <= v.x && v.x <= bound && -bound <= v.y && v.y <= bound
}

impl Default for Settings {
    fn default() -> (r: Settings)
        ensures
            r.visual_radius == 50 * UNIT,
            r.separation_radius == 30 * UNIT,
            r.cohesion == 600,
            r.separation == 800,
            r.alignment == 600,
            r.max_speed == 100 * UNIT,
            r.max_force == 50 * UNIT,
            r.wf(),
    {
        Settings {
            visual_radius: 50 * UNIT,
            separation_radius: 30 * UNIT,
            cohesion: 600,
            separation: 800,
            alignment: 600,
            max_speed: 100 * UNIT,
            max_force: 50 * UNIT,
        }
    }
}

impl Boid {
    /// Position and velocity within the coordinate range, a positive weight
    /// (in thousandths of a boid) and a cap that is not negative.
    pub open spec fn wf(&self) -> bool {
        &&& within(self.position, COORD_LIMIT as int)
        &&& within(self.velocity.0, COORD_LIMIT as int)
        &&& 1 <= self.weight <= MAX_WEIGHT
        &&& match self.max_velocity {
            Some(m) => 0 <= m.0 <= COORD_LIMIT,
            None => true,
        }
    }
}

impl Boid {
    /// Tells whether the agent is well formed.
    pub fn is_wf(&self) -> (r: bool)
        ensures
            r == self.wf(),
    {
        let cap_ok = match self.max_velocity {
            Some(m) => 0 <= m.0 && m.0 <= COORD_LIMIT,
            None => true,
        };
        vec_within(self.position, COORD_LIMIT) && vec_within(self.velocity.0, COORD_LIMIT) && 1
            <= self.weight && self.weight <= MAX_WEIGHT && cap_ok
    }
}

/// The visible world rectangle the boundary guard keeps agents in.
#[derive(Clone, Copy, Debug, PartialEq, Eq, Structural)]
pub struct Bounds {
    pub min_x: i64,
    pub max_x: i64,
    pub min_y: i64,
    pub max_y: i64,
}

/// Correction on one axis: `max_speed` below the range, `-max_speed` above.
pub open spec fn axis_push(c: int, lo: int, hi: int, max_speed: int) -> int {
    (if c < lo {
        max_speed
    } else {
        0
    }) + (if c > hi {
        -max_speed
    } else {
        0
    })
}

/// The inward force on an agent at `p`, doubled.
pub open spec fn boundary_spec(p: (int, int), b: Bounds, max_speed: int) -> (int, int) {
    (
        BORDER_FACTOR * axis_push(p.0, b.min_x as int, b.max_x as int, max_speed),
        BORDER_FACTOR * axis_push(p.1, b.min_y as int, b.max_y as int, max_speed),
    )
}

/// The viewport of a camera at `camera` showing `width` by `height`,
/// pulled in by the border margin on every side.
pub fn viewport_bounds(camera: Vec2, width: i64, height: i64) -> (r: Bounds)
    requires
        within(camera, COORD_LIMIT as int),
        0 <= width <= COORD_LIMIT,
        0 <= height <= COORD_LIMIT,
    ensures
        r.min_x == camera.x - width / 2 + BORDER_MARGIN,
        r.max_x == camera.x + width / 2 - BORDER_MARGIN,
        r.min_y == camera.y - height / 2 + BORDER_MARGIN,
        r.max_y == camera.y + height / 2 - BORDER_MARGIN,
{
    Bounds {
        min_x: camera.x - width / 2 + BORDER_MARGIN,
        max_x: camera.x + width / 2 - BORDER_MARGIN,
        min_y: camera.y - height / 2 + BORDER_MARGIN,
        max_y: camera.y + height / 2 - BORDER_MARGIN,
    }
}

/// The boundary guard: a push of `max_speed` back toward the rectangle on
/// each axis where `p` lies outside it, doubled.
pub fn boundary_force(p: Vec2, bounds: &Bounds, max_speed: i64) -> (r: Vec2)
    requires
        0 <= max_speed <= COORD_LIMIT,
    ensures
        r@ == boundary_spec(p@, *bounds, max_speed as int),
        abs(r.x as int) <= 2 * max_speed,
        abs(r.y as int) <= 2 * max_speed,
{
    let mut x: i64 = 0;
    if p.x < bounds.min_x {
        x = x + max_speed;
    }
    if p.x > bounds.max_x {
        x = x - max_speed;
    }
    let mut y: i64 = 0;
    if p.y < bounds.min_y {
        y = y + max_speed;
    }
    if p.y > bounds.max_y {
        y = y - max_speed;
    }
    Vec2 { x: BORDER_FACTOR * x, y: BORDER_FACTOR * y }
}

} // verus!

//! A flock of boids steering by alignment, cohesion and separation, with a
//! player-controlled agent that the flock gathers round, over fixed-point
//! integer vectors.
//!
//! Lengths are counted in `UNIT`ths of a world unit, time in microseconds
//! and tuning weights in thousandths.
//!
//! - `vector`: the vector type, rounded-up square roots, rescaling and
//!   length limits.
//! - `boid`: agent records, settings and the boundary guard.
//! - `flock`: the neighbour scan and the steering forces, computed from one
//!   snapshot of the flock.
//! - `motion`: the integrator that moves agents and holds their speed caps.
//! - `player`: the player's steering from directional input.
//! - `sim`: one tick, player steering then flocking then motion.
//! - `spawn`: random starting positions and velocities.
//! - `trail`: position histories drawn as strips behind the agents.

pub mod boid;
pub mod flock;
pub mod motion;
pub mod player;
pub mod sim;
pub mod spawn;
pub mod trail;
pub mod vector;

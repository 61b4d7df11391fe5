//! A verified 2D flocking ("boids") simulation core.
//!
//! A flock of agents moves inside a bordered arena, each agent steered by the
//! classic separation / alignment / cohesion rules, by a soft push away from
//! the arena borders, and by repulsion from a pointer.  All state is held in
//! fixed-point integer coordinates (`vec2::SCALE` counts per simulation unit),
//! so every step of the simulation is exact and verified: velocities never
//! exceed the configured maximum speed, the applied steering force never
//! exceeds the configured maximum force, and one update is a pure function of
//! the previous frame's snapshot.
//!
//! Rendering, the animation loop and pointer-device handling are the host's
//! business; the library only computes states and emits plain vertex
//! coordinates.

pub mod agent;
pub mod draw;
pub mod flock;
pub mod params;
pub mod rng;
pub mod vec2;

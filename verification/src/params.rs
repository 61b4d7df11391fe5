//! Simulation-wide tunables and their machine bounds.
//!
//! All magnitudes are fixed-point coordinates (`vec2::SCALE` counts per
//! simulation unit); velocities are coords per second, forces coords per
//! second squared.  The bounds below are what keeps every arithmetic step of
//! the simulation inside `i64`.

use vstd::prelude::*;

verus! {

/// Upper bound for any tunable magnitude (speeds, forces, radii), in coords.
pub const PARAM_MAX: i64 = 4_000_000;

/// Upper bound for a rule weight.
pub const WEIGHT_MAX: i64 = 1024;

/// Hard machine bound on an agent coordinate; positions saturate here.
pub const POS_LIMIT: i64 = 1_000_000_000;

/// Largest arena side length accepted.
pub const ARENA_MAX: i64 = 500_000_000;

/// Largest agent count accepted.
pub const COUNT_MAX: usize = 10_000;

/// Largest frame time accepted, in milliseconds.
pub const DT_MAX: i64 = 60_000;

/// Milliseconds per second: frame times arrive in ms, rates are per second.
pub const MS_PER_S: i64 = 1000;

/// Numerator scale for the inverse-distance rules (separation, pointer):
/// a neighbor at distance `d` pushes with magnitude about
/// `INV_DIST_SCALE / d` per coordinate of offset.
pub const INV_DIST_SCALE: i64 = 1_000_000;

/// The per-rule tuning of a flock.
#[derive(Clone, Copy, PartialEq, Eq, Structural, Debug)]
pub struct Params {
    /// Velocity magnitude cap, coords per second.
    pub max_speed: i64,
    /// Applied steering force cap, coords per second squared.
    pub max_force: i64,
    /// Perception radius: another agent closer than this is a neighbor.
    pub perception: i64,
    /// "Too close" distance for the separation rule.
    pub sep_dist: i64,
    /// Pointer repulsion acts strictly inside this radius.
    pub pointer_radius: i64,
    /// Weight of the separation rule.
    pub w_sep: i64,
    /// Weight of the alignment rule.
    pub w_align: i64,
    /// Weight of the cohesion rule.
    pub w_cohesion: i64,
    /// Weight of the border-avoidance rule.
    pub w_border: i64,
    /// Weight of the pointer-repulsion rule.
    pub w_pointer: i64,
}

impl Params {
    /// Every tunable inside the machine bounds that keep the step exact.
    pub open spec fn valid(self) -> bool {
        &&& 2 <= self.max_speed <= PARAM_MAX
        &&& 0 < self.max_force <= PARAM_MAX
        &&& 0 < self.perception <= PARAM_MAX
        &&& 0 < self.sep_dist <= PARAM_MAX
        &&& 0 <= self.pointer_radius <= PARAM_MAX
        &&& 0 <= self.w_sep <= WEIGHT_MAX
        &&& 0 <= self.w_align <= WEIGHT_MAX
        &&& 0 <= self.w_cohesion <= WEIGHT_MAX
        &&& 0 <= self.w_border <= WEIGHT_MAX
        &&& 0 <= self.w_pointer <= WEIGHT_MAX
    }
}

/// The default tuning: a 1000-unit arena with a 50-unit border, agents at up
/// to 200 units/s, strong separation and border push, milder alignment and
/// cohesion, and a pointer that repels within 150 units.
pub open spec fn default_params() -> Params {
    Params {
        max_speed: 200_000,
        max_force: 2_000_000,
        perception: 100_000,
        sep_dist: 30_000,
        pointer_radius: 150_000,
        w_sep: 40,
        w_align: 10,
        w_cohesion: 8,
        w_border: 40,
        w_pointer: 40,
    }
}

impl Default for Params {
    /// The default tuning; see `default_params`.
    fn default() -> (r: Params)
        ensures
            r == default_params(),
            r.valid(),
    {
        Params {
            max_speed: 200_000,
            max_force: 2_000_000,
            perception: 100_000,
            sep_dist: 30_000,
            pointer_radius: 150_000,
            w_sep: 40,
            w_align: 10,
            w_cohesion: 8,
            w_border: 40,
            w_pointer: 40,
        }
    }
}

} // verus!

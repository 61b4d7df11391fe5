//! A single boid: its position and velocity, and what it means for one to be
//! well formed against a tuning.

use vstd::prelude::*;
use crate::vec2::{Vec2, norm_sq};
use crate::params::{Params, POS_LIMIT};

verus! {

/// One simulated agent.  Created in a batch when the flock is constructed,
/// mutated in place by every simulation step, never individually removed.
#[derive(Clone, Copy, PartialEq, Eq, Structural, Debug)]
pub struct Agent {
    /// Position, in fixed-point simulation coordinates.
    pub pos: Vec2,
    /// Velocity, in coords per second; also the rendered heading.
    pub vel: Vec2,
}

impl Agent {
    /// Position within the machine bound and speed at most `p.max_speed`.
    pub open spec fn wf(self, p: Params) -> bool {
        &&& -POS_LIMIT <= self.pos.x <= POS_LIMIT
        &&& -POS_LIMIT <= self.pos.y <= POS_LIMIT
        &&& norm_sq(self.vel@) <= (p.max_speed as int) * (p.max_speed as int)
        &&& -p.max_speed <= self.vel.x <= p.max_speed
        &&& -p.max_speed <= self.vel.y <= p.max_speed
    }

    pub fn new(pos: Vec2, vel: Vec2) -> (r: Agent)
        ensures
            r.pos == pos,
            r.vel == vel,
    {
        Agent { pos, vel }
    }
}

} // verus!

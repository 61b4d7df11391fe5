//! The flock: agent collection, construction, and the per-frame simulation
//! step.
//!
//! One update is two phases: every agent's steering force is computed against
//! the settled previous-frame snapshot, then all agents are integrated; the
//! result is a pure function of the snapshot and the frame context, which the
//! contracts below pin exactly.
//!
//! The neighbor query is a brute-force scan per agent, O(n²) per frame over
//! the whole flock: a deliberate simplicity tradeoff at this scale (around a
//! hundred agents).  A spatial index would have to preserve the semantics of
//! `is_neighbor` exactly: strictly within the perception radius, self
//! excluded.

use vstd::prelude::*;
use crate::vec2::{
    Vec2, norm_sq, v_add, v_sub, v_scale, v_sdiv, sdiv, clamp_i, iabs, limit_spec, sdiv_e,
    clamp_e, lemma_sq_le, lemma_sdiv_le, lemma_limit_norm,
};
use crate::params::{
    Params, PARAM_MAX, POS_LIMIT, ARENA_MAX, COUNT_MAX, DT_MAX, MS_PER_S, INV_DIST_SCALE,
    default_params,
};
use crate::agent::Agent;
use crate::rng::{Rng, lcg_next, rng_after};
use crate::draw::{agent_triangle, tri_tip, tri_left, tri_right};

verus! {

/// Why the flock refused to be constructed.
#[derive(Clone, Copy, PartialEq, Eq, Structural, Debug)]
pub enum ConstructionError {
    /// The agent count was zero, or above `COUNT_MAX`.
    BadCount,
    /// An arena dimension was non-positive, or above `ARENA_MAX`.
    BadArena,
    /// A supplied agent state was out of range for the tuning.
    BadAgent,
}

/// The per-frame context handed in by the host.
#[derive(Clone, Copy, PartialEq, Eq, Structural, Debug)]
pub struct Frame {
    /// Elapsed time since the previous update, in milliseconds.
    pub dt_ms: i64,
    /// Arena extent (width, height), in coords.
    pub arena: Vec2,
    /// Border thickness, in coords.
    pub border: i64,
    /// Pointer position, in simulation coords.
    pub pointer: Vec2,
}

pub open spec fn frame_of(dt_ms: i64, arena: Vec2, border: i64, pointer: Vec2) -> Frame {
    Frame { dt_ms, arena, border, pointer }
}

impl Frame {
    pub open spec fn valid(self) -> bool {
        &&& 0 <= self.dt_ms <= DT_MAX
        &&& 0 < self.arena.x <= ARENA_MAX
        &&& 0 < self.arena.y <= ARENA_MAX
        &&& 0 <= self.border <= PARAM_MAX
        &&& -POS_LIMIT <= self.pointer.x <= POS_LIMIT
        &&& -POS_LIMIT <= self.pointer.y <= POS_LIMIT
    }
}

/// Squared Euclidean distance between two points.
pub open spec fn dist_sq(a: (int, int), b: (int, int)) -> int {
    norm_sq(v_sub(a, b))
}

/// `j` is a neighbor of `i`: another agent strictly within the perception
/// radius `r`.
pub open spec fn is_neighbor(s: Seq<Agent>, i: int, j: int, r: int) -> bool {
    &&& 0 <= j < s.len()
    &&& j != i
    &&& dist_sq(s[i].pos@, s[j].pos@) < r * r
}

/// `j` crowds `i`: strictly within the "too close" distance `d`, and not
/// exactly coincident (a coincident pair gives no direction to push along,
/// and is recovered as a zero contribution rather than a division by zero).
pub open spec fn is_crowding(s: Seq<Agent>, i: int, j: int, d: int) -> bool {
    &&& 0 <= j < s.len()
    &&& j != i
    &&& 0 < dist_sq(s[i].pos@, s[j].pos@) < d * d
}

/// Push away from one crowding neighbor, weighted inversely by distance:
/// the offset `a - b` scaled by `INV_DIST_SCALE / dist²`.
pub open spec fn sep_contrib(a: (int, int), b: (int, int)) -> (int, int) {
    v_sdiv(v_scale(v_sub(a, b), INV_DIST_SCALE as int), dist_sq(a, b))
}

/// Sum of separation contributions from crowding neighbors among the first
/// `n` agents, with their count: `(sum_x, sum_y, count)`.
pub open spec fn sep_sum(s: Seq<Agent>, i: int, n: int, d: int) -> (int, int, int)
    decreases n,
{
    if n <= 0 {
        (0, 0, 0)
    } else {
        let prev = sep_sum(s, i, n - 1, d);
        if is_crowding(s, i, n - 1, d) {
            let c = sep_contrib(s[i].pos@, s[n - 1].pos@);
            (prev.0 + c.0, prev.1 + c.1, prev.2 + 1)
        } else {
            prev
        }
    }
}

/// Sums over the neighbors among the first `n` agents:
/// `(sum_pos_x, sum_pos_y, sum_vel_x, sum_vel_y, count)`.
pub open spec fn ngh_sum(s: Seq<Agent>, i: int, n: int, r: int) -> (int, int, int, int, int)
    decreases n,
{
    if n <= 0 {
        (0, 0, 0, 0, 0)
    } else {
        let prev = ngh_sum(s, i, n - 1, r);
        if is_neighbor(s, i, n - 1, r) {
            let a = s[n - 1];
            (prev.0 + a.pos.x, prev.1 + a.pos.y, prev.2 + a.vel.x, prev.3 + a.vel.y, prev.4 + 1)
        } else {
            prev
        }
    }
}

/// Separation: the average push away from crowding neighbors.
pub open spec fn sep_steer(s: Seq<Agent>, i: int, p: Params) -> (int, int) {
    let t = sep_sum(s, i, s.len() as int, p.sep_dist as int);
    if t.2 == 0 {
        (0, 0)
    } else {
        (sdiv(t.0, t.2), sdiv(t.1, t.2))
    }
}

/// Alignment: steer toward the neighbors' average velocity.
pub open spec fn align_steer(s: Seq<Agent>, i: int, p: Params) -> (int, int) {
    let t = ngh_sum(s, i, s.len() as int, p.perception as int);
    if t.4 == 0 {
        (0, 0)
    } else {
        (sdiv(t.2, t.4) - s[i].vel.x, sdiv(t.3, t.4) - s[i].vel.y)
    }
}

/// Cohesion: steer toward the neighbors' centroid.
pub open spec fn cohesion_steer(s: Seq<Agent>, i: int, p: Params) -> (int, int) {
    let t = ngh_sum(s, i, s.len() as int, p.perception as int);
    if t.4 == 0 {
        (0, 0)
    } else {
        (sdiv(t.0, t.4) - s[i].pos.x, sdiv(t.1, t.4) - s[i].pos.y)
    }
}

/// Inward push on one axis: zero in the interior, growing linearly with the
/// penetration once within `border` of either edge (or beyond it).
pub open spec fn border_steer_axis(x: int, extent: int, border: int) -> int {
    if x < border {
        border - x
    } else if x > extent - border {
        (extent - border) - x
    } else {
        0
    }
}

pub open spec fn border_steer(pos: (int, int), arena: (int, int), border: int) -> (int, int) {
    (border_steer_axis(pos.0, arena.0, border), border_steer_axis(pos.1, arena.1, border))
}

/// Pointer repulsion: away from the pointer, fading with distance, zero at or
/// beyond `radius` (and zero exactly on the pointer, where there is no
/// direction).
pub open spec fn pointer_steer(pos: (int, int), ptr: (int, int), radius: int) -> (int, int) {
    let d2 = dist_sq(pos, ptr);
    if 0 < d2 < radius * radius {
        v_sdiv(v_scale(v_sub(pos, ptr), INV_DIST_SCALE as int), d2)
    } else {
        (0, 0)
    }
}

/// The weighted sum of all rule contributions, before clamping.
pub open spec fn raw_force(s: Seq<Agent>, i: int, p: Params, f: Frame) -> (int, int) {
    let a = v_scale(sep_steer(s, i, p), p.w_sep as int);
    let b = v_scale(align_steer(s, i, p), p.w_align as int);
    let c = v_scale(cohesion_steer(s, i, p), p.w_cohesion as int);
    let d = v_scale(border_steer(s[i].pos@, f.arena@, f.border as int), p.w_border as int);
    let e = v_scale(
        pointer_steer(s[i].pos@, f.pointer@, p.pointer_radius as int),
        p.w_pointer as int,
    );
    v_add(v_add(v_add(v_add(a, b), c), d), e)
}

/// The force actually applied: the raw rule sum clamped to `max_force`.
pub open spec fn applied_force(s: Seq<Agent>, i: int, p: Params, f: Frame) -> (int, int) {
    limit_spec(raw_force(s, i, p, f), p.max_force as int)
}

/// The agent's velocity after one step: the applied force integrated over
/// `dt` and the result clamped to `max_speed`.
pub open spec fn step_vel(s: Seq<Agent>, i: int, p: Params, f: Frame) -> (int, int) {
    let acc = applied_force(s, i, p, f);
    let pre = v_add(s[i].vel@, v_sdiv(v_scale(acc, f.dt_ms as int), MS_PER_S as int));
    limit_spec(pre, p.max_speed as int)
}

/// The agent's position after one step: the new velocity integrated over
/// `dt`, each coordinate saturated at the machine bound `POS_LIMIT`.
pub open spec fn step_pos(s: Seq<Agent>, i: int, p: Params, f: Frame) -> (int, int) {
    let v = step_vel(s, i, p, f);
    let np = v_add(s[i].pos@, v_sdiv(v_scale(v, f.dt_ms as int), MS_PER_S as int));
    (clamp_i(np.0, POS_LIMIT as int), clamp_i(np.1, POS_LIMIT as int))
}

/// Position drawn for agent `i` from the seeded stream: uniform inside the
/// arena.
pub open spec fn seeded_pos(seed: u64, i: int, arena: (int, int)) -> (int, int) {
    let s0 = rng_after(seed, (4 * i) as nat);
    let s1 = lcg_next(s0);
    let s2 = lcg_next(s1);
    ((s1 as int) % arena.0, (s2 as int) % arena.1)
}

/// Velocity drawn for agent `i`: components uniform in
/// `[-max_speed/2, max_speed/2)`, nudged off the origin if both are zero.
pub open spec fn seeded_vel(seed: u64, i: int, ms: int) -> (int, int) {
    let s0 = rng_after(seed, (4 * i) as nat);
    let s3 = lcg_next(lcg_next(lcg_next(s0)));
    let s4 = lcg_next(s3);
    let h2 = ms / 2;
    let vx = (s3 as int) % ms - h2;
    let vy = (s4 as int) % ms - h2;
    if vx == 0 && vy == 0 {
        (h2, vy)
    } else {
        (vx, vy)
    }
}

/// Largest component of an inverse-distance steer (separation, pointer).
pub const STEER_MAX: i64 = PARAM_MAX * INV_DIST_SCALE;

/// Inward border push on one axis.
fn border_push(x: i64, extent: i64, border: i64) -> (r: i64)
    requires
        -POS_LIMIT <= x <= POS_LIMIT,
        0 < extent <= ARENA_MAX,
        0 <= border <= PARAM_MAX,
    ensures
        r == border_steer_axis(x as int, extent as int, border as int),
        -POS_LIMIT - PARAM_MAX <= r <= POS_LIMIT + PARAM_MAX,
{
    if x < border {
        border - x
    } else if x > extent - border {
        (extent - border) - x
    } else {
        0
    }
}

/// One agent's rule outputs against the snapshot:
/// `(separation, alignment, cohesion)`.
fn steers(agents: &Vec<Agent>, i: usize, p: Params) -> (r: (Vec2, Vec2, Vec2))
    requires
        p.valid(),
        agents@.len() <= COUNT_MAX,
        i < agents@.len(),
        forall|k: int| 0 <= k < agents@.len() ==> (#[trigger] agents@[k]).wf(p),
    ensures
        r.0@ == sep_steer(agents@, i as int, p),
        r.1@ == align_steer(agents@, i as int, p),
        r.2@ == cohesion_steer(agents@, i as int, p),
        -STEER_MAX <= r.0.x <= STEER_MAX,
        -STEER_MAX <= r.0.y <= STEER_MAX,
        -2 * PARAM_MAX <= r.1.x <= 2 * PARAM_MAX,
        -2 * PARAM_MAX <= r.1.y <= 2 * PARAM_MAX,
        -2 * POS_LIMIT <= r.2.x <= 2 * POS_LIMIT,
        -2 * POS_LIMIT <= r.2.y <= 2 * POS_LIMIT,
{
    let a_i = agents[i];
    proof {
        assert(p.sep_dist * p.sep_dist <= 16_000_000_000_000) by (nonlinear_arith)
            requires
                0 < p.sep_dist <= 4_000_000,
        ;
        assert(p.perception * p.perception <= 16_000_000_000_000) by (nonlinear_arith)
            requires
                0 < p.perception <= 4_000_000,
        ;
    }
    let sd2: i64 = p.sep_dist * p.sep_dist;
    let pr2: i64 = p.perception * p.perception;
    let n = agents.len();
    let mut ssx: i64 = 0;
    let mut ssy: i64 = 0;
    let mut scnt: i64 = 0;
    let mut spx: i64 = 0;
    let mut spy: i64 = 0;
    let mut svx: i64 = 0;
    let mut svy: i64 = 0;
    let mut ncnt: i64 = 0;
    let mut j: usize = 0;
    while j < n
        invariant
            p.valid(),
            n == agents@.len(),
            n <= COUNT_MAX,
            i < n,
            j <= n,
            a_i == agents@[i as int],
            forall|k: int| 0 <= k < agents@.len() ==> (#[trigger] agents@[k]).wf(p),
            sd2 == p.sep_dist * p.sep_dist,
            pr2 == p.perception * p.perception,
            ssx == sep_sum(agents@, i as int, j as int, p.sep_dist as int).0,
            ssy == sep_sum(agents@, i as int, j as int, p.sep_dist as int).1,
            scnt == sep_sum(agents@, i as int, j as int, p.sep_dist as int).2,
            spx == ngh_sum(agents@, i as int, j as int, p.perception as int).0,
            spy == ngh_sum(agents@, i as int, j as int, p.perception as int).1,
            svx == ngh_sum(agents@, i as int, j as int, p.perception as int).2,
            svy == ngh_sum(agents@, i as int, j as int, p.perception as int).3,
            ncnt == ngh_sum(agents@, i as int, j as int, p.perception as int).4,
            0 <= scnt <= j,
            0 <= ncnt <= j,
            -scnt * STEER_MAX <= ssx <= scnt * STEER_MAX,
            -scnt * STEER_MAX <= ssy <= scnt * STEER_MAX,
            -ncnt * POS_LIMIT <= spx <= ncnt * POS_LIMIT,
            -ncnt * POS_LIMIT <= spy <= ncnt * POS_LIMIT,
            -ncnt * PARAM_MAX <= svx <= ncnt * PARAM_MAX,
            -ncnt * PARAM_MAX <= svy <= ncnt * PARAM_MAX,
        decreases n - j,
    {
        let b = agents[j];
        let dx = a_i.pos.x - b.pos.x;
        let dy = a_i.pos.y - b.pos.y;
        proof {
            assert(dx * dx >= 0 && dy * dy >= 0 && dx * dx + dy * dy
                <= 8_000_000_000_000_000_000) by (nonlinear_arith)
                requires
                    -2_000_000_000 <= dx <= 2_000_000_000,
                    -2_000_000_000 <= dy <= 2_000_000_000,
            ;
        }
        let d2 = dx * dx + dy * dy;
        proof {
            assert(d2 == dist_sq(agents@[i as int].pos@, agents@[j as int].pos@));
        }
        if j != i {
            if d2 > 0 && d2 < sd2 {
                proof {
                    lemma_sq_le(dx as int, p.sep_dist as int);
                    lemma_sq_le(dy as int, p.sep_dist as int);
                }
                let cx = sdiv_e(dx * INV_DIST_SCALE, d2);
                let cy = sdiv_e(dy * INV_DIST_SCALE, d2);
                proof {
                    assert(STEER_MAX == 4_000_000_000_000);
                    assert(iabs((dx * INV_DIST_SCALE) as int) <= STEER_MAX);
                    assert(iabs((dy * INV_DIST_SCALE) as int) <= STEER_MAX);
                    assert(-STEER_MAX <= cx <= STEER_MAX && -STEER_MAX <= cy <= STEER_MAX);
                    assert(scnt * STEER_MAX <= 10_000 * STEER_MAX);
                }
                ssx = ssx + cx;
                ssy = ssy + cy;
                scnt = scnt + 1;
            }
            if d2 < pr2 {
                spx = spx + b.pos.x;
                spy = spy + b.pos.y;
                svx = svx + b.vel.x;
                svy = svy + b.vel.y;
                ncnt = ncnt + 1;
            }
        }
        j = j + 1;
    }
    let sep = if scnt == 0 {
        Vec2 { x: 0, y: 0 }
    } else {
        proof {
            lemma_sdiv_le(ssx as int, scnt as int, STEER_MAX as int);
            lemma_sdiv_le(ssy as int, scnt as int, STEER_MAX as int);
        }
        Vec2 { x: sdiv_e(ssx, scnt), y: sdiv_e(ssy, scnt) }
    };
    let ali = if ncnt == 0 {
        Vec2 { x: 0, y: 0 }
    } else {
        proof {
            lemma_sdiv_le(svx as int, ncnt as int, PARAM_MAX as int);
            lemma_sdiv_le(svy as int, ncnt as int, PARAM_MAX as int);
        }
        Vec2 { x: sdiv_e(svx, ncnt) - a_i.vel.x, y: sdiv_e(svy, ncnt) - a_i.vel.y }
    };
    let coh = if ncnt == 0 {
        Vec2 { x: 0, y: 0 }
    } else {
        proof {
            lemma_sdiv_le(spx as int, ncnt as int, POS_LIMIT as int);
            lemma_sdiv_le(spy as int, ncnt as int, POS_LIMIT as int);
        }
        Vec2 { x: sdiv_e(spx, ncnt) - a_i.pos.x, y: sdiv_e(spy, ncnt) - a_i.pos.y }
    };
    (sep, ali, coh)
}

/// One agent stepped against the snapshot: rules, force clamp, integration,
/// speed clamp, position saturation.
fn step_one(agents: &Vec<Agent>, i: usize, p: Params, fr: Frame) -> (a: Agent)
    requires
        p.valid(),
        fr.valid(),
        agents@.len() <= COUNT_MAX,
        i < agents@.len(),
        forall|k: int| 0 <= k < agents@.len() ==> (#[trigger] agents@[k]).wf(p),
    ensures
        a.pos@ == step_pos(agents@, i as int, p, fr),
        a.vel@ == step_vel(agents@, i as int, p, fr),
        a.wf(p),
{
    let a_i = agents[i];
    let (sep, ali, coh) = steers(agents, i, p);
    let bx = border_push(a_i.pos.x, fr.arena.x, fr.border);
    let by = border_push(a_i.pos.y, fr.arena.y, fr.border);
    proof {
        assert(p.pointer_radius * p.pointer_radius <= 16_000_000_000_000) by (nonlinear_arith)
            requires
                0 <= p.pointer_radius <= 4_000_000,
        ;
    }
    let rad2: i64 = p.pointer_radius * p.pointer_radius;
    let dx = a_i.pos.x - fr.pointer.x;
    let dy = a_i.pos.y - fr.pointer.y;
    proof {
        assert(dx * dx >= 0 && dy * dy >= 0 && dx * dx + dy * dy <= 8_000_000_000_000_000_000)
            by (nonlinear_arith)
            requires
                -2_000_000_000 <= dx <= 2_000_000_000,
                -2_000_000_000 <= dy <= 2_000_000_000,
        ;
    }
    let d2 = dx * dx + dy * dy;
    let mut ptx: i64 = 0;
    let mut pty: i64 = 0;
    if d2 > 0 && d2 < rad2 {
        proof {
            lemma_sq_le(dx as int, p.pointer_radius as int);
            lemma_sq_le(dy as int, p.pointer_radius as int);
        }
        ptx = sdiv_e(dx * INV_DIST_SCALE, d2);
        pty = sdiv_e(dy * INV_DIST_SCALE, d2);
    }
    proof {
        assert(d2 == dist_sq(agents@[i as int].pos@, fr.pointer@));
        assert(iabs(sep.x * p.w_sep) <= 1024 * STEER_MAX && iabs(sep.y * p.w_sep) <= 1024
            * STEER_MAX) by (nonlinear_arith)
            requires
                -STEER_MAX <= sep.x <= STEER_MAX,
                -STEER_MAX <= sep.y <= STEER_MAX,
                0 <= p.w_sep <= 1024,
                STEER_MAX == 4_000_000_000_000,
        ;
        assert(iabs(ali.x * p.w_align) <= 1024 * 2 * PARAM_MAX && iabs(ali.y * p.w_align) <= 1024
            * 2 * PARAM_MAX) by (nonlinear_arith)
            requires
                -2 * PARAM_MAX <= ali.x <= 2 * PARAM_MAX,
                -2 * PARAM_MAX <= ali.y <= 2 * PARAM_MAX,
                0 <= p.w_align <= 1024,
                PARAM_MAX == 4_000_000,
        ;
        assert(iabs(coh.x * p.w_cohesion) <= 1024 * 2 * POS_LIMIT && iabs(coh.y * p.w_cohesion)
            <= 1024 * 2 * POS_LIMIT) by (nonlinear_arith)
            requires
                -2 * POS_LIMIT <= coh.x <= 2 * POS_LIMIT,
                -2 * POS_LIMIT <= coh.y <= 2 * POS_LIMIT,
                0 <= p.w_cohesion <= 1024,
                POS_LIMIT == 1_000_000_000,
        ;
        assert(iabs(bx * p.w_border) <= 1024 * (POS_LIMIT + PARAM_MAX) && iabs(by * p.w_border)
            <= 1024 * (POS_LIMIT + PARAM_MAX)) by (nonlinear_arith)
            requires
                -POS_LIMIT - PARAM_MAX <= bx <= POS_LIMIT + PARAM_MAX,
                -POS_LIMIT - PARAM_MAX <= by <= POS_LIMIT + PARAM_MAX,
                0 <= p.w_border <= 1024,
                POS_LIMIT == 1_000_000_000,
                PARAM_MAX == 4_000_000,
        ;
        assert(iabs(ptx * p.w_pointer) <= 1024 * STEER_MAX && iabs(pty * p.w_pointer) <= 1024
            * STEER_MAX) by (nonlinear_arith)
            requires
                -STEER_MAX <= ptx <= STEER_MAX,
                -STEER_MAX <= pty <= STEER_MAX,
                0 <= p.w_pointer <= 1024,
                STEER_MAX == 4_000_000_000_000,
        ;
    }
    let rx = sep.x * p.w_sep + ali.x * p.w_align + coh.x * p.w_cohesion + bx * p.w_border + ptx
        * p.w_pointer;
    let ry = sep.y * p.w_sep + ali.y * p.w_align + coh.y * p.w_cohesion + by * p.w_border + pty
        * p.w_pointer;
    let raw = Vec2 { x: rx, y: ry };
    proof {
        assert(raw@ == raw_force(agents@, i as int, p, fr));
    }
    let force = raw.limit(p.max_force);
    proof {
        assert(iabs(force.x * fr.dt_ms) <= 240_000_000_000 && iabs(force.y * fr.dt_ms)
            <= 240_000_000_000) by (nonlinear_arith)
            requires
                -4_000_000 <= force.x <= 4_000_000,
                -4_000_000 <= force.y <= 4_000_000,
                0 <= fr.dt_ms <= 60_000,
        ;
    }
    let dvx = sdiv_e(force.x * fr.dt_ms, MS_PER_S);
    let dvy = sdiv_e(force.y * fr.dt_ms, MS_PER_S);
    let pre = Vec2 { x: a_i.vel.x + dvx, y: a_i.vel.y + dvy };
    let vel2 = pre.limit(p.max_speed);
    proof {
        assert(iabs(vel2.x * fr.dt_ms) <= 240_000_000_000 && iabs(vel2.y * fr.dt_ms)
            <= 240_000_000_000) by (nonlinear_arith)
            requires
                -4_000_000 <= vel2.x <= 4_000_000,
                -4_000_000 <= vel2.y <= 4_000_000,
                0 <= fr.dt_ms <= 60_000,
        ;
    }
    let dpx = sdiv_e(vel2.x * fr.dt_ms, MS_PER_S);
    let dpy = sdiv_e(vel2.y * fr.dt_ms, MS_PER_S);
    let npx = clamp_e(a_i.pos.x + dpx, POS_LIMIT);
    let npy = clamp_e(a_i.pos.y + dpy, POS_LIMIT);
    Agent { pos: Vec2 { x: npx, y: npy }, vel: vel2 }
}

proof fn lemma_sep_sum_empty(s: Seq<Agent>, i: int, n: int, d: int)
    requires
        forall|j: int| !is_crowding(s, i, j, d),
    ensures
        sep_sum(s, i, n, d).0 == 0,
        sep_sum(s, i, n, d).1 == 0,
        sep_sum(s, i, n, d).2 == 0,
    decreases n,
{
    if n > 0 {
        lemma_sep_sum_empty(s, i, n - 1, d);
    }
}

proof fn lemma_ngh_sum_empty(s: Seq<Agent>, i: int, n: int, r: int)
    requires
        forall|j: int| !is_neighbor(s, i, j, r),
    ensures
        ngh_sum(s, i, n, r).0 == 0,
        ngh_sum(s, i, n, r).1 == 0,
        ngh_sum(s, i, n, r).2 == 0,
        ngh_sum(s, i, n, r).3 == 0,
        ngh_sum(s, i, n, r).4 == 0,
    decreases n,
{
    if n > 0 {
        lemma_ngh_sum_empty(s, i, n - 1, r);
    }
}

/// Truncating division keeps the dividend's sign (or yields zero).
proof fn lemma_sdiv_sign(a: int, b: int)
    requires
        b >= 1,
    ensures
        a >= 0 ==> sdiv(a, b) >= 0,
        a <= 0 ==> sdiv(a, b) <= 0,
{
    if a >= 0 {
        vstd::arithmetic::div_mod::lemma_div_pos_is_pos(a, b);
    } else {
        vstd::arithmetic::div_mod::lemma_div_pos_is_pos(-a, b);
    }
}

/// One crowding neighbor's separation push points away from that neighbor,
/// component by component.
pub proof fn lemma_sep_contrib_away(a: (int, int), b: (int, int))
    requires
        dist_sq(a, b) >= 1,
    ensures
        a.0 >= b.0 ==> sep_contrib(a, b).0 >= 0,
        a.0 <= b.0 ==> sep_contrib(a, b).0 <= 0,
        a.1 >= b.1 ==> sep_contrib(a, b).1 >= 0,
        a.1 <= b.1 ==> sep_contrib(a, b).1 <= 0,
{
    lemma_sdiv_sign((a.0 - b.0) * INV_DIST_SCALE, dist_sq(a, b));
    lemma_sdiv_sign((a.1 - b.1) * INV_DIST_SCALE, dist_sq(a, b));
}

/// The pointer push points away from the pointer, component by component.
pub proof fn lemma_pointer_steer_away(pos: (int, int), ptr: (int, int), radius: int)
    ensures
        pos.0 >= ptr.0 ==> pointer_steer(pos, ptr, radius).0 >= 0,
        pos.0 <= ptr.0 ==> pointer_steer(pos, ptr, radius).0 <= 0,
        pos.1 >= ptr.1 ==> pointer_steer(pos, ptr, radius).1 >= 0,
        pos.1 <= ptr.1 ==> pointer_steer(pos, ptr, radius).1 <= 0,
{
    let d2 = dist_sq(pos, ptr);
    if 0 < d2 < radius * radius {
        lemma_sdiv_sign((pos.0 - ptr.0) * INV_DIST_SCALE, d2);
        lemma_sdiv_sign((pos.1 - ptr.1) * INV_DIST_SCALE, d2);
    }
}

/// The border rule always points back into the playable region, with
/// magnitude growing with the penetration, and is silent inside it.
pub proof fn lemma_border_inward(x: int, extent: int, border: int)
    ensures
        x < border ==> border_steer_axis(x, extent, border) > 0,
        x > extent - border && x >= border ==> border_steer_axis(x, extent, border) < 0,
        border <= x <= extent - border ==> border_steer_axis(x, extent, border) == 0,
{
}

/// The applied steering force never exceeds `max_force` in magnitude,
/// whatever the raw rule sum came to.
pub proof fn lemma_applied_force_bounded(s: Seq<Agent>, i: int, p: Params, f: Frame)
    requires
        p.valid(),
    ensures
        norm_sq(applied_force(s, i, p, f)) <= (p.max_force as int) * (p.max_force as int),
{
    lemma_limit_norm(raw_force(s, i, p, f), p.max_force as int);
}

/// Determinism: the step is a pure function of the snapshot and the frame.
/// Two flocks in identical states, stepped with identical tuning and frames,
/// land in identical states; there is no hidden dependence on time or any
/// other ambient state.
pub proof fn lemma_step_deterministic(
    s1: Seq<Agent>,
    s2: Seq<Agent>,
    p: Params,
    f: Frame,
    i: int,
)
    requires
        s1 == s2,
    ensures
        step_pos(s1, i, p, f) == step_pos(s2, i, p, f),
        step_vel(s1, i, p, f) == step_vel(s2, i, p, f),
{
}

/// An agent with no neighbor in perception or crowding range, the pointer at
/// or beyond its interaction radius, and its position at least `border` away
/// from every arena edge, picks up zero net acceleration: it keeps its
/// velocity and moves in a straight line, `pos + vel * dt`.
pub proof fn lemma_free_agent(s: Seq<Agent>, i: int, p: Params, f: Frame)
    requires
        p.valid(),
        f.valid(),
        0 <= i < s.len(),
        s[i].wf(p),
        forall|j: int| !is_neighbor(s, i, j, p.perception as int),
        forall|j: int| !is_crowding(s, i, j, p.sep_dist as int),
        dist_sq(s[i].pos@, f.pointer@) >= (p.pointer_radius as int) * (p.pointer_radius as int),
        f.border <= s[i].pos.x <= f.arena.x - f.border,
        f.border <= s[i].pos.y <= f.arena.y - f.border,
    ensures
        step_vel(s, i, p, f) == s[i].vel@,
        step_pos(s, i, p, f) == v_add(
            s[i].pos@,
            v_sdiv(v_scale(s[i].vel@, f.dt_ms as int), MS_PER_S as int),
        ),
{
    lemma_sep_sum_empty(s, i, s.len() as int, p.sep_dist as int);
    lemma_ngh_sum_empty(s, i, s.len() as int, p.perception as int);
    assert(sep_steer(s, i, p) == (0int, 0int));
    assert(align_steer(s, i, p) == (0int, 0int));
    assert(cohesion_steer(s, i, p) == (0int, 0int));
    assert(border_steer(s[i].pos@, f.arena@, f.border as int) == (0int, 0int));
    assert(pointer_steer(s[i].pos@, f.pointer@, p.pointer_radius as int) == (0int, 0int));
    let w = raw_force(s, i, p, f);
    assert(w.0 == 0 && w.1 == 0) by (nonlinear_arith)
        requires
            w == raw_force(s, i, p, f),
            sep_steer(s, i, p) == (0int, 0int),
            align_steer(s, i, p) == (0int, 0int),
            cohesion_steer(s, i, p) == (0int, 0int),
            border_steer(s[i].pos@, f.arena@, f.border as int) == (0int, 0int),
            pointer_steer(s[i].pos@, f.pointer@, p.pointer_radius as int) == (0int, 0int),
    ;
    assert((p.max_force as int) * (p.max_force as int) > 0) by (nonlinear_arith)
        requires
            p.max_force >= 1,
    ;
    assert(applied_force(s, i, p, f) == (0int, 0int));
    let acc = applied_force(s, i, p, f);
    assert(v_scale(acc, f.dt_ms as int) == (0int, 0int)) by (nonlinear_arith)
        requires
            acc == (0int, 0int),
    ;
    assert(sdiv(0, MS_PER_S as int) == 0);
    let pre = v_add(s[i].vel@, v_sdiv(v_scale(acc, f.dt_ms as int), MS_PER_S as int));
    assert(pre == s[i].vel@);
    assert(limit_spec(pre, p.max_speed as int) == pre);
    let v = step_vel(s, i, p, f);
    assert(v == s[i].vel@);
    let np = v_add(s[i].pos@, v_sdiv(v_scale(v, f.dt_ms as int), MS_PER_S as int));
    assert(iabs(s[i].vel.x * f.dt_ms) <= 240_000_000_000 && iabs(s[i].vel.y * f.dt_ms)
        <= 240_000_000_000) by (nonlinear_arith)
        requires
            -4_000_000 <= s[i].vel.x <= 4_000_000,
            -4_000_000 <= s[i].vel.y <= 4_000_000,
            0 <= f.dt_ms <= 60_000,
    ;
    lemma_sdiv_le(s[i].vel.x * f.dt_ms, MS_PER_S as int, 240_000_000);
    lemma_sdiv_le(s[i].vel.y * f.dt_ms, MS_PER_S as int, 240_000_000);
    assert(-POS_LIMIT <= np.0 <= POS_LIMIT && -POS_LIMIT <= np.1 <= POS_LIMIT);
    assert(step_pos(s, i, p, f) == np);
}

pub open spec fn count_ok(count: usize) -> bool {
    1 <= count <= COUNT_MAX
}

pub open spec fn arena_ok(arena: Vec2) -> bool {
    0 < arena.x <= ARENA_MAX && 0 < arena.y <= ARENA_MAX
}

/// The flock: exclusive owner of its agents; they are read and replaced only
/// through `update` and read for rendering through `draw_vertices`.
pub struct Flock {
    agents: Vec<Agent>,
    params: Params,
}

/// What construction promises of the flock it returns.
pub open spec fn seeded_ok(f: Flock, count: usize, arena: Vec2, seed: u64, p: Params) -> bool {
    &&& f.wf()
    &&& f.params_spec() == p
    &&& f.snapshot().len() == count
    &&& forall|i: int|
        0 <= i < count ==> {
            &&& (#[trigger] f.snapshot()[i]).pos@ == seeded_pos(seed, i, arena@)
            &&& f.snapshot()[i].vel@ == seeded_vel(seed, i, p.max_speed as int)
            &&& 0 <= f.snapshot()[i].pos.x < arena.x
            &&& 0 <= f.snapshot()[i].pos.y < arena.y
            &&& norm_sq(f.snapshot()[i].vel@) > 0
        }
}

impl Flock {
    /// The current agents, in rendering order.
    pub closed spec fn snapshot(self) -> Seq<Agent> {
        self.agents@
    }

    pub closed spec fn params_spec(self) -> Params {
        self.params
    }

    /// Valid tuning and every agent well formed against it.
    pub closed spec fn wf(self) -> bool {
        &&& self.params.valid()
        &&& self.agents@.len() <= COUNT_MAX
        &&& forall|i: int|
            0 <= i < self.agents@.len() ==> (#[trigger] self.agents@[i]).wf(self.params)
    }

    pub fn len(&self) -> (n: usize)
        ensures
            n == self.snapshot().len(),
    {
        self.agents.len()
    }

    pub fn agent_at(&self, i: usize) -> (a: Agent)
        requires
            i < self.snapshot().len(),
        ensures
            a == self.snapshot()[i as int],
    {
        self.agents[i]
    }

    pub fn params(&self) -> (p: Params)
        ensures
            p == self.params_spec(),
    {
        self.params
    }

    /// One simulation tick.  Every agent's steering force is computed against
    /// the previous frame's snapshot, then all agents are integrated; the new
    /// state of each agent is exactly `step_pos` / `step_vel` of the old
    /// snapshot, so the step is a pure function of snapshot and frame.  Every
    /// agent's speed stays at or below `max_speed`.
    pub fn update(&mut self, dt_ms: i64, arena: Vec2, border: i64, pointer: Vec2)
        requires
            old(self).wf(),
            0 <= dt_ms <= DT_MAX,
            0 < arena.x <= ARENA_MAX,
            0 < arena.y <= ARENA_MAX,
            0 <= border <= PARAM_MAX,
            -POS_LIMIT <= pointer.x <= POS_LIMIT,
            -POS_LIMIT <= pointer.y <= POS_LIMIT,
        ensures
            final(self).wf(),
            final(self).params_spec() == old(self).params_spec(),
            final(self).snapshot().len() == old(self).snapshot().len(),
            forall|i: int|
                0 <= i < old(self).snapshot().len() ==> {
                    &&& (#[trigger] final(self).snapshot()[i]).pos@ == step_pos(
                        old(self).snapshot(),
                        i,
                        old(self).params_spec(),
                        frame_of(dt_ms, arena, border, pointer),
                    )
                    &&& final(self).snapshot()[i].vel@ == step_vel(
                        old(self).snapshot(),
                        i,
                        old(self).params_spec(),
                        frame_of(dt_ms, arena, border, pointer),
                    )
                },
            forall|i: int|
                0 <= i < final(self).snapshot().len() ==> norm_sq(
                    (#[trigger] final(self).snapshot()[i]).vel@,
                ) <= (old(self).params_spec().max_speed as int) * (
                old(self).params_spec().max_speed as int),
    {
        let fr = Frame { dt_ms, arena, border, pointer };
        let n = self.agents.len();
        let mut out: Vec<Agent> = Vec::new();
        let mut i: usize = 0;
        while i < n
            invariant
                *self == *old(self),
                self.wf(),
                fr == (frame_of(dt_ms, arena, border, pointer)),
                fr.valid(),
                n == self.agents@.len(),
                i <= n,
                out@.len() == i,
                forall|k: int|
                    0 <= k < i ==> {
                        &&& (#[trigger] out@[k]).pos@ == step_pos(self.agents@, k, self.params, fr)
                        &&& out@[k].vel@ == step_vel(self.agents@, k, self.params, fr)
                        &&& out@[k].wf(self.params)
                    },
            decreases n - i,
        {
            let a = step_one(&self.agents, i, self.params, fr);
            out.push(a);
            i = i + 1;
        }
        self.agents = out;
    }

    /// The triangle vertices of every agent, three per agent in rendering
    /// order, each triangle `size` long and oriented along its agent's
    /// velocity.  A pure read: the flock is not changed.
    pub fn draw_vertices(&self, size: i64) -> (r: Vec<Vec2>)
        requires
            self.wf(),
            0 < size <= PARAM_MAX,
        ensures
            r@.len() == 3 * self.snapshot().len(),
            forall|i: int|
                0 <= i < self.snapshot().len() ==> {
                    &&& r@[3 * i]@ == tri_tip(#[trigger] self.snapshot()[i], size as int)
                    &&& r@[3 * i + 1]@ == tri_left(self.snapshot()[i], size as int)
                    &&& r@[3 * i + 2]@ == tri_right(self.snapshot()[i], size as int)
                },
    {
        let n = self.agents.len();
        let mut out: Vec<Vec2> = Vec::new();
        let mut i: usize = 0;
        while i < n
            invariant
                self.wf(),
                0 < size <= PARAM_MAX,
                n == self.agents@.len(),
                i <= n,
                out@.len() == 3 * i,
                forall|k: int|
                    0 <= k < i ==> {
                        &&& out@[3 * k]@ == tri_tip(#[trigger] self.agents@[k], size as int)
                        &&& out@[3 * k + 1]@ == tri_left(self.agents@[k], size as int)
                        &&& out@[3 * k + 2]@ == tri_right(self.agents@[k], size as int)
                    },
            decreases n - i,
        {
            let a = self.agents[i];
            let (tip, left, right) = agent_triangle(a, size);
            out.push(tip);
            out.push(left);
            out.push(right);
            i = i + 1;
        }
        out
    }

    /// Build a flock with the default tuning; see `with_params`.
    pub fn new(count: usize, arena: Vec2, seed: u64) -> (r: Result<Flock, ConstructionError>)
        ensures
            match r {
                Ok(f) => count_ok(count) && arena_ok(arena) && seeded_ok(
                    f,
                    count,
                    arena,
                    seed,
                    default_params(),
                ),
                Err(ConstructionError::BadCount) => !count_ok(count),
                Err(ConstructionError::BadArena) => count_ok(count) && !arena_ok(arena),
                Err(ConstructionError::BadAgent) => false,
            },
    {
        Flock::with_params(count, arena, seed, Params::default())
    }

    /// Build a flock from explicit agent states, for reproducible scenarios.
    /// Succeeds if and only if the count is in range and every agent is well
    /// formed against the tuning.
    pub fn from_agents(agents: Vec<Agent>, p: Params) -> (r: Result<Flock, ConstructionError>)
        requires
            p.valid(),
        ensures
            match r {
                Ok(f) => {
                    &&& 1 <= agents@.len() <= COUNT_MAX
                    &&& forall|i: int| 0 <= i < agents@.len() ==> (#[trigger] agents@[i]).wf(p)
                    &&& f.wf()
                    &&& f.params_spec() == p
                    &&& f.snapshot() == agents@
                },
                Err(ConstructionError::BadCount) => !(1 <= agents@.len() <= COUNT_MAX),
                Err(ConstructionError::BadAgent) => {
                    &&& 1 <= agents@.len() <= COUNT_MAX
                    &&& !(forall|i: int|
                        0 <= i < agents@.len() ==> (#[trigger] agents@[i]).wf(p))
                },
                Err(ConstructionError::BadArena) => false,
            },
    {
        let n = agents.len();
        if n == 0 || n > COUNT_MAX {
            return Err(ConstructionError::BadCount);
        }
        proof {
            assert(p.max_speed * p.max_speed <= 16_000_000_000_000) by (nonlinear_arith)
                requires
                    0 < p.max_speed <= 4_000_000,
            ;
        }
        let ms2: i64 = p.max_speed * p.max_speed;
        let mut i: usize = 0;
        while i < n
            invariant
                p.valid(),
                n == agents@.len(),
                1 <= n <= COUNT_MAX,
                i <= n,
                ms2 == p.max_speed * p.max_speed,
                forall|k: int| 0 <= k < i ==> (#[trigger] agents@[k]).wf(p),
            decreases n - i,
        {
            let a = agents[i];
            let in_box = -POS_LIMIT <= a.pos.x && a.pos.x <= POS_LIMIT && -POS_LIMIT <= a.pos.y
                && a.pos.y <= POS_LIMIT;
            let vel_comps = -p.max_speed <= a.vel.x && a.vel.x <= p.max_speed && -p.max_speed
                <= a.vel.y && a.vel.y <= p.max_speed;
            if !in_box || !vel_comps {
                proof {
                    assert(!agents@[i as int].wf(p));
                }
                return Err(ConstructionError::BadAgent);
            }
            let ns = a.vel.norm_sq_i();
            if ns > ms2 {
                proof {
                    assert(!agents@[i as int].wf(p));
                }
                return Err(ConstructionError::BadAgent);
            }
            i = i + 1;
        }
        Ok(Flock { agents, params: p })
    }

    /// Build a flock of `count` agents with randomized positions inside the
    /// arena and randomized non-zero velocities bounded by `max_speed`, drawn
    /// from the seeded stream.  Fails if and only if the count or an arena
    /// dimension is out of range.
    pub fn with_params(count: usize, arena: Vec2, seed: u64, p: Params) -> (r: Result<
        Flock,
        ConstructionError,
    >)
        requires
            p.valid(),
        ensures
            match r {
                Ok(f) => count_ok(count) && arena_ok(arena) && seeded_ok(f, count, arena, seed, p),
                Err(ConstructionError::BadCount) => !count_ok(count),
                Err(ConstructionError::BadArena) => count_ok(count) && !arena_ok(arena),
                Err(ConstructionError::BadAgent) => false,
            },
    {
        if count == 0 || count > COUNT_MAX {
            return Err(ConstructionError::BadCount);
        }
        if arena.x <= 0 || arena.x > ARENA_MAX || arena.y <= 0 || arena.y > ARENA_MAX {
            return Err(ConstructionError::BadArena);
        }
        let h2: i64 = sdiv_e(p.max_speed, 2);
        let mut rng = Rng::seeded(seed);
        let mut agents: Vec<Agent> = Vec::new();
        let mut i: usize = 0;
        while i < count
            invariant
                i <= count,
                count <= COUNT_MAX,
                p.valid(),
                0 < arena.x <= ARENA_MAX,
                0 < arena.y <= ARENA_MAX,
                h2 == (p.max_speed as int) / 2,
                1 <= h2 <= p.max_speed,
                agents@.len() == i,
                rng.state == rng_after(seed, (4 * i) as nat),
                forall|k: int|
                    0 <= k < i ==> {
                        &&& (#[trigger] agents@[k]).pos@ == seeded_pos(seed, k, arena@)
                        &&& agents@[k].vel@ == seeded_vel(seed, k, p.max_speed as int)
                        &&& 0 <= agents@[k].pos.x < arena.x
                        &&& 0 <= agents@[k].pos.y < arena.y
                        &&& norm_sq(agents@[k].vel@) > 0
                        &&& agents@[k].wf(p)
                    },
            decreases count - i,
        {
            let ghost s0 = rng.state;
            let px = rng.below(arena.x as u64) as i64;
            let py = rng.below(arena.y as u64) as i64;
            let vxr = rng.below(p.max_speed as u64) as i64;
            let vyr = rng.below(p.max_speed as u64) as i64;
            proof {
                assert(rng_after(seed, (4 * i + 1) as nat) == lcg_next(s0));
                assert(rng_after(seed, (4 * i + 2) as nat) == lcg_next(lcg_next(s0)));
                assert(rng_after(seed, (4 * i + 3) as nat) == lcg_next(lcg_next(lcg_next(s0))));
                assert(rng_after(seed, (4 * i + 4) as nat) == lcg_next(
                    lcg_next(lcg_next(lcg_next(s0))),
                ));
                assert((4 * (i + 1)) as nat == (4 * i + 4) as nat);
            }
            let mut vx = vxr - h2;
            let vy = vyr - h2;
            if vx == 0 && vy == 0 {
                vx = h2;
            }
            proof {
                assert(2 * h2 <= p.max_speed && p.max_speed <= 2 * h2 + 1);
                assert(-h2 <= vx <= h2 && -h2 <= vy <= h2);
                assert(vx != 0 || vy != 0);
                assert(vx * vx + vy * vy <= (p.max_speed as int) * (p.max_speed as int))
                    by (nonlinear_arith)
                    requires
                        1 <= h2,
                        2 * h2 <= p.max_speed,
                        -h2 <= vx <= h2,
                        -h2 <= vy <= h2,
                ;
                assert(vx * vx + vy * vy > 0) by (nonlinear_arith)
                    requires
                        vx != 0 || vy != 0,
                ;
            }
            let a = Agent { pos: Vec2 { x: px, y: py }, vel: Vec2 { x: vx, y: vy } };
            agents.push(a);
            i = i + 1;
        }
        Ok(Flock { agents, params: p })
    }
}

} // verus!

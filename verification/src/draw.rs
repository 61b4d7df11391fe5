//! Vertex geometry for rendering: one triangle per agent, oriented along its
//! velocity, plus the arena's border slabs and inner outline.  Everything here
//! is a pure read of the simulation state; submitting the vertices to a
//! renderer is the host's business.

use vstd::prelude::*;
use crate::vec2::{Vec2, norm_sq, v_add, v_sub, v_scale, v_sdiv, iabs, unit_spec, sdiv_e, SCALE};
use crate::params::{PARAM_MAX, POS_LIMIT};
use crate::agent::Agent;

verus! {

/// The unit heading of a velocity, scaled to length (at most) `SCALE`; a zero
/// velocity has no direction and falls back to the positive x axis.
pub open spec fn heading(v: (int, int)) -> (int, int) {
    if norm_sq(v) == 0 {
        (SCALE as int, 0)
    } else {
        unit_spec(v)
    }
}

/// Tip of the agent's triangle: `size` ahead of the position.
pub open spec fn tri_tip(a: Agent, size: int) -> (int, int) {
    v_add(a.pos@, v_sdiv(v_scale(heading(a.vel@), size), SCALE as int))
}

/// Rear-left corner: half a `size` behind and to the left.
pub open spec fn tri_left(a: Agent, size: int) -> (int, int) {
    let h = heading(a.vel@);
    v_add(a.pos@, v_sdiv(v_scale(v_sub((-h.1, h.0), h), size / 2), SCALE as int))
}

/// Rear-right corner: half a `size` behind and to the right.
pub open spec fn tri_right(a: Agent, size: int) -> (int, int) {
    let h = heading(a.vel@);
    v_add(a.pos@, v_sdiv(v_scale(v_sub((h.1, -h.0), h), size / 2), SCALE as int))
}

/// The heading of a velocity, as executable code.
pub fn heading_of(v: Vec2) -> (r: Vec2)
    requires
        -PARAM_MAX <= v.x <= PARAM_MAX,
        -PARAM_MAX <= v.y <= PARAM_MAX,
    ensures
        r@ == heading(v@),
        -SCALE <= r.x <= SCALE,
        -SCALE <= r.y <= SCALE,
{
    let ns = v.norm_sq_i();
    if ns == 0 {
        Vec2 { x: SCALE, y: 0 }
    } else {
        v.normalized()
    }
}

/// The three vertices of one agent's triangle: `(tip, rear left, rear right)`.
pub fn agent_triangle(a: Agent, size: i64) -> (r: (Vec2, Vec2, Vec2))
    requires
        -POS_LIMIT <= a.pos.x <= POS_LIMIT,
        -POS_LIMIT <= a.pos.y <= POS_LIMIT,
        -PARAM_MAX <= a.vel.x <= PARAM_MAX,
        -PARAM_MAX <= a.vel.y <= PARAM_MAX,
        0 < size <= PARAM_MAX,
    ensures
        r.0@ == tri_tip(a, size as int),
        r.1@ == tri_left(a, size as int),
        r.2@ == tri_right(a, size as int),
{
    let h = heading_of(a.vel);
    let half = sdiv_e(size, 2);
    proof {
        assert(iabs(h.x * size) <= 4_000_000_000 && iabs(h.y * size) <= 4_000_000_000)
            by (nonlinear_arith)
            requires
                -1000 <= h.x <= 1000,
                -1000 <= h.y <= 1000,
                0 < size <= 4_000_000,
        ;
        assert(iabs((-h.y - h.x) * half) <= 4_000_000_000 && iabs((h.x - h.y) * half)
            <= 4_000_000_000 && iabs((h.y - h.x) * half) <= 4_000_000_000 && iabs(
            (-h.x - h.y) * half,
        ) <= 4_000_000_000) by (nonlinear_arith)
            requires
                -1000 <= h.x <= 1000,
                -1000 <= h.y <= 1000,
                0 <= half <= 2_000_000,
        ;
    }
    let tip = Vec2 {
        x: a.pos.x + sdiv_e(h.x * size, SCALE),
        y: a.pos.y + sdiv_e(h.y * size, SCALE),
    };
    let left = Vec2 {
        x: a.pos.x + sdiv_e((-h.y - h.x) * half, SCALE),
        y: a.pos.y + sdiv_e((h.x - h.y) * half, SCALE),
    };
    let right = Vec2 {
        x: a.pos.x + sdiv_e((h.y - h.x) * half, SCALE),
        y: a.pos.y + sdiv_e((-h.x - h.y) * half, SCALE),
    };
    (tip, left, right)
}

/// Two triangles covering the axis-aligned rectangle with corners
/// `(x0, y0)` and `(x1, y1)`.
pub open spec fn rect_tris(x0: i64, y0: i64, x1: i64, y1: i64) -> Seq<Vec2> {
    seq![
        Vec2 { x: x0, y: y0 },
        Vec2 { x: x1, y: y0 },
        Vec2 { x: x0, y: y1 },
        Vec2 { x: x0, y: y1 },
        Vec2 { x: x1, y: y1 },
        Vec2 { x: x1, y: y0 },
    ]
}

/// The four border slabs of a square arena of side `extent` with border
/// thickness `thick`: left, right, top, bottom.
pub open spec fn border_frame(extent: i64, thick: i64) -> Seq<Vec2> {
    rect_tris(0, 0, thick, extent) + rect_tris((extent - thick) as i64, 0, extent, extent)
        + rect_tris(0, 0, extent, thick) + rect_tris(0, (extent - thick) as i64, extent, extent)
}

/// The corners of the playable region's outline, as a 4-vertex loop.
pub open spec fn outline_frame(extent: i64, thick: i64) -> Seq<Vec2> {
    seq![
        Vec2 { x: thick, y: thick },
        Vec2 { x: (extent - thick) as i64, y: thick },
        Vec2 { x: (extent - thick) as i64, y: (extent - thick) as i64 },
        Vec2 { x: thick, y: (extent - thick) as i64 },
    ]
}

fn push_rect(out: &mut Vec<Vec2>, x0: i64, y0: i64, x1: i64, y1: i64)
    ensures
        final(out)@ == old(out)@ + rect_tris(x0, y0, x1, y1),
{
    out.push(Vec2 { x: x0, y: y0 });
    out.push(Vec2 { x: x1, y: y0 });
    out.push(Vec2 { x: x0, y: y1 });
    out.push(Vec2 { x: x0, y: y1 });
    out.push(Vec2 { x: x1, y: y1 });
    out.push(Vec2 { x: x1, y: y0 });
    proof {
        assert(out@ =~= old(out)@ + rect_tris(x0, y0, x1, y1));
    }
}

/// The 24 vertices of the arena's border slabs.
pub fn border_frame_vertices(extent: i64, thick: i64) -> (r: Vec<Vec2>)
    requires
        0 <= thick <= extent,
    ensures
        r@ == border_frame(extent, thick),
        r@.len() == 24,
{
    let mut out: Vec<Vec2> = Vec::new();
    let inner = extent - thick;
    push_rect(&mut out, 0, 0, thick, extent);
    push_rect(&mut out, inner, 0, extent, extent);
    push_rect(&mut out, 0, 0, extent, thick);
    push_rect(&mut out, 0, inner, extent, extent);
    proof {
        assert(out@ =~= border_frame(extent, thick));
    }
    out
}

/// The 4 vertices of the playable region's outline loop.
pub fn outline_frame_vertices(extent: i64, thick: i64) -> (r: Vec<Vec2>)
    requires
        0 <= thick <= extent,
    ensures
        r@ == outline_frame(extent, thick),
        r@.len() == 4,
{
    let mut out: Vec<Vec2> = Vec::new();
    let inner = extent - thick;
    out.push(Vec2 { x: thick, y: thick });
    out.push(Vec2 { x: inner, y: thick });
    out.push(Vec2 { x: inner, y: inner });
    out.push(Vec2 { x: thick, y: inner });
    proof {
        assert(out@ =~= outline_frame(extent, thick));
    }
    out
}

} // verus!

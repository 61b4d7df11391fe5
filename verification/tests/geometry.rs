use flocking::agent::Agent;
use flocking::draw::{agent_triangle, border_frame_vertices, heading_of, outline_frame_vertices};
use flocking::flock::Flock;
use flocking::rng::Rng;
use flocking::vec2::{clamp_e, isqrt_up_e, sdiv_e, Vec2};

#[test]
fn isqrt_rounds_up() {
    assert_eq!(isqrt_up_e(0), 0);
    assert_eq!(isqrt_up_e(1), 1);
    assert_eq!(isqrt_up_e(2), 2);
    assert_eq!(isqrt_up_e(4), 2);
    assert_eq!(isqrt_up_e(10), 4);
    assert_eq!(isqrt_up_e(10_000_000_000), 100_000);
    assert_eq!(isqrt_up_e(10_000_000_001), 100_001);
}

#[test]
fn sdiv_truncates_toward_zero() {
    assert_eq!(sdiv_e(7, 2), 3);
    assert_eq!(sdiv_e(-7, 2), -3);
    assert_eq!(sdiv_e(0, 5), 0);
    assert_eq!(sdiv_e(-1, 1_000_000), 0);
}

#[test]
fn clamp_saturates_symmetrically() {
    assert_eq!(clamp_e(5, 10), 5);
    assert_eq!(clamp_e(15, 10), 10);
    assert_eq!(clamp_e(-15, 10), -10);
}

#[test]
fn limit_preserves_direction_and_bounds_magnitude() {
    let v = Vec2 { x: 3000, y: 4000 };
    let r = v.limit(1000);
    assert_eq!(r, Vec2 { x: 600, y: 800 });
    // Already short: unchanged.
    let w = Vec2 { x: 30, y: -40 };
    assert_eq!(w.limit(1000), w);
    // Magnitude never exceeds the cap, whatever the input.
    let huge = Vec2 { x: i64::MAX, y: i64::MIN + 1 };
    let h = huge.limit(5000);
    assert!(h.x * h.x + h.y * h.y <= 5000 * 5000);
    assert!(h.x > 0 && h.y < 0, "direction is kept: {:?}", h);
}

#[test]
fn heading_of_zero_velocity_points_along_x() {
    assert_eq!(heading_of(Vec2 { x: 0, y: 0 }), Vec2 { x: 1000, y: 0 });
    assert_eq!(heading_of(Vec2 { x: 100_000, y: 0 }), Vec2 { x: 1000, y: 0 });
    assert_eq!(heading_of(Vec2 { x: 0, y: -70_000 }), Vec2 { x: 0, y: -1000 });
}

#[test]
fn agent_triangle_points_along_velocity() {
    let a = Agent { pos: Vec2 { x: 500_000, y: 500_000 }, vel: Vec2 { x: 100_000, y: 0 } };
    let (tip, left, right) = agent_triangle(a, 10_000);
    assert_eq!(tip, Vec2 { x: 510_000, y: 500_000 });
    assert_eq!(left, Vec2 { x: 495_000, y: 505_000 });
    assert_eq!(right, Vec2 { x: 495_000, y: 495_000 });
}

#[test]
fn draw_emits_three_vertices_per_agent() {
    let f = Flock::new(10, Vec2 { x: 1_000_000, y: 1_000_000 }, 5).unwrap();
    let verts = f.draw_vertices(10_000);
    assert_eq!(verts.len(), 30);
    let a0 = f.agent_at(0);
    let (tip, left, right) = agent_triangle(a0, 10_000);
    assert_eq!(verts[0], tip);
    assert_eq!(verts[1], left);
    assert_eq!(verts[2], right);
}

#[test]
fn border_frame_matches_the_four_slabs() {
    let s: i64 = 1_000_000;
    let t: i64 = 50_000;
    let v = border_frame_vertices(s, t);
    assert_eq!(v.len(), 24);
    // Left slab, two triangles.
    assert_eq!(v[0], Vec2 { x: 0, y: 0 });
    assert_eq!(v[1], Vec2 { x: t, y: 0 });
    assert_eq!(v[2], Vec2 { x: 0, y: s });
    assert_eq!(v[3], Vec2 { x: 0, y: s });
    assert_eq!(v[4], Vec2 { x: t, y: s });
    assert_eq!(v[5], Vec2 { x: t, y: 0 });
    // Right slab starts at the inner edge.
    assert_eq!(v[6], Vec2 { x: s - t, y: 0 });
    // Top and bottom slabs.
    assert_eq!(v[12], Vec2 { x: 0, y: 0 });
    assert_eq!(v[14], Vec2 { x: 0, y: t });
    assert_eq!(v[18], Vec2 { x: 0, y: s - t });
    assert_eq!(v[23], Vec2 { x: s, y: s - t });
}

#[test]
fn outline_frame_is_the_inner_rectangle() {
    let v = outline_frame_vertices(1_000_000, 50_000);
    assert_eq!(v.len(), 4);
    assert_eq!(v[0], Vec2 { x: 50_000, y: 50_000 });
    assert_eq!(v[1], Vec2 { x: 950_000, y: 50_000 });
    assert_eq!(v[2], Vec2 { x: 950_000, y: 950_000 });
    assert_eq!(v[3], Vec2 { x: 50_000, y: 950_000 });
}

#[test]
fn vector_vocabulary_is_exact() {
    let a = Vec2 { x: 3, y: 4 };
    let b = Vec2 { x: -2, y: 5 };
    assert_eq!(a.plus(b), Vec2 { x: 1, y: 9 });
    assert_eq!(a.minus(b), Vec2 { x: 5, y: -1 });
    assert_eq!(a.times(3), Vec2 { x: 9, y: 12 });
    assert_eq!(a.dot(b), 14);
    assert_eq!(a.norm_sq_i(), 25);
    assert_eq!(a.magnitude(), 5);
    // Magnitudes round up: |(10, 11)| = sqrt(221) is between 14 and 15.
    assert_eq!(Vec2 { x: 10, y: 11 }.magnitude(), 15);
    assert_eq!(Vec2 { x: -7, y: 9 }.divided_by(2), Vec2 { x: -3, y: 4 });
    assert_eq!(Vec2 { x: 3000, y: 4000 }.normalized(), Vec2 { x: 600, y: 800 });
    // The zero vector has no direction: normalized without dividing by zero.
    assert_eq!(Vec2 { x: 0, y: 0 }.normalized(), Vec2 { x: 0, y: 0 });
}

#[test]
fn rng_draws_below_the_bound() {
    let mut r = Rng::seeded(12345);
    let mut r2 = Rng::seeded(12345);
    for _ in 0..100 {
        let a = r.below(1000);
        let b = r2.below(1000);
        assert!(a < 1000);
        assert_eq!(a, b);
    }
}

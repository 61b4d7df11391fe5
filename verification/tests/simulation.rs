use flocking::agent::Agent;
use flocking::flock::Flock;
use flocking::params::Params;
use flocking::vec2::Vec2;

const ARENA: Vec2 = Vec2 { x: 1_000_000, y: 1_000_000 };
const BORDER: i64 = 50_000;
const FAR_POINTER: Vec2 = Vec2 { x: -900_000_000, y: -900_000_000 };

fn speed_sq(v: Vec2) -> i64 {
    v.x * v.x + v.y * v.y
}

#[test]
fn speed_never_exceeds_max_speed() {
    let mut f = Flock::new(100, ARENA, 3).unwrap();
    let p = f.params();
    for frame in 0..120 {
        let ptr = Vec2 { x: 10_000 * frame, y: 500_000 };
        f.update(16, ARENA, BORDER, ptr);
        for i in 0..f.len() {
            let a = f.agent_at(i);
            assert!(speed_sq(a.vel) <= p.max_speed * p.max_speed);
        }
    }
}

#[test]
fn applied_force_is_clamped_to_max_force() {
    // Two agents one thousandth of a unit apart: the raw separation force is
    // enormous, far above max_force, but the applied force must be clamped.
    let p = Params::default();
    let agents = vec![
        Agent { pos: Vec2 { x: 500_000, y: 500_000 }, vel: Vec2 { x: 0, y: 0 } },
        Agent { pos: Vec2 { x: 500_001, y: 500_000 }, vel: Vec2 { x: 0, y: 0 } },
    ];
    let mut f = Flock::from_agents(agents, p).unwrap();
    let dt: i64 = 16;
    f.update(dt, ARENA, BORDER, FAR_POINTER);
    // From rest, |new velocity| <= max_force * dt / 1000.
    let cap = p.max_force * dt / 1000;
    for i in 0..2 {
        let v = f.agent_at(i).vel;
        assert!(speed_sq(v) <= cap * cap);
    }
    // The raw x force on agent 0 is about -40_000_000 (separation) and is
    // clamped to exactly -max_force, so the velocity is -max_force * 16/1000.
    assert_eq!(f.agent_at(0).vel, Vec2 { x: -(p.max_force * dt / 1000), y: 0 });
}

#[test]
fn free_agent_moves_in_a_straight_line() {
    // No neighbors, pointer far away, well inside the borders: zero net
    // acceleration, constant velocity, position advances by vel * dt.
    let agents = vec![Agent {
        pos: Vec2 { x: 500_000, y: 400_000 },
        vel: Vec2 { x: 100_000, y: -50_000 },
    }];
    let mut f = Flock::from_agents(agents, Params::default()).unwrap();
    f.update(16, ARENA, BORDER, FAR_POINTER);
    let a = f.agent_at(0);
    assert_eq!(a.vel, Vec2 { x: 100_000, y: -50_000 });
    assert_eq!(a.pos, Vec2 { x: 500_000 + 100_000 * 16 / 1000, y: 400_000 - 50_000 * 16 / 1000 });
    // And again: still straight.
    f.update(20, ARENA, BORDER, FAR_POINTER);
    let b = f.agent_at(0);
    assert_eq!(b.vel, Vec2 { x: 100_000, y: -50_000 });
    assert_eq!(b.pos, Vec2 { x: a.pos.x + 100_000 * 20 / 1000, y: a.pos.y - 50_000 * 20 / 1000 });
}

#[test]
fn update_is_deterministic() {
    let mut f1 = Flock::new(60, ARENA, 11).unwrap();
    let mut f2 = Flock::new(60, ARENA, 11).unwrap();
    let ptr = Vec2 { x: 250_000, y: 750_000 };
    for _ in 0..50 {
        f1.update(17, ARENA, BORDER, ptr);
        f2.update(17, ARENA, BORDER, ptr);
    }
    for i in 0..60 {
        assert_eq!(f1.agent_at(i), f2.agent_at(i));
    }
}

#[test]
fn separation_pushes_agents_apart() {
    // Two agents one unit apart, at rest, nothing else nearby: after one
    // update both velocities point away from each other along the x axis.
    let agents = vec![
        Agent { pos: Vec2 { x: 499_500, y: 500_000 }, vel: Vec2 { x: 0, y: 0 } },
        Agent { pos: Vec2 { x: 500_500, y: 500_000 }, vel: Vec2 { x: 0, y: 0 } },
    ];
    let mut f = Flock::from_agents(agents, Params::default()).unwrap();
    f.update(16, ARENA, BORDER, FAR_POINTER);
    let v0 = f.agent_at(0).vel;
    let v1 = f.agent_at(1).vel;
    assert!(v0.x < 0, "left agent must accelerate leftward, got {:?}", v0);
    assert!(v1.x > 0, "right agent must accelerate rightward, got {:?}", v1);
    assert_eq!(v0.y, 0);
    assert_eq!(v1.y, 0);
    assert_eq!(v0.x, -v1.x);
}

#[test]
fn cohesion_pulls_toward_the_centroid() {
    // Three agents in a triangle, all within perception range, none within
    // crowding range, at rest: each new velocity has a positive component
    // toward the triangle's centroid.
    let pts = [(500_000i64, 500_000i64), (580_000, 500_000), (540_000, 560_000)];
    let agents: Vec<Agent> = pts
        .iter()
        .map(|&(x, y)| Agent { pos: Vec2 { x, y }, vel: Vec2 { x: 0, y: 0 } })
        .collect();
    let mut f = Flock::from_agents(agents, Params::default()).unwrap();
    f.update(16, ARENA, BORDER, FAR_POINTER);
    let cx = (pts[0].0 + pts[1].0 + pts[2].0) / 3;
    let cy = (pts[0].1 + pts[1].1 + pts[2].1) / 3;
    for i in 0..3 {
        let a = f.agent_at(i);
        let to_c = (cx - pts[i].0, cy - pts[i].1);
        let dot = a.vel.x * to_c.0 + a.vel.y * to_c.1;
        assert!(dot > 0, "agent {} must steer toward the centroid, got {:?}", i, a.vel);
    }
}

#[test]
fn pointer_repels_nearby_agents() {
    // An agent at rest with the pointer just to its left inside the pointer
    // radius is pushed to the right.
    let agents = vec![Agent { pos: Vec2 { x: 500_000, y: 500_000 }, vel: Vec2 { x: 0, y: 0 } }];
    let mut f = Flock::from_agents(agents, Params::default()).unwrap();
    let ptr = Vec2 { x: 450_000, y: 500_000 };
    f.update(16, ARENA, BORDER, ptr);
    let v = f.agent_at(0).vel;
    assert!(v.x > 0, "agent must flee the pointer, got {:?}", v);
    assert_eq!(v.y, 0);
    // Exactly: the push is 50_000 * 1_000_000 / 50_000^2 = 20, weighted by
    // 40, integrated over 16 ms: 800 * 16 / 1000 = 12.
    assert_eq!(v.x, 12);
}

#[test]
fn border_pushes_agents_inward() {
    // An agent at rest deep inside the left border margin is pushed right.
    let agents = vec![Agent { pos: Vec2 { x: 10_000, y: 500_000 }, vel: Vec2 { x: 0, y: 0 } }];
    let mut f = Flock::from_agents(agents, Params::default()).unwrap();
    f.update(16, ARENA, BORDER, FAR_POINTER);
    let v = f.agent_at(0).vel;
    assert!(v.x > 0, "agent must be pushed away from the left edge, got {:?}", v);
    assert_eq!(v.y, 0);
    // Exactly: penetration 40_000, weight 40, over 16 ms.
    assert_eq!(v.x, 40_000 * 40 * 16 / 1000);
}

#[test]
fn alignment_matches_neighbor_velocity() {
    // A resting agent with one moving neighbor above it (inside perception,
    // outside crowding range) picks up velocity in the neighbor's direction
    // of motion, plus a cohesion component toward it.
    let agents = vec![
        Agent { pos: Vec2 { x: 500_000, y: 500_000 }, vel: Vec2 { x: 0, y: 0 } },
        Agent { pos: Vec2 { x: 500_000, y: 550_000 }, vel: Vec2 { x: 100_000, y: 0 } },
    ];
    let mut f = Flock::from_agents(agents, Params::default()).unwrap();
    f.update(16, ARENA, BORDER, FAR_POINTER);
    let v = f.agent_at(0).vel;
    assert!(v.x > 0, "agent must align with its neighbor's motion, got {:?}", v);
    assert!(v.y > 0, "agent must also cohere toward its neighbor, got {:?}", v);
    // Exactly: alignment 100_000 * 10, cohesion 50_000 * 8, over 16 ms.
    assert_eq!(v, Vec2 { x: 16_000, y: 6_400 });
}

#[test]
fn zero_dt_changes_nothing() {
    let mut f = Flock::new(20, ARENA, 5).unwrap();
    let before: Vec<Agent> = (0..20).map(|i| f.agent_at(i)).collect();
    f.update(0, ARENA, BORDER, FAR_POINTER);
    for i in 0..20 {
        let a = f.agent_at(i);
        assert_eq!(a.pos, before[i].pos);
        // Velocity may only change by the speed clamp, which is idempotent
        // on well-formed agents, so it is unchanged too.
        assert_eq!(a.vel, before[i].vel);
    }
}

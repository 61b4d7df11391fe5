use flocking::agent::Agent;
use flocking::flock::{ConstructionError, Flock};
use flocking::params::Params;
use flocking::vec2::Vec2;

const ARENA: Vec2 = Vec2 { x: 1_000_000, y: 1_000_000 };

#[test]
fn new_rejects_zero_count() {
    let r = Flock::new(0, ARENA, 1);
    assert!(matches!(r, Err(ConstructionError::BadCount)));
    let r2 = Flock::new(0, Vec2 { x: 5, y: 5 }, 99);
    assert!(matches!(r2, Err(ConstructionError::BadCount)));
}

#[test]
fn new_rejects_empty_arena() {
    let r = Flock::new(100, Vec2 { x: 0, y: 0 }, 1);
    assert!(matches!(r, Err(ConstructionError::BadArena)));
    let r2 = Flock::new(3, Vec2 { x: 1_000_000, y: -5 }, 1);
    assert!(matches!(r2, Err(ConstructionError::BadArena)));
}

#[test]
fn new_seeds_hundred_agents_inside_arena() {
    let f = Flock::new(100, ARENA, 42).unwrap();
    assert_eq!(f.len(), 100);
    let p = f.params();
    for i in 0..100 {
        let a = f.agent_at(i);
        assert!(0 <= a.pos.x && a.pos.x < ARENA.x);
        assert!(0 <= a.pos.y && a.pos.y < ARENA.y);
        let speed_sq = a.vel.x * a.vel.x + a.vel.y * a.vel.y;
        assert!(speed_sq > 0, "initial velocity must be non-zero");
        assert!(speed_sq <= p.max_speed * p.max_speed);
    }
}

#[test]
fn new_is_reproducible_from_seed() {
    let f1 = Flock::new(25, ARENA, 7).unwrap();
    let f2 = Flock::new(25, ARENA, 7).unwrap();
    for i in 0..25 {
        assert_eq!(f1.agent_at(i), f2.agent_at(i));
    }
    let f3 = Flock::new(25, ARENA, 8).unwrap();
    let mut any_diff = false;
    for i in 0..25 {
        if f3.agent_at(i) != f1.agent_at(i) {
            any_diff = true;
        }
    }
    assert!(any_diff, "a different seed should place agents differently");
}

#[test]
fn from_agents_round_trips_states() {
    let agents = vec![
        Agent { pos: Vec2 { x: 10_000, y: 20_000 }, vel: Vec2 { x: 100, y: -200 } },
        Agent { pos: Vec2 { x: 30_000, y: 40_000 }, vel: Vec2 { x: 0, y: 0 } },
    ];
    let f = Flock::from_agents(agents, Params::default()).unwrap();
    assert_eq!(f.len(), 2);
    assert_eq!(f.agent_at(0).pos, Vec2 { x: 10_000, y: 20_000 });
    assert_eq!(f.agent_at(1).vel, Vec2 { x: 0, y: 0 });
}

#[test]
fn from_agents_rejects_empty() {
    let r = Flock::from_agents(Vec::new(), Params::default());
    assert!(matches!(r, Err(ConstructionError::BadCount)));
}

#[test]
fn from_agents_rejects_overspeed_agent() {
    let p = Params::default();
    let agents = vec![Agent {
        pos: Vec2 { x: 0, y: 0 },
        vel: Vec2 { x: p.max_speed, y: p.max_speed },
    }];
    let r = Flock::from_agents(agents, p);
    assert!(matches!(r, Err(ConstructionError::BadAgent)));
}

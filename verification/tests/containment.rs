use flocking::flock::Flock;
use flocking::vec2::Vec2;

// Over a long run with the default tuning, agents settle inside the playable
// region `[border, extent - border]` on both axes: the border rule is a soft
// steering force, but across frames it never lets outward velocity
// accumulate without bound, and the population drifts inside and stays.

const ARENA: Vec2 = Vec2 { x: 1_000_000, y: 1_000_000 };
const BORDER: i64 = 50_000;
const FAR_POINTER: Vec2 = Vec2 { x: -900_000_000, y: -900_000_000 };

fn outside_count(f: &Flock) -> usize {
    let mut n = 0;
    for i in 0..f.len() {
        let p = f.agent_at(i).pos;
        let inside = BORDER <= p.x && p.x <= ARENA.x - BORDER && BORDER <= p.y && p.y
            <= ARENA.y - BORDER;
        if !inside {
            n += 1;
        }
    }
    n
}

#[test]
fn flock_settles_inside_the_playable_region() {
    let mut f = Flock::new(100, ARENA, 2024).unwrap();
    // About ten seconds of simulated time at 60 frames per second.
    for _ in 0..600 {
        f.update(16, ARENA, BORDER, FAR_POINTER);
    }
    let late = outside_count(&f);
    assert!(
        late == 0,
        "after a long run, no agent should remain outside the playable region; {} were",
        late
    );
    // And the flock stays inside from here on.
    for _ in 0..120 {
        f.update(16, ARENA, BORDER, FAR_POINTER);
        assert_eq!(outside_count(&f), 0);
    }
}

#[test]
fn agents_never_run_far_beyond_the_arena() {
    let mut f = Flock::new(100, ARENA, 99).unwrap();
    for _ in 0..600 {
        f.update(16, ARENA, BORDER, FAR_POINTER);
        for i in 0..f.len() {
            let p = f.agent_at(i).pos;
            assert!(-200_000 <= p.x && p.x <= ARENA.x + 200_000, "agent far out: {:?}", p);
            assert!(-200_000 <= p.y && p.y <= ARENA.y + 200_000, "agent far out: {:?}", p);
        }
    }
}

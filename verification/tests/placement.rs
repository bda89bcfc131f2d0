use aleph::particle::{Particle, Vec2};
use aleph::placement::{ball_radius, initial_ball_velocity, place_ball, try_place_ball};
use aleph::placement::{BALL_INITIAL_SPEED, BALL_RADIUS_MAX, BALL_RADIUS_MIN};

fn ball(px: i64, py: i64, r: i64) -> Particle {
    Particle {
        position: Vec2 { x: px, y: py },
        velocity: Vec2 { x: 0, y: 0 },
        radius: r,
    }
}

#[test]
fn overlapping_candidate_is_rejected() {
    // Placement rejection: an overlapping candidate must not change the
    // particle count.
    let mut world = vec![ball(0, 0, 10_000)];
    let placed = place_ball(
        &mut world,
        Vec2 { x: 5_000, y: 0 },
        10_000,
        Vec2 { x: 1, y: 2 },
    );
    assert!(!placed);
    assert_eq!(world.len(), 1);
    assert_eq!(world[0], ball(0, 0, 10_000));
}

#[test]
fn free_candidate_is_placed() {
    // A non-overlapping candidate increases the count by exactly one.
    let mut world = vec![ball(0, 0, 10_000)];
    let placed = place_ball(
        &mut world,
        Vec2 { x: 50_000, y: 0 },
        10_000,
        Vec2 { x: 1, y: 2 },
    );
    assert!(placed);
    assert_eq!(world.len(), 2);
    assert_eq!(world[1].position, Vec2 { x: 50_000, y: 0 });
    assert_eq!(world[1].radius, 10_000);
    assert_eq!(world[1].velocity, Vec2 { x: 1, y: 2 });
}

#[test]
fn tangent_candidate_is_not_an_overlap() {
    // Exactly touching circles do not overlap: the test is strict.
    let mut world = vec![ball(0, 0, 10_000)];
    let placed = place_ball(
        &mut world,
        Vec2 { x: 20_000, y: 0 },
        10_000,
        Vec2 { x: 0, y: 0 },
    );
    assert!(placed);
    assert_eq!(world.len(), 2);
}

#[test]
fn placement_in_empty_world_always_succeeds() {
    let mut world: Vec<Particle> = vec![];
    let placed = try_place_ball(&mut world, Vec2 { x: 123, y: -456 });
    assert!(placed);
    assert_eq!(world.len(), 1);
    assert_eq!(world[0].position, Vec2 { x: 123, y: -456 });
    assert!(world[0].radius >= BALL_RADIUS_MIN && world[0].radius < BALL_RADIUS_MAX);
    assert!(world[0].velocity.x >= -BALL_INITIAL_SPEED && world[0].velocity.x < BALL_INITIAL_SPEED);
    assert!(world[0].velocity.y >= -BALL_INITIAL_SPEED && world[0].velocity.y < BALL_INITIAL_SPEED);
}

#[test]
fn click_on_an_existing_ball_is_always_rejected() {
    // Whatever radius is sampled, a candidate centered on an existing
    // particle overlaps it; the click silently produces nothing.
    let mut world = vec![ball(777, 888, 10_000)];
    let placed = try_place_ball(&mut world, Vec2 { x: 777, y: 888 });
    assert!(!placed);
    assert_eq!(world.len(), 1);
}

#[test]
fn sampled_radius_and_velocity_stay_in_range() {
    // The sampled ranges are half-open, as the bands [10, 30) and [-50, 50).
    for _ in 0..64 {
        let r = ball_radius();
        assert!((BALL_RADIUS_MIN..BALL_RADIUS_MAX).contains(&r));
        let v = initial_ball_velocity();
        assert!((-BALL_INITIAL_SPEED..BALL_INITIAL_SPEED).contains(&v.x));
        assert!((-BALL_INITIAL_SPEED..BALL_INITIAL_SPEED).contains(&v.y));
    }
}

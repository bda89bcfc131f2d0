use aleph::boundary::check_for_boundary_collisions;
use aleph::particle::{Particle, Vec2};

fn ball(px: i64, py: i64, vx: i64, vy: i64, r: i64) -> Particle {
    Particle {
        position: Vec2 { x: px, y: py },
        velocity: Vec2 { x: vx, y: vy },
        radius: r,
    }
}

#[test]
fn boundary_containment_from_far_outside() {
    // A particle that starts far outside the arena is clamped onto the wall
    // on both axes, and both velocity components reflect with 0.6 damping.
    let half = Vec2 { x: 1_000_000, y: 500_000 };
    let mut world = vec![ball(5_000_000, -5_000_000, 30_000, -20_000, 10_000)];
    check_for_boundary_collisions(&mut world, half);
    assert_eq!(world[0].position.x, 990_000);
    assert_eq!(world[0].position.y, -490_000);
    // v * -3/5: 30_000 -> -18_000 and -20_000 -> 12_000.
    assert_eq!(world[0].velocity.x, -18_000);
    assert_eq!(world[0].velocity.y, 12_000);
    assert!(world[0].position.x.abs() <= half.x - world[0].radius);
    assert!(world[0].position.y.abs() <= half.y - world[0].radius);
}

#[test]
fn boundary_leaves_contained_particles_alone() {
    let half = Vec2 { x: 1_000_000, y: 500_000 };
    let inside = ball(123, -456, 30_000, -20_000, 10_000);
    let mut world = vec![inside];
    check_for_boundary_collisions(&mut world, half);
    assert_eq!(world[0], inside);
}

#[test]
fn boundary_wall_touch_is_not_a_bounce() {
    // Exactly on the shrunk bound: |x| > hb is strict, so nothing happens.
    let half = Vec2 { x: 1_000_000, y: 500_000 };
    let touching = ball(990_000, 0, 4_000, 0, 10_000);
    let mut world = vec![touching];
    check_for_boundary_collisions(&mut world, half);
    assert_eq!(world[0], touching);
}

#[test]
fn boundary_damping_rounds_toward_zero() {
    // 3 * 999 / 5 = 599.4 truncates to 599 before the sign flip.
    let half = Vec2 { x: 100_000, y: 100_000 };
    let mut world = vec![ball(95_000, 0, 999, 0, 10_000)];
    check_for_boundary_collisions(&mut world, half);
    assert_eq!(world[0].position.x, 90_000);
    assert_eq!(world[0].velocity.x, -599);
}

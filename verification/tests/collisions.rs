use aleph::collisions::{check_for_ball_collisions, resolve_pair};
use aleph::particle::{mass_from_radius, Particle, Vec2};

fn ball(px: i64, py: i64, vx: i64, vy: i64, r: i64) -> Particle {
    Particle {
        position: Vec2 { x: px, y: py },
        velocity: Vec2 { x: vx, y: vy },
        radius: r,
    }
}

#[test]
fn head_on_equal_mass_swaps_velocities() {
    // Two equal balls colliding head-on: velocities flip along the normal
    // and the pair ends exactly tangent (energy/momentum exchange of the
    // elastic equal-mass case).
    let a = ball(-9_600, 0, 50_000, 0, 10_000);
    let b = ball(9_600, 0, -50_000, 0, 10_000);
    let (ra, rb) = resolve_pair(a, b);
    assert_eq!(ra.position.x, -10_000);
    assert_eq!(rb.position.x, 10_000);
    assert_eq!(rb.position.x - ra.position.x, a.radius + b.radius);
    assert_eq!(ra.velocity.x, -50_000);
    assert_eq!(rb.velocity.x, 50_000);
    assert_eq!(ra.velocity.y, 0);
    assert_eq!(rb.velocity.y, 0);
    assert_eq!(ra.position.y, 0);
    assert_eq!(rb.position.y, 0);
}

#[test]
fn overlapping_pair_ends_tangent() {
    // Unequal radii on a common axis: the penetration is split equally and
    // the centers end exactly radius_a + radius_b apart.
    let a = ball(0, 0, 0, 0, 10_000);
    let b = ball(20_000, 0, 0, 0, 14_000);
    let (ra, rb) = resolve_pair(a, b);
    assert_eq!(ra.position.x, -2_000);
    assert_eq!(rb.position.x, 22_000);
    assert_eq!(rb.position.x - ra.position.x, a.radius + b.radius);
    assert_eq!(ra.velocity, a.velocity);
    assert_eq!(rb.velocity, b.velocity);
}

#[test]
fn separated_pair_is_untouched() {
    let a = ball(0, 0, 1_000, 2_000, 10_000);
    let b = ball(20_000, 0, -3_000, 4_000, 10_000);
    let (ra, rb) = resolve_pair(a, b);
    assert_eq!(ra, a);
    assert_eq!(rb, b);
}

#[test]
fn coincident_centers_use_x_axis_normal() {
    // The degenerate zero-distance pair falls back to the unit x-axis
    // instead of dividing by zero.
    let a = ball(0, 5_000, 0, 0, 10_000);
    let b = ball(0, 5_000, 0, 0, 10_000);
    let (ra, rb) = resolve_pair(a, b);
    assert_eq!(ra.position.x, -10_000);
    assert_eq!(rb.position.x, 10_000);
    assert_eq!(ra.position.y, 5_000);
    assert_eq!(rb.position.y, 5_000);
}

#[test]
fn radii_are_preserved_by_a_pass() {
    let mut world = vec![
        ball(0, 0, 10_000, 0, 10_000),
        ball(5_000, 0, 0, 0, 14_000),
        ball(100_000, 0, 0, 0, 20_000),
    ];
    check_for_ball_collisions(&mut world);
    assert_eq!(world.len(), 3);
    assert_eq!(world[0].radius, 10_000);
    assert_eq!(world[1].radius, 14_000);
    assert_eq!(world[2].radius, 20_000);
    // The far third ball was never touched.
    assert_eq!(world[2].position, Vec2 { x: 100_000, y: 0 });
}

#[test]
fn collision_pass_on_empty_and_single_worlds() {
    let mut empty: Vec<Particle> = vec![];
    check_for_ball_collisions(&mut empty);
    assert_eq!(empty.len(), 0);

    let lone = ball(0, 0, 1_000, 0, 10_000);
    let mut world = vec![lone];
    check_for_ball_collisions(&mut world);
    assert_eq!(world[0], lone);
}

#[test]
fn near_coincident_diagonal_pair_resolves_to_near_tangency() {
    // Centers one milliunit apart on each axis, radii two units: the
    // high-precision normal keeps the final separation within a couple of
    // milliunits of the tangent distance instead of overshooting it.
    let a = ball(0, 0, 0, 0, 2_000);
    let b = ball(1, 1, 0, 0, 2_000);
    let (ra, rb) = resolve_pair(a, b);
    assert_eq!(ra.position, Vec2 { x: -1_413, y: -1_413 });
    assert_eq!(rb.position, Vec2 { x: 1_415, y: 1_415 });
    let ndx = rb.position.x - ra.position.x;
    let ndy = rb.position.y - ra.position.y;
    let sep_sq = ndx * ndx + ndy * ndy;
    let rsum = a.radius + b.radius;
    assert!((rsum - 2) * (rsum - 2) <= sep_sq);
    assert!(sep_sq <= (rsum + 2) * (rsum + 2));
}

#[test]
fn diagonal_pair_resolves_exactly_on_pythagorean_offset() {
    // Offset (3, 4) at distance 5 units, radius sum 20 units: the scaled
    // distance is exact, so the pair ends exactly tangent along (3, 4)/5.
    let a = ball(0, 0, 0, 0, 10_000);
    let b = ball(3_000, 4_000, 0, 0, 10_000);
    let (ra, rb) = resolve_pair(a, b);
    assert_eq!(ra.position, Vec2 { x: -4_500, y: -6_000 });
    assert_eq!(rb.position, Vec2 { x: 7_500, y: 10_000 });
    let ndx = rb.position.x - ra.position.x;
    let ndy = rb.position.y - ra.position.y;
    assert_eq!(ndx * ndx + ndy * ndy, 20_000 * 20_000);
    assert_eq!(ra.velocity, a.velocity);
    assert_eq!(rb.velocity, b.velocity);
}

#[test]
fn mass_is_pi_times_radius_squared() {
    // 355 * 10_000^2 / 113_000 = 314_159: pi * r^2 in milli square-units.
    assert_eq!(mass_from_radius(10_000), 314_159);
    assert_eq!(mass_from_radius(2_000), 12_566);
}

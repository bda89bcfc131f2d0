use aleph::particle::{Particle, Vec2};
use aleph::sph::{calculate_density, smoothing_kernel};

fn ball(px: i64, py: i64, r: i64) -> Particle {
    Particle {
        position: Vec2 { x: px, y: py },
        velocity: Vec2 { x: 0, y: 0 },
        radius: r,
    }
}

#[test]
fn kernel_peak_value_is_exact() {
    // kernel(0, r) is 4 / (pi * r^2) in nano per square unit: for a kernel
    // radius of ten units, 452e18 * (1e5)^3 / (355 * 1e26) = 12_732_394.
    assert_eq!(smoothing_kernel(0, 10_000), 12_732_394);
}

#[test]
fn kernel_interior_value_is_exact() {
    // At half the radius: q = 75_000, so 452e18 * 75_000^3 / (355 * 1e26).
    assert_eq!(smoothing_kernel(5_000, 10_000), 5_371_478);
}

#[test]
fn kernel_is_zero_from_the_radius_outward() {
    assert_eq!(smoothing_kernel(10_000, 10_000), 0);
    assert_eq!(smoothing_kernel(10_001, 10_000), 0);
    assert_eq!(smoothing_kernel(4_000_000_000_000, 10_000), 0);
}

#[test]
fn kernel_decays_monotonically() {
    let mut last = smoothing_kernel(0, 10_000);
    for d in [1_000, 2_500, 5_000, 7_500, 9_000, 9_999, 10_000] {
        let v = smoothing_kernel(d, 10_000);
        assert!(v <= last);
        assert!(v >= 0);
        last = v;
    }
}

#[test]
fn density_of_empty_world_is_zero() {
    let world: Vec<Particle> = vec![];
    assert_eq!(calculate_density(&world, Vec2 { x: 0, y: 0 }), 0);
}

#[test]
fn density_at_a_particle_is_its_kernel_peak() {
    // One particle of radius 20 units: its kernel radius is half that, and
    // the sample point sits exactly on the particle.
    let world = vec![ball(0, 0, 20_000)];
    assert_eq!(calculate_density(&world, Vec2 { x: 0, y: 0 }), 12_732_394);
}

#[test]
fn density_is_zero_when_every_particle_is_far() {
    let world = vec![ball(0, 0, 20_000), ball(100_000, 0, 20_000)];
    assert_eq!(calculate_density(&world, Vec2 { x: 50_000, y: 0 }), 0);
}

#[test]
fn density_sums_all_contributions() {
    // Two particles both at distance zero from the sample point contribute
    // twice the peak (unit mass each).
    let world = vec![ball(0, 0, 20_000), ball(0, 0, 20_000)];
    assert_eq!(calculate_density(&world, Vec2 { x: 0, y: 0 }), 2 * 12_732_394);
}

#[test]
fn density_decays_away_from_an_isolated_particle() {
    let world = vec![ball(0, 0, 20_000)];
    let at_center = calculate_density(&world, Vec2 { x: 0, y: 0 });
    let near = calculate_density(&world, Vec2 { x: 5_000, y: 0 });
    let far = calculate_density(&world, Vec2 { x: 9_000, y: 0 });
    let outside = calculate_density(&world, Vec2 { x: 50_000, y: 0 });
    assert!(at_center > near);
    assert!(near > far);
    assert!(far > outside);
    assert_eq!(outside, 0);
}

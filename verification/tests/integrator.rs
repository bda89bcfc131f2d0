use aleph::integrator::{apply_gravity, apply_velocity};
use aleph::particle::{Particle, Vec2};

fn ball(px: i64, py: i64, vx: i64, vy: i64, r: i64) -> Particle {
    Particle {
        position: Vec2 { x: px, y: py },
        velocity: Vec2 { x: vx, y: vy },
        radius: r,
    }
}

#[test]
fn gravity_rest_invariant() {
    // A particle resting exactly on the floor keeps its vertical velocity;
    // one strictly above loses 800 * dt milliunits per second.
    let floor_y = -360_000;
    let mut world = vec![
        ball(0, -350_000, 7_000, 5_000, 10_000), // y - r == floor_y: resting
        ball(0, 0, 7_000, 0, 10_000),            // strictly above the floor
    ];
    apply_gravity(&mut world, 16, floor_y);
    assert_eq!(world[0].velocity.y, 5_000);
    assert_eq!(world[1].velocity.y, -12_800);
    // Horizontal velocity and all positions are untouched.
    assert_eq!(world[0].velocity.x, 7_000);
    assert_eq!(world[1].velocity.x, 7_000);
    assert_eq!(world[0].position.y, -350_000);
    assert_eq!(world[1].position.y, 0);
}

#[test]
fn gravity_below_floor_also_rests() {
    // A particle sunk below the floor is treated as supported too.
    let mut world = vec![ball(0, -400_000, 0, -9_000, 10_000)];
    apply_gravity(&mut world, 16, -360_000);
    assert_eq!(world[0].velocity.y, -9_000);
}

#[test]
fn velocity_moves_positions_exactly() {
    let mut world = vec![ball(1_000, 2_000, 50_000, -50_000, 10_000)];
    apply_velocity(&mut world, 16);
    // 50_000 * 16 / 1000 = 800 milliunits each way.
    assert_eq!(world[0].position.x, 1_800);
    assert_eq!(world[0].position.y, 1_200);
    assert_eq!(world[0].velocity.x, 50_000);
    assert_eq!(world[0].velocity.y, -50_000);
}

#[test]
fn velocity_rounds_toward_zero() {
    let mut world = vec![ball(0, 0, 999, -999, 10_000)];
    apply_velocity(&mut world, 16);
    // 999 * 16 / 1000 = 15.984 truncates to 15, on both signs.
    assert_eq!(world[0].position.x, 15);
    assert_eq!(world[0].position.y, -15);
}

#[test]
fn empty_world_is_a_no_op() {
    let mut world: Vec<Particle> = vec![];
    apply_gravity(&mut world, 16, -360_000);
    apply_velocity(&mut world, 16);
    assert_eq!(world.len(), 0);
}

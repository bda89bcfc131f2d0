use aleph::particle::{Particle, Vec2};
use aleph::placement::{BALL_RADIUS_MAX, BALL_RADIUS_MIN};
use aleph::world::{setup, tick, NUM_BALLS};

fn ball(px: i64, py: i64, vx: i64, vy: i64, r: i64) -> Particle {
    Particle {
        position: Vec2 { x: px, y: py },
        velocity: Vec2 { x: vx, y: vy },
        radius: r,
    }
}

#[test]
fn setup_populates_a_centered_grid() {
    let world = setup();
    assert_eq!(world.len(), NUM_BALLS);
    // Ten columns of pitch 70 units, centered: column c sits at
    // (c - 4.5) * 70 units; row height climbs 7 units per index, centered
    // on 5.45 * 70 units.
    assert_eq!(world[0].position, Vec2 { x: -315_000, y: -381_500 });
    assert_eq!(world[9].position, Vec2 { x: 315_000, y: -318_500 });
    assert_eq!(world[10].position, Vec2 { x: -315_000, y: -311_500 });
    assert_eq!(world[99].position, Vec2 { x: 315_000, y: 311_500 });
    for p in &world {
        assert!(p.radius >= BALL_RADIUS_MIN && p.radius < BALL_RADIUS_MAX);
    }
}

#[test]
fn two_ball_scenario_resolves_head_on() {
    // Two balls of radius ten units at (-20, 0) and (20, 0), approaching at
    // fifty units per second each; dt is sixteen milliseconds. They drift
    // toward each other 0.8 units a tick and fall together under gravity,
    // so their collision stays exactly head-on along x. On tick 13 they
    // overlap (distance 19.2 < 20) and resolve to exact tangency with the
    // x velocities swapped.
    let half = Vec2 { x: 1_000_000, y: 1_000_000 };
    let mut world = vec![
        ball(-20_000, 0, 50_000, 0, 10_000),
        ball(20_000, 0, -50_000, 0, 10_000),
    ];

    tick(&mut world, 16, half);
    // After one tick both have moved toward each other...
    assert_eq!(world[0].position.x, -19_200);
    assert_eq!(world[1].position.x, 19_200);
    // ...and no collision has happened yet.
    assert_eq!(world[0].velocity.x, 50_000);
    assert_eq!(world[1].velocity.x, -50_000);

    for _ in 1..12 {
        tick(&mut world, 16, half);
    }
    // Twelve ticks in, the gap is 20.8 units: still strictly separated.
    assert_eq!(world[0].position.x, -10_400);
    assert_eq!(world[1].position.x, 10_400);
    assert_eq!(world[0].velocity.x, 50_000);

    tick(&mut world, 16, half);
    // Tick 13: overlap at distance 19.2 resolves to exactly 20 units with
    // the x velocities exchanged.
    assert_eq!(world[0].position.x, -10_000);
    assert_eq!(world[1].position.x, 10_000);
    assert_eq!(world[1].position.x - world[0].position.x, 20_000);
    assert_eq!(world[0].velocity.x, -50_000);
    assert_eq!(world[1].velocity.x, 50_000);
    // Gravity acted identically on both: they stay level, falling together.
    assert_eq!(world[0].position.y, world[1].position.y);
    assert_eq!(world[0].velocity.y, world[1].velocity.y);
    assert_eq!(world[0].velocity.y, -13 * 12_800);
}

#[test]
fn tick_keeps_particles_inside_the_arena() {
    let half = Vec2 { x: 200_000, y: 200_000 };
    let mut world = vec![
        ball(500_000, -500_000, 40_000, -40_000, 10_000),
        ball(0, 0, 0, 0, 10_000),
    ];
    for _ in 0..5 {
        tick(&mut world, 16, half);
        for p in &world {
            assert!(p.position.x.abs() <= half.x - p.radius);
            assert!(p.position.y.abs() <= half.y - p.radius);
        }
    }
}

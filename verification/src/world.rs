//! World creation and the fixed-timestep tick: the initial centered grid of
//! particles, and the per-tick pipeline gravity -> position integration ->
//! boundary resolution -> pairwise collision resolution, in that fixed
//! order.

use vstd::prelude::*;

use crate::boundary::{bounce_step, check_for_boundary_collisions};
use crate::collisions::{check_for_ball_collisions, pass_from};
use crate::integrator::{apply_gravity, apply_velocity, gravity_step, move_step, DT_MAX};
use crate::math::SCALAR_LIMIT;
use crate::particle::{particles_ok, Particle, Vec2};
use crate::placement::{ball_radius, initial_ball_velocity};
use crate::placement::{BALL_INITIAL_SPEED, BALL_RADIUS_MAX, BALL_RADIUS_MIN};

verus! {

/// Number of particles in a freshly created world.
pub const NUM_BALLS: usize = 100;

/// Columns of the initial grid: the square root of `NUM_BALLS`.
pub const PARTICLES_PER_ROW: i64 = 10;

/// Grid pitch: the largest ball diameter (2 * 30 units) plus a ten unit
/// gap, in milliunits.
pub const GRID_SPACING: i64 = 70_000;

/// Centers the ten columns on the y axis: 4.5 * GRID_SPACING.
pub const GRID_X_OFFSET: i64 = 315_000;

/// Vertical pitch per particle index: GRID_SPACING / PARTICLES_PER_ROW, so
/// each row of ten climbs one full GRID_SPACING.
pub const GRID_Y_STEP: i64 = 7_000;

/// Centers the 10.9 occupied rows on the x axis: 5.45 * GRID_SPACING.
pub const GRID_Y_OFFSET: i64 = 381_500;

/// The position of the `i`-th particle of the initial grid.
pub open spec fn grid_position(i: int) -> Vec2 {
    Vec2 {
        x: ((i % (PARTICLES_PER_ROW as int)) * GRID_SPACING - GRID_X_OFFSET) as i64,
        y: (i * (GRID_Y_STEP as int) - GRID_Y_OFFSET) as i64,
    }
}

/// Populates a fresh world: `NUM_BALLS` particles on a centered grid, each
/// with a freshly sampled radius and initial velocity.
pub fn setup() -> (particles: Vec<Particle>)
    ensures
        particles@.len() == NUM_BALLS,
        forall|i: int|
            0 <= i < NUM_BALLS ==> (#[trigger] particles@[i]).position == grid_position(i),
        forall|i: int|
            0 <= i < NUM_BALLS ==> BALL_RADIUS_MIN <= (#[trigger] particles@[i]).radius
                < BALL_RADIUS_MAX,
        forall|i: int|
            0 <= i < NUM_BALLS ==> -BALL_INITIAL_SPEED <= (#[trigger] particles@[i]).velocity.x
                < BALL_INITIAL_SPEED && -BALL_INITIAL_SPEED <= particles@[i].velocity.y
                < BALL_INITIAL_SPEED,
        particles_ok(particles@),
{
    let mut particles: Vec<Particle> = Vec::new();
    for i in 0..NUM_BALLS
        invariant
            particles@.len() == i,
            forall|k: int|
                0 <= k < i ==> (#[trigger] particles@[k]).position == grid_position(k),
            forall|k: int|
                0 <= k < i ==> BALL_RADIUS_MIN <= (#[trigger] particles@[k]).radius
                    < BALL_RADIUS_MAX,
            forall|k: int|
                0 <= k < i ==> -BALL_INITIAL_SPEED <= (#[trigger] particles@[k]).velocity.x
                    < BALL_INITIAL_SPEED && -BALL_INITIAL_SPEED <= particles@[k].velocity.y
                    < BALL_INITIAL_SPEED,
            particles_ok(particles@),
    {
        let col: i64 = (i as i64) % PARTICLES_PER_ROW;
        let x: i64 = col * GRID_SPACING - GRID_X_OFFSET;
        let y: i64 = (i as i64) * GRID_Y_STEP - GRID_Y_OFFSET;
        let radius = ball_radius();
        let velocity = initial_ball_velocity();
        particles.push(Particle { position: Vec2 { x, y }, velocity, radius });
    }
    particles
}

/// The whole world after the gravity stage.
pub open spec fn gravity_all(s: Seq<Particle>, dt: int, floor_y: int) -> Seq<Particle> {
    Seq::new(s.len(), |k: int| gravity_step(s[k], dt, floor_y))
}

/// The whole world after the position stage.
pub open spec fn move_all(s: Seq<Particle>, dt: int) -> Seq<Particle> {
    Seq::new(s.len(), |k: int| move_step(s[k], dt))
}

/// The whole world after the boundary stage.
pub open spec fn bounce_all(s: Seq<Particle>, half_extents: Vec2) -> Seq<Particle> {
    Seq::new(s.len(), |k: int| bounce_step(s[k], half_extents))
}

/// One fixed-timestep tick: gravity, then position integration, then
/// boundary resolution, then one all-pairs collision pass, the floor being
/// the arena's lower edge.
pub open spec fn tick_spec(s: Seq<Particle>, dt: int, half_extents: Vec2) -> Seq<Particle> {
    pass_from(
        bounce_all(move_all(gravity_all(s, dt, -half_extents.y), dt), half_extents),
        0,
        1,
    )
}

/// Advances the world by one tick of `dt` milliseconds inside an arena of
/// the given half extents (re-read every tick, so live resizes take effect).
pub fn tick(particles: &mut Vec<Particle>, dt: i64, half_extents: Vec2)
    requires
        particles_ok(old(particles)@),
        1 <= dt <= DT_MAX,
        0 <= half_extents.x <= SCALAR_LIMIT,
        0 <= half_extents.y <= SCALAR_LIMIT,
    ensures
        final(particles)@ == tick_spec(old(particles)@, dt as int, half_extents),
        final(particles)@.len() == old(particles)@.len(),
        forall|k: int|
            0 <= k < old(particles)@.len() ==> final(particles)@[k].radius == old(
                particles,
            )@[k].radius,
        particles_ok(final(particles)@),
{
    let ghost s0 = particles@;
    let floor_y: i64 = -half_extents.y;
    apply_gravity(particles, dt, floor_y);
    proof {
        assert(particles@ =~= gravity_all(s0, dt as int, floor_y as int));
    }
    let ghost s1 = particles@;
    apply_velocity(particles, dt);
    proof {
        assert(particles@ =~= move_all(s1, dt as int));
    }
    let ghost s2 = particles@;
    check_for_boundary_collisions(particles, half_extents);
    proof {
        assert(particles@ =~= bounce_all(s2, half_extents));
    }
    check_for_ball_collisions(particles);
}

} // verus!

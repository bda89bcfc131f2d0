//! The placement validator: a candidate spawn point is rejected silently if
//! its circle overlaps any existing particle; otherwise a new particle is
//! created there with a freshly sampled radius and initial velocity.

use vstd::prelude::*;

use crate::particle::{particle_ok, particles_ok, vec2_ok, Particle, Vec2};
use crate::particle::{RADIUS_SUPPORT_MAX, RADIUS_SUPPORT_MIN};

verus! {

/// Smallest radius given to a newly placed ball: ten world units
/// (inclusive).
pub const BALL_RADIUS_MIN: i64 = 10_000;

/// Exclusive upper bound on a placed ball's radius: thirty world units.
pub const BALL_RADIUS_MAX: i64 = 30_000;

/// Scale of a new ball's initial velocity: each component is drawn uniformly
/// from the half-open square `[-speed, speed)`, fifty world units per
/// second.
pub const BALL_INITIAL_SPEED: i64 = 50_000;

/// Two circles strictly overlap: their center distance is below the sum of
/// their radii (compared on squares, which is exact).
pub open spec fn circles_overlap(pa: Vec2, ra: int, pb: Vec2, rb: int) -> bool {
    let dx = pb.x - pa.x;
    let dy = pb.y - pa.y;
    dx * dx + dy * dy < (ra + rb) * (ra + rb)
}

/// The candidate circle overlaps at least one existing particle.
pub open spec fn placement_blocked(s: Seq<Particle>, position: Vec2, radius: int) -> bool {
    exists|k: int|
        0 <= k < s.len() && circles_overlap(
            #[trigger] s[k].position,
            s[k].radius as int,
            position,
            radius,
        )
}

/// Exact strict-overlap test between two circles.
fn circles_overlap_exec(pa: Vec2, ra: i64, pb: Vec2, rb: i64) -> (r: bool)
    requires
        vec2_ok(pa),
        vec2_ok(pb),
        0 < ra <= RADIUS_SUPPORT_MAX,
        0 < rb <= RADIUS_SUPPORT_MAX,
    ensures
        r == circles_overlap(pa, ra as int, pb, rb as int),
{
    let dx: i64 = pb.x - pa.x;
    let dy: i64 = pb.y - pa.y;
    proof {
        assert(0 <= dx as int * (dx as int) <= 4_000_000_000_000_000_000_000_000
            && 0 <= dy as int * (dy as int) <= 4_000_000_000_000_000_000_000_000
            && 0 < (ra as int + rb as int) * (ra as int + rb as int) <= 6_400_000_000)
            by (nonlinear_arith)
            requires
                -2_000_000_000_000 <= dx as int <= 2_000_000_000_000,
                -2_000_000_000_000 <= dy as int <= 2_000_000_000_000,
                0 < ra as int + rb as int <= 80_000,
        ;
    }
    let dist_sq: i128 = (dx as i128) * (dx as i128) + (dy as i128) * (dy as i128);
    let rsum: i128 = (ra as i128) + (rb as i128);
    dist_sq < rsum * rsum
}

/// Adds a particle with the given radius and velocity at the candidate
/// point, unless its circle overlaps an existing particle: then nothing is
/// created and the world is unchanged. Returns whether a particle was added.
pub fn place_ball(
    particles: &mut Vec<Particle>,
    position: Vec2,
    radius: i64,
    velocity: Vec2,
) -> (placed: bool)
    requires
        particles_ok(old(particles)@),
        vec2_ok(position),
        vec2_ok(velocity),
        RADIUS_SUPPORT_MIN <= radius <= RADIUS_SUPPORT_MAX,
    ensures
        placed == !placement_blocked(old(particles)@, position, radius as int),
        placed ==> final(particles)@ == old(particles)@.push(
            Particle { position, velocity, radius },
        ),
        !placed ==> final(particles)@ == old(particles)@,
        particles_ok(final(particles)@),
{
    let n = particles.len();
    for k in 0..n
        invariant
            particles@ == old(particles)@,
            particles@.len() == n,
            particles_ok(particles@),
            vec2_ok(position),
            RADIUS_SUPPORT_MIN <= radius <= RADIUS_SUPPORT_MAX,
            forall|q: int|
                0 <= q < k ==> !circles_overlap(
                    #[trigger] particles@[q].position,
                    particles@[q].radius as int,
                    position,
                    radius as int,
                ),
    {
        let p = particles[k];
        assert(particle_ok(p));
        if circles_overlap_exec(p.position, p.radius, position, radius) {
            return false;
        }
    }
    particles.push(Particle { position, velocity, radius });
    true
}

/// Relies on rand::random_range over an inclusive integer range: it returns
/// a uniformly distributed value inside the range. It panics on an empty
/// range, which the precondition rules out; its thread-local generator can
/// also abort the process if the operating system's entropy source fails,
/// an environmental failure akin to running out of memory.
#[verifier::external_body]
fn random_in_range(lo: i64, hi: i64) -> (r: i64)
    requires
        lo <= hi,
    ensures
        lo <= r <= hi,
{
    rand::random_range(lo..=hi)
}

/// A freshly sampled ball radius, uniform on the half-open band
/// `[BALL_RADIUS_MIN, BALL_RADIUS_MAX)`.
pub fn ball_radius() -> (r: i64)
    ensures
        BALL_RADIUS_MIN <= r < BALL_RADIUS_MAX,
{
    random_in_range(BALL_RADIUS_MIN, BALL_RADIUS_MAX - 1)
}

/// A freshly sampled initial velocity: each component uniform on the
/// half-open range `[-BALL_INITIAL_SPEED, BALL_INITIAL_SPEED)`.
pub fn initial_ball_velocity() -> (v: Vec2)
    ensures
        -BALL_INITIAL_SPEED <= v.x < BALL_INITIAL_SPEED,
        -BALL_INITIAL_SPEED <= v.y < BALL_INITIAL_SPEED,
{
    Vec2 {
        x: random_in_range(-BALL_INITIAL_SPEED, BALL_INITIAL_SPEED - 1),
        y: random_in_range(-BALL_INITIAL_SPEED, BALL_INITIAL_SPEED - 1),
    }
}

/// Handles one placement event: samples a radius and an initial velocity,
/// then places a ball at the pointer position unless the sampled circle
/// overlaps an existing particle. A rejected event leaves the world
/// unchanged (and witnesses a sampled radius in range that was blocked).
pub fn try_place_ball(particles: &mut Vec<Particle>, position: Vec2) -> (placed: bool)
    requires
        particles_ok(old(particles)@),
        vec2_ok(position),
    ensures
        !placed ==> final(particles)@ == old(particles)@ && exists|r: int|
            BALL_RADIUS_MIN <= r < BALL_RADIUS_MAX && placement_blocked(
                old(particles)@,
                position,
                r,
            ),
        placed ==> {
            let p = final(particles)@[old(particles)@.len() as int];
            &&& final(particles)@ == old(particles)@.push(p)
            &&& p.position == position
            &&& BALL_RADIUS_MIN <= p.radius < BALL_RADIUS_MAX
            &&& -BALL_INITIAL_SPEED <= p.velocity.x < BALL_INITIAL_SPEED
            &&& -BALL_INITIAL_SPEED <= p.velocity.y < BALL_INITIAL_SPEED
            &&& !placement_blocked(old(particles)@, position, p.radius as int)
        },
        particles_ok(final(particles)@),
{
    let radius = ball_radius();
    let velocity = initial_ball_velocity();
    let placed = place_ball(particles, position, radius, velocity);
    proof {
        if !placed {
            assert(BALL_RADIUS_MIN <= (radius as int) < BALL_RADIUS_MAX && placement_blocked(
                old(particles)@,
                position,
                radius as int,
            ));
        }
    }
    placed
}

} // verus!

//! The integrator: applies gravity to each particle's velocity unless the
//! particle rests on the floor, and advances positions by explicit Euler.

use vstd::prelude::*;

use crate::math::{clamp_scalar, clamp_spec, sdiv, sdiv_spec, MILLI, SCALAR_LIMIT};
use crate::particle::{particle_ok, particles_ok, scalar_ok, Particle, Vec2};

verus! {

/// Gravitational acceleration, in milliunits per second squared (downward).
pub const GRAVITY: i64 = -800_000;

/// Largest supported time step per tick: one second, in milliseconds.
pub const DT_MAX: i64 = 1_000;

/// One particle after the gravity stage: a particle whose circle already
/// touches or sinks below the floor keeps its vertical velocity (the floor
/// supports it); any other particle accelerates downward for `dt`
/// milliseconds.
pub open spec fn gravity_step(p: Particle, dt: int, floor_y: int) -> Particle {
    if p.position.y - p.radius <= floor_y {
        p
    } else {
        Particle {
            velocity: Vec2 {
                x: p.velocity.x,
                y: clamp_spec(p.velocity.y + (GRAVITY as int / MILLI as int) * dt) as i64,
            },
            ..p
        }
    }
}

/// The scaled displacement `v * dt / 1000`, rounded toward zero: `v` is in
/// milliunits per second and `dt` in milliseconds.
pub open spec fn scaled_spec(v: int, dt: int) -> int {
    sdiv_spec(v * dt, MILLI as int)
}

/// One particle after the position stage: explicit Euler, no collision
/// awareness.
pub open spec fn move_step(p: Particle, dt: int) -> Particle {
    Particle {
        position: Vec2 {
            x: clamp_spec(p.position.x + scaled_spec(p.velocity.x as int, dt)) as i64,
            y: clamp_spec(p.position.y + scaled_spec(p.velocity.y as int, dt)) as i64,
        },
        ..p
    }
}

/// Computes `v * dt / 1000` rounded toward zero, with magnitude at most `|v|`.
fn scale_by_dt(v: i64, dt: i64) -> (r: i64)
    requires
        scalar_ok(v as int),
        1 <= dt <= DT_MAX,
    ensures
        r as int == scaled_spec(v as int, dt as int),
        v >= 0 ==> 0 <= r <= v,
        v < 0 ==> v <= r <= 0,
{
    proof {
        assert(-1_000_000_000_000_000 <= (v as int) * (dt as int) <= 1_000_000_000_000_000
            && ((v as int) < 0 ==> (v as int) * (dt as int) <= v as int)
            && ((v as int) >= 0 ==> (v as int) * (dt as int) >= 0)) by (nonlinear_arith)
            requires
                -(1_000_000_000_000 as int) <= v as int <= 1_000_000_000_000,
                1 <= (dt as int) <= 1000,
        ;
    }
    let prod: i128 = (v as i128) * (dt as i128);
    let q: i128 = sdiv(prod, MILLI as i128);
    proof {
        if v >= 0 {
            assert(prod as int <= v as int * 1000) by (nonlinear_arith)
                requires
                    prod as int == v as int * (dt as int),
                    0 <= v as int,
                    dt as int <= 1000,
            ;
            vstd::arithmetic::div_mod::lemma_div_is_ordered(
                prod as int,
                v as int * 1000,
                1000 as int,
            );
            vstd::arithmetic::div_mod::lemma_div_multiples_vanish(v as int, 1000 as int);
            assert(v as int * 1000 == 1000 * (v as int)) by (nonlinear_arith);
        } else {
            assert(-(prod as int) <= -(v as int) * 1000) by (nonlinear_arith)
                requires
                    prod as int == v as int * (dt as int),
                    (v as int) < 0,
                    1 <= (dt as int) <= 1000,
            ;
            vstd::arithmetic::div_mod::lemma_div_is_ordered(
                -(prod as int),
                -(v as int) * 1000,
                1000 as int,
            );
            vstd::arithmetic::div_mod::lemma_div_multiples_vanish(-(v as int), 1000 as int);
            assert(-(v as int) * 1000 == 1000 * -(v as int)) by (nonlinear_arith);
        }
    }
    q as i64
}

/// For each particle, unless it rests on the floor, accelerate it downward:
/// `velocity.y += GRAVITY * dt`. Nothing else moves.
pub fn apply_gravity(particles: &mut Vec<Particle>, dt: i64, floor_y: i64)
    requires
        particles_ok(old(particles)@),
        1 <= dt <= DT_MAX,
        scalar_ok(floor_y as int),
    ensures
        final(particles)@.len() == old(particles)@.len(),
        forall|k: int|
            0 <= k < old(particles)@.len() ==> final(particles)@[k] == gravity_step(
                old(particles)@[k],
                dt as int,
                floor_y as int,
            ),
        particles_ok(final(particles)@),
{
    let n = particles.len();
    proof {
        vstd::arithmetic::div_mod::lemma_div_multiples_vanish(-800 as int, 1000 as int);
        assert(GRAVITY as int / MILLI as int == -800);
    }
    let dv: i64 = -800 * dt;
    for i in 0..n
        invariant
            particles@.len() == n,
            old(particles)@.len() == n,
            1 <= dt <= DT_MAX,
            scalar_ok(floor_y as int),
            dv as int == (GRAVITY as int / MILLI as int) * dt,
            dv == -800 * dt,
            particles_ok(particles@),
            forall|k: int|
                0 <= k < i ==> particles@[k] == gravity_step(
                    old(particles)@[k],
                    dt as int,
                    floor_y as int,
                ),
            forall|k: int| i <= k < n ==> particles@[k] == old(particles)@[k],
    {
        let p = particles[i];
        assert(particle_ok(p));
        if p.position.y - p.radius <= floor_y {
            // Resting on the floor: the floor pushes back, gravity adds nothing.
        } else {
            let vy: i64 = clamp_scalar(p.velocity.y + dv);
            let np = Particle { velocity: Vec2 { x: p.velocity.x, y: vy }, ..p };
            particles.set(i, np);
        }
    }
}

/// For each particle, `position += velocity * dt`: explicit Euler with no
/// collision awareness; transient overlaps are resolved by the later stages.
pub fn apply_velocity(particles: &mut Vec<Particle>, dt: i64)
    requires
        particles_ok(old(particles)@),
        1 <= dt <= DT_MAX,
    ensures
        final(particles)@.len() == old(particles)@.len(),
        forall|k: int|
            0 <= k < old(particles)@.len() ==> final(particles)@[k] == move_step(
                old(particles)@[k],
                dt as int,
            ),
        particles_ok(final(particles)@),
{
    let n = particles.len();
    for i in 0..n
        invariant
            particles@.len() == n,
            old(particles)@.len() == n,
            1 <= dt <= DT_MAX,
            particles_ok(particles@),
            forall|k: int|
                0 <= k < i ==> particles@[k] == move_step(old(particles)@[k], dt as int),
            forall|k: int| i <= k < n ==> particles@[k] == old(particles)@[k],
    {
        let p = particles[i];
        assert(particle_ok(p));
        let mx: i64 = scale_by_dt(p.velocity.x, dt);
        let my: i64 = scale_by_dt(p.velocity.y, dt);
        let np = Particle {
            position: Vec2 {
                x: clamp_scalar(p.position.x + mx),
                y: clamp_scalar(p.position.y + my),
            },
            ..p
        };
        particles.set(i, np);
    }
}

/// Law: a particle resting exactly on the floor keeps its vertical velocity
/// through the gravity stage, while a particle strictly above the floor has
/// it decreased by exactly `|GRAVITY| * dt` (no clamping occurs while the
/// decreased velocity stays representable).
pub proof fn lemma_gravity_rest(p: Particle, dt: int, floor_y: int)
    requires
        particle_ok(p),
        1 <= dt <= DT_MAX as int,
        scalar_ok(floor_y),
    ensures
        p.position.y - p.radius == floor_y ==> gravity_step(p, dt, floor_y) == p,
        p.position.y - p.radius > floor_y && scalar_ok(p.velocity.y + (GRAVITY as int / MILLI as int) * dt)
            ==> gravity_step(p, dt, floor_y).velocity.y == p.velocity.y + (GRAVITY as int
            / MILLI as int) * dt,
{
}

} // verus!

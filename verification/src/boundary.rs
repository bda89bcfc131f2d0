//! The boundary resolver: clamps each particle inside the arena and reflects
//! its velocity with damping on wall contact. Each axis is resolved
//! independently, so a corner hit corrects both axes at once (a soft
//! inelastic bounce; the slight energy loss at corners is a documented
//! approximation of the model, not an accident).

use vstd::prelude::*;

use crate::math::{sdiv, sdiv_spec, SCALAR_LIMIT};
use crate::particle::{particle_ok, particles_ok, scalar_ok, vec2_ok, Particle, Vec2};

verus! {

/// Damping applied to the reflected velocity component: 3/5, i.e. 0.6.
pub const DAMPING_NUM: i64 = 3;

/// Denominator of the damping factor.
pub const DAMPING_DEN: i64 = 5;

/// The sign of a scalar: -1, 0 or 1.
pub open spec fn sign_spec(x: int) -> int {
    if x > 0 {
        1
    } else if x < 0 {
        -1
    } else {
        0
    }
}

/// A velocity component after a wall bounce: reflected and damped to 3/5 of
/// its magnitude, rounding toward zero.
pub open spec fn damp_spec(v: int) -> int {
    -sdiv_spec(DAMPING_NUM as int * v, DAMPING_DEN as int)
}

/// One axis of the bounce: if the coordinate lies outside `[-hb, hb]`
/// (`hb` being the half extent shrunk by the radius), it is clamped to the
/// near wall and the velocity component is reflected with damping.
pub open spec fn bounce_axis_spec(x: int, v: int, hb: int) -> (int, int) {
    if x > hb || x < -hb {
        (sign_spec(x) * hb, damp_spec(v))
    } else {
        (x, v)
    }
}

/// One particle after the boundary stage: both axes resolved independently.
pub open spec fn bounce_step(p: Particle, half_extents: Vec2) -> Particle {
    let rx = bounce_axis_spec(
        p.position.x as int,
        p.velocity.x as int,
        half_extents.x - p.radius,
    );
    let ry = bounce_axis_spec(
        p.position.y as int,
        p.velocity.y as int,
        half_extents.y - p.radius,
    );
    Particle {
        position: Vec2 { x: rx.0 as i64, y: ry.0 as i64 },
        velocity: Vec2 { x: rx.1 as i64, y: ry.1 as i64 },
        radius: p.radius,
    }
}

/// Reflects and damps one velocity component.
fn damp(v: i64) -> (r: i64)
    requires
        scalar_ok(v as int),
    ensures
        r as int == damp_spec(v as int),
        v >= 0 ==> -v <= r <= 0,
        v < 0 ==> 0 <= r <= -v,
{
    let tripled: i128 = DAMPING_NUM as i128 * (v as i128);
    let q: i128 = sdiv(tripled, DAMPING_DEN as i128);
    proof {
        if v >= 0 {
            vstd::arithmetic::div_mod::lemma_div_is_ordered(
                3 * (v as int),
                5 * (v as int),
                5 as int,
            );
            vstd::arithmetic::div_mod::lemma_div_multiples_vanish(v as int, 5 as int);
        } else {
            vstd::arithmetic::div_mod::lemma_div_is_ordered(
                -(3 * (v as int)),
                5 * -(v as int),
                5 as int,
            );
            vstd::arithmetic::div_mod::lemma_div_multiples_vanish(-(v as int), 5 as int);
        }
    }
    -(q as i64)
}

/// Resolves one axis; `hb` is the arena half extent minus the radius.
fn bounce_axis(x: i64, v: i64, hb: i64) -> (r: (i64, i64))
    requires
        scalar_ok(x as int),
        scalar_ok(v as int),
        -(SCALAR_LIMIT as int) <= hb as int <= SCALAR_LIMIT as int,
    ensures
        (r.0 as int, r.1 as int) == bounce_axis_spec(x as int, v as int, hb as int),
        scalar_ok(r.0 as int),
        scalar_ok(r.1 as int),
{
    if x > hb || x < -hb {
        let cx: i64 = if x > 0 {
            hb
        } else if x < 0 {
            -hb
        } else {
            0
        };
        (cx, damp(v))
    } else {
        (x, v)
    }
}

/// For each particle, clamp it inside the arena per axis and reflect the
/// touched velocity components with damping. Afterwards every particle whose
/// radius fits the arena is contained: `|position| <= half_extent - radius`
/// on both axes, wherever it started.
pub fn check_for_boundary_collisions(particles: &mut Vec<Particle>, half_extents: Vec2)
    requires
        particles_ok(old(particles)@),
        0 <= half_extents.x <= SCALAR_LIMIT,
        0 <= half_extents.y <= SCALAR_LIMIT,
    ensures
        final(particles)@.len() == old(particles)@.len(),
        forall|k: int|
            0 <= k < old(particles)@.len() ==> final(particles)@[k] == bounce_step(
                old(particles)@[k],
                half_extents,
            ),
        particles_ok(final(particles)@),
        forall|k: int|
            0 <= k < final(particles)@.len()
                && #[trigger] final(particles)@[k].radius <= half_extents.x
                ==> -(half_extents.x - final(particles)@[k].radius)
                <= final(particles)@[k].position.x
                <= half_extents.x - final(particles)@[k].radius,
        forall|k: int|
            0 <= k < final(particles)@.len()
                && #[trigger] final(particles)@[k].radius <= half_extents.y
                ==> -(half_extents.y - final(particles)@[k].radius)
                <= final(particles)@[k].position.y
                <= half_extents.y - final(particles)@[k].radius,
{
    let n = particles.len();
    for i in 0..n
        invariant
            particles@.len() == n,
            old(particles)@.len() == n,
            0 <= half_extents.x <= SCALAR_LIMIT,
            0 <= half_extents.y <= SCALAR_LIMIT,
            vec2_ok(half_extents),
            particles_ok(particles@),
            forall|k: int|
                0 <= k < i ==> particles@[k] == bounce_step(old(particles)@[k], half_extents),
            forall|k: int| i <= k < n ==> particles@[k] == old(particles)@[k],
    {
        let p = particles[i];
        assert(particle_ok(p));
        let hbx: i64 = half_extents.x - p.radius;
        let hby: i64 = half_extents.y - p.radius;
        let rx = bounce_axis(p.position.x, p.velocity.x, hbx);
        let ry = bounce_axis(p.position.y, p.velocity.y, hby);
        let np = Particle {
            position: Vec2 { x: rx.0, y: ry.0 },
            velocity: Vec2 { x: rx.1, y: ry.1 },
            radius: p.radius,
        };
        particles.set(i, np);
    }
    proof {
        assert forall|k: int|
            0 <= k < particles@.len() && #[trigger] particles@[k].radius
                <= half_extents.x implies -(half_extents.x - particles@[k].radius)
            <= particles@[k].position.x <= half_extents.x - particles@[k].radius by {
            lemma_bounce_step_contains(old(particles)@[k], half_extents);
        }
        assert forall|k: int|
            0 <= k < particles@.len() && #[trigger] particles@[k].radius
                <= half_extents.y implies -(half_extents.y - particles@[k].radius)
            <= particles@[k].position.y <= half_extents.y - particles@[k].radius by {
            lemma_bounce_step_contains(old(particles)@[k], half_extents);
        }
    }
}

/// Law: after the boundary stage a particle whose radius fits the arena on
/// an axis lies within the shrunk bounds on that axis, whatever position it
/// started from (including far outside the arena).
pub proof fn lemma_bounce_step_contains(p: Particle, half_extents: Vec2)
    requires
        particle_ok(p),
        0 <= half_extents.x,
        0 <= half_extents.y,
    ensures
        bounce_step(p, half_extents).radius <= half_extents.x ==> -(half_extents.x
            - bounce_step(p, half_extents).radius) <= bounce_step(p, half_extents).position.x
            <= half_extents.x - bounce_step(p, half_extents).radius,
        bounce_step(p, half_extents).radius <= half_extents.y ==> -(half_extents.y
            - bounce_step(p, half_extents).radius) <= bounce_step(p, half_extents).position.y
            <= half_extents.y - bounce_step(p, half_extents).radius,
{
}

} // verus!

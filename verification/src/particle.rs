//! The data model: a particle is a circle with a position, a velocity and a
//! fixed radius, all in milliunits. Mass is derived from the radius (constant
//! density, area-based), never stored.

use vstd::prelude::*;

use crate::math::SCALAR_LIMIT;

verus! {

/// A two-component vector of fixed-point scalars (milliunits).
#[derive(Clone, Copy, PartialEq, Eq, Structural, Debug)]
pub struct Vec2 {
    pub x: i64,
    pub y: i64,
}

/// One circular particle. The radius is fixed for the particle's lifetime;
/// position and velocity mutate every tick.
#[derive(Clone, Copy, PartialEq, Eq, Structural, Debug)]
pub struct Particle {
    pub position: Vec2,
    pub velocity: Vec2,
    pub radius: i64,
}

/// Smallest radius the kernel supports: two world units. The density
/// estimator evaluates its kernel at half the particle radius, and its
/// fixed-point staging needs that half radius to be at least one unit.
pub const RADIUS_SUPPORT_MIN: i64 = 2_000;

/// Largest radius the kernel supports: forty world units. Keeps the eighth
/// power of the half radius, which the density kernel divides by, inside
/// 128-bit intermediates.
pub const RADIUS_SUPPORT_MAX: i64 = 40_000;

pub open spec fn scalar_ok(x: int) -> bool {
    -(SCALAR_LIMIT as int) <= x <= SCALAR_LIMIT as int
}

pub open spec fn vec2_ok(v: Vec2) -> bool {
    scalar_ok(v.x as int) && scalar_ok(v.y as int)
}

/// Well-formedness of one particle: coordinates and velocity in range, radius
/// positive and within the supported band.
pub open spec fn particle_ok(p: Particle) -> bool {
    &&& vec2_ok(p.position)
    &&& vec2_ok(p.velocity)
    &&& RADIUS_SUPPORT_MIN as int <= p.radius as int <= RADIUS_SUPPORT_MAX as int
}

/// Well-formedness of a whole world of particles.
pub open spec fn particles_ok(s: Seq<Particle>) -> bool {
    forall|k: int| 0 <= k < s.len() ==> particle_ok(#[trigger] s[k])
}

/// Fixed-point mass of a particle of radius `r` milliunits: pi times the
/// radius squared (constant density), with pi approximated by 355/113 and the
/// result expressed in milli square-units.
pub open spec fn mass_spec(r: int) -> int {
    355 * r * r / 113_000
}

/// Area-based mass from the radius. The impulse resolver only consumes
/// masses through the ratio `2 * m / (m_a + m_b)`, where the constant
/// density factor cancels; this function is the standalone query.
pub fn mass_from_radius(radius: i64) -> (m: i64)
    requires
        1 <= radius <= RADIUS_SUPPORT_MAX,
    ensures
        m as int == mass_spec(radius as int),
        radius >= RADIUS_SUPPORT_MIN ==> m >= 12_566,
        0 <= m <= 568_000_000_000,
{
    let r128: i128 = radius as i128;
    proof {
        assert(r128 as int * r128 as int <= 1_600_000_000) by (nonlinear_arith)
            requires
                1 <= r128 as int <= 40_000,
        ;
    }
    let sq: i128 = r128 * r128;
    let wide: i128 = 355 * sq;
    assert(wide as int == 355 * (radius as int) * (radius as int)) by (nonlinear_arith)
        requires
            sq as int == radius as int * (radius as int),
            wide as int == 355 * (sq as int),
    ;
    let m: i128 = wide / 113_000;
    proof {
        vstd::arithmetic::div_mod::lemma_div_pos_is_pos(wide as int, 113_000);
        vstd::arithmetic::div_mod::lemma_div_nonincreasing(wide as int, 113_000);
        if radius >= RADIUS_SUPPORT_MIN {
            assert(wide as int >= 355 * 2_000 * 2_000) by (nonlinear_arith)
                requires
                    wide as int == 355 * (radius as int) * (radius as int),
                    radius as int >= 2_000,
            ;
            vstd::arithmetic::div_mod::lemma_div_is_ordered(
                355 * 2_000 * 2_000 as int,
                wide as int,
                113_000 as int,
            );
        }
    }
    m as i64
}

} // verus!

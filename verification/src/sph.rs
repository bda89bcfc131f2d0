//! The smoothed-particle-hydrodynamics density estimator: a compactly
//! supported polynomial smoothing kernel and a density field sampled by
//! summing kernel-weighted contributions from all particles.
//!
//! The real-valued kernel is `max(0, r^2 - d^2)^3 / (pi * r^8 / 4)` with `d`
//! and `r` in world units. Here `d` and `r` arrive in milliunits and the
//! result is returned in nano per square unit (a billionth of the
//! real-valued kernel's unit), with pi approximated by 355/113 and the
//! cube's argument pre-scaled by a thousand to keep every intermediate
//! inside 128 bits. The kernel is exactly zero from distance `r` outward.

use vstd::prelude::*;

use crate::math::{is_sqrt_floor, isqrt, sqrt_floor};
use crate::particle::{particle_ok, particles_ok, vec2_ok, Particle, Vec2};

verus! {

/// Smallest kernel radius the fixed-point staging supports: one world unit.
pub const KERNEL_RADIUS_MIN: i64 = 1_000;

/// Largest kernel radius the fixed-point staging supports: twenty world
/// units.
pub const KERNEL_RADIUS_MAX: i64 = 20_000;

/// Every kernel value lies in `[0, KERNEL_VALUE_MAX]`.
pub const KERNEL_VALUE_MAX: i64 = 3_000_000_000;

/// The fixed-point smoothing kernel at center distance `d` for kernel
/// radius `r`, both in milliunits, in nano per square unit.
pub open spec fn kernel_spec(d: int, r: int) -> int {
    let x = r * r - d * d;
    if x <= 0 {
        0
    } else {
        let q = x / 1000;
        let qc = q * q * q;
        let r2 = r * r;
        let r4 = r2 * r2;
        let r8 = r4 * r4;
        452_000_000_000_000_000_000 * qc / (355 * (r8 / 1_000_000))
    }
}

/// The rounded-down center distance between a particle and a sample point.
pub open spec fn particle_distance(p: Particle, point: Vec2) -> int {
    let dx = p.position.x - point.x;
    let dy = p.position.y - point.y;
    sqrt_floor(dx * dx + dy * dy)
}

/// The density field at a sample point: the sum over all particles of
/// `mass * kernel(distance, radius / 2)`, with mass uniformly 1 (an
/// intentional simplification of this estimator, distinct from the
/// area-based mass the collision resolver uses).
pub open spec fn density_spec(s: Seq<Particle>, point: Vec2) -> int
    decreases s.len(),
{
    if s.len() == 0 {
        0
    } else {
        density_spec(s.drop_last(), point) + kernel_spec(
            particle_distance(s.last(), point),
            s.last().radius as int / 2,
        )
    }
}

/// Range facts about the powers of a kernel radius in
/// `[KERNEL_RADIUS_MIN, KERNEL_RADIUS_MAX]`.
proof fn lemma_radius_parts(r: int)
    requires
        KERNEL_RADIUS_MIN as int <= r <= KERNEL_RADIUS_MAX as int,
    ensures
        1_000_000 <= r * r <= 400_000_000,
        1_000_000_000_000 <= (r * r) * (r * r) <= 160_000_000_000_000_000,
        1_000_000_000_000_000_000_000_000 <= (r * r) * (r * r) * ((r * r) * (r * r))
            <= 25_600_000_000_000_000_000_000_000_000_000_000,
        1_000_000_000_000_000_000 <= (r * r) * (r * r) * ((r * r) * (r * r)) / 1_000_000
            <= 25_600_000_000_000_000_000_000_000_000,
        1_000_000 * ((r * r) * (r * r) * ((r * r) * (r * r)) / 1_000_000) <= (r * r) * (r * r) * (
        (r * r) * (r * r)),
        (r * r) * (r * r) * ((r * r) * (r * r)) < 1_000_000 * ((r * r) * (r * r) * ((r * r) * (r
        * r)) / 1_000_000) + 1_000_000,
{
    assert(1_000_000 <= r * r <= 400_000_000 && 1_000_000_000_000 <= (r * r) * (r * r)
        <= 160_000_000_000_000_000 && 1_000_000_000_000_000_000_000_000 <= (r * r) * (r * r) * ((
    r * r) * (r * r)) <= 25_600_000_000_000_000_000_000_000_000_000_000) by (nonlinear_arith)
        requires
            1_000 <= r <= 20_000,
    ;
    let r8 = (r * r) * (r * r) * ((r * r) * (r * r));
    vstd::arithmetic::div_mod::lemma_div_is_ordered(
        1_000_000_000_000_000_000_000_000,
        r8,
        1_000_000 as int,
    );
    vstd::arithmetic::div_mod::lemma_div_is_ordered(
        r8,
        25_600_000_000_000_000_000_000_000_000_000_000,
        1_000_000 as int,
    );
    vstd::arithmetic::div_mod::lemma_div_multiples_vanish(
        1_000_000_000_000_000_000,
        1_000_000 as int,
    );
    vstd::arithmetic::div_mod::lemma_div_multiples_vanish(
        25_600_000_000_000_000_000_000_000_000,
        1_000_000 as int,
    );
    vstd::arithmetic::div_mod::lemma_fundamental_div_mod(r8, 1_000_000 as int);
    vstd::arithmetic::div_mod::lemma_mod_division_less_than_divisor(r8, 1_000_000 as int);
}

/// The kernel is never negative.
pub proof fn lemma_kernel_nonneg(d: int, r: int)
    requires
        KERNEL_RADIUS_MIN as int <= r <= KERNEL_RADIUS_MAX as int,
    ensures
        kernel_spec(d, r) >= 0,
{
    let x = r * r - d * d;
    if x > 0 {
        lemma_radius_parts(r);
        let q = x / 1000;
        vstd::arithmetic::div_mod::lemma_div_pos_is_pos(x, 1000 as int);
        assert(q * q * q >= 0) by (nonlinear_arith)
            requires
                q >= 0,
        ;
        let r8 = (r * r) * (r * r) * ((r * r) * (r * r));
        vstd::arithmetic::div_mod::lemma_div_pos_is_pos(
            452_000_000_000_000_000_000 * (q * q * q),
            355 * (r8 / 1_000_000),
        );
    }
}

/// The kernel never exceeds `KERNEL_VALUE_MAX`.
pub proof fn lemma_kernel_bounded(d: int, r: int)
    requires
        KERNEL_RADIUS_MIN as int <= r <= KERNEL_RADIUS_MAX as int,
    ensures
        0 <= kernel_spec(d, r) <= KERNEL_VALUE_MAX as int,
{
    lemma_kernel_nonneg(d, r);
    let x = r * r - d * d;
    if x > 0 {
        lemma_radius_parts(r);
        let q = x / 1000;
        let qc = q * q * q;
        let r2 = r * r;
        let r4 = r2 * r2;
        let r8 = r4 * r4;
        let d6 = r8 / 1_000_000;
        vstd::arithmetic::div_mod::lemma_div_pos_is_pos(x, 1000 as int);
        vstd::arithmetic::div_mod::lemma_fundamental_div_mod(x, 1000 as int);
        vstd::arithmetic::div_mod::lemma_mod_division_less_than_divisor(x, 1000 as int);
        assert(d * d >= 0) by (nonlinear_arith);
        assert(1000 * q <= r2) by {
            assert(x == 1000 * q + x % 1000);
        }
        assert(1_000_000_000 * qc <= r2 * r2 * r2) by (nonlinear_arith)
            requires
                qc == q * q * q,
                0 <= q,
                1000 * q <= r2,
        ;
        assert(452_000_000_000_000_000_000 * qc <= 3_000_000_000 * (355 * d6))
            by (nonlinear_arith)
            requires
                1_000_000_000 * qc <= r2 * r2 * r2,
                0 <= qc,
                r8 == r4 * r4,
                r4 == r2 * r2,
                1_000_000 <= r2 <= 400_000_000,
                1_000_000 * d6 + 1_000_000 > r8,
                1_000_000 * d6 <= r8,
        ;
        vstd::arithmetic::div_mod::lemma_div_is_ordered(
            452_000_000_000_000_000_000 * qc,
            3_000_000_000 * (355 * d6),
            355 * d6,
        );
        vstd::arithmetic::div_mod::lemma_div_multiples_vanish(3_000_000_000, 355 * d6);
        assert(3_000_000_000 * (355 * d6) == (355 * d6) * 3_000_000_000) by (nonlinear_arith);
    }
}

/// Law: the kernel is exactly zero wherever the distance reaches the kernel
/// radius.
pub proof fn lemma_kernel_zero_far(d: int, r: int)
    requires
        0 <= r <= d,
    ensures
        kernel_spec(d, r) == 0,
{
    assert(r * r <= d * d) by (nonlinear_arith)
        requires
            0 <= r <= d,
    ;
}

/// Law: the kernel is strictly positive at distance zero.
pub proof fn lemma_kernel_positive_at_center(r: int)
    requires
        KERNEL_RADIUS_MIN as int <= r <= KERNEL_RADIUS_MAX as int,
    ensures
        kernel_spec(0, r) >= 1,
{
    lemma_radius_parts(r);
    let x = r * r;
    let q = x / 1000;
    let qc = q * q * q;
    let r2 = r * r;
    let r4 = r2 * r2;
    let r8 = r4 * r4;
    let d6 = r8 / 1_000_000;
    vstd::arithmetic::div_mod::lemma_div_pos_is_pos(x, 1000 as int);
    vstd::arithmetic::div_mod::lemma_fundamental_div_mod(x, 1000 as int);
    vstd::arithmetic::div_mod::lemma_mod_division_less_than_divisor(x, 1000 as int);
    assert(1000 * q > r2 - 1000) by {
        assert(x == 1000 * q + x % 1000);
    }
    assert(452_000_000_000_000_000_000 * qc >= 355 * d6) by (nonlinear_arith)
        requires
            qc == q * q * q,
            0 <= q,
            1000 * q > r2 - 1000,
            r8 == r4 * r4,
            r4 == r2 * r2,
            1_000_000 <= r2 <= 400_000_000,
            1_000_000 * d6 <= r8,
    ;
    vstd::arithmetic::div_mod::lemma_div_is_ordered(
        355 * d6,
        452_000_000_000_000_000_000 * qc,
        355 * d6,
    );
    vstd::arithmetic::div_mod::lemma_div_by_self(355 * d6);
}

/// Law: for a fixed radius the kernel is monotonically non-increasing in
/// the distance; the field decays as the sample point moves away.
pub proof fn lemma_kernel_monotone(d1: int, d2: int, r: int)
    requires
        0 <= d1 <= d2,
        KERNEL_RADIUS_MIN as int <= r <= KERNEL_RADIUS_MAX as int,
    ensures
        kernel_spec(d2, r) <= kernel_spec(d1, r),
{
    lemma_kernel_nonneg(d1, r);
    lemma_kernel_nonneg(d2, r);
    assert(d1 * d1 <= d2 * d2) by (nonlinear_arith)
        requires
            0 <= d1 <= d2,
    ;
    let x1 = r * r - d1 * d1;
    let x2 = r * r - d2 * d2;
    if x2 > 0 {
        lemma_radius_parts(r);
        let q1 = x1 / 1000;
        let q2 = x2 / 1000;
        vstd::arithmetic::div_mod::lemma_div_is_ordered(x2, x1, 1000 as int);
        vstd::arithmetic::div_mod::lemma_div_pos_is_pos(x2, 1000 as int);
        assert(q2 * q2 * q2 <= q1 * q1 * q1) by (nonlinear_arith)
            requires
                0 <= q2 <= q1,
        ;
        let r8 = (r * r) * (r * r) * ((r * r) * (r * r));
        let den = 355 * (r8 / 1_000_000);
        vstd::arithmetic::div_mod::lemma_div_is_ordered(
            452_000_000_000_000_000_000 * (q2 * q2 * q2),
            452_000_000_000_000_000_000 * (q1 * q1 * q1),
            den,
        );
    }
}

/// The smoothing kernel on fixed-point scalars: exactly `kernel_spec`.
pub fn smoothing_kernel(distance: i64, radius: i64) -> (influence: i64)
    requires
        0 <= distance <= 4_000_000_000_000,
        KERNEL_RADIUS_MIN <= radius <= KERNEL_RADIUS_MAX,
    ensures
        influence as int == kernel_spec(distance as int, radius as int),
        0 <= influence <= KERNEL_VALUE_MAX,
{
    proof {
        lemma_kernel_bounded(distance as int, radius as int);
        assert(0 <= distance as int * (distance as int) <= 16_000_000_000_000_000_000_000_000
            && 0 <= radius as int * (radius as int) <= 400_000_000) by (nonlinear_arith)
            requires
                0 <= distance as int <= 4_000_000_000_000,
                0 <= radius as int <= 20_000,
        ;
    }
    let d2: i128 = (distance as i128) * (distance as i128);
    let r2: i128 = (radius as i128) * (radius as i128);
    let x: i128 = r2 - d2;
    if x <= 0 {
        return 0;
    }
    let q: i128 = x / 1000;
    proof {
        vstd::arithmetic::div_mod::lemma_div_pos_is_pos(x as int, 1000 as int);
        vstd::arithmetic::div_mod::lemma_div_is_ordered(x as int, 400_000_000, 1000 as int);
        vstd::arithmetic::div_mod::lemma_div_multiples_vanish(400_000, 1000 as int);
        assert(0 <= q as int * (q as int) <= 160_000_000_000 && 0 <= q as int * (q as int) * (
        q as int) <= 64_000_000_000_000_000) by (nonlinear_arith)
            requires
                0 <= q as int <= 400_000,
        ;
        lemma_radius_parts(radius as int);
    }
    let qc: i128 = q * q * q;
    let num: i128 = 452_000_000_000_000_000_000 * qc;
    let r4: i128 = r2 * r2;
    let r8: i128 = r4 * r4;
    let den: i128 = 355 * (r8 / 1_000_000);
    proof {
        vstd::arithmetic::div_mod::lemma_div_pos_is_pos(num as int, den as int);
    }
    let influence: i128 = num / den;
    influence as i64
}

/// The density field at a sample point: the kernel-weighted contribution of
/// every particle (unit mass each), summed over the whole world with no
/// neighbor culling. Exactly `density_spec`; never negative.
pub fn calculate_density(particles: &Vec<Particle>, sample_point: Vec2) -> (density: i64)
    requires
        particles_ok(particles@),
        vec2_ok(sample_point),
        particles@.len() <= 1_000_000,
    ensures
        density as int == density_spec(particles@, sample_point),
        density >= 0,
{
    let n = particles.len();
    let mut density: i64 = 0;
    for i in 0..n
        invariant
            particles@.len() == n <= 1_000_000,
            particles_ok(particles@),
            vec2_ok(sample_point),
            density as int == density_spec(particles@.take(i as int), sample_point),
            0 <= density as int <= (i as int) * (KERNEL_VALUE_MAX as int),
    {
        let p = particles[i];
        assert(particle_ok(p));
        let dx: i64 = p.position.x - sample_point.x;
        let dy: i64 = p.position.y - sample_point.y;
        proof {
            assert(0 <= dx as int * (dx as int) <= 4_000_000_000_000_000_000_000_000
                && 0 <= dy as int * (dy as int) <= 4_000_000_000_000_000_000_000_000)
                by (nonlinear_arith)
                requires
                    -2_000_000_000_000 <= dx as int <= 2_000_000_000_000,
                    -2_000_000_000_000 <= dy as int <= 2_000_000_000_000,
            ;
        }
        let dist_sq: i128 = (dx as i128) * (dx as i128) + (dy as i128) * (dy as i128);
        let distance: i64 = isqrt(dist_sq as u128);
        let kernel_radius: i64 = p.radius / 2;
        proof {
            vstd::arithmetic::div_mod::lemma_div_is_ordered(
                2_000,
                p.radius as int,
                2 as int,
            );
            vstd::arithmetic::div_mod::lemma_div_is_ordered(
                p.radius as int,
                40_000,
                2 as int,
            );
            vstd::arithmetic::div_mod::lemma_div_multiples_vanish(1_000, 2 as int);
            vstd::arithmetic::div_mod::lemma_div_multiples_vanish(20_000, 2 as int);
        }
        let influence: i64 = smoothing_kernel(distance, kernel_radius);
        proof {
            assert(particles@.take(i as int + 1).drop_last() == particles@.take(i as int));
            assert(particles@.take(i as int + 1).last() == p);
            assert((i as int) * (KERNEL_VALUE_MAX as int) + KERNEL_VALUE_MAX as int == (i as int
                + 1) * (KERNEL_VALUE_MAX as int)) by (nonlinear_arith);
        }
        density = density + influence;
    }
    proof {
        assert(particles@.take(n as int) == particles@);
    }
    density
}

/// Law: the density is exactly zero wherever every particle is at least its
/// own kernel radius away from the sample point.
pub proof fn lemma_density_zero_when_far(s: Seq<Particle>, point: Vec2)
    requires
        particles_ok(s),
        forall|k: int|
            0 <= k < s.len() ==> particle_distance(#[trigger] s[k], point) >= s[k].radius as int
                / 2,
    ensures
        density_spec(s, point) == 0,
    decreases s.len(),
{
    if s.len() > 0 {
        let p = s.last();
        assert(particle_ok(p));
        vstd::arithmetic::div_mod::lemma_div_pos_is_pos(p.radius as int, 2 as int);
        lemma_kernel_zero_far(particle_distance(p, point), p.radius as int / 2);
        assert(particles_ok(s.drop_last()));
        lemma_density_zero_when_far(s.drop_last(), point);
    }
}

/// The density is a sum of nonnegative kernel values.
pub proof fn lemma_density_nonneg(s: Seq<Particle>, point: Vec2)
    requires
        particles_ok(s),
    ensures
        density_spec(s, point) >= 0,
    decreases s.len(),
{
    if s.len() > 0 {
        let p = s.last();
        assert(particle_ok(p));
        vstd::arithmetic::div_mod::lemma_div_is_ordered(2_000, p.radius as int, 2 as int);
        vstd::arithmetic::div_mod::lemma_div_is_ordered(p.radius as int, 40_000, 2 as int);
        vstd::arithmetic::div_mod::lemma_div_multiples_vanish(1_000, 2 as int);
        vstd::arithmetic::div_mod::lemma_div_multiples_vanish(20_000, 2 as int);
        lemma_kernel_nonneg(particle_distance(p, point), p.radius as int / 2);
        assert(particles_ok(s.drop_last()));
        lemma_density_nonneg(s.drop_last(), point);
    }
}

/// Law: the density is strictly positive wherever the sample point
/// coincides with some particle's position.
pub proof fn lemma_density_positive_at_particle(s: Seq<Particle>, k: int, point: Vec2)
    requires
        particles_ok(s),
        0 <= k < s.len(),
        point == s[k].position,
    ensures
        density_spec(s, point) >= 1,
    decreases s.len(),
{
    let p = s.last();
    assert(particle_ok(p));
    vstd::arithmetic::div_mod::lemma_div_is_ordered(2_000, p.radius as int, 2 as int);
    vstd::arithmetic::div_mod::lemma_div_is_ordered(p.radius as int, 40_000, 2 as int);
    vstd::arithmetic::div_mod::lemma_div_multiples_vanish(1_000, 2 as int);
    vstd::arithmetic::div_mod::lemma_div_multiples_vanish(20_000, 2 as int);
    assert(particles_ok(s.drop_last()));
    if k == s.len() - 1 {
        let dx = p.position.x - point.x;
        let dy = p.position.y - point.y;
        assert(dx * dx == 0 && dy * dy == 0 && is_sqrt_floor(0, 0)) by (nonlinear_arith)
            requires
                dx == 0,
                dy == 0,
        ;
        crate::math::lemma_sqrt_floor_unique(0, 0);
        assert(particle_distance(p, point) == 0);
        lemma_kernel_positive_at_center(p.radius as int / 2);
        lemma_density_nonneg(s.drop_last(), point);
    } else {
        lemma_kernel_nonneg(particle_distance(p, point), p.radius as int / 2);
        assert(s.drop_last()[k] == s[k]);
        lemma_density_positive_at_particle(s.drop_last(), k, point);
    }
}

/// Law: around a single isolated particle the density is monotonically
/// non-increasing in the sample point's distance from the particle; moving
/// the sample point directly away can never raise the reading.
pub proof fn lemma_density_monotone_single(p: Particle, near: Vec2, far: Vec2)
    requires
        particle_ok(p),
        particle_distance(p, near) <= particle_distance(p, far),
    ensures
        density_spec(seq![p], far) <= density_spec(seq![p], near),
{
    reveal_with_fuel(density_spec, 2);
    let s = seq![p];
    assert(s.drop_last() =~= Seq::<Particle>::empty());
    assert(s.last() == p);
    let dx_n = p.position.x - near.x;
    let dy_n = p.position.y - near.y;
    let dx_f = p.position.x - far.x;
    let dy_f = p.position.y - far.y;
    assert(dx_n * dx_n + dy_n * dy_n >= 0 && dx_f * dx_f + dy_f * dy_f >= 0)
        by (nonlinear_arith);
    crate::math::lemma_sqrt_floor(dx_n * dx_n + dy_n * dy_n);
    crate::math::lemma_sqrt_floor(dx_f * dx_f + dy_f * dy_f);
    vstd::arithmetic::div_mod::lemma_div_is_ordered(2_000, p.radius as int, 2 as int);
    vstd::arithmetic::div_mod::lemma_div_is_ordered(p.radius as int, 40_000, 2 as int);
    vstd::arithmetic::div_mod::lemma_div_multiples_vanish(1_000, 2 as int);
    vstd::arithmetic::div_mod::lemma_div_multiples_vanish(20_000, 2 as int);
    lemma_kernel_monotone(
        particle_distance(p, near),
        particle_distance(p, far),
        p.radius as int / 2,
    );
}

} // verus!

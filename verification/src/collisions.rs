//! The pairwise (narrow-phase) collision resolver: an all-pairs overlap
//! test, a positional correction that makes an overlapping pair tangent, and
//! an impulse-based elastic velocity response along the collision normal.

use vstd::prelude::*;

use crate::math::{
    clamp_spec, clamp_wide, is_sqrt_floor, isqrt, sdiv, sdiv_spec, sqrt_floor, MILLI,
    SCALAR_LIMIT,
};
use crate::particle::{
    mass_from_radius, mass_spec, particle_ok, particles_ok, Particle, Vec2,
};

verus! {

/// The quantized collision normal of a pair, scaled by 1000: the center
/// offset divided by `sqrt_floor(10^12 * dist_sq)`, a fixed-point distance
/// with six fractional digits, so the normal's length stays within two
/// milliunits of unit for every admitted pair (`lemma_normal_near_unit`).
/// A coincident pair (distance zero) falls back to the unit x-axis.
pub open spec fn collision_normal(a: Particle, b: Particle) -> (int, int) {
    let dx = b.position.x - a.position.x;
    let dy = b.position.y - a.position.y;
    let d2 = sqrt_floor(1_000_000_000_000 * (dx * dx + dy * dy));
    if d2 == 0 {
        (MILLI as int, 0)
    } else {
        (sdiv_spec(dx * 1_000_000_000, d2), sdiv_spec(dy * 1_000_000_000, d2))
    }
}

/// The two particles of an unordered pair after one resolution step.
///
/// Two circles intersect iff their center distance is strictly below the
/// radius sum. For an intersecting pair the resolver rescales the center
/// offset to the tangent length `radius_a + radius_b` (through the
/// high-precision distance `d2`, so the new separation is within two
/// milliunits of tangency in general and exact for an axis-aligned pair),
/// and splits the move equally between the two particles — each moves by
/// half the penetration along the collision normal, the odd milliunit going
/// to `b` so the total is exact. It then exchanges momentum along the
/// normal: each particle's impulse is scaled by twice the *other*
/// particle's share of the total mass, the frictionless elastic response.
/// A coincident pair (distance zero) separates along the unit x-axis.
pub open spec fn resolve_pair_spec(a: Particle, b: Particle) -> (Particle, Particle) {
    let dx = b.position.x - a.position.x;
    let dy = b.position.y - a.position.y;
    let dist_sq = dx * dx + dy * dy;
    let rsum = a.radius + b.radius;
    if dist_sq < rsum * rsum {
        let d2 = sqrt_floor(1_000_000_000_000 * dist_sq);
        let tx = if d2 == 0 {
            rsum as int
        } else {
            sdiv_spec(dx * rsum * 1_000_000, d2)
        };
        let ty = if d2 == 0 {
            0
        } else {
            sdiv_spec(dy * rsum * 1_000_000, d2)
        };
        let mx = tx - dx;
        let my = ty - dy;
        let sax = sdiv_spec(mx, 2);
        let sbx = mx - sax;
        let say = sdiv_spec(my, 2);
        let sby = my - say;
        let n = collision_normal(a, b);
        let nx = n.0;
        let ny = n.1;
        let ma = mass_spec(a.radius as int);
        let mb = mass_spec(b.radius as int);
        let total = ma + mb;
        let dot = sdiv_spec(
            (b.velocity.x - a.velocity.x) * nx + (b.velocity.y - a.velocity.y) * ny,
            MILLI as int,
        );
        let ka = sdiv_spec(2 * mb * dot, total);
        let kb = sdiv_spec(2 * ma * dot, total);
        (
            Particle {
                position: Vec2 {
                    x: clamp_spec(a.position.x - sax) as i64,
                    y: clamp_spec(a.position.y - say) as i64,
                },
                velocity: Vec2 {
                    x: clamp_spec(a.velocity.x + sdiv_spec(ka * nx, MILLI as int)) as i64,
                    y: clamp_spec(a.velocity.y + sdiv_spec(ka * ny, MILLI as int)) as i64,
                },
                radius: a.radius,
            },
            Particle {
                position: Vec2 {
                    x: clamp_spec(b.position.x + sbx) as i64,
                    y: clamp_spec(b.position.y + sby) as i64,
                },
                velocity: Vec2 {
                    x: clamp_spec(b.velocity.x - sdiv_spec(kb * nx, MILLI as int)) as i64,
                    y: clamp_spec(b.velocity.y - sdiv_spec(kb * ny, MILLI as int)) as i64,
                },
                radius: b.radius,
            },
        )
    } else {
        (a, b)
    }
}

/// Facts about the high-precision distance of an overlapping pair:
/// `d2 = sqrt_floor(10^12 * dist_sq)` brackets `10^12 * dist_sq`, stays
/// below `10^6 * rsum`, is at least `10^6` for any non-coincident pair, and
/// vanishes exactly for a coincident one.
proof fn lemma_overlap_sqrt_facts(dx: int, dy: int, rsum: int)
    requires
        dx * dx + dy * dy < rsum * rsum,
        0 < rsum <= 100_000,
    ensures
        ({
            let s = dx * dx + dy * dy;
            let d2 = sqrt_floor(1_000_000_000_000 * s);
            &&& 0 <= s
            &&& 0 <= d2
            &&& d2 * d2 <= 1_000_000_000_000 * s
            &&& 1_000_000_000_000 * s <= d2 * d2 + 2 * d2
            &&& d2 < 1_000_000 * rsum
            &&& (s >= 1 ==> d2 >= 1_000_000)
            &&& (s == 0 ==> d2 == 0)
            &&& -rsum < dx < rsum
            &&& -rsum < dy < rsum
        }),
{
    let s = dx * dx + dy * dy;
    assert(0 <= dx * dx && 0 <= dy * dy) by (nonlinear_arith);
    crate::math::lemma_sqrt_floor(1_000_000_000_000 * s);
    let d2 = sqrt_floor(1_000_000_000_000 * s);
    assert((1_000_000_000_000 * s <= d2 * d2 + 2 * d2) && d2 < 1_000_000 * rsum && (s >= 1
        ==> d2 >= 1_000_000) && (s == 0 ==> d2 == 0) && -rsum < dx < rsum && -rsum < dy
        < rsum) by (nonlinear_arith)
        requires
            0 <= d2,
            d2 * d2 <= 1_000_000_000_000 * s,
            1_000_000_000_000 * s < (d2 + 1) * (d2 + 1),
            s == dx * dx + dy * dy,
            0 <= dx * dx,
            0 <= dy * dy,
            s < rsum * rsum,
            0 < rsum <= 100_000,
    ;
}

/// Scaling the center offset `(dx, dy)` to length `c` through the
/// high-precision distance `d2`: each scaled component stays within
/// `[-c, c]` and the scaled vector's squared length within
/// `[(c-2)^2, (c+2)^2]` — within two milliunits of `c` on either side.
proof fn lemma_scaled_pair_bounds(dx: int, dy: int, c: int, d2: int)
    requires
        d2 * d2 <= 1_000_000_000_000 * (dx * dx + dy * dy),
        1_000_000_000_000 * (dx * dx + dy * dy) <= d2 * d2 + 2 * d2,
        1_000_000 <= d2,
        320 <= c <= 100_000,
    ensures
        ({
            let tx = sdiv_spec(dx * c * 1_000_000, d2);
            let ty = sdiv_spec(dy * c * 1_000_000, d2);
            &&& -c <= tx <= c
            &&& -c <= ty <= c
            &&& (c - 2) * (c - 2) <= tx * tx + ty * ty <= (c + 2) * (c + 2)
        }),
{
    let s = dx * dx + dy * dy;
    let u = if dx >= 0 { dx } else { -dx };
    let v = if dy >= 0 { dy } else { -dy };
    assert(u * u == dx * dx && v * v == dy * dy && 0 <= u && 0 <= v && 1_000_000 * u <= d2
        && 1_000_000 * v <= d2) by (nonlinear_arith)
        requires
            (dx >= 0 ==> u == dx) && (dx < 0 ==> u == -dx),
            (dy >= 0 ==> v == dy) && (dy < 0 ==> v == -dy),
            1_000_000_000_000 * (dx * dx + dy * dy) <= d2 * d2 + 2 * d2,
            0 <= d2,
    ;
    let ax = u * c * 1_000_000;
    let ay = v * c * 1_000_000;
    assert(0 <= ax && 0 <= ay && ax <= d2 * c && ay <= d2 * c) by (nonlinear_arith)
        requires
            ax == u * c * 1_000_000,
            ay == v * c * 1_000_000,
            0 <= u,
            0 <= v,
            1_000_000 * u <= d2,
            1_000_000 * v <= d2,
            0 < c,
    ;
    vstd::arithmetic::div_mod::lemma_fundamental_div_mod(ax, d2);
    vstd::arithmetic::div_mod::lemma_mod_division_less_than_divisor(ax, d2);
    vstd::arithmetic::div_mod::lemma_fundamental_div_mod(ay, d2);
    vstd::arithmetic::div_mod::lemma_mod_division_less_than_divisor(ay, d2);
    vstd::arithmetic::div_mod::lemma_div_pos_is_pos(ax, d2);
    vstd::arithmetic::div_mod::lemma_div_pos_is_pos(ay, d2);
    vstd::arithmetic::div_mod::lemma_div_is_ordered(ax, d2 * c, d2);
    vstd::arithmetic::div_mod::lemma_div_is_ordered(ay, d2 * c, d2);
    vstd::arithmetic::div_mod::lemma_div_multiples_vanish(c, d2);
    vstd::arithmetic::div_mod::lemma_div_of0(d2);
    let px = ax / d2;
    let py = ay / d2;
    assert(0 <= px <= c && 0 <= py <= c);
    assert(px * d2 <= ax && ax < (px + 1) * d2) by (nonlinear_arith)
        requires
            ax == d2 * px + ax % d2,
            0 <= ax % d2 < d2,
    ;
    assert(py * d2 <= ay && ay < (py + 1) * d2) by (nonlinear_arith)
        requires
            ay == d2 * py + ay % d2,
            0 <= ay % d2 < d2,
    ;
    let tx = sdiv_spec(dx * c * 1_000_000, d2);
    let ty = sdiv_spec(dy * c * 1_000_000, d2);
    assert((dx >= 0 ==> dx * c * 1_000_000 == ax) && (dx < 0 ==> dx * c * 1_000_000 == -ax)
        && (dy >= 0 ==> dy * c * 1_000_000 == ay) && (dy < 0 ==> dy * c * 1_000_000 == -ay))
        by (nonlinear_arith)
        requires
            (dx >= 0 ==> u == dx) && (dx < 0 ==> u == -dx),
            (dy >= 0 ==> v == dy) && (dy < 0 ==> v == -dy),
            ax == u * c * 1_000_000,
            ay == v * c * 1_000_000,
    ;
    assert(tx == px || tx == -px);
    assert(ty == py || ty == -py);
    assert(tx * tx == px * px && ty * ty == py * py && -px <= tx <= px && -py <= ty <= py)
        by (nonlinear_arith)
        requires
            tx == px || tx == -px,
            ty == py || ty == -py,
            0 <= px,
            0 <= py,
    ;
    // Upper window: the scaled vector cannot overshoot c by more than 2.
    assert(px * px * (d2 * d2) <= ax * ax && py * py * (d2 * d2) <= ay * ay)
        by (nonlinear_arith)
        requires
            px * d2 <= ax,
            py * d2 <= ay,
            0 <= px,
            0 <= py,
            0 < d2,
    ;
    assert(ax * ax + ay * ay == (u * u + v * v) * (c * c) * 1_000_000_000_000)
        by (nonlinear_arith)
        requires
            ax == u * c * 1_000_000,
            ay == v * c * 1_000_000,
    ;
    assert((px * px + py * py) * (d2 * d2) <= (c * c) * (d2 * d2) + (2 * (c * c)) * d2)
        by (nonlinear_arith)
        requires
            px * px * (d2 * d2) <= ax * ax,
            py * py * (d2 * d2) <= ay * ay,
            ax * ax + ay * ay == (u * u + v * v) * (c * c) * 1_000_000_000_000,
            1_000_000_000_000 * (u * u + v * v) <= d2 * d2 + 2 * d2,
            u * u == dx * dx,
            v * v == dy * dy,
            0 <= c * c,
    ;
    assert(px * px + py * py <= c * c + 4 * c) by (nonlinear_arith)
        requires
            (px * px + py * py) * (d2 * d2) <= (c * c) * (d2 * d2) + (2 * (c * c)) * d2,
            1_000_000 <= d2,
            320 <= c <= 100_000,
            0 <= px * px + py * py,
    ;
    // Lower window: the scaled vector cannot undershoot c by more than 2.
    assert(2 * (px + py) <= 3 * c) by (nonlinear_arith)
        requires
            px * px + py * py <= c * c + 4 * c,
            0 <= px,
            0 <= py,
            320 <= c,
    ;
    assert(ax * ax < px * px * (d2 * d2) + 2 * px * (d2 * d2) + d2 * d2 && ay * ay < py * py
        * (d2 * d2) + 2 * py * (d2 * d2) + d2 * d2) by (nonlinear_arith)
        requires
            ax < (px + 1) * d2,
            ay < (py + 1) * d2,
            0 <= ax,
            0 <= ay,
            0 <= px,
            0 <= py,
            0 < d2,
    ;
    assert((c * c) * (d2 * d2) <= ax * ax + ay * ay) by (nonlinear_arith)
        requires
            ax * ax + ay * ay == (u * u + v * v) * (c * c) * 1_000_000_000_000,
            d2 * d2 <= 1_000_000_000_000 * (u * u + v * v),
            0 <= c * c,
    ;
    assert(px * px + py * py >= c * c - 3 * c - 1) by (nonlinear_arith)
        requires
            (c * c) * (d2 * d2) <= ax * ax + ay * ay,
            ax * ax < px * px * (d2 * d2) + 2 * px * (d2 * d2) + d2 * d2,
            ay * ay < py * py * (d2 * d2) + 2 * py * (d2 * d2) + d2 * d2,
            2 * (px + py) <= 3 * c,
            0 < d2,
    ;
    assert((c - 2) * (c - 2) <= px * px + py * py && px * px + py * py <= (c + 2) * (c + 2))
        by (nonlinear_arith)
        requires
            c * c - 3 * c - 1 <= px * px + py * py,
            px * px + py * py <= c * c + 4 * c,
            320 <= c,
    ;
}

/// The impulse magnitude `2 * m * dot / total` along the normal, bounded by
/// `2 * |dot|` because `m <= total`.
fn impulse_coeff(m: i64, total: i64, dot: i64) -> (k: i128)
    requires
        0 < m <= total,
        total <= 1_200_000_000_000,
        -4_000_000_000_000_000 <= dot <= 4_000_000_000_000_000,
    ensures
        k as int == sdiv_spec(2 * (m as int) * (dot as int), total as int),
        dot >= 0 ==> 0 <= k as int <= 2 * (dot as int),
        dot < 0 ==> 2 * (dot as int) <= k as int <= 0,
{
    proof {
        assert(-9_600_000_000_000_000_000_000_000_000 <= 2 * (m as int) * (dot as int)
            <= 9_600_000_000_000_000_000_000_000_000
            && (dot as int >= 0 ==> 0 <= 2 * (m as int) * (dot as int) <= total as int * (2
            * (dot as int)))
            && ((dot as int) < 0 ==> 2 * (m as int) * (dot as int) < 0 && -(2 * (m as int) * (
            dot as int)) <= total as int * (2 * -(dot as int)))) by (nonlinear_arith)
            requires
                0 < (m as int) <= total as int,
                total as int <= 1_200_000_000_000,
                -4_000_000_000_000_000 <= (dot as int) <= 4_000_000_000_000_000,
        ;
    }
    let num: i128 = 2 * (m as i128) * (dot as i128);
    let k = sdiv(num, total as i128);
    proof {
        if dot >= 0 {
            vstd::arithmetic::div_mod::lemma_div_is_ordered(
                num as int,
                total as int * (2 * (dot as int)),
                total as int,
            );
            vstd::arithmetic::div_mod::lemma_div_multiples_vanish(
                2 * (dot as int),
                total as int,
            );
        } else {
            vstd::arithmetic::div_mod::lemma_div_is_ordered(
                -(num as int),
                total as int * (2 * -(dot as int)),
                total as int,
            );
            vstd::arithmetic::div_mod::lemma_div_multiples_vanish(
                2 * -(dot as int),
                total as int,
            );
        }
    }
    k
}

/// Resolves one unordered pair: returns the pair unchanged when the circles
/// do not strictly overlap, else the corrected, impulse-adjusted pair.
#[verifier::rlimit(60)]
pub fn resolve_pair(a: Particle, b: Particle) -> (r: (Particle, Particle))
    requires
        particle_ok(a),
        particle_ok(b),
    ensures
        r == resolve_pair_spec(a, b),
        particle_ok(r.0),
        particle_ok(r.1),
        r.0.radius == a.radius,
        r.1.radius == b.radius,
{
    let dxi: i64 = b.position.x - a.position.x;
    let dyi: i64 = b.position.y - a.position.y;
    proof {
        assert(0 <= dxi as int * (dxi as int) <= 4_000_000_000_000_000_000_000_000
            && 0 <= dyi as int * (dyi as int) <= 4_000_000_000_000_000_000_000_000)
            by (nonlinear_arith)
            requires
                -2_000_000_000_000 <= dxi as int <= 2_000_000_000_000,
                -2_000_000_000_000 <= dyi as int <= 2_000_000_000_000,
        ;
    }
    let dist_sq: i128 = (dxi as i128) * (dxi as i128) + (dyi as i128) * (dyi as i128);
    let rsum: i64 = a.radius + b.radius;
    proof {
        assert(0 < rsum as int * (rsum as int) <= 6_400_000_000) by (nonlinear_arith)
            requires
                0 < rsum as int <= 80_000,
        ;
    }
    let rs2: i128 = (rsum as i128) * (rsum as i128);
    if dist_sq < rs2 {
        proof {
            lemma_overlap_sqrt_facts(dxi as int, dyi as int, rsum as int);
        }
        let big: u128 = (dist_sq as u128) * 1_000_000_000_000;
        let d2: i64 = isqrt(big);
        let tx: i64;
        let ty: i64;
        let nx: i64;
        let ny: i64;
        if d2 == 0 {
            proof {
                assert(dxi as int == 0 && dyi as int == 0) by (nonlinear_arith)
                    requires
                        dxi as int * (dxi as int) + dyi as int * (dyi as int) == 0,
                        0 <= dxi as int * (dxi as int),
                        0 <= dyi as int * (dyi as int),
                ;
            }
            tx = rsum;
            ty = 0;
            nx = MILLI;
            ny = 0;
        } else {
            proof {
                lemma_scaled_pair_bounds(dxi as int, dyi as int, rsum as int, d2 as int);
                lemma_scaled_pair_bounds(dxi as int, dyi as int, 1000, d2 as int);
                assert(dxi as int * 1000 * 1_000_000 == dxi as int * 1_000_000_000
                    && dyi as int * 1000 * 1_000_000 == dyi as int * 1_000_000_000);
                assert(-10_000_000_000 <= dxi as int * (rsum as int) <= 10_000_000_000
                    && -10_000_000_000 <= dyi as int * (rsum as int) <= 10_000_000_000)
                    by (nonlinear_arith)
                    requires
                        -(rsum as int) < (dxi as int) < (rsum as int),
                        -(rsum as int) < (dyi as int) < (rsum as int),
                        0 < (rsum as int) <= 100_000,
                ;
            }
            let txw: i128 = sdiv((dxi as i128) * (rsum as i128) * 1_000_000, d2 as i128);
            let tyw: i128 = sdiv((dyi as i128) * (rsum as i128) * 1_000_000, d2 as i128);
            tx = txw as i64;
            ty = tyw as i64;
            let nxw: i128 = sdiv((dxi as i128) * 1_000_000_000, d2 as i128);
            let nyw: i128 = sdiv((dyi as i128) * 1_000_000_000, d2 as i128);
            nx = nxw as i64;
            ny = nyw as i64;
        }
        let mx: i64 = tx - dxi;
        let my: i64 = ty - dyi;
        let sax: i64 = sdiv(mx as i128, 2) as i64;
        let sbx: i64 = mx - sax;
        let say: i64 = sdiv(my as i128, 2) as i64;
        let sby: i64 = my - say;
        let apx: i64 = clamp_wide(a.position.x as i128 - sax as i128);
        let apy: i64 = clamp_wide(a.position.y as i128 - say as i128);
        let bpx: i64 = clamp_wide(b.position.x as i128 + sbx as i128);
        let bpy: i64 = clamp_wide(b.position.y as i128 + sby as i128);
        let ma: i64 = mass_from_radius(a.radius);
        let mb: i64 = mass_from_radius(b.radius);
        let total: i64 = ma + mb;
        let relx: i64 = b.velocity.x - a.velocity.x;
        let rely: i64 = b.velocity.y - a.velocity.y;
        proof {
            assert(-2_000_000_000_000_000 <= relx as int * (nx as int) <= 2_000_000_000_000_000
                && -2_000_000_000_000_000 <= rely as int * (ny as int)
                <= 2_000_000_000_000_000) by (nonlinear_arith)
                requires
                    -2_000_000_000_000 <= relx as int <= 2_000_000_000_000,
                    -2_000_000_000_000 <= rely as int <= 2_000_000_000_000,
                    -1000 <= nx as int <= 1000,
                    -1000 <= ny as int <= 1000,
            ;
        }
        let dot_num: i128 = (relx as i128) * (nx as i128) + (rely as i128) * (ny as i128);
        let dot: i128 = sdiv(dot_num, MILLI as i128);
        let dot64: i64 = dot as i64;
        let ka: i128 = impulse_coeff(mb, total, dot64);
        let kb: i128 = impulse_coeff(ma, total, dot64);
        proof {
            assert(-8_000_000_000_000_000_000 <= ka as int * (nx as int)
                <= 8_000_000_000_000_000_000
                && -8_000_000_000_000_000_000 <= ka as int * (ny as int)
                <= 8_000_000_000_000_000_000
                && -8_000_000_000_000_000_000 <= kb as int * (nx as int)
                <= 8_000_000_000_000_000_000
                && -8_000_000_000_000_000_000 <= kb as int * (ny as int)
                <= 8_000_000_000_000_000_000) by (nonlinear_arith)
                requires
                    -8_000_000_000_000_000 <= ka as int <= 8_000_000_000_000_000,
                    -8_000_000_000_000_000 <= kb as int <= 8_000_000_000_000_000,
                    -1000 <= nx as int <= 1000,
                    -1000 <= ny as int <= 1000,
            ;
        }
        let avx: i64 = clamp_wide(a.velocity.x as i128 + sdiv(ka * (nx as i128), MILLI as i128));
        let avy: i64 = clamp_wide(a.velocity.y as i128 + sdiv(ka * (ny as i128), MILLI as i128));
        let bvx: i64 = clamp_wide(b.velocity.x as i128 - sdiv(kb * (nx as i128), MILLI as i128));
        let bvy: i64 = clamp_wide(b.velocity.y as i128 - sdiv(kb * (ny as i128), MILLI as i128));
        let ra = Particle {
            position: Vec2 { x: apx, y: apy },
            velocity: Vec2 { x: avx, y: avy },
            radius: a.radius,
        };
        let rb = Particle {
            position: Vec2 { x: bpx, y: bpy },
            velocity: Vec2 { x: bvx, y: bvy },
            radius: b.radius,
        };
        proof {
            assert((ra, rb) == resolve_pair_spec(a, b));
        }
        (ra, rb)
    } else {
        (a, b)
    }
}

/// Law: for every admitted overlapping pair the quantized collision normal
/// is within two milliunits of unit length: each component lies in
/// [-1000, 1000] and the squared length in [998^2, 1002^2]. (The fallback
/// normal of a coincident pair is exactly unit.)
pub proof fn lemma_normal_near_unit(a: Particle, b: Particle)
    requires
        particle_ok(a),
        particle_ok(b),
        (b.position.x - a.position.x) * (b.position.x - a.position.x) + (b.position.y
            - a.position.y) * (b.position.y - a.position.y) < (a.radius + b.radius) * (a.radius
            + b.radius),
    ensures
        ({
            let n = collision_normal(a, b);
            &&& -1000 <= n.0 <= 1000
            &&& -1000 <= n.1 <= 1000
            &&& 996_004 <= n.0 * n.0 + n.1 * n.1 <= 1_004_004
        }),
{
    let dx = b.position.x - a.position.x;
    let dy = b.position.y - a.position.y;
    let rsum = a.radius + b.radius;
    let s = dx * dx + dy * dy;
    assert(0 <= dx * dx && 0 <= dy * dy) by (nonlinear_arith);
    lemma_overlap_sqrt_facts(dx, dy, rsum);
    let d2 = sqrt_floor(1_000_000_000_000 * s);
    if d2 == 0 {
        assert(1000 * 1000 == 1_000_000) by (nonlinear_arith);
    } else {
        assert(s >= 1) by (nonlinear_arith)
            requires
                0 <= dx * dx,
                0 <= dy * dy,
                s == dx * dx + dy * dy,
                !(s == 0),
        ;
        lemma_scaled_pair_bounds(dx, dy, 1000, d2);
        assert(dx * 1000 * 1_000_000 == dx * 1_000_000_000 && dy * 1000 * 1_000_000 == dy
            * 1_000_000_000);
    }
}

/// Law: one resolution step on a lone overlapping pair leaves the centers
/// within two milliunits of exact tangency on either side — no residual
/// overlap beyond rounding, and no overshoot beyond rounding. On a common
/// axis the separation is exact (`lemma_resolve_separates_axis`). The
/// margin keeps the correction away from the coordinate clamp.
pub proof fn lemma_resolve_tangent_bound(a: Particle, b: Particle)
    requires
        particle_ok(a),
        particle_ok(b),
        (b.position.x - a.position.x) * (b.position.x - a.position.x) + (b.position.y
            - a.position.y) * (b.position.y - a.position.y) < (a.radius + b.radius) * (a.radius
            + b.radius),
        -(SCALAR_LIMIT as int) + 1_000_000 <= a.position.x <= SCALAR_LIMIT as int - 1_000_000,
        -(SCALAR_LIMIT as int) + 1_000_000 <= a.position.y <= SCALAR_LIMIT as int - 1_000_000,
        -(SCALAR_LIMIT as int) + 1_000_000 <= b.position.x <= SCALAR_LIMIT as int - 1_000_000,
        -(SCALAR_LIMIT as int) + 1_000_000 <= b.position.y <= SCALAR_LIMIT as int - 1_000_000,
    ensures
        ({
            let r = resolve_pair_spec(a, b);
            let ndx = r.1.position.x - r.0.position.x;
            let ndy = r.1.position.y - r.0.position.y;
            let rsum = a.radius + b.radius;
            (rsum - 2) * (rsum - 2) <= ndx * ndx + ndy * ndy <= (rsum + 2) * (rsum + 2)
        }),
{
    let dx = b.position.x - a.position.x;
    let dy = b.position.y - a.position.y;
    let rsum = a.radius + b.radius;
    let s = dx * dx + dy * dy;
    assert(0 <= dx * dx && 0 <= dy * dy) by (nonlinear_arith);
    lemma_overlap_sqrt_facts(dx, dy, rsum);
    let d2 = sqrt_floor(1_000_000_000_000 * s);
    let tx: int;
    let ty: int;
    if d2 == 0 {
        assert(dx == 0 && dy == 0) by (nonlinear_arith)
            requires
                s == dx * dx + dy * dy,
                s == 0,
                0 <= dx * dx,
                0 <= dy * dy,
        ;
        tx = rsum as int;
        ty = 0;
    } else {
        assert(s >= 1) by (nonlinear_arith)
            requires
                0 <= dx * dx,
                0 <= dy * dy,
                s == dx * dx + dy * dy,
                !(s == 0),
        ;
        lemma_scaled_pair_bounds(dx, dy, rsum as int, d2);
        tx = sdiv_spec(dx * rsum * 1_000_000, d2);
        ty = sdiv_spec(dy * rsum * 1_000_000, d2);
    }
    assert((rsum - 2) * (rsum - 2) <= tx * tx + ty * ty <= (rsum + 2) * (rsum + 2))
        by (nonlinear_arith)
        requires
            (d2 == 0 ==> tx == rsum as int && ty == 0),
            (d2 != 0 ==> (rsum as int - 2) * (rsum as int - 2) <= tx * tx + ty * ty <= (rsum
                as int + 2) * (rsum as int + 2)),
            4_000 <= rsum as int,
    ;
    // The halves of the move cancel in the final separation, and the margin
    // keeps every moved coordinate inside the clamp, so the new separation
    // is exactly (tx, ty).
    let mx = tx - dx;
    let my = ty - dy;
    if mx >= 0 {
        vstd::arithmetic::div_mod::lemma_div_pos_is_pos(mx, 2);
        vstd::arithmetic::div_mod::lemma_div_nonincreasing(mx, 2);
    } else {
        vstd::arithmetic::div_mod::lemma_div_pos_is_pos(-mx, 2);
        vstd::arithmetic::div_mod::lemma_div_nonincreasing(-mx, 2);
    }
    if my >= 0 {
        vstd::arithmetic::div_mod::lemma_div_pos_is_pos(my, 2);
        vstd::arithmetic::div_mod::lemma_div_nonincreasing(my, 2);
    } else {
        vstd::arithmetic::div_mod::lemma_div_pos_is_pos(-my, 2);
        vstd::arithmetic::div_mod::lemma_div_nonincreasing(-my, 2);
    }
}

/// Law: an overlapping pair whose centers lie on a common horizontal line is
/// exactly tangent after one resolution step: the centers end exactly
/// `radius_a + radius_b` apart, and neither center leaves that line. (For a
/// pair in general position the separation is exact to within two
/// milliunits: `lemma_resolve_tangent_bound`.) The margin on the
/// coordinates keeps the correction away from the clamp.
pub proof fn lemma_resolve_separates_axis(a: Particle, b: Particle)
    requires
        particle_ok(a),
        particle_ok(b),
        a.position.y == b.position.y,
        a.position.x <= b.position.x,
        b.position.x - a.position.x < a.radius + b.radius,
        -(SCALAR_LIMIT as int) + 100_000 <= a.position.x,
        b.position.x <= SCALAR_LIMIT as int - 100_000,
    ensures
        resolve_pair_spec(a, b).1.position.x - resolve_pair_spec(a, b).0.position.x == a.radius
            + b.radius,
        resolve_pair_spec(a, b).0.position.y == a.position.y,
        resolve_pair_spec(a, b).1.position.y == b.position.y,
        resolve_pair_spec(a, b).0.radius == a.radius,
        resolve_pair_spec(a, b).1.radius == b.radius,
{
    let dx = b.position.x - a.position.x;
    let dy = b.position.y - a.position.y;
    let rsum = a.radius + b.radius;
    assert(dy * dy == 0 && dx * dx < rsum * rsum && 0 <= dx * dx) by (nonlinear_arith)
        requires
            dy == 0,
            0 <= dx < rsum,
    ;
    let dist_sq = dx * dx + dy * dy;
    vstd::arithmetic::div_mod::lemma_div_of0(2);
    if dx == 0 {
        assert(is_sqrt_floor(0, 0)) by (nonlinear_arith);
        crate::math::lemma_sqrt_floor_unique(0, 0);
        // Coincident centers: the pair separates along the unit x-axis.
        vstd::arithmetic::div_mod::lemma_div_pos_is_pos(rsum as int, 2);
        vstd::arithmetic::div_mod::lemma_div_nonincreasing(rsum as int, 2);
    } else {
        assert(1_000_000_000_000 * dist_sq == (1_000_000 * dx) * (1_000_000 * dx)
            && is_sqrt_floor(1_000_000_000_000 * dist_sq, 1_000_000 * dx)) by (nonlinear_arith)
            requires
                dx > 0,
                dist_sq == dx * dx + dy * dy,
                dy == 0,
        ;
        crate::math::lemma_sqrt_floor_unique(1_000_000_000_000 * dist_sq, 1_000_000 * dx);
        let d2 = 1_000_000 * dx;
        assert(dx * rsum * 1_000_000 == d2 * (rsum as int) && dx * rsum * 1_000_000 >= 0)
            by (nonlinear_arith)
            requires
                d2 == 1_000_000 * dx,
                dx > 0,
                0 < rsum,
        ;
        vstd::arithmetic::div_mod::lemma_div_multiples_vanish(rsum as int, d2);
        assert(sdiv_spec(dx * rsum * 1_000_000, d2) == rsum);
        assert(dy * rsum * 1_000_000 == 0) by (nonlinear_arith)
            requires
                dy == 0,
        ;
        vstd::arithmetic::div_mod::lemma_div_of0(d2);
        assert(sdiv_spec(dy * rsum * 1_000_000, d2) == 0);
        let mx = rsum - dx;
        vstd::arithmetic::div_mod::lemma_div_pos_is_pos(mx, 2);
        vstd::arithmetic::div_mod::lemma_div_nonincreasing(mx, 2);
    }
}

/// Law: two particles of equal radius colliding head-on along the x axis
/// with equal and opposite velocities exchange those velocities (the
/// elastic, equal-mass special case), and end exactly tangent.
pub proof fn lemma_head_on_equal_mass(a: Particle, b: Particle)
    requires
        particle_ok(a),
        particle_ok(b),
        a.radius == b.radius,
        a.position.y == b.position.y,
        a.position.x <= b.position.x,
        b.position.x - a.position.x < a.radius + b.radius,
        -(SCALAR_LIMIT as int) + 100_000 <= a.position.x,
        b.position.x <= SCALAR_LIMIT as int - 100_000,
        b.velocity.x == -a.velocity.x,
        a.velocity.y == 0,
        b.velocity.y == 0,
    ensures
        resolve_pair_spec(a, b).0.velocity.x == b.velocity.x,
        resolve_pair_spec(a, b).1.velocity.x == a.velocity.x,
        resolve_pair_spec(a, b).0.velocity.y == 0,
        resolve_pair_spec(a, b).1.velocity.y == 0,
        resolve_pair_spec(a, b).1.position.x - resolve_pair_spec(a, b).0.position.x == a.radius
            + b.radius,
{
    lemma_resolve_separates_axis(a, b);
    let dx = b.position.x - a.position.x;
    let dy = b.position.y - a.position.y;
    let rsum = a.radius + b.radius;
    assert(dy * dy == 0 && dx * dx < rsum * rsum && 0 <= dx * dx) by (nonlinear_arith)
        requires
            dy == 0,
            0 <= dx < rsum,
    ;
    let dist_sq = dx * dx + dy * dy;
    let d2 = sqrt_floor(1_000_000_000_000 * dist_sq);
    // The collision normal is exactly (1000, 0), whether the centers are
    // apart on the axis or coincide (the fallback case).
    let nxv: int;
    let nyv: int;
    if dx == 0 {
        assert(is_sqrt_floor(0, 0)) by (nonlinear_arith);
        crate::math::lemma_sqrt_floor_unique(0, 0);
        nxv = MILLI as int;
        nyv = 0;
    } else {
        assert(1_000_000_000_000 * dist_sq == (1_000_000 * dx) * (1_000_000 * dx)
            && is_sqrt_floor(1_000_000_000_000 * dist_sq, 1_000_000 * dx)) by (nonlinear_arith)
            requires
                dx > 0,
                dist_sq == dx * dx + dy * dy,
                dy == 0,
        ;
        crate::math::lemma_sqrt_floor_unique(1_000_000_000_000 * dist_sq, 1_000_000 * dx);
        assert(dx * 1_000_000_000 == (1_000_000 * dx) * 1000 && dx * 1_000_000_000 >= 0)
            by (nonlinear_arith)
            requires
                dx > 0,
        ;
        vstd::arithmetic::div_mod::lemma_div_multiples_vanish(1000, 1_000_000 * dx);
        assert(dy * 1_000_000_000 == 0) by (nonlinear_arith)
            requires
                dy == 0,
        ;
        vstd::arithmetic::div_mod::lemma_div_of0(1_000_000 * dx);
        nxv = sdiv_spec(dx * 1_000_000_000, d2);
        nyv = sdiv_spec(dy * 1_000_000_000, d2);
    }
    assert(nxv == 1000);
    assert(nyv == 0);
    let m = mass_spec(a.radius as int);
    assert(355 * (a.radius as int) * (a.radius as int) >= 1_420_000_000) by (nonlinear_arith)
        requires
            a.radius as int >= 2_000,
    ;
    vstd::arithmetic::div_mod::lemma_div_is_ordered(
        1_420_000_000,
        355 * (a.radius as int) * (a.radius as int),
        113_000 as int,
    );
    assert(m >= 12_566);
    let relx = b.velocity.x - a.velocity.x;
    let rely = b.velocity.y - a.velocity.y;
    assert(relx * nxv == 1000 * relx && rely * nyv == 0) by (nonlinear_arith)
        requires
            nxv == 1000,
            nyv == 0,
    ;
    vstd::arithmetic::div_mod::lemma_div_of0(1000);
    if relx >= 0 {
        vstd::arithmetic::div_mod::lemma_div_multiples_vanish(relx, 1000);
    } else {
        vstd::arithmetic::div_mod::lemma_div_multiples_vanish(-relx, 1000);
    }
    let dot = sdiv_spec(relx * nxv + rely * nyv, MILLI as int);
    assert(dot == relx);
    let total = mass_spec(a.radius as int) + mass_spec(b.radius as int);
    assert(total == 2 * m);
    if dot >= 0 {
        vstd::arithmetic::div_mod::lemma_div_multiples_vanish(dot, total);
    } else {
        vstd::arithmetic::div_mod::lemma_div_multiples_vanish(-dot, total);
    }
    assert(2 * m * dot == total * dot && -(2 * m * dot) == total * -dot) by (nonlinear_arith)
        requires
            total == 2 * m,
    ;
    let ka = sdiv_spec(2 * mass_spec(b.radius as int) * dot, total);
    let kb = sdiv_spec(2 * mass_spec(a.radius as int) * dot, total);
    assert(ka == dot && kb == dot);
    assert(ka * nxv == 1000 * ka && ka * nyv == 0 && kb * nxv == 1000 * kb && kb * nyv == 0)
        by (nonlinear_arith)
        requires
            nxv == 1000,
            nyv == 0,
    ;
    if ka >= 0 {
        vstd::arithmetic::div_mod::lemma_div_multiples_vanish(ka, 1000);
    } else {
        vstd::arithmetic::div_mod::lemma_div_multiples_vanish(-ka, 1000);
    }
}

/// The state of the world part-way through one all-pairs pass: every
/// unordered pair `(p, q)` with `p < q` that precedes position `(i, j)` in
/// enumeration order has already been resolved, and the remaining pairs are
/// folded over the sequence from `(i, j)` on. `pass_from(s, 0, 1)` is the
/// whole pass.
pub open spec fn pass_from(s: Seq<Particle>, i: int, j: int) -> Seq<Particle>
    decreases s.len() - i, s.len() + 1 - j,
    when 0 <= i && i < j
{
    if i >= s.len() {
        s
    } else if j >= s.len() {
        pass_from(s, i + 1, i + 2)
    } else {
        let rp = resolve_pair_spec(s[i], s[j]);
        pass_from(s.update(i, rp.0).update(j, rp.1), i, j + 1)
    }
}

/// Resolves every unordered pair of distinct particles once, in enumeration
/// order, each pair seeing the positions and velocities left by the pairs
/// before it. Radii never change. Pairs are not iterated to a fixed point:
/// three or more mutually touching particles may keep some residual overlap
/// for the next tick to continue resolving.
pub fn check_for_ball_collisions(particles: &mut Vec<Particle>)
    requires
        particles_ok(old(particles)@),
    ensures
        final(particles)@ == pass_from(old(particles)@, 0, 1),
        final(particles)@.len() == old(particles)@.len(),
        forall|k: int|
            0 <= k < old(particles)@.len() ==> final(particles)@[k].radius == old(
                particles,
            )@[k].radius,
        particles_ok(final(particles)@),
{
    let n = particles.len();
    let mut i: usize = 0;
    while i < n
        invariant
            particles@.len() == n,
            old(particles)@.len() == n,
            i <= n,
            particles_ok(particles@),
            pass_from(particles@, i as int, i as int + 1) == pass_from(old(particles)@, 0, 1),
            forall|k: int|
                0 <= k < n ==> particles@[k].radius == old(particles)@[k].radius,
        decreases n - i,
    {
        let mut j: usize = i + 1;
        while j < n
            invariant
                particles@.len() == n,
                old(particles)@.len() == n,
                i < n,
                i + 1 <= j <= n,
                particles_ok(particles@),
                pass_from(particles@, i as int, j as int) == pass_from(old(particles)@, 0, 1),
                forall|k: int|
                    0 <= k < n ==> particles@[k].radius == old(particles)@[k].radius,
            decreases n - j,
        {
            let ghost prev = particles@;
            let a = particles[i];
            let b = particles[j];
            let (na, nb) = resolve_pair(a, b);
            particles.set(i, na);
            particles.set(j, nb);
            proof {
                assert(particles@ == prev.update(i as int, na).update(j as int, nb));
                assert(pass_from(prev, i as int, j as int) == pass_from(
                    particles@,
                    i as int,
                    j as int + 1,
                ));
            }
            j += 1;
        }
        i += 1;
    }
}

} // verus!

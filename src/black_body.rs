use vstd::prelude::*;

use crate::colorimetry::{lemma_product_within, within, CIExyCoords};

verus! {

/// Points of the daylight locus are fixed-point values in units of 10^-12, fine
/// enough to tell apart the chromaticities of temperatures one kelvin apart.
pub const LOCUS_SCALE: i128 = 1000000000000;

/// A chromaticity on the daylight locus, each coordinate in units of 10^-12.
#[derive(Clone, Copy, Debug, PartialEq, Eq, Structural)]
pub struct LocusCoords {
    pub x: i128,
    pub y: i128,
}

/// The cubic of the daylight locus approximation, times `10^6 T^3`, at a temperature
/// of `t` kelvin: `x = a + b 10^3 / T + c 10^6 / T^2 - d 10^9 / T^3`, with one set of
/// coefficients up to 7000 K and another above.
pub open spec fn locus_cubic(t: int) -> int {
    if t <= 7000 {
        244063 * (t * t * t) + 99110000 * (t * t) + 2967800000000 * t - 4607000000000000
    } else {
        237040 * (t * t * t) + 247480000 * (t * t) + 1901800000000 * t - 2006400000000000
    }
}

/// `x` on the locus at `t` kelvin, in units of 10^-12, rounded down.
pub open spec fn locus_x(t: int) -> int {
    (locus_cubic(t) * 1000000) / (t * t * t)
}

/// `y = -3 x^2 + 2.870 x - 0.275` for `x` in units of 10^-12, rounded down.
pub open spec fn locus_y(x: int) -> int {
    (-3 * (x * x) + 2870000000000 * x - 275000000000000000000000) / 1000000000000
}

/// Rounds `a / b` towards negative infinity.
fn floor_div(a: i128, b: i128) -> (r: i128)
    requires
        b > 0,
    ensures
        r == a / b,
{
    if a >= 0 {
        a / b
    } else {
        let q = (-(a + 1)) / b;
        proof {
            let n: int = -(a + 1);
            vstd::arithmetic::div_mod::lemma_fundamental_div_mod(n, b as int);
            let m = n % (b as int);
            assert(b * (-q - 1) + (b - 1 - m) == a) by (nonlinear_arith)
                requires
                    b * q + m == n,
                    n == -(a + 1),
            ;
            vstd::arithmetic::div_mod::lemma_fundamental_div_mod_converse(
                a as int,
                b as int,
                -q - 1,
                b - 1 - m,
            );
        }
        -q - 1
    }
}

impl CIExyCoords {
    /// The chromaticity of a black body at `temperature` kelvin, by the CIE daylight
    /// locus approximation. It is made for 4000 K to 25000 K; other temperatures are
    /// computed all the same, with less accuracy. Below 10 K the square in `y` would
    /// not fit in 128 bits.
    pub fn from_black_body(temperature: u32) -> (r: LocusCoords)
        requires
            temperature >= 10,
        ensures
            r.x == locus_x(temperature as int),
            r.y == locus_y(r.x as int),
    {
        let t = temperature as i128;
        proof {
            lemma_locus_bounds(t as int);
        }
        let t2 = t * t;
        let t3 = t2 * t;
        let (a, rem) = if temperature <= 7000 {
            (244063i128, 99110000 * t2 + 2967800000000 * t - 4607000000000000)
        } else {
            (237040i128, 247480000 * t2 + 1901800000000 * t - 2006400000000000)
        };
        let q = floor_div(rem * 1000000, t3);
        proof {
            lemma_cubic_split(t as int, a as int, rem as int);
            vstd::arithmetic::div_mod::lemma_hoist_over_denominator(
                rem * 1000000,
                a * 1000000,
                t3 as nat,
            );
        }
        let x = a * 1000000 + q;
        proof {
            lemma_product_within(x as int, x as int, 4610000000000000000, 4610000000000000000);
        }
        let y = floor_div(-3 * (x * x) + 2870000000000 * x - 275000000000000000000000, LOCUS_SCALE);
        LocusCoords { x, y }
    }
}

impl LocusCoords {
    /// The chromaticity in units of 1/100000, rounded down.
    pub fn to_coords(&self) -> (r: CIExyCoords)
        ensures
            r.x == self.x / 10000000,
            r.y == self.y / 10000000,
    {
        CIExyCoords { x: floor_div(self.x, 10000000), y: floor_div(self.y, 10000000) }
    }
}

/// The cubic splits into its leading term and the rest.
proof fn lemma_cubic_split(t: int, a: int, rem: int)
    requires
        a == if t <= 7000 { 244063int } else { 237040int },
        rem == if t <= 7000 {
            99110000 * (t * t) + 2967800000000 * t - 4607000000000000
        } else {
            247480000 * (t * t) + 1901800000000 * t - 2006400000000000
        },
    ensures
        locus_cubic(t) * 1000000 == rem * 1000000 + (a * 1000000) * (t * t * t),
{
    let t3 = t * t * t;
    assert((a * 1000000) * t3 == a * t3 * 1000000) by (nonlinear_arith);
    if t <= 7000 {
        assert(a * t3 == 244063 * t3);
    } else {
        assert(a * t3 == 237040 * t3);
    }
}

/// From 10 K to `u32::MAX` kelvin the cubic's terms stay within 128 bits, and `x`
/// within [-4.61 * 10^6, 4.61 * 10^6].
proof fn lemma_locus_bounds(t: int)
    requires
        10 <= t <= u32::MAX,
    ensures
        t * t <= 18446744073709551616,
        t * t * t <= 79228162514264337593543950336,
        t * t * t >= 1000,
        within(
            if t <= 7000 {
                99110000 * (t * t) + 2967800000000 * t - 4607000000000000
            } else {
                247480000 * (t * t) + 1901800000000 * t - 2006400000000000
            },
            5000000000000000000000000000,
        ),
        within(locus_x(t), 4610000000000000000),
{
    let t2 = t * t;
    let t3 = t * t * t;
    assert(t2 <= 18446744073709551616) by (nonlinear_arith)
        requires
            10 <= t <= 4294967296,
            t2 == t * t,
    ;
    assert(t3 <= 79228162514264337593543950336) by (nonlinear_arith)
        requires
            10 <= t <= 4294967296,
            t2 <= 18446744073709551616,
            t2 == t * t,
            t3 == t * t * t,
    ;
    assert(t3 >= 1000 && 10 * t2 <= t3 && 100 * t <= t3 && t2 >= 100) by (nonlinear_arith)
        requires
            10 <= t,
            t2 == t * t,
            t3 == t * t * t,
    ;
    let rem = if t <= 7000 {
        99110000 * t2 + 2967800000000 * t - 4607000000000000
    } else {
        247480000 * t2 + 1901800000000 * t - 2006400000000000
    };
    assert(-4607000000000000 * t3 <= 1000 * rem && 10 * rem <= 296879110000 * t3)
        by (nonlinear_arith)
        requires
            rem == if t <= 7000 {
                99110000 * t2 + 2967800000000 * t - 4607000000000000
            } else {
                247480000 * t2 + 1901800000000 * t - 2006400000000000
            },
            t3 >= 1000,
            10 * t2 <= t3,
            100 * t <= t3,
            t >= 10,
            t2 >= 0,
    ;
    let a: int = if t <= 7000 { 244063 } else { 237040 };
    lemma_cubic_split(t, a, rem);
    vstd::arithmetic::div_mod::lemma_hoist_over_denominator(rem * 1000000, a * 1000000, t3 as nat);
    let q = (rem * 1000000) / t3;
    assert(-4607000000000000000 <= q <= 29687911000000000) by (nonlinear_arith)
        requires
            t3 > 0,
            -4607000000000000 * t3 <= 1000 * rem,
            10 * rem <= 296879110000 * t3,
            q == (rem * 1000000) / t3,
    {
        vstd::arithmetic::div_mod::lemma_fundamental_div_mod(rem * 1000000, t3);
    }
}

pub open spec fn cubic(a: int, b: int, c: int, d: int, t: int) -> int {
    a * (t * t * t) + b * (t * t) + c * t - d
}

/// For a cubic in `1 / T`, the difference between consecutive temperatures, brought
/// over the common denominator `T^3 (T + 1)^3`.
proof fn lemma_cubic_difference(a: int, b: int, c: int, d: int, t: int)
    ensures
        cubic(a, b, c, d, t) * ((t + 1) * (t + 1) * (t + 1)) - cubic(a, b, c, d, t + 1) * (t * t
            * t) == b * ((t * t) * ((t + 1) * (t + 1))) + c * ((t * (t + 1)) * (2 * t + 1)) - d * (
        3 * (t * t) + 3 * t + 1),
{
    let u = t + 1;
    let t2 = t * t;
    let t3 = t * t * t;
    let u2 = u * u;
    let u3 = u * u * u;
    let x1 = a * t3;
    let x2 = b * t2;
    let x3 = c * t;
    let y1 = a * u3;
    let y2 = b * u2;
    let y3 = c * u;
    assert(cubic(a, b, c, d, t) == x1 + x2 + x3 - d);
    assert(cubic(a, b, c, d, t + 1) == y1 + y2 + y3 - d);
    assert((x1 + x2 + x3 - d) * u3 == x1 * u3 + x2 * u3 + x3 * u3 - d * u3) by (nonlinear_arith);
    assert((y1 + y2 + y3 - d) * t3 == y1 * t3 + y2 * t3 + y3 * t3 - d * t3) by (nonlinear_arith);
    assert(x1 * u3 == y1 * t3) by (nonlinear_arith)
        requires
            x1 == a * t3,
            y1 == a * u3,
    ;
    assert(x2 * u3 - y2 * t3 == b * (t2 * u2)) by (nonlinear_arith)
        requires
            x2 == b * t2,
            y2 == b * u2,
            u3 == u2 * u,
            t3 == t2 * t,
            u == t + 1,
    ;
    assert(u2 - t2 == 2 * t + 1) by (nonlinear_arith)
        requires
            u == t + 1,
            u2 == u * u,
            t2 == t * t,
    ;
    let k = c * (t * u);
    assert(x3 * u3 == k * u2) by (nonlinear_arith)
        requires
            x3 == c * t,
            u3 == u * u * u,
            u2 == u * u,
            k == c * (t * u),
    ;
    assert(y3 * t3 == k * t2) by (nonlinear_arith)
        requires
            y3 == c * u,
            t3 == t * t * t,
            t2 == t * t,
            k == c * (t * u),
    ;
    assert(k * u2 - k * t2 == k * (2 * t + 1)) by (nonlinear_arith)
        requires
            u2 - t2 == 2 * t + 1,
    ;
    assert(k * (2 * t + 1) == c * ((t * u) * (2 * t + 1))) by (nonlinear_arith)
        requires
            k == c * (t * u),
    ;
    assert(u3 - t3 == 3 * t2 + 3 * t + 1) by (nonlinear_arith)
        requires
            u == t + 1,
            u3 == u * u * u,
            t3 == t * t * t,
            t2 == t * t,
    ;
    assert(d * t3 - d * u3 == -(d * (3 * t2 + 3 * t + 1))) by (nonlinear_arith)
        requires
            u3 - t3 == 3 * t2 + 3 * t + 1,
    ;
    assert(t2 * u2 == (t * t) * ((t + 1) * (t + 1)));
}

proof fn lemma_scaled_difference(ct: int, cu: int, t3: int, u3: int) by (nonlinear_arith)
    ensures
        (ct * 1000000) * u3 - (cu * 1000000) * t3 == (ct * u3 - cu * t3) * 1000000,
{
}

/// `X / s` exceeds `Y / v` when `X / s - Y / v >= 1` exactly.
proof fn lemma_floor_gap(x: int, y: int, s: int, v: int)
    requires
        s > 0,
        v > 0,
        x * v - y * s >= s * v,
    ensures
        x / s > y / v,
{
    let qy = y / v;
    vstd::arithmetic::div_mod::lemma_fundamental_div_mod(y, v);
    assert(y >= v * qy);
    assert(x * v >= (s * (qy + 1)) * v) by (nonlinear_arith)
        requires
            x * v - y * s >= s * v,
            y >= v * qy,
            s > 0,
    ;
    vstd::arithmetic::mul::lemma_mul_inequality_converse(s * (qy + 1), x, v);
    vstd::arithmetic::div_mod::lemma_div_is_ordered(s * (qy + 1), x, s);
    vstd::arithmetic::div_mod::lemma_div_multiples_vanish(qy + 1, s);
}

/// One kelvin warmer within one branch of the locus, `x` falls by at least one unit:
/// the `1 / T` term alone falls by more than one unit, and the `1 / T^2` term falls
/// by more than the `1 / T^3` term rises.
proof fn lemma_branch_step(a: int, b: int, c: int, d: int, t: int)
    requires
        4000 <= t < 25000,
        b * 1000000 >= 25000 * 25001,
        c * t >= 2 * d,
        d >= 0,
        c >= 0,
    ensures
        (cubic(a, b, c, d, t) * 1000000) / (t * t * t) > (cubic(a, b, c, d, t + 1) * 1000000) / ((
        t + 1) * (t + 1) * (t + 1)),
{
    let u = t + 1;
    let t3 = t * t * t;
    let u3 = u * u * u;
    let p = t * u;
    lemma_cubic_difference(a, b, c, d, t);
    assert(t3 * u3 == p * (p * p)) by (nonlinear_arith)
        requires
            p == t * u,
            t3 == t * t * t,
            u3 == u * u * u,
    ;
    assert((t * t) * (u * u) == p * p) by (nonlinear_arith)
        requires
            p == t * u,
    ;
    assert(0 < p <= 25000 * 25001) by (nonlinear_arith)
        requires
            p == t * u,
            u == t + 1,
            4000 <= t < 25000,
    ;
    assert(p * p >= 0) by (nonlinear_arith);
    vstd::arithmetic::mul::lemma_mul_inequality(p, b * 1000000, p * p);
    assert(c * (p * (2 * t + 1)) >= d * (3 * (t * t) + 3 * t + 1)) by (nonlinear_arith)
        requires
            p == t * (t + 1),
            c * t >= 2 * d,
            d >= 0,
            c >= 0,
            t >= 4000,
    ;
    assert((b * 1000000) * (p * p) == (b * (p * p)) * 1000000) by (nonlinear_arith);
    let x = cubic(a, b, c, d, t) * 1000000;
    let y = cubic(a, b, c, d, u) * 1000000;
    lemma_scaled_difference(cubic(a, b, c, d, t), cubic(a, b, c, d, u), t3, u3);
    assert(t3 > 0 && u3 > 0) by (nonlinear_arith)
        requires
            t >= 4000,
            u == t + 1,
            t3 == t * t * t,
            u3 == u * u * u,
    ;
    lemma_floor_gap(x, y, t3, u3);
}

/// One kelvin warmer, between 4000 K and 25000 K, `x` on the locus is smaller.
proof fn lemma_locus_step(t: int)
    requires
        4000 <= t < 25000,
    ensures
        locus_x(t + 1) < locus_x(t),
{
    if t < 7000 {
        lemma_branch_step(244063, 99110000, 2967800000000, 4607000000000000, t);
    } else if t > 7000 {
        lemma_branch_step(237040, 247480000, 1901800000000, 2006400000000000, t);
    } else {
        assert(locus_cubic(7000) * 1000000 == 104737599000000000000000);
        assert(locus_cubic(7001) * 1000000 == 104777656625557040000000);
        vstd::arithmetic::div_mod::lemma_fundamental_div_mod_converse(
            104737599000000000000000,
            343000000000,
            305357431486,
            302000000000,
        );
        vstd::arithmetic::div_mod::lemma_fundamental_div_mod_converse(
            104777656625557040000000,
            343147021001,
            305343337441,
            174783401559,
        );
    }
}

/// Between 4000 K and 25000 K, the warmer of two temperatures has the smaller `x` on
/// the locus.
pub proof fn lemma_locus_x_decreasing(t1: int, t2: int)
    requires
        4000 <= t1 < t2 <= 25000,
    ensures
        locus_x(t2) < locus_x(t1),
    decreases t2 - t1,
{
    lemma_locus_step(t2 - 1);
    if t1 < t2 - 1 {
        lemma_locus_x_decreasing(t1, t2 - 1);
    }
}

} // verus!

//! Points and vectors in homogeneous coordinates.
//!
//! A tuple with `w` equal to 1.0 is a point, one with `w` equal to 0.0 a
//! vector. The arithmetic below works on all four components alike.
use vstd::prelude::*;
use crate::fixed::{Fx, fx, one, half, isqrt, lemma_isqrt, lemma_isqrt_bound, lemma_mul_zero, EPSILON_RAW, fx_add, fx_sub, fx_neg, fx_mul, fx_div, fx_sqrt, fx_close, compare_float, ONE_RAW};

verus! {

#[derive(Clone, Copy, Debug)]
pub struct PointVector {
    pub x: Fx,
    pub y: Fx,
    pub z: Fx,
    pub w: Fx,
}

pub open spec fn tuple(x: Fx, y: Fx, z: Fx, w: Fx) -> PointVector {
    PointVector { x, y, z, w }
}

pub open spec fn tuple_add(a: PointVector, b: PointVector) -> PointVector {
    tuple(fx_add(a.x, b.x), fx_add(a.y, b.y), fx_add(a.z, b.z), fx_add(a.w, b.w))
}

pub open spec fn tuple_sub(a: PointVector, b: PointVector) -> PointVector {
    tuple(fx_sub(a.x, b.x), fx_sub(a.y, b.y), fx_sub(a.z, b.z), fx_sub(a.w, b.w))
}

pub open spec fn tuple_neg(a: PointVector) -> PointVector {
    tuple(fx_neg(a.x), fx_neg(a.y), fx_neg(a.z), fx_neg(a.w))
}

pub open spec fn tuple_scale(a: PointVector, s: Fx) -> PointVector {
    tuple(fx_mul(a.x, s), fx_mul(a.y, s), fx_mul(a.z, s), fx_mul(a.w, s))
}

pub open spec fn tuple_div(a: PointVector, s: Fx) -> PointVector {
    tuple(fx_div(a.x, s), fx_div(a.y, s), fx_div(a.z, s), fx_div(a.w, s))
}

/// Sum of the component-wise products, `w` included.
pub open spec fn tuple_dot(a: PointVector, b: PointVector) -> Fx {
    fx_add(fx_add(fx_add(fx_mul(a.x, b.x), fx_mul(a.y, b.y)), fx_mul(a.z, b.z)), fx_mul(a.w, b.w))
}

/// Euclidean norm over all four components.
pub open spec fn tuple_magnitude(a: PointVector) -> Fx {
    fx_sqrt(tuple_dot(a, a))
}

/// `x`, `y` and `z` divided by the magnitude, `w` kept; a tuple of
/// magnitude zero is returned as it is.
pub open spec fn tuple_normalize(a: PointVector) -> PointVector {
    let m = tuple_magnitude(a);
    if m.raw == 0 {
        a
    } else {
        tuple(fx_div(a.x, m), fx_div(a.y, m), fx_div(a.z, m), a.w)
    }
}

pub open spec fn tuple_cross(a: PointVector, b: PointVector) -> PointVector {
    tuple(
        fx_sub(fx_mul(a.y, b.z), fx_mul(a.z, b.y)),
        fx_sub(fx_mul(a.z, b.x), fx_mul(a.x, b.z)),
        fx_sub(fx_mul(a.x, b.y), fx_mul(a.y, b.x)),
        fx(0),
    )
}

/// `incoming - normal * 2 * dot(incoming, normal)`.
pub open spec fn tuple_reflect(incoming: PointVector, normal: PointVector) -> PointVector {
    tuple_sub(incoming, tuple_scale(tuple_scale(normal, fx(2 * one())), tuple_dot(incoming, normal)))
}

/// Each component differs by less than the tolerance.
pub open spec fn tuple_close(a: PointVector, b: PointVector) -> bool {
    fx_close(a.x, b.x) && fx_close(a.y, b.y) && fx_close(a.z, b.z) && fx_close(a.w, b.w)
}

pub proof fn lemma_square_nonneg(a: Fx)
    ensures
        fx_mul(a, a).raw >= 0,
{
    assert(a.raw * a.raw >= 0) by (nonlinear_arith);
    assert((a.raw * a.raw + half()) / one() >= 0);
}

pub proof fn lemma_dot_self_nonneg(a: PointVector)
    ensures
        tuple_dot(a, a).raw >= 0,
{
    lemma_square_nonneg(a.x);
    lemma_square_nonneg(a.y);
    lemma_square_nonneg(a.z);
    lemma_square_nonneg(a.w);
}

/// `round(x * x)` as a scalar product, with its rounding bounds.
proof fn lemma_round_square(x: int)
    ensures
        one() * ((x * x + half()) / one()) <= x * x + half() < one() * ((x * x + half()) / one()) + one(),
        (x * x + half()) / one() >= 0,
{
    let q = (x * x + half()) / one();
    vstd::arithmetic::div_mod::lemma_fundamental_div_mod(x * x + half(), one());
    assert(x * x >= 0) by (nonlinear_arith);
    assert(q >= 0) by (nonlinear_arith)
        requires x * x + half() == one() * q + (x * x + half()) % one(), 0 <= (x * x + half()) % one() < one(), x * x >= 0;
}

/// Bounds of a quotient rounded to nearest.
proof fn lemma_round_quotient(x: int, m: int)
    requires
        m > 0,
    ensures
        2 * m * ((2 * (x * one()) + m) / (2 * m)) <= 2 * (x * one()) + m,
        2 * (x * one()) + m < 2 * m * ((2 * (x * one()) + m) / (2 * m)) + 2 * m,
{
    vstd::arithmetic::div_mod::lemma_fundamental_div_mod(2 * (x * one()) + m, 2 * m);
}

/// The squares of the rounded components, before rounding again, sum to
/// within a small margin of 1.0 squared; the margins are in raw units.
proof fn lemma_unit_square_sum(x0: int, x1: int, x2: int, nsum: int, ssum: int, m: int, n0: int, n1: int, n2: int)
    requires
        nsum == x0 * x0 + x1 * x1 + x2 * x2,
        nsum >= 0x1_0000_0000_0000,
        nsum - 3 * half() < one() * ssum <= nsum + 3 * half(),
        m * m <= ssum * one() < (m + 1) * (m + 1),
        m >= 0,
        2 * m * n0 <= 2 * (x0 * one()) + m < 2 * m * n0 + 2 * m,
        2 * m * n1 <= 2 * (x1 * one()) + m < 2 * m * n1 + 2 * m,
        2 * m * n2 <= 2 * (x2 * one()) + m < 2 * m * n2 + 2 * m,
    ensures
        m >= 0x80_0000,
        -2 * one() - 1 <= n0 <= 2 * one() + 1,
        -2 * one() - 1 <= n1 <= 2 * one() + 1,
        -2 * one() - 1 <= n2 <= 2 * one() + 1,
        one() * one() - 0x8_0000_0000_0000 <= n0 * n0 + n1 * n1 + n2 * n2,
        n0 * n0 + n1 * n1 + n2 * n2 <= one() * one() + 0x8_0000_0000_0000 + 6 * one() + 1,
{
    let u = one();
    let h = half();
    // m is at least 2^23
    assert(one() * ssum == ssum * one()) by (nonlinear_arith);
    assert((m + 1) * (m + 1) > 0x4000_0000_0000);
    if m < 0x80_0000 {
        assert((m + 1) * (m + 1) <= 0x4000_0000_0000) by (nonlinear_arith)
            requires 0 <= m < 0x80_0000;
    }
    // every component is below 2m
    assert(4 * (m * m) >= (m + 1) * (m + 1) + 3 * h) by (nonlinear_arith)
        requires m >= 0x80_0000, h == 2147483648;
    assert(x0 * x0 <= 4 * (m * m) && x1 * x1 <= 4 * (m * m) && x2 * x2 <= 4 * (m * m)) by (nonlinear_arith)
        requires
            nsum == x0 * x0 + x1 * x1 + x2 * x2,
            nsum < (m + 1) * (m + 1) + 3 * h,
            4 * (m * m) >= (m + 1) * (m + 1) + 3 * h,
    ;
    let d0 = m * n0 - x0 * u;
    let d1 = m * n1 - x1 * u;
    let d2 = m * n2 - x2 * u;
    assert(-m < 2 * d0 <= m && -m < 2 * d1 <= m && -m < 2 * d2 <= m) by (nonlinear_arith)
        requires
            d0 == m * n0 - x0 * u,
            d1 == m * n1 - x1 * u,
            d2 == m * n2 - x2 * u,
            2 * m * n0 <= 2 * (x0 * u) + m < 2 * m * n0 + 2 * m,
            2 * m * n1 <= 2 * (x1 * u) + m < 2 * m * n1 + 2 * m,
            2 * m * n2 <= 2 * (x2 * u) + m < 2 * m * n2 + 2 * m,
    ;
    lemma_component_bound(x0, n0, d0, m);
    lemma_component_bound(x1, n1, d1, m);
    lemma_component_bound(x2, n2, d2, m);
    let t = n0 * n0 + n1 * n1 + n2 * n2;
    let e = 2 * u * (x0 * d0 + x1 * d1 + x2 * d2) + (d0 * d0 + d1 * d1 + d2 * d2);
    lemma_square_split(m, n0, x0, d0);
    lemma_square_split(m, n1, x1, d1);
    lemma_square_split(m, n2, x2, d2);
    let mm = m * m;
    assert(m * m * t == mm * (n0 * n0) + mm * (n1 * n1) + mm * (n2 * n2)) by (nonlinear_arith)
        requires t == n0 * n0 + n1 * n1 + n2 * n2, mm == m * m;
    assert(u * u * nsum == u * u * (x0 * x0) + u * u * (x1 * x1) + u * u * (x2 * x2)) by (nonlinear_arith)
        requires nsum == x0 * x0 + x1 * x1 + x2 * x2;
    assert(m * m * t == u * u * nsum + e);
    let p = x0 * d0 + x1 * d1 + x2 * d2;
    assert(-3 * mm <= p <= 3 * mm) by (nonlinear_arith)
        requires
            p == x0 * d0 + x1 * d1 + x2 * d2,
            mm == m * m,
            -(m * m) <= x0 * d0 <= m * m,
            -(m * m) <= x1 * d1 <= m * m,
            -(m * m) <= x2 * d2 <= m * m,
    ;
    assert(mm >= 0x4000_0000_0000) by (nonlinear_arith)
        requires m >= 0x80_0000, mm == m * m;
    assert(-6 * u * mm <= 2 * u * p <= 6 * u * mm) by (nonlinear_arith)
        requires -3 * mm <= p <= 3 * mm, u == 4294967296;
    assert(-6 * u * (m * m) <= e <= 6 * u * (m * m) + m * m);
    // nsum lies within a small margin of m * m
    assert(m * m - 3 * h <= nsum < m * m + 2 * m + 1 + 3 * h) by (nonlinear_arith)
        requires
            nsum - 3 * h < u * ssum <= nsum + 3 * h,
            m * m <= ssum * u < (m + 1) * (m + 1),
    ;
    lemma_scaled_bounds(t, nsum, e, m);
}

/// `(m * n)^2` written through the rounding error `d = m * n - x * 2^32`.
proof fn lemma_square_split(m: int, n: int, x: int, d: int)
    requires
        d == m * n - x * one(),
    ensures
        m * m * (n * n) == one() * one() * (x * x) + 2 * one() * (x * d) + d * d,
{
    let u = one();
    assert(m * m * (n * n) == (m * n) * (m * n)) by (nonlinear_arith);
    assert((m * n) * (m * n) == (x * u + d) * (x * u + d)) by (nonlinear_arith)
        requires m * n == x * u + d;
    assert((x * u + d) * (x * u + d) == u * u * (x * x) + 2 * u * (x * d) + d * d) by (nonlinear_arith);
}

proof fn lemma_component_bound(x: int, n: int, d: int, m: int)
    requires
        m >= 0x80_0000,
        x * x <= 4 * (m * m),
        d == m * n - x * one(),
        -m < 2 * d <= m,
    ensures
        -2 * one() - 1 <= n <= 2 * one() + 1,
        -(m * m) <= x * d <= m * m,
        0 <= d * d <= m * m / 4 + 1,
{
    let u = one();
    assert(-2 * m <= x <= 2 * m) by (nonlinear_arith)
        requires x * x <= 4 * (m * m), m >= 0;
    assert(-(m * m) <= x * d <= m * m) by (nonlinear_arith)
        requires -2 * m <= x <= 2 * m, -m < 2 * d <= m, m >= 0;
    assert(0 <= d * d <= m * m / 4 + 1) by (nonlinear_arith)
        requires -m < 2 * d <= m, m >= 0;
    assert(-2 * u - 1 <= n <= 2 * u + 1) by (nonlinear_arith)
        requires m * n == d + x * u, -2 * m <= x <= 2 * m, -m < 2 * d <= m, m >= 1, u > 0;
}

proof fn lemma_scaled_bounds(t: int, nsum: int, e: int, m: int)
    requires
        m >= 0x80_0000,
        m * m * t == one() * one() * nsum + e,
        -6 * one() * (m * m) <= e <= 6 * one() * (m * m) + m * m,
        m * m - 3 * half() <= nsum < m * m + 2 * m + 1 + 3 * half(),
    ensures
        one() * one() - 0x8_0000_0000_0000 <= t <= one() * one() + 0x8_0000_0000_0000 + 6 * one() + 1,
{
    let u = one();
    let h = half();
    let mm = m * m;
    assert(m * m >= 0x80_0000 * m) by (nonlinear_arith)
        requires m >= 0x80_0000;
    assert(mm >= 0x4000_0000_0000);
    // lower: mm * (t - u*u + 6u) >= -3h * u * u
    assert(mm * (t - u * u + 6 * u) >= -3 * h * (u * u)) by (nonlinear_arith)
        requires mm * t == u * u * nsum + e, e >= -6 * u * mm, nsum >= mm - 3 * h, u > 0;
    if t - u * u + 6 * u < -0x6_0000_0000_0000 {
        assert(mm * (t - u * u + 6 * u) < -3 * h * (u * u)) by (nonlinear_arith)
            requires
                t - u * u + 6 * u < -0x6_0000_0000_0000,
                mm >= 0x4000_0000_0000,
                h == 2147483648,
                u == 4294967296,
        ;
    }
    // upper: mm * (t - u*u - 6u - 1) <= u * u * (3h + 2m + 1)
    assert(mm * (t - u * u - 6 * u - 1) <= u * u * (3 * h + 2 * m + 1)) by (nonlinear_arith)
        requires mm * t == u * u * nsum + e, e <= 6 * u * mm + mm, nsum < mm + 2 * m + 1 + 3 * h, u > 0;
    if t - u * u - 6 * u - 1 > 0x8_0000_0000_0000 {
        assert(mm * (t - u * u - 6 * u - 1) > u * u * (3 * h + 2 * m + 1)) by (nonlinear_arith)
            requires
                t - u * u - 6 * u - 1 > 0x8_0000_0000_0000,
                mm == m * m,
                m >= 0x80_0000,
                h == 2147483648,
                u == 4294967296,
        ;
    }
}

/// A scalar squared, when no saturation occurs.
proof fn lemma_square_in_range(a: Fx, bound: int)
    requires
        -bound <= a.raw <= bound,
        0 <= bound <= 0x8000_0000_0000,
    ensures
        fx_mul(a, a).raw == (a.raw * a.raw + half()) / one(),
        one() * fx_mul(a, a).raw <= a.raw * a.raw + half() < one() * fx_mul(a, a).raw + one(),
        0 <= fx_mul(a, a).raw,
        one() * fx_mul(a, a).raw <= bound * bound + half(),
{
    let x = a.raw as int;
    lemma_round_square(x);
    assert(x * x <= bound * bound) by (nonlinear_arith)
        requires -bound <= x <= bound, bound >= 0;
    assert(bound * bound <= 0x4000_0000_0000_0000_0000_0000) by (nonlinear_arith)
        requires 0 <= bound <= 0x8000_0000_0000;
    let q = (x * x + half()) / one();
    assert(q <= 0x4000_0000_0000_0001);
    assert(fx_mul(a, a).raw == q);
}

/// Normalising a vector gives magnitude 1.0 within the tolerance, for
/// vectors of magnitude at least 1/256 whose components are at most 16384
/// in size (smaller vectors lose their length to rounding, larger ones
/// saturate when squared).
pub proof fn lemma_normalize_unit(v: PointVector)
    requires
        v.w.raw == 0,
        -0x4000_0000_0000 <= v.x.raw <= 0x4000_0000_0000,
        -0x4000_0000_0000 <= v.y.raw <= 0x4000_0000_0000,
        -0x4000_0000_0000 <= v.z.raw <= 0x4000_0000_0000,
        v.x.raw * v.x.raw + v.y.raw * v.y.raw + v.z.raw * v.z.raw >= 0x1_0000_0000_0000,
    ensures
        fx_close(tuple_magnitude(tuple_normalize(v)), fx(one())),
{
    let u = one();
    let h = half();
    let x0 = v.x.raw as int;
    let x1 = v.y.raw as int;
    let x2 = v.z.raw as int;
    let nsum = x0 * x0 + x1 * x1 + x2 * x2;
    lemma_square_in_range(v.x, 0x4000_0000_0000);
    lemma_square_in_range(v.y, 0x4000_0000_0000);
    lemma_square_in_range(v.z, 0x4000_0000_0000);
    lemma_mul_zero(v.w);
    assert(v.w == fx(0));
    let s0 = fx_mul(v.x, v.x).raw as int;
    let s1 = fx_mul(v.y, v.y).raw as int;
    let s2 = fx_mul(v.z, v.z).raw as int;
    let ssum = s0 + s1 + s2;
    assert(tuple_dot(v, v).raw == ssum);
    assert(nsum - 3 * h < u * ssum <= nsum + 3 * h);
    let sq = (ssum * u) as nat;
    lemma_isqrt(sq);
    let m = isqrt(sq) as int;
    assert(m * m <= ssum * u < (m + 1) * (m + 1));
    assert(u * ssum == ssum * u) by (nonlinear_arith);
    lemma_isqrt_bound(sq, 0x1_0000_0000_0000);
    let mag = tuple_magnitude(v);
    assert(mag.raw == m);
    assert(ssum >= 1);
    assert(ssum * u >= u);
    if m == 0 {
        assert((m + 1) * (m + 1) == 1) by (nonlinear_arith)
            requires m == 0;
        assert(false);
    }
    let n0 = (2 * (x0 * u) + m) / (2 * m);
    let n1 = (2 * (x1 * u) + m) / (2 * m);
    let n2 = (2 * (x2 * u) + m) / (2 * m);
    lemma_round_quotient(x0, m);
    lemma_round_quotient(x1, m);
    lemma_round_quotient(x2, m);
    lemma_unit_square_sum(x0, x1, x2, nsum, ssum, m, n0, n1, n2);
    let r = tuple_normalize(v);
    assert(r.x.raw == n0 && r.y.raw == n1 && r.z.raw == n2 && r.w == v.w);
    lemma_square_in_range(r.x, 2 * u + 1);
    lemma_square_in_range(r.y, 2 * u + 1);
    lemma_square_in_range(r.z, 2 * u + 1);
    let t0 = fx_mul(r.x, r.x).raw as int;
    let t1 = fx_mul(r.y, r.y).raw as int;
    let t2 = fx_mul(r.z, r.z).raw as int;
    let tsum = t0 + t1 + t2;
    let t = n0 * n0 + n1 * n1 + n2 * n2;
    assert(tuple_dot(r, r).raw == tsum);
    assert(t - 3 * h < u * tsum <= t + 3 * h);
    let sq2 = (tsum * u) as nat;
    lemma_isqrt(sq2);
    let m2 = isqrt(sq2) as int;
    assert(u * tsum == tsum * u) by (nonlinear_arith);
    lemma_isqrt_bound(sq2, 0x1_0000_0000_0000);
    assert(tuple_magnitude(r).raw == m2);
    let e = EPSILON_RAW as int;
    assert((u + e) * (u + e) == 18450433609314684849) by (nonlinear_arith)
        requires u == 4294967296, e == 429497;
    assert((u - e + 1) * (u - e + 1) == 18443054915628840000) by (nonlinear_arith)
        requires u == 4294967296, e == 429497;
    assert(u * u == 18446744073709551616) by (nonlinear_arith)
        requires u == 4294967296;
    assert(u * tsum < (u + e) * (u + e));
    assert(u * tsum >= (u - e + 1) * (u - e + 1));
    assert(m2 < u + e) by (nonlinear_arith)
        requires m2 * m2 <= tsum * u, tsum * u < (u + e) * (u + e), m2 >= 0, u + e > 0;
    assert(m2 > u - e) by (nonlinear_arith)
        requires (m2 + 1) * (m2 + 1) > tsum * u, tsum * u >= (u - e + 1) * (u - e + 1), m2 >= 0, u - e + 1 > 0;
}

pub fn vector(x: Fx, y: Fx, z: Fx) -> (r: PointVector)
    ensures
        r == tuple(x, y, z, fx(0)),
{
    PointVector::new_vector(x, y, z)
}

pub fn point(x: Fx, y: Fx, z: Fx) -> (r: PointVector)
    ensures
        r == tuple(x, y, z, fx(one())),
{
    PointVector::new_point(x, y, z)
}

/// Reflects `incoming` about `normal`.
pub fn reflect(incoming: PointVector, normal: PointVector) -> (r: PointVector)
    ensures
        r == tuple_reflect(incoming, normal),
{
    let two = Fx::from_int(2);
    let scaled = normal.multiply_scalar(two).multiply_scalar(incoming.dot(&normal));
    PointVector::subtract(&incoming, &scaled)
}

impl PointVector {
    pub fn new(x: Fx, y: Fx, z: Fx, w: Fx) -> (r: PointVector)
        ensures
            r == tuple(x, y, z, w),
    {
        PointVector { x, y, z, w }
    }

    pub fn new_vector(x: Fx, y: Fx, z: Fx) -> (r: PointVector)
        ensures
            r == tuple(x, y, z, fx(0)),
    {
        PointVector { x, y, z, w: Fx::zero() }
    }

    pub fn new_point(x: Fx, y: Fx, z: Fx) -> (r: PointVector)
        ensures
            r == tuple(x, y, z, fx(one())),
    {
        PointVector { x, y, z, w: Fx::one() }
    }

    pub fn is_point(&self) -> (r: bool)
        ensures
            r == (self.w.raw == one()),
    {
        self.w.raw == ONE_RAW
    }

    pub fn is_vector(&self) -> (r: bool)
        ensures
            r == (self.w.raw == 0),
    {
        self.w.raw == 0
    }

    pub fn add(t1: &PointVector, t2: &PointVector) -> (r: PointVector)
        ensures
            r == tuple_add(*t1, *t2),
    {
        PointVector { x: t1.x.add(t2.x), y: t1.y.add(t2.y), z: t1.z.add(t2.z), w: t1.w.add(t2.w) }
    }

    pub fn subtract(t1: &PointVector, t2: &PointVector) -> (r: PointVector)
        ensures
            r == tuple_sub(*t1, *t2),
    {
        PointVector { x: t1.x.sub(t2.x), y: t1.y.sub(t2.y), z: t1.z.sub(t2.z), w: t1.w.sub(t2.w) }
    }

    pub fn negate(&self) -> (r: PointVector)
        ensures
            r == tuple_neg(*self),
    {
        PointVector { x: self.x.neg(), y: self.y.neg(), z: self.z.neg(), w: self.w.neg() }
    }

    pub fn multiply_scalar(&self, s: Fx) -> (r: PointVector)
        ensures
            r == tuple_scale(*self, s),
    {
        PointVector { x: self.x.mul(s), y: self.y.mul(s), z: self.z.mul(s), w: self.w.mul(s) }
    }

    pub fn divide_scalar(&self, s: Fx) -> (r: PointVector)
        requires
            s.raw != 0,
        ensures
            r == tuple_div(*self, s),
    {
        PointVector { x: self.x.div(s), y: self.y.div(s), z: self.z.div(s), w: self.w.div(s) }
    }

    pub fn dot(&self, p: &PointVector) -> (r: Fx)
        ensures
            r == tuple_dot(*self, *p),
    {
        self.x.mul(p.x).add(self.y.mul(p.y)).add(self.z.mul(p.z)).add(self.w.mul(p.w))
    }

    pub fn magnitude(&self) -> (r: Fx)
        ensures
            r == tuple_magnitude(*self),
            r.raw >= 0,
    {
        let d = self.dot(self);
        proof {
            lemma_dot_self_nonneg(*self);
        }
        d.sqrt()
    }

    /// Scales `x`, `y` and `z` to unit length; `w` is kept as it is.
    pub fn normalize(&self) -> (r: PointVector)
        ensures
            r == tuple_normalize(*self),
    {
        let m = self.magnitude();
        if m.raw == 0 {
            *self
        } else {
            PointVector { x: self.x.div(m), y: self.y.div(m), z: self.z.div(m), w: self.w }
        }
    }

    /// Cross product of the `x`, `y`, `z` parts; the result is a vector.
    pub fn cross(&self, p: &PointVector) -> (r: PointVector)
        ensures
            r == tuple_cross(*self, *p),
    {
        let cross_x = self.y.mul(p.z).sub(self.z.mul(p.y));
        let cross_y = self.z.mul(p.x).sub(self.x.mul(p.z));
        let cross_z = self.x.mul(p.y).sub(self.y.mul(p.x));
        PointVector::new_vector(cross_x, cross_y, cross_z)
    }
}

impl PartialEq for PointVector {
    fn eq(&self, other: &Self) -> (r: bool) {
        compare_float(&self.x, &other.x) && compare_float(&self.y, &other.y)
            && compare_float(&self.z, &other.z) && compare_float(&self.w, &other.w)
    }
}

impl vstd::std_specs::cmp::PartialEqSpecImpl for PointVector {
    open spec fn obeys_eq_spec() -> bool {
        true
    }

    open spec fn eq_spec(&self, other: &PointVector) -> bool {
        tuple_close(*self, *other)
    }
}

} // verus!

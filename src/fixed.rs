//! Fixed-point scalars: a signed 64-bit count of 2^-32 units.
//!
//! Every operation is total: results that leave the `i64` range saturate
//! at its ends, and products and quotients round to the nearest unit.
use vstd::prelude::*;
use vstd::arithmetic::div_mod::lemma_fundamental_div_mod_converse;

verus! {

/// Raw value of 1.0.
pub const ONE_RAW: i64 = 4294967296;

/// Raw value of 0.5, used for rounding to nearest.
pub const HALF_RAW: i64 = 2147483648;

/// Raw width of the tolerance (1e-4) under which two scalars count as equal.
pub const EPSILON_RAW: i64 = 429497;

pub open spec fn one() -> int {
    4294967296
}

pub open spec fn half() -> int {
    2147483648
}

/// Clamps an exact result into the representable range.
pub open spec fn sat(x: int) -> int {
    if x > i64::MAX {
        i64::MAX as int
    } else if x < i64::MIN {
        i64::MIN as int
    } else {
        x
    }
}

/// Nearest integer to `n / d` (halves round up), for `d > 0`.
pub open spec fn round_div(n: int, d: int) -> int {
    (2 * n + d) / (2 * d)
}

pub open spec fn fx(raw: int) -> Fx {
    Fx { raw: sat(raw) as i64 }
}

pub open spec fn fx_add(a: Fx, b: Fx) -> Fx {
    fx(a.raw + b.raw)
}

pub open spec fn fx_sub(a: Fx, b: Fx) -> Fx {
    fx(a.raw - b.raw)
}

pub open spec fn fx_neg(a: Fx) -> Fx {
    fx(-a.raw)
}

/// Product of two scalars: `a * b / 2^32`, rounded to nearest.
pub open spec fn fx_mul(a: Fx, b: Fx) -> Fx {
    fx((a.raw * b.raw + half()) / one())
}

/// Quotient of two scalars: `a * 2^32 / b`, rounded to nearest.
pub open spec fn fx_div(a: Fx, b: Fx) -> Fx {
    if b.raw > 0 {
        fx(round_div(a.raw * one(), b.raw as int))
    } else {
        fx(round_div(-a.raw * one(), -b.raw))
    }
}

/// Integer square root: the largest `r` with `r * r <= n`.
pub open spec fn isqrt(n: nat) -> nat
    decreases n,
{
    if n == 0 {
        0
    } else if n < 4 {
        1
    } else {
        let r = 2 * isqrt(n / 4);
        if (r + 1) * (r + 1) <= n {
            (r + 1) as nat
        } else {
            r
        }
    }
}

/// Square root of a non-negative scalar, rounded down to a unit.
pub open spec fn fx_sqrt(a: Fx) -> Fx {
    fx(isqrt((a.raw * one()) as nat) as int)
}

/// `b` multiplied by itself `n` times (1.0 for `n == 0`), rounding at each step.
pub open spec fn fx_pow(b: Fx, n: nat) -> Fx
    decreases n,
{
    if n == 0 {
        fx(one())
    } else {
        fx_mul(fx_pow(b, (n - 1) as nat), b)
    }
}

/// The two scalars differ by less than the tolerance.
pub open spec fn fx_close(a: Fx, b: Fx) -> bool {
    -EPSILON_RAW < a.raw - b.raw < EPSILON_RAW
}

pub proof fn lemma_isqrt(n: nat)
    ensures
        isqrt(n) * isqrt(n) <= n < (isqrt(n) + 1) * (isqrt(n) + 1),
    decreases n,
{
    let t = isqrt(n) as int;
    if n >= 4 {
        let q = n / 4;
        lemma_isqrt(q);
        let s = isqrt(q) as int;
        let r = 2 * s;
        assert(n == 4 * q + n % 4 && n % 4 < 4);
        assert(r * r == 4 * (s * s)) by (nonlinear_arith)
            requires r == 2 * s;
        assert((r + 2) * (r + 2) == 4 * ((s + 1) * (s + 1))) by (nonlinear_arith)
            requires r == 2 * s;
        assert(s * s <= q < (s + 1) * (s + 1));
        assert(r * r <= n);
        assert((r + 2) * (r + 2) > n);
        if (r + 1) * (r + 1) <= n {
            assert(t == r + 1);
            assert(t * t <= n);
            assert((t + 1) * (t + 1) > n);
        } else {
            assert(t == r);
            assert(t * t <= n);
            assert((t + 1) * (t + 1) > n);
        }
    } else if n > 0 {
        assert(t == 1);
    } else {
        assert(t == 0);
    }
}

pub proof fn lemma_isqrt_bound(n: nat, k: nat)
    requires
        n < k * k,
    ensures
        isqrt(n) < k,
{
    lemma_isqrt(n);
    let r = isqrt(n);
    if r >= k {
        assert(r * r >= k * k) by (nonlinear_arith)
            requires r >= k, k >= 0;
    }
}

/// Multiplying by 1.0 leaves a scalar unchanged.
pub proof fn lemma_mul_one(x: Fx)
    ensures
        fx_mul(fx(one()), x) == x,
        fx_mul(x, fx(one())) == x,
{
    assert(x.raw * one() + half() == x.raw * one() + half());
    lemma_fundamental_div_mod_converse(x.raw * one() + half(), one(), x.raw as int, half());
    assert(one() * x.raw == x.raw * one()) by (nonlinear_arith);
}

/// Multiplying by 0.0 gives 0.0.
pub proof fn lemma_mul_zero(x: Fx)
    ensures
        fx_mul(fx(0), x) == fx(0),
        fx_mul(x, fx(0)) == fx(0),
{
    assert(fx(0).raw == 0);
    assert(0 * x.raw == 0 && x.raw * 0 == 0);
    lemma_fundamental_div_mod_converse(half(), one(), 0, half());
}

/// A scalar: `raw / 2^32`.
#[derive(Clone, Copy, Debug, PartialEq, Eq, Structural)]
pub struct Fx {
    pub raw: i64,
}

/// Nearest integer to `p / d`, rounding down, for a positive `d`.
fn floor_div(p: i128, d: i128) -> (r: i128)
    requires
        d > 0,
        p > i128::MIN,
    ensures
        r == p / d,
{
    if p >= 0 {
        p / d
    } else {
        let q = (-p - 1) / d;
        proof {
            let np: int = -p - 1;
            let di: int = d as int;
            let rm: int = np % di;
            assert(np == q * di + rm) by {
                vstd::arithmetic::div_mod::lemma_fundamental_div_mod(np, di);
                assert(di * (np / di) == (np / di) * di) by (nonlinear_arith);
            }
            assert(0 <= rm < d);
            assert(p == (-1 - q) * di + (di - 1 - rm)) by (nonlinear_arith)
                requires np == q * di + rm, np == -p - 1;
            lemma_fundamental_div_mod_converse(p as int, di, -1 - q, di - 1 - rm);
        }
        -1 - q
    }
}

/// Clamps a wide result into the `i64` range.
fn saturate(x: i128) -> (r: i64)
    ensures
        r == sat(x as int),
{
    if x > i64::MAX as i128 {
        i64::MAX
    } else if x < i64::MIN as i128 {
        i64::MIN
    } else {
        x as i64
    }
}

/// Integer square root of `n`.
fn isqrt_u128(n: u128) -> (r: u128)
    requires
        n < 0x1_0000_0000_0000_0000_0000_0000,
    ensures
        r == isqrt(n as nat),
        r < 0x1_0000_0000_0000,
    decreases n,
{
    proof {
        lemma_isqrt_bound(n as nat, 0x1_0000_0000_0000);
    }
    if n == 0 {
        0
    } else if n < 4 {
        1
    } else {
        let s = isqrt_u128(n / 4);
        let r = 2 * s;
        assert((r + 1) * (r + 1) < 0x1_0000_0000_0000_0000_0000_0000_0000) by (nonlinear_arith)
            requires r < 0x2_0000_0000_0000;
        if (r + 1) * (r + 1) <= n {
            r + 1
        } else {
            r
        }
    }
}

impl Fx {
    pub fn from_raw(raw: i64) -> (r: Fx)
        ensures
            r.raw == raw,
    {
        Fx { raw }
    }

    /// The scalar with integer value `n`.
    pub fn from_int(n: i32) -> (r: Fx)
        ensures
            r.raw == n * one(),
    {
        Fx { raw: n as i64 * ONE_RAW }
    }

    pub fn zero() -> (r: Fx)
        ensures
            r == fx(0),
    {
        Fx { raw: 0 }
    }

    pub fn one() -> (r: Fx)
        ensures
            r == fx(one()),
    {
        Fx { raw: ONE_RAW }
    }

    pub fn add(self, o: Fx) -> (r: Fx)
        ensures
            r == fx_add(self, o),
    {
        Fx { raw: saturate(self.raw as i128 + o.raw as i128) }
    }

    pub fn sub(self, o: Fx) -> (r: Fx)
        ensures
            r == fx_sub(self, o),
    {
        Fx { raw: saturate(self.raw as i128 - o.raw as i128) }
    }

    pub fn neg(self) -> (r: Fx)
        ensures
            r == fx_neg(self),
    {
        Fx { raw: saturate(-(self.raw as i128)) }
    }

    pub fn mul(self, o: Fx) -> (r: Fx)
        ensures
            r == fx_mul(self, o),
    {
        proof {
            assert(-0x8000_0000_0000_0000_0000_0000_0000_0000 <= self.raw * o.raw
                <= 0x4000_0000_0000_0000_0000_0000_0000_0000) by (nonlinear_arith)
                requires
                    -0x8000_0000_0000_0000 <= self.raw < 0x8000_0000_0000_0000,
                    -0x8000_0000_0000_0000 <= o.raw < 0x8000_0000_0000_0000,
            ;
        }
        let p = self.raw as i128 * o.raw as i128;
        Fx { raw: saturate(floor_div(p + HALF_RAW as i128, ONE_RAW as i128)) }
    }

    pub fn div(self, o: Fx) -> (r: Fx)
        requires
            o.raw != 0,
        ensures
            r == fx_div(self, o),
    {
        proof {
            assert(-0x8000_0000_0000_0000_0000_0000 <= self.raw * one()
                <= 0x8000_0000_0000_0000_0000_0000) by (nonlinear_arith)
                requires
                    -0x8000_0000_0000_0000 <= self.raw < 0x8000_0000_0000_0000,
            ;
        }
        let n = self.raw as i128 * ONE_RAW as i128;
        if o.raw > 0 {
            let d = o.raw as i128;
            Fx { raw: saturate(floor_div(2 * n + d, 2 * d)) }
        } else {
            let d = -(o.raw as i128);
            Fx { raw: saturate(floor_div(d - 2 * n, 2 * d)) }
        }
    }

    /// Square root, rounded down to a unit.
    pub fn sqrt(self) -> (r: Fx)
        requires
            self.raw >= 0,
        ensures
            r == fx_sqrt(self),
    {
        proof {
            assert(self.raw * one() < 0x1_0000_0000_0000_0000_0000_0000) by (nonlinear_arith)
                requires 0 <= self.raw < 0x8000_0000_0000_0000;
        }
        let n = self.raw as u128 * ONE_RAW as u128;
        let s = isqrt_u128(n);
        Fx { raw: s as i64 }
    }

    /// Raises to a whole power by repeated multiplication.
    pub fn powi(self, n: u32) -> (r: Fx)
        ensures
            r == fx_pow(self, n as nat),
    {
        let mut acc = Fx::one();
        let mut i: u32 = 0;
        while i < n
            invariant
                i <= n,
                acc == fx_pow(self, i as nat),
            decreases n - i,
        {
            acc = acc.mul(self);
            i = i + 1;
        }
        acc
    }

    pub fn is_negative(self) -> (r: bool)
        ensures
            r == (self.raw < 0),
    {
        self.raw < 0
    }
}

/// Whether two scalars differ by less than 1e-4.
pub fn compare_float(a: &Fx, b: &Fx) -> (r: bool)
    ensures
        r == fx_close(*a, *b),
{
    let d = a.raw as i128 - b.raw as i128;
    -(EPSILON_RAW as i128) < d && d < EPSILON_RAW as i128
}

} // verus!

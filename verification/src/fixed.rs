//! Saturating signed fixed-point arithmetic.
//!
//! A sample, a matrix entry and the learning rate are all `i64` values read
//! as multiples of `1 / SCALE`, so `SCALE` itself stands for 1.0.  Products
//! are truncated toward zero and every operation saturates at the `i64`
//! bounds instead of overflowing, which keeps the whole engine total: no
//! input can make it panic or wrap.

use vstd::prelude::*;

verus! {

/// Number of fixed-point units in 1.0.
pub const SCALE: i64 = 1_000_000;

/// Clamp a mathematical integer to the `i64` range.
pub open spec fn sat64(x: int) -> i64 {
    if x > i64::MAX {
        i64::MAX
    } else if x < i64::MIN {
        i64::MIN
    } else {
        x as i64
    }
}

/// Magnitude of a mathematical integer.
pub open spec fn abs_int(x: int) -> int {
    if x >= 0 {
        x
    } else {
        -x
    }
}

/// Division truncating toward zero, for a positive divisor.
pub open spec fn tdiv(a: int, b: int) -> int
    recommends
        b > 0,
{
    if a >= 0 {
        a / b
    } else {
        -((-a) / b)
    }
}

/// Saturating addition.
pub open spec fn sat_add_spec(a: i64, b: i64) -> i64 {
    sat64(a + b)
}

/// Saturating subtraction.
pub open spec fn sat_sub_spec(a: i64, b: i64) -> i64 {
    sat64(a - b)
}

/// Fixed-point product: `a * b / SCALE`, truncated toward zero, saturated.
pub open spec fn fx_mul_spec(a: i64, b: i64) -> i64 {
    sat64(tdiv(a as int * b as int, SCALE as int))
}

pub fn sat_add(a: i64, b: i64) -> (r: i64)
    ensures
        r == sat_add_spec(a, b),
{
    let s: i128 = a as i128 + b as i128;
    if s > i64::MAX as i128 {
        i64::MAX
    } else if s < i64::MIN as i128 {
        i64::MIN
    } else {
        s as i64
    }
}

pub fn sat_sub(a: i64, b: i64) -> (r: i64)
    ensures
        r == sat_sub_spec(a, b),
{
    let s: i128 = a as i128 - b as i128;
    if s > i64::MAX as i128 {
        i64::MAX
    } else if s < i64::MIN as i128 {
        i64::MIN
    } else {
        s as i64
    }
}

/// Magnitude of an `i64`, wide enough to hold `|i64::MIN|`.
fn abs_i64(a: i64) -> (r: u64)
    ensures
        r as int == abs_int(a as int),
{
    if a >= 0 {
        a as u64
    } else {
        (-(a as i128)) as u64
    }
}

proof fn lemma_abs_mul(a: int, b: int)
    by (nonlinear_arith)
    ensures
        abs_int(a * b) == abs_int(a) * abs_int(b),
{
}

proof fn lemma_mul_bound_u64(a: int, b: int)
    by (nonlinear_arith)
    requires
        0 <= a <= u64::MAX,
        0 <= b <= u64::MAX,
    ensures
        0 <= a * b <= u128::MAX,
{
}

proof fn lemma_mul_sign(a: int, b: int)
    by (nonlinear_arith)
    ensures
        a >= 0 && b >= 0 ==> a * b >= 0,
        a <= 0 && b <= 0 ==> a * b >= 0,
        a == 0 || b == 0 ==> a * b == 0,
        a < 0 && b > 0 ==> a * b < 0,
        a > 0 && b < 0 ==> a * b < 0,
{
}

pub fn fx_mul(a: i64, b: i64) -> (r: i64)
    ensures
        r == fx_mul_spec(a, b),
{
    let am: u64 = abs_i64(a);
    let bm: u64 = abs_i64(b);
    proof {
        lemma_mul_bound_u64(am as int, bm as int);
        lemma_abs_mul(a as int, b as int);
    }
    let p: u128 = am as u128 * bm as u128;
    let q: u128 = p / (SCALE as u128);
    let neg: bool = (a < 0) != (b < 0);
    proof {
        lemma_mul_sign(a as int, b as int);
        lemma_tdiv_abs(a as int * b as int, SCALE as int);
        assert(p as int == abs_int(a as int * b as int));
        assert(q as int == abs_int(a as int * b as int) / (SCALE as int));
    }
    if neg {
        if q > i64::MAX as u128 {
            i64::MIN
        } else {
            -(q as i64)
        }
    } else {
        if q > i64::MAX as u128 {
            i64::MAX
        } else {
            q as i64
        }
    }
}

/// Truncating division goes through the magnitude: `tdiv(a, b)` carries the
/// sign of `a` over the quotient of the magnitudes.
proof fn lemma_tdiv_abs(a: int, b: int)
    requires
        b > 0,
    ensures
        a >= 0 ==> tdiv(a, b) == abs_int(a) / b,
        a < 0 ==> tdiv(a, b) == -(abs_int(a) / b),
{
}

/// Multiplying by the fixed-point one is exact.
pub proof fn lemma_fx_mul_one(a: i64)
    ensures
        fx_mul_spec(SCALE, a) == a,
        fx_mul_spec(a, SCALE) == a,
{
    let s = SCALE as int;
    let x = a as int;
    lemma_mul_sign(s, x);
    assert(x * s == s * x);
    if x >= 0 {
        vstd::arithmetic::div_mod::lemma_div_multiples_vanish(x, s);
        assert(tdiv(s * x, s) == x);
    } else {
        vstd::arithmetic::div_mod::lemma_div_multiples_vanish(-x, s);
        assert(-(s * x) == s * -x);
        assert(tdiv(s * x, s) == -((s * -x) / s));
    }
}

/// Multiplying by zero gives zero.
pub proof fn lemma_fx_mul_zero(a: i64)
    ensures
        fx_mul_spec(0, a) == 0,
        fx_mul_spec(a, 0) == 0,
{
    let x = a as int;
    lemma_mul_sign(0, x);
    lemma_mul_sign(x, 0);
    vstd::arithmetic::div_mod::lemma_div_of0(SCALE as int);
}

/// Magnitude part of the hyperbolic-tangent approximation, for `0 <= m < 3 * SCALE`:
/// the rational approximant `m (27 + m^2) / (27 + 9 m^2)` (in real units), clamped to 1.
pub open spec fn tanh_mag_spec(m: int) -> int
    recommends
        0 <= m < 3 * SCALE,
{
    let s = SCALE as int;
    let q = (m * (27 * s * s + m * m)) / (27 * s * s + 9 * (m * m));
    if q > s {
        s
    } else {
        q
    }
}

/// Fixed-point approximation of the hyperbolic tangent: an odd function,
/// equal to the rational approximant on `(-3, 3)` (in real units) and to
/// `±1` outside, always within `[-SCALE, SCALE]`.
pub open spec fn tanh_spec(y: i64) -> i64 {
    if y >= 3 * SCALE {
        SCALE
    } else if y <= -3 * SCALE {
        sat64(-(SCALE as int))
    } else if y < 0 {
        sat64(-tanh_mag_spec(abs_int(y as int)))
    } else {
        sat64(tanh_mag_spec(y as int))
    }
}

pub fn tanh_fx(y: i64) -> (r: i64)
    ensures
        r == tanh_spec(y),
{
    if y >= 3 * SCALE {
        SCALE
    } else if y <= -3 * SCALE {
        -SCALE
    } else {
        let m: u64 = abs_i64(y);
        let m128: u128 = m as u128;
        proof {
            assert(m128 < 3000000);
            assert(m128 * m128 < 9_000_000_000_000) by (nonlinear_arith)
                requires
                    0 <= m128 < 3000000,
            ;
        }
        let msq: u128 = m128 * m128;
        proof {
            assert(m128 * (27_000_000_000_000 + msq) <= 3000000 * 36_000_000_000_000)
                by (nonlinear_arith)
                requires
                    0 <= m128 < 3000000,
                    0 <= msq < 9_000_000_000_000,
            ;
        }
        let num: u128 = m128 * (27_000_000_000_000u128 + msq);
        let den: u128 = 27_000_000_000_000u128 + 9u128 * msq;
        let q: u128 = num / den;
        proof {
            let s = SCALE as int;
            assert(27 * s * s == 27_000_000_000_000);
            assert(num as int == (m as int) * (27 * s * s + (m as int) * (m as int)));
            assert(den as int == 27 * s * s + 9 * ((m as int) * (m as int)));
        }
        let t: i64 = if q > SCALE as u128 {
            SCALE
        } else {
            q as i64
        };
        if y < 0 {
            -t
        } else {
            t
        }
    }
}

} // verus!

//! Fixed-point arithmetic in millionths of a unit.
//!
//! Every physical quantity of the simulation is a signed integer that counts
//! millionths: a position of `12_500_000` is twelve and a half pixels, a time
//! step of `16_667` is a sixtieth of a second. Products and quotients are
//! formed exactly in a wider integer and rounded toward zero once, so that
//! mirrored inputs give mirrored results.

use vstd::arithmetic::div_mod::{lemma_fundamental_div_mod, lemma_fundamental_div_mod_converse};
use vstd::prelude::*;

verus! {

/// Number of representable steps per unit.
pub const SCALE: i64 = 1_000_000;

/// Largest magnitude a coordinate, a velocity or a spin may have at the start
/// of a tick: a million units.
pub const MAX_MAGNITUDE: i64 = 1_000_000_000_000;

/// Largest magnitude any quantity can reach within one tick that started
/// inside [`MAX_MAGNITUDE`].
pub const MAX_TRANSIENT: i64 = 1_000_000_000_000_000_000;

/// Quotient of `n` by a positive `d`, rounded toward zero.
pub open spec fn trunc_div(n: int, d: int) -> int {
    if n >= 0 {
        n / d
    } else {
        -((-n) / d)
    }
}

/// Product of two fixed-point values, as a fixed-point value.
pub open spec fn scaled_mul(a: int, b: int) -> int {
    trunc_div(a * b, SCALE as int)
}

/// Quotient of two fixed-point values, as a fixed-point value.
pub open spec fn scaled_div(a: int, b: int) -> int {
    trunc_div(a * SCALE, b)
}

/// Direction of `v`: `1` for zero and above, `-1` below.
pub open spec fn sign_of(v: int) -> int {
    if v >= 0 {
        1
    } else {
        -1
    }
}

/// Distance of `v` from zero.
pub open spec fn abs_of(v: int) -> int {
    if v >= 0 {
        v
    } else {
        -v
    }
}

/// Whether `v` lies in `[-m, m]`.
pub open spec fn within(v: int, m: int) -> bool {
    -m <= v <= m
}

/// A product is no larger than the product of the bounds of its factors.
pub proof fn lemma_product_bound(a: int, b: int, ma: int, mb: int)
    by (nonlinear_arith)
    requires
        -ma <= a <= ma,
        -mb <= b <= mb,
    ensures
        -(ma * mb) <= a * b <= ma * mb,
{
}

/// Rounding toward zero never moves a quotient away from zero, and keeps it
/// within the quotient of any bound on the numerator.
pub proof fn lemma_trunc_div_bound(n: int, d: int, m: int)
    requires
        d > 0,
        -m <= n <= m,
    ensures
        -(m / d) <= trunc_div(n, d) <= m / d,
        n >= 0 ==> 0 <= trunc_div(n, d) <= n,
        n <= 0 ==> n <= trunc_div(n, d) <= 0,
{
    lemma_div_monotone(abs_of(n), m, d);
    lemma_div_shrinks(abs_of(n), d);
}

/// A rounded quotient of a product is bounded by the quotient of the product
/// of the factors' bounds.
pub proof fn lemma_mul_div_bound(a: int, b: int, d: int, ma: int, mb: int)
    requires
        d > 0,
        within(a, ma),
        within(b, mb),
    ensures
        within(trunc_div(a * b, d), (ma * mb) / d),
{
    lemma_product_bound(a, b, ma, mb);
    lemma_trunc_div_bound(a * b, d, ma * mb);
}

/// Scaling by a factor between minus one and one never increases a
/// magnitude, and the sign of the result is the product of the signs.
pub proof fn lemma_scaled_mul_shrinks(a: int, k: int)
    requires
        within(k, SCALE as int),
    ensures
        abs_of(scaled_mul(a, k)) <= abs_of(a),
        (a >= 0 && k >= 0) || (a <= 0 && k <= 0) ==> scaled_mul(a, k) >= 0,
        (a >= 0 && k <= 0) || (a <= 0 && k >= 0) ==> scaled_mul(a, k) <= 0,
{
    let m = abs_of(a);
    lemma_product_bound(a, k, m, SCALE as int);
    assert((m * SCALE) / (SCALE as int) == m) by (nonlinear_arith)
        requires
            SCALE == 1_000_000,
    ;
    assert((a >= 0 && k >= 0) || (a <= 0 && k <= 0) ==> a * k >= 0) by (nonlinear_arith);
    assert((a >= 0 && k <= 0) || (a <= 0 && k >= 0) ==> a * k <= 0) by (nonlinear_arith);
    lemma_trunc_div_bound(a * k, SCALE as int, m * SCALE);
}

/// Rounding toward zero is symmetric about zero.
pub proof fn lemma_trunc_div_mirror(n: int, d: int)
    requires
        d > 0,
    ensures
        trunc_div(-n, d) == -trunc_div(n, d),
{
    if n == 0 {
        assert(0int / d == 0) by (nonlinear_arith)
            requires
                d > 0,
        ;
    }
}

proof fn lemma_div_monotone(a: int, b: int, d: int)
    by (nonlinear_arith)
    requires
        d > 0,
        0 <= a <= b,
    ensures
        0 <= a / d <= b / d,
{
}

proof fn lemma_div_shrinks(a: int, d: int)
    by (nonlinear_arith)
    requires
        d > 0,
        0 <= a,
    ensures
        0 <= a / d <= a,
{
}

/// Exact product of two 64-bit values.
pub fn mul_wide(a: i64, b: i64) -> (p: i128)
    ensures
        p == a * b,
{
    proof {
        lemma_product_bound(
            a as int,
            b as int,
            0x8000_0000_0000_0000,
            0x8000_0000_0000_0000,
        );
    }
    (a as i128) * (b as i128)
}

/// `a * b / d`, formed exactly and rounded toward zero.
pub fn mul_div(a: i64, b: i64, d: i64) -> (q: i128)
    requires
        d > 0,
    ensures
        q == trunc_div(a * b, d as int),
{
    let p: i128 = mul_wide(a, b);
    p / (d as i128)
}

/// `a * b / d` as a 64-bit value, for a caller that knows it fits.
pub fn mul_div_narrow(a: i64, b: i64, d: i64) -> (q: i64)
    requires
        d > 0,
        i64::MIN <= trunc_div(a * b, d as int) <= i64::MAX,
    ensures
        q == trunc_div(a * b, d as int),
{
    let wide: i128 = mul_div(a, b, d);
    wide as i64
}

/// Remainder of `n` by a positive `d`, in `[0, d)`.
pub fn euclid_rem(n: i128, d: i64) -> (r: i64)
    requires
        d > 0,
    ensures
        r == (n as int) % (d as int),
        0 <= r < d,
{
    let m: i128 = n % (d as i128);
    proof {
        if n < 0 {
            let k: int = (-n) / (d as int);
            let e: int = (-n) % (d as int);
            assert(m == -e);
            lemma_fundamental_div_mod(-n, d as int);
            if e > 0 {
                assert(n == (d as int) * (-k - 1) + (d - e)) by (nonlinear_arith)
                    requires
                        -n == (d as int) * k + e,
                ;
                lemma_fundamental_div_mod_converse(
                    n as int,
                    d as int,
                    -k - 1,
                    d - e,
                );
            } else {
                assert(n == (d as int) * (-k) + 0) by (nonlinear_arith)
                    requires
                        -n == (d as int) * k + e,
                        e == 0,
                ;
                lemma_fundamental_div_mod_converse(
                    n as int,
                    d as int,
                    -k,
                    0,
                );
            }
        }
    }
    if m < 0 {
        (m + (d as i128)) as i64
    } else {
        m as i64
    }
}

/// Distance of `v` from zero, in a type that holds it for every `v`.
pub fn magnitude(v: i64) -> (m: i128)
    ensures
        m == abs_of(v as int),
{
    if v >= 0 {
        v as i128
    } else {
        -(v as i128)
    }
}

} // verus!

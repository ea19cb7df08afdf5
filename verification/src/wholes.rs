//! Whole numbers in binary: exact as far as the precision goes.

use crate::rounding;
use crate::rounding::{Format, Number};
use vstd::arithmetic::power2;
use vstd::prelude::*;

verus! {

/// How often a number is doubled to have full precision.
pub open spec fn lift(f: Format, n: nat) -> nat
    decreases
            (if n < f.low() {
                f.low() - n
            } else {
                0
            }),
    when n > 0
{
    if n >= f.low() {
        0
    } else {
        1 + lift(f, 2 * n)
    }
}

proof fn lemma_lift(f: Format, n: nat, b: nat)
    requires
        f.valid(),
        0 < n < f.high(),
        n * power2::pow2(b) >= f.low(),
    ensures
        f.low() <= n * power2::pow2(lift(f, n)) < f.high(),
        lift(f, n) <= b,
    decreases b,
{
    power2::lemma2_to64();
    f.lemma_bounds();
    if n < f.low() {
        if b == 0 {
            assert(n * 1 == n);
        }
        let c = (b - 1) as nat;
        power2::lemma_pow2_unfold(b);
        assert(n * power2::pow2(b) == (2 * n) * power2::pow2(c)) by (nonlinear_arith)
            requires
                power2::pow2(b) == 2 * power2::pow2(c),
        ;
        lemma_lift(f, 2 * n, c);
        let k = lift(f, 2 * n);
        power2::lemma_pow2_unfold(k + 1);
        assert(n * power2::pow2(k + 1) == (2 * n) * power2::pow2(k)) by (nonlinear_arith)
            requires
                power2::pow2(k + 1) == 2 * power2::pow2(k),
        ;
    } else {
        assert(n * 1 == n);
    }
}

/// The number a positive whole number is.
pub open spec fn lifted(f: Format, n: nat) -> Number {
    Number::Finite {
        negative: false,
        mantissa: (n * power2::pow2(lift(f, n))) as u64,
        exponent: -(lift(f, n) as int) as i32,
    }
}

/// A whole number within the precision is exact.
pub proof fn lemma_whole(f: Format, n: nat)
    requires
        f.valid(),
        0 < n < f.high(),
    ensures
        rounding::nearest(f, false, n, 1, 0) == lifted(f, n),
        lifted(f, n).fits(f),
        lift(f, n) < f.precision,
        lifted(f, n)->mantissa == n * power2::pow2(lift(f, n)),
        lifted(f, n)->exponent == -(lift(f, n) as int),
        f.low() <= lifted(f, n)->mantissa < f.high(),
{
    f.lemma_bounds();
    let b = (f.precision - 1) as nat;
    assert(n * power2::pow2(b) >= f.low()) by (nonlinear_arith)
        requires
            n >= 1,
            power2::pow2(b) == f.low(),
    ;
    lemma_lift(f, n, b);
    let k = lift(f, n);
    let a = lifted(f, n);
    assert(a.fits(f));
    rounding::lemma_scaled_shift(f, n, 1, 0, k);
    rounding::lemma_exact(f, a, 0);
    power2::lemma2_to64();
    assert(a->mantissa as nat * power2::pow2(0) == a->mantissa as nat);
}

/// A whole number is its own nearest whole number, and its whole part.
pub proof fn lemma_whole_stays(f: Format, n: nat, limit: nat)
    requires
        f.valid(),
        0 < n < f.high(),
        n <= limit,
    ensures
        rounding::whole(f, lifted(f, n)) == lifted(f, n),
        rounding::truncated(lifted(f, n), limit) == n,
{
    lemma_whole(f, n);
    let k = lift(f, n);
    let unit = power2::pow2(k);
    let m = lifted(f, n)->mantissa as nat;
    power2::lemma2_to64();
    power2::lemma_pow2_pos(k);
    if k > 0 {
        assert((2 * m + unit) / (2 * unit) == n) by (nonlinear_arith)
            requires
                m == n * unit,
                unit > 0,
        ;
        assert(m / unit == n) by (nonlinear_arith)
            requires
                m == n * unit,
                unit > 0,
        ;
    } else {
        assert(n * 1 == n);
    }
}

} // verus!

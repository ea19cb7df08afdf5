//! Square roots in single precision: the exact root, rounded once to the
//! nearest number.

use crate::rounding;
use crate::rounding::{Format, Number};
use vstd::arithmetic::power2;
use vstd::prelude::*;

verus! {

/// `m` is the whole number nearest to the square root of `n`: the root lies
/// between `m - 1/2` and `m + 1/2`, and is neither.
pub open spec fn is_nearest_root(n: nat, m: nat) -> bool {
    m >= 1 && (2 * m - 1) * (2 * m - 1) <= 4 * n < (2 * m + 1) * (2 * m + 1)
}

/// The whole number nearest to a square root.
#[verifier::opaque]
pub open spec fn nearest_root(n: nat) -> nat {
    choose|m: nat| is_nearest_root(n, m)
}

/// There is one nearest whole number.
pub proof fn lemma_nearest_root(n: nat, m: nat)
    requires
        is_nearest_root(n, m),
    ensures
        nearest_root(n) == m,
{
    reveal(nearest_root);
    let other = nearest_root(n);
    assert(is_nearest_root(n, other));
    if other < m {
        assert((2 * other + 1) * (2 * other + 1) <= (2 * m - 1) * (2 * m - 1)) by (nonlinear_arith)
            requires
                2 * other + 1 <= 2 * m - 1,
                other >= 0,
        ;
    }
    if m < other {
        assert((2 * m + 1) * (2 * m + 1) <= (2 * other - 1) * (2 * other - 1)) by (nonlinear_arith)
            requires
                2 * m + 1 <= 2 * other - 1,
                m >= 0,
        ;
    }
}

/// `n * 2^x` written with an even exponent and enough digits for the root to
/// have full precision.
pub open spec fn rootable(n: nat, x: int) -> (nat, int)
    decreases
            if n < 0x4000_0000_0000 {
                0x4000_0000_0000 - n + 2
            } else {
                x % 2
            },
    when n > 0
{
    if n < 0x4000_0000_0000 || x % 2 != 0 {
        rootable(2 * n, x - 1)
    } else {
        (n, x)
    }
}

/// The square root of a number; a negative one has none.
pub open spec fn root(f: Format, a: Number) -> Number {
    match a {
        Number::Nan => Number::Nan,
        Number::Infinite { negative } => if negative {
            Number::Nan
        } else {
            a
        },
        Number::Finite { negative, mantissa, exponent } => if mantissa == 0 {
            a
        } else if negative {
            Number::Nan
        } else {
            let (n, x) = rootable(mantissa as nat, exponent as int);
            rounding::packed(f, false, nearest_root(n), x / 2)
        },
    }
}

/// The whole part of a square root.
fn whole_root(n: u64) -> (r: u64)
    requires
        n < 0x1_0000_0000_0000,
    ensures
        r < 0x100_0000,
        r * r <= n < (r + 1) * (r + 1),
{
    let mut low: u64 = 0;
    let mut high: u64 = 0x100_0000;
    assert(0x100_0000 * 0x100_0000 == 0x1_0000_0000_0000) by (nonlinear_arith);
    while high - low > 1
        invariant
            low < high <= 0x100_0000,
            low * low <= n < high * high,
        decreases high - low,
    {
        let mid: u64 = low + (high - low) / 2;
        assert(mid * mid <= 0x100_0000 * 0x100_0000) by (nonlinear_arith)
            requires
                mid <= 0x100_0000,
        ;
        if mid * mid <= n {
            low = mid;
        } else {
            high = mid;
        }
    }
    assert(high == low + 1);
    low
}

/// The whole number nearest to a square root.
fn round_root(n: u64) -> (r: u64)
    requires
        0x4000_0000_0000 <= n < 0x1_0000_0000_0000,
    ensures
        r == nearest_root(n as nat),
        0x80_0000 <= r <= 0x100_0000,
{
    let low = whole_root(n);
    assert(low >= 0x80_0000) by (nonlinear_arith)
        requires
            n < (low + 1) * (low + 1),
            n >= 0x4000_0000_0000,
    ;
    assert(low * low <= 0x100_0000 * 0x100_0000) by (nonlinear_arith)
        requires
            low < 0x100_0000,
    ;
    let rest: u64 = n - low * low;
    let r: u64 = if rest <= low {
        low
    } else {
        low + 1
    };
    proof {
        assert((2 * low + 1) * (2 * low + 1) == 4 * (low * low) + 4 * low + 1) by (nonlinear_arith);
        assert((2 * low - 1) * (2 * low - 1) == 4 * (low * low) - 4 * low + 1) by (nonlinear_arith);
        assert((low + 1) * (low + 1) == low * low + 2 * low + 1) by (nonlinear_arith);
        assert((2 * low + 3) * (2 * low + 3) == 4 * (low * low) + 12 * low + 9)
            by (nonlinear_arith);
        if rest <= low {
            assert(is_nearest_root(n as nat, low as nat));
        } else {
            let up = (low + 1) as nat;
            assert(2 * up - 1 == 2 * low + 1 && 2 * up + 1 == 2 * low + 3);
            assert(is_nearest_root(n as nat, up));
        }
        lemma_nearest_root(n as nat, r as nat);
    }
    r
}

/// The square root of a single precision number.
pub fn take_root(f: Format, a: Number) -> (r: Number)
    requires
        f.is_single(),
        a.fits(f),
    ensures
        r == root(f, a),
        r.fits(f),
{
    proof {
        f.lemma_bounds();
        power2::lemma2_to64();
        power2::lemma2_to64_rest();
    }
    match a {
        Number::Nan => Number::Nan,
        Number::Infinite { negative } => if negative {
            Number::Nan
        } else {
            a
        },
        Number::Finite { negative, mantissa, exponent } => {
            if mantissa == 0 {
                return a;
            }
            if negative {
                return Number::Nan;
            }
            let mut n: u64 = mantissa;
            let mut y: u32 = (exponent + 400) as u32;
            let ghost target = rootable(mantissa as nat, exponent as int);
            let ghost mut steps: nat = 0;
            while n < 0x4000_0000_0000 || y % 2 != 0
                invariant
                    0 < n,
                    n < 0x8000_0000_0000 || (n < 0x1_0000_0000_0000 && y % 2 == 0),
                    power2::pow2(steps) <= n,
                    y == exponent + 400 - steps,
                    -149 <= exponent <= 104,
                    steps <= 48,
                    rootable(n as nat, y - 400) == target,
                decreases
                        if n < 0x4000_0000_0000 {
                            0x4000_0000_0000 - n + 2
                        } else {
                            (y % 2) as int
                        },
            {
                proof {
                    power2::lemma2_to64_rest();
                    if steps > 47 {
                        assert(power2::pow2(steps) == power2::pow2(48));
                    }
                    power2::lemma_pow2_unfold((steps + 1) as nat);
                    steps = (steps + 1) as nat;
                }
                n = n * 2;
                y = y - 1;
            }
            let m = round_root(n);
            let half: i32 = (y / 2) as i32 - 200;
            if m >= 0x100_0000 {
                Number::Finite { negative: false, mantissa: 0x80_0000, exponent: half + 1 }
            } else {
                Number::Finite { negative: false, mantissa: m, exponent: half }
            }
        },
    }
}

} // verus!

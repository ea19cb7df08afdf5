//! What the percentages of a dialog promise, within what rounding can move them
//! in single precision.

use crate::dialogs::warp_text;
use crate::ieee::Real32;
use crate::ratios;
use crate::values;
use vstd::arithmetic::power2;
use vstd::prelude::*;

verus! {

proof fn lemma_hundred()
    ensures
        (Real32 { bits: 0x42c8_0000 }).finite(),
        values::narrow(Real32 { bits: 0x42c8_0000 }) == 100 * values::narrow_one(),
{
    power2::lemma2_to64();
    power2::lemma_pow2_adds(17, 132);
    let (g, p, u) = (power2::pow2(17), power2::pow2(132), values::narrow_one());
    assert(0xc8_0000 * p == 100 * u) by (nonlinear_arith)
        requires
            u == g * p,
            g == 0x2_0000,
    ;
}

proof fn lemma_hundredth(m: int, f: int, u: int, p: int)
    requires
        values::size(f * (100 * u) - m * u) * values::narrow_parts() <= values::size(m * u) + (100
            * u) * values::narrow_parts(),
        values::size(m - p * u) * values::narrow_parts() <= 3 * values::size(p * u),
        u >= 0x1_0000_0000_0000,
        1 <= values::size(p),
    ensures
        values::size(100 * f - p * u) * values::narrow_parts() <= 8 * values::size(p * u),
        values::size(p * u) >= u,
{
    assert(f * (100 * u) - m * u == (100 * f - m) * u) by (nonlinear_arith);
    let (x, y) = (values::size(100 * f - m), values::size(m));
    assert(values::size((100 * f - m) * u) == x * u && values::size(m * u) == y * u)
        by (nonlinear_arith)
        requires
            x == values::size(100 * f - m),
            y == values::size(m),
            u > 0,
    ;
    assert(x * values::narrow_parts() <= y + 100 * values::narrow_parts()) by (nonlinear_arith)
        requires
            (x * u) * values::narrow_parts() <= y * u + (100 * u) * values::narrow_parts(),
            u > 0,
    ;
    assert(values::size(p * u) >= u) by (nonlinear_arith)
        requires
            values::size(p) >= 1,
            u > 0,
    ;
}

/// A hundred times the fraction of a percentage is the percentage, with its
/// sign.
pub proof fn a_percentage_is_a_hundredth(percent: int)
    requires
        percent != 0,
        -1_000_000 <= percent <= 1_000_000,
    ensures
        ({
            let exact = percent * values::narrow_one();
            &&& warp_text::fraction(percent).finite()
            &&& values::size(100 * values::narrow(warp_text::fraction(percent)) - exact)
                * values::narrow_parts() <= 8 * values::size(exact)
        }),
{
    ratios::lemma_one();
    lemma_hundred();
    let u = values::narrow_one() as int;
    let most = values::narrow_most();
    let n: nat = values::size(percent) as nat;
    let whole = Real32::of_whole(n);
    let zero = Real32 { bits: 0 };
    ratios::lemma_whole(n);
    let w = values::narrow(whole);
    assert(u <= n * u <= 1_000_000 * u) by (nonlinear_arith)
        requires
            1 <= n <= 1_000_000,
            u > 0,
    ;
    ratios::lemma_within_two(w, n * u, 1);
    let top = if percent < 0 {
        values::lemma_narrow_minus(zero, whole);
        assert(percent * u == -(n * u)) by (nonlinear_arith)
            requires
                percent == -(n as int),
        ;
        zero.minus_spec(whole)
    } else {
        whole
    };
    let m = values::narrow(top);
    assert(values::size(m - percent * u) * values::narrow_parts() <= 3 * values::size(percent * u));
    assert(values::size(m) <= 4_000_000 * u);
    assert(values::size(m) * u <= most * (100 * u)) by (nonlinear_arith)
        requires
            values::size(m) <= 4_000_000 * u,
            most == 0x8000_0000_0000_0000_0000_0000_0000_0000int * u,
            u > 0,
    ;
    let hundred = Real32 { bits: 0x42c8_0000 };
    values::lemma_narrow_over(top, hundred);
    lemma_hundredth(m, values::narrow(top.over_spec(hundred)), u, percent);
}

} // verus!

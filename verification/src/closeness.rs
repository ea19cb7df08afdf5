//! How far a double precision product or quotient can be off, and what chains
//! of them keep.

use crate::accuracy;
use crate::ieee;
use crate::ieee::Real64;
use crate::rounding;
use crate::rounding::Number;
use vstd::arithmetic::power2;
use vstd::prelude::*;

verus! {

/// A number of full precision.
pub open spec fn plain(a: Real64) -> bool {
    &&& a.number() is Finite
    &&& 0x10_0000_0000_0000 <= a.number()->mantissa < 0x20_0000_0000_0000
    &&& -1074 <= a.number()->exponent <= 971
}

/// The exponent of a number.
pub open spec fn scale(a: Real64) -> int {
    a.number()->exponent as int
}

/// How many of the least positive number the size of a number is.
pub open spec fn steps(a: Real64) -> nat {
    a.number()->mantissa as nat * power2::pow2((scale(a) + 1074) as nat)
}

/// How many of the least positive number one is.
pub open spec fn unity() -> nat {
    power2::pow2(1074)
}

/// One part in which a rounded number of full precision can be off.
pub open spec fn parts() -> nat {
    0x20_0000_0000_0000
}

/// `b` lies within one part of `a`.
pub open spec fn within_a_part(a: nat, b: nat) -> bool {
    a * (parts() - 1) <= b * parts() <= a * (parts() + 1)
}

/// `b` lies within `k` parts of `a`.
pub open spec fn within(a: nat, b: nat, k: nat) -> bool {
    -((k * a) as int) <= (b - a) * parts() <= k * a
}

/// A number of full precision is finite, and not zero.
pub proof fn lemma_plain(a: Real64)
    requires
        plain(a),
    ensures
        steps(a) > 0,
        a.finite(),
        !a.nan(),
{
    let p = power2::pow2((scale(a) + 1074) as nat);
    power2::lemma_pow2_pos((scale(a) + 1074) as nat);
    let m = a.number()->mantissa as nat;
    assert(m * p > 0) by (nonlinear_arith)
        requires
            m > 0,
            p > 0,
    ;
}

/// Half a unit of the last place of a mantissa of full precision is less than
/// a part.
proof fn lemma_half_a_unit(exact: nat, m: nat, unit: nat, factor: nat)
    requires
        m >= 0x10_0000_0000_0000,
        -(unit as int) <= 2 * (m * unit - exact) <= unit,
    ensures
        within_a_part(m * unit * factor, exact * factor),
{
    let t = parts();
    let a = m * unit;
    assert(unit * 0x10_0000_0000_0000 <= a) by (nonlinear_arith)
        requires
            m >= 0x10_0000_0000_0000,
            a == m * unit,
    ;
    assert(-(a as int) <= (a - exact) * t <= a);
    assert(exact * t <= a * (t + 1) && a * (t - 1) <= exact * t) by (nonlinear_arith)
        requires
            -(a as int) <= (a - exact) * t <= a,
            t > 0,
    ;
    assert((exact * factor) * t <= (a * factor) * (t + 1)) by (nonlinear_arith)
        requires
            exact * t <= a * (t + 1),
    ;
    assert((a * factor) * (t - 1) <= (exact * factor) * t) by (nonlinear_arith)
        requires
            a * (t - 1) <= exact * t,
            t > 1,
    ;
}

/// A rounded quotient of full precision, by its mantissa and exponent.
proof fn lemma_rounded(
    negative: bool,
    n: nat,
    d: nat,
    x: int,
    lowest: int,
    highest: int,
) -> (r: (nat, int))
    requires
        n > 0,
        d > 0,
        -1074 <= lowest,
        highest <= 971,
        ({
            let (m, e) = rounding::scaled(ieee::double_format(), n, d, x);
            lowest <= e < highest && 0x10_0000_0000_0000 <= m <= 0x20_0000_0000_0000
        }),
    ensures
        ({
            let (m, e) = rounding::scaled(ieee::double_format(), n, d, x);
            let a = Real64::of(rounding::nearest(ieee::double_format(), negative, n, d, x));
            &&& r == (m, e)
            &&& plain(a)
            &&& a.number().negative() == negative
            &&& lowest <= scale(a) <= highest
            &&& steps(a) == m * power2::pow2((e + 1074) as nat)
        }),
{
    let f = ieee::double_format();
    f.lemma_bounds();
    let (m, e) = rounding::scaled(f, n, d, x);
    let p = rounding::packed(f, negative, m, e);
    accuracy::lemma_nearest_fits(f, negative, n, d, x);
    Real64::lemma_of(p, f);
    if m == 0x20_0000_0000_0000 {
        let k = (e + 1074) as nat;
        power2::lemma_pow2_unfold(k + 1);
        let u = power2::pow2(k);
        assert(0x10_0000_0000_0000 * (2 * u) == 0x20_0000_0000_0000 * u) by (nonlinear_arith);
        assert((e + 1 + 1074) as nat == k + 1);
    }
    (m, e)
}

/// Powers of two of a sum.
proof fn lemma_powers(a: nat, b: nat, c: nat, d: nat)
    requires
        a + b == c + d,
    ensures
        power2::pow2(a) * power2::pow2(b) == power2::pow2(c) * power2::pow2(d),
{
    power2::lemma_pow2_adds(a, b);
    power2::lemma_pow2_adds(c, d);
}

/// A quotient is within a part of the exact one.
pub proof fn lemma_quotient(a: Real64, b: Real64)
    requires
        plain(a),
        plain(b),
        -1000 <= scale(a) - scale(b) <= 1000,
    ensures
        plain(a.over_spec(b)),
        a.over_spec(b).number().negative() == (a.number().negative() != b.number().negative()),
        scale(a) - scale(b) - 53 <= scale(a.over_spec(b)) <= scale(a) - scale(b) - 51,
        within_a_part(steps(a.over_spec(b)) * steps(b), steps(a) * unity()),
{
    let f = ieee::double_format();
    f.lemma_bounds();
    reveal(Real64::over_spec);
    power2::lemma2_to64();
    power2::lemma2_to64_rest();
    let n = a.number()->mantissa as nat;
    let d = b.number()->mantissa as nat;
    let x = scale(a) - scale(b);
    // The quotient lies between one half and two.
    rounding::lemma_scaled_shift(f, n, d, x, 53);
    let far = power2::pow2(53);
    assert(n * far >= d * f.low() * power2::pow2(0)) by (nonlinear_arith)
        requires
            n >= 0x10_0000_0000_0000,
            d < 0x20_0000_0000_0000,
            far == 0x20_0000_0000_0000,
            f.low() == 0x10_0000_0000_0000,
            power2::pow2(0) == 1,
    ;
    accuracy::lemma_at_least(f, n * far, d, x - 53, f.low(), x - 53);
    assert(n * far <= d * f.low() * power2::pow2(2)) by (nonlinear_arith)
        requires
            n < 0x20_0000_0000_0000,
            d >= 0x10_0000_0000_0000,
            far == 0x20_0000_0000_0000,
            f.low() == 0x10_0000_0000_0000,
            power2::pow2(2) == 4,
    ;
    accuracy::lemma_at_most(f, n * far, d, x - 53, f.low(), x - 51);
    accuracy::lemma_scaled_range(f, n, d, x);
    lemma_below_two(n, d, x);
    let negative = a.number().negative() != b.number().negative();
    let (m, e) = lemma_rounded(negative, n, d, x, x - 53, x - 51);
    accuracy::rounding_is_within_half_a_unit(f, n, d, x);
    let r = a.over_spec(b);
    let g = (x - e) as nat;
    let long = n * power2::pow2(g);
    let er = (e + 1074) as nat;
    let eb = (scale(b) + 1074) as nat;
    let ea = (scale(a) + 1074) as nat;
    let factor = power2::pow2(er) * power2::pow2(eb);
    lemma_half_a_unit(long, m, d, factor);
    assert(m * d * factor == (m * power2::pow2(er)) * (d * power2::pow2(eb)))
        by (nonlinear_arith)
        requires
            factor == power2::pow2(er) * power2::pow2(eb),
    ;
    // long * factor == n * 2^ea * 2^1074
    power2::lemma_pow2_adds(g, er);
    lemma_powers(g + er, eb, ea, 1074);
    assert(long * factor == (n * power2::pow2(ea)) * unity()) by (nonlinear_arith)
        requires
            long == n * power2::pow2(g),
            factor == power2::pow2(er) * power2::pow2(eb),
            power2::pow2(g + er) == power2::pow2(g) * power2::pow2(er),
            power2::pow2(g + er) * power2::pow2(eb) == power2::pow2(ea) * unity(),
    ;
}

/// A quotient of two mantissas of full precision is below two, and rounds to
/// less than two.
proof fn lemma_below_two(n: nat, d: nat, x: int)
    requires
        0x10_0000_0000_0000 <= n < 0x20_0000_0000_0000,
        0x10_0000_0000_0000 <= d < 0x20_0000_0000_0000,
        -1000 <= x <= 1000,
    ensures
        rounding::scaled(ieee::double_format(), n, d, x).1 < x - 51,
{
    let f = ieee::double_format();
    f.lemma_bounds();
    power2::lemma2_to64();
    power2::lemma2_to64_rest();
    rounding::lemma_scaled_shift(f, n, d, x, 52);
    let far = power2::pow2(52);
    let m = (0x20_0000_0000_0000 - 1) as nat;
    // n / d is at most (2^53 - 1) / 2^52.
    assert(n * far <= d * m * power2::pow2(0)) by (nonlinear_arith)
        requires
            n <= m,
            d >= far,
            power2::pow2(0) == 1,
    ;
    accuracy::lemma_at_most(f, n * far, d, x - 52, m, x - 52);
}

/// A product is within a part of the exact one.
pub proof fn lemma_product(a: Real64, b: Real64)
    requires
        plain(a),
        plain(b),
        -1000 <= scale(a) + scale(b) <= 900,
    ensures
        plain(a.times_spec(b)),
        a.times_spec(b).number().negative() == (a.number().negative() != b.number().negative()),
        scale(a) + scale(b) + 52 <= scale(a.times_spec(b)) <= scale(a) + scale(b) + 54,
        within_a_part(steps(a.times_spec(b)) * unity(), steps(a) * steps(b)),
{
    let f = ieee::double_format();
    f.lemma_bounds();
    reveal(Real64::times_spec);
    power2::lemma2_to64();
    power2::lemma2_to64_rest();
    let p = a.number()->mantissa as nat;
    let q = b.number()->mantissa as nat;
    let x = scale(a) + scale(b);
    let n = p * q;
    assert(n >= 0x10_0000_0000_0000 * 0x10_0000_0000_0000 && n <= (0x20_0000_0000_0000 - 1)
        * 0x20_0000_0000_0000) by (nonlinear_arith)
        requires
            n == p * q,
            p >= 0x10_0000_0000_0000,
            q >= 0x10_0000_0000_0000,
            p <= 0x20_0000_0000_0000 - 1,
            q <= 0x20_0000_0000_0000,
    ;
    let low = f.low();
    assert(1 * low * power2::pow2(52) == 0x10_0000_0000_0000 * 0x10_0000_0000_0000);
    accuracy::lemma_at_least(f, n, 1, x, low, x + 52);
    let most = (0x20_0000_0000_0000 - 1) as nat;
    assert(1 * most * power2::pow2(53) == (0x20_0000_0000_0000 - 1) * 0x20_0000_0000_0000);
    accuracy::lemma_at_most(f, n, 1, x, most, x + 53);
    accuracy::lemma_scaled_range(f, n, 1, x);
    let negative = a.number().negative() != b.number().negative();
    let (m, e) = lemma_rounded(negative, n, 1, x, x + 52, x + 54);
    accuracy::rounding_is_within_half_a_unit(f, n, 1, x);
    let g = (e - x) as nat;
    let wide = 1 * power2::pow2(g);
    let ea = (scale(a) + 1074) as nat;
    let eb = (scale(b) + 1074) as nat;
    let er = (e + 1074) as nat;
    let factor = power2::pow2(ea) * power2::pow2(eb);
    lemma_half_a_unit(n, m, wide, factor);
    power2::lemma_pow2_adds(g, ea);
    lemma_powers(g + ea, eb, er, 1074);
    assert(m * wide * factor == (m * power2::pow2(er)) * unity()) by (nonlinear_arith)
        requires
            wide == power2::pow2(g),
            factor == power2::pow2(ea) * power2::pow2(eb),
            power2::pow2(g + ea) == power2::pow2(g) * power2::pow2(ea),
            power2::pow2(g + ea) * power2::pow2(eb) == power2::pow2(er) * unity(),
    ;
    assert(n * factor == (p * power2::pow2(ea)) * (q * power2::pow2(eb))) by (nonlinear_arith)
        requires
            n == p * q,
            factor == power2::pow2(ea) * power2::pow2(eb),
    ;
}

/// One way through four roundings: what each leaves of the next is at most
/// `s / t`.
proof fn lemma_four_steps(
    v: nat,
    a: nat,
    b: nat,
    c: nat,
    w: nat,
    by: nat,
    u: nat,
    over: nat,
    o: nat,
    t: nat,
    s: nat,
)
    requires
        by > 0,
        over > 0,
        (by * v) * t <= (a * u) * s,
        (a * over) * t <= (b * o) * s,
        (b * o) * t <= (c * over) * s,
        (c * u) * t <= (w * by) * s,
    ensures
        v * (t * t * t * t) <= w * (s * s * s * s),
{
    assert(((by * v) * t) * (over * t) <= ((a * over) * t) * (u * s)) by (nonlinear_arith)
        requires
            (by * v) * t <= (a * u) * s,
    ;
    assert(((a * over) * t) * (u * s) <= ((b * o) * s) * (u * s)) by (nonlinear_arith)
        requires
            (a * over) * t <= (b * o) * s,
    ;
    let first = ((by * v) * t) * (over * t);
    assert(first * t <= ((b * o) * t) * (u * s * s)) by (nonlinear_arith)
        requires
            first <= ((b * o) * s) * (u * s),
    ;
    assert(((b * o) * t) * (u * s * s) <= ((c * over) * s) * (u * s * s)) by (nonlinear_arith)
        requires
            (b * o) * t <= (c * over) * s,
    ;
    assert((first * t) * t <= ((c * u) * t) * (over * s * s * s)) by (nonlinear_arith)
        requires
            first * t <= ((c * over) * s) * (u * s * s),
    ;
    assert(((c * u) * t) * (over * s * s * s) <= ((w * by) * s) * (over * s * s * s))
        by (nonlinear_arith)
        requires
            (c * u) * t <= (w * by) * s,
    ;
    let k = by * over;
    assert(k > 0) by (nonlinear_arith)
        requires
            k == by * over,
            by > 0,
            over > 0,
    ;
    let x = v * (t * t * t * t);
    let y = w * (s * s * s * s);
    assert((first * t) * t == k * x) by (nonlinear_arith)
        requires
            first == ((by * v) * t) * (over * t),
            k == by * over,
            x == v * (t * t * t * t),
    ;
    assert(((w * by) * s) * (over * s * s * s) == k * y) by (nonlinear_arith)
        requires
            k == by * over,
            y == w * (s * s * s * s),
    ;
    assert(x <= y) by (nonlinear_arith)
        requires
            k * x <= k * y,
            k > 0,
    ;
}

/// Two operations and their inverses give back what went in, within five
/// parts.
pub proof fn lemma_there_and_back(
    v: nat,
    a: nat,
    b: nat,
    c: nat,
    w: nat,
    by: nat,
    u: nat,
    over: nat,
    o: nat,
)
    requires
        by > 0,
        over > 0,
        within_a_part(a * u, by * v),
        within_a_part(b * o, a * over),
        within_a_part(c * over, b * o),
        within_a_part(w * by, c * u),
    ensures
        within(v, w, 5),
{
    let t = parts();
    let more = t + 1;
    let less = (t - 1) as nat;
    lemma_four_steps(v, a, b, c, w, by, u, over, o, t, more);
    assert(by * w == w * by && by * v == v * by) by (nonlinear_arith);
    lemma_four_steps(w, c, b, a, v, by, u, over, o, less, t);
    // (t + 1)^4 is at most t^3 * (t + 5), and (t - 1)^4 at least t^3 * (t - 4).
    let cube = t * t * t;
    assert(more * more * more * more <= cube * (t + 5)) by (nonlinear_arith)
        requires
            more == 0x20_0000_0000_0001,
            t == 0x20_0000_0000_0000,
            cube == t * t * t,
    ;
    assert(less * less * less * less >= cube * (t - 4)) by (nonlinear_arith)
        requires
            less == 0x1f_ffff_ffff_ffff,
            t == 0x20_0000_0000_0000,
            cube == t * t * t,
    ;
    assert(t * t * t * t == cube * t);
    assert(v * t <= w * (t + 5)) by (nonlinear_arith)
        requires
            v * (cube * t) <= w * (more * more * more * more),
            more * more * more * more <= cube * (t + 5),
            cube > 0,
    ;
    assert(w * (t - 4) <= v * t) by (nonlinear_arith)
        requires
            w * (less * less * less * less) <= v * (cube * t),
            less * less * less * less >= cube * (t - 4),
            cube > 0,
    ;
    assert(w * (t + 5) == w * t + 5 * w && w * (t - 4) == w * t - 4 * w) by (nonlinear_arith);
    assert((w - v) * t == w * t - v * t) by (nonlinear_arith);
}

} // verus!

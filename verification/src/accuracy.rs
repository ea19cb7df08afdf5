//! What rounding promises: the rounded number is a number of the format, it is
//! within half a unit of the exact one, and rounding keeps the order of
//! numbers.

use crate::rounding;
use crate::rounding::{Format, Number};
use vstd::arithmetic::power2;
use vstd::prelude::*;

verus! {

/// Where a mantissa and exponent stand among all of the format: one more
/// unit of the last place is one place further.
pub open spec fn place(f: Format, m: nat, e: int) -> int {
    (e - f.least) * f.low() + m
}

proof fn lemma_steps(f: Format, n: nat, d: nat)
    requires
        f.valid(),
        n > 0,
        d > 0,
    ensures
        f.high() == 2 * f.low(),
        (2 * d) * f.low() == d * f.high(),
        (2 * d) * f.low() == 2 * (d * f.low()),
        (2 * d) * f.high() == 2 * (d * f.high()),
        d * f.high() >= 2 * d,
        d * f.low() >= 1,
{
    f.lemma_bounds();
    let low = f.low();
    let high = f.high();
    assert((2 * d) * low == d * high) by (nonlinear_arith)
        requires
            high == 2 * low,
    ;
    assert((2 * d) * low == 2 * (d * low)) by (nonlinear_arith);
    assert((2 * d) * high == 2 * (d * high)) by (nonlinear_arith);
    assert(d * high >= 2 * d) by (nonlinear_arith)
        requires
            high >= 2,
    ;
    assert(d * low >= 1) by (nonlinear_arith)
        requires
            d >= 1,
            low >= 1,
    ;
}

/// Rounding gives a mantissa within the precision, or just past it, and full
/// precision above the least exponent.
pub proof fn lemma_scaled_range(f: Format, n: nat, d: nat, x: int)
    requires
        f.valid(),
        n > 0,
        d > 0,
    ensures
        ({
            let (m, e) = rounding::scaled(f, n, d, x);
            m <= f.high() && e >= f.least && (m < f.low() ==> e == f.least)
        }),
    decreases
            (if n < d * f.low() {
                1int
            } else {
                0
            }),
            (if n < d * f.low() {
                d * f.low() - n
            } else {
                n - d
            }),
{
    lemma_steps(f, n, d);
    if n < d * f.low() {
        lemma_scaled_range(f, 2 * n, d, x - 1);
    } else if n >= d * f.high() {
        lemma_scaled_range(f, n, 2 * d, x + 1);
    } else if x < f.least {
        let k = (f.least - x) as nat;
        power2::lemma_pow2_pos(k);
        let wide = d * power2::pow2(k);
        assert(wide >= d) by (nonlinear_arith)
            requires
                wide == d * power2::pow2(k),
                power2::pow2(k) >= 1,
        ;
        rounding::lemma_settled_bound(f, n, d, wide);
    } else {
        rounding::lemma_settled_bound(f, n, d, d);
        rounding::lemma_settled_low(f, n, d);
    }
}

/// The nearest number is a number of the format, with the sign asked for.
pub proof fn lemma_nearest_fits(f: Format, negative: bool, n: nat, d: nat, x: int)
    requires
        f.valid(),
        d > 0,
    ensures
        rounding::nearest(f, negative, n, d, x).fits(f),
        rounding::nearest(f, negative, n, d, x) !is Nan,
        rounding::nearest(f, negative, n, d, x).negative() == negative,
{
    f.lemma_bounds();
    if n > 0 {
        lemma_scaled_range(f, n, d, x);
    }
}

/// The nearest whole number of a number of the format is one too.
pub proof fn lemma_whole_fits(f: Format, a: Number)
    requires
        f.valid(),
        a.fits(f),
    ensures
        rounding::whole(f, a).fits(f),
{
    match a {
        Number::Finite { negative, mantissa, exponent } => {
            if exponent < 0 {
                let unit = power2::pow2((-exponent) as nat);
                lemma_nearest_fits(f, negative, (2 * mantissa as nat + unit) / (2 * unit), 1, 0);
            }
        },
        _ => {},
    }
}

proof fn lemma_half_even_at_most(n: nat, d: nat, m: nat)
    requires
        d > 0,
        n <= d * m,
    ensures
        rounding::half_even(n, d) <= m,
{
    let q = n / d;
    let r = n % d;
    assert(n == d * q + r && r < d) by (nonlinear_arith)
        requires
            d > 0,
            q == n / d,
            r == n % d,
    ;
    if q >= m {
        assert(d * q >= d * m) by (nonlinear_arith)
            requires
                q >= m,
        ;
        assert(q == m) by (nonlinear_arith)
            requires
                q >= m,
                d * q + r <= d * m,
                d > 0,
                r >= 0,
        ;
        assert(r == 0);
    }
}

proof fn lemma_half_even_at_least(n: nat, d: nat, m: nat)
    requires
        d > 0,
        n >= d * m,
    ensures
        rounding::half_even(n, d) >= m,
{
    assert(n / d >= m) by (nonlinear_arith)
        requires
            d > 0,
            n >= d * m,
    ;
}

/// Rounding at the unit is off by at most half of it.
proof fn lemma_half_even_error(n: nat, d: nat)
    requires
        d > 0,
    ensures
        -(d as int) <= 2 * (rounding::half_even(n, d) * d - n) <= d,
{
    let q = n / d;
    let r = n % d;
    assert(n == d * q + r && r < d) by (nonlinear_arith)
        requires
            d > 0,
            q == n / d,
            r == n % d,
    ;
    assert(q * d == d * q) by (nonlinear_arith);
    assert((q + 1) * d == d * q + d) by (nonlinear_arith);
}

/// What is at most a number of the format rounds to at most that number.
pub proof fn lemma_at_most(f: Format, n: nat, d: nat, x: int, m: nat, e: int)
    requires
        f.valid(),
        n > 0,
        d > 0,
        0 < m < f.high(),
        m >= f.low() || e == f.least,
        e >= f.least,
        x <= e,
        n <= d * m * power2::pow2((e - x) as nat),
    ensures
        ({
            let s = rounding::scaled(f, n, d, x);
            s.1 < e || (s.1 == e && s.0 <= m)
        }),
    decreases
            (if n < d * f.low() {
                1int
            } else {
                0
            }),
            (if n < d * f.low() {
                d * f.low() - n
            } else {
                n - d
            }),
{
    lemma_steps(f, n, d);
    let k = (e - x) as nat;
    let p = power2::pow2(k);
    power2::lemma_pow2_pos(k);
    power2::lemma2_to64();
    if n < d * f.low() {
        power2::lemma_pow2_unfold(k + 1);
        let next = power2::pow2(k + 1);
        assert(2 * n <= d * m * next) by (nonlinear_arith)
            requires
                n <= d * m * p,
                next == 2 * p,
        ;
        assert((e - (x - 1)) as nat == k + 1);
        lemma_at_most(f, 2 * n, d, x - 1, m, e);
    } else if n >= d * f.high() {
        let high = f.high();
        if k == 0 {
            assert(d * m * p < d * high) by (nonlinear_arith)
                requires
                    m < high,
                    d > 0,
                    p == 1,
            ;
        }
        power2::lemma_pow2_unfold(k);
        let half = power2::pow2((k - 1) as nat);
        assert(d * m * p == (2 * d) * m * half) by (nonlinear_arith)
            requires
                p == 2 * half,
        ;
        assert((e - (x + 1)) as nat == (k - 1) as nat);
        lemma_at_most(f, n, 2 * d, x + 1, m, e);
    } else if x < f.least {
        if e == f.least {
            let wide = d * p;
            assert(wide > 0) by (nonlinear_arith)
                requires
                    wide == d * p,
                    d > 0,
                    p > 0,
            ;
            assert(d * m * p == wide * m) by (nonlinear_arith)
                requires
                    wide == d * p,
            ;
            lemma_half_even_at_most(n, wide, m);
        }
    } else if x == e {
        assert(d * m * p == d * m) by (nonlinear_arith)
            requires
                p == 1,
        ;
        lemma_half_even_at_most(n, d, m);
    }
}

/// A quotient of full precision keeps its exponent, or goes up.
proof fn lemma_scaled_up(f: Format, n: nat, d: nat, x: int)
    requires
        f.valid(),
        d > 0,
        n >= d * f.low(),
        n > 0,
    ensures
        rounding::scaled(f, n, d, x).1 >= x,
    decreases n - d,
{
    lemma_steps(f, n, d);
    if n >= d * f.high() {
        lemma_scaled_up(f, n, 2 * d, x + 1);
    }
}

/// What is at least a number of the format rounds to at least that number.
pub proof fn lemma_at_least(f: Format, n: nat, d: nat, x: int, m: nat, e: int)
    requires
        f.valid(),
        n > 0,
        d > 0,
        0 < m < f.high(),
        m >= f.low() || e == f.least,
        e >= f.least,
        x <= e,
        n >= d * m * power2::pow2((e - x) as nat),
    ensures
        ({
            let s = rounding::scaled(f, n, d, x);
            s.1 > e || (s.1 == e && s.0 >= m)
        }),
    decreases
            (if n < d * f.low() {
                1int
            } else {
                0
            }),
            (if n < d * f.low() {
                d * f.low() - n
            } else {
                n - d
            }),
{
    lemma_steps(f, n, d);
    let low = f.low();
    let high = f.high();
    let k = (e - x) as nat;
    let p = power2::pow2(k);
    power2::lemma_pow2_pos(k);
    power2::lemma2_to64();
    if n < d * low {
        power2::lemma_pow2_unfold(k + 1);
        let next = power2::pow2(k + 1);
        assert(2 * n >= d * m * next) by (nonlinear_arith)
            requires
                n >= d * m * p,
                next == 2 * p,
        ;
        assert((e - (x - 1)) as nat == k + 1);
        lemma_at_least(f, 2 * n, d, x - 1, m, e);
    } else if n >= d * high {
        if k == 0 {
            lemma_scaled_up(f, n, 2 * d, x + 1);
        } else {
            power2::lemma_pow2_unfold(k);
            let half = power2::pow2((k - 1) as nat);
            assert(d * m * p == (2 * d) * m * half) by (nonlinear_arith)
                requires
                    p == 2 * half,
            ;
            assert((e - (x + 1)) as nat == (k - 1) as nat);
            lemma_at_least(f, n, 2 * d, x + 1, m, e);
        }
    } else if k > 0 && m >= low {
        power2::lemma_pow2_unfold(k);
        let half = power2::pow2((k - 1) as nat);
        power2::lemma_pow2_pos((k - 1) as nat);
        assert(d * m * p >= d * high) by (nonlinear_arith)
            requires
                m >= low,
                high == 2 * low,
                p == 2 * half,
                half >= 1,
                d > 0,
        ;
    } else if x < f.least {
        let wide = d * p;
        assert(wide > 0) by (nonlinear_arith)
            requires
                wide == d * p,
                d > 0,
                p > 0,
        ;
        assert(d * m * p == wide * m) by (nonlinear_arith)
            requires
                wide == d * p,
        ;
        lemma_half_even_at_least(n, wide, m);
    } else {
        assert(k == 0);
        assert(d * m * p == d * m) by (nonlinear_arith)
            requires
                p == 1,
        ;
        lemma_half_even_at_least(n, d, m);
    }
}

/// `n / d * 2^x` and `m * 2^e` differ by at most half a unit of the last place.
pub open spec fn within_half_a_unit(n: nat, d: nat, x: int, m: nat, e: int) -> bool {
    if e >= x {
        let wide = d * power2::pow2((e - x) as nat);
        -(wide as int) <= 2 * (m * wide - n) <= wide
    } else {
        let long = n * power2::pow2((x - e) as nat);
        -(d as int) <= 2 * (m * d - long) <= d
    }
}

/// Rounding is off by at most half a unit of the last place.
pub proof fn rounding_is_within_half_a_unit(f: Format, n: nat, d: nat, x: int)
    requires
        f.valid(),
        n > 0,
        d > 0,
    ensures
        within_half_a_unit(
            n,
            d,
            x,
            rounding::scaled(f, n, d, x).0,
            rounding::scaled(f, n, d, x).1,
        ),
    decreases
            (if n < d * f.low() {
                1int
            } else {
                0
            }),
            (if n < d * f.low() {
                d * f.low() - n
            } else {
                n - d
            }),
{
    lemma_steps(f, n, d);
    power2::lemma2_to64();
    let (m, e) = rounding::scaled(f, n, d, x);
    if n < d * f.low() {
        rounding_is_within_half_a_unit(f, 2 * n, d, x - 1);
        if e >= x {
            let k = (e - x) as nat;
            power2::lemma_pow2_unfold(k + 1);
            let wide = d * power2::pow2(k);
            let wider = d * power2::pow2(k + 1);
            assert((e - (x - 1)) as nat == k + 1);
            assert(wider == 2 * wide && m * wider == 2 * (m * wide)) by (nonlinear_arith)
                requires
                    wide == d * power2::pow2(k),
                    wider == d * power2::pow2(k + 1),
                    power2::pow2(k + 1) == 2 * power2::pow2(k),
            ;
        } else if e == x - 1 {
            assert(d * 1 == d);
            assert(n * 2 == 2 * n);
        } else {
            let k = (x - e) as nat;
            power2::lemma_pow2_unfold(k);
            assert((x - 1 - e) as nat == (k - 1) as nat);
            assert(n * power2::pow2(k) == (2 * n) * power2::pow2((k - 1) as nat))
                by (nonlinear_arith)
                requires
                    power2::pow2(k) == 2 * power2::pow2((k - 1) as nat),
            ;
        }
    } else if n >= d * f.high() {
        rounding_is_within_half_a_unit(f, n, 2 * d, x + 1);
        if e >= x + 1 {
            let k = (e - x) as nat;
            power2::lemma_pow2_unfold(k);
            assert((e - (x + 1)) as nat == (k - 1) as nat);
            assert(d * power2::pow2(k) == (2 * d) * power2::pow2((k - 1) as nat))
                by (nonlinear_arith)
                requires
                    power2::pow2(k) == 2 * power2::pow2((k - 1) as nat),
            ;
        } else {
            let k = (x - e) as nat;
            power2::lemma_pow2_unfold(k + 1);
            assert((x + 1 - e) as nat == k + 1);
            assert(m * (2 * d) == 2 * (m * d)) by (nonlinear_arith);
            assert(n * power2::pow2(k + 1) == 2 * (n * power2::pow2(k))) by (nonlinear_arith)
                requires
                    power2::pow2(k + 1) == 2 * power2::pow2(k),
            ;
            if e == x {
                assert(d * power2::pow2(0) == d);
                assert(n * power2::pow2(0) == n);
            }
        }
    } else if x < f.least {
        let k = (f.least - x) as nat;
        power2::lemma_pow2_pos(k);
        let wide = d * power2::pow2(k);
        assert(wide > 0) by (nonlinear_arith)
            requires
                wide == d * power2::pow2(k),
                d > 0,
                power2::pow2(k) > 0,
        ;
        lemma_half_even_error(n, wide);
    } else {
        assert(d * power2::pow2(0) == d);
        lemma_half_even_error(n, d);
    }
}

} // verus!

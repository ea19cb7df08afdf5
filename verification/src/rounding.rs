//! Binary floating point arithmetic: every result is the exact one, rounded
//! once to the nearest number of the format, ties to the even mantissa.
//!
//! A finite number is `mantissa * 2^exponent`. Its mantissa has the format's
//! full precision, unless its exponent is the least the format has.

use vstd::arithmetic::power2;
use vstd::prelude::*;

verus! {

/// A binary format: how many bits a mantissa has, and the least and the
/// greatest exponent of a number.
#[derive(Clone, Copy, PartialEq, Eq, Structural, Debug)]
pub struct Format {
    pub precision: u32,
    pub least: i32,
    pub greatest: i32,
}

/// A number of some format.
#[derive(Clone, Copy, PartialEq, Eq, Structural, Debug)]
pub enum Number {
    Nan,
    Infinite { negative: bool },
    Finite { negative: bool, mantissa: u64, exponent: i32 },
}

impl Format {
    /// Double precision.
    pub open spec fn is_double(self) -> bool {
        self.precision == 53 && self.least == -1074 && self.greatest == 971
    }

    /// Single precision.
    pub open spec fn is_single(self) -> bool {
        self.precision == 24 && self.least == -149 && self.greatest == 104
    }

    /// One of the two formats.
    pub open spec fn valid(self) -> bool {
        self.is_double() || self.is_single()
    }

    /// One past the greatest mantissa.
    pub open spec fn high(self) -> nat {
        power2::pow2(self.precision as nat)
    }

    /// The least mantissa of full precision.
    pub open spec fn low(self) -> nat {
        power2::pow2((self.precision - 1) as nat)
    }

    pub fn double() -> (r: Format)
        ensures
            r.is_double(),
            r.valid(),
    {
        Format { precision: 53, least: -1074, greatest: 971 }
    }

    pub fn single() -> (r: Format)
        ensures
            r.is_single(),
            r.valid(),
    {
        Format { precision: 24, least: -149, greatest: 104 }
    }

    /// `2^precision` is twice `2^(precision - 1)`, and both are what they are.
    pub proof fn lemma_bounds(self)
        requires
            self.valid(),
        ensures
            self.high() == 2 * self.low(),
            self.is_double() ==> self.low() == 0x10_0000_0000_0000,
            self.is_single() ==> self.low() == 0x80_0000,
            0x80_0000 <= self.low() <= 0x10_0000_0000_0000,
    {
        power2::lemma_pow2_unfold(self.precision as nat);
        power2::lemma2_to64();
        power2::lemma2_to64_rest();
    }
}

impl Number {
    /// A number the format has.
    pub open spec fn fits(self, f: Format) -> bool {
        match self {
            Number::Finite { negative, mantissa, exponent } => {
                &&& mantissa < f.high()
                &&& f.least <= exponent <= f.greatest
                &&& mantissa < f.low() ==> exponent == f.least
            },
            _ => true,
        }
    }

    pub open spec fn zero(f: Format, negative: bool) -> Number {
        Number::Finite { negative, mantissa: 0, exponent: f.least }
    }

    /// The sign.
    pub open spec fn negative(self) -> bool {
        match self {
            Number::Nan => false,
            Number::Infinite { negative } => negative,
            Number::Finite { negative, mantissa, exponent } => negative,
        }
    }
}

/// The whole number nearest to `n / d`, a tie going to the even one.
pub open spec fn half_even(n: nat, d: nat) -> nat {
    let q = n / d;
    let twice = 2 * (n % d);
    if twice < d {
        q
    } else if twice > d {
        q + 1
    } else if q % 2 == 0 {
        q
    } else {
        q + 1
    }
}

/// The mantissa and exponent of `n / d * 2^x`, where the quotient has the
/// precision of the format: rounded at the unit, or at the least exponent
/// where that is greater.
pub open spec fn settled(f: Format, n: nat, d: nat, x: int) -> (nat, int) {
    if x < f.least {
        (half_even(n, d * power2::pow2((f.least - x) as nat)), f.least as int)
    } else {
        (half_even(n, d), x)
    }
}

/// The mantissa and exponent of `n / d * 2^x`, for any positive quotient: it is
/// doubled or halved until it has the precision of the format.
pub open spec fn scaled(f: Format, n: nat, d: nat, x: int) -> (nat, int)
    decreases
            (if n < d * f.low() {
                1int
            } else {
                0
            }),
            (if n < d * f.low() {
                d * f.low() - n
            } else {
                n - d
            }),
    when n > 0 && d > 0 && f.valid()
    via scaled_decreases
{
    if n < d * f.low() {
        scaled(f, 2 * n, d, x - 1)
    } else if n >= d * f.high() {
        scaled(f, n, 2 * d, x + 1)
    } else {
        settled(f, n, d, x)
    }
}

#[via_fn]
proof fn scaled_decreases(f: Format, n: nat, d: nat, x: int) {
    f.lemma_bounds();
    let low = f.low();
    let high = f.high();
    assert(2 * d * low == d * high) by (nonlinear_arith)
        requires
            high == 2 * low,
    ;
    assert((2 * d) * high == 2 * (d * high)) by (nonlinear_arith);
    assert(d * high >= 1) by (nonlinear_arith)
        requires
            d > 0,
            high >= 1,
    ;
    assert((2 * d) * low == 2 * (d * low)) by (nonlinear_arith);
    assert(d * high >= 2 * d) by (nonlinear_arith)
        requires
            high >= 2,
    ;
}

/// A mantissa and exponent as a number: a mantissa that rounding carried past
/// the precision moves up one exponent, and past the greatest exponent lies
/// infinity.
pub open spec fn packed(f: Format, negative: bool, m: nat, x: int) -> Number {
    if m == 0 {
        Number::zero(f, negative)
    } else if m >= f.high() {
        if x + 1 > f.greatest {
            Number::Infinite { negative }
        } else {
            Number::Finite { negative, mantissa: f.low() as u64, exponent: (x + 1) as i32 }
        }
    } else if x > f.greatest {
        Number::Infinite { negative }
    } else {
        Number::Finite { negative, mantissa: m as u64, exponent: x as i32 }
    }
}

/// The number nearest to `n / d * 2^x` with this sign.
pub open spec fn nearest(f: Format, negative: bool, n: nat, d: nat, x: int) -> Number {
    if n == 0 {
        Number::zero(f, negative)
    } else {
        let (m, e) = scaled(f, n, d, x);
        packed(f, negative, m, e)
    }
}

/// A power of two.
fn power_of_two(k: u32) -> (r: u128)
    requires
        k <= 120,
    ensures
        r == power2::pow2(k as nat),
        r > 0,
{
    let mut r: u128 = 1;
    let mut i: u32 = 0;
    proof {
        power2::lemma2_to64();
    }
    while i < k
        invariant
            i <= k <= 120,
            r == power2::pow2(i as nat),
            r > 0,
        decreases k - i,
    {
        proof {
            power2::lemma_pow2_unfold((i + 1) as nat);
            lemma_pow2_120((i + 1) as nat);
        }
        r = r * 2;
        i = i + 1;
    }
    r
}

proof fn lemma_pow2_120(k: nat)
    requires
        k <= 120,
    ensures
        power2::pow2(k) <= 0x100_0000_0000_0000_0000_0000_0000_0000,
{
    lemma_pow2_value_120();
    if k < 120 {
        power2::lemma_pow2_strictly_increases(k, 120);
    }
}

proof fn lemma_pow2_value_120()
    ensures
        power2::pow2(120) == 0x100_0000_0000_0000_0000_0000_0000_0000,
        power2::pow2(56) == 0x100_0000_0000_0000,
        power2::pow2(64) == 0x1_0000_0000_0000_0000,
{
    power2::lemma2_to64();
    power2::lemma2_to64_rest();
    power2::lemma_pow2_adds(56, 64);
    assert(0x100_0000_0000_0000 * 0x1_0000_0000_0000_0000
        == 0x100_0000_0000_0000_0000_0000_0000_0000);
}

fn round_half_even(n: u128, d: u128) -> (r: u128)
    requires
        0 < d < 0x1000_0000_0000_0000_0000_0000_0000_0000,
        n < 0x1000_0000_0000_0000_0000_0000_0000_0000,
    ensures
        r == half_even(n as nat, d as nat),
        r <= n / d + 1,
{
    let q: u128 = n / d;
    let rest: u128 = n % d;
    if 2 * rest < d {
        q
    } else if 2 * rest > d {
        q + 1
    } else if q % 2 == 0 {
        q
    } else {
        q + 1
    }
}

/// A quotient below one quarter rounds to zero.
proof fn lemma_half_even_small(n: nat, d: nat)
    requires
        d > 0,
        2 * n < d,
    ensures
        half_even(n, d) == 0,
{
    assert(n / d == 0 && n % d == n) by (nonlinear_arith)
        requires
            n < d,
    ;
}

/// The number nearest to `n / d * 2^x`.
pub fn round_exact(f: Format, negative: bool, num: u128, den: u128, exponent: i32) -> (r: Number)
    requires
        f.valid(),
        0 < den < 0x1_0000_0000_0000_0000,
        num < 0x40_0000_0000_0000_0000_0000_0000_0000,
        -10000 <= exponent <= 10000,
    ensures
        r == nearest(f, negative, num as nat, den as nat, exponent as int),
        r.fits(f),
{
    proof {
        f.lemma_bounds();
    }
    if num == 0 {
        return Number::Finite { negative, mantissa: 0, exponent: f.least };
    }
    let low: u128 = power_of_two(f.precision - 1);
    let high: u128 = power_of_two(f.precision);
    let ghost target = scaled(f, num as nat, den as nat, exponent as int);
    let mut n: u128 = num;
    let mut d: u128 = den;
    let mut x: i32 = exponent;
    assert(den * low < 0x10_0000_0000_0000_0000_0000_0000_0000) by (nonlinear_arith)
        requires
            den < 0x1_0000_0000_0000_0000,
            low <= 0x10_0000_0000_0000,
    ;
    let mut steps: u32 = 0;
    proof {
        power2::lemma2_to64();
    }
    while n < d * low
        invariant
            f.valid(),
            low == f.low(),
            high == f.high(),
            high == 2 * low,
            0x80_0000 <= low <= 0x10_0000_0000_0000,
            d == den,
            0 < den,
            den * low < 0x10_0000_0000_0000_0000_0000_0000_0000,
            0 < n < 0x40_0000_0000_0000_0000_0000_0000_0000,
            target == scaled(f, n as nat, d as nat, x as int),
            x == exponent - steps,
            -10000 <= exponent <= 10000,
            steps <= 126,
            n >= power2::pow2(steps as nat),
        decreases 130 - steps,
    {
        proof {
            power2::lemma_pow2_unfold((steps + 1) as nat);
            if steps >= 120 {
                lemma_pow2_value_120();
                if steps > 120 {
                    power2::lemma_pow2_strictly_increases(120, steps as nat);
                }
            }
            assert(d as nat * f.low() == d * low);
        }
        n = n * 2;
        x = x - 1;
        steps = steps + 1;
    }
    let ghost start = x;
    let mut ups: u32 = 0;
    while n / high >= d
        invariant
            f.valid(),
            low == f.low(),
            high == f.high(),
            high == 2 * low,
            0x80_0000 <= low <= 0x10_0000_0000_0000,
            0 < d,
            d >= power2::pow2(ups as nat),
            0 < n < 0x40_0000_0000_0000_0000_0000_0000_0000,
            n >= d * low,
            target == scaled(f, n as nat, d as nat, x as int),
            x == start + ups,
            -10200 <= start <= 10000,
            ups <= 130,
        decreases n - d,
    {
        proof {
            assert(n >= d * high) by (nonlinear_arith)
                requires
                    n / high >= d,
                    high > 0,
            ;
            power2::lemma_pow2_unfold((ups + 1) as nat);
            if ups >= 120 {
                lemma_pow2_value_120();
                if ups > 120 {
                    power2::lemma_pow2_strictly_increases(120, ups as nat);
                }
                assert(d * high >= d) by (nonlinear_arith)
                    requires
                        high >= 1,
                ;
            }
            assert(2 * d * low == d * high) by (nonlinear_arith)
                requires
                    high == 2 * low,
            ;
            assert(d * high >= 2 * d) by (nonlinear_arith)
                requires
                    high >= 2,
            ;
            assert(d as nat * f.high() == d * high);
            assert(d as nat * f.low() == d * low);
            assert(n >= d * low);
        }
        d = d * 2;
        x = x + 1;
        ups = ups + 1;
    }
    assert(n < d * high) by (nonlinear_arith)
        requires
            n / high < d,
            high > 0,
    ;
    assert(d as nat * f.high() == d * high);
    assert(d as nat * f.low() == d * low);
    assert(target == settled(f, n as nat, d as nat, x as int));
    assert(d < 0x1_0000_0000_0000_0000_0000_0000) by (nonlinear_arith)
        requires
            d * low <= n,
            n < 0x40_0000_0000_0000_0000_0000_0000_0000,
            low >= 0x80_0000,
    ;
    let mut m: u128 = 0;
    let mut e: i32 = x;
    if x < f.least {
        let k: u32 = (f.least - x) as u32;
        e = f.least;
        if k <= f.precision + 1 {
            let scale: u128 = power_of_two(k);
            proof {
                lemma_scale_bound(f, n as nat, d as nat, k as nat);
            }
            m = round_half_even(n, d * scale);
            proof {
                lemma_settled_bound(f, n as nat, d as nat, d as nat * power2::pow2(k as nat));
            }
        } else {
            proof {
                lemma_far_below(f, n as nat, d as nat, k as nat);
            }
        }
    } else {
        m = round_half_even(n, d);
        proof {
            lemma_settled_bound(f, n as nat, d as nat, d as nat);
            lemma_settled_low(f, n as nat, d as nat);
        }
    }
    assert(target == (m as nat, e as int));
    if m == 0 {
        return Number::Finite { negative, mantissa: 0, exponent: f.least };
    }
    if m >= high {
        if e + 1 > f.greatest {
            Number::Infinite { negative }
        } else {
            Number::Finite { negative, mantissa: low as u64, exponent: e + 1 }
        }
    } else if e > f.greatest {
        Number::Infinite { negative }
    } else {
        Number::Finite { negative, mantissa: m as u64, exponent: e }
    }
}

/// Rounding a quotient below `2^precision` stays at or below it.
pub proof fn lemma_settled_bound(f: Format, n: nat, d: nat, wide: nat)
    requires
        f.valid(),
        0 < d <= wide,
        n < d * f.high(),
    ensures
        half_even(n, wide) <= f.high(),
{
    let high = f.high();
    assert(n / wide < high) by (nonlinear_arith)
        requires
            n < d * high,
            0 < d <= wide,
    ;
}

/// A quotient of full precision keeps it.
pub proof fn lemma_settled_low(f: Format, n: nat, d: nat)
    requires
        f.valid(),
        0 < d,
        n >= d * f.low(),
    ensures
        half_even(n, d) >= f.low(),
{
    let low = f.low();
    assert(n / d >= low) by (nonlinear_arith)
        requires
            n >= d * low,
            0 < d,
    ;
}

proof fn lemma_scale_bound(f: Format, n: nat, d: nat, k: nat)
    requires
        f.valid(),
        0 < d,
        k <= f.precision + 1,
        n >= d * f.low(),
        n < 0x40_0000_0000_0000_0000_0000_0000_0000,
    ensures
        0 < power2::pow2(k),
        d <= d * power2::pow2(k) < 0x1000_0000_0000_0000_0000_0000_0000_0000,
{
    f.lemma_bounds();
    let low = f.low();
    power2::lemma_pow2_pos(k);
    let top = power2::pow2((f.precision + 1) as nat);
    power2::lemma_pow2_unfold((f.precision + 1) as nat);
    assert(top == 4 * low);
    if k < f.precision + 1 {
        power2::lemma_pow2_strictly_increases(k, (f.precision + 1) as nat);
    }
    let scale = power2::pow2(k);
    assert(d * scale <= 4 * (d * low)) by (nonlinear_arith)
        requires
            scale <= 4 * low,
    ;
    assert(d <= d * scale) by (nonlinear_arith)
        requires
            scale >= 1,
    ;
}

proof fn lemma_far_below(f: Format, n: nat, d: nat, k: nat)
    requires
        f.valid(),
        0 < d,
        k > f.precision + 1,
        n < d * f.high(),
    ensures
        half_even(n, d * power2::pow2(k)) == 0,
{
    f.lemma_bounds();
    let high = f.high();
    power2::lemma_pow2_unfold((f.precision + 1) as nat);
    power2::lemma_pow2_strictly_increases((f.precision + 1) as nat, k);
    let scale = power2::pow2(k);
    assert(2 * n < d * scale) by (nonlinear_arith)
        requires
            n < d * high,
            scale > 2 * high,
    ;
    lemma_half_even_small(n, d * scale);
}

proof fn lemma_half_even_common(n: nat, d: nat)
    requires
        d > 0,
    ensures
        half_even(2 * n, 2 * d) == half_even(n, d),
{
    let q = n / d;
    let r = n % d;
    assert(n == d * q + r && 0 <= r < d) by (nonlinear_arith)
        requires
            d > 0,
            q == n / d,
            r == n % d,
    ;
    assert(2 * n == (2 * d) * q + 2 * r) by (nonlinear_arith)
        requires
            n == d * q + r,
    ;
    vstd::arithmetic::div_mod::lemma_fundamental_div_mod_converse(
        (2 * n) as int,
        (2 * d) as int,
        q as int,
        (2 * r) as int,
    );
}

/// A common factor of two makes no difference.
proof fn lemma_scaled_common(f: Format, n: nat, d: nat, x: int)
    requires
        f.valid(),
        n > 0,
        d > 0,
    ensures
        scaled(f, 2 * n, 2 * d, x) == scaled(f, n, d, x),
    decreases
            (if n < d * f.low() {
                1int
            } else {
                0
            }),
            (if n < d * f.low() {
                d * f.low() - n
            } else {
                n - d
            }),
{
    f.lemma_bounds();
    let low = f.low();
    let high = f.high();
    assert((2 * d) * low == 2 * (d * low)) by (nonlinear_arith);
    assert((2 * d) * high == 2 * (d * high)) by (nonlinear_arith);
    assert(2 * d * low == d * high) by (nonlinear_arith)
        requires
            high == 2 * low,
    ;
    assert(d * high >= 2 * d) by (nonlinear_arith)
        requires
            high >= 2,
    ;
    if n < d * low {
        lemma_scaled_common(f, 2 * n, d, x - 1);
    } else if n >= d * high {
        lemma_scaled_common(f, n, 2 * d, x + 1);
    } else {
        lemma_half_even_common(n, d);
        if x < f.least {
            let scale = power2::pow2((f.least - x) as nat);
            power2::lemma_pow2_pos((f.least - x) as nat);
            assert((2 * d) * scale == 2 * (d * scale)) by (nonlinear_arith);
            assert(d * scale > 0) by (nonlinear_arith)
                requires
                    d > 0,
                    scale > 0,
            ;
            lemma_half_even_common(n, d * scale);
        }
    }
}

/// Twice the quotient at half the unit is the same number.
proof fn lemma_scaled_double(f: Format, n: nat, d: nat, x: int)
    requires
        f.valid(),
        n > 0,
        d > 0,
    ensures
        scaled(f, 2 * n, d, x - 1) == scaled(f, n, d, x),
        scaled(f, n, 2 * d, x + 1) == scaled(f, n, d, x),
{
    f.lemma_bounds();
    let low = f.low();
    let high = f.high();
    assert(2 * d * low == d * high) by (nonlinear_arith)
        requires
            high == 2 * low,
    ;
    assert((2 * d) * low == 2 * (d * low)) by (nonlinear_arith);
    lemma_scaled_common(f, n, d, x);
    if n >= d * low {
        assert(2 * n >= d * high);
        assert(scaled(f, 2 * n, d, x - 1) == scaled(f, 2 * n, 2 * d, x));
    }
    if n < d * high {
        assert(n < (2 * d) * low);
        assert(scaled(f, n, 2 * d, x + 1) == scaled(f, 2 * n, 2 * d, x));
    }
}

/// Powers of two move freely between the quotient and the unit.
pub proof fn lemma_scaled_shift(f: Format, n: nat, d: nat, x: int, k: nat)
    requires
        f.valid(),
        n > 0,
        d > 0,
    ensures
        scaled(f, n * power2::pow2(k), d, x - k) == scaled(f, n, d, x),
        scaled(f, n, d * power2::pow2(k), x + k) == scaled(f, n, d, x),
        n * power2::pow2(k) > 0,
        d * power2::pow2(k) > 0,
    decreases k,
{
    power2::lemma2_to64();
    if k > 0 {
        let j = (k - 1) as nat;
        lemma_scaled_shift(f, n, d, x, j);
        power2::lemma_pow2_unfold(k);
        let half = power2::pow2(j);
        assert(n * power2::pow2(k) == 2 * (n * half)) by (nonlinear_arith)
            requires
                power2::pow2(k) == 2 * half,
        ;
        assert(d * power2::pow2(k) == 2 * (d * half)) by (nonlinear_arith)
            requires
                power2::pow2(k) == 2 * half,
        ;
        lemma_scaled_double(f, n * half, d, x - j);
        lemma_scaled_double(f, n, d * half, x + j);
    }
}

/// A number below full precision at the least exponent is exact.
proof fn lemma_scaled_small(f: Format, m: nat, k: nat)
    requires
        f.valid(),
        m > 0,
        m * power2::pow2(k) < f.high(),
    ensures
        scaled(f, m * power2::pow2(k), 1, f.least - k) == (m, f.least as int),
    decreases f.high() - m * power2::pow2(k),
{
    f.lemma_bounds();
    power2::lemma_pow2_pos(k);
    let scale = power2::pow2(k);
    let n = m * scale;
    assert(n >= 1) by (nonlinear_arith)
        requires
            m >= 1,
            scale >= 1,
            n == m * scale,
    ;
    if n < f.low() {
        power2::lemma_pow2_unfold(k + 1);
        assert(m * power2::pow2(k + 1) == 2 * n) by (nonlinear_arith)
            requires
                power2::pow2(k + 1) == 2 * scale,
                n == m * scale,
        ;
        lemma_scaled_small(f, m, k + 1);
        assert(1 * f.low() == f.low());
    } else {
        assert(1 * f.low() == f.low());
        assert(1 * f.high() == f.high());
        assert(n / scale == m && n % scale == 0) by (nonlinear_arith)
            requires
                n == m * scale,
                scale > 0,
        ;
        power2::lemma2_to64();
        assert(1 * scale == scale);
        assert(half_even(n, scale) == m);
        if k == 0 {
            assert(half_even(n, 1) == m);
        }
    }
}

/// A number of the format is its own nearest number, however it is scaled.
pub proof fn lemma_exact(f: Format, a: Number, k: nat)
    requires
        f.valid(),
        a.fits(f),
        a is Finite,
        a->mantissa > 0,
    ensures
        nearest(f, a.negative(), a->mantissa as nat * power2::pow2(k), 1, a->exponent - k) == a,
        a->mantissa as nat * power2::pow2(k) > 0,
{
    let m = a->mantissa as nat;
    let e = a->exponent as int;
    f.lemma_bounds();
    lemma_scaled_shift(f, m, 1, e, k);
    if m < f.low() {
        power2::lemma2_to64();
        assert(m * power2::pow2(0) == m);
        lemma_scaled_small(f, m, 0);
    } else {
        assert(1 * f.low() == f.low());
        assert(1 * f.high() == f.high());
        assert(m / 1 == m && m % 1 == 0);
        assert(half_even(m, 1) == m);
        assert(scaled(f, m, 1, e) == settled(f, m, 1, e));
    }
}

/// What is added beside a number of full precision, far below its last bit,
/// makes no difference.
pub proof fn lemma_far(f: Format, a: Number, k: nat, r: int)
    requires
        f.valid(),
        a.fits(f),
        a is Finite,
        a->mantissa >= f.low(),
        k >= 2,
        -(power2::pow2((k - 2) as nat) as int) < r < power2::pow2((k - 2) as nat),
    ensures
        a->mantissa as nat * power2::pow2(k) + r > 0,
        nearest(
            f,
            a.negative(),
            (a->mantissa as nat * power2::pow2(k) + r) as nat,
            1,
            a->exponent - k,
        ) == a,
{
    f.lemma_bounds();
    let m = a->mantissa as nat;
    let e = a->exponent as int;
    let low = f.low();
    let high = f.high();
    let quarter = power2::pow2((k - 2) as nat);
    let half = power2::pow2((k - 1) as nat);
    let unit = power2::pow2(k);
    power2::lemma_pow2_unfold(k);
    power2::lemma_pow2_unfold((k - 1) as nat);
    power2::lemma_pow2_pos((k - 2) as nat);
    assert(unit == 2 * half && half == 2 * quarter);
    let n = m * unit + r;
    assert(n > 0 && m * unit >= low * unit && (m + 1) * unit == m * unit + unit && m * unit
        + unit <= high * unit) by (nonlinear_arith)
        requires
            m >= low,
            low >= 1,
            m < high,
            unit > 0,
            n == m * unit + r,
            r > -unit,
    ;
    let size = n as nat;
    lemma_scaled_shift(f, size, 1, e - k, k);
    assert(1 * unit == unit);
    assert(scaled(f, size, 1, e - k) == scaled(f, size, unit, e));
    assert(unit * low == low * unit && unit * high == high * unit) by (nonlinear_arith);
    if n >= low * unit {
        lemma_near(m, unit, r);
        assert(scaled(f, size, unit, e) == settled(f, size, unit, e));
    } else {
        assert(m == low) by (nonlinear_arith)
            requires
                m >= low,
                m * unit + r < low * unit,
                r > -unit,
                unit > 0,
        ;
        assert(low * unit == (2 * low) * half) by (nonlinear_arith)
            requires
                unit == 2 * half,
        ;
        assert((2 * low) * half == high * half);
        assert(half * low == low * half && half * high == high * half) by (nonlinear_arith);
        assert(low * half >= half) by (nonlinear_arith)
            requires
                low >= 1,
        ;
        assert(high * half == 2 * (low * half)) by (nonlinear_arith)
            requires
                high == 2 * low,
        ;
        assert(size >= half * low);
        assert(size < half * high);
        lemma_scaled_double(f, size, half, e - 1);
        assert(2 * half == unit);
        assert(scaled(f, size, unit, e) == scaled(f, size, half, e - 1));
        assert(scaled(f, size, half, e - 1) == settled(f, size, half, e - 1));
        if e - 1 < f.least {
            assert(f.least - (e - 1) == 1);
            power2::lemma2_to64();
            let two = power2::pow2(1);
            assert(two == 2);
            assert(half * two == 2 * half) by (nonlinear_arith)
                requires
                    two == 2,
            ;
            lemma_near(m, unit, r);
        } else {
            lemma_near(2 * low, half, r);
        }
    }
}

/// A quotient within a quarter of a whole number rounds to it.
proof fn lemma_near(q: nat, d: nat, r: int)
    requires
        d > 0,
        q > 0,
        -(d as int) < 2 * r < d,
    ensures
        q * d + r >= 0,
        half_even((q * d + r) as nat, d) == q,
{
    assert(q * d >= d) by (nonlinear_arith)
        requires
            q >= 1,
    ;
    if r >= 0 {
        vstd::arithmetic::div_mod::lemma_fundamental_div_mod_converse(
            q * d + r,
            d as int,
            q as int,
            r,
        );
    } else {
        assert(q * d + r == d * (q - 1) + (d + r)) by (nonlinear_arith);
        vstd::arithmetic::div_mod::lemma_fundamental_div_mod_converse(
            q * d + r,
            d as int,
            q - 1,
            d + r,
        );
    }
}

/// The product.
pub open spec fn product(f: Format, a: Number, b: Number) -> Number {
    let negative = a.negative() != b.negative();
    match (a, b) {
        (Number::Nan, _) => Number::Nan,
        (_, Number::Nan) => Number::Nan,
        (Number::Infinite { .. }, Number::Infinite { .. }) => Number::Infinite { negative },
        (Number::Infinite { .. }, Number::Finite { mantissa, .. }) => if mantissa == 0 {
            Number::Nan
        } else {
            Number::Infinite { negative }
        },
        (Number::Finite { mantissa, .. }, Number::Infinite { .. }) => if mantissa == 0 {
            Number::Nan
        } else {
            Number::Infinite { negative }
        },
        (
            Number::Finite { mantissa: m, exponent: e, .. },
            Number::Finite { mantissa: n, exponent: x, .. },
        ) => nearest(f, negative, (m * n) as nat, 1, e + x),
    }
}

/// The quotient.
pub open spec fn quotient(f: Format, a: Number, b: Number) -> Number {
    let negative = a.negative() != b.negative();
    match (a, b) {
        (Number::Nan, _) => Number::Nan,
        (_, Number::Nan) => Number::Nan,
        (Number::Infinite { .. }, Number::Infinite { .. }) => Number::Nan,
        (Number::Infinite { .. }, Number::Finite { .. }) => Number::Infinite { negative },
        (Number::Finite { .. }, Number::Infinite { .. }) => Number::zero(f, negative),
        (
            Number::Finite { mantissa: m, exponent: e, .. },
            Number::Finite { mantissa: n, exponent: x, .. },
        ) => if n == 0 {
            if m == 0 {
                Number::Nan
            } else {
                Number::Infinite { negative }
            }
        } else {
            nearest(f, negative, m as nat, n as nat, e - x)
        },
    }
}

/// A mantissa in units of `2^base`, with its sign.
pub open spec fn in_units(negative: bool, m: nat, e: int, base: int) -> int {
    let size = m * power2::pow2((e - base) as nat);
    if negative {
        -(size as int)
    } else {
        size as int
    }
}

/// The number nearest to `s * 2^base`; nothing is negative nothing only where
/// both parts were.
pub open spec fn total(f: Format, s: int, base: int, both_negative: bool) -> Number {
    if s == 0 {
        Number::zero(f, both_negative)
    } else if s < 0 {
        nearest(f, true, (-s) as nat, 1, base)
    } else {
        nearest(f, false, s as nat, 1, base)
    }
}

/// The sum.
pub open spec fn sum(f: Format, a: Number, b: Number) -> Number {
    match (a, b) {
        (Number::Nan, _) => Number::Nan,
        (_, Number::Nan) => Number::Nan,
        (Number::Infinite { negative: s }, Number::Infinite { negative: t }) => if s == t {
            a
        } else {
            Number::Nan
        },
        (Number::Infinite { .. }, Number::Finite { .. }) => a,
        (Number::Finite { .. }, Number::Infinite { .. }) => b,
        (
            Number::Finite { negative: s, mantissa: m, exponent: e },
            Number::Finite { negative: t, mantissa: n, exponent: x },
        ) => {
            let base = if e < x {
                e as int
            } else {
                x as int
            };
            total(
                f,
                in_units(s, m as nat, e as int, base) + in_units(t, n as nat, x as int, base),
                base,
                s && t,
            )
        },
    }
}

/// The other sign.
pub open spec fn negated(a: Number) -> Number {
    match a {
        Number::Nan => Number::Nan,
        Number::Infinite { negative } => Number::Infinite { negative: !negative },
        Number::Finite { negative, mantissa, exponent } => Number::Finite {
            negative: !negative,
            mantissa,
            exponent,
        },
    }
}

/// The number of another format nearest to this one.
pub open spec fn converted(f: Format, a: Number) -> Number {
    match a {
        Number::Finite { negative, mantissa, exponent } => nearest(
            f,
            negative,
            mantissa as nat,
            1,
            exponent as int,
        ),
        _ => a,
    }
}

/// The nearest whole number, a tie going away from zero.
pub open spec fn whole(f: Format, a: Number) -> Number {
    match a {
        Number::Finite { negative, mantissa, exponent } => if exponent >= 0 {
            a
        } else {
            let unit = power2::pow2((-exponent) as nat);
            nearest(f, negative, (2 * mantissa as nat + unit) / (2 * unit), 1, 0)
        },
        _ => a,
    }
}

/// The whole part of a size, at most `limit`; a negative one, or what is not a
/// number, is nothing.
pub open spec fn truncated(a: Number, limit: nat) -> nat {
    match a {
        Number::Nan => 0,
        Number::Infinite { negative } => if negative {
            0
        } else {
            limit
        },
        Number::Finite { negative, mantissa, exponent } => if negative {
            0
        } else {
            let size = if exponent >= 0 {
                mantissa as nat * power2::pow2(exponent as nat)
            } else {
                mantissa as nat / power2::pow2((-exponent) as nat)
            };
            if size > limit {
                limit
            } else {
                size
            }
        },
    }
}

pub fn multiply(f: Format, a: Number, b: Number) -> (r: Number)
    requires
        f.valid(),
        a.fits(f),
        b.fits(f),
    ensures
        r == product(f, a, b),
        r.fits(f),
{
    proof {
        f.lemma_bounds();
    }
    let s = is_negative(a);
    let t = is_negative(b);
    let negative = s != t;
    match (a, b) {
        (Number::Nan, _) => Number::Nan,
        (_, Number::Nan) => Number::Nan,
        (Number::Infinite { .. }, Number::Infinite { .. }) => Number::Infinite { negative },
        (Number::Infinite { .. }, Number::Finite { mantissa, .. }) => if mantissa == 0 {
            Number::Nan
        } else {
            Number::Infinite { negative }
        },
        (Number::Finite { mantissa, .. }, Number::Infinite { .. }) => if mantissa == 0 {
            Number::Nan
        } else {
            Number::Infinite { negative }
        },
        (
            Number::Finite { mantissa: m, exponent: e, .. },
            Number::Finite { mantissa: n, exponent: x, .. },
        ) => {
            assert(m * n < 0x400_0000_0000_0000_0000_0000_0000) by (nonlinear_arith)
                requires
                    m < 0x20_0000_0000_0000,
                    n < 0x20_0000_0000_0000,
            ;
            round_exact(f, negative, m as u128 * n as u128, 1, e + x)
        },
    }
}

fn is_negative(a: Number) -> (r: bool)
    ensures
        r == a.negative(),
{
    match a {
        Number::Nan => false,
        Number::Infinite { negative } => negative,
        Number::Finite { negative, .. } => negative,
    }
}

pub fn divide(f: Format, a: Number, b: Number) -> (r: Number)
    requires
        f.valid(),
        a.fits(f),
        b.fits(f),
    ensures
        r == quotient(f, a, b),
        r.fits(f),
{
    proof {
        f.lemma_bounds();
    }
    let s = is_negative(a);
    let t = is_negative(b);
    let negative = s != t;
    match (a, b) {
        (Number::Nan, _) => Number::Nan,
        (_, Number::Nan) => Number::Nan,
        (Number::Infinite { .. }, Number::Infinite { .. }) => Number::Nan,
        (Number::Infinite { .. }, Number::Finite { .. }) => Number::Infinite { negative },
        (Number::Finite { .. }, Number::Infinite { .. }) => Number::Finite {
            negative,
            mantissa: 0,
            exponent: f.least,
        },
        (
            Number::Finite { mantissa: m, exponent: e, .. },
            Number::Finite { mantissa: n, exponent: x, .. },
        ) => if n == 0 {
            if m == 0 {
                Number::Nan
            } else {
                Number::Infinite { negative }
            }
        } else {
            round_exact(f, negative, m as u128, n as u128, e - x)
        },
    }
}

/// The sum of two finite numbers, the first at or above the second's exponent.
fn add_ordered(
    f: Format,
    s: bool,
    m: u64,
    e: i32,
    t: bool,
    n: u64,
    x: i32,
) -> (r: Number)
    requires
        f.valid(),
        (Number::Finite { negative: s, mantissa: m, exponent: e }).fits(f),
        (Number::Finite { negative: t, mantissa: n, exponent: x }).fits(f),
        e >= x,
    ensures
        r == total(
            f,
            in_units(s, m as nat, e as int, x as int) + in_units(t, n as nat, x as int, x as int),
            x as int,
            s && t,
        ),
        r.fits(f),
{
    proof {
        f.lemma_bounds();
        power2::lemma2_to64();
        assert(n as nat * power2::pow2(0) == n);
    }
    let gap: u32 = (e - x) as u32;
    let ghost unit = power2::pow2(gap as nat);
    let ghost big = m as nat * unit;
    if m == 0 {
        assert(big == 0) by (nonlinear_arith)
            requires
                m == 0,
                big == m as nat * unit,
        ;
        if n == 0 {
            return Number::Finite { negative: s && t, mantissa: 0, exponent: f.least };
        }
        let b = Number::Finite { negative: t, mantissa: n, exponent: x };
        proof {
            lemma_exact(f, b, 0);
        }
        return b;
    }
    let a = Number::Finite { negative: s, mantissa: m, exponent: e };
    proof {
        lemma_exact(f, a, gap as nat);
        assert(big > 0);
    }
    if n == 0 {
        return a;
    }
    if gap > 60 {
        proof {
            power2::lemma2_to64_rest();
            if gap - 2 > 58 {
                power2::lemma_pow2_strictly_increases(58, (gap - 2) as nat);
            }
            if gap - 2 == 59 {
            }
            let small = if s == t {
                n as int
            } else {
                -(n as int)
            };
            assert(m >= f.low());
            lemma_far(f, a, gap as nat, small);
        }
        return a;
    }
    let scale: u128 = power_of_two(gap);
    proof {
        power2::lemma2_to64_rest();
        if gap < 60 {
            power2::lemma_pow2_strictly_increases(gap as nat, 60);
        }
        assert(m * scale < 0x2_0000_0000_0000_0000_0000_0000_0000) by (nonlinear_arith)
            requires
                m < 0x20_0000_0000_0000,
                scale <= 0x1000_0000_0000_0000,
        ;
    }
    let wide: u128 = m as u128 * scale;
    let small: u128 = n as u128;
    if s == t {
        round_exact(f, s, wide + small, 1, x)
    } else if wide == small {
        Number::Finite { negative: false, mantissa: 0, exponent: f.least }
    } else if wide > small {
        round_exact(f, s, wide - small, 1, x)
    } else {
        round_exact(f, t, small - wide, 1, x)
    }
}

pub fn add_up(f: Format, a: Number, b: Number) -> (r: Number)
    requires
        f.valid(),
        a.fits(f),
        b.fits(f),
    ensures
        r == sum(f, a, b),
        r.fits(f),
{
    match (a, b) {
        (Number::Nan, _) => Number::Nan,
        (_, Number::Nan) => Number::Nan,
        (Number::Infinite { negative: s }, Number::Infinite { negative: t }) => if s == t {
            a
        } else {
            Number::Nan
        },
        (Number::Infinite { .. }, Number::Finite { .. }) => a,
        (Number::Finite { .. }, Number::Infinite { .. }) => b,
        (
            Number::Finite { negative: s, mantissa: m, exponent: e },
            Number::Finite { negative: t, mantissa: n, exponent: x },
        ) => if e >= x {
            add_ordered(f, s, m, e, t, n, x)
        } else {
            add_ordered(f, t, n, x, s, m, e)
        },
    }
}

pub fn negate(a: Number) -> (r: Number)
    ensures
        r == negated(a),
        forall|f: Format| a.fits(f) ==> r.fits(f),
{
    match a {
        Number::Nan => Number::Nan,
        Number::Infinite { negative } => Number::Infinite { negative: !negative },
        Number::Finite { negative, mantissa, exponent } => Number::Finite {
            negative: !negative,
            mantissa,
            exponent,
        },
    }
}

pub fn convert(f: Format, from: Format, a: Number) -> (r: Number)
    requires
        f.valid(),
        from.valid(),
        a.fits(from),
    ensures
        r == converted(f, a),
        r.fits(f),
{
    match a {
        Number::Finite { negative, mantissa, exponent } => round_exact(
            f,
            negative,
            mantissa as u128,
            1,
            exponent,
        ),
        _ => a,
    }
}

pub fn round_whole(f: Format, a: Number) -> (r: Number)
    requires
        f.valid(),
        a.fits(f),
    ensures
        r == whole(f, a),
        r.fits(f),
{
    proof {
        f.lemma_bounds();
    }
    match a {
        Number::Finite { negative, mantissa, exponent } => {
            if exponent >= 0 {
                return a;
            }
            let k: u32 = (-exponent) as u32;
            let ghost unit = power2::pow2(k as nat);
            if k > 60 {
                proof {
                    power2::lemma2_to64_rest();
                    if k > 60 {
                        power2::lemma_pow2_strictly_increases(60, k as nat);
                    }
                    assert((2 * mantissa as nat + unit) / (2 * unit) == 0) by (nonlinear_arith)
                        requires
                            2 * mantissa < unit,
                    ;
                }
                return Number::Finite { negative, mantissa: 0, exponent: f.least };
            }
            let scale: u128 = power_of_two(k);
            proof {
                power2::lemma2_to64_rest();
                if k < 60 {
                    power2::lemma_pow2_strictly_increases(k as nat, 60);
                }
            }
            let q: u128 = (2 * mantissa as u128 + scale) / (2 * scale);
            round_exact(f, negative, q, 1, 0)
        },
        _ => a,
    }
}

/// The whole part of a size as a 32-bit number; what does not fit is the
/// largest there is.
pub fn truncate_u32(f: Format, a: Number) -> (r: u32)
    requires
        f.valid(),
        a.fits(f),
    ensures
        r == truncated(a, u32::MAX as nat),
{
    proof {
        f.lemma_bounds();
    }
    match a {
        Number::Nan => 0,
        Number::Infinite { negative } => if negative {
            0
        } else {
            u32::MAX
        },
        Number::Finite { negative, mantissa, exponent } => {
            if negative || mantissa == 0 {
                proof {
                    if mantissa == 0 && !negative {
                        if exponent >= 0 {
                            assert(0 * power2::pow2(exponent as nat) == 0) by (nonlinear_arith);
                        } else {
                            power2::lemma_pow2_pos((-exponent) as nat);
                            assert(0nat / power2::pow2((-exponent) as nat) == 0)
                                by (nonlinear_arith)
                                requires
                                    power2::pow2((-exponent) as nat) > 0,
                            ;
                        }
                    }
                }
                return 0;
            }
            if exponent >= 0 {
                if exponent > 40 {
                    proof {
                        power2::lemma2_to64_rest();
                        power2::lemma_pow2_strictly_increases(40, exponent as nat);
                        assert(mantissa as nat * power2::pow2(exponent as nat) >= power2::pow2(
                            exponent as nat,
                        )) by (nonlinear_arith)
                            requires
                                mantissa >= 1,
                        ;
                    }
                    return u32::MAX;
                }
                let scale: u128 = power_of_two(exponent as u32);
                proof {
                    power2::lemma2_to64_rest();
                    if exponent < 40 {
                        power2::lemma_pow2_strictly_increases(exponent as nat, 40);
                    }
                    assert(mantissa * scale < 0x2000_0000_0000_0000_0000_0000) by (nonlinear_arith)
                        requires
                            mantissa < 0x20_0000_0000_0000,
                            scale <= 0x100_0000_0000,
                    ;
                }
                let size: u128 = mantissa as u128 * scale;
                if size > u32::MAX as u128 {
                    u32::MAX
                } else {
                    size as u32
                }
            } else {
                let k: u32 = (-exponent) as u32;
                if k > 60 {
                    proof {
                        power2::lemma2_to64_rest();
                        power2::lemma_pow2_strictly_increases(60, k as nat);
                        let unit = power2::pow2(k as nat);
                        assert(mantissa as nat / unit == 0) by (nonlinear_arith)
                            requires
                                mantissa < unit,
                        ;
                    }
                    return 0;
                }
                let scale: u128 = power_of_two(k);
                let size: u128 = mantissa as u128 / scale;
                if size > u32::MAX as u128 {
                    u32::MAX
                } else {
                    size as u32
                }
            }
        },
    }
}

} // verus!

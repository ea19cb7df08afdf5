//! What the Refine Mask preview promises: a fully covered opaque pixel shows its
//! own colour, one with no coverage, or none of its own alpha, shows the
//! backdrop, and every pixel lies between the two.

use crate::accuracy;
use crate::dialogs::refine_mask;
use crate::dialogs::refine_mask::PreviewBackground;
use crate::ieee;
use crate::ieee::Real32;
use crate::rounding;
use crate::rounding::Number;
use crate::wholes;
use vstd::arithmetic::power2;
use vstd::prelude::*;

verus! {

/// Nothing.
spec fn none() -> Number {
    Number::zero(ieee::single_format(), false)
}

/// One.
spec fn one() -> Number {
    Number::Finite { negative: false, mantissa: 0x80_0000, exponent: -23i32 }
}

/// A byte as a number.
spec fn of_byte(n: nat) -> Number {
    rounding::nearest(ieee::single_format(), false, n, 1, 0)
}

proof fn lemma_byte(n: nat)
    requires
        n <= 255,
    ensures
        Real32::of_whole(n) == Real32::of(of_byte(n)),
        Real32::of_whole(n).number() == of_byte(n),
        of_byte(n).fits(ieee::single_format()),
        n == 0 ==> of_byte(n) == none(),
        n > 0 ==> of_byte(n) == wholes::lifted(ieee::single_format(), n),
        n > 0 ==> of_byte(n)->mantissa > 0 && of_byte(n) is Finite && !of_byte(n).negative(),
{
    let f = ieee::single_format();
    f.lemma_bounds();
    reveal(Real32::of_whole);
    accuracy::lemma_nearest_fits(f, false, n, 1, 0);
    Real32::lemma_of(of_byte(n), f);
    if n > 0 {
        wholes::lemma_whole(f, n);
    }
}

/// One times a number is the number.
proof fn lemma_times_one(a: Number)
    requires
        a.fits(ieee::single_format()),
        a is Finite,
        !a.negative(),
    ensures
        rounding::product(ieee::single_format(), a, one()) == (if a->mantissa == 0 {
            none()
        } else {
            a
        }),
{
    let f = ieee::single_format();
    f.lemma_bounds();
    power2::lemma2_to64();
    if a->mantissa > 0 {
        rounding::lemma_exact(f, a, 23);
    }
}

/// Nothing added to a number, on either side, leaves the number.
proof fn lemma_plus_none(a: Number)
    requires
        a.fits(ieee::single_format()),
        a is Finite,
        !a.negative(),
        a->mantissa > 0 || a == none(),
    ensures
        rounding::sum(ieee::single_format(), a, none()) == a,
        rounding::sum(ieee::single_format(), none(), a) == a,
{
    let f = ieee::single_format();
    f.lemma_bounds();
    let k = (a->exponent + 149) as nat;
    if a->mantissa > 0 {
        rounding::lemma_exact(f, a, k);
    }
    assert(0nat * power2::pow2(0) == 0) by (nonlinear_arith);
}

/// A whole byte keeps its value through rounding.
proof fn lemma_byte_back(n: nat)
    requires
        n <= 255,
    ensures
        rounding::truncated(Real32::of(of_byte(n)).rounded_spec().number(), 255) == n,
{
    let f = ieee::single_format();
    f.lemma_bounds();
    lemma_byte(n);
    reveal(Real32::rounded_spec);
    if n > 0 {
        wholes::lemma_whole_stays(f, n, 255);
        wholes::lemma_whole(f, n);
        Real32::lemma_of(wholes::lifted(f, n), f);
    } else {
        let unit = power2::pow2(149);
        power2::lemma_pow2_pos(149);
        assert((2 * 0nat + unit) / (2 * unit) == 0 && 0nat / unit == 0) by (nonlinear_arith)
            requires
                unit > 0,
        ;
        Real32::lemma_of(none(), f);
    }
}

/// 255 over 255 is one, and nothing over 255 is nothing.
proof fn lemma_fractions()
    ensures
        refine_mask::unit_fraction(255).number() == one(),
        refine_mask::unit_fraction(0).number() == none(),
{
    let f = ieee::single_format();
    f.lemma_bounds();
    power2::lemma2_to64();
    lemma_byte(255);
    lemma_byte(0);
    reveal(Real32::over_spec);
    let full = Real32 { bits: 0x437f_0000 };
    let m: nat = 0xff_0000;
    assert(full.number() == (Number::Finite {
        negative: false,
        mantissa: m as u64,
        exponent: (-16) as i32,
    }));
    full.lemma_number(f);
    let a = full.number();
    assert(255 * power2::pow2(16) == m);
    rounding::lemma_scaled_shift(f, 255, 1, 0, 16);
    rounding::lemma_exact(f, a, 0);
    assert(m * power2::pow2(0) == m);
    assert(of_byte(255) == a);
    rounding::lemma_scaled_shift(f, m, m, 0, 23);
    let unit = power2::pow2(23);
    assert(m * unit == m * f.low() * power2::pow2(0)) by (nonlinear_arith)
        requires
            unit == f.low(),
            power2::pow2(0) == 1,
    ;
    accuracy::lemma_at_most(f, m * unit, m, -23, f.low(), -23);
    accuracy::lemma_at_least(f, m * unit, m, -23, f.low(), -23);
    Real32::lemma_of(one(), f);
    Real32::lemma_of(none(), f);
}

/// A byte as a fraction is a finite number, not negative.
proof fn lemma_fraction(v: u8)
    ensures
        refine_mask::unit_fraction(v).number() is Finite,
        !refine_mask::unit_fraction(v).number().negative(),
        refine_mask::unit_fraction(v).number().fits(ieee::single_format()),
{
    let f = ieee::single_format();
    f.lemma_bounds();
    power2::lemma2_to64();
    lemma_byte(v as nat);
    lemma_fractions();
    if v > 0 {
        reveal(Real32::over_spec);
        let full = Real32 { bits: 0x437f_0000 };
        full.lemma_number(f);
        let n = of_byte(v as nat)->mantissa as nat;
        let e = of_byte(v as nat)->exponent as int;
        let m: nat = 0xff_0000;
        wholes::lemma_whole(f, v as nat);
        let r = rounding::nearest(f, false, n, m, e + 16);
        accuracy::lemma_nearest_fits(f, false, n, m, e + 16);
        accuracy::lemma_scaled_range(f, n, m, e + 16);
        // The quotient of the mantissas is below four.
        rounding::lemma_scaled_shift(f, n, m, e + 16, 23);
        let unit = power2::pow2(23);
        assert(n * unit <= m * f.low() * power2::pow2(2)) by (nonlinear_arith)
            requires
                n < 0x100_0000,
                m == 0xff_0000,
                unit == f.low(),
                power2::pow2(2) == 4,
        ;
        accuracy::lemma_at_most(f, n * unit, m, e - 7, f.low(), e - 5);
        assert(r is Finite);
        Real32::lemma_of(r, f);
    }
}

/// A byte over a backdrop at full strength is the byte.
proof fn lemma_full_strength(ink: u8, backdrop: u8)
    ensures
        refine_mask::blended(ink, 255, 255, backdrop) == ink,
{
    let f = ieee::single_format();
    f.lemma_bounds();
    lemma_fractions();
    lemma_byte(ink as nat);
    lemma_byte(backdrop as nat);
    reveal(Real32::times_spec);
    reveal(Real32::minus_spec);
    reveal(Real32::plus_spec);
    Real32::lemma_of(one(), f);
    Real32::lemma_of(none(), f);
    lemma_times_one(one());
    let strength = refine_mask::unit_fraction(255).times_spec(refine_mask::unit_fraction(255));
    assert(strength.number() == one());
    let whole = Real32 { bits: 0x3f80_0000 };
    assert(whole.number() == one());
    power2::lemma2_to64();
    let rest = whole.minus_spec(strength);
    assert(rest.number() == none());
    lemma_times_one(of_byte(ink as nat));
    let lit = Real32::of_whole(ink as nat).times_spec(strength);
    assert(lit.number() == of_byte(ink as nat));
    let m = of_byte(backdrop as nat)->mantissa;
    assert(m * 0 == 0);
    let dark = Real32::of_whole(backdrop as nat).times_spec(rest);
    assert(dark.number() == none());
    lemma_plus_none(of_byte(ink as nat));
    lemma_byte_back(ink as nat);
}

/// A byte over a backdrop at no strength is the backdrop.
proof fn lemma_no_strength(ink: u8, alpha: u8, coverage: u8, backdrop: u8)
    requires
        alpha == 0 || coverage == 0,
    ensures
        refine_mask::blended(ink, alpha, coverage, backdrop) == backdrop,
{
    let f = ieee::single_format();
    f.lemma_bounds();
    lemma_fractions();
    lemma_fraction(alpha);
    lemma_fraction(coverage);
    lemma_byte(ink as nat);
    lemma_byte(backdrop as nat);
    reveal(Real32::times_spec);
    reveal(Real32::minus_spec);
    reveal(Real32::plus_spec);
    Real32::lemma_of(one(), f);
    Real32::lemma_of(none(), f);
    let (a, c) = (refine_mask::unit_fraction(alpha), refine_mask::unit_fraction(coverage));
    let (ma, mc) = (a.number()->mantissa, c.number()->mantissa);
    assert(ma * 0 == 0 && 0 * mc == 0);
    let strength = a.times_spec(c);
    assert(strength.number() == none());
    let whole = Real32 { bits: 0x3f80_0000 };
    assert(whole.number() == one());
    rounding::lemma_exact(f, one(), 126);
    let rest = whole.minus_spec(strength);
    assert(0nat * power2::pow2(0) == 0) by (nonlinear_arith);
    assert(rest.number() == one());
    let m = of_byte(ink as nat)->mantissa;
    assert(m * 0 == 0);
    let dark = Real32::of_whole(ink as nat).times_spec(strength);
    assert(dark.number() == none());
    lemma_times_one(of_byte(backdrop as nat));
    let lit = Real32::of_whole(backdrop as nat).times_spec(rest);
    assert(lit.number() == of_byte(backdrop as nat));
    lemma_plus_none(of_byte(backdrop as nat));
    lemma_byte_back(backdrop as nat);
}

/// The preview of an opaque pixel that is fully covered is the pixel.
pub proof fn full_coverage_shows_the_content(
    content: Seq<u8>,
    coverage: Seq<u8>,
    width: int,
    background: PreviewBackground,
    j: int,
)
    requires
        j >= 0,
        refine_mask::byte_at(content, j / 4 * 4 + 3) == 255,
        refine_mask::byte_at(coverage, j / 4) == 255,
    ensures
        refine_mask::preview_byte(content, coverage, width, background, j)
            == refine_mask::byte_at(content, j),
{
    let i = j / 4;
    if j % 4 == 3 {
        assert(j == i * 4 + 3);
    } else {
        lemma_full_strength(
            refine_mask::byte_at(content, j),
            background.grey(i, width) as u8,
        );
    }
}

/// The preview of a pixel with no coverage, or none of its own alpha, is the
/// backdrop, whatever the layer holds there.
pub proof fn no_coverage_shows_the_backdrop(
    content: Seq<u8>,
    coverage: Seq<u8>,
    width: int,
    background: PreviewBackground,
    j: int,
)
    requires
        j >= 0,
        j % 4 != 3,
        refine_mask::byte_at(content, j / 4 * 4 + 3) == 0 || refine_mask::byte_at(coverage, j / 4)
            == 0,
    ensures
        refine_mask::preview_byte(content, coverage, width, background, j) == background.grey(
            j / 4,
            width,
        ) as u8,
{
    let i = j / 4;
    lemma_no_strength(
        refine_mask::byte_at(content, j),
        refine_mask::byte_at(content, i * 4 + 3),
        refine_mask::byte_at(coverage, i),
        background.grey(i, width) as u8,
    );
}

/// A finite number that is not negative, of the single format.
spec fn plain(a: Number) -> bool {
    a is Finite && !a.negative() && a.fits(ieee::single_format())
}

/// How fine the units of [`units`] are: one is this many of them.
spec fn fine() -> nat {
    power2::pow2(298)
}

/// What one rounding of a number up to 256 may be off by.
spec fn slip() -> nat {
    power2::pow2(282)
}

/// A number counted in units that every product of two numbers is whole in.
spec fn units(a: Number) -> nat {
    a->mantissa as nat * power2::pow2((a->exponent + 298) as nat)
}

/// `a` is within `by` of `b`.
spec fn near(a: int, b: int, by: int) -> bool {
    -by <= a - b <= by
}

proof fn lemma_fine()
    ensures
        fine() == 0x1_0000 * slip(),
        slip() > 0,
        units(one()) == fine(),
        units(none()) == 0,
{
    power2::lemma2_to64();
    power2::lemma_pow2_adds(282, 16);
    power2::lemma_pow2_adds(23, 275);
    power2::lemma_pow2_pos(282);
    let (a, b) = (power2::pow2(282), power2::pow2(16));
    assert(a * b == b * a) by (nonlinear_arith);
    assert(0nat * power2::pow2(149) == 0) by (nonlinear_arith);
}

/// Rounding a number up to 256 moves it by no more than [`slip`].
proof fn lemma_rounded_nearby(n: nat, x: int)
    requires
        -298 <= x <= -16,
        n * power2::pow2((x + 298) as nat) <= 256 * fine(),
    ensures
        ({
            let p = rounding::nearest(ieee::single_format(), false, n, 1, x);
            &&& plain(p)
            &&& p->exponent <= -14
            &&& near(
                units(p) as int,
                (n * power2::pow2((x + 298) as nat)) as int,
                slip() as int,
            )
        }),
{
    let f = ieee::single_format();
    f.lemma_bounds();
    lemma_fine();
    let scale = power2::pow2((x + 298) as nat);
    power2::lemma_pow2_pos((x + 298) as nat);
    let p = rounding::nearest(f, false, n, 1, x);
    accuracy::lemma_nearest_fits(f, false, n, 1, x);
    if n == 0 {
        assert(0nat * scale == 0) by (nonlinear_arith);
        assert(p == none());
    } else {
        let (m, e) = rounding::scaled(f, n, 1, x);
        // At most 256, which is the least mantissa at the exponent -15.
        let d = (-15 - x) as nat;
        power2::lemma2_to64();
        lemma_256(n, x, d);
        accuracy::lemma_at_most(f, n, 1, x, f.low(), -15);
        accuracy::lemma_scaled_range(f, n, 1, x);
        accuracy::rounding_is_within_half_a_unit(f, n, 1, x);
        assert(e <= -15);
        if e < x {
            // Nothing was lost.
            let long = n * power2::pow2((x - e) as nat);
            assert(m * 1 == m);
            assert(m == long);
            lemma_same_units(n, x, m, e);
        } else {
            let wide = 1 * power2::pow2((e - x) as nat);
            lemma_half_unit(n, x, m, e, wide);
        }
        lemma_packed_units(m, e);
    }
}

/// The bound of 256, read at the number's own exponent.
proof fn lemma_256(n: nat, x: int, d: nat)
    requires
        -298 <= x <= -16,
        d == -15 - x,
        n * power2::pow2((x + 298) as nat) <= 256 * fine(),
    ensures
        n <= 1 * 0x80_0000 * power2::pow2(d),
{
    power2::lemma2_to64();
    let a = (x + 298) as nat;
    power2::lemma_pow2_adds(d, 23);
    power2::lemma_pow2_adds(d + 23, a);
    power2::lemma_pow2_adds(8, 298);
    assert(d + 23 + a == 306);
    power2::lemma_pow2_pos(a);
    let (pd, pa, all) = (power2::pow2(d), power2::pow2(a), power2::pow2(d + 23));
    assert(all == pd * 0x80_0000);
    assert(256 * fine() == all * pa);
    assert(n <= all) by (nonlinear_arith)
        requires
            n * pa <= all * pa,
            pa > 0,
    ;
    assert(1 * 0x80_0000 * pd == pd * 0x80_0000) by (nonlinear_arith);
}

/// A number at a finer exponent counts the same.
proof fn lemma_same_units(n: nat, x: int, m: nat, e: int)
    requires
        -298 <= e <= x,
        m == n * power2::pow2((x - e) as nat),
    ensures
        m * power2::pow2((e + 298) as nat) == n * power2::pow2((x + 298) as nat),
{
    power2::lemma_pow2_adds((x - e) as nat, (e + 298) as nat);
    let (a, b) = (power2::pow2((x - e) as nat), power2::pow2((e + 298) as nat));
    assert((n * a) * b == n * (a * b)) by (nonlinear_arith);
}

/// Half a unit of the last place is no more than [`slip`].
proof fn lemma_half_unit(n: nat, x: int, m: nat, e: int, wide: nat)
    requires
        -298 <= x <= e <= -15,
        wide == power2::pow2((e - x) as nat),
        -(wide as int) <= 2 * (m * wide - n) <= wide,
    ensures
        near(
            (m * power2::pow2((e + 298) as nat)) as int,
            (n * power2::pow2((x + 298) as nat)) as int,
            slip() as int,
        ),
{
    power2::lemma2_to64();
    let scale = power2::pow2((x + 298) as nat);
    power2::lemma_pow2_pos((x + 298) as nat);
    power2::lemma_pow2_adds((e - x) as nat, (x + 298) as nat);
    let full = power2::pow2((e + 298) as nat);
    assert(full == wide * scale);
    assert(m * full == (m * wide) * scale) by (nonlinear_arith)
        requires
            full == wide * scale,
    ;
    assert(2 * ((m * wide) * scale - n * scale) <= full && 2 * ((m * wide) * scale - n * scale)
        >= -(full as int)) by (nonlinear_arith)
        requires
            full == wide * scale,
            -(wide as int) <= 2 * (m * wide - n) <= wide,
            scale > 0,
    ;
    power2::lemma_pow2_adds(282, 1);
    if e < -15 {
        power2::lemma_pow2_strictly_increases((e + 298) as nat, 283);
    }
    assert(full <= 2 * slip());
}

/// Packing changes no value.
proof fn lemma_packed_units(m: nat, e: int)
    requires
        m <= 0x100_0000,
        -149 <= e <= -15,
        m < 0x80_0000 ==> e == -149,
    ensures
        ({
            let p = rounding::packed(ieee::single_format(), false, m, e);
            &&& p is Finite
            &&& !p.negative()
            &&& p->exponent <= -14
            &&& units(p) == m * power2::pow2((e + 298) as nat)
        }),
{
    let f = ieee::single_format();
    f.lemma_bounds();
    let scale = power2::pow2((e + 298) as nat);
    if m == 0 {
        assert(0nat * power2::pow2(149) == 0) by (nonlinear_arith);
        assert(0nat * scale == 0) by (nonlinear_arith);
    } else if m == 0x100_0000 {
        power2::lemma_pow2_unfold((e + 299) as nat);
        assert(0x80_0000 * (2 * scale) == 0x100_0000 * scale) by (nonlinear_arith);
    }
}

/// A byte is a whole number of ones.
proof fn lemma_byte_units(n: nat)
    requires
        n <= 255,
    ensures
        plain(of_byte(n)),
        n > 0 ==> -23 <= of_byte(n)->exponent <= -16 && of_byte(n)->mantissa == n
            * power2::pow2((-of_byte(n)->exponent) as nat),
{
    let f = ieee::single_format();
    f.lemma_bounds();
    power2::lemma2_to64();
    lemma_byte(n);
    if n > 0 {
        wholes::lemma_whole(f, n);
        let k = wholes::lift(f, n);
        if k < 16 {
            power2::lemma_pow2_strictly_increases(k, 16);
            assert(n * power2::pow2(k) < 0x80_0000) by (nonlinear_arith)
                requires
                    n <= 255,
                    power2::pow2(k) <= 0x8000,
            ;
        }
    }
}

/// A byte times a number up to about one is its exact product, or nearly.
proof fn lemma_byte_times(n: nat, s: Number)
    requires
        n <= 255,
        plain(s),
        s->exponent <= -14,
        n * units(s) <= 256 * fine(),
    ensures
        ({
            let p = rounding::product(ieee::single_format(), of_byte(n), s);
            plain(p) && p->exponent <= -14 && near(
                units(p) as int,
                (n * units(s)) as int,
                slip() as int,
            )
        }),
{
    lemma_byte_units(n);
    lemma_byte(n);
    let f = ieee::single_format();
    f.lemma_bounds();
    let (m, e) = (s->mantissa as nat, s->exponent as int);
    let b = of_byte(n);
    if n == 0 {
        assert(b->mantissa * m == 0) by (nonlinear_arith)
            requires
                b->mantissa == 0,
        ;
        assert(0nat * units(s) == 0) by (nonlinear_arith);
        lemma_fine();
        let p = rounding::product(f, b, s);
        assert(p == none());
    } else {
        let k = (-b->exponent) as nat;
        let long = (b->mantissa * m) as nat;
        let scale = power2::pow2((e - k + 298) as nat);
        power2::lemma_pow2_adds(k, (e - k + 298) as nat);
        let pk = power2::pow2(k);
        assert(long * scale == n * (m * (pk * scale))) by (nonlinear_arith)
            requires
                long == (n * pk) * m,
        ;
        lemma_rounded_nearby(long, e - k);
    }
}

/// What is left of one, or nearly.
proof fn lemma_rest_of_one(s: Number)
    requires
        plain(s),
        s->exponent <= -14,
        units(s) <= fine(),
    ensures
        ({
            let r = rounding::sum(ieee::single_format(), one(), rounding::negated(s));
            plain(r) && r->exponent <= -14 && near(
                units(r) as int,
                fine() - units(s),
                slip() as int,
            )
        }),
{
    let f = ieee::single_format();
    f.lemma_bounds();
    lemma_fine();
    let (m, e) = (s->mantissa as nat, s->exponent as int);
    let base = if -23 < e {
        -23int
    } else {
        e
    };
    let a = 0x80_0000nat * power2::pow2((-23 - base) as nat);
    let b = m * power2::pow2((e - base) as nat);
    let scale = power2::pow2((base + 298) as nat);
    power2::lemma_pow2_pos((base + 298) as nat);
    lemma_same_units(0x80_0000, -23, a, base);
    lemma_same_units(m, e, b, base);
    assert(a * scale == fine());
    assert(b * scale == units(s));
    assert(b <= a) by (nonlinear_arith)
        requires
            b * scale <= a * scale,
            scale > 0,
    ;
    let left = (a - b) as nat;
    assert(left * scale == a * scale - b * scale) by (nonlinear_arith)
        requires
            left == a - b,
    ;
    lemma_rounded_nearby(left, base);
    let r = rounding::sum(f, one(), rounding::negated(s));
    assert(r == rounding::nearest(f, false, left, 1, base));
}

/// A number with a coarse last place is at least 256.
proof fn lemma_at_least_256(m: nat, e: int)
    requires
        m >= 0x80_0000,
        e >= -15,
    ensures
        m * power2::pow2((e + 298) as nat) >= 256 * fine(),
{
    power2::lemma2_to64();
    power2::lemma_pow2_adds(23, 283);
    power2::lemma_pow2_adds(8, 298);
    if e > -15 {
        power2::lemma_pow2_strictly_increases(283, (e + 298) as nat);
    }
    let (a, b) = (power2::pow2(283), power2::pow2((e + 298) as nat));
    assert(m * b >= 0x80_0000 * a) by (nonlinear_arith)
        requires
            m >= 0x80_0000,
            b >= a,
    ;
}

/// The sum of two numbers up to 256 in all, or nearly.
proof fn lemma_sum_nearby(a: Number, b: Number)
    requires
        plain(a),
        plain(b),
        a->exponent <= -14,
        b->exponent <= -14,
        units(a) + units(b) <= 256 * fine(),
    ensures
        ({
            let v = rounding::sum(ieee::single_format(), a, b);
            plain(v) && v->exponent <= -14 && near(
                units(v) as int,
                (units(a) + units(b)) as int,
                slip() as int,
            )
        }),
{
    let f = ieee::single_format();
    f.lemma_bounds();
    let (m, e) = (a->mantissa as nat, a->exponent as int);
    let (n, x) = (b->mantissa as nat, b->exponent as int);
    let base = if e < x {
        e
    } else {
        x
    };
    if e > -16 && x > -16 {
        lemma_at_least_256(m, e);
        lemma_at_least_256(n, x);
        lemma_fine();
    }
    let p = m * power2::pow2((e - base) as nat);
    let q = n * power2::pow2((x - base) as nat);
    let scale = power2::pow2((base + 298) as nat);
    lemma_same_units(m, e, p, base);
    lemma_same_units(n, x, q, base);
    let all = p + q;
    assert(all * scale == p * scale + q * scale) by (nonlinear_arith)
        requires
            all == p + q,
    ;
    lemma_rounded_nearby(all, base);
    assert(rounding::sum(f, a, b) == rounding::nearest(f, false, all, 1, base));
}

/// A fraction of 255 is at most one.
proof fn lemma_fraction_up_to_one(v: u8)
    ensures
        plain(refine_mask::unit_fraction(v).number()),
        refine_mask::unit_fraction(v).number()->exponent < -23 || (refine_mask::unit_fraction(
            v,
        ).number()->exponent == -23 && refine_mask::unit_fraction(v).number()->mantissa
            <= 0x80_0000),
{
    let f = ieee::single_format();
    f.lemma_bounds();
    power2::lemma2_to64();
    lemma_fraction(v);
    lemma_fractions();
    if v > 0 {
        lemma_byte(v as nat);
        lemma_byte_units(v as nat);
        reveal(Real32::over_spec);
        let full = Real32 { bits: 0x437f_0000 };
        full.lemma_number(f);
        let m: nat = 0xff_0000;
        assert(full.number() == (Number::Finite {
            negative: false,
            mantissa: m as u64,
            exponent: (-16) as i32,
        }));
        let n = of_byte(v as nat)->mantissa as nat;
        let e = of_byte(v as nat)->exponent as int;
        let k = (-e) as nat;
        let r = rounding::nearest(f, false, n, m, e + 16);
        accuracy::lemma_nearest_fits(f, false, n, m, e + 16);
        accuracy::lemma_scaled_range(f, n, m, e + 16);
        rounding::lemma_scaled_shift(f, n, m, e + 16, 23);
        let j = (k - 16) as nat;
        power2::lemma_pow2_adds(16, j);
        let (pk, pj) = (power2::pow2(k), power2::pow2(j));
        assert(n * 0x80_0000 <= m * 0x80_0000 * pj) by (nonlinear_arith)
            requires
                n == v * pk,
                v <= 255,
                pk == 0x1_0000 * pj,
                m == 255 * 0x1_0000,
        ;
        accuracy::lemma_at_most(f, n * 0x80_0000, m, e - 7, f.low(), -23);
        Real32::lemma_of(r, f);
    }
}

/// The product of two numbers up to one is up to one.
proof fn lemma_product_up_to_one(a: Number, b: Number)
    requires
        plain(a),
        plain(b),
        a->exponent < -23 || (a->exponent == -23 && a->mantissa <= 0x80_0000),
        b->exponent < -23 || (b->exponent == -23 && b->mantissa <= 0x80_0000),
    ensures
        ({
            let s = rounding::product(ieee::single_format(), a, b);
            plain(s) && s->exponent <= -14 && units(s) <= fine()
        }),
{
    let f = ieee::single_format();
    f.lemma_bounds();
    power2::lemma2_to64();
    lemma_fine();
    let (m, e) = (a->mantissa as nat, a->exponent as int);
    let (n, x) = (b->mantissa as nat, b->exponent as int);
    let s = rounding::product(f, a, b);
    if m == 0 || n == 0 {
        assert(m * n == 0) by (nonlinear_arith)
            requires
                m == 0 || n == 0,
        ;
        assert(s == none());
    } else {
        assert(m * n > 0) by (nonlinear_arith)
            requires
                m > 0,
                n > 0,
        ;
        lemma_up_to_one(m, e);
        lemma_up_to_one(n, x);
        let (pe, px) = (power2::pow2((-e) as nat), power2::pow2((-x) as nat));
        power2::lemma_pow2_adds((-e) as nat, (-x) as nat);
        let d = (-23 - e - x) as nat;
        power2::lemma_pow2_adds(23, d);
        assert(m * n <= 1 * 0x80_0000 * power2::pow2(d)) by (nonlinear_arith)
            requires
                m <= pe,
                n <= px,
                pe * px == 0x80_0000 * power2::pow2(d),
        ;
        accuracy::lemma_at_most(f, m * n, 1, e + x, f.low(), -23);
        accuracy::lemma_scaled_range(f, m * n, 1, e + x);
        accuracy::lemma_nearest_fits(f, false, m * n, 1, e + x);
        let (w, v) = rounding::scaled(f, m * n, 1, e + x);
        lemma_packed_units(w, v);
        // At most one at its own exponent.
        lemma_up_to_one_units(w, v);
    }
}

/// A mantissa of a number up to one.
proof fn lemma_up_to_one(m: nat, e: int)
    requires
        m < 0x100_0000,
        e < -23 || (e == -23 && m <= 0x80_0000),
    ensures
        m <= power2::pow2((-e) as nat),
{
    power2::lemma2_to64();
    if e < -24 {
        power2::lemma_pow2_strictly_increases(24, (-e) as nat);
    }
}

/// A number up to one counts up to one.
proof fn lemma_up_to_one_units(m: nat, e: int)
    requires
        m <= 0x100_0000,
        -149 <= e,
        e < -23 || (e == -23 && m <= 0x80_0000),
    ensures
        m * power2::pow2((e + 298) as nat) <= fine(),
{
    power2::lemma2_to64();
    let g = (-e) as nat;
    if e < -24 {
        power2::lemma_pow2_strictly_increases(24, g);
    }
    power2::lemma_pow2_adds(g, (e + 298) as nat);
    let (a, b) = (power2::pow2(g), power2::pow2((e + 298) as nat));
    assert(m * b <= a * b) by (nonlinear_arith)
        requires
            m <= a,
    ;
}

/// A number within a quarter of what lies between two bytes has its nearest
/// whole number there.
proof fn lemma_nearest_between(v: Number, low: nat, high: nat)
    requires
        plain(v),
        v->exponent <= -14,
        low <= high <= 255,
        4 * units(v) + fine() >= 4 * low * fine(),
        4 * units(v) <= (4 * high + 1) * fine(),
    ensures
        low <= rounding::truncated(rounding::whole(ieee::single_format(), v), 255) <= high,
{
    let f = ieee::single_format();
    f.lemma_bounds();
    let w = v->mantissa as nat;
    let e = v->exponent as int;
    let g = (-e) as nat;
    let unit = power2::pow2(g);
    let q = power2::pow2((e + 298) as nat);
    power2::lemma_pow2_pos(g);
    power2::lemma_pow2_pos((e + 298) as nat);
    power2::lemma_pow2_adds(g, (e + 298) as nat);
    assert(fine() == unit * q);
    assert(4 * w + unit >= 4 * low * unit) by (nonlinear_arith)
        requires
            4 * (w * q) + unit * q >= 4 * low * (unit * q),
            q > 0,
    ;
    assert(4 * w <= (4 * high + 1) * unit) by (nonlinear_arith)
        requires
            4 * (w * q) <= (4 * high + 1) * (unit * q),
            q > 0,
    ;
    let near = (2 * w + unit) / (2 * unit);
    assert(low <= near <= high) by (nonlinear_arith)
        requires
            near == (2 * w + unit) / (2 * unit),
            4 * w + unit >= 4 * low * unit,
            4 * w <= (4 * high + 1) * unit,
            unit > 0,
    ;
    if near > 0 {
        wholes::lemma_whole(f, near);
        wholes::lemma_whole_stays(f, near, 255);
    } else {
        power2::lemma_pow2_pos(149);
        assert(0nat / power2::pow2(149) == 0) by (nonlinear_arith)
            requires
                power2::pow2(149) > 0,
        ;
    }
}

/// The exact mixture lies between the two, and the rounded one within a quarter
/// of it.
proof fn lemma_mixture(ink: nat, back: nat, a: nat, rest: nat, lit: nat, dark: nat, v: nat)
    requires
        ink <= 255,
        back <= 255,
        a <= fine(),
        near(rest as int, fine() - a, slip() as int),
        near(lit as int, (ink * a) as int, slip() as int),
        near(dark as int, (back * rest) as int, slip() as int),
        near(v as int, (lit + dark) as int, slip() as int),
    ensures
        ({
            let low = if ink <= back {
                ink
            } else {
                back
            };
            let high = if ink <= back {
                back
            } else {
                ink
            };
            &&& 4 * v + fine() >= 4 * low * fine()
            &&& 4 * v <= (4 * high + 1) * fine()
        }),
{
    lemma_fine();
    let k = fine();
    let t = slip();
    let left = (k - a) as nat;
    assert(near((back * rest) as int, (back * left) as int, (255 * t) as int)) by (nonlinear_arith)
        requires
            back <= 255,
            -(t as int) <= rest - left <= t,
    ;
    let mix = ink * a + back * left;
    assert(ink <= back ==> ink * k <= mix <= back * k) by (nonlinear_arith)
        requires
            mix == ink * a + back * left,
            k == a + left,
    ;
    assert(back <= ink ==> back * k <= mix <= ink * k) by (nonlinear_arith)
        requires
            mix == ink * a + back * left,
            k == a + left,
    ;
    assert(near(v as int, mix as int, (258 * t) as int));
    let low = if ink <= back {
        ink
    } else {
        back
    };
    let high = if ink <= back {
        back
    } else {
        ink
    };
    assert(4 * low * k == 4 * (low * k)) by (nonlinear_arith);
    assert((4 * high + 1) * k == 4 * (high * k) + k) by (nonlinear_arith);
}

/// What mixes two bytes is a byte from the one to the other.
proof fn lemma_blended_between(ink: u8, alpha: u8, coverage: u8, backdrop: u8)
    ensures
        ink <= backdrop ==> ink <= refine_mask::blended(ink, alpha, coverage, backdrop)
            <= backdrop,
        backdrop <= ink ==> backdrop <= refine_mask::blended(ink, alpha, coverage, backdrop)
            <= ink,
{
    let f = ieee::single_format();
    f.lemma_bounds();
    lemma_fine();
    lemma_byte(ink as nat);
    lemma_byte(backdrop as nat);
    lemma_fraction_up_to_one(alpha);
    lemma_fraction_up_to_one(coverage);
    reveal(Real32::times_spec);
    reveal(Real32::minus_spec);
    reveal(Real32::plus_spec);
    reveal(Real32::rounded_spec);
    let (a, c) = (refine_mask::unit_fraction(alpha), refine_mask::unit_fraction(coverage));
    let strength = a.times_spec(c);
    lemma_product_up_to_one(a.number(), c.number());
    Real32::lemma_of(rounding::product(f, a.number(), c.number()), f);
    let s = strength.number();
    let whole = Real32 { bits: 0x3f80_0000 };
    assert(whole.number() == one());
    let rest = whole.minus_spec(strength);
    lemma_rest_of_one(s);
    Real32::lemma_of(rounding::sum(f, one(), rounding::negated(s)), f);
    let r = rest.number();
    let (k, t) = (fine(), slip());
    let (n, b) = (ink as nat, backdrop as nat);
    assert(n * units(s) <= 255 * k) by (nonlinear_arith)
        requires
            n <= 255,
            units(s) <= k,
    ;
    assert(b * units(r) <= 255 * (k + t)) by (nonlinear_arith)
        requires
            b <= 255,
            units(r) <= k + t,
    ;
    lemma_byte_times(n, s);
    lemma_byte_times(b, r);
    let lit = Real32::of_whole(n).times_spec(strength);
    let dark = Real32::of_whole(b).times_spec(rest);
    Real32::lemma_of(rounding::product(f, of_byte(n), s), f);
    Real32::lemma_of(rounding::product(f, of_byte(b), r), f);
    lemma_lengths(n, b, units(s), units(r), units(lit.number()), units(dark.number()));
    lemma_sum_nearby(lit.number(), dark.number());
    let value = lit.plus_spec(dark);
    Real32::lemma_of(rounding::sum(f, lit.number(), dark.number()), f);
    let v = value.number();
    lemma_mixture(
        n,
        b,
        units(s),
        units(r),
        units(lit.number()),
        units(dark.number()),
        units(v),
    );
    accuracy::lemma_whole_fits(f, v);
    Real32::lemma_of(rounding::whole(f, v), f);
    if ink <= backdrop {
        lemma_nearest_between(v, n, b);
    } else {
        lemma_nearest_between(v, b, n);
    }
}

/// The two parts of a mixture are up to 256 in all.
proof fn lemma_lengths(ink: nat, back: nat, a: nat, rest: nat, lit: nat, dark: nat)
    requires
        ink <= 255,
        back <= 255,
        a <= fine(),
        near(rest as int, fine() - a, slip() as int),
        near(lit as int, (ink * a) as int, slip() as int),
        near(dark as int, (back * rest) as int, slip() as int),
    ensures
        lit + dark <= 256 * fine(),
{
    lemma_fine();
    let (k, t) = (fine(), slip());
    assert(ink * a <= 255 * a) by (nonlinear_arith)
        requires
            ink <= 255,
    ;
    assert(back * rest <= 255 * rest) by (nonlinear_arith)
        requires
            back <= 255,
    ;
}

/// Every colour byte of the preview lies between the layer's own and the
/// backdrop, whatever the coverage and the alpha.
pub proof fn the_preview_lies_between_content_and_backdrop(
    content: Seq<u8>,
    coverage: Seq<u8>,
    width: int,
    background: PreviewBackground,
    j: int,
)
    requires
        j >= 0,
        j % 4 != 3,
    ensures
        ({
            let ink = refine_mask::byte_at(content, j);
            let backdrop = background.grey(j / 4, width) as u8;
            let shown = refine_mask::preview_byte(content, coverage, width, background, j);
            &&& ink <= backdrop ==> ink <= shown <= backdrop
            &&& backdrop <= ink ==> backdrop <= shown <= ink
        }),
{
    let i = j / 4;
    lemma_blended_between(
        refine_mask::byte_at(content, j),
        refine_mask::byte_at(content, i * 4 + 3),
        refine_mask::byte_at(coverage, i),
        background.grey(i, width) as u8,
    );
}

} // verus!

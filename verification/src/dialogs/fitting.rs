//! What [`crate::dialogs::resize_images::fitted_size`] promises: an image fits
//! the box it is given, and one that already fits keeps its size unless smaller
//! images are enlarged.

use crate::accuracy;
use crate::dialogs::resize_images;
use crate::ieee;
use crate::ieee::Real64;
use crate::rounding;
use crate::rounding::Number;
use crate::wholes;
use vstd::arithmetic::power2;
use vstd::prelude::*;

verus! {

/// The quotient of two whole numbers is their exact quotient, rounded once.
proof fn lemma_ratio(a: nat, b: nat)
    requires
        0 < a < 0x20_0000_0000_0000,
        0 < b < 0x20_0000_0000_0000,
    ensures
        Real64::of_whole(a).over_spec(Real64::of_whole(b)) == Real64::of(
            rounding::nearest(ieee::double_format(), false, a, b, 0),
        ),
{
    let f = ieee::double_format();
    f.lemma_bounds();
    wholes::lemma_whole(f, a);
    wholes::lemma_whole(f, b);
    reveal(Real64::of_whole);
    reveal(Real64::over_spec);
    Real64::lemma_of(wholes::lifted(f, a), f);
    Real64::lemma_of(wholes::lifted(f, b), f);
    let (p, q) = (wholes::lift(f, a), wholes::lift(f, b));
    let m = a * power2::pow2(p);
    let n = b * power2::pow2(q);
    rounding::lemma_scaled_shift(f, a, b, 0, p);
    rounding::lemma_scaled_shift(f, m, b, -(p as int), q);
    assert(rounding::nearest(f, false, m, n, q - p) == rounding::nearest(f, false, a, b, 0));
}

/// The product of a whole number and a positive number, rounded once.
proof fn lemma_multiple(n: nat, s: Real64, m: nat, e: int)
    requires
        0 < n < 0x20_0000_0000_0000,
        s.number() == (Number::Finite { negative: false, mantissa: m as u64, exponent: e as i32 }),
        m <= u64::MAX,
        i32::MIN <= e <= i32::MAX,
    ensures
        Real64::of_whole(n).times_spec(s) == Real64::of(
            rounding::nearest(ieee::double_format(), false, n * m, 1, e),
        ),
{
    let f = ieee::double_format();
    f.lemma_bounds();
    wholes::lemma_whole(f, n);
    reveal(Real64::of_whole);
    reveal(Real64::times_spec);
    Real64::lemma_of(wholes::lifted(f, n), f);
    let k = wholes::lift(f, n);
    let scale = power2::pow2(k);
    power2::lemma_pow2_pos(k);
    assert((n * scale) * m == (n * m) * scale) by (nonlinear_arith);
    if m > 0 {
        assert(n * m > 0) by (nonlinear_arith)
            requires
                n > 0,
                m > 0,
        ;
        rounding::lemma_scaled_shift(f, n * m, 1, e, k);
    } else {
        assert(n * 0 == 0);
        assert((n * scale) * 0 == 0);
    }
}

/// One, as a number.
spec fn one() -> Real64 {
    Real64 { bits: 0x3ff0_0000_0000_0000 }
}

/// The ratio of a box to a side it holds is at least one.
proof fn lemma_ratio_at_least_one(a: nat, b: nat)
    requires
        0 < b <= a < 0x20_0000_0000_0000,
    ensures
        ({
            let r = Real64::of(rounding::nearest(ieee::double_format(), false, a, b, 0));
            !r.nan() && r.bits < 0x8000_0000_0000_0000 && r.bits >= one().bits
        }),
{
    let f = ieee::double_format();
    f.lemma_bounds();
    power2::lemma2_to64();
    power2::lemma2_to64_rest();
    let unit = power2::pow2(52);
    rounding::lemma_scaled_shift(f, a, b, 0, 52);
    assert(b * f.low() * power2::pow2(0) <= a * unit) by (nonlinear_arith)
        requires
            b <= a,
            f.low() == unit,
            power2::pow2(0) == 1,
    ;
    accuracy::lemma_at_least(f, a * unit, b, -52, f.low(), -52);
    accuracy::lemma_scaled_range(f, a, b, 0);
    let (m, e) = rounding::scaled(f, a, b, 0);
    assert(m >= f.low());
}

/// What is in the box, as the numbers see it: a positive number at most the
/// ratio of a box to a side, times the side, is at most a quarter past the box.
proof fn lemma_scaled_side(big: nat, side: nat, s: Real64, m: nat, e: int)
    requires
        0 < big <= u32::MAX,
        0 < side <= u32::MAX,
        s.bits <= Real64::of(
            rounding::nearest(ieee::double_format(), false, big, side, 0),
        ).bits,
        s.number() == (Number::Finite { negative: false, mantissa: m as u64, exponent: e as i32 }),
        m < 0x20_0000_0000_0000,
        -1074 <= e <= 971,
        m < 0x10_0000_0000_0000 ==> e == -1074,
        m > 0 || e == -1074,
    ensures
        e < 0,
        4 * (side * m) <= (4 * big + 1) * power2::pow2((-e) as nat),
{
    let f = ieee::double_format();
    f.lemma_bounds();
    power2::lemma2_to64();
    power2::lemma2_to64_rest();
    let q = rounding::nearest(f, false, big, side, 0);
    let (mq, eq) = rounding::scaled(f, big, side, 0);
    accuracy::lemma_scaled_range(f, big, side, 0);
    accuracy::rounding_is_within_half_a_unit(f, big, side, 0);
    lemma_ratio_range(big, side);
    // The ratio is of full precision, with an exponent well below zero.
    assert(-90 <= eq <= -19);
    let g = (-eq) as nat;
    let unit = power2::pow2(g);
    power2::lemma_pow2_pos(g);
    let long = big * unit;
    assert(2 * (mq * side - long) <= side);
    lemma_quarter(big, side, mq, unit);
    assert(4 * (side * mq) <= (4 * big + 1) * unit);
    lemma_below_ratio(big, side, mq, eq, s, m, e);
}

/// The ratio of two 32-bit numbers, where its unit is.
proof fn lemma_ratio_range(big: nat, side: nat)
    requires
        0 < big <= u32::MAX,
        0 < side <= u32::MAX,
    ensures
        ({
            let (m, e) = rounding::scaled(ieee::double_format(), big, side, 0);
            -90 <= e <= -20 && 0x10_0000_0000_0000 <= m <= 0x20_0000_0000_0000
        }),
{
    let f = ieee::double_format();
    f.lemma_bounds();
    power2::lemma2_to64();
    power2::lemma2_to64_rest();
    accuracy::lemma_scaled_range(f, big, side, 0);
    // At most 2^32: at most low * 2^-20.
    rounding::lemma_scaled_shift(f, big, side, 0, 52);
    let unit = power2::pow2(52);
    power2::lemma_pow2_adds(20, 32);
    assert(big * unit <= side * f.low() * power2::pow2(32)) by (nonlinear_arith)
        requires
            big <= u32::MAX,
            side >= 1,
            unit == 0x10_0000_0000_0000,
            f.low() == 0x10_0000_0000_0000,
            power2::pow2(32) == 0x1_0000_0000,
    ;
    accuracy::lemma_at_most(f, big * unit, side, -52, f.low(), -20);
    // At least 2^-32: at least low * 2^-84.
    rounding::lemma_scaled_shift(f, big, side, 0, 84);
    let far = power2::pow2(84);
    power2::lemma_pow2_adds(52, 32);
    assert(big * far >= side * f.low() * power2::pow2(0)) by (nonlinear_arith)
        requires
            big >= 1,
            side <= u32::MAX,
            far == 0x10_0000_0000_0000 * 0x1_0000_0000,
            f.low() == 0x10_0000_0000_0000,
            power2::pow2(0) == 1,
    ;
    accuracy::lemma_at_least(f, big * far, side, -84, f.low(), -84);
}

/// Half a unit of the side is less than a quarter of the box's unit.
proof fn lemma_quarter(big: nat, side: nat, m: nat, unit: nat)
    requires
        0 < big <= u32::MAX,
        0 < side <= u32::MAX,
        m >= 0x10_0000_0000_0000,
        unit >= 1,
        2 * (m * side - big * unit) <= side,
    ensures
        4 * (side * m) <= (4 * big + 1) * unit,
{
    assert(m * side == side * m) by (nonlinear_arith);
    assert((4 * big + 1) * unit == 4 * (big * unit) + unit) by (nonlinear_arith);
    if 2 * side > unit {
        assert(side * m >= side * 0x10_0000_0000_0000) by (nonlinear_arith)
            requires
                m >= 0x10_0000_0000_0000,
        ;
        assert(big * unit <= 0xffff_ffff * (2 * side)) by (nonlinear_arith)
            requires
                big <= 0xffff_ffff,
                unit < 2 * side,
        ;
        assert(false);
    }
}

/// The bound passes to every smaller number.
proof fn lemma_below_ratio(big: nat, side: nat, mq: nat, eq: int, s: Real64, m: nat, e: int)
    requires
        0 < side <= u32::MAX,
        -90 <= eq <= -20,
        0x10_0000_0000_0000 <= mq <= 0x20_0000_0000_0000,
        4 * (side * mq) <= (4 * big + 1) * power2::pow2((-eq) as nat),
        s.bits <= Real64::of(rounding::packed(ieee::double_format(), false, mq, eq)).bits,
        s.number() == (Number::Finite { negative: false, mantissa: m as u64, exponent: e as i32 }),
        m < 0x20_0000_0000_0000,
        -1074 <= e <= 971,
        m < 0x10_0000_0000_0000 ==> e == -1074,
    ensures
        e < 0,
        4 * (side * m) <= (4 * big + 1) * power2::pow2((-e) as nat),
{
    let f = ieee::double_format();
    f.lemma_bounds();
    s.lemma_number(f);
    assert(Real64::of(s.number()) == s);
    let g = (-eq) as nat;
    let unit = power2::pow2(g);
    power2::lemma_pow2_pos(g);
    let room = 4 * big + 1;
    if mq == 0x20_0000_0000_0000 {
        // The ratio is low * 2^(eq + 1).
        assert(e < eq + 1 || (e == eq + 1 && m <= 0x10_0000_0000_0000));
        if e == eq + 1 {
            let h = (g - 1) as nat;
            power2::lemma_pow2_unfold(g);
            assert((-e) as nat == h);
            assert(4 * (side * m) <= room * power2::pow2(h)) by (nonlinear_arith)
                requires
                    4 * (side * mq) <= room * unit,
                    unit == 2 * power2::pow2(h),
                    mq == 2 * 0x10_0000_0000_0000,
                    m <= 0x10_0000_0000_0000,
            ;
        } else {
            lemma_room(room, side, m, mq, g, (-e) as nat);
        }
    } else {
        assert(e < eq || (e == eq && m <= mq));
        if e == eq {
            assert(side * m <= side * mq) by (nonlinear_arith)
                requires
                    m <= mq,
            ;
        } else {
            assert(side * m <= side * (2 * mq)) by (nonlinear_arith)
                requires
                    m <= 2 * mq,
            ;
            let t = (-e) as nat;
            power2::lemma_pow2_unfold(g + 1);
            assert(4 * (side * (2 * mq)) <= room * power2::pow2(g + 1)) by (nonlinear_arith)
                requires
                    4 * (side * mq) <= room * unit,
                    power2::pow2(g + 1) == 2 * unit,
            ;
            lemma_room(room, side, m, 2 * mq, g + 1, t);
        }
    }
}

/// More room at a finer unit.
proof fn lemma_room(room: nat, side: nat, m: nat, mq: nat, g: nat, t: nat)
    requires
        4 * (side * mq) <= room * power2::pow2(g),
        m <= mq,
        g <= t,
    ensures
        4 * (side * m) <= room * power2::pow2(t),
{
    if g < t {
        power2::lemma_pow2_strictly_increases(g, t);
    }
    let (p, q) = (power2::pow2(g), power2::pow2(t));
    assert(4 * (side * m) <= room * q) by (nonlinear_arith)
        requires
            4 * (side * mq) <= room * p,
            p <= q,
            m <= mq,
    ;
}

/// A multiple that is at most a quarter past a whole number rounds to at most
/// that number.
proof fn lemma_rounds_inside(big: nat, n: nat, e: int)
    requires
        0 < big <= u32::MAX,
        0 < n,
        -1074 <= e < 0,
        4 * n <= (4 * big + 1) * power2::pow2((-e) as nat),
    ensures
        ({
            let p = rounding::nearest(ieee::double_format(), false, n, 1, e);
            rounding::truncated(
                rounding::whole(ieee::double_format(), p),
                u32::MAX as nat,
            ) <= big && p is Finite && p.fits(ieee::double_format())
        }),
{
    let f = ieee::double_format();
    f.lemma_bounds();
    power2::lemma2_to64();
    power2::lemma2_to64_rest();
    let bound = 4 * big + 1;
    wholes::lemma_whole(f, bound);
    let c = wholes::lift(f, bound);
    let mb = bound * power2::pow2(c);
    let eb = -2 - c as int;
    let k: nat = 100;
    rounding::lemma_scaled_shift(f, n, 1, e, k);
    let x = e - k;
    let g = (-e) as nat;
    // n * 2^k <= mb * 2^(eb - x)
    let d = (eb - x) as nat;
    power2::lemma_pow2_adds(c, d);
    power2::lemma_pow2_adds(g, k);
    power2::lemma_pow2_adds(c + d, 2);
    assert(c + d + 2 == g + k);
    let (pc, pd, pg, pk) = (
        power2::pow2(c),
        power2::pow2(d),
        power2::pow2(g),
        power2::pow2(k),
    );
    power2::lemma_pow2_pos(k);
    assert(4 * (pc * pd) == pg * pk);
    assert(n * pk <= 1 * mb * pd) by (nonlinear_arith)
        requires
            4 * n <= bound * pg,
            4 * (pc * pd) == pg * pk,
            mb == bound * pc,
            pk > 0,
    ;
    accuracy::lemma_at_most(f, n * pk, 1, x, mb, eb);
    let (m, s) = rounding::scaled(f, n, 1, e);
    accuracy::lemma_scaled_range(f, n, 1, e);
    let p = rounding::packed(f, false, m, s);
    accuracy::lemma_nearest_fits(f, false, n, 1, e);
    if m > 0 {
        lemma_rounds_down(big, m, s, mb, eb);
    } else {
        let unit = power2::pow2(1074);
        power2::lemma_pow2_pos(1074);
        assert((2 * 0nat + unit) / (2 * unit) == 0 && 0nat / unit == 0) by (nonlinear_arith)
            requires
                unit > 0,
        ;
    }
}

/// What lies at most a quarter past a whole number has at most that number for
/// its nearest one.
proof fn lemma_rounds_down(big: nat, m: nat, s: int, mb: nat, eb: int)
    requires
        0 < big <= u32::MAX,
        0 < m <= 0x20_0000_0000_0000,
        -1074 <= s,
        m < 0x10_0000_0000_0000 ==> s == -1074,
        eb == -2 - wholes::lift(ieee::double_format(), (4 * big + 1) as nat) as int,
        mb == (4 * big + 1) * power2::pow2(wholes::lift(ieee::double_format(), (4 * big + 1) as nat)),
        0x10_0000_0000_0000 <= mb < 0x20_0000_0000_0000,
        s < eb || (s == eb && m <= mb),
    ensures
        ({
            let p = rounding::packed(ieee::double_format(), false, m, s);
            rounding::truncated(
                rounding::whole(ieee::double_format(), p),
                u32::MAX as nat,
            ) <= big && p is Finite
        }),
{
    let f = ieee::double_format();
    f.lemma_bounds();
    let p = rounding::packed(f, false, m, s);
    let bound = (4 * big + 1) as nat;
    let c = wholes::lift(f, bound);
    // The packed number, at a unit below the bound's.
    let (w, v): (nat, int) = if m == 0x20_0000_0000_0000 {
        (0x10_0000_0000_0000, s + 1)
    } else {
        (m, s)
    };
    assert(p == (Number::Finite { negative: false, mantissa: w as u64, exponent: v as i32 }));
    assert(v < eb || (v == eb && w <= mb));
    let g = (-v) as nat;
    let unit = power2::pow2(g);
    power2::lemma_pow2_pos(g);
    power2::lemma_pow2_pos(c);
    // 4 * w <= bound * unit
    if v == eb {
        power2::lemma_pow2_adds(c, 2);
        power2::lemma2_to64();
        assert(g == c + 2);
        assert(4 * w <= bound * unit) by (nonlinear_arith)
            requires
                w <= mb,
                mb == bound * power2::pow2(c),
                unit == power2::pow2(c) * 4,
        ;
    } else {
        power2::lemma_pow2_adds(c, 2);
        power2::lemma_pow2_adds(c + 2, 1);
        power2::lemma2_to64();
        if g > c + 3 {
            power2::lemma_pow2_strictly_increases(c + 3, g);
        }
        assert(power2::pow2(c + 3) == 8 * power2::pow2(c));
        assert(4 * w <= bound * unit) by (nonlinear_arith)
            requires
                w <= 0x20_0000_0000_0000,
                mb >= 0x10_0000_0000_0000,
                mb == bound * power2::pow2(c),
                unit >= 8 * power2::pow2(c),
        ;
    }
    let near = (2 * w + unit) / (2 * unit);
    assert(near <= big) by (nonlinear_arith)
        requires
            near == (2 * w + unit) / (2 * unit),
            4 * w <= bound * unit,
            bound == 4 * big + 1,
            unit > 0,
    ;
    if near > 0 {
        wholes::lemma_whole(f, near);
        wholes::lemma_whole_stays(f, near, u32::MAX as nat);
    } else {
        power2::lemma_pow2_pos(1074);
        assert(0nat / power2::pow2(1074) == 0) by (nonlinear_arith)
            requires
                power2::pow2(1074) > 0,
        ;
    }
}

/// A factor is a positive number at most the ratio of the box to a side.
proof fn lemma_factor(
    width: u32,
    height: u32,
    max_width: u32,
    max_height: u32,
    enlarge: bool,
)
    ensures
        ({
            let s = resize_images::fitting_factor(width, height, max_width, max_height, enlarge);
            let f = ieee::double_format();
            &&& s.bits <= Real64::of(
                rounding::nearest(
                    f,
                    false,
                    resize_images::at_least_one(max_width) as nat,
                    resize_images::at_least_one(width) as nat,
                    0,
                ),
            ).bits
            &&& s.bits <= Real64::of(
                rounding::nearest(
                    f,
                    false,
                    resize_images::at_least_one(max_height) as nat,
                    resize_images::at_least_one(height) as nat,
                    0,
                ),
            ).bits
            &&& s.bits < 0x7ff0_0000_0000_0000
            &&& !enlarge && width <= max_width && height <= max_height && width > 0 && height > 0
                ==> s == one()
        }),
{
    let w = resize_images::at_least_one(width) as nat;
    let h = resize_images::at_least_one(height) as nat;
    let mw = resize_images::at_least_one(max_width) as nat;
    let mh = resize_images::at_least_one(max_height) as nat;
    lemma_ratio(mw, w);
    lemma_ratio(mh, h);
    lemma_ratio_bits(mw, w);
    lemma_ratio_bits(mh, h);
    if width <= max_width && height <= max_height && width > 0 && height > 0 {
        lemma_ratio_at_least_one(mw, w);
        lemma_ratio_at_least_one(mh, h);
    }
}

/// The ratio of two 32-bit numbers is a positive finite number.
proof fn lemma_ratio_bits(big: nat, side: nat)
    requires
        0 < big <= u32::MAX,
        0 < side <= u32::MAX,
    ensures
        Real64::of(rounding::nearest(ieee::double_format(), false, big, side, 0)).bits
            < 0x7ff0_0000_0000_0000,
{
    let f = ieee::double_format();
    f.lemma_bounds();
    lemma_ratio_range(big, side);
}

/// A side at a factor no greater than the ratio of the box to it stays within
/// the box.
proof fn lemma_side_fits(big: u32, side: u32, s: Real64)
    requires
        big > 0,
        s.bits < 0x7ff0_0000_0000_0000,
        s.bits <= Real64::of(
            rounding::nearest(
                ieee::double_format(),
                false,
                big as nat,
                resize_images::at_least_one(side) as nat,
                0,
            ),
        ).bits,
    ensures
        resize_images::fitted_side(side, s) <= big,
{
    let f = ieee::double_format();
    f.lemma_bounds();
    let n = resize_images::at_least_one(side) as nat;
    s.lemma_number(f);
    let m = s.number()->mantissa as nat;
    let e = s.number()->exponent as int;
    lemma_scaled_side(big as nat, n, s, m, e);
    lemma_multiple(n, s, m, e);
    reveal(Real64::rounded_spec);
    let p = rounding::nearest(f, false, n * m, 1, e);
    if m > 0 {
        assert(n * m > 0) by (nonlinear_arith)
            requires
                n > 0,
                m > 0,
        ;
        lemma_rounds_inside(big as nat, n * m, e);
        Real64::lemma_of(p, f);
        accuracy::lemma_whole_fits(f, p);
        Real64::lemma_of(rounding::whole(f, p), f);
    } else {
        assert(n * 0 == 0);
        let unit = power2::pow2(1074);
        power2::lemma_pow2_pos(1074);
        assert((2 * 0nat + unit) / (2 * unit) == 0 && 0nat / unit == 0) by (nonlinear_arith)
            requires
                unit > 0,
        ;
        Real64::lemma_of(p, f);
    }
}

/// A fitted image is inside the box it was fitted into.
pub proof fn a_fitted_image_fits_its_box(
    width: u32,
    height: u32,
    max_width: u32,
    max_height: u32,
    enlarge: bool,
)
    ensures
        ({
            let s = resize_images::fitting_factor(width, height, max_width, max_height, enlarge);
            &&& resize_images::fitted_side(width, s) <= resize_images::at_least_one(max_width)
            &&& resize_images::fitted_side(height, s) <= resize_images::at_least_one(max_height)
        }),
{
    lemma_factor(width, height, max_width, max_height, enlarge);
    let s = resize_images::fitting_factor(width, height, max_width, max_height, enlarge);
    lemma_side_fits(resize_images::at_least_one(max_width), width, s);
    lemma_side_fits(resize_images::at_least_one(max_height), height, s);
}

/// A whole number times one is itself.
proof fn lemma_side_stays(side: u32)
    requires
        side > 0,
    ensures
        resize_images::fitted_side(side, one()) == side,
{
    let f = ieee::double_format();
    f.lemma_bounds();
    power2::lemma2_to64();
    power2::lemma2_to64_rest();
    let n = side as nat;
    wholes::lemma_whole(f, n);
    wholes::lemma_whole_stays(f, n, u32::MAX as nat);
    lemma_multiple(n, one(), 0x10_0000_0000_0000, -52);
    rounding::lemma_scaled_shift(f, n, 1, 0, 52);
    assert(rounding::nearest(f, false, n * 0x10_0000_0000_0000, 1, -52) == wholes::lifted(f, n));
    reveal(Real64::rounded_spec);
    Real64::lemma_of(wholes::lifted(f, n), f);
}

/// An image that already fits keeps its size, unless smaller images are
/// enlarged.
pub proof fn a_smaller_image_keeps_its_size(
    width: u32,
    height: u32,
    max_width: u32,
    max_height: u32,
)
    requires
        0 < width <= max_width,
        0 < height <= max_height,
    ensures
        ({
            let s = resize_images::fitting_factor(width, height, max_width, max_height, false);
            &&& resize_images::fitted_side(width, s) == width
            &&& resize_images::fitted_side(height, s) == height
        }),
{
    lemma_factor(width, height, max_width, max_height, false);
    lemma_side_stays(width);
    lemma_side_stays(height);
}

/// Half a unit of the side is less than a quarter of the box's unit, the other
/// way.
proof fn lemma_quarter_short(big: nat, side: nat, m: nat, unit: nat)
    requires
        0 < big <= u32::MAX,
        0 < side <= u32::MAX,
        m >= 0x10_0000_0000_0000,
        unit >= 1,
        -(side as int) <= 2 * (m * side - big * unit) <= side,
    ensures
        4 * (side * m) >= (4 * big - 1) * unit,
{
    assert(m * side == side * m) by (nonlinear_arith);
    assert((4 * big - 1) * unit == 4 * (big * unit) - unit) by (nonlinear_arith);
    if 2 * side > unit {
        assert(side * m >= side * 0x10_0000_0000_0000) by (nonlinear_arith)
            requires
                m >= 0x10_0000_0000_0000,
        ;
        assert(big * unit <= 0xffff_ffff * (2 * side)) by (nonlinear_arith)
            requires
                big <= 0xffff_ffff,
                unit < 2 * side,
        ;
        assert(false);
    }
}

/// The ratio of a box to a side, times the side, is at most a quarter short of
/// the box.
proof fn lemma_ratio_reaches(big: nat, side: nat, s: Real64, m: nat, e: int)
    requires
        0 < big <= u32::MAX,
        0 < side <= u32::MAX,
        s == Real64::of(rounding::nearest(ieee::double_format(), false, big, side, 0)),
        s.number() == (Number::Finite { negative: false, mantissa: m as u64, exponent: e as i32 }),
        m <= u64::MAX,
        -1074 <= e <= 971,
    ensures
        e < 0,
        4 * (side * m) >= (4 * big - 1) * power2::pow2((-e) as nat),
        m > 0,
{
    let f = ieee::double_format();
    f.lemma_bounds();
    power2::lemma2_to64();
    power2::lemma2_to64_rest();
    let q = rounding::nearest(f, false, big, side, 0);
    let (mq, eq) = rounding::scaled(f, big, side, 0);
    accuracy::lemma_nearest_fits(f, false, big, side, 0);
    Real64::lemma_of(q, f);
    accuracy::rounding_is_within_half_a_unit(f, big, side, 0);
    lemma_ratio_range(big, side);
    let g = (-eq) as nat;
    let unit = power2::pow2(g);
    power2::lemma_pow2_pos(g);
    lemma_quarter_short(big, side, mq, unit);
    if mq == 0x20_0000_0000_0000 {
        let h = (g - 1) as nat;
        power2::lemma_pow2_unfold(g);
        assert(m == 0x10_0000_0000_0000 && e == eq + 1);
        assert((-e) as nat == h);
        let least = 4 * big - 1;
        assert(4 * (side * m) >= least * power2::pow2(h)) by (nonlinear_arith)
            requires
                4 * (side * mq) >= least * unit,
                unit == 2 * power2::pow2(h),
                mq == 2 * m,
        ;
    } else {
        assert(m == mq && e == eq);
    }
}

/// A multiple within a quarter of a whole number rounds to that number.
proof fn lemma_rounds_to(big: nat, n: nat, e: int)
    requires
        0 < big <= u32::MAX,
        0 < n,
        -1074 <= e < 0,
        (4 * big - 1) * power2::pow2((-e) as nat) <= 4 * n <= (4 * big + 1) * power2::pow2(
            (-e) as nat,
        ),
    ensures
        ({
            let p = rounding::nearest(ieee::double_format(), false, n, 1, e);
            rounding::truncated(
                rounding::whole(ieee::double_format(), p),
                u32::MAX as nat,
            ) == big && p is Finite && p.fits(ieee::double_format())
        }),
{
    let f = ieee::double_format();
    f.lemma_bounds();
    power2::lemma2_to64();
    power2::lemma2_to64_rest();
    lemma_rounds_inside(big, n, e);
    let bound = (4 * big - 1) as nat;
    wholes::lemma_whole(f, bound);
    let c = wholes::lift(f, bound);
    let mb = bound * power2::pow2(c);
    let eb = -2 - c as int;
    let k: nat = 100;
    rounding::lemma_scaled_shift(f, n, 1, e, k);
    let x = e - k;
    let g = (-e) as nat;
    let d = (eb - x) as nat;
    power2::lemma_pow2_adds(c, d);
    power2::lemma_pow2_adds(g, k);
    power2::lemma_pow2_adds(c + d, 2);
    assert(c + d + 2 == g + k);
    let (pc, pd, pg, pk) = (
        power2::pow2(c),
        power2::pow2(d),
        power2::pow2(g),
        power2::pow2(k),
    );
    power2::lemma_pow2_pos(k);
    assert(4 * (pc * pd) == pg * pk);
    assert(n * pk >= 1 * mb * pd) by (nonlinear_arith)
        requires
            4 * n >= bound * pg,
            4 * (pc * pd) == pg * pk,
            mb == bound * pc,
            pk > 0,
    ;
    assert(n * pk > 0) by (nonlinear_arith)
        requires
            n > 0,
            pk > 0,
    ;
    accuracy::lemma_at_least(f, n * pk, 1, x, mb, eb);
    let (m, s) = rounding::scaled(f, n, 1, e);
    accuracy::lemma_scaled_range(f, n, 1, e);
    lemma_rounds_up(big, m, s, mb, eb);
}

/// What lies at most a quarter short of a whole number has at least that number
/// for its nearest one.
proof fn lemma_rounds_up(big: nat, m: nat, s: int, mb: nat, eb: int)
    requires
        0 < big <= u32::MAX,
        0 < m <= 0x20_0000_0000_0000,
        -1074 <= s,
        m < 0x10_0000_0000_0000 ==> s == -1074,
        eb == -2 - wholes::lift(ieee::double_format(), (4 * big - 1) as nat) as int,
        mb == (4 * big - 1) * power2::pow2(wholes::lift(ieee::double_format(), (4 * big - 1) as nat)),
        0x10_0000_0000_0000 <= mb < 0x20_0000_0000_0000,
        -60 <= eb,
        s > eb || (s == eb && m >= mb),
        ({
            let p = rounding::packed(ieee::double_format(), false, m, s);
            rounding::truncated(
                rounding::whole(ieee::double_format(), p),
                u32::MAX as nat,
            ) <= big && p is Finite
        }),
    ensures
        ({
            let p = rounding::packed(ieee::double_format(), false, m, s);
            rounding::truncated(
                rounding::whole(ieee::double_format(), p),
                u32::MAX as nat,
            ) == big
        }),
{
    let f = ieee::double_format();
    f.lemma_bounds();
    let p = rounding::packed(f, false, m, s);
    let bound = (4 * big - 1) as nat;
    let c = wholes::lift(f, bound);
    let (w, v): (nat, int) = if m == 0x20_0000_0000_0000 {
        (0x10_0000_0000_0000, s + 1)
    } else {
        (m, s)
    };
    assert(p == (Number::Finite { negative: false, mantissa: w as u64, exponent: v as i32 }));
    assert(v > eb || (v == eb && w >= mb));
    if v >= 0 {
        // Read as the greatest number there is, which is then the box's side.
        power2::lemma_pow2_pos(v as nat);
        assert(w * power2::pow2(v as nat) >= w) by (nonlinear_arith)
            requires
                power2::pow2(v as nat) >= 1,
        ;
    } else {
        let g = (-v) as nat;
        let unit = power2::pow2(g);
        power2::lemma_pow2_pos(g);
        power2::lemma_pow2_unfold(g);
        power2::lemma_pow2_pos((g - 1) as nat);
        power2::lemma_pow2_pos(c);
        power2::lemma2_to64();
        power2::lemma_pow2_adds(c, 2);
        assert(power2::pow2(c + 2) == 4 * power2::pow2(c));
        // 4 * w >= bound * unit
        if v == eb {
            assert(g == c + 2);
            assert(4 * w >= bound * unit) by (nonlinear_arith)
                requires
                    w >= mb,
                    mb == bound * power2::pow2(c),
                    unit == 4 * power2::pow2(c),
            ;
        } else {
            assert(w >= 0x10_0000_0000_0000);
            power2::lemma_pow2_adds(g, 1);
            if g + 1 < c + 2 {
                power2::lemma_pow2_strictly_increases(g + 1, c + 2);
            }
            assert(4 * w >= bound * unit) by (nonlinear_arith)
                requires
                    2 * unit <= 4 * power2::pow2(c),
                    mb == bound * power2::pow2(c),
                    mb < 0x20_0000_0000_0000,
                    w >= 0x10_0000_0000_0000,
            ;
        }
        let near = (2 * w + unit) / (2 * unit);
        assert(near >= big) by (nonlinear_arith)
            requires
                near == (2 * w + unit) / (2 * unit),
                4 * w >= bound * unit,
                bound == 4 * big - 1,
                unit > 0,
        ;
        if near <= u32::MAX {
            wholes::lemma_whole(f, near);
            wholes::lemma_whole_stays(f, near, u32::MAX as nat);
        } else {
            lemma_past_the_box(near, w, unit);
        }
    }
}

/// A nearest whole number past the box is past it when it is read, too.
proof fn lemma_past_the_box(near: nat, w: nat, unit: nat)
    requires
        near > u32::MAX,
        near == (2 * w + unit) / (2 * unit),
        unit >= 2,
        w <= 0x20_0000_0000_0000,
    ensures
        rounding::truncated(
            rounding::nearest(ieee::double_format(), false, near, 1, 0),
            u32::MAX as nat,
        ) == u32::MAX,
{
    let f = ieee::double_format();
    f.lemma_bounds();
    assert(near < 0x20_0000_0000_0000) by (nonlinear_arith)
        requires
            near == (2 * w + unit) / (2 * unit),
            unit >= 2,
            w <= 0x20_0000_0000_0000,
    ;
    wholes::lemma_whole(f, near);
    let k = wholes::lift(f, near);
    let p = power2::pow2(k);
    power2::lemma_pow2_pos(k);
    power2::lemma2_to64();
    assert((near * p) / p == near) by (nonlinear_arith)
        requires
            p > 0,
    ;
}

/// A side at the ratio of the box to it is the box's own.
proof fn lemma_side_touches(big: u32, side: u32, s: Real64)
    requires
        big > 0,
        s == Real64::of(
            rounding::nearest(
                ieee::double_format(),
                false,
                big as nat,
                resize_images::at_least_one(side) as nat,
                0,
            ),
        ),
    ensures
        resize_images::fitted_side(side, s) == big,
{
    let f = ieee::double_format();
    f.lemma_bounds();
    let n = resize_images::at_least_one(side) as nat;
    lemma_ratio_bits(big as nat, n);
    s.lemma_number(f);
    let m = s.number()->mantissa as nat;
    let e = s.number()->exponent as int;
    lemma_scaled_side(big as nat, n, s, m, e);
    lemma_ratio_reaches(big as nat, n, s, m, e);
    lemma_multiple(n, s, m, e);
    reveal(Real64::rounded_spec);
    let p = rounding::nearest(f, false, n * m, 1, e);
    assert(n * m > 0) by (nonlinear_arith)
        requires
            n > 0,
            m > 0,
    ;
    lemma_rounds_to(big as nat, n * m, e);
    Real64::lemma_of(p, f);
    accuracy::lemma_whole_fits(f, p);
    Real64::lemma_of(rounding::whole(f, p), f);
}

/// The ratio of a box to a side that does not fit it is at most one.
proof fn lemma_ratio_at_most_one(a: nat, b: nat)
    requires
        0 < a <= b <= u32::MAX,
    ensures
        Real64::of(rounding::nearest(ieee::double_format(), false, a, b, 0)).bits <= one().bits,
{
    let f = ieee::double_format();
    f.lemma_bounds();
    power2::lemma2_to64();
    power2::lemma2_to64_rest();
    let unit = power2::pow2(52);
    rounding::lemma_scaled_shift(f, a, b, 0, 52);
    assert(a * unit <= b * f.low() * power2::pow2(0)) by (nonlinear_arith)
        requires
            a <= b,
            f.low() == unit,
            power2::pow2(0) == 1,
    ;
    accuracy::lemma_at_most(f, a * unit, b, -52, f.low(), -52);
    accuracy::lemma_scaled_range(f, a, b, 0);
    lemma_ratio_range(a, b);
    let (m, e) = rounding::scaled(f, a, b, 0);
    assert(e < -52 || (e == -52 && m <= f.low()));
}

/// A fitted image touches its box: it is as wide as the box or as tall, unless
/// it fits already and smaller images are not enlarged.
pub proof fn a_scaled_image_touches_its_box(
    width: u32,
    height: u32,
    max_width: u32,
    max_height: u32,
    enlarge: bool,
)
    requires
        enlarge || width > max_width || height > max_height,
    ensures
        ({
            let s = resize_images::fitting_factor(width, height, max_width, max_height, enlarge);
            ||| resize_images::fitted_side(width, s) == resize_images::at_least_one(max_width)
            ||| resize_images::fitted_side(height, s) == resize_images::at_least_one(max_height)
        }),
{
    let w = resize_images::at_least_one(width) as nat;
    let h = resize_images::at_least_one(height) as nat;
    let mw = resize_images::at_least_one(max_width) as nat;
    let mh = resize_images::at_least_one(max_height) as nat;
    lemma_ratio(mw, w);
    lemma_ratio(mh, h);
    lemma_ratio_bits(mw, w);
    lemma_ratio_bits(mh, h);
    let f = ieee::double_format();
    let across = Real64::of(rounding::nearest(f, false, mw, w, 0));
    let down = Real64::of(rounding::nearest(f, false, mh, h, 0));
    if width > max_width {
        lemma_ratio_at_most_one(mw, w);
    }
    if height > max_height {
        lemma_ratio_at_most_one(mh, h);
    }
    let s = resize_images::fitting_factor(width, height, max_width, max_height, enlarge);
    assert(s == across || s == down);
    if s == across {
        lemma_side_touches(mw as u32, width, s);
    } else {
        lemma_side_touches(mh as u32, height, s);
    }
}

} // verus!

//! What converting a length promises: a trip to another unit and back is off by
//! at most a few parts in 2^53, far too little to be seen, so a document keeps
//! its pixels when the unit it is measured in changes.

use crate::closeness;
use crate::dialogs::new_document;
use crate::dialogs::new_document::NewDocumentModel;
use crate::dialogs::units;
use crate::dialogs::units::{ResolutionUnit, Unit};
use crate::ieee;
use crate::ieee::Real64;
use crate::rounding;
use crate::wholes;
use vstd::arithmetic::power2;
use vstd::prelude::*;

verus! {

/// A number well inside the range of double precision: its size lies between
/// 2^-348 and 2^453.
pub open spec fn ordinary(a: Real64) -> bool {
    closeness::plain(a) && -400 <= closeness::scale(a) <= 400
}

/// The two numbers have the same sign and differ by at most five parts in 2^53.
pub open spec fn nearly(a: Real64, b: Real64) -> bool {
    &&& closeness::plain(b)
    &&& a.number().negative() == b.number().negative()
    &&& closeness::within(closeness::steps(a), closeness::steps(b), 5)
}

/// What a unit is in inches is a number of full precision.
proof fn lemma_inches(unit: Unit)
    requires
        unit.inches() is Some,
    ensures
        closeness::plain(unit.inches()->0),
        !unit.inches()->0.number().negative(),
        -59 <= closeness::scale(unit.inches()->0) <= -52,
{
}

/// A length in a physical unit, turned to pixels and back, is the length it
/// was.
pub proof fn a_length_survives_the_trip_to_pixels(
    unit: Unit,
    value: Real64,
    ppi: Real64,
    reference_px: Real64,
)
    requires
        unit.inches() is Some,
        ordinary(value),
        ordinary(units::usable_ppi(ppi)),
    ensures
        nearly(value, unit.length(unit.pixels(value, ppi, reference_px), ppi, reference_px)),
{
    let by = unit.inches()->0;
    let over = units::usable_ppi(ppi);
    lemma_inches(unit);
    closeness::lemma_plain(by);
    closeness::lemma_plain(over);
    closeness::lemma_product(by, value);
    let a = by.times_spec(value);
    closeness::lemma_product(a, over);
    let b = a.times_spec(over);
    closeness::lemma_quotient(b, over);
    let c = b.over_spec(over);
    closeness::lemma_quotient(c, by);
    let w = c.over_spec(by);
    let one = closeness::unity();
    closeness::lemma_there_and_back(
        closeness::steps(value),
        closeness::steps(a),
        closeness::steps(b),
        closeness::steps(c),
        closeness::steps(w),
        closeness::steps(by),
        one,
        closeness::steps(over),
        one,
    );
}

/// A percentage, turned to pixels of its reference and back, is the percentage
/// it was.
pub proof fn a_percentage_survives_the_trip_to_pixels(
    value: Real64,
    ppi: Real64,
    reference_px: Real64,
)
    requires
        ordinary(value),
        ordinary(reference_px),
        !reference_px.size_spec().below(Real64 { bits: 0x3cb0_0000_0000_0000 }),
    ensures
        nearly(
            value,
            Unit::Percent.length(
                Unit::Percent.pixels(value, ppi, reference_px),
                ppi,
                reference_px,
            ),
        ),
{
    let hundred = Real64 { bits: 0x4059_0000_0000_0000 };
    let over = reference_px;
    assert(closeness::plain(hundred) && closeness::scale(hundred) == -46);
    closeness::lemma_plain(over);
    closeness::lemma_quotient(value, hundred);
    let a = value.over_spec(hundred);
    closeness::lemma_product(a, over);
    let b = a.times_spec(over);
    closeness::lemma_quotient(b, over);
    let c = b.over_spec(over);
    closeness::lemma_product(c, hundred);
    let w = c.times_spec(hundred);
    let one = closeness::unity();
    power2::lemma_pow2_pos(1074);
    let v = closeness::steps(value);
    assert(one * v == v * one) by (nonlinear_arith);
    closeness::lemma_there_and_back(
        v,
        closeness::steps(a),
        closeness::steps(b),
        closeness::steps(c),
        closeness::steps(w),
        one,
        closeness::steps(hundred),
        closeness::steps(over),
        one,
    );
}

/// A pixel count, turned to a unit and back, is the pixel count it was: a size
/// field does not move the size by being shown in another unit.
pub proof fn a_pixel_count_survives_the_trip_to_a_unit(
    unit: Unit,
    px: Real64,
    ppi: Real64,
    reference_px: Real64,
)
    requires
        unit != Unit::Percent,
        ordinary(px),
        ordinary(units::usable_ppi(ppi)),
    ensures
        nearly(px, unit.pixels(unit.length(px, ppi, reference_px), ppi, reference_px)),
{
    if unit.inches() is Some {
        let by = unit.inches()->0;
        let over = units::usable_ppi(ppi);
        lemma_inches(unit);
        closeness::lemma_plain(by);
        closeness::lemma_plain(over);
        closeness::lemma_quotient(px, over);
        let a = px.over_spec(over);
        closeness::lemma_quotient(a, by);
        let b = a.over_spec(by);
        closeness::lemma_product(by, b);
        let c = by.times_spec(b);
        closeness::lemma_product(c, over);
        let w = c.times_spec(over);
        let one = closeness::unity();
        power2::lemma_pow2_pos(1074);
        let v = closeness::steps(px);
        let (sb, su) = (closeness::steps(b), closeness::steps(by));
        assert(one * v == v * one) by (nonlinear_arith);
        assert(su * sb == sb * su) by (nonlinear_arith);
        closeness::lemma_there_and_back(
            v,
            closeness::steps(a),
            sb,
            closeness::steps(c),
            closeness::steps(w),
            one,
            closeness::steps(over),
            one,
            su,
        );
    }
}

/// A resolution, turned to another unit and back, is the resolution it was.
pub proof fn a_resolution_survives_a_change_of_unit(unit: ResolutionUnit, ppi: Real64)
    requires
        ordinary(ppi),
    ensures
        nearly(ppi, unit.per_inch(unit.of_inch(ppi))),
        nearly(ppi, unit.of_inch(unit.per_inch(ppi))),
{
    if unit == ResolutionUnit::PerCentimeter {
        let per = Real64 { bits: 0x4004_51eb_851e_b852 };
        assert(closeness::plain(per) && closeness::scale(per) == -51);
        closeness::lemma_plain(per);
        let one = closeness::unity();
        power2::lemma_pow2_pos(1074);
        let v = closeness::steps(ppi);
        let p = closeness::steps(per);
        assert(one * v == v * one && p * v == v * p) by (nonlinear_arith);
        closeness::lemma_quotient(ppi, per);
        let a = ppi.over_spec(per);
        closeness::lemma_product(a, per);
        let s = closeness::steps(a);
        let w = closeness::steps(a.times_spec(per));
        closeness::lemma_there_and_back(v, s, s, s, w, one, p, 1, 1);
        closeness::lemma_product(ppi, per);
        let a = ppi.times_spec(per);
        closeness::lemma_quotient(a, per);
        let s = closeness::steps(a);
        let w = closeness::steps(a.over_spec(per));
        closeness::lemma_there_and_back(v, s, s, s, w, p, one, 1, 1);
    }
}

/// A size that rounds to `w` whole pixels, and is further from half a pixel,
/// and from less than one, than a conversion can move it.
pub open spec fn settles_at(px: Real64, w: nat) -> bool {
    let size = closeness::steps(px);
    let one = closeness::unity();
    let t = closeness::parts();
    &&& !px.number().negative()
    &&& 1 <= w <= u32::MAX
    &&& size * (t - 5) >= one * t
    &&& 2 * (size - w * one) * t + 10 * size < one * t
    &&& 2 * (w * one - size) * t + 10 * size < one * t
}

/// A size that is less than one pixel by more than a conversion can move it.
pub open spec fn is_no_pixel(px: Real64) -> bool {
    px.number().negative() || closeness::steps(px) * (closeness::parts() + 5)
        < closeness::unity() * closeness::parts()
}

/// A number of at least one is not below one, and the other way round.
pub proof fn lemma_one(a: Real64)
    requires
        closeness::plain(a),
    ensures
        a.number().negative() ==> a.below(Real64 { bits: 0x3ff0_0000_0000_0000 }),
        !a.number().negative() ==> (a.below(Real64 { bits: 0x3ff0_0000_0000_0000 })
            == (closeness::steps(a) < closeness::unity())),
{
    let one = Real64 { bits: 0x3ff0_0000_0000_0000 };
    let m = a.number()->mantissa as nat;
    let e = closeness::scale(a);
    a.lemma_number(ieee::double_format());
    closeness::lemma_plain(a);
    power2::lemma2_to64();
    power2::lemma2_to64_rest();
    power2::lemma_pow2_adds(1022, 52);
    power2::lemma_pow2_adds(1021, 53);
    let k = (e + 1074) as nat;
    let p = power2::pow2(k);
    if e >= -52 {
        if k > 1022 {
            power2::lemma_pow2_strictly_increases(1022, k);
        }
        let base = power2::pow2(1022);
        assert(m * p >= base * 0x10_0000_0000_0000) by (nonlinear_arith)
            requires
                m >= 0x10_0000_0000_0000,
                p >= base,
        ;
    } else {
        if k < 1021 {
            power2::lemma_pow2_strictly_increases(k, 1021);
        }
        let base = power2::pow2(1021);
        power2::lemma_pow2_pos(1021);
        assert(m * p < base * 0x20_0000_0000_0000) by (nonlinear_arith)
            requires
                m < 0x20_0000_0000_0000,
                p <= base,
                base > 0,
        ;
    }
}

/// What lies within half a pixel of a whole number rounds to that number.
pub proof fn lemma_rounds_to(a: Real64, w: nat)
    requires
        closeness::plain(a),
        !a.number().negative(),
        1 <= w <= u32::MAX,
        2 * (closeness::steps(a) - w * closeness::unity()) < closeness::unity(),
        2 * (w * closeness::unity() - closeness::steps(a)) < closeness::unity(),
    ensures
        rounding::truncated(a.rounded_spec().number(), u32::MAX as nat) == w,
{
    let f = ieee::double_format();
    let one = closeness::unity();
    let m = a.number()->mantissa as nat;
    let e = closeness::scale(a);
    let k = (e + 1074) as nat;
    let p = power2::pow2(k);
    power2::lemma2_to64();
    power2::lemma2_to64_rest();
    power2::lemma_pow2_pos(1074);
    power2::lemma_pow2_pos(k);
    if e >= 0 {
        if e > 0 {
            power2::lemma_pow2_strictly_increases(1074, k);
        }
        assert(m * p >= 0x10_0000_0000_0000 * one) by (nonlinear_arith)
            requires
                m >= 0x10_0000_0000_0000,
                p >= one,
        ;
        assert(w * one <= 0xffff_ffff * one) by (nonlinear_arith)
            requires
                w <= 0xffff_ffff,
        ;
        assert(false);
    }
    let g = (-e) as nat;
    let unit = power2::pow2(g);
    power2::lemma_pow2_pos(g);
    power2::lemma_pow2_adds(g, k);
    assert(one == unit * p);
    // Back to the number's own unit.
    assert(w * (unit * p) == (w * unit) * p) by (nonlinear_arith);
    assert(2 * (m - w * unit) < unit) by (nonlinear_arith)
        requires
            2 * (m * p - (w * unit) * p) < unit * p,
            p > 0,
    ;
    assert(2 * (w * unit - m) < unit) by (nonlinear_arith)
        requires
            2 * ((w * unit) * p - m * p) < unit * p,
            p > 0,
    ;
    assert((2 * m + unit) / (2 * unit) == w) by (nonlinear_arith)
        requires
            2 * (m - w * unit) < unit,
            2 * (w * unit - m) < unit,
            unit > 0,
    ;
    reveal(Real64::rounded_spec);
    wholes::lemma_whole(f, w);
    wholes::lemma_whole_stays(f, w, u32::MAX as nat);
    assert(rounding::whole(f, a.number()) == wholes::lifted(f, w));
    Real64::lemma_of(wholes::lifted(f, w), f);
}

/// A nearby size has as many pixels.
proof fn lemma_same_pixels(px: Real64, other: Real64, w: nat)
    requires
        closeness::plain(px),
        nearly(px, other),
        settles_at(px, w),
    ensures
        px.finite() && !px.below(Real64 { bits: 0x3ff0_0000_0000_0000 }),
        other.finite() && !other.below(Real64 { bits: 0x3ff0_0000_0000_0000 }),
        rounding::truncated(px.rounded_spec().number(), u32::MAX as nat) == w,
        rounding::truncated(other.rounded_spec().number(), u32::MAX as nat) == w,
{
    let a = closeness::steps(px);
    let b = closeness::steps(other);
    let one = closeness::unity();
    let t = closeness::parts();
    closeness::lemma_plain(px);
    closeness::lemma_plain(other);
    power2::lemma_pow2_pos(1074);
    assert(a * (t - 5) == a * t - 5 * a && (b - a) * t == b * t - a * t) by (nonlinear_arith);
    assert(a >= one && b >= one) by (nonlinear_arith)
        requires
            a * t - 5 * a >= one * t,
            b * t - a * t >= -5 * a,
            t > 0,
    ;
    lemma_one(px);
    lemma_one(other);
    lemma_rounds_to(px, w);
    lemma_rounds_to(other, w);
}

/// Nearby sizes of no pixel are both none.
proof fn lemma_no_pixels(px: Real64, other: Real64)
    requires
        closeness::plain(px),
        nearly(px, other),
        is_no_pixel(px),
    ensures
        px.below(Real64 { bits: 0x3ff0_0000_0000_0000 }),
        other.below(Real64 { bits: 0x3ff0_0000_0000_0000 }),
{
    let a = closeness::steps(px);
    let b = closeness::steps(other);
    let one = closeness::unity();
    let t = closeness::parts();
    lemma_one(px);
    lemma_one(other);
    if !px.number().negative() {
        assert(a * (t + 5) == a * t + 5 * a && (b - a) * t == b * t - a * t) by (nonlinear_arith);
        assert(a < one && b < one) by (nonlinear_arith)
            requires
                a * t + 5 * a < one * t,
                b * t - a * t <= 5 * a,
                t > 0,
        ;
    }
}

/// A whole number of pixels, from two up, settles where it is.
pub proof fn a_whole_size_settles(n: nat)
    requires
        2 <= n <= u32::MAX,
    ensures
        settles_at(Real64::of_whole(n), n),
        ordinary(Real64::of_whole(n)),
{
    let f = ieee::double_format();
    f.lemma_bounds();
    reveal(Real64::of_whole);
    wholes::lemma_whole(f, n);
    Real64::lemma_of(wholes::lifted(f, n), f);
    let k = wholes::lift(f, n);
    let one = closeness::unity();
    power2::lemma_pow2_pos(1074);
    power2::lemma_pow2_adds(k, (1074 - k) as nat);
    let (p, q) = (power2::pow2(k), power2::pow2((1074 - k) as nat));
    assert((n * p) * q == n * one) by (nonlinear_arith)
        requires
            one == p * q,
    ;
    assert(2 * one <= n * one <= 0xffff_ffff * one) by (nonlinear_arith)
        requires
            2 <= n <= 0xffff_ffff,
    ;
    let size = closeness::steps(Real64::of_whole(n));
    let t = closeness::parts();
    assert(size == n * one);
    assert(size * (t - 5) >= one * t);
    assert(2 * (size - n * one) * t == 0) by (nonlinear_arith)
        requires
            size == n * one,
    ;
    assert(2 * (n * one - size) * t == 0) by (nonlinear_arith)
        requires
            size == n * one,
    ;
}

/// A side whose conversion cannot change how many pixels it has: it settles at
/// a whole number of them, or it is no pixel at all.
pub open spec fn side_is_steady(value: Real64, unit: Unit, ppi: Real64) -> bool {
    let px = unit.pixels(value, ppi, Real64 { bits: 0 });
    ordinary(px) && (is_no_pixel(px) || exists|w: nat| settles_at(px, w))
}

proof fn lemma_steady_side(value: Real64, from: Unit, to: Unit, ppi: Real64)
    requires
        to != Unit::Percent,
        ordinary(units::usable_ppi(ppi)),
        side_is_steady(value, from, ppi),
    ensures
        ({
            let zero = Real64 { bits: 0 };
            let px = from.pixels(value, ppi, zero);
            new_document::whole_pixels(to.length(px, ppi, zero), to, ppi)
                == new_document::whole_pixels(value, from, ppi)
        }),
{
    let zero = Real64 { bits: 0 };
    let px = from.pixels(value, ppi, zero);
    let other = to.pixels(to.length(px, ppi, zero), ppi, zero);
    a_pixel_count_survives_the_trip_to_a_unit(to, px, ppi, zero);
    if is_no_pixel(px) {
        lemma_no_pixels(px, other);
    } else {
        let w = choose|w: nat| settles_at(px, w);
        lemma_same_pixels(px, other, w);
    }
}

/// Switching the unit the size is typed in does not resize the document.
pub proof fn switching_units_keeps_the_pixel_size(m: NewDocumentModel, unit: Unit)
    requires
        unit != Unit::Percent,
        ordinary(units::usable_ppi(m.ppi())),
        side_is_steady(m.width, m.unit, m.ppi()),
        side_is_steady(m.height, m.unit, m.ppi()),
    ensures
        m.with_unit(unit).request() == m.request(),
{
    lemma_steady_side(m.width, m.unit, unit, m.ppi());
    lemma_steady_side(m.height, m.unit, unit, m.ppi());
}

/// Switching the unit the resolution is typed in keeps the resolution.
pub proof fn switching_the_resolution_unit_keeps_the_resolution(
    m: NewDocumentModel,
    unit: ResolutionUnit,
)
    requires
        ordinary(m.ppi()),
    ensures
        nearly(m.ppi(), m.with_resolution_unit(unit).ppi()),
        m.with_resolution_unit(unit).unit == m.unit,
        m.with_resolution_unit(unit).width == m.width,
        m.with_resolution_unit(unit).height == m.height,
{
    a_resolution_survives_a_change_of_unit(unit, m.ppi());
}

} // verus!

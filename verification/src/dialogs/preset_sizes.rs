//! What a preset of the New Document dialog promises: the document it describes
//! has the preset's size and resolution, whatever unit the resolution is shown
//! in.

use crate::closeness;
use crate::dialogs::conversions;
use crate::dialogs::new_document;
use crate::dialogs::new_document::{
    BackgroundContents, DocumentPreset, NewDocumentModel, PresetGroup,
};
use crate::dialogs::units;
use crate::dialogs::units::{ResolutionUnit, Unit};
use crate::ieee::Real64;
use crate::wholes;
use vstd::arithmetic::power2;
use vstd::prelude::*;

verus! {

/// A preset's resolution is the document's, whatever unit it is shown in.
pub proof fn a_preset_sets_its_resolution(m: NewDocumentModel, index: int)
    requires
        DocumentPreset::listed(index) is Some,
    ensures
        conversions::nearly(DocumentPreset::listed(index)->0.ppi, m.with_preset(index).ppi()),
        m.with_preset(index).resolution_unit == m.resolution_unit,
        m.resolution_unit == ResolutionUnit::PerInch ==> m.with_preset(index).ppi()
            == DocumentPreset::listed(index)->0.ppi,
{
    let ppi = DocumentPreset::listed(index)->0.ppi;
    lemma_resolutions();
    conversions::a_resolution_survives_a_change_of_unit(m.resolution_unit, ppi);
}

proof fn lemma_resolutions()
    ensures
        conversions::ordinary(Real64 { bits: 0x4052_0000_0000_0000 }),
        conversions::ordinary(Real64 { bits: 0x4072_c000_0000_0000 }),
        closeness::scale(Real64 { bits: 0x4072_c000_0000_0000 }) == -44,
        closeness::steps(Real64 { bits: 0x4072_c000_0000_0000 }) == 300 * closeness::unity(),
{
    let a = Real64 { bits: 0x4072_c000_0000_0000 };
    assert(a.number()->mantissa == 0x12_c000_0000_0000);
    power2::lemma2_to64();
    power2::lemma2_to64_rest();
    power2::lemma_pow2_adds(1030, 44);
    let p = power2::pow2(1030);
    assert(0x12_c000_0000_0000 * p == 300 * (p * 0x1000_0000_0000)) by (nonlinear_arith);
}

/// 300 pixels per inch, shown in either unit, is in use as it is.
proof fn lemma_print_resolution(unit: ResolutionUnit)
    ensures
        ({
            let print = Real64 { bits: 0x4072_c000_0000_0000 };
            let ppi = unit.per_inch(unit.of_inch(print));
            &&& units::usable_ppi(ppi) == ppi
            &&& conversions::nearly(print, ppi)
            &&& -45 <= closeness::scale(ppi) <= -41
            &&& !ppi.number().negative()
        }),
{
    let print = Real64 { bits: 0x4072_c000_0000_0000 };
    lemma_resolutions();
    conversions::a_resolution_survives_a_change_of_unit(unit, print);
    let ppi = unit.per_inch(unit.of_inch(print));
    if unit == ResolutionUnit::PerCentimeter {
        let per = Real64 { bits: 0x4004_51eb_851e_b852 };
        assert(closeness::plain(per) && closeness::scale(per) == -51);
        closeness::lemma_quotient(print, per);
        let a = print.over_spec(per);
        closeness::lemma_product(a, per);
    }
    closeness::lemma_plain(ppi);
}

/// A bound through two products and a nearby resolution.
proof fn lemma_above(x: nat, a: nat, p: nat, b: nat, v: nat, r: nat, one: nat)
    requires
        one > 0,
        ({
            let t = closeness::parts();
            &&& (a * one) * (t - 1) <= (b * v) * t
            &&& (x * one) * (t - 1) <= (a * p) * t
            &&& p * t <= r * (t + 5)
        }),
    ensures
        ({
            let t = closeness::parts();
            (x * one * one) * ((t - 1) * (t - 1)) <= (b * v * r) * (t * (t + 5))
        }),
{
    let t = closeness::parts() as int;
    let s = t - 1;
    let k = t + 5;
    let (ao, bv) = (a * one, b * v);
    // x one one s s <= a p t one s = (a one s) p t <= bv t p t <= bv t r k
    assert(((x * one) * s) * (one * s) <= ((a * p) * t) * (one * s)) by (nonlinear_arith)
        requires
            (x * one) * s <= (a * p) * t,
            one >= 0,
            s >= 0,
    ;
    assert(((a * p) * t) * (one * s) == (ao * s) * (p * t)) by (nonlinear_arith)
        requires
            ao == a * one,
    ;
    assert((ao * s) * (p * t) <= (bv * t) * (p * t)) by (nonlinear_arith)
        requires
            ao * s <= bv * t,
            p >= 0,
            t >= 0,
    ;
    assert((bv * t) * (p * t) <= (bv * t) * (r * k)) by (nonlinear_arith)
        requires
            p * t <= r * k,
            bv >= 0,
            t >= 0,
    ;
    assert((bv * t) * (r * k) == (bv * r) * (t * k)) by (nonlinear_arith);
    assert(((x * one) * s) * (one * s) == (x * one * one) * (s * s)) by (nonlinear_arith);
}

/// The same bound from below.
proof fn lemma_below(x: nat, a: nat, p: nat, b: nat, v: nat, r: nat, one: nat)
    requires
        one > 0,
        ({
            let t = closeness::parts();
            &&& (b * v) * t <= (a * one) * (t + 1)
            &&& (a * p) * t <= (x * one) * (t + 1)
            &&& r * (t - 5) <= p * t
        }),
    ensures
        ({
            let t = closeness::parts();
            (b * v * r) * (t * (t - 5)) <= (x * one * one) * ((t + 1) * (t + 1))
        }),
{
    let t = closeness::parts() as int;
    let s = t + 1;
    let k = t - 5;
    let (ao, bv) = (a * one, b * v);
    assert((bv * t) * (r * k) <= (bv * t) * (p * t)) by (nonlinear_arith)
        requires
            r * k <= p * t,
            bv >= 0,
            t >= 0,
    ;
    assert((bv * t) * (p * t) <= (ao * s) * (p * t)) by (nonlinear_arith)
        requires
            bv * t <= ao * s,
            p >= 0,
            t >= 0,
    ;
    assert((ao * s) * (p * t) == ((a * p) * t) * (one * s)) by (nonlinear_arith)
        requires
            ao == a * one,
    ;
    assert(((a * p) * t) * (one * s) <= ((x * one) * s) * (one * s)) by (nonlinear_arith)
        requires
            (a * p) * t <= (x * one) * s,
            one >= 0,
            s >= 0,
    ;
    assert((bv * t) * (r * k) == (bv * r) * (t * k)) by (nonlinear_arith);
    assert(((x * one) * s) * (one * s) == (x * one * one) * (s * s)) by (nonlinear_arith);
}

/// A printed length at 300 pixels per inch: `twice` halves of a unit that is
/// `m` times `2^-k` inches.
proof fn lemma_printed(
    unit: Unit,
    value: Real64,
    twice: nat,
    resolution: ResolutionUnit,
    m: nat,
    k: nat,
    w: nat,
    far: int,
    above: int,
    below: int,
)
    requires
        unit.inches() is Some,
        closeness::plain(unit.inches()->0),
        !unit.inches()->0.number().negative(),
        -59 <= closeness::scale(unit.inches()->0) <= -52,
        closeness::steps(unit.inches()->0) * power2::pow2(k) == m * closeness::unity(),
        closeness::plain(value),
        !value.number().negative(),
        -60 <= closeness::scale(value) <= 0,
        2 * closeness::steps(value) == twice * closeness::unity(),
        2 <= w <= u32::MAX,
        far == m * twice * 300,
        above == (2 * w + 1) * power2::pow2(k),
        below == (2 * w - 1) * power2::pow2(k),
        far * 0x20_0000_0000_0008 < above * 0x20_0000_0000_0000,
        far * 0x1f_ffff_ffff_fff8 > below * 0x20_0000_0000_0000,
    ensures
        new_document::whole_pixels(
            value,
            unit,
            resolution.per_inch(resolution.of_inch(Real64 { bits: 0x4072_c000_0000_0000 })),
        ) == w,
{
    let print = Real64 { bits: 0x4072_c000_0000_0000 };
    let ppi = resolution.per_inch(resolution.of_inch(print));
    let by = unit.inches()->0;
    lemma_resolutions();
    lemma_print_resolution(resolution);
    closeness::lemma_product(by, value);
    let a = by.times_spec(value);
    closeness::lemma_product(a, ppi);
    let px = a.times_spec(ppi);
    let one = closeness::unity();
    power2::lemma_pow2_pos(1074);
    power2::lemma_pow2_pos(k);
    let t = closeness::parts();
    let (x, sa, p, b, v, r) = (
        closeness::steps(px),
        closeness::steps(a),
        closeness::steps(ppi),
        closeness::steps(by),
        closeness::steps(value),
        closeness::steps(print),
    );
    assert(r * (t + 5) == r * t + 5 * r && r * (t - 5) == r * t - 5 * r && (p - r) * t == p * t - r
        * t) by (nonlinear_arith);
    lemma_above(x, sa, p, b, v, r, one);
    lemma_below(x, sa, p, b, v, r, one);
    // In units of one: x 2^(k + 1) against m twice 300.
    let u = power2::pow2(k);
    let cube = one * one * one;
    assert((b * v * r) * (2 * u) == far * cube) by (nonlinear_arith)
        requires
            b * u == m * one,
            2 * v == twice * one,
            r == 300 * one,
            far == m * twice * 300,
            cube == one * one * one,
    {
        let e = b * u;
        assert((b * v * r) * (2 * u) == e * (2 * v) * r);
        assert(e * (2 * v) * r == (m * one) * (twice * one) * (300 * one));
        assert((m * one) * (twice * one) * (300 * one) == (m * twice * 300) * (one * one * one));
    }
    let (high, low) = (t * (t + 5), t * (t - 5));
    let (less, more) = (((t - 1) * (t - 1)), ((t + 1) * (t + 1)));
    assert(more > 0 && less > 0) by (nonlinear_arith)
        requires
            more == (t + 1) * (t + 1),
            less == (t - 1) * (t - 1),
            t > 1,
    ;
    let product = (b * v * r) as int;
    assert(far >= 0) by (nonlinear_arith)
        requires
            far == m * twice * 300,
            m >= 0,
            twice >= 0,
    ;
    lemma_leeway(far, above, below);
    lemma_doubled(far, u as int, w as int, high as int, low as int, less as int, more as int);
    lemma_share_above(
        x as int,
        one as int,
        less as int,
        product,
        high as int,
        u as int,
        far,
        w as int,
    );
    lemma_share_below(
        x as int,
        one as int,
        more as int,
        product,
        low as int,
        u as int,
        far,
        w as int,
    );
    conversions::lemma_one(px);
    closeness::lemma_plain(px);
    assert(x >= one) by (nonlinear_arith)
        requires
            2 * x > (2 * w - 1) * one,
            w >= 2,
            one > 0,
    ;
    assert(w * one * 2 == 2 * (w * one) && (2 * w + 1) * one == 2 * (w * one) + one && (2 * w - 1)
        * one == 2 * (w * one) - one) by (nonlinear_arith);
    conversions::lemma_rounds_to(px, w);
}

proof fn lemma_doubled(far: int, u: int, w: int, high: int, low: int, less: int, more: int)
    requires
        far * high < ((2 * w + 1) * u) * less,
        far * low > ((2 * w - 1) * u) * more,
    ensures
        2 * (far * high) < (2 * w + 1) * (2 * u * less),
        2 * (far * low) > (2 * w - 1) * (2 * u * more),
{
    assert((2 * w + 1) * (2 * u * less) == 2 * (((2 * w + 1) * u) * less)) by (nonlinear_arith);
    assert((2 * w - 1) * (2 * u * more) == 2 * (((2 * w - 1) * u) * more)) by (nonlinear_arith);
}

/// Eight parts of leeway are more than the roundings need.
proof fn lemma_leeway(far: int, above: int, below: int)
    requires
        far >= 0,
        ({
            &&& far * 0x20_0000_0000_0008 < above * 0x20_0000_0000_0000
            &&& far * 0x1f_ffff_ffff_fff8 > below * 0x20_0000_0000_0000
        }),
    ensures
        ({
            let t = closeness::parts();
            &&& far * (t * (t + 5)) < above * ((t - 1) * (t - 1))
            &&& far * (t * (t - 5)) > below * ((t + 1) * (t + 1))
        }),
{
    let t = 0x20_0000_0000_0000int;
    let (high, less) = (t * (t + 5), (t - 1) * (t - 1));
    let (low, more) = (t * (t - 5), (t + 1) * (t + 1));
    assert(high * t <= (t + 8) * less && low * t >= (t - 8) * more && less > 0 && more > 0);
    assert(far * high < above * less) by (nonlinear_arith)
        requires
            far * (t + 8) < above * t,
            high * t <= (t + 8) * less,
            less > 0,
            far >= 0,
            t > 0,
    {
        assert((far * (t + 8)) * less < (above * t) * less);
        assert(far * (high * t) <= far * ((t + 8) * less));
        assert((far * high) * t < (above * less) * t);
    }
    assert(far * low > below * more) by (nonlinear_arith)
        requires
            far * (t - 8) > below * t,
            low * t >= (t - 8) * more,
            more > 0,
            far >= 0,
            t > 0,
    {
        assert((far * (t - 8)) * more > (below * t) * more);
        assert(far * (low * t) >= far * ((t - 8) * more));
        assert((far * low) * t > (below * more) * t);
    }
}

proof fn lemma_share_above(
    x: int,
    one: int,
    less: int,
    product: int,
    high: int,
    u: int,
    far: int,
    w: int,
)
    requires
        one > 0,
        u > 0,
        less > 0,
        x >= 0,
        (x * one * one) * less <= product * high,
        product * (2 * u) == far * (one * one * one),
        2 * (far * high) < (2 * w + 1) * (2 * u * less),
    ensures
        2 * x < (2 * w + 1) * one,
{
    let d = 2 * u;
    let square = one * one;
    assert(square > 0) by (nonlinear_arith)
        requires
            square == one * one,
            one > 0,
    ;
    assert(((x * one * one) * less) * d <= (product * high) * d) by (nonlinear_arith)
        requires
            (x * one * one) * less <= product * high,
            d > 0,
    ;
    assert((product * high) * d == (far * high) * (one * square)) by (nonlinear_arith)
        requires
            product * d == far * (one * one * one),
            square == one * one,
    {
        assert((product * high) * d == (product * d) * high);
        assert((far * (one * one * one)) * high == (far * high) * (one * (one * one)));
    }
    assert(((x * one * one) * less) * d == (x * (less * d)) * square) by (nonlinear_arith)
        requires
            square == one * one,
    ;
    let fh = far * high;
    assert(x * (less * d) <= fh * one) by (nonlinear_arith)
        requires
            (x * (less * d)) * square <= fh * (one * square),
            square > 0,
    {
        assert(fh * (one * square) == (fh * one) * square);
    }
    let ld = less * d;
    assert(ld > 0 && 2 * u * less == ld) by (nonlinear_arith)
        requires
            ld == less * d,
            d == 2 * u,
            less > 0,
            u > 0,
    ;
    assert(2 * x < (2 * w + 1) * one) by (nonlinear_arith)
        requires
            x * ld <= fh * one,
            2 * fh < (2 * w + 1) * ld,
            ld > 0,
            one > 0,
    {
        assert(2 * (x * ld) <= (2 * fh) * one);
        assert((2 * fh) * one < ((2 * w + 1) * ld) * one);
        assert(((2 * w + 1) * ld) * one == ((2 * w + 1) * one) * ld);
        assert((2 * x) * ld < ((2 * w + 1) * one) * ld);
    }
}

proof fn lemma_share_below(
    x: int,
    one: int,
    more: int,
    product: int,
    low: int,
    u: int,
    far: int,
    w: int,
)
    requires
        one > 0,
        u > 0,
        more > 0,
        x >= 0,
        product * low <= (x * one * one) * more,
        product * (2 * u) == far * (one * one * one),
        2 * (far * low) > (2 * w - 1) * (2 * u * more),
    ensures
        2 * x > (2 * w - 1) * one,
{
    let d = 2 * u;
    let square = one * one;
    assert(square > 0) by (nonlinear_arith)
        requires
            square == one * one,
            one > 0,
    ;
    assert((product * low) * d <= ((x * one * one) * more) * d) by (nonlinear_arith)
        requires
            product * low <= (x * one * one) * more,
            d > 0,
    ;
    assert((product * low) * d == (far * low) * (one * square)) by (nonlinear_arith)
        requires
            product * d == far * (one * one * one),
            square == one * one,
    {
        assert((product * low) * d == (product * d) * low);
        assert((far * (one * one * one)) * low == (far * low) * (one * (one * one)));
    }
    assert(((x * one * one) * more) * d == (x * (more * d)) * square) by (nonlinear_arith)
        requires
            square == one * one,
    ;
    let fl = far * low;
    assert(fl * one <= x * (more * d)) by (nonlinear_arith)
        requires
            fl * (one * square) <= (x * (more * d)) * square,
            square > 0,
    {
        assert(fl * (one * square) == (fl * one) * square);
    }
    let md = more * d;
    assert(md > 0 && 2 * u * more == md) by (nonlinear_arith)
        requires
            md == more * d,
            d == 2 * u,
            more > 0,
            u > 0,
    ;
    assert(2 * x > (2 * w - 1) * one) by (nonlinear_arith)
        requires
            fl * one <= x * md,
            2 * fl > (2 * w - 1) * md,
            md > 0,
            one > 0,
    {
        assert((2 * fl) * one <= 2 * (x * md));
        assert((2 * fl) * one > ((2 * w - 1) * md) * one);
        assert(((2 * w - 1) * md) * one == ((2 * w - 1) * one) * md);
        assert((2 * x) * md > ((2 * w - 1) * one) * md);
    }
}

/// A whole number of units.
proof fn lemma_units(n: nat)
    requires
        2 <= n <= 0xffff,
    ensures
        closeness::plain(Real64::of_whole(n)),
        !Real64::of_whole(n).number().negative(),
        -60 <= closeness::scale(Real64::of_whole(n)) <= 0,
        closeness::steps(Real64::of_whole(n)) == n * closeness::unity(),
{
    let f = crate::ieee::double_format();
    f.lemma_bounds();
    reveal(Real64::of_whole);
    wholes::lemma_whole(f, n);
    Real64::lemma_of(wholes::lifted(f, n), f);
    let k = wholes::lift(f, n);
    power2::lemma_pow2_adds(k, (1074 - k) as nat);
    let (p, q) = (power2::pow2(k), power2::pow2((1074 - k) as nat));
    assert((n * p) * q == n * (p * q)) by (nonlinear_arith);
}

/// Whole inches at 300 pixels per inch.
proof fn lemma_inches(n: nat, r: ResolutionUnit)
    requires
        2 <= n <= 100,
    ensures
        new_document::whole_pixels(
            Real64::of_whole(n),
            Unit::Inches,
            r.per_inch(r.of_inch(Real64 { bits: 0x4072_c000_0000_0000 })),
        ) == 300 * n,
{
    lemma_units(n);
    lemma_an_inch();
    power2::lemma2_to64();
    let one = closeness::unity();
    assert(2 * (n * one) == (2 * n) * one) by (nonlinear_arith);
    let far: int = 600 * n as int;
    let above: int = far + 1;
    let below: int = far - 1;
    assert(power2::pow2(0) == 1);
    assert(far == 1 * (2 * n) * 300);
    assert(above == (2 * (300 * n) + 1) * 1);
    assert(below == (2 * (300 * n) - 1) * 1);
    lemma_printed(
        Unit::Inches,
        Real64::of_whole(n),
        2 * n,
        r,
        1,
        0,
        300 * n,
        far,
        above,
        below,
    );
}

/// One inch is one.
proof fn lemma_an_inch()
    ensures
        closeness::plain(Unit::Inches.inches()->0),
        !Unit::Inches.inches()->0.number().negative(),
        closeness::scale(Unit::Inches.inches()->0) == -52,
        closeness::steps(Unit::Inches.inches()->0) * power2::pow2(0) == 1 * closeness::unity(),
{
    power2::lemma2_to64();
    power2::lemma2_to64_rest();
    power2::lemma_pow2_adds(1022, 52);
    let one = Real64 { bits: 0x3ff0_0000_0000_0000 };
    assert(one.number()->mantissa == 0x10_0000_0000_0000);
}

/// Eight and a half inches at 300 pixels per inch.
proof fn lemma_letter(r: ResolutionUnit)
    ensures
        new_document::whole_pixels(
            Real64 { bits: 0x4021_0000_0000_0000 },
            Unit::Inches,
            r.per_inch(r.of_inch(Real64 { bits: 0x4072_c000_0000_0000 })),
        ) == 2550,
{
    lemma_an_inch();
    power2::lemma2_to64();
    power2::lemma2_to64_rest();
    power2::lemma_pow2_adds(1025, 49);
    let value = Real64 { bits: 0x4021_0000_0000_0000 };
    assert(value.number()->mantissa == 0x11_0000_0000_0000);
    let p = power2::pow2(1025);
    assert(2 * (0x11_0000_0000_0000 * p) == 17 * (p * 0x2_0000_0000_0000)) by (nonlinear_arith);
    lemma_printed(Unit::Inches, value, 17, r, 1, 0, 2550, 5100, 5101, 5099);
}

/// Whole millimeters at 300 pixels per inch.
proof fn lemma_millimeters(n: nat, r: ResolutionUnit, w: nat)
    requires
        2 <= n <= 1000,
        2 <= w <= 0xffff,
        20 * (n * 3000 - w * 254) < 2530,
        20 * (w * 254 - n * 3000) < 2530,
    ensures
        new_document::whole_pixels(
            Real64::of_whole(n),
            Unit::Millimeters,
            r.per_inch(r.of_inch(Real64 { bits: 0x4072_c000_0000_0000 })),
        ) == w,
{
    lemma_units(n);
    power2::lemma2_to64();
    power2::lemma2_to64_rest();
    power2::lemma_pow2_adds(1017, 57);
    let by = Unit::Millimeters.inches()->0;
    let m: nat = 0x14_2850_a142_850a;
    assert(by.number()->mantissa == 0x14_2850_a142_850a);
    let p = power2::pow2(1017);
    let u = power2::pow2(57);
    assert((m * p) * u == m * (p * u)) by (nonlinear_arith);
    let one = closeness::unity();
    assert(2 * (n * one) == (2 * n) * one) by (nonlinear_arith);
    let far: int = 0x14_2850_a142_850a * 600 * (n as int);
    let above: int = 0x200_0000_0000_0000 * (2 * (w as int) + 1);
    let below: int = 0x200_0000_0000_0000 * (2 * (w as int) - 1);
    assert(far == m * (2 * n) * 300) by (nonlinear_arith)
        requires
            far == 0x14_2850_a142_850a * 600 * n,
            m == 0x14_2850_a142_850a,
    ;
    assert(above == (2 * w + 1) * u && below == (2 * w - 1) * u) by (nonlinear_arith)
        requires
            above == 0x200_0000_0000_0000 * (2 * w + 1),
            below == 0x200_0000_0000_0000 * (2 * w - 1),
            u == 0x200_0000_0000_0000,
    ;
    lemma_printed(
        Unit::Millimeters,
        Real64::of_whole(n),
        2 * n,
        r,
        m,
        57,
        w,
        far,
        above,
        below,
    );
}

/// Whole pixels are what they are.
proof fn lemma_pixels(n: nat, ppi: Real64)
    requires
        2 <= n <= 0xffff,
    ensures
        new_document::whole_pixels(Real64::of_whole(n), Unit::Pixels, ppi) == n,
{
    lemma_units(n);
    let px = Real64::of_whole(n);
    let one = closeness::unity();
    power2::lemma_pow2_pos(1074);
    assert(n * one >= one) by (nonlinear_arith)
        requires
            n >= 1,
            one > 0,
    ;
    closeness::lemma_plain(px);
    conversions::lemma_one(px);
    conversions::lemma_rounds_to(px, n);
}

/// A preset of this name, on this shelf, describes a white document of this
/// size in pixels, whatever the dialog held, and is then the one in use.
pub open spec fn opens_at(
    m: NewDocumentModel,
    index: int,
    group: PresetGroup,
    name: Seq<char>,
    width: u32,
    height: u32,
) -> bool {
    let d = m.with_preset(index);
    let request = d.request();
    &&& DocumentPreset::listed(index) matches Some(p) && p.name == name && p.group == group
    &&& d.preset == Some(index)
    &&& request.width == width
    &&& request.height == height
    &&& request.background == BackgroundContents::White
    &&& request.title == m.title
    &&& request.color_mode == m.color_mode
    &&& request.color_space == m.color_space
    &&& request.bit_depth == m.bit_depth
}

/// Every preset opens at its size, also where the resolution is shown per
/// centimeter: a printed size is taken at 300 pixels per inch. There is no
/// other preset.
pub proof fn every_preset_opens_at_its_size(m: NewDocumentModel, index: int)
    ensures
        opens_at(m, 0, PresetGroup::Screen, "Web 1280 x 720"@, 1280, 720),
        opens_at(m, 1, PresetGroup::Screen, "Web 1920 x 1080"@, 1920, 1080),
        opens_at(m, 2, PresetGroup::Screen, "Web 2560 x 1440"@, 2560, 1440),
        opens_at(m, 3, PresetGroup::Screen, "UHD 3840 x 2160"@, 3840, 2160),
        opens_at(m, 4, PresetGroup::Screen, "iPhone 15 Pro"@, 1179, 2556),
        opens_at(m, 5, PresetGroup::Screen, "iPad Pro 11\""@, 1668, 2388),
        opens_at(m, 6, PresetGroup::Print, "Letter"@, 2550, 3300),
        opens_at(m, 7, PresetGroup::Print, "Legal"@, 2550, 4200),
        opens_at(m, 8, PresetGroup::Print, "Tabloid"@, 3300, 5100),
        opens_at(m, 9, PresetGroup::Print, "A4"@, 2480, 3508),
        opens_at(m, 10, PresetGroup::Print, "A3"@, 3508, 4961),
        opens_at(m, 11, PresetGroup::Print, "A5"@, 1748, 2480),
        opens_at(m, 12, PresetGroup::Print, "Photo 4 x 6"@, 1200, 1800),
        opens_at(m, 13, PresetGroup::Print, "Photo 8 x 10"@, 2400, 3000),
        opens_at(m, 14, PresetGroup::Social, "Instagram Post"@, 1080, 1080),
        opens_at(m, 15, PresetGroup::Social, "Instagram Story"@, 1080, 1920),
        opens_at(m, 16, PresetGroup::Social, "YouTube Thumbnail"@, 1280, 720),
        opens_at(m, 17, PresetGroup::Social, "Facebook Cover"@, 1640, 856),
        opens_at(m, 18, PresetGroup::Social, "X Header"@, 1500, 500),
        opens_at(m, 19, PresetGroup::Social, "LinkedIn Banner"@, 1584, 396),
        DocumentPreset::listed(index) is Some <==> 0 <= index < 20,
        DocumentPreset::listed(index) is None ==> m.with_preset(index) == m,
        DocumentPreset::listed(index) matches Some(p) ==> p.ppi == (if p.group
            == PresetGroup::Print {
            Real64 { bits: 0x4072_c000_0000_0000 }
        } else {
            Real64 { bits: units::DEFAULT_PPI }
        }),
{
    let r = m.resolution_unit;
    let screen = r.per_inch(r.of_inch(Real64 { bits: units::DEFAULT_PPI }));
    lemma_inches(4, r);
    lemma_inches(6, r);
    lemma_inches(8, r);
    lemma_inches(10, r);
    lemma_inches(11, r);
    lemma_inches(14, r);
    lemma_inches(17, r);
    lemma_letter(r);
    lemma_millimeters(148, r, 1748);
    lemma_millimeters(210, r, 2480);
    lemma_millimeters(297, r, 3508);
    lemma_millimeters(420, r, 4961);
    lemma_pixels(396, screen);
    lemma_pixels(500, screen);
    lemma_pixels(720, screen);
    lemma_pixels(856, screen);
    lemma_pixels(1080, screen);
    lemma_pixels(1179, screen);
    lemma_pixels(1280, screen);
    lemma_pixels(1440, screen);
    lemma_pixels(1500, screen);
    lemma_pixels(1584, screen);
    lemma_pixels(1640, screen);
    lemma_pixels(1668, screen);
    lemma_pixels(1920, screen);
    lemma_pixels(2160, screen);
    lemma_pixels(2388, screen);
    lemma_pixels(2556, screen);
    lemma_pixels(2560, screen);
    lemma_pixels(3840, screen);
}

} // verus!

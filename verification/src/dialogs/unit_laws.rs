//! What the units promise: an inch is 2.54 centimetres, 72 points and 6 picas,
//! and a printed length has as many pixels as its inches times the resolution.
//! The numbers are double precision; each statement allows a part in 2^23.

use crate::dialogs::units;
use crate::dialogs::units::{ResolutionUnit, Unit};
use crate::ieee;
use crate::ieee::Real64;
use crate::ratios;
use crate::rounding;
use crate::text;
use crate::values;
use vstd::arithmetic::power2;
use vstd::prelude::*;

verus! {

/// How many of a unit there are to so many inches: the two numbers.
pub open spec fn to_the_inch(unit: Unit) -> (int, int) {
    match unit {
        Unit::Inches => (1, 1),
        Unit::Centimeters => (254, 100),
        Unit::Millimeters => (254, 10),
        Unit::Points => (72, 1),
        Unit::Picas => (6, 1),
        Unit::Pixels => (0, 0),
        Unit::Percent => (0, 0),
    }
}

/// A number well inside the range, above nothing.
pub open spec fn plain(a: Real64) -> bool {
    &&& a.finite()
    &&& values::wide_one() <= values::wide(a) * 0x1_0000_0000_0000_0000
    &&& values::wide(a) <= 0x1_0000_0000_0000_0000 * values::wide_one()
}

/// Two to the two hundred and fifty-sixth.
spec fn room() -> int {
    0x1_0000_0000_0000_0000_0000_0000_0000_0000_0000_0000_0000_0000_0000_0000_0000_0000int
}

proof fn lemma_room()
    ensures
        values::wide_one() >= room(),
        values::wide_most() >= room() * values::wide_one(),
{
    power2::lemma2_to64();
    power2::lemma2_to64_rest();
    power2::lemma_pow2_adds(64, 64);
    power2::lemma_pow2_adds(128, 128);
    let r = power2::pow2(256);
    let (h, k) = (power2::pow2(64), power2::pow2(128));
    assert(k == 0x1_0000_0000_0000_0000_0000_0000_0000_0000int) by (nonlinear_arith)
        requires
            k == h * h,
            h == 0x1_0000_0000_0000_0000int,
    ;
    let most = room();
    assert(r == most) by (nonlinear_arith)
        requires
            r == k * k,
            k == 0x1_0000_0000_0000_0000_0000_0000_0000_0000int,
            most
                == 0x1_0000_0000_0000_0000_0000_0000_0000_0000_0000_0000_0000_0000_0000_0000_0000_0000int,
    ;
    power2::lemma_pow2_strictly_increases(256, 1074);
    power2::lemma_pow2_strictly_increases(256, 971);
    power2::lemma_pow2_adds(971, 1074);
    let (g, u) = (power2::pow2(971), power2::pow2(1074));
    ieee::double_format().lemma_bounds();
    let low = ieee::double_format().low();
    assert(low * (g * u) >= r * u) by (nonlinear_arith)
        requires
            low >= 1,
            g >= r,
            u >= 0,
            r >= 0,
    ;
}

proof fn lemma_product(a: Real64, b: Real64)
    requires
        a.finite(),
        b.finite(),
        values::wide_one() * values::wide_parts() <= values::wide(a) * values::wide(b),
        values::wide(a) * values::wide(b) <= values::wide_most() * values::wide_one(),
    ensures
        a.times_spec(b).finite(),
        ratios::close(
            values::wide(a.times_spec(b)) * values::wide_one(),
            values::wide(a) * values::wide(b),
            1,
        ),
{
    values::lemma_wide_one();
    values::lemma_wide_times(a, b);
}

proof fn lemma_plain_product(a: Real64, b: Real64)
    requires
        plain(a),
        plain(b),
    ensures
        a.times_spec(b).finite(),
        ratios::close(
            values::wide(a.times_spec(b)) * values::wide_one(),
            values::wide(a) * values::wide(b),
            1,
        ),
        values::wide(a) * values::wide(b) > 0,
        values::wide_one() <= values::wide(a.times_spec(b))
            * 0x4_0000_0000_0000_0000_0000_0000_0000_0000int,
        values::wide(a.times_spec(b)) <= 0x4_0000_0000_0000_0000_0000_0000_0000_0000int
            * values::wide_one(),
{
    lemma_room();
    let u = values::wide_one() as int;
    let most = values::wide_most() as int;
    let (x, y) = (values::wide(a), values::wide(b));
    let r = room();
    assert(x * y >= u * values::wide_parts() && x * y * 0x1_0000_0000_0000_0000_0000_0000_0000_0000int
        >= u * u) by (nonlinear_arith)
        requires
            u <= x * 0x1_0000_0000_0000_0000,
            u <= y * 0x1_0000_0000_0000_0000,
            u >= 0x1_0000_0000_0000_0000_0000_0000_0000_0000_0000_0000_0000_0000_0000_0000_0000_0000int,
    ;
    assert(x * y <= 0x1_0000_0000_0000_0000_0000_0000_0000_0000int * (u * u)) by (nonlinear_arith)
        requires
            0 <= x <= 0x1_0000_0000_0000_0000 * u,
            0 <= y <= 0x1_0000_0000_0000_0000 * u,
            u > 0,
    ;
    assert(0x1_0000_0000_0000_0000_0000_0000_0000_0000int * (u * u) <= most * u)
        by (nonlinear_arith)
        requires
            most >= r * u,
            r >= 0x1_0000_0000_0000_0000_0000_0000_0000_0000int,
            u > 0,
    ;
    lemma_product(a, b);
    let z = values::wide(a.times_spec(b));
    ratios::lemma_within_two(z * u, x * y, 1);
    assert(u <= z * 0x4_0000_0000_0000_0000_0000_0000_0000_0000int) by (nonlinear_arith)
        requires
            x * y <= 2 * (z * u),
            x * y * 0x1_0000_0000_0000_0000_0000_0000_0000_0000int >= u * u,
            u > 0,
    ;
    assert(z <= 0x4_0000_0000_0000_0000_0000_0000_0000_0000int * u) by (nonlinear_arith)
        requires
            z * u <= 2 * (x * y),
            x * y <= 0x1_0000_0000_0000_0000_0000_0000_0000_0000int * (u * u),
            u > 0,
    ;
}

/// An inch is 2.54 centimetres, 25.4 millimetres, 72 points and 6 picas; the
/// other units are no length.
pub proof fn every_unit_has_its_length(unit: Unit)
    ensures
        unit.inches() is None <==> unit == Unit::Pixels || unit == Unit::Percent,
        match unit.inches() {
            Some(inches) => {
                &&& plain(inches)
                &&& ratios::close(
                    values::wide(inches) * to_the_inch(unit).0,
                    values::wide_one() * to_the_inch(unit).1,
                    1,
                )
            },
            None => true,
        },
{
    power2::lemma2_to64();
    power2::lemma2_to64_rest();
    let u = values::wide_one() as int;
    match unit {
        Unit::Inches => {
            values::lemma_wide_one();
        },
        Unit::Centimeters => {
            power2::lemma_pow2_adds(54, 1020);
            let p = power2::pow2(1020);
            power2::lemma_pow2_pos(1020);
            assert(u == 0x40_0000_0000_0000 * p);
            assert(values::wide(unit.inches()->0) == 0x19_3264_c993_264c * p);
        },
        Unit::Millimeters => {
            power2::lemma_pow2_adds(57, 1017);
            let p = power2::pow2(1017);
            power2::lemma_pow2_pos(1017);
            assert(u == 0x200_0000_0000_0000 * p);
            assert(values::wide(unit.inches()->0) == 0x14_2850_a142_850a * p);
        },
        Unit::Points => {
            power2::lemma_pow2_adds(59, 1015);
            let p = power2::pow2(1015);
            power2::lemma_pow2_pos(1015);
            assert(u == 0x800_0000_0000_0000 * p);
            assert(values::wide(unit.inches()->0) == 0x1c_71c7_1c71_c71c * p);
        },
        Unit::Picas => {
            power2::lemma_pow2_adds(55, 1019);
            let p = power2::pow2(1019);
            power2::lemma_pow2_pos(1019);
            assert(u == 0x80_0000_0000_0000 * p);
            assert(values::wide(unit.inches()->0) == 0x15_5555_5555_5555 * p);
        },
        Unit::Pixels => {},
        Unit::Percent => {},
    }
}

/// A printed length has its inches times the resolution in pixels: `n` of the
/// unit to `d` inches, so `n` times the pixels are `d` times the length times
/// the resolution.
pub proof fn a_length_has_its_pixels(unit: Unit, value: Real64, ppi: Real64, reference_px: Real64)
    requires
        unit != Unit::Pixels,
        unit != Unit::Percent,
        plain(value),
        plain(ppi),
        units::usable_ppi(ppi) == ppi,
    ensures
        ({
            let px = unit.pixels(value, ppi, reference_px);
            let (n, d) = to_the_inch(unit);
            &&& px.finite()
            &&& ratios::close(
                values::wide(px) * values::wide_one() * n,
                values::wide(value) * values::wide(ppi) * d,
                5,
            )
        }),
{
    every_unit_has_its_length(unit);
    lemma_room();
    let u = values::wide_one() as int;
    let most = values::wide_most() as int;
    let r = room();
    let inches = unit.inches()->0;
    let (n, d) = to_the_inch(unit);
    let (i, v, p) = (values::wide(inches), values::wide(value), values::wide(ppi));
    lemma_plain_product(inches, value);
    let long = inches.times_spec(value);
    let z = values::wide(long);
    assert(z * p >= u * values::wide_parts()) by (nonlinear_arith)
        requires
            u <= z * 0x4_0000_0000_0000_0000_0000_0000_0000_0000int,
            u <= p * 0x1_0000_0000_0000_0000,
            u >= 0x1_0000_0000_0000_0000_0000_0000_0000_0000_0000_0000_0000_0000_0000_0000_0000_0000int,
    ;
    assert(z * p <= most * u) by (nonlinear_arith)
        requires
            0 <= z <= 0x4_0000_0000_0000_0000_0000_0000_0000_0000int * u,
            0 <= p <= 0x1_0000_0000_0000_0000 * u,
            most >= r * u,
            r == 0x1_0000_0000_0000_0000_0000_0000_0000_0000_0000_0000_0000_0000_0000_0000_0000_0000int,
            u > 0,
    ;
    lemma_product(long, ppi);
    let w = values::wide(long.times_spec(ppi));
    // w u agrees with z p, and z u with i v.
    ratios::lemma_scaled(w * u, z * p, u, 1);
    ratios::lemma_scaled(z * u, i * v, p, 1);
    assert((z * p) * u == (z * u) * p) by (nonlinear_arith);
    assert((i * v) * p >= 0) by (nonlinear_arith)
        requires
            i * v > 0,
            p >= 0,
    ;
    ratios::lemma_chain((w * u) * u, (z * u) * p, (i * v) * p, 1, 1);
    ratios::lemma_scaled((w * u) * u, (i * v) * p, n, 3);
    assert(v * p >= 0) by (nonlinear_arith)
        requires
            v >= 0,
            p >= 0,
    ;
    ratios::lemma_scaled(i * n, u * d, v * p, 1);
    assert(((i * v) * p) * n == (i * n) * (v * p)) by (nonlinear_arith);
    assert((u * d) * (v * p) == (v * p * d) * u) by (nonlinear_arith);
    assert(((w * u) * u) * n == (w * u * n) * u) by (nonlinear_arith);
    assert((v * p * d) * u >= 0) by (nonlinear_arith)
        requires
            v >= 0,
            p >= 0,
            d >= 0,
            u >= 0,
    ;
    ratios::lemma_chain((w * u * n) * u, (i * n) * (v * p), (v * p * d) * u, 3, 1);
    ratios::lemma_cancelled(w * u * n, v * p * d, u, 5);
}

/// A resolution per centimetre is 2.54 times as much per inch.
pub proof fn a_resolution_is_higher_by_the_inch(value: Real64)
    requires
        plain(value),
    ensures
        ResolutionUnit::PerInch.per_inch(value) == value,
        ResolutionUnit::PerCentimeter.per_inch(value).finite(),
        ratios::close(
            100 * values::wide(ResolutionUnit::PerCentimeter.per_inch(value)),
            254 * values::wide(value),
            3,
        ),
{
    let c = Real64 { bits: 0x4004_51eb_851e_b852 };
    let u = values::wide_one() as int;
    power2::lemma2_to64();
    power2::lemma2_to64_rest();
    power2::lemma_pow2_adds(51, 1023);
    let p = power2::pow2(1023);
    power2::lemma_pow2_pos(1023);
    assert(u == 0x8_0000_0000_0000 * p);
    let x = values::wide(c);
    assert(x == 0x14_51eb_851e_b852 * p);
    lemma_plain_product(value, c);
    let v = values::wide(value);
    let z = values::wide(value.times_spec(c));
    assert(ratios::close(100 * x, 254 * u, 1));
    ratios::lemma_scaled(z * u, v * x, 100, 1);
    ratios::lemma_scaled(100 * x, 254 * u, v, 1);
    assert((v * x) * 100 == (100 * x) * v) by (nonlinear_arith);
    assert((254 * u) * v == (254 * v) * u) by (nonlinear_arith);
    assert((254 * v) * u >= 0) by (nonlinear_arith)
        requires
            v >= 0,
            u >= 0,
    ;
    ratios::lemma_chain((z * u) * 100, (100 * x) * v, (254 * v) * u, 1, 1);
    assert((z * u) * 100 == (100 * z) * u) by (nonlinear_arith);
    ratios::lemma_cancelled(100 * z, 254 * v, u, 3);
}

/// `n` is `m` of `scale`, to the nearest.
pub open spec fn nearest_count(m: int, scale: int, n: int) -> bool {
    2 * (m * scale - n) <= scale && 2 * (n - m * scale) <= scale
}

/// A byte count shown in a multiple: whole from a hundred on, else with one
/// decimal, to the nearest.
pub open spec fn shown_in(shown: Seq<char>, bytes: nat, scale: nat, suffix: Seq<char>) -> bool {
    if bytes >= 100 * scale {
        exists|m: nat| #[trigger]
            nearest_count(m as int, scale as int, bytes as int) && shown == text::decimal(m)
                + suffix
    } else {
        exists|m: nat| #[trigger]
            nearest_count(m as int, scale as int, 10 * bytes as int) && shown == text::decimal(
                m / 10,
            ) + "."@ + text::decimal(m % 10) + suffix
    }
}

proof fn lemma_nearest(n: nat, d: nat)
    requires
        d > 0,
    ensures
        nearest_count(rounding::half_even(n, d) as int, d as int, n as int),
{
    let (q, r) = (n / d, n % d);
    assert(n == q * d + r && 0 <= r < d && (q + 1) * d == q * d + d) by (nonlinear_arith)
        requires
            q == n / d,
            r == n % d,
            d > 0,
    ;
}

/// A byte count is shown in the largest binary multiple that it reaches, to the
/// nearest: a kilobyte is 1024 bytes, a megabyte 1024 of those, a gigabyte 1024
/// of those.
pub proof fn a_byte_count_is_shown_to_the_nearest(bytes: nat)
    requires
        bytes < 0x20_0000_0000_0000,
    ensures
        bytes < 1024 ==> units::bytes_text(bytes) == text::decimal(bytes) + " bytes"@,
        1024 <= bytes < 1024 * 1024 ==> shown_in(units::bytes_text(bytes), bytes, 1024, " KB"@),
        1024 * 1024 <= bytes < 1024 * 1024 * 1024 ==> shown_in(
            units::bytes_text(bytes),
            bytes,
            1024 * 1024,
            " MB"@,
        ),
        1024 * 1024 * 1024 <= bytes ==> shown_in(
            units::bytes_text(bytes),
            bytes,
            1024 * 1024 * 1024,
            " GB"@,
        ),
{
    units::small_counts_are_exact(bytes);
    lemma_nearest(bytes, 0x400);
    lemma_nearest(10 * bytes, 0x400);
    lemma_nearest(bytes, 0x10_0000);
    lemma_nearest(10 * bytes, 0x10_0000);
    lemma_nearest(bytes, 0x4000_0000);
    lemma_nearest(10 * bytes, 0x4000_0000);
}

} // verus!

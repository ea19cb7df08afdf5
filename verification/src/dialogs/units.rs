//! Measurement units shared by the size dialogs.
//!
//! A dialog that offers inches has to be able to say what an inch is in pixels,
//! and that answer depends on the document's resolution. The conversions are
//! double precision arithmetic.

use crate::ieee::Real64;
use crate::rounding;
use crate::text;
use vstd::prelude::*;

verus! {

/// A unit a length can be typed in.
#[derive(Clone, Copy, PartialEq, Eq, Structural, PartialOrd, Ord, Hash, Debug)]
pub enum Unit {
    Pixels,
    /// Relative to a reference length supplied by the caller.
    Percent,
    Inches,
    Centimeters,
    Millimeters,
    /// Typographic points: 72 to the inch.
    Points,
    /// Picas: 6 to the inch.
    Picas,
}

impl Default for Unit {
    fn default() -> (r: Self)
        ensures
            r == Unit::Pixels,
    {
        Unit::Pixels
    }
}

/// The resolution assumed when a document or a field does not state one, by its
/// bits: 72 pixels per inch.
pub const DEFAULT_PPI: u64 = 0x4052_0000_0000_0000;

/// Largest resolution a dialog will accept, by its bits: 10000 pixels per inch.
pub const MAX_PPI: u64 = 0x40c3_8800_0000_0000;

/// One hundred, by its bits.
const HUNDRED: u64 = 0x4059_0000_0000_0000;

/// Centimeters to the inch, by its bits: 2.54.
const CENTIMETERS_PER_INCH: u64 = 0x4004_51eb_851e_b852;

/// The step between one and the next double precision number, by its bits.
const EPSILON: u64 = 0x3cb0_0000_0000_0000;

/// A usable resolution: a finite positive one, held to [`MAX_PPI`]; anything
/// else is [`DEFAULT_PPI`].
pub open spec fn usable_ppi(ppi: Real64) -> Real64 {
    if ppi.finite() && (Real64 { bits: 0 }).below(ppi) {
        if (Real64 { bits: MAX_PPI }).below(ppi) {
            Real64 { bits: MAX_PPI }
        } else {
            ppi
        }
    } else {
        Real64 { bits: DEFAULT_PPI }
    }
}

fn sane_ppi(ppi: Real64) -> (r: Real64)
    ensures
        r == usable_ppi(ppi),
{
    if ppi.is_finite() && (Real64 { bits: 0 }).is_below(ppi) {
        if (Real64 { bits: MAX_PPI }).is_below(ppi) {
            Real64 { bits: MAX_PPI }
        } else {
            ppi
        }
    } else {
        Real64 { bits: DEFAULT_PPI }
    }
}

impl Unit {
    /// Every unit, in menu order.
    pub const ALL: [Unit; 7] = [
        Unit::Pixels,
        Unit::Percent,
        Unit::Inches,
        Unit::Centimeters,
        Unit::Millimeters,
        Unit::Points,
        Unit::Picas,
    ];

    /// The units the rulers and the Preferences offer: all but a percentage,
    /// which would have nothing to be a percentage of.
    pub const PREFERENCE_CHOICES: [Unit; 6] = [
        Unit::Pixels,
        Unit::Inches,
        Unit::Centimeters,
        Unit::Millimeters,
        Unit::Points,
        Unit::Picas,
    ];

    /// The units that describe a *printed* length, i.e. the ones whose pixel
    /// value depends on resolution.
    pub const PHYSICAL: [Unit; 5] = [
        Unit::Inches,
        Unit::Centimeters,
        Unit::Millimeters,
        Unit::Points,
        Unit::Picas,
    ];

    /// The text of [`Unit::short`].
    pub open spec fn short_text(self) -> Seq<char> {
        match self {
            Unit::Pixels => "px"@,
            Unit::Percent => "%"@,
            Unit::Inches => "in"@,
            Unit::Centimeters => "cm"@,
            Unit::Millimeters => "mm"@,
            Unit::Points => "pt"@,
            Unit::Picas => "pc"@,
        }
    }

    /// Short suffix for a numeric field.
    pub fn short(self) -> (r: &'static str)
        ensures
            r@ == self.short_text(),
    {
        match self {
            Unit::Pixels => "px",
            Unit::Percent => "%",
            Unit::Inches => "in",
            Unit::Centimeters => "cm",
            Unit::Millimeters => "mm",
            Unit::Points => "pt",
            Unit::Picas => "pc",
        }
    }

    /// The text of [`Unit::label`].
    pub open spec fn label_text(self) -> Seq<char> {
        match self {
            Unit::Pixels => "Pixels"@,
            Unit::Percent => "Percent"@,
            Unit::Inches => "Inches"@,
            Unit::Centimeters => "Centimeters"@,
            Unit::Millimeters => "Millimeters"@,
            Unit::Points => "Points"@,
            Unit::Picas => "Picas"@,
        }
    }

    /// Full name, for a unit menu.
    pub fn label(self) -> (r: &'static str)
        ensures
            r@ == self.label_text(),
    {
        match self {
            Unit::Pixels => "Pixels",
            Unit::Percent => "Percent",
            Unit::Inches => "Inches",
            Unit::Centimeters => "Centimeters",
            Unit::Millimeters => "Millimeters",
            Unit::Points => "Points",
            Unit::Picas => "Picas",
        }
    }

    /// How many inches one of this unit is: the double precision numbers
    /// nearest to 1, 1/2.54, 1/25.4, 1/72 and 1/6; none where the unit is not a
    /// physical length.
    pub open spec fn inches(self) -> Option<Real64> {
        match self {
            Unit::Pixels => None,
            Unit::Percent => None,
            Unit::Inches => Some(Real64 { bits: 0x3ff0_0000_0000_0000 }),
            Unit::Centimeters => Some(Real64 { bits: 0x3fd9_3264_c993_264c }),
            Unit::Millimeters => Some(Real64 { bits: 0x3fa4_2850_a142_850a }),
            Unit::Points => Some(Real64 { bits: 0x3f8c_71c7_1c71_c71c }),
            Unit::Picas => Some(Real64 { bits: 0x3fc5_5555_5555_5555 }),
        }
    }

    /// The entry of a units menu: the unit's name and its symbol.
    pub fn menu_label(self) -> (r: String)
        ensures
            r@ == self.label_text() + " ("@ + self.short_text() + ")"@,
    {
        text::copied(self.label()).concat(" (").concat(self.short()).concat(")")
    }

    /// How many inches one of this unit is, or `None` when the unit is not a
    /// physical length ([`Unit::Pixels`], [`Unit::Percent`]).
    pub fn inches_per(self) -> (r: Option<Real64>)
        ensures
            r == self.inches(),
    {
        match self {
            Unit::Pixels => None,
            Unit::Percent => None,
            Unit::Inches => Some(Real64 { bits: 0x3ff0_0000_0000_0000 }),
            Unit::Centimeters => Some(Real64 { bits: 0x3fd9_3264_c993_264c }),
            Unit::Millimeters => Some(Real64 { bits: 0x3fa4_2850_a142_850a }),
            Unit::Points => Some(Real64 { bits: 0x3f8c_71c7_1c71_c71c }),
            Unit::Picas => Some(Real64 { bits: 0x3fc5_5555_5555_5555 }),
        }
    }

    /// Whether this unit's pixel value depends on the resolution.
    pub fn is_physical(self) -> (r: bool)
        ensures
            r == (self.inches() is Some),
            r == (self != Unit::Pixels && self != Unit::Percent),
    {
        match self.inches_per() {
            Some(_) => true,
            None => false,
        }
    }

    /// `value` of this unit in pixels.
    pub open spec fn pixels(self, value: Real64, ppi: Real64, reference_px: Real64) -> Real64 {
        match self.inches() {
            Some(inches) => inches.times_spec(value).times_spec(usable_ppi(ppi)),
            None => if self == Unit::Percent {
                value.over_spec(Real64 { bits: 0x4059_0000_0000_0000 }).times_spec(reference_px)
            } else {
                value
            },
        }
    }

    /// `value` of this unit expressed in pixels.
    ///
    /// `ppi` is the document resolution in pixels per inch and `reference_px`
    /// is what 100% means; both are ignored by the units that do not use them.
    /// A non-positive or non-finite `ppi` falls back to [`DEFAULT_PPI`] rather
    /// than producing an infinity, because a resolution field the user has just
    /// cleared must not blank out the pixel field beside it.
    pub fn to_pixels(self, value: Real64, ppi: Real64, reference_px: Real64) -> (r: Real64)
        ensures
            r == self.pixels(value, ppi, reference_px),
    {
        match self.inches_per() {
            Some(inches) => inches.times(value).times(sane_ppi(ppi)),
            None => if self == Unit::Percent {
                value.over(Real64 { bits: HUNDRED }).times(reference_px)
            } else {
                value
            },
        }
    }

    /// A pixel count in this unit.
    pub open spec fn length(self, px: Real64, ppi: Real64, reference_px: Real64) -> Real64 {
        match self.inches() {
            Some(inches) => px.over_spec(usable_ppi(ppi)).over_spec(inches),
            None => if self == Unit::Percent {
                if reference_px.size_spec().below(Real64 { bits: 0x3cb0_0000_0000_0000 }) {
                    Real64 { bits: 0 }
                } else {
                    px.over_spec(reference_px).times_spec(Real64 { bits: 0x4059_0000_0000_0000 })
                }
            } else {
                px
            },
        }
    }

    /// Inverse of [`Unit::to_pixels`].
    pub fn from_pixels(self, px: Real64, ppi: Real64, reference_px: Real64) -> (r: Real64)
        ensures
            r == self.length(px, ppi, reference_px),
    {
        match self.inches_per() {
            Some(inches) => px.over(sane_ppi(ppi)).over(inches),
            None => if self == Unit::Percent {
                if reference_px.abs().is_below(Real64 { bits: EPSILON }) {
                    Real64 { bits: 0 }
                } else {
                    px.over(reference_px).times(Real64 { bits: HUNDRED })
                }
            } else {
                px
            },
        }
    }

    /// How many decimals a field in this unit should show. Pixels are whole;
    /// a printed length needs three or a 1 px nudge is invisible.
    pub fn decimals(self) -> (r: usize)
        ensures
            r == if self.inches() is Some {
                3int
            } else if self == Unit::Percent {
                2
            } else {
                0
            },
    {
        match self {
            Unit::Pixels => 0,
            Unit::Percent => 2,
            _ => 3,
        }
    }
}

/// A unit that is not physical ignores the resolution, and the percentage
/// alone looks at the reference.
pub proof fn only_physical_units_depend_on_resolution(
    unit: Unit,
    value: Real64,
    ppi: Real64,
    other: Real64,
    reference_px: Real64,
)
    requires
        unit.inches() is None,
    ensures
        unit.pixels(value, ppi, reference_px) == unit.pixels(value, other, reference_px),
        unit.length(value, ppi, reference_px) == unit.length(value, other, reference_px),
        unit == Unit::Pixels ==> unit.pixels(value, ppi, reference_px) == value && unit.length(
            value,
            ppi,
            reference_px,
        ) == value,
{
}

/// A broken resolution counts as the default one, so it never decides whether
/// a length is finite; a sound one is never above the largest.
pub proof fn a_broken_resolution_falls_back(ppi: Real64)
    ensures
        usable_ppi(ppi).finite(),
        (Real64 { bits: 0 }).below(usable_ppi(ppi)),
        !(Real64 { bits: MAX_PPI }).below(usable_ppi(ppi)),
        !(ppi.finite() && (Real64 { bits: 0 }).below(ppi)) ==> usable_ppi(ppi) == (Real64 {
            bits: DEFAULT_PPI,
        }),
{
}

/// Whether a resolution is typed per inch or per centimeter.
#[derive(Clone, Copy, PartialEq, Eq, Structural, Hash, Debug)]
pub enum ResolutionUnit {
    PerInch,
    PerCentimeter,
}

impl Default for ResolutionUnit {
    fn default() -> (r: Self)
        ensures
            r == ResolutionUnit::PerInch,
    {
        ResolutionUnit::PerInch
    }
}

impl ResolutionUnit {
    /// Both, in menu order.
    pub const ALL: [ResolutionUnit; 2] = [ResolutionUnit::PerInch, ResolutionUnit::PerCentimeter];

    /// Label for a unit menu.
    pub fn label(self) -> (r: &'static str)
        ensures
            r@ == match self {
                ResolutionUnit::PerInch => "Pixels/Inch"@,
                ResolutionUnit::PerCentimeter => "Pixels/Centimeter"@,
            },
    {
        match self {
            ResolutionUnit::PerInch => "Pixels/Inch",
            ResolutionUnit::PerCentimeter => "Pixels/Centimeter",
        }
    }

    /// A value typed in this unit, in pixels per inch.
    pub open spec fn per_inch(self, value: Real64) -> Real64 {
        match self {
            ResolutionUnit::PerInch => value,
            ResolutionUnit::PerCentimeter => value.times_spec(
                Real64 { bits: 0x4004_51eb_851e_b852 },
            ),
        }
    }

    /// Pixels per inch in this unit.
    pub open spec fn of_inch(self, ppi: Real64) -> Real64 {
        match self {
            ResolutionUnit::PerInch => ppi,
            ResolutionUnit::PerCentimeter => ppi.over_spec(
                Real64 { bits: 0x4004_51eb_851e_b852 },
            ),
        }
    }

    /// A value typed in this unit, converted to pixels per inch.
    pub fn to_ppi(self, value: Real64) -> (r: Real64)
        ensures
            r == self.per_inch(value),
    {
        match self {
            ResolutionUnit::PerInch => value,
            ResolutionUnit::PerCentimeter => value.times(Real64 { bits: CENTIMETERS_PER_INCH }),
        }
    }

    /// Inverse of [`ResolutionUnit::to_ppi`].
    pub fn from_ppi(self, ppi: Real64) -> (r: Real64)
        ensures
            r == self.of_inch(ppi),
    {
        match self {
            ResolutionUnit::PerInch => ppi,
            ResolutionUnit::PerCentimeter => ppi.over(Real64 { bits: CENTIMETERS_PER_INCH }),
        }
    }
}

/// The unit in the last of 53 binary digits of a count: one up to `2^53`.
pub open spec fn last_unit(count: nat, unit: nat) -> nat
    decreases count / unit,
    when unit > 0
    via last_unit_decreases
{
    if count / unit < 0x20_0000_0000_0000 {
        unit
    } else {
        last_unit(count, 2 * unit)
    }
}

#[via_fn]
proof fn last_unit_decreases(count: nat, unit: nat) {
    let q = count / unit;
    if q >= 0x20_0000_0000_0000 {
        assert(count / (2 * unit) < q) by (nonlinear_arith)
            requires
                q == count / unit,
                q >= 0x20_0000_0000_0000,
                unit > 0,
        ;
    }
}

/// A count as double precision holds it: rounded to 53 binary digits.
pub open spec fn held(count: nat) -> nat {
    let unit = last_unit(count, 1);
    rounding::half_even(count, unit) * unit
}

/// A count of a binary multiple: one decimal below a hundred, else none.
pub open spec fn scaled_text(bytes: nat, scale: nat, suffix: Seq<char>) -> Seq<char> {
    if held(bytes) >= 100 * scale {
        text::decimal(rounding::half_even(held(bytes), scale)) + suffix
    } else {
        let tenths = rounding::half_even(10 * held(bytes), scale);
        text::decimal(tenths / 10) + "."@ + text::decimal(tenths % 10) + suffix
    }
}

/// The text of [`format_bytes`].
pub open spec fn bytes_text(bytes: nat) -> Seq<char> {
    if bytes >= 0x4000_0000 {
        scaled_text(bytes, 0x4000_0000, " GB"@)
    } else if bytes >= 0x10_0000 {
        scaled_text(bytes, 0x10_0000, " MB"@)
    } else if bytes >= 0x400 {
        scaled_text(bytes, 0x400, " KB"@)
    } else {
        text::decimal(bytes) + " bytes"@
    }
}

fn nearest_even(n: u128, d: u128) -> (r: u128)
    requires
        0 < d < 0x1_0000_0000_0000_0000,
        n < 0x100_0000_0000_0000_0000_0000,
    ensures
        r == rounding::half_even(n as nat, d as nat),
        r <= n / d + 1,
{
    let q: u128 = n / d;
    let twice: u128 = 2 * (n % d);
    if twice < d {
        q
    } else if twice > d {
        q + 1
    } else if q % 2 == 0 {
        q
    } else {
        q + 1
    }
}

fn held_count(bytes: u64) -> (r: u128)
    ensures
        r == held(bytes as nat),
        r < 0x2_0000_0000_0000_0000,
{
    let count: u128 = bytes as u128;
    let mut unit: u128 = 1;
    while count / unit >= 0x20_0000_0000_0000
        invariant
            count < 0x1_0000_0000_0000_0000,
            0 < unit <= 0x1000,
            last_unit(count as nat, 1) == last_unit(count as nat, unit as nat),
        decreases 0x2000 - unit,
    {
        assert(unit <= 0x800) by (nonlinear_arith)
            requires
                count / unit >= 0x20_0000_0000_0000,
                count < 0x1_0000_0000_0000_0000,
                unit > 0,
        ;
        unit = unit * 2;
    }
    let q = nearest_even(count, unit);
    assert(q * unit <= count + unit) by (nonlinear_arith)
        requires
            q <= count / unit + 1,
            unit > 0,
    ;
    q * unit
}

fn scaled_form(bytes: u64, scale: u128, suffix: &str) -> (r: String)
    requires
        0 < scale <= 0x4000_0000,
    ensures
        r@ == scaled_text(bytes as nat, scale as nat, suffix@),
{
    let count = held_count(bytes);
    if count >= 100 * scale {
        text::decimal_of(nearest_even(count, scale)).concat(suffix)
    } else {
        let tenths = nearest_even(10 * count, scale);
        text::decimal_of(tenths / 10).concat(".").concat(
            text::decimal_of(tenths % 10).as_str(),
        ).concat(suffix)
    }
}

/// A byte count rendered the way a file manager renders it.
///
/// Binary multiples, because that is what an image editor's "Image Size" panel
/// has always meant by MB and what the user compares against.
pub fn format_bytes(bytes: u64) -> (r: String)
    ensures
        r@ == bytes_text(bytes as nat),
{
    if bytes >= 0x4000_0000 {
        scaled_form(bytes, 0x4000_0000, " GB")
    } else if bytes >= 0x10_0000 {
        scaled_form(bytes, 0x10_0000, " MB")
    } else if bytes >= 0x400 {
        scaled_form(bytes, 0x400, " KB")
    } else {
        text::decimal_of(bytes as u128).concat(" bytes")
    }
}

/// A count below `2^53` is held exactly.
pub proof fn small_counts_are_exact(count: nat)
    requires
        count < 0x20_0000_0000_0000,
    ensures
        held(count) == count,
{
    assert(count / 1 == count && count % 1 == 0);
    assert(last_unit(count, 1) == 1);
    assert(rounding::half_even(count, 1) == count);
}

} // verus!

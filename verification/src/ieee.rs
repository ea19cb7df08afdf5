//! Single and double precision numbers, carried as their IEEE 754 bits.
//!
//! Comparing and clamping is decided by the order of the bit patterns.
//! Arithmetic takes the bits apart, rounds the exact result once to the nearest
//! number, and puts the bits together again (see [`crate::rounding`]).

use crate::accuracy;
use crate::roots;
use crate::rounding;
use crate::rounding::{Format, Number};
use vstd::prelude::*;

verus! {

/// A single precision number, by its bits.
#[derive(Clone, Copy, PartialEq, Eq, Structural, Debug)]
pub struct Real32 {
    pub bits: u32,
}

impl Real32 {
    /// The bits below the sign.
    pub open spec fn magnitude(self) -> int {
        self.bits as int % 0x8000_0000
    }

    /// The position of the number among all numbers: `-0` and `+0` share
    /// position zero, and one number is below another exactly when its
    /// position is.
    pub open spec fn rank(self) -> int {
        if self.bits >= 0x8000_0000 {
            -self.magnitude()
        } else {
            self.magnitude()
        }
    }

    /// Not a number.
    pub open spec fn nan(self) -> bool {
        self.magnitude() > 0x7f80_0000
    }

    /// Neither infinite nor not-a-number.
    pub open spec fn finite(self) -> bool {
        self.magnitude() < 0x7f80_0000
    }

    /// Strictly below, as numbers; false as soon as either side is not one.
    pub open spec fn below(self, other: Real32) -> bool {
        !self.nan() && !other.nan() && self.rank() < other.rank()
    }

    /// Equal as numbers: the two zeros are equal, and not-a-number equals
    /// nothing.
    pub open spec fn equals(self, other: Real32) -> bool {
        !self.nan() && !other.nan() && self.rank() == other.rank()
    }

    /// At most, as numbers; false as soon as either side is not one.
    pub open spec fn at_most(self, other: Real32) -> bool {
        !self.nan() && !other.nan() && self.rank() <= other.rank()
    }

    /// Held within `low` and `high`; not-a-number stays what it is.
    pub open spec fn clamped(self, low: Real32, high: Real32) -> Real32 {
        if self.below(low) {
            low
        } else if high.below(self) {
            high
        } else {
            self
        }
    }

    pub fn from_bits(bits: u32) -> (r: Real32)
        ensures
            r.bits == bits,
    {
        Real32 { bits }
    }

    pub fn is_nan(self) -> (r: bool)
        ensures
            r == self.nan(),
    {
        self.bits % 0x8000_0000 > 0x7f80_0000
    }

    pub fn is_finite(self) -> (r: bool)
        ensures
            r == self.finite(),
    {
        self.bits % 0x8000_0000 < 0x7f80_0000
    }

    fn position(self) -> (r: i64)
        ensures
            r == self.rank(),
    {
        let magnitude: i64 = (self.bits % 0x8000_0000) as i64;
        if self.bits >= 0x8000_0000 {
            -magnitude
        } else {
            magnitude
        }
    }

    /// `self < other`.
    pub fn is_below(self, other: Real32) -> (r: bool)
        ensures
            r == self.below(other),
    {
        !self.is_nan() && !other.is_nan() && self.position() < other.position()
    }

    /// `self == other`.
    pub fn is_equal(self, other: Real32) -> (r: bool)
        ensures
            r == self.equals(other),
    {
        !self.is_nan() && !other.is_nan() && self.position() == other.position()
    }

    /// `self <= other`.
    pub fn is_at_most(self, other: Real32) -> (r: bool)
        ensures
            r == self.at_most(other),
    {
        !self.is_nan() && !other.is_nan() && self.position() <= other.position()
    }

    /// Hold the number within `low` and `high`.
    pub fn clamp(self, low: Real32, high: Real32) -> (r: Real32)
        requires
            !low.nan(),
            !high.nan(),
            low.rank() <= high.rank(),
        ensures
            r == self.clamped(low, high),
    {
        if self.is_below(low) {
            low
        } else if high.is_below(self) {
            high
        } else {
            self
        }
    }
}

/// A double precision number, by its bits.
#[derive(Clone, Copy, PartialEq, Eq, Structural, Debug)]
pub struct Real64 {
    pub bits: u64,
}

impl Real64 {
    /// The bits below the sign.
    pub open spec fn magnitude(self) -> int {
        self.bits as int % 0x8000_0000_0000_0000
    }

    /// The position of the number among all numbers, as for [`Real32::rank`].
    pub open spec fn rank(self) -> int {
        if self.bits >= 0x8000_0000_0000_0000 {
            -self.magnitude()
        } else {
            self.magnitude()
        }
    }

    /// Not a number.
    pub open spec fn nan(self) -> bool {
        self.magnitude() > 0x7ff0_0000_0000_0000
    }

    /// Neither infinite nor not-a-number.
    pub open spec fn finite(self) -> bool {
        self.magnitude() < 0x7ff0_0000_0000_0000
    }

    /// Strictly below, as numbers; false as soon as either side is not one.
    pub open spec fn below(self, other: Real64) -> bool {
        !self.nan() && !other.nan() && self.rank() < other.rank()
    }

    /// Equal as numbers: the two zeros are equal, and not-a-number equals
    /// nothing.
    pub open spec fn equals(self, other: Real64) -> bool {
        !self.nan() && !other.nan() && self.rank() == other.rank()
    }

    /// At most, as numbers; false as soon as either side is not one.
    pub open spec fn at_most(self, other: Real64) -> bool {
        !self.nan() && !other.nan() && self.rank() <= other.rank()
    }

    /// Held within `low` and `high`; not-a-number stays what it is.
    pub open spec fn clamped(self, low: Real64, high: Real64) -> Real64 {
        if self.below(low) {
            low
        } else if high.below(self) {
            high
        } else {
            self
        }
    }

    pub fn from_bits(bits: u64) -> (r: Real64)
        ensures
            r.bits == bits,
    {
        Real64 { bits }
    }

    pub fn is_nan(self) -> (r: bool)
        ensures
            r == self.nan(),
    {
        self.bits % 0x8000_0000_0000_0000 > 0x7ff0_0000_0000_0000
    }

    pub fn is_finite(self) -> (r: bool)
        ensures
            r == self.finite(),
    {
        self.bits % 0x8000_0000_0000_0000 < 0x7ff0_0000_0000_0000
    }

    fn position(self) -> (r: i128)
        ensures
            r == self.rank(),
    {
        let magnitude: i128 = (self.bits % 0x8000_0000_0000_0000) as i128;
        if self.bits >= 0x8000_0000_0000_0000 {
            -magnitude
        } else {
            magnitude
        }
    }

    /// `self < other`.
    pub fn is_below(self, other: Real64) -> (r: bool)
        ensures
            r == self.below(other),
    {
        !self.is_nan() && !other.is_nan() && self.position() < other.position()
    }

    /// `self == other`.
    pub fn is_equal(self, other: Real64) -> (r: bool)
        ensures
            r == self.equals(other),
    {
        !self.is_nan() && !other.is_nan() && self.position() == other.position()
    }

    /// `self <= other`.
    pub fn is_at_most(self, other: Real64) -> (r: bool)
        ensures
            r == self.at_most(other),
    {
        !self.is_nan() && !other.is_nan() && self.position() <= other.position()
    }

    /// Hold the number within `low` and `high`.
    pub fn clamp(self, low: Real64, high: Real64) -> (r: Real64)
        requires
            !low.nan(),
            !high.nan(),
            low.rank() <= high.rank(),
        ensures
            r == self.clamped(low, high),
    {
        if self.is_below(low) {
            low
        } else if high.is_below(self) {
            high
        } else {
            self
        }
    }
}

/// Double precision.
pub open spec fn double_format() -> Format {
    Format { precision: 53, least: (-1074) as i32, greatest: 971 }
}

/// Single precision.
pub open spec fn single_format() -> Format {
    Format { precision: 24, least: (-149) as i32, greatest: 104 }
}

impl Real32 {
    /// The number the bits stand for.
    pub open spec fn number(self) -> Number {
        let negative = self.bits >= 0x8000_0000;
        let field = self.magnitude() / 0x80_0000;
        let fraction = self.magnitude() % 0x80_0000;
        if field == 255 {
            if fraction == 0 {
                Number::Infinite { negative }
            } else {
                Number::Nan
            }
        } else if field == 0 {
            Number::Finite { negative, mantissa: fraction as u64, exponent: (1 - 150) as i32 }
        } else {
            Number::Finite {
                negative,
                mantissa: (0x80_0000 + fraction) as u64,
                exponent: (field - 150) as i32,
            }
        }
    }

    /// The bits a number has. What is not a number has more than one pattern;
    /// this is the quiet one.
    pub open spec fn of(a: Number) -> Real32 {
        let sign: int = if a.negative() {
            0x8000_0000
        } else {
            0
        };
        match a {
            Number::Nan => Real32 { bits: 0x7fc0_0000 },
            Number::Infinite { .. } => Real32 { bits: (sign + 0x7f80_0000) as u32 },
            Number::Finite { negative, mantissa, exponent } => if mantissa < 0x80_0000 {
                Real32 { bits: (sign + mantissa) as u32 }
            } else {
                Real32 {
                    bits: (sign + (exponent + 150) * 0x80_0000 + (mantissa - 0x80_0000)) as u32,
                }
            },
        }
    }

    /// Every pattern stands for a number of the format, and but for what is
    /// not a number each has only the one pattern.
    pub proof fn lemma_number(self, f: Format)
        requires
            f.is_single(),
        ensures
            self.number().fits(f),
            self.number() is Nan <==> self.nan(),
            !self.nan() ==> Real32::of(self.number()) == self,
    {
        f.lemma_bounds();
    }

    /// A number of the format is what its pattern stands for.
    pub proof fn lemma_of(a: Number, f: Format)
        requires
            f.is_single(),
            a.fits(f),
        ensures
            Real32::of(a).number() == a,
    {
        f.lemma_bounds();
    }

    fn taken_apart(self) -> (r: Number)
        ensures
            r == self.number(),
            forall|f: Format| f.is_single() ==> r.fits(f),
    {
        proof {
            assert forall|f: Format| f.is_single() implies self.number().fits(f) by {
                self.lemma_number(f);
            }
        }
        let negative = self.bits >= 0x8000_0000;
        let magnitude: u32 = self.bits % 0x8000_0000;
        let field: u32 = magnitude / 0x80_0000;
        let fraction: u32 = magnitude % 0x80_0000;
        if field == 255 {
            if fraction == 0 {
                Number::Infinite { negative }
            } else {
                Number::Nan
            }
        } else if field == 0 {
            Number::Finite { negative, mantissa: fraction as u64, exponent: 1 - 150 }
        } else {
            Number::Finite {
                negative,
                mantissa: (0x80_0000 + fraction) as u64,
                exponent: field as i32 - 150,
            }
        }
    }

    fn put_together(a: Number) -> (r: Real32)
        requires
            exists|f: Format| f.is_single() && #[trigger] a.fits(f),
        ensures
            r == Real32::of(a),
    {
        proof {
            let f = choose|f: Format| f.is_single() && #[trigger] a.fits(f);
            f.lemma_bounds();
        }
        match a {
            Number::Nan => Real32 { bits: 0x7fc0_0000 },
            Number::Infinite { negative } => if negative {
                Real32 { bits: 0x8000_0000 + 0x7f80_0000 }
            } else {
                Real32 { bits: 0x7f80_0000 }
            },
            Number::Finite { negative, mantissa, exponent } => {
                let size: u32 = if mantissa < 0x80_0000 {
                    mantissa as u32
                } else {
                    (exponent + 150) as u32 * 0x80_0000 + (mantissa - 0x80_0000) as u32
                };
                if negative {
                    Real32 { bits: 0x8000_0000 + size }
                } else {
                    Real32 { bits: size }
                }
            },
        }
    }

    /// The sum, rounded to the nearest number.
    #[verifier::opaque]
    pub open spec fn plus_spec(self, other: Real32) -> Real32 {
        Real32::of(rounding::sum(single_format(), self.number(), other.number()))
    }

    /// The difference, rounded to the nearest number.
    #[verifier::opaque]
    pub open spec fn minus_spec(self, other: Real32) -> Real32 {
        Real32::of(
            rounding::sum(
                single_format(),
                self.number(),
                rounding::negated(other.number()),
            ),
        )
    }

    /// The product, rounded to the nearest number.
    #[verifier::opaque]
    pub open spec fn times_spec(self, other: Real32) -> Real32 {
        Real32::of(rounding::product(single_format(), self.number(), other.number()))
    }

    /// The quotient, rounded to the nearest number.
    #[verifier::opaque]
    pub open spec fn over_spec(self, other: Real32) -> Real32 {
        Real32::of(rounding::quotient(single_format(), self.number(), other.number()))
    }

    /// The nearest whole number, a tie going away from zero.
    #[verifier::opaque]
    pub open spec fn rounded_spec(self) -> Real32 {
        Real32::of(rounding::whole(single_format(), self.number()))
    }

    /// A whole number, rounded to the nearest number of the format.
    #[verifier::opaque]
    pub open spec fn of_whole(n: nat) -> Real32 {
        Real32::of(rounding::nearest(single_format(), false, n, 1, 0))
    }

    /// A whole number is neither negative nor not-a-number.
    pub proof fn lemma_of_whole(n: nat)
        ensures
            Real32::of_whole(n).bits <= 0x7f80_0000,
    {
        reveal(Real32::of_whole);
        let f = single_format();
        f.lemma_bounds();
        accuracy::lemma_nearest_fits(f, false, n, 1, 0);
    }

    /// The number without its sign.
    pub open spec fn size_spec(self) -> Real32 {
        Real32 { bits: self.magnitude() as u32 }
    }

    /// `self + other`.
    pub fn plus(self, other: Real32) -> (r: Real32)
        ensures
            r == self.plus_spec(other),
    {
        reveal(Real32::plus_spec);
        let f = Format::single();
        let r = rounding::add_up(f, self.taken_apart(), other.taken_apart());
        assert(f.is_single() && r.fits(f));
        Real32::put_together(r)
    }

    /// `self - other`.
    pub fn minus(self, other: Real32) -> (r: Real32)
        ensures
            r == self.minus_spec(other),
    {
        reveal(Real32::minus_spec);
        let f = Format::single();
        let r = rounding::add_up(f, self.taken_apart(), rounding::negate(other.taken_apart()));
        assert(f.is_single() && r.fits(f));
        Real32::put_together(r)
    }

    /// `self * other`.
    pub fn times(self, other: Real32) -> (r: Real32)
        ensures
            r == self.times_spec(other),
    {
        reveal(Real32::times_spec);
        let f = Format::single();
        let r = rounding::multiply(f, self.taken_apart(), other.taken_apart());
        assert(f.is_single() && r.fits(f));
        Real32::put_together(r)
    }

    /// `self / other`.
    pub fn over(self, other: Real32) -> (r: Real32)
        ensures
            r == self.over_spec(other),
    {
        reveal(Real32::over_spec);
        let f = Format::single();
        let r = rounding::divide(f, self.taken_apart(), other.taken_apart());
        assert(f.is_single() && r.fits(f));
        Real32::put_together(r)
    }

    /// The nearest whole number, a tie going away from zero.
    pub fn rounded(self) -> (r: Real32)
        ensures
            r == self.rounded_spec(),
    {
        reveal(Real32::rounded_spec);
        let f = Format::single();
        let r = rounding::round_whole(f, self.taken_apart());
        assert(f.is_single() && r.fits(f));
        Real32::put_together(r)
    }

    /// The whole part as a 32-bit number: nothing for a negative number or what
    /// is not one, the largest there is for what does not fit.
    pub fn to_u32(self) -> (r: u32)
        ensures
            r == rounding::truncated(self.number(), u32::MAX as nat),
    {
        let f = Format::single();
        rounding::truncate_u32(f, self.taken_apart())
    }

    /// The whole part as a byte: nothing for a negative number or what is not
    /// one, the largest byte for what does not fit.
    pub fn to_u8(self) -> (r: u8)
        ensures
            r == rounding::truncated(self.number(), 255),
    {
        let size = self.to_u32();
        if size > 255 {
            255
        } else {
            size as u8
        }
    }

    /// A whole number.
    pub fn from_u64(n: u64) -> (r: Real32)
        ensures
            r == Real32::of_whole(n as nat),
            r.bits <= 0x7f80_0000,
    {
        proof {
            Real32::lemma_of_whole(n as nat);
        }
        reveal(Real32::of_whole);
        let f = Format::single();
        let r = rounding::round_exact(f, false, n as u128, 1, 0);
        assert(f.is_single() && r.fits(f));
        Real32::put_together(r)
    }

    /// The number without its sign.
    pub fn abs(self) -> (r: Real32)
        ensures
            r == self.size_spec(),
    {
        Real32 { bits: self.bits % 0x8000_0000 }
    }
}

impl Real64 {
    /// The number the bits stand for.
    pub open spec fn number(self) -> Number {
        let negative = self.bits >= 0x8000_0000_0000_0000;
        let field = self.magnitude() / 0x10_0000_0000_0000;
        let fraction = self.magnitude() % 0x10_0000_0000_0000;
        if field == 2047 {
            if fraction == 0 {
                Number::Infinite { negative }
            } else {
                Number::Nan
            }
        } else if field == 0 {
            Number::Finite { negative, mantissa: fraction as u64, exponent: (1 - 1075) as i32 }
        } else {
            Number::Finite {
                negative,
                mantissa: (0x10_0000_0000_0000 + fraction) as u64,
                exponent: (field - 1075) as i32,
            }
        }
    }

    /// The bits a number has. What is not a number has more than one pattern;
    /// this is the quiet one.
    pub open spec fn of(a: Number) -> Real64 {
        let sign: int = if a.negative() {
            0x8000_0000_0000_0000
        } else {
            0
        };
        match a {
            Number::Nan => Real64 { bits: 0x7ff8_0000_0000_0000 },
            Number::Infinite { .. } => Real64 { bits: (sign + 0x7ff0_0000_0000_0000) as u64 },
            Number::Finite { negative, mantissa, exponent } => if mantissa < 0x10_0000_0000_0000 {
                Real64 { bits: (sign + mantissa) as u64 }
            } else {
                Real64 {
                    bits: (sign + (exponent + 1075) * 0x10_0000_0000_0000 + (mantissa - 0x10_0000_0000_0000)) as u64,
                }
            },
        }
    }

    /// Every pattern stands for a number of the format, and but for what is
    /// not a number each has only the one pattern.
    pub proof fn lemma_number(self, f: Format)
        requires
            f.is_double(),
        ensures
            self.number().fits(f),
            self.number() is Nan <==> self.nan(),
            !self.nan() ==> Real64::of(self.number()) == self,
    {
        f.lemma_bounds();
    }

    /// A number of the format is what its pattern stands for.
    pub proof fn lemma_of(a: Number, f: Format)
        requires
            f.is_double(),
            a.fits(f),
        ensures
            Real64::of(a).number() == a,
    {
        f.lemma_bounds();
    }

    fn taken_apart(self) -> (r: Number)
        ensures
            r == self.number(),
            forall|f: Format| f.is_double() ==> r.fits(f),
    {
        proof {
            assert forall|f: Format| f.is_double() implies self.number().fits(f) by {
                self.lemma_number(f);
            }
        }
        let negative = self.bits >= 0x8000_0000_0000_0000;
        let magnitude: u64 = self.bits % 0x8000_0000_0000_0000;
        let field: u64 = magnitude / 0x10_0000_0000_0000;
        let fraction: u64 = magnitude % 0x10_0000_0000_0000;
        if field == 2047 {
            if fraction == 0 {
                Number::Infinite { negative }
            } else {
                Number::Nan
            }
        } else if field == 0 {
            Number::Finite { negative, mantissa: fraction as u64, exponent: 1 - 1075 }
        } else {
            Number::Finite {
                negative,
                mantissa: (0x10_0000_0000_0000 + fraction) as u64,
                exponent: field as i32 - 1075,
            }
        }
    }

    fn put_together(a: Number) -> (r: Real64)
        requires
            exists|f: Format| f.is_double() && #[trigger] a.fits(f),
        ensures
            r == Real64::of(a),
    {
        proof {
            let f = choose|f: Format| f.is_double() && #[trigger] a.fits(f);
            f.lemma_bounds();
        }
        match a {
            Number::Nan => Real64 { bits: 0x7ff8_0000_0000_0000 },
            Number::Infinite { negative } => if negative {
                Real64 { bits: 0x8000_0000_0000_0000 + 0x7ff0_0000_0000_0000 }
            } else {
                Real64 { bits: 0x7ff0_0000_0000_0000 }
            },
            Number::Finite { negative, mantissa, exponent } => {
                let size: u64 = if mantissa < 0x10_0000_0000_0000 {
                    mantissa as u64
                } else {
                    (exponent + 1075) as u64 * 0x10_0000_0000_0000 + (mantissa - 0x10_0000_0000_0000) as u64
                };
                if negative {
                    Real64 { bits: 0x8000_0000_0000_0000 + size }
                } else {
                    Real64 { bits: size }
                }
            },
        }
    }

    /// The sum, rounded to the nearest number.
    #[verifier::opaque]
    pub open spec fn plus_spec(self, other: Real64) -> Real64 {
        Real64::of(rounding::sum(double_format(), self.number(), other.number()))
    }

    /// The difference, rounded to the nearest number.
    #[verifier::opaque]
    pub open spec fn minus_spec(self, other: Real64) -> Real64 {
        Real64::of(
            rounding::sum(
                double_format(),
                self.number(),
                rounding::negated(other.number()),
            ),
        )
    }

    /// The product, rounded to the nearest number.
    #[verifier::opaque]
    pub open spec fn times_spec(self, other: Real64) -> Real64 {
        Real64::of(rounding::product(double_format(), self.number(), other.number()))
    }

    /// The quotient, rounded to the nearest number.
    #[verifier::opaque]
    pub open spec fn over_spec(self, other: Real64) -> Real64 {
        Real64::of(rounding::quotient(double_format(), self.number(), other.number()))
    }

    /// The nearest whole number, a tie going away from zero.
    #[verifier::opaque]
    pub open spec fn rounded_spec(self) -> Real64 {
        Real64::of(rounding::whole(double_format(), self.number()))
    }

    /// A whole number, rounded to the nearest number of the format.
    #[verifier::opaque]
    pub open spec fn of_whole(n: nat) -> Real64 {
        Real64::of(rounding::nearest(double_format(), false, n, 1, 0))
    }

    /// The number without its sign.
    pub open spec fn size_spec(self) -> Real64 {
        Real64 { bits: self.magnitude() as u64 }
    }

    /// `self + other`.
    pub fn plus(self, other: Real64) -> (r: Real64)
        ensures
            r == self.plus_spec(other),
    {
        reveal(Real64::plus_spec);
        let f = Format::double();
        let r = rounding::add_up(f, self.taken_apart(), other.taken_apart());
        assert(f.is_double() && r.fits(f));
        Real64::put_together(r)
    }

    /// `self - other`.
    pub fn minus(self, other: Real64) -> (r: Real64)
        ensures
            r == self.minus_spec(other),
    {
        reveal(Real64::minus_spec);
        let f = Format::double();
        let r = rounding::add_up(f, self.taken_apart(), rounding::negate(other.taken_apart()));
        assert(f.is_double() && r.fits(f));
        Real64::put_together(r)
    }

    /// `self * other`.
    pub fn times(self, other: Real64) -> (r: Real64)
        ensures
            r == self.times_spec(other),
    {
        reveal(Real64::times_spec);
        let f = Format::double();
        let r = rounding::multiply(f, self.taken_apart(), other.taken_apart());
        assert(f.is_double() && r.fits(f));
        Real64::put_together(r)
    }

    /// `self / other`.
    pub fn over(self, other: Real64) -> (r: Real64)
        ensures
            r == self.over_spec(other),
    {
        reveal(Real64::over_spec);
        let f = Format::double();
        let r = rounding::divide(f, self.taken_apart(), other.taken_apart());
        assert(f.is_double() && r.fits(f));
        Real64::put_together(r)
    }

    /// The nearest whole number, a tie going away from zero.
    pub fn rounded(self) -> (r: Real64)
        ensures
            r == self.rounded_spec(),
    {
        reveal(Real64::rounded_spec);
        let f = Format::double();
        let r = rounding::round_whole(f, self.taken_apart());
        assert(f.is_double() && r.fits(f));
        Real64::put_together(r)
    }

    /// The whole part as a 32-bit number: nothing for a negative number or what
    /// is not one, the largest there is for what does not fit.
    pub fn to_u32(self) -> (r: u32)
        ensures
            r == rounding::truncated(self.number(), u32::MAX as nat),
    {
        let f = Format::double();
        rounding::truncate_u32(f, self.taken_apart())
    }

    /// The whole part as a byte: nothing for a negative number or what is not
    /// one, the largest byte for what does not fit.
    pub fn to_u8(self) -> (r: u8)
        ensures
            r == rounding::truncated(self.number(), 255),
    {
        let size = self.to_u32();
        if size > 255 {
            255
        } else {
            size as u8
        }
    }

    /// A whole number.
    pub fn from_u64(n: u64) -> (r: Real64)
        ensures
            r == Real64::of_whole(n as nat),
    {
        reveal(Real64::of_whole);
        let f = Format::double();
        let r = rounding::round_exact(f, false, n as u128, 1, 0);
        assert(f.is_double() && r.fits(f));
        Real64::put_together(r)
    }

    /// The number without its sign.
    pub fn abs(self) -> (r: Real64)
        ensures
            r == self.size_spec(),
    {
        Real64 { bits: self.bits % 0x8000_0000_0000_0000 }
    }
}

impl Real64 {
    /// The single precision number nearest to this one.
    #[verifier::opaque]
    pub open spec fn narrowed_spec(self) -> Real32 {
        Real32::of(rounding::converted(single_format(), self.number()))
    }

    /// The single precision number nearest to this one.
    pub fn narrowed(self) -> (r: Real32)
        ensures
            r == self.narrowed_spec(),
    {
        reveal(Real64::narrowed_spec);
        let f = Format::single();
        let r = rounding::convert(f, Format::double(), self.taken_apart());
        assert(f.is_single() && r.fits(f));
        Real32::put_together(r)
    }
}

impl Real32 {
    /// The same number in double precision, which holds every single precision
    /// one.
    #[verifier::opaque]
    pub open spec fn widened_spec(self) -> Real64 {
        Real64::of(rounding::converted(double_format(), self.number()))
    }

    /// The same number in double precision.
    pub fn widened(self) -> (r: Real64)
        ensures
            r == self.widened_spec(),
    {
        reveal(Real32::widened_spec);
        let f = Format::double();
        let r = rounding::convert(f, Format::single(), self.taken_apart());
        assert(f.is_double() && r.fits(f));
        Real64::put_together(r)
    }
}

impl Real32 {
    /// The square root.
    #[verifier::opaque]
    pub open spec fn root_spec(self) -> Real32 {
        Real32::of(roots::root(single_format(), self.number()))
    }

    /// The square root.
    pub fn sqrt(self) -> (r: Real32)
        ensures
            r == self.root_spec(),
    {
        reveal(Real32::root_spec);
        let f = Format::single();
        let r = roots::take_root(f, self.taken_apart());
        assert(f.is_single() && r.fits(f));
        Real32::put_together(r)
    }
}

} // verus!

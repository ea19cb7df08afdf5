//! Image ▸ Vectorize Bitmap.
//!
//! The active layer's pixels become shape layers, one per colour. This dialog
//! asks the tracer's three questions and hands back a [`VectorizeSpec`].

use super::chrome;
use super::chrome::{DialogButton, DialogKeys, DialogOutcome};
use crate::ieee::Real64;
use crate::strings;
use vstd::prelude::*;

verus! {

/// The most colours the dialog offers (the tracer's own ceiling).
pub const MAX_COLORS: u32 = 64;

/// A confirmed Vectorize Bitmap.
#[derive(Clone, Copy, PartialEq, Structural, Debug)]
pub struct VectorizeSpec {
    /// Posterize to at most this many colours, `1..=`[`MAX_COLORS`]; one shape
    /// layer per colour.
    pub colors: u32,
    /// How far, in pixels, a fitted curve may stray from the traced outline.
    pub tolerance: Real64,
    /// Edges at least this many pixels long on both sides of a vertex keep it a
    /// sharp corner.
    pub corner: Real64,
    /// Hide the source layer once the shapes are made.
    pub hide_source: bool,
}

impl View for VectorizeSpec {
    type V = VectorizeSpec;

    open spec fn view(&self) -> VectorizeSpec {
        *self
    }
}

impl VectorizeSpec {
    /// What the dialog opens on: 8 colours, a pixel of tolerance, corners of 3
    /// pixels, the source hidden.
    pub open spec fn opening() -> VectorizeSpec {
        VectorizeSpec {
            colors: 8,
            tolerance: Real64 { bits: 0x3ff0_0000_0000_0000 },
            corner: Real64 { bits: 0x4008_0000_0000_0000 },
            hide_source: true,
        }
    }

    /// Every field is in range.
    pub open spec fn valid(self) -> bool {
        &&& 1 <= self.colors <= MAX_COLORS
        &&& self.tolerance.finite()
        &&& (Real64 { bits: 0 }).below(self.tolerance)
        &&& self.corner.finite()
        &&& (Real64 { bits: 0x3ff0_0000_0000_0000 }).at_most(self.corner)
    }

    /// What a confirmation hands over.
    pub open spec fn confirmation(self) -> Option<VectorizeSpec> {
        if self.valid() {
            Some(self)
        } else {
            None
        }
    }

    /// Whether every field is in range.
    pub fn is_valid(&self) -> (r: bool)
        ensures
            r == self.valid(),
    {
        1 <= self.colors && self.colors <= MAX_COLORS && self.tolerance.is_finite() && (Real64 {
            bits: 0,
        }).is_below(self.tolerance) && self.corner.is_finite() && (Real64 {
            bits: 0x3ff0_0000_0000_0000,
        }).is_at_most(self.corner)
    }
}

impl Default for VectorizeSpec {
    fn default() -> (r: Self)
        ensures
            r == VectorizeSpec::opening(),
    {
        VectorizeSpec {
            colors: 8,
            tolerance: Real64 { bits: 0x3ff0_0000_0000_0000 },
            corner: Real64 { bits: 0x4008_0000_0000_0000 },
            hide_source: true,
        }
    }
}

/// Image ▸ Vectorize Bitmap.
#[derive(Clone, Copy, Debug)]
pub struct VectorizeDialog {
    spec: VectorizeSpec,
}

impl View for VectorizeDialog {
    type V = VectorizeSpec;

    closed spec fn view(&self) -> VectorizeSpec {
        self.spec
    }
}

impl Default for VectorizeDialog {
    fn default() -> (r: Self)
        ensures
            r@ == VectorizeSpec::opening(),
    {
        VectorizeDialog { spec: VectorizeSpec::default() }
    }
}

impl VectorizeDialog {
    pub fn new(spec: VectorizeSpec) -> (r: Self)
        ensures
            r@ == spec,
    {
        VectorizeDialog { spec }
    }

    pub fn spec(&self) -> (r: VectorizeSpec)
        ensures
            r == self@,
    {
        self.spec
    }

    pub fn set_spec(&mut self, spec: VectorizeSpec)
        ensures
            final(self)@ == spec,
    {
        self.spec = spec;
    }

    /// Type a number of colours, clamped to what the tracer takes.
    pub fn type_colors(&mut self, n: i64)
        ensures
            final(self)@ == (VectorizeSpec {
                colors: if n < 1 {
                    1
                } else if n > MAX_COLORS {
                    MAX_COLORS
                } else {
                    n as u32
                },
                ..old(self)@
            }),
    {
        self.spec.colors = if n < 1 {
            1
        } else if n > MAX_COLORS as i64 {
            MAX_COLORS
        } else {
            n as u32
        };
    }

    /// Why the primary action is unavailable, or `None` when it is live.
    pub fn blocked_reason(&self) -> (r: Option<&'static str>)
        ensures
            match r {
                Some(reason) => !self@.valid() && reason@ == strings::entry(
                    "ui.vectorize.invalid"@,
                ),
                None => self@.valid(),
            },
    {
        if self.spec.is_valid() {
            None
        } else {
            Some(strings::tr("ui.vectorize.invalid"))
        }
    }

    /// The spec a confirmation hands over, or `None` while blocked.
    pub fn confirm(&self) -> (r: Option<VectorizeSpec>)
        ensures
            r == self@.confirmation(),
    {
        if self.spec.is_valid() {
            Some(self.spec)
        } else {
            None
        }
    }

    /// Escape and Enter; Escape wins over Enter.
    pub fn resolve(&self, keys: DialogKeys) -> (r: DialogOutcome<VectorizeSpec>)
        ensures
            r == chrome::settled(keys, self@.confirmation()),
    {
        chrome::settle(keys, self.confirm())
    }

    /// A button of the action row.
    pub fn press(&self, button: DialogButton) -> (r: DialogOutcome<VectorizeSpec>)
        ensures
            r == chrome::pressed(button, self@.confirmation()),
    {
        chrome::press(button, self.confirm())
    }
}

} // verus!

//! Image ▸ Trim: what counts as "empty", and which sides to trim away.
//!
//! The dialog hands back a [`TrimSpec`] and nothing else; the pixels are the
//! application's, so the bounds are computed there.

use super::chrome;
use super::chrome::{DialogButton, DialogKeys, DialogOutcome};
use crate::strings;
use crate::text;
use vstd::prelude::*;

verus! {

/// What a "trimmable" pixel is judged against.
#[derive(Clone, Copy, PartialEq, Eq, Structural, Hash, Debug)]
pub enum TrimBasis {
    /// Pixels with zero alpha.
    Transparent,
    /// Pixels equal to the top-left corner's colour.
    TopLeftColor,
    /// Pixels equal to the bottom-right corner's colour.
    BottomRightColor,
}

impl Default for TrimBasis {
    fn default() -> (r: Self)
        ensures
            r == TrimBasis::Transparent,
    {
        TrimBasis::Transparent
    }
}

impl TrimBasis {
    pub const ALL: [TrimBasis; 3] = [
        TrimBasis::Transparent,
        TrimBasis::TopLeftColor,
        TrimBasis::BottomRightColor,
    ];

    pub fn label(self) -> (r: &'static str)
        ensures
            r@ == match self {
                TrimBasis::Transparent => strings::entry("ui.trim.transparent.pixels"@),
                TrimBasis::TopLeftColor => strings::entry("ui.trim.top.left.color"@),
                TrimBasis::BottomRightColor => strings::entry("ui.trim.bottom.right.color"@),
            },
    {
        match self {
            TrimBasis::Transparent => strings::tr("ui.trim.transparent.pixels"),
            TrimBasis::TopLeftColor => strings::tr("ui.trim.top.left.color"),
            TrimBasis::BottomRightColor => strings::tr("ui.trim.bottom.right.color"),
        }
    }
}

/// The confirmed trim: a basis and the sides to take away.
#[derive(Clone, Copy, PartialEq, Eq, Structural, Debug)]
pub struct TrimSpec {
    pub basis: TrimBasis,
    pub top: bool,
    pub bottom: bool,
    pub left: bool,
    pub right: bool,
}

impl View for TrimSpec {
    type V = TrimSpec;

    open spec fn view(&self) -> TrimSpec {
        *self
    }
}

impl Default for TrimSpec {
    /// Transparent pixels, every side.
    fn default() -> (r: Self)
        ensures
            r == TrimSpec::opening(),
    {
        TrimSpec { basis: TrimBasis::Transparent, top: true, bottom: true, left: true, right: true }
    }
}

impl TrimSpec {
    /// What the dialog opens on.
    pub open spec fn opening() -> TrimSpec {
        TrimSpec { basis: TrimBasis::Transparent, top: true, bottom: true, left: true, right: true }
    }

    /// A trim of no side does nothing.
    pub open spec fn valid(self) -> bool {
        self.top || self.bottom || self.left || self.right
    }

    /// Whether at least one side is chosen.
    pub fn is_valid(&self) -> (r: bool)
        ensures
            r == self.valid(),
    {
        self.top || self.bottom || self.left || self.right
    }
}

/// Image ▸ Trim.
#[derive(Debug, Clone, Copy, PartialEq, Eq, Structural)]
pub struct TrimDialog {
    spec: TrimSpec,
}

impl View for TrimDialog {
    type V = TrimSpec;

    closed spec fn view(&self) -> TrimSpec {
        self.spec
    }
}

impl Default for TrimDialog {
    fn default() -> (r: Self)
        ensures
            r@ == TrimSpec::opening(),
    {
        TrimDialog { spec: TrimSpec::default() }
    }
}

impl TrimSpec {
    /// What a confirmation hands over.
    pub open spec fn confirmation(self) -> Option<TrimSpec> {
        if self.valid() {
            Some(self)
        } else {
            None
        }
    }
}

impl TrimDialog {
    pub fn new(spec: TrimSpec) -> (r: Self)
        ensures
            r@ == spec,
    {
        TrimDialog { spec }
    }

    /// The spec as it stands.
    pub fn spec(&self) -> (r: TrimSpec)
        ensures
            r == self@,
    {
        self.spec
    }

    /// Set the spec directly.
    pub fn set_spec(&mut self, spec: TrimSpec)
        ensures
            final(self)@ == spec,
    {
        self.spec = spec;
    }

    pub fn title(&self) -> (r: &'static str)
        ensures
            r@ == "Trim"@,
    {
        "Trim"
    }

    /// Why the primary action is unavailable, or `None` when it is live.
    pub fn blocked_reason(&self) -> (r: Option<String>)
        ensures
            match r {
                Some(reason) => !self@.valid() && reason@ == strings::entry(
                    "ui.trim.choose.a.side"@,
                ),
                None => self@.valid(),
            },
    {
        if self.spec.is_valid() {
            None
        } else {
            Some(text::copied(strings::tr("ui.trim.choose.a.side")))
        }
    }

    /// The spec a confirmation hands over, or `None` when no side is chosen.
    pub fn confirm(&self) -> (r: Option<TrimSpec>)
        ensures
            r == self@.confirmation(),
    {
        if self.spec.is_valid() {
            Some(self.spec)
        } else {
            None
        }
    }

    /// Escape and Enter; Escape wins over Enter.
    pub fn resolve(&self, keys: DialogKeys) -> (r: DialogOutcome<TrimSpec>)
        ensures
            r == chrome::settled(keys, self@.confirmation()),
    {
        chrome::settle(keys, self.confirm())
    }

    /// A button of the action row.
    pub fn press(&self, button: DialogButton) -> (r: DialogOutcome<TrimSpec>)
        ensures
            r == chrome::pressed(button, self@.confirmation()),
    {
        chrome::press(button, self.confirm())
    }
}

} // verus!

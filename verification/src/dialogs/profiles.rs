//! The built-in colour profiles and the palettes a picture can be reduced to.

use vstd::prelude::*;

verus! {

/// A built-in colour profile.
#[derive(Clone, Copy, PartialEq, Eq, Structural, Hash, Debug)]
pub enum ProfileChoice {
    Srgb,
    AdobeRgb,
    DisplayP3,
    ProPhotoRgb,
}

impl ProfileChoice {
    /// Every profile, in menu order.
    pub const ALL: [ProfileChoice; 4] = [
        ProfileChoice::Srgb,
        ProfileChoice::AdobeRgb,
        ProfileChoice::DisplayP3,
        ProfileChoice::ProPhotoRgb,
    ];

    pub fn label(self) -> (r: &'static str)
        ensures
            r@ == match self {
                ProfileChoice::Srgb => "sRGB"@,
                ProfileChoice::AdobeRgb => "Adobe RGB (1998)"@,
                ProfileChoice::DisplayP3 => "Display P3"@,
                ProfileChoice::ProPhotoRgb => "ProPhoto RGB"@,
            },
    {
        match self {
            ProfileChoice::Srgb => "sRGB",
            ProfileChoice::AdobeRgb => "Adobe RGB (1998)",
            ProfileChoice::DisplayP3 => "Display P3",
            ProfileChoice::ProPhotoRgb => "ProPhoto RGB",
        }
    }
}

/// Where a palette comes from.
#[derive(Clone, Copy, PartialEq, Eq, Structural, Hash, Debug)]
pub enum PaletteKind {
    /// The colours the picture has.
    Adaptive,
    /// Colours spaced evenly.
    Uniform,
    /// The fixed web palette.
    Web,
}

/// How the colours a palette lacks are made up for.
#[derive(Clone, Copy, PartialEq, Eq, Structural, Hash, Debug)]
pub enum Dither {
    Off,
    Diffusion,
}

/// Fewest colours a palette holds.
pub const MIN_COLORS: u16 = 2;

/// Most colours a palette holds.
pub const MAX_COLORS: u16 = 256;

/// A palette to reduce a picture to.
#[derive(Clone, Copy, PartialEq, Eq, Structural, Debug)]
pub struct IndexedSpec {
    pub palette: PaletteKind,
    pub colors: u16,
    pub dither: Dither,
}

impl View for IndexedSpec {
    type V = IndexedSpec;

    open spec fn view(&self) -> IndexedSpec {
        *self
    }
}

impl IndexedSpec {
    /// The number of colours is one a palette can hold.
    pub open spec fn valid(self) -> bool {
        MIN_COLORS <= self.colors <= MAX_COLORS
    }

    pub fn is_valid(&self) -> (r: bool)
        ensures
            r == self.valid(),
    {
        MIN_COLORS <= self.colors && self.colors <= MAX_COLORS
    }

    /// What a confirmation hands over.
    pub open spec fn confirmation(self) -> Option<IndexedSpec> {
        if self.valid() {
            Some(self)
        } else {
            None
        }
    }
}

} // verus!

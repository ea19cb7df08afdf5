//! Edit ▸ Convert to Profile, Image ▸ Reduce Colors and Image ▸ Wavelet
//! Decompose.
//!
//! Each dialog hands back a spec and nothing else; the pixels are the
//! application's.

use super::chrome;
use super::chrome::{DialogButton, DialogKeys, DialogOutcome};
use super::profiles::{Dither, IndexedSpec, PaletteKind, ProfileChoice, MAX_COLORS, MIN_COLORS};
use crate::sequences;
use crate::strings;
use crate::text;
use vstd::prelude::*;

verus! {

/// The fewest scales Image ▸ Wavelet Decompose accepts.
pub const MIN_WAVELET_SCALES: u8 = 2;

/// The most scales Image ▸ Wavelet Decompose accepts.
pub const MAX_WAVELET_SCALES: u8 = 7;

// ---------------------------------------------------------------------------
// Convert to Profile
// ---------------------------------------------------------------------------

/// The ICC rendering intents Convert to Profile offers.
#[derive(Clone, Copy, PartialEq, Eq, Structural, Hash, Debug)]
pub enum RenderingIntent {
    Perceptual,
    Saturation,
    /// Media white maps to media white (the ICC default).
    RelativeColorimetric,
    /// The source white is kept as the colour it is, not adapted to the
    /// destination's white.
    AbsoluteColorimetric,
}

impl Default for RenderingIntent {
    fn default() -> (r: Self)
        ensures
            r == RenderingIntent::RelativeColorimetric,
    {
        RenderingIntent::RelativeColorimetric
    }
}

impl RenderingIntent {
    pub const ALL: [RenderingIntent; 4] = [
        RenderingIntent::Perceptual,
        RenderingIntent::Saturation,
        RenderingIntent::RelativeColorimetric,
        RenderingIntent::AbsoluteColorimetric,
    ];

    pub fn label(self) -> (r: &'static str)
        ensures
            r@ == match self {
                RenderingIntent::Perceptual => strings::entry("ui.w13f.intent.perceptual"@),
                RenderingIntent::Saturation => strings::entry("ui.w13f.intent.saturation"@),
                RenderingIntent::RelativeColorimetric => strings::entry(
                    "ui.w13f.intent.relative"@,
                ),
                RenderingIntent::AbsoluteColorimetric => strings::entry(
                    "ui.w13f.intent.absolute"@,
                ),
            },
    {
        match self {
            RenderingIntent::Perceptual => strings::tr("ui.w13f.intent.perceptual"),
            RenderingIntent::Saturation => strings::tr("ui.w13f.intent.saturation"),
            RenderingIntent::RelativeColorimetric => strings::tr("ui.w13f.intent.relative"),
            RenderingIntent::AbsoluteColorimetric => strings::tr("ui.w13f.intent.absolute"),
        }
    }
}

/// The confirmed conversion: destination, intent, black point compensation.
#[derive(Clone, Copy, PartialEq, Eq, Structural, Debug)]
pub struct ConvertProfileSpec {
    pub target: ProfileChoice,
    pub intent: RenderingIntent,
    pub black_point: bool,
}

impl View for ConvertProfileSpec {
    type V = ConvertProfileSpec;

    open spec fn view(&self) -> ConvertProfileSpec {
        *self
    }
}

impl ConvertProfileSpec {
    /// What the dialog opens on: the first listed profile that is not the
    /// document's own, Relative Colorimetric, with black point compensation.
    pub open spec fn opening(current: Option<ProfileChoice>) -> ConvertProfileSpec {
        ConvertProfileSpec {
            target: match sequences::first_where(
                ProfileChoice::ALL@,
                |p: ProfileChoice| Some(p) != current,
            ) {
                Some(p) => p,
                None => ProfileChoice::Srgb,
            },
            intent: RenderingIntent::RelativeColorimetric,
            black_point: true,
        }
    }

    /// Aimed at the first listed profile that is not the document's own
    /// (`current`): Relative Colorimetric, with black point compensation.
    pub fn default_for(current: Option<ProfileChoice>) -> (r: Self)
        ensures
            r == ConvertProfileSpec::opening(current),
    {
        let all = ProfileChoice::ALL;
        let ghost wanted = |p: ProfileChoice| Some(p) != current;
        let mut target = ProfileChoice::Srgb;
        let mut i: usize = 0;
        while i < 4
            invariant
                i <= 4,
                all@ == ProfileChoice::ALL@,
                all@.len() == 4,
                wanted == (|p: ProfileChoice| Some(p) != current),
                sequences::first_where(all@.take(i as int), wanted) is None,
                target == ProfileChoice::Srgb,
            decreases 4 - i,
        {
            proof {
                sequences::lemma_first_where_step(all@, wanted, i as int);
            }
            let own = match current {
                Some(p) => p == all[i],
                None => false,
            };
            if !own {
                proof {
                    sequences::lemma_first_where_prefix(all@, wanted, i + 1, all@[i as int]);
                }
                return ConvertProfileSpec {
                    target: all[i],
                    intent: RenderingIntent::default(),
                    black_point: true,
                };
            }
            i = i + 1;
        }
        assert(all@.take(i as int) == all@);
        ConvertProfileSpec { target, intent: RenderingIntent::default(), black_point: true }
    }
}

/// What a [`ConvertProfileDialog`] stands for.
#[verifier::ext_equal]
pub struct ConvertProfileModel {
    pub spec: ConvertProfileSpec,
    /// The built-in profile the document wears, which is no destination.
    pub current: Option<ProfileChoice>,
    /// The document's profile, by name.
    pub source: Seq<char>,
}

impl ConvertProfileModel {
    /// What a confirmation hands over: a conversion to another profile.
    pub open spec fn confirmation(self) -> Option<ConvertProfileSpec> {
        if Some(self.spec.target) == self.current {
            None
        } else {
            Some(self.spec)
        }
    }
}

/// The dialog opens on a conversion that can be confirmed.
pub proof fn the_opening_conversion_changes_the_profile(
    current: Option<ProfileChoice>,
    source: Seq<char>,
)
    ensures
        (ConvertProfileModel {
            spec: ConvertProfileSpec::opening(current),
            current,
            source,
        }).confirmation() is Some,
{
    let wanted = |p: ProfileChoice| Some(p) != current;
    sequences::lemma_first_where(ProfileChoice::ALL@, wanted);
    assert(ProfileChoice::ALL@[0] == ProfileChoice::Srgb && ProfileChoice::ALL@[1]
        == ProfileChoice::AdobeRgb);
}

/// Edit ▸ Convert to Profile.
#[derive(Debug, Clone, PartialEq, Eq)]
pub struct ConvertProfileDialog {
    spec: ConvertProfileSpec,
    current: Option<ProfileChoice>,
    source: String,
}

impl View for ConvertProfileDialog {
    type V = ConvertProfileModel;

    closed spec fn view(&self) -> ConvertProfileModel {
        ConvertProfileModel { spec: self.spec, current: self.current, source: self.source@ }
    }
}

impl ConvertProfileDialog {
    pub fn new(current: Option<ProfileChoice>, source: String) -> (r: Self)
        ensures
            r@ == (ConvertProfileModel {
                spec: ConvertProfileSpec::opening(current),
                current,
                source: source@,
            }),
    {
        ConvertProfileDialog { spec: ConvertProfileSpec::default_for(current), current, source }
    }

    pub fn spec(&self) -> (r: ConvertProfileSpec)
        ensures
            r == self@.spec,
    {
        self.spec
    }

    /// Set the spec directly.
    pub fn set_spec(&mut self, spec: ConvertProfileSpec)
        ensures
            final(self)@ == (ConvertProfileModel { spec, ..old(self)@ }),
    {
        self.spec = spec;
    }

    /// The document's profile, by name.
    pub fn source(&self) -> (r: &str)
        ensures
            r@ == self@.source,
    {
        self.source.as_str()
    }

    pub fn title(&self) -> (r: &'static str)
        ensures
            r@ == strings::entry("ui.w13f.convert.title"@),
    {
        strings::tr("ui.w13f.convert.title")
    }

    /// Why the primary action is unavailable, or `None` when it is live.
    pub fn blocked_reason(&self) -> (r: Option<String>)
        ensures
            match r {
                Some(reason) => self@.confirmation() is None && reason@ == strings::entry(
                    "ui.w13f.convert.same"@,
                ),
                None => self@.confirmation() is Some,
            },
    {
        let own = match self.current {
            Some(p) => p == self.spec.target,
            None => false,
        };
        if own {
            Some(text::copied(strings::tr("ui.w13f.convert.same")))
        } else {
            None
        }
    }

    /// The conversion a confirmation asks for, or `None` while blocked.
    pub fn confirm(&self) -> (r: Option<ConvertProfileSpec>)
        ensures
            r == self@.confirmation(),
    {
        if self.blocked_reason().is_none() {
            Some(self.spec)
        } else {
            None
        }
    }

    /// Escape and Enter; Escape wins over Enter.
    pub fn resolve(&self, keys: DialogKeys) -> (r: DialogOutcome<ConvertProfileSpec>)
        ensures
            r == chrome::settled(keys, self@.confirmation()),
    {
        chrome::settle(keys, self.confirm())
    }

    /// A button of the action row.
    pub fn press(&self, button: DialogButton) -> (r: DialogOutcome<ConvertProfileSpec>)
        ensures
            r == chrome::pressed(button, self@.confirmation()),
    {
        chrome::press(button, self.confirm())
    }
}

// ---------------------------------------------------------------------------
// Reduce Colors
// ---------------------------------------------------------------------------

/// Image ▸ Reduce Colors: the Indexed Color question (palette source, count,
/// dither) asked of the active layer, which stays RGB.
#[derive(Debug, Clone, Copy, PartialEq, Eq, Structural)]
pub struct ReduceColorsDialog {
    spec: IndexedSpec,
}

impl View for ReduceColorsDialog {
    type V = IndexedSpec;

    closed spec fn view(&self) -> IndexedSpec {
        self.spec
    }
}

impl Default for ReduceColorsDialog {
    fn default() -> (r: Self)
        ensures
            r@ == ReduceColorsDialog::opening(),
    {
        ReduceColorsDialog { spec: ReduceColorsDialog::default_spec() }
    }
}

impl ReduceColorsDialog {
    /// The opening state: an adaptive palette of 16 colours, diffused.
    pub open spec fn opening() -> IndexedSpec {
        IndexedSpec { palette: PaletteKind::Adaptive, colors: 16, dither: Dither::Diffusion }
    }

    /// The opening state.
    pub fn default_spec() -> (r: IndexedSpec)
        ensures
            r == ReduceColorsDialog::opening(),
    {
        IndexedSpec { palette: PaletteKind::Adaptive, colors: 16, dither: Dither::Diffusion }
    }

    pub fn spec(&self) -> (r: IndexedSpec)
        ensures
            r == self@,
    {
        self.spec
    }

    /// Set the spec directly.
    pub fn set_spec(&mut self, spec: IndexedSpec)
        ensures
            final(self)@ == spec,
    {
        self.spec = spec;
    }

    /// Type a number of colours, clamped to what a palette can hold.
    pub fn type_colors(&mut self, n: i64)
        ensures
            final(self)@ == (IndexedSpec {
                colors: if n < MIN_COLORS {
                    MIN_COLORS
                } else if n > MAX_COLORS {
                    MAX_COLORS
                } else {
                    n as u16
                },
                ..old(self)@
            }),
    {
        self.spec.colors = if n < MIN_COLORS as i64 {
            MIN_COLORS
        } else if n > MAX_COLORS as i64 {
            MAX_COLORS
        } else {
            n as u16
        };
    }

    /// Whether the number of colours can be typed: the web palette's is fixed.
    pub fn count_applies(&self) -> (r: bool)
        ensures
            r == (self@.palette != PaletteKind::Web),
    {
        self.spec.palette != PaletteKind::Web
    }

    pub fn title(&self) -> (r: &'static str)
        ensures
            r@ == strings::entry("ui.w13f.reduce.title"@),
    {
        strings::tr("ui.w13f.reduce.title")
    }

    pub fn blocked_reason(&self) -> (r: Option<String>)
        ensures
            match r {
                Some(reason) => !self@.valid() && reason@ == strings::entry(
                    "ui.w13f.reduce.bad_count"@,
                ),
                None => self@.valid(),
            },
    {
        if self.spec.is_valid() {
            None
        } else {
            Some(text::copied(strings::tr("ui.w13f.reduce.bad_count")))
        }
    }

    pub fn confirm(&self) -> (r: Option<IndexedSpec>)
        ensures
            r == self@.confirmation(),
    {
        if self.spec.is_valid() {
            Some(self.spec)
        } else {
            None
        }
    }

    /// Escape and Enter; Escape wins over Enter.
    pub fn resolve(&self, keys: DialogKeys) -> (r: DialogOutcome<IndexedSpec>)
        ensures
            r == chrome::settled(keys, self@.confirmation()),
    {
        chrome::settle(keys, self.confirm())
    }

    /// A button of the action row.
    pub fn press(&self, button: DialogButton) -> (r: DialogOutcome<IndexedSpec>)
        ensures
            r == chrome::pressed(button, self@.confirmation()),
    {
        chrome::press(button, self.confirm())
    }
}

// ---------------------------------------------------------------------------
// Wavelet Decompose
// ---------------------------------------------------------------------------

/// The confirmed split: how many detail layers over the residual.
#[derive(Clone, Copy, PartialEq, Eq, Structural, Debug)]
pub struct WaveletSpec {
    pub scales: u8,
}

impl View for WaveletSpec {
    type V = WaveletSpec;

    open spec fn view(&self) -> WaveletSpec {
        *self
    }
}

impl Default for WaveletSpec {
    fn default() -> (r: Self)
        ensures
            r == (WaveletSpec { scales: 5 }),
    {
        WaveletSpec { scales: 5 }
    }
}

impl WaveletSpec {
    /// The number of scales is one the split accepts.
    pub open spec fn valid(self) -> bool {
        MIN_WAVELET_SCALES <= self.scales <= MAX_WAVELET_SCALES
    }

    /// What a confirmation hands over.
    pub open spec fn confirmation(self) -> Option<WaveletSpec> {
        if self.valid() {
            Some(self)
        } else {
            None
        }
    }

    pub fn is_valid(&self) -> (r: bool)
        ensures
            r == self.valid(),
    {
        MIN_WAVELET_SCALES <= self.scales && self.scales <= MAX_WAVELET_SCALES
    }
}

/// Image ▸ Wavelet Decompose.
#[derive(Debug, Clone, Copy, PartialEq, Eq, Structural)]
pub struct WaveletDialog {
    spec: WaveletSpec,
}

impl View for WaveletDialog {
    type V = WaveletSpec;

    closed spec fn view(&self) -> WaveletSpec {
        self.spec
    }
}

impl Default for WaveletDialog {
    fn default() -> (r: Self)
        ensures
            r@ == (WaveletSpec { scales: 5 }),
    {
        WaveletDialog { spec: WaveletSpec::default() }
    }
}

impl WaveletDialog {
    pub fn spec(&self) -> (r: WaveletSpec)
        ensures
            r == self@,
    {
        self.spec
    }

    /// Set the spec directly.
    pub fn set_spec(&mut self, spec: WaveletSpec)
        ensures
            final(self)@ == spec,
    {
        self.spec = spec;
    }

    /// Type a number of scales, clamped to what the split accepts.
    pub fn type_scales(&mut self, n: i64)
        ensures
            final(self)@ == (WaveletSpec {
                scales: if n < MIN_WAVELET_SCALES {
                    MIN_WAVELET_SCALES
                } else if n > MAX_WAVELET_SCALES {
                    MAX_WAVELET_SCALES
                } else {
                    n as u8
                },
            }),
    {
        self.spec.scales = if n < MIN_WAVELET_SCALES as i64 {
            MIN_WAVELET_SCALES
        } else if n > MAX_WAVELET_SCALES as i64 {
            MAX_WAVELET_SCALES
        } else {
            n as u8
        };
    }

    pub fn title(&self) -> (r: &'static str)
        ensures
            r@ == strings::entry("ui.w13f.wavelet.title"@),
    {
        strings::tr("ui.w13f.wavelet.title")
    }

    pub fn blocked_reason(&self) -> (r: Option<String>)
        ensures
            match r {
                Some(reason) => !self@.valid() && reason@ == strings::entry(
                    "ui.w13f.wavelet.bad_count"@,
                ),
                None => self@.valid(),
            },
    {
        if self.spec.is_valid() {
            None
        } else {
            Some(text::copied(strings::tr("ui.w13f.wavelet.bad_count")))
        }
    }

    pub fn confirm(&self) -> (r: Option<WaveletSpec>)
        ensures
            r == self@.confirmation(),
    {
        if self.spec.is_valid() {
            Some(self.spec)
        } else {
            None
        }
    }

    /// Escape and Enter; Escape wins over Enter.
    pub fn resolve(&self, keys: DialogKeys) -> (r: DialogOutcome<WaveletSpec>)
        ensures
            r == chrome::settled(keys, self@.confirmation()),
    {
        chrome::settle(keys, self.confirm())
    }

    /// A button of the action row.
    pub fn press(&self, button: DialogButton) -> (r: DialogOutcome<WaveletSpec>)
        ensures
            r == chrome::pressed(button, self@.confirmation()),
    {
        chrome::press(button, self.confirm())
    }
}

} // verus!

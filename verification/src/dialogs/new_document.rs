//! New Document.
//!
//! A preset list on the left, the resolved specification on the right. Picking
//! a preset writes into the same fields the user can type into, so there is
//! never a hidden preset mode: editing a field simply drops the preset
//! highlight and keeps the numbers.

use super::chrome;
use super::chrome::{DialogButton, DialogKeys, DialogOutcome};
use super::units;
use super::units::{ResolutionUnit, Unit};
use crate::ieee::Real64;
use crate::rgba::Rgba;
use crate::rounding;
use crate::text;
use vstd::prelude::*;

verus! {

/// Largest side a new document may have, in pixels: the engine's own limit.
pub const MAX_DIMENSION: u32 = 300_000;

/// Largest area a new document may have, in pixels. A 300000 x 300000 document
/// is 90 gigapixels; the area cap is what actually keeps the request sane.
pub const MAX_PIXELS: u64 = 1_000_000_000;

/// How a new document's channels are interpreted.
///
/// Only [`ColorMode::Rgb`] is backed by the document model today. The other two
/// are listed and refused with a reason rather than hidden.
#[derive(Clone, Copy, PartialEq, Eq, Structural, Hash, Debug)]
pub enum ColorMode {
    Rgb,
    Grayscale,
    Cmyk,
}

impl Default for ColorMode {
    fn default() -> (r: Self)
        ensures
            r == ColorMode::Rgb,
    {
        ColorMode::Rgb
    }
}

impl ColorMode {
    /// Every mode, in menu order.
    pub const ALL: [ColorMode; 3] = [ColorMode::Rgb, ColorMode::Grayscale, ColorMode::Cmyk];

    /// Menu label.
    pub fn label(self) -> (r: &'static str)
        ensures
            r@ == match self {
                ColorMode::Rgb => "RGB Color"@,
                ColorMode::Grayscale => "Grayscale"@,
                ColorMode::Cmyk => "CMYK Color"@,
            },
    {
        match self {
            ColorMode::Rgb => "RGB Color",
            ColorMode::Grayscale => "Grayscale",
            ColorMode::Cmyk => "CMYK Color",
        }
    }

    /// Why a mode cannot be chosen.
    pub open spec fn refusal(self) -> Option<Seq<char>> {
        match self {
            ColorMode::Rgb => None,
            ColorMode::Grayscale => Some("Grayscale documents are not supported yet — create an RGB document and use a Black & White adjustment"@),
            ColorMode::Cmyk => Some("CMYK documents are not supported yet — the compositor works in RGB"@),
        }
    }

    /// Why this mode cannot be chosen, or `None` when it can.
    pub fn unavailable(self) -> (r: Option<&'static str>)
        ensures
            match r {
                Some(reason) => self.refusal() == Some(reason@),
                None => self.refusal() is None,
            },
    {
        match self {
            ColorMode::Rgb => None,
            ColorMode::Grayscale => Some("Grayscale documents are not supported yet — create an RGB document and use a Black & White adjustment"),
            ColorMode::Cmyk => Some("CMYK documents are not supported yet — the compositor works in RGB"),
        }
    }

    /// How many channels a pixel has.
    pub open spec fn channel_count(self) -> u32 {
        match self {
            ColorMode::Rgb => 4,
            ColorMode::Grayscale => 2,
            ColorMode::Cmyk => 5,
        }
    }

    /// Channels stored per pixel, used for the memory estimate.
    pub fn channels(self) -> (r: u32)
        ensures
            r == self.channel_count(),
    {
        match self {
            ColorMode::Rgb => 4,
            ColorMode::Grayscale => 2,
            ColorMode::Cmyk => 5,
        }
    }
}

/// The colour profile a new document carries.
#[derive(Clone, Copy, PartialEq, Eq, Structural, Hash, Debug)]
pub enum ColorSpace {
    Srgb,
    DisplayP3,
    LinearSrgb,
}

impl ColorSpace {
    /// Every profile, in menu order.
    pub const ALL: [ColorSpace; 3] = [
        ColorSpace::Srgb,
        ColorSpace::DisplayP3,
        ColorSpace::LinearSrgb,
    ];
}

/// How many bits a channel has.
#[derive(Clone, Copy, PartialEq, Eq, Structural, Hash, Debug)]
pub enum BitDepth {
    Eight,
    Sixteen,
}

impl BitDepth {
    pub const ALL: [BitDepth; 2] = [BitDepth::Eight, BitDepth::Sixteen];

    pub fn label(self) -> (r: &'static str)
        ensures
            r@ == match self {
                BitDepth::Eight => "8 bit"@,
                BitDepth::Sixteen => "16 bit"@,
            },
    {
        match self {
            BitDepth::Eight => "8 bit",
            BitDepth::Sixteen => "16 bit",
        }
    }
}

/// What the background layer of a new document is filled with.
#[derive(Clone, Copy, PartialEq, Structural, Debug)]
pub enum BackgroundContents {
    White,
    Black,
    /// No background layer at all.
    Transparent,
    /// A straight-alpha colour.
    Custom(Rgba),
}

impl Default for BackgroundContents {
    fn default() -> (r: Self)
        ensures
            r == BackgroundContents::White,
    {
        BackgroundContents::White
    }
}

impl BackgroundContents {
    /// The menu's entries, in order; the custom one stands for any colour.
    pub open spec fn entries() -> Seq<BackgroundContents> {
        seq![
            BackgroundContents::White,
            BackgroundContents::Black,
            BackgroundContents::Transparent,
            BackgroundContents::Custom(Rgba::white_spec()),
        ]
    }

    /// The menu's entries, in order; the custom one stands for any colour.
    pub fn menu() -> (r: [BackgroundContents; 4])
        ensures
            r@ == BackgroundContents::entries(),
    {
        let r = [
            BackgroundContents::White,
            BackgroundContents::Black,
            BackgroundContents::Transparent,
            BackgroundContents::Custom(Rgba::white()),
        ];
        assert(r@ == BackgroundContents::entries());
        r
    }

    /// Menu label. `Custom` does not print its colour; the swatch beside the
    /// menu shows it.
    pub fn label(self) -> (r: &'static str)
        ensures
            r@ == match self {
                BackgroundContents::White => "White"@,
                BackgroundContents::Black => "Black"@,
                BackgroundContents::Transparent => "Transparent"@,
                BackgroundContents::Custom(_) => "Custom"@,
            },
    {
        match self {
            BackgroundContents::White => "White",
            BackgroundContents::Black => "Black",
            BackgroundContents::Transparent => "Transparent",
            BackgroundContents::Custom(_) => "Custom",
        }
    }

    /// Whether two choices are the same *menu entry*, ignoring a custom
    /// colour's value.
    pub fn same_entry(self, other: Self) -> (r: bool)
        ensures
            r == ((self is White && other is White) || (self is Black && other is Black) || (
            self is Transparent && other is Transparent) || (self is Custom && other is Custom)),
    {
        match (self, other) {
            (BackgroundContents::White, BackgroundContents::White) => true,
            (BackgroundContents::Black, BackgroundContents::Black) => true,
            (BackgroundContents::Transparent, BackgroundContents::Transparent) => true,
            (BackgroundContents::Custom(_), BackgroundContents::Custom(_)) => true,
            _ => false,
        }
    }

    /// The straight-alpha fill, or `None` for a document with no background.
    pub fn fill(self) -> (r: Option<Rgba>)
        ensures
            r == match self {
                BackgroundContents::White => Some(Rgba::white_spec()),
                BackgroundContents::Black => Some(Rgba::black_spec()),
                BackgroundContents::Transparent => None,
                BackgroundContents::Custom(rgba) => Some(rgba),
            },
    {
        match self {
            BackgroundContents::White => Some(Rgba::white()),
            BackgroundContents::Black => Some(Rgba::black()),
            BackgroundContents::Transparent => None,
            BackgroundContents::Custom(rgba) => Some(rgba),
        }
    }
}

/// Which shelf of the preset list a preset sits on.
#[derive(Clone, Copy, PartialEq, Eq, Structural, Hash, Debug)]
pub enum PresetGroup {
    Screen,
    Print,
    Social,
}

impl PresetGroup {
    /// Every group, in list order.
    pub const ALL: [PresetGroup; 3] = [PresetGroup::Screen, PresetGroup::Print, PresetGroup::Social];

    /// Section header text.
    pub fn label(self) -> (r: &'static str)
        ensures
            r@ == match self {
                PresetGroup::Screen => "Screen"@,
                PresetGroup::Print => "Print"@,
                PresetGroup::Social => "Social"@,
            },
    {
        match self {
            PresetGroup::Screen => "Screen",
            PresetGroup::Print => "Print",
            PresetGroup::Social => "Social",
        }
    }
}

/// One named starting point.
#[derive(Clone, Copy, PartialEq, Debug)]
pub struct DocumentPreset {
    pub group: PresetGroup,
    pub name: &'static str,
    pub width: Real64,
    pub height: Real64,
    pub unit: Unit,
    pub ppi: Real64,
    pub background: BackgroundContents,
}

/// What a [`DocumentPreset`] stands for.
#[verifier::ext_equal]
pub struct PresetModel {
    pub group: PresetGroup,
    pub name: Seq<char>,
    pub width: Real64,
    pub height: Real64,
    pub unit: Unit,
    pub ppi: Real64,
    pub background: BackgroundContents,
}

impl View for DocumentPreset {
    type V = PresetModel;

    open spec fn view(&self) -> PresetModel {
        PresetModel {
            group: self.group,
            name: self.name@,
            width: self.width,
            height: self.height,
            unit: self.unit,
            ppi: self.ppi,
            background: self.background,
        }
    }
}

/// A preset on white: 72 pixels per inch where it is typed in pixels, 300 where
/// it is a printed size.
pub open spec fn start(
    group: PresetGroup,
    name: Seq<char>,
    width: Real64,
    height: Real64,
    unit: Unit,
) -> PresetModel {
    PresetModel {
        group,
        name,
        width,
        height,
        unit,
        ppi: if unit == Unit::Pixels {
            Real64 { bits: 0x4052_0000_0000_0000 }
        } else {
            Real64 { bits: 0x4072_c000_0000_0000 }
        },
        background: BackgroundContents::White,
    }
}

fn starting(
    group: PresetGroup,
    name: &'static str,
    width: Real64,
    height: Real64,
    unit: Unit,
) -> (r: DocumentPreset)
    ensures
        r@ == start(group, name@, width, height, unit),
{
    DocumentPreset {
        group,
        name,
        width,
        height,
        unit,
        ppi: if unit == Unit::Pixels {
            Real64 { bits: 0x4052_0000_0000_0000 }
        } else {
            Real64 { bits: 0x4072_c000_0000_0000 }
        },
        background: BackgroundContents::White,
    }
}

/// How many presets there are.
pub const PRESET_COUNT: usize = 20;

/// The presets of one shelf, by their place in the list.
pub open spec fn shelf(group: PresetGroup, upto: int) -> Seq<usize>
    decreases upto,
{
    if upto <= 0 {
        Seq::empty()
    } else {
        let before = shelf(group, upto - 1);
        match DocumentPreset::listed(upto - 1) {
            Some(preset) if preset.group == group => before.push((upto - 1) as usize),
            _ => before,
        }
    }
}

impl DocumentPreset {
    /// The built-in presets, by their place in the list.
    pub open spec fn listed(index: int) -> Option<PresetModel> {
        if index == 0 {
            Some(start(PresetGroup::Screen, "Web 1280 x 720"@, Real64::of_whole(1280), Real64::of_whole(720), Unit::Pixels))
        } else if index == 1 {
            Some(start(PresetGroup::Screen, "Web 1920 x 1080"@, Real64::of_whole(1920), Real64::of_whole(1080), Unit::Pixels))
        } else if index == 2 {
            Some(start(PresetGroup::Screen, "Web 2560 x 1440"@, Real64::of_whole(2560), Real64::of_whole(1440), Unit::Pixels))
        } else if index == 3 {
            Some(start(PresetGroup::Screen, "UHD 3840 x 2160"@, Real64::of_whole(3840), Real64::of_whole(2160), Unit::Pixels))
        } else if index == 4 {
            Some(start(PresetGroup::Screen, "iPhone 15 Pro"@, Real64::of_whole(1179), Real64::of_whole(2556), Unit::Pixels))
        } else if index == 5 {
            Some(start(PresetGroup::Screen, "iPad Pro 11\""@, Real64::of_whole(1668), Real64::of_whole(2388), Unit::Pixels))
        } else if index == 6 {
            Some(start(PresetGroup::Print, "Letter"@, Real64 { bits: 0x4021_0000_0000_0000 }, Real64::of_whole(11), Unit::Inches))
        } else if index == 7 {
            Some(start(PresetGroup::Print, "Legal"@, Real64 { bits: 0x4021_0000_0000_0000 }, Real64::of_whole(14), Unit::Inches))
        } else if index == 8 {
            Some(start(PresetGroup::Print, "Tabloid"@, Real64::of_whole(11), Real64::of_whole(17), Unit::Inches))
        } else if index == 9 {
            Some(start(PresetGroup::Print, "A4"@, Real64::of_whole(210), Real64::of_whole(297), Unit::Millimeters))
        } else if index == 10 {
            Some(start(PresetGroup::Print, "A3"@, Real64::of_whole(297), Real64::of_whole(420), Unit::Millimeters))
        } else if index == 11 {
            Some(start(PresetGroup::Print, "A5"@, Real64::of_whole(148), Real64::of_whole(210), Unit::Millimeters))
        } else if index == 12 {
            Some(start(PresetGroup::Print, "Photo 4 x 6"@, Real64::of_whole(4), Real64::of_whole(6), Unit::Inches))
        } else if index == 13 {
            Some(start(PresetGroup::Print, "Photo 8 x 10"@, Real64::of_whole(8), Real64::of_whole(10), Unit::Inches))
        } else if index == 14 {
            Some(start(PresetGroup::Social, "Instagram Post"@, Real64::of_whole(1080), Real64::of_whole(1080), Unit::Pixels))
        } else if index == 15 {
            Some(start(PresetGroup::Social, "Instagram Story"@, Real64::of_whole(1080), Real64::of_whole(1920), Unit::Pixels))
        } else if index == 16 {
            Some(start(PresetGroup::Social, "YouTube Thumbnail"@, Real64::of_whole(1280), Real64::of_whole(720), Unit::Pixels))
        } else if index == 17 {
            Some(start(PresetGroup::Social, "Facebook Cover"@, Real64::of_whole(1640), Real64::of_whole(856), Unit::Pixels))
        } else if index == 18 {
            Some(start(PresetGroup::Social, "X Header"@, Real64::of_whole(1500), Real64::of_whole(500), Unit::Pixels))
        } else if index == 19 {
            Some(start(PresetGroup::Social, "LinkedIn Banner"@, Real64::of_whole(1584), Real64::of_whole(396), Unit::Pixels))
        } else {
            None
        }
    }

    /// The presets of one shelf, by their place in the list.
    pub fn on_shelf(group: PresetGroup) -> (r: Vec<usize>)
        ensures
            r@ == shelf(group, PRESET_COUNT as int),
    {
        let mut out: Vec<usize> = Vec::new();
        let mut i: usize = 0;
        while i < PRESET_COUNT
            invariant
                i <= PRESET_COUNT,
                out@ == shelf(group, i as int),
            decreases PRESET_COUNT - i,
        {
            if let Some(preset) = DocumentPreset::at(i) {
                if preset.group == group {
                    out.push(i);
                }
            }
            i = i + 1;
        }
        out
    }

    /// The preset at a place in the list.
    pub fn at(index: usize) -> (r: Option<DocumentPreset>)
        ensures
            match r {
                Some(preset) => DocumentPreset::listed(index as int) == Some(preset@),
                None => DocumentPreset::listed(index as int) is None,
            },
            r is Some <==> index < PRESET_COUNT,
    {
        if index == 0 {
            Some(starting(PresetGroup::Screen, "Web 1280 x 720", Real64::from_u64(1280), Real64::from_u64(720), Unit::Pixels))
        } else if index == 1 {
            Some(starting(PresetGroup::Screen, "Web 1920 x 1080", Real64::from_u64(1920), Real64::from_u64(1080), Unit::Pixels))
        } else if index == 2 {
            Some(starting(PresetGroup::Screen, "Web 2560 x 1440", Real64::from_u64(2560), Real64::from_u64(1440), Unit::Pixels))
        } else if index == 3 {
            Some(starting(PresetGroup::Screen, "UHD 3840 x 2160", Real64::from_u64(3840), Real64::from_u64(2160), Unit::Pixels))
        } else if index == 4 {
            Some(starting(PresetGroup::Screen, "iPhone 15 Pro", Real64::from_u64(1179), Real64::from_u64(2556), Unit::Pixels))
        } else if index == 5 {
            Some(starting(PresetGroup::Screen, "iPad Pro 11\"", Real64::from_u64(1668), Real64::from_u64(2388), Unit::Pixels))
        } else if index == 6 {
            Some(starting(PresetGroup::Print, "Letter", Real64 { bits: 0x4021_0000_0000_0000 }, Real64::from_u64(11), Unit::Inches))
        } else if index == 7 {
            Some(starting(PresetGroup::Print, "Legal", Real64 { bits: 0x4021_0000_0000_0000 }, Real64::from_u64(14), Unit::Inches))
        } else if index == 8 {
            Some(starting(PresetGroup::Print, "Tabloid", Real64::from_u64(11), Real64::from_u64(17), Unit::Inches))
        } else if index == 9 {
            Some(starting(PresetGroup::Print, "A4", Real64::from_u64(210), Real64::from_u64(297), Unit::Millimeters))
        } else if index == 10 {
            Some(starting(PresetGroup::Print, "A3", Real64::from_u64(297), Real64::from_u64(420), Unit::Millimeters))
        } else if index == 11 {
            Some(starting(PresetGroup::Print, "A5", Real64::from_u64(148), Real64::from_u64(210), Unit::Millimeters))
        } else if index == 12 {
            Some(starting(PresetGroup::Print, "Photo 4 x 6", Real64::from_u64(4), Real64::from_u64(6), Unit::Inches))
        } else if index == 13 {
            Some(starting(PresetGroup::Print, "Photo 8 x 10", Real64::from_u64(8), Real64::from_u64(10), Unit::Inches))
        } else if index == 14 {
            Some(starting(PresetGroup::Social, "Instagram Post", Real64::from_u64(1080), Real64::from_u64(1080), Unit::Pixels))
        } else if index == 15 {
            Some(starting(PresetGroup::Social, "Instagram Story", Real64::from_u64(1080), Real64::from_u64(1920), Unit::Pixels))
        } else if index == 16 {
            Some(starting(PresetGroup::Social, "YouTube Thumbnail", Real64::from_u64(1280), Real64::from_u64(720), Unit::Pixels))
        } else if index == 17 {
            Some(starting(PresetGroup::Social, "Facebook Cover", Real64::from_u64(1640), Real64::from_u64(856), Unit::Pixels))
        } else if index == 18 {
            Some(starting(PresetGroup::Social, "X Header", Real64::from_u64(1500), Real64::from_u64(500), Unit::Pixels))
        } else if index == 19 {
            Some(starting(PresetGroup::Social, "LinkedIn Banner", Real64::from_u64(1584), Real64::from_u64(396), Unit::Pixels))
        } else {
            None
        }
    }
}

/// Everything needed to create a document, already resolved to pixels.
#[derive(PartialEq, Debug)]
pub struct NewDocumentSpec {
    pub title: String,
    pub width: u32,
    pub height: u32,
    pub resolution_ppi: Real64,
    pub color_mode: ColorMode,
    pub color_space: ColorSpace,
    pub bit_depth: BitDepth,
    pub background: BackgroundContents,
}

/// What a [`NewDocumentSpec`] stands for.
#[verifier::ext_equal]
pub struct NewDocumentRequest {
    pub title: Seq<char>,
    pub width: u32,
    pub height: u32,
    pub resolution_ppi: Real64,
    pub color_mode: ColorMode,
    pub color_space: ColorSpace,
    pub bit_depth: BitDepth,
    pub background: BackgroundContents,
}

impl View for NewDocumentSpec {
    type V = NewDocumentRequest;

    open spec fn view(&self) -> NewDocumentRequest {
        NewDocumentRequest {
            title: self.title@,
            width: self.width,
            height: self.height,
            resolution_ppi: self.resolution_ppi,
            color_mode: self.color_mode,
            color_space: self.color_space,
            bit_depth: self.bit_depth,
            background: self.background,
        }
    }
}

impl NewDocumentRequest {
    /// The engine can build it.
    pub open spec fn valid(self) -> bool {
        &&& 1 <= self.width <= MAX_DIMENSION
        &&& 1 <= self.height <= MAX_DIMENSION
        &&& self.width * self.height <= MAX_PIXELS
        &&& self.resolution_ppi.finite()
        &&& (Real64 { bits: 0 }).below(self.resolution_ppi)
        &&& self.resolution_ppi.at_most(Real64 { bits: units::MAX_PPI })
        &&& self.color_mode.refusal() is None
        &&& !text::blank(self.title)
    }

    /// The bytes one flat layer takes.
    pub open spec fn bytes(self) -> int {
        self.width * self.height * self.color_mode.channel_count() * match self.bit_depth {
            BitDepth::Eight => 1int,
            BitDepth::Sixteen => 2,
        }
    }

    /// Why the document cannot be created: the first thing wrong with it.
    pub open spec fn blocked(self) -> Option<Seq<char>> {
        if text::blank(self.title) {
            Some("Give the document a name"@)
        } else if self.width < 1 || self.height < 1 {
            Some("Width and height must be at least 1 pixel"@)
        } else if self.width > MAX_DIMENSION || self.height > MAX_DIMENSION {
            Some("No side may exceed 300000 pixels"@)
        } else if self.width * self.height > MAX_PIXELS {
            Some(
                text::decimal(self.width as nat) + " x "@ + text::decimal(self.height as nat)
                    + " is "@ + text::decimal((self.width * self.height) as nat)
                    + " pixels, over the 1000000000 pixel limit"@,
            )
        } else if !(self.resolution_ppi.finite() && (Real64 { bits: 0 }).below(
            self.resolution_ppi,
        )) {
            Some("Resolution must be greater than zero"@)
        } else if (Real64 { bits: units::MAX_PPI }).below(self.resolution_ppi) {
            Some("Resolution may not exceed 10000 ppi"@)
        } else if self.bit_depth == BitDepth::Sixteen {
            Some("16-bit documents arrive with live 16-bit compositing; this build creates 8-bit documents"@)
        } else {
            self.color_mode.refusal()
        }
    }
}

impl NewDocumentSpec {
    /// Whether this specification can actually be built.
    pub fn is_valid(&self) -> (r: bool)
        ensures
            r == self@.valid(),
    {
        assert(self.width * self.height <= 0xffff_ffff * 0xffff_ffff) by (nonlinear_arith)
            requires
                self.width <= 0xffff_ffff,
                self.height <= 0xffff_ffff,
        ;
        self.width >= 1 && self.height >= 1 && self.width <= MAX_DIMENSION && self.height
            <= MAX_DIMENSION && self.width as u64 * self.height as u64 <= MAX_PIXELS
            && self.resolution_ppi.is_finite() && (Real64 { bits: 0 }).is_below(
            self.resolution_ppi,
        ) && self.resolution_ppi.is_at_most(Real64 { bits: units::MAX_PPI })
            && self.color_mode.unavailable().is_none() && !text::is_blank(self.title.as_str())
    }

    /// Bytes one flat layer of this document occupies in memory.
    pub fn flat_bytes(&self) -> (r: u64)
        requires
            self@.bytes() <= u64::MAX,
        ensures
            r == self@.bytes(),
    {
        let depth: u64 = match self.bit_depth {
            BitDepth::Eight => 1,
            BitDepth::Sixteen => 2,
        };
        let channels: u64 = self.color_mode.channels() as u64;
        assert(self.width * self.height <= 0xffff_ffff * 0xffff_ffff) by (nonlinear_arith)
            requires
                self.width <= 0xffff_ffff,
                self.height <= 0xffff_ffff,
        ;
        let area: u64 = self.width as u64 * self.height as u64;
        assert(self.width * self.height <= self.width * self.height * channels && self.width
            * self.height * channels <= self.width * self.height * channels * depth && 0
            <= self.width * self.height) by (nonlinear_arith)
            requires
                channels >= 1,
                depth >= 1,
        ;
        area * channels * depth
    }

    /// Why the document cannot be created, or `None` when it can.
    pub fn blocked_reason(&self) -> (r: Option<String>)
        ensures
            match r {
                Some(reason) => self@.blocked() == Some(reason@),
                None => self@.blocked() is None,
            },
    {
        if text::is_blank(self.title.as_str()) {
            return Some(text::copied("Give the document a name"));
        }
        if self.width < 1 || self.height < 1 {
            return Some(text::copied("Width and height must be at least 1 pixel"));
        }
        if self.width > MAX_DIMENSION || self.height > MAX_DIMENSION {
            return Some(text::copied("No side may exceed 300000 pixels"));
        }
        assert(self.width * self.height <= 0xffff_ffff * 0xffff_ffff) by (nonlinear_arith)
            requires
                self.width <= 0xffff_ffff,
                self.height <= 0xffff_ffff,
        ;
        let area: u64 = self.width as u64 * self.height as u64;
        if area > MAX_PIXELS {
            return Some(
                text::decimal_of(self.width as u128).concat(" x ").concat(
                    text::decimal_of(self.height as u128).as_str(),
                ).concat(" is ").concat(text::decimal_of(area as u128).as_str()).concat(
                    " pixels, over the 1000000000 pixel limit",
                ),
            );
        }
        if !(self.resolution_ppi.is_finite() && (Real64 { bits: 0 }).is_below(
            self.resolution_ppi,
        )) {
            return Some(text::copied("Resolution must be greater than zero"));
        }
        if (Real64 { bits: units::MAX_PPI }).is_below(self.resolution_ppi) {
            return Some(text::copied("Resolution may not exceed 10000 ppi"));
        }
        if self.bit_depth == BitDepth::Sixteen {
            return Some(
                text::copied(
                    "16-bit documents arrive with live 16-bit compositing; this build creates 8-bit documents",
                ),
            );
        }
        match self.color_mode.unavailable() {
            Some(reason) => Some(text::copied(reason)),
            None => None,
        }
    }
}

/// The dialog cannot describe a document the engine refuses: what it confirms
/// can be built, and whatever cannot be built is blocked with a reason.
pub proof fn what_is_confirmed_can_be_built(spec: NewDocumentRequest)
    ensures
        spec.blocked() is None ==> spec.valid(),
        spec.blocked() is None <==> spec.valid() && spec.bit_depth == BitDepth::Eight,
{
}

/// What a [`NewDocumentDialog`] stands for.
#[verifier::ext_equal]
pub struct NewDocumentModel {
    pub title: Seq<char>,
    /// The width and height as typed, in `unit`.
    pub width: Real64,
    pub height: Real64,
    pub unit: Unit,
    pub resolution: Real64,
    pub resolution_unit: ResolutionUnit,
    pub color_mode: ColorMode,
    pub color_space: ColorSpace,
    pub bit_depth: BitDepth,
    pub background: BackgroundContents,
    pub custom_background: Rgba,
    /// The preset in use, until a field is edited by hand.
    pub preset: Option<int>,
}

/// A typed length resolved to whole pixels. Nothing stands for a length that is
/// not a usable size: a negative, non-finite or sub-pixel entry.
pub open spec fn whole_pixels(value: Real64, unit: Unit, ppi: Real64) -> u32 {
    let px = unit.pixels(value, ppi, Real64 { bits: 0 });
    if !px.finite() || px.below(Real64 { bits: 0x3ff0_0000_0000_0000 }) {
        0
    } else {
        rounding::truncated(px.rounded_spec().number(), u32::MAX as nat) as u32
    }
}

fn to_pixels(value: Real64, unit: Unit, ppi: Real64) -> (r: u32)
    ensures
        r == whole_pixels(value, unit, ppi),
{
    let px = unit.to_pixels(value, ppi, Real64 { bits: 0 });
    if !px.is_finite() || px.is_below(Real64 { bits: 0x3ff0_0000_0000_0000 }) {
        return 0;
    }
    px.rounded().to_u32()
}

impl NewDocumentModel {
    /// Resolution in pixels per inch, whatever unit it was typed in.
    pub open spec fn ppi(self) -> Real64 {
        self.resolution_unit.per_inch(self.resolution)
    }

    /// What the background layer is filled with: a custom background is the
    /// colour the dialog holds.
    pub open spec fn contents(self) -> BackgroundContents {
        match self.background {
            BackgroundContents::Custom(_) => BackgroundContents::Custom(self.custom_background),
            _ => self.background,
        }
    }

    /// The document the fields describe.
    pub open spec fn request(self) -> NewDocumentRequest {
        NewDocumentRequest {
            title: self.title,
            width: whole_pixels(self.width, self.unit, self.ppi()),
            height: whole_pixels(self.height, self.unit, self.ppi()),
            resolution_ppi: self.ppi(),
            color_mode: self.color_mode,
            color_space: self.color_space,
            bit_depth: self.bit_depth,
            background: self.contents(),
        }
    }

    /// What a confirmation hands over.
    pub open spec fn confirmation(self) -> Option<NewDocumentRequest> {
        if self.request().blocked() is None {
            Some(self.request())
        } else {
            None
        }
    }

    /// A preset loaded; one that is not there leaves the dialog as it is.
    pub open spec fn with_preset(self, index: int) -> NewDocumentModel {
        match DocumentPreset::listed(index) {
            Some(preset) => NewDocumentModel {
                width: preset.width,
                height: preset.height,
                unit: preset.unit,
                resolution: self.resolution_unit.of_inch(preset.ppi),
                background: preset.background,
                preset: Some(index),
                ..self
            },
            None => self,
        }
    }

    /// Another unit for the size fields: the same pixels, other numbers.
    pub open spec fn with_unit(self, unit: Unit) -> NewDocumentModel {
        let zero = Real64 { bits: 0 };
        if unit == self.unit {
            self
        } else {
            NewDocumentModel {
                unit,
                width: unit.length(self.unit.pixels(self.width, self.ppi(), zero), self.ppi(), zero),
                height: unit.length(
                    self.unit.pixels(self.height, self.ppi(), zero),
                    self.ppi(),
                    zero,
                ),
                ..self
            }
        }
    }

    /// The sides exchanged; what was edited is no preset.
    pub open spec fn swapped(self) -> NewDocumentModel {
        NewDocumentModel { width: self.height, height: self.width, preset: None, ..self }
    }

    /// Another unit for the resolution field: the same resolution.
    pub open spec fn with_resolution_unit(self, unit: ResolutionUnit) -> NewDocumentModel {
        if unit == self.resolution_unit {
            self
        } else {
            NewDocumentModel {
                resolution_unit: unit,
                resolution: unit.of_inch(self.ppi()),
                ..self
            }
        }
    }

    /// A background chosen; a custom one brings its colour.
    pub open spec fn with_background(self, background: BackgroundContents) -> NewDocumentModel {
        NewDocumentModel {
            background,
            custom_background: match background {
                BackgroundContents::Custom(rgba) => rgba,
                _ => self.custom_background,
            },
            ..self
        }
    }
}

/// A background choice survives a trip through another one and back: what the
/// dialog described before, it describes again.
pub proof fn a_background_survives_a_round_trip(
    m: NewDocumentModel,
    choice: BackgroundContents,
    detour: BackgroundContents,
)
    ensures
        m.with_background(choice).contents() == choice,
        m.with_background(choice).with_background(detour).with_background(
            m.with_background(choice).contents(),
        ).contents() == choice,
{
}

/// The New Document dialog.
#[derive(Debug)]
pub struct NewDocumentDialog {
    title: String,
    width: Real64,
    height: Real64,
    unit: Unit,
    resolution: Real64,
    resolution_unit: ResolutionUnit,
    color_mode: ColorMode,
    color_space: ColorSpace,
    bit_depth: BitDepth,
    background: BackgroundContents,
    custom_background: Rgba,
    preset: Option<usize>,
}

impl View for NewDocumentDialog {
    type V = NewDocumentModel;

    closed spec fn view(&self) -> NewDocumentModel {
        NewDocumentModel {
            title: self.title@,
            width: self.width,
            height: self.height,
            unit: self.unit,
            resolution: self.resolution,
            resolution_unit: self.resolution_unit,
            color_mode: self.color_mode,
            color_space: self.color_space,
            bit_depth: self.bit_depth,
            background: self.background,
            custom_background: self.custom_background,
            preset: match self.preset {
                Some(i) => Some(i as int),
                None => None,
            },
        }
    }
}

impl Default for NewDocumentDialog {
    fn default() -> (r: Self)
        ensures
            r@ == (NewDocumentModel {
                title: "Untitled"@,
                width: Real64::of_whole(1920),
                height: Real64::of_whole(1080),
                unit: Unit::Pixels,
                resolution: Real64 { bits: 0x4052_0000_0000_0000 },
                resolution_unit: ResolutionUnit::PerInch,
                color_mode: ColorMode::Rgb,
                color_space: ColorSpace::Srgb,
                bit_depth: BitDepth::Eight,
                background: BackgroundContents::White,
                custom_background: Rgba::white_spec(),
                preset: Some(1),
            }),
    {
        let mut dialog = NewDocumentDialog {
            title: text::copied("Untitled"),
            width: Real64::from_u64(1920),
            height: Real64::from_u64(1080),
            unit: Unit::Pixels,
            resolution: Real64 { bits: units::DEFAULT_PPI },
            resolution_unit: ResolutionUnit::PerInch,
            color_mode: ColorMode::Rgb,
            color_space: ColorSpace::Srgb,
            bit_depth: BitDepth::Eight,
            background: BackgroundContents::White,
            custom_background: Rgba::white(),
            preset: None,
        };
        dialog.apply_preset(1);
        dialog
    }
}

impl NewDocumentDialog {
    /// The units this dialog offers. Percent is excluded: there is no existing
    /// document for it to be a percentage *of*.
    pub fn units() -> (r: Vec<Unit>)
        ensures
            r@ == seq![
                Unit::Pixels,
                Unit::Inches,
                Unit::Centimeters,
                Unit::Millimeters,
                Unit::Points,
                Unit::Picas,
            ],
    {
        let mut out: Vec<Unit> = Vec::new();
        out.push(Unit::Pixels);
        out.push(Unit::Inches);
        out.push(Unit::Centimeters);
        out.push(Unit::Millimeters);
        out.push(Unit::Points);
        out.push(Unit::Picas);
        out
    }

    /// Load preset `index`, leaving the dialog untouched if it is out of range.
    pub fn apply_preset(&mut self, index: usize)
        ensures
            final(self)@ == old(self)@.with_preset(index as int),
    {
        match DocumentPreset::at(index) {
            Some(preset) => {
                self.width = preset.width;
                self.height = preset.height;
                self.unit = preset.unit;
                self.resolution = self.resolution_unit.from_ppi(preset.ppi);
                self.background = preset.background;
                self.preset = Some(index);
            },
            None => {},
        }
    }

    /// The preset currently loaded, if the user has not edited since.
    pub fn preset(&self) -> (r: Option<usize>)
        ensures
            match r {
                Some(i) => self@.preset == Some(i as int),
                None => self@.preset is None,
            },
    {
        self.preset
    }

    /// The name field.
    pub fn name(&self) -> (r: &str)
        ensures
            r@ == self@.title,
    {
        self.title.as_str()
    }

    pub fn set_name(&mut self, title: String)
        ensures
            final(self)@ == (NewDocumentModel { title: title@, ..old(self)@ }),
    {
        self.title = title;
    }

    /// The width and height as typed, and the unit they are typed in.
    pub fn size(&self) -> (r: (Real64, Real64, Unit))
        ensures
            r == (self@.width, self@.height, self@.unit),
    {
        (self.width, self.height, self.unit)
    }

    /// The resolution as typed, and the unit it is typed in.
    pub fn resolution(&self) -> (r: (Real64, ResolutionUnit))
        ensures
            r == (self@.resolution, self@.resolution_unit),
    {
        (self.resolution, self.resolution_unit)
    }

    /// Type a width, which drops the preset highlight.
    pub fn set_width(&mut self, width: Real64)
        ensures
            final(self)@ == (NewDocumentModel { width, preset: None, ..old(self)@ }),
    {
        self.width = width;
        self.preset = None;
    }

    /// Type a height, which drops the preset highlight.
    pub fn set_height(&mut self, height: Real64)
        ensures
            final(self)@ == (NewDocumentModel { height, preset: None, ..old(self)@ }),
    {
        self.height = height;
        self.preset = None;
    }

    /// Type a resolution, which drops the preset highlight.
    pub fn set_resolution(&mut self, resolution: Real64)
        ensures
            final(self)@ == (NewDocumentModel { resolution, preset: None, ..old(self)@ }),
    {
        self.resolution = resolution;
        self.preset = None;
    }

    pub fn set_bit_depth(&mut self, bit_depth: BitDepth)
        ensures
            final(self)@ == (NewDocumentModel { bit_depth, ..old(self)@ }),
    {
        self.bit_depth = bit_depth;
    }

    pub fn set_color_space(&mut self, color_space: ColorSpace)
        ensures
            final(self)@ == (NewDocumentModel { color_space, ..old(self)@ }),
    {
        self.color_space = color_space;
    }

    /// Resolution in pixels per inch, whatever unit it was typed in.
    pub fn resolution_ppi(&self) -> (r: Real64)
        ensures
            r == self@.ppi(),
    {
        self.resolution_unit.to_ppi(self.resolution)
    }

    /// The width in pixels, rounded.
    pub fn pixel_width(&self) -> (r: u32)
        ensures
            r == self@.request().width,
    {
        to_pixels(self.width, self.unit, self.resolution_ppi())
    }

    /// The height in pixels, rounded.
    pub fn pixel_height(&self) -> (r: u32)
        ensures
            r == self@.request().height,
    {
        to_pixels(self.height, self.unit, self.resolution_ppi())
    }

    /// Set the width from a pixel count, converting into the current unit.
    pub fn set_pixel_width(&mut self, px: Real64)
        ensures
            final(self)@ == (NewDocumentModel {
                width: old(self)@.unit.length(px, old(self)@.ppi(), Real64 { bits: 0 }),
                preset: None,
                ..old(self)@
            }),
    {
        self.width = self.unit.from_pixels(px, self.resolution_ppi(), Real64 { bits: 0 });
        self.preset = None;
    }

    /// Set the height from a pixel count, converting into the current unit.
    pub fn set_pixel_height(&mut self, px: Real64)
        ensures
            final(self)@ == (NewDocumentModel {
                height: old(self)@.unit.length(px, old(self)@.ppi(), Real64 { bits: 0 }),
                preset: None,
                ..old(self)@
            }),
    {
        self.height = self.unit.from_pixels(px, self.resolution_ppi(), Real64 { bits: 0 });
        self.preset = None;
    }

    /// Switch the unit the size fields are typed in, keeping the *pixel* size.
    pub fn set_unit(&mut self, unit: Unit)
        ensures
            final(self)@ == old(self)@.with_unit(unit),
    {
        if unit == self.unit {
            return;
        }
        let ppi = self.resolution_ppi();
        let zero = Real64 { bits: 0 };
        let w_px = self.unit.to_pixels(self.width, ppi, zero);
        let h_px = self.unit.to_pixels(self.height, ppi, zero);
        self.unit = unit;
        self.width = unit.from_pixels(w_px, ppi, zero);
        self.height = unit.from_pixels(h_px, ppi, zero);
    }

    /// Switch the resolution unit, keeping the resolution itself.
    pub fn set_resolution_unit(&mut self, unit: ResolutionUnit)
        ensures
            final(self)@ == old(self)@.with_resolution_unit(unit),
    {
        if unit == self.resolution_unit {
            return;
        }
        let ppi = self.resolution_ppi();
        self.resolution_unit = unit;
        self.resolution = unit.from_ppi(ppi);
    }

    /// Swap width and height.
    pub fn swap_orientation(&mut self)
        ensures
            final(self)@ == old(self)@.swapped(),
    {
        let width = self.width;
        self.width = self.height;
        self.height = width;
        self.preset = None;
    }

    /// What the background layer is filled with.
    ///
    /// [`BackgroundContents::Custom`] always reports the colour the dialog
    /// holds, whatever colour the menu entry was constructed with.
    pub fn background(&self) -> (r: BackgroundContents)
        ensures
            r == self@.contents(),
    {
        match self.background {
            BackgroundContents::Custom(_) => BackgroundContents::Custom(self.custom_background),
            other => other,
        }
    }

    /// Choose the background. The one writer of this field.
    pub fn set_background(&mut self, background: BackgroundContents)
        ensures
            final(self)@ == old(self)@.with_background(background),
    {
        match background {
            BackgroundContents::Custom(rgba) => {
                self.custom_background = rgba;
            },
            _ => {},
        }
        self.background = background;
    }

    /// Choose a menu entry. Custom keeps the colour the dialog already holds;
    /// the entry's own placeholder is not a choice the user made.
    pub fn choose_background(&mut self, entry: BackgroundContents)
        ensures
            final(self)@ == old(self)@.with_background(
                match entry {
                    BackgroundContents::Custom(_) => BackgroundContents::Custom(
                        old(self)@.custom_background,
                    ),
                    _ => entry,
                },
            ),
    {
        match entry {
            BackgroundContents::Custom(_) => {
                self.set_background(BackgroundContents::Custom(self.custom_background));
            },
            other => {
                self.set_background(other);
            },
        }
    }

    /// The custom background colour, whether or not it is selected.
    pub fn custom_background(&self) -> (r: Rgba)
        ensures
            r == self@.custom_background,
    {
        self.custom_background
    }

    /// The colour mode; refuses a mode the document model cannot represent.
    pub fn set_color_mode(&mut self, mode: ColorMode) -> (r: bool)
        ensures
            r == (mode.refusal() is None),
            final(self)@ == if r {
                NewDocumentModel { color_mode: mode, ..old(self)@ }
            } else {
                old(self)@
            },
    {
        if mode.unavailable().is_some() {
            return false;
        }
        self.color_mode = mode;
        true
    }

    /// The document specification this dialog currently describes.
    pub fn spec(&self) -> (r: NewDocumentSpec)
        ensures
            r@ == self@.request(),
    {
        NewDocumentSpec {
            title: text::copied(self.title.as_str()),
            width: self.pixel_width(),
            height: self.pixel_height(),
            resolution_ppi: self.resolution_ppi(),
            color_mode: self.color_mode,
            color_space: self.color_space,
            bit_depth: self.bit_depth,
            background: self.background(),
        }
    }

    /// The line under the fields: the size in pixels, and the memory one flat
    /// layer takes.
    pub fn readout(&self) -> (r: String)
        requires
            self@.request().bytes() <= u64::MAX,
        ensures
            r@ == text::decimal(self@.request().width as nat) + " x "@ + text::decimal(
                self@.request().height as nat,
            ) + " px  ·  "@ + units::bytes_text(self@.request().bytes() as nat),
    {
        let spec = self.spec();
        text::decimal_of(spec.width as u128).concat(" x ").concat(
            text::decimal_of(spec.height as u128).as_str(),
        ).concat(" px  ·  ").concat(units::format_bytes(spec.flat_bytes()).as_str())
    }

    pub fn title(&self) -> (r: &'static str)
        ensures
            r@ == "New Document"@,
    {
        "New Document"
    }

    pub fn confirm_label(&self) -> (r: &'static str)
        ensures
            r@ == "Create"@,
    {
        "Create"
    }

    /// Why the primary action is unavailable: the one gate a confirmation
    /// passes.
    pub fn blocked_reason(&self) -> (r: Option<String>)
        ensures
            match r {
                Some(reason) => self@.request().blocked() == Some(reason@),
                None => self@.request().blocked() is None,
            },
    {
        self.spec().blocked_reason()
    }

    /// The document a confirmation asks for, or `None` while blocked.
    pub fn confirm(&self) -> (r: Option<NewDocumentSpec>)
        ensures
            chrome::request_view(r) == self@.confirmation(),
    {
        let spec = self.spec();
        if spec.blocked_reason().is_some() {
            None
        } else {
            Some(spec)
        }
    }

    /// What a frame comes to. While the nested colour picker is up (`nested`)
    /// the keys and buttons are its own, and the dialog stays open.
    pub fn outcome(
        &self,
        nested: bool,
        keys: DialogKeys,
        button: Option<DialogButton>,
    ) -> (r: DialogOutcome<NewDocumentSpec>)
        ensures
            r@ == if nested {
                DialogOutcome::Open
            } else {
                match button {
                    Some(b) => chrome::pressed(b, self@.confirmation()),
                    None => chrome::settled(keys, self@.confirmation()),
                }
            },
    {
        if nested {
            return DialogOutcome::Open;
        }
        match button {
            Some(b) => chrome::press(b, self.confirm()),
            None => chrome::settle(keys, self.confirm()),
        }
    }
}

/// Swapping exchanges the sides in pixels and nothing else, and swapping again
/// restores them.
pub proof fn swapping_exchanges_the_sides(m: NewDocumentModel)
    ensures
        m.swapped().request() == (NewDocumentRequest {
            width: m.request().height,
            height: m.request().width,
            ..m.request()
        }),
        m.swapped().swapped().request() == m.request(),
{
}

} // verus!

//! Layer ▸ Layer Style ▸ Scale Effects: a percent question.
//!
//! The dialog asks one number, the scale (1–1000%), with a Preview switch. It
//! hands back the percent and nothing else. The preview is an image the host
//! renders at the dialog's percent and hands in; the dialog asks for a new one
//! through [`ScaleEffectsDialog::preview_wanted`] whenever the percent moves
//! while Preview is on. The document itself is never touched before the
//! confirmation, so Cancel needs nothing restored.

use super::chrome;
use super::chrome::{DialogButton, DialogKeys, DialogOutcome};
use crate::strings;
use crate::text;
use vstd::prelude::*;

verus! {

/// The smallest percentage Scale Effects accepts.
pub const MIN_SCALE_EFFECTS_PERCENT: u16 = 1;

/// The largest percentage Scale Effects accepts.
pub const MAX_SCALE_EFFECTS_PERCENT: u16 = 1000;

/// The percent the dialog opens on: the style as it is.
pub const SCALE_EFFECTS_IDENTITY: u16 = 100;

/// One host-rendered preview, and the percent it shows.
#[derive(Debug)]
struct PreviewImage {
    percent: u16,
    rgba: Vec<u8>,
    width: u32,
    height: u32,
}

/// A host-rendered picture: straight RGBA8 and its size.
#[verifier::ext_equal]
pub struct PreviewModel {
    pub percent: u16,
    pub rgba: Seq<u8>,
    pub width: u32,
    pub height: u32,
}

/// What a [`ScaleEffectsDialog`] stands for.
#[verifier::ext_equal]
pub struct ScaleEffectsModel {
    pub percent: u16,
    pub preview: bool,
    /// The preview in hand.
    pub image: Option<PreviewModel>,
}

/// A percentage brought into the range the field accepts.
pub open spec fn in_range(percent: u16) -> u16 {
    if percent < MIN_SCALE_EFFECTS_PERCENT {
        MIN_SCALE_EFFECTS_PERCENT
    } else if percent > MAX_SCALE_EFFECTS_PERCENT {
        MAX_SCALE_EFFECTS_PERCENT
    } else {
        percent
    }
}

/// A buffer holds a picture of the size.
pub open spec fn fills(rgba: Seq<u8>, width: u32, height: u32) -> bool {
    rgba.len() == width * height * 4 && width > 0 && height > 0
}

impl ScaleEffectsModel {
    /// The percent the preview in hand shows.
    pub open spec fn shown(self) -> Option<u16> {
        match self.image {
            Some(image) => Some(image.percent),
            None => None,
        }
    }

    /// The percent to render a preview for.
    pub open spec fn wanted(self) -> Option<u16> {
        if self.preview && self.shown() != Some(self.percent) {
            Some(self.percent)
        } else {
            None
        }
    }

    /// What a confirmation hands over: a percent that changes something.
    pub open spec fn confirmation(self) -> Option<u16> {
        if self.percent == SCALE_EFFECTS_IDENTITY {
            None
        } else {
            Some(self.percent)
        }
    }

    /// Another percent.
    pub open spec fn with_percent(self, percent: u16) -> ScaleEffectsModel {
        ScaleEffectsModel { percent, ..self }
    }

    /// A preview taken in; a buffer of the wrong length is dropped.
    pub open spec fn with_image(self, image: PreviewModel) -> ScaleEffectsModel {
        if fills(image.rgba, image.width, image.height) {
            ScaleEffectsModel { image: Some(image), ..self }
        } else {
            self
        }
    }
}

/// A preview is asked for until one of the dialog's percent is handed in, and
/// not again before the percent moves.
pub proof fn a_preview_is_wanted_until_it_comes(m: ScaleEffectsModel, image: PreviewModel)
    requires
        fills(image.rgba, image.width, image.height),
        m.wanted() == Some(image.percent),
    ensures
        m.with_image(image).wanted() is None,
        forall|percent: u16|
            percent != image.percent ==> (#[trigger] m.with_image(image).with_percent(
                percent,
            )).wanted() == Some(percent),
{
}

/// Layer ▸ Layer Style ▸ Scale Effects.
#[derive(Debug)]
pub struct ScaleEffectsDialog {
    percent: u16,
    preview: bool,
    image: Option<PreviewImage>,
}

impl View for ScaleEffectsDialog {
    type V = ScaleEffectsModel;

    closed spec fn view(&self) -> ScaleEffectsModel {
        ScaleEffectsModel {
            percent: self.percent,
            preview: self.preview,
            image: match self.image {
                Some(image) => Some(
                    PreviewModel {
                        percent: image.percent,
                        rgba: image.rgba@,
                        width: image.width,
                        height: image.height,
                    },
                ),
                None => None,
            },
        }
    }
}

impl Default for ScaleEffectsDialog {
    fn default() -> (r: Self)
        ensures
            r@ == (ScaleEffectsModel {
                percent: SCALE_EFFECTS_IDENTITY,
                preview: true,
                image: None,
            }),
    {
        ScaleEffectsDialog::new()
    }
}

impl ScaleEffectsDialog {
    /// Opens at 100% with Preview on.
    pub fn new() -> (r: Self)
        ensures
            r@ == (ScaleEffectsModel {
                percent: SCALE_EFFECTS_IDENTITY,
                preview: true,
                image: None,
            }),
    {
        ScaleEffectsDialog { percent: SCALE_EFFECTS_IDENTITY, preview: true, image: None }
    }

    pub fn percent(&self) -> (r: u16)
        ensures
            r == self@.percent,
    {
        self.percent
    }

    /// Set the percent, clamped into the range the field accepts.
    pub fn set_percent(&mut self, percent: u16)
        ensures
            final(self)@ == old(self)@.with_percent(in_range(percent)),
    {
        self.percent = if percent < MIN_SCALE_EFFECTS_PERCENT {
            MIN_SCALE_EFFECTS_PERCENT
        } else if percent > MAX_SCALE_EFFECTS_PERCENT {
            MAX_SCALE_EFFECTS_PERCENT
        } else {
            percent
        };
    }

    /// Type a percent: a number that is no percentage at all is the style as
    /// it is.
    pub fn type_percent(&mut self, value: i64)
        ensures
            final(self)@ == old(self)@.with_percent(
                if 0 <= value <= u16::MAX {
                    in_range(value as u16)
                } else {
                    SCALE_EFFECTS_IDENTITY
                },
            ),
    {
        if 0 <= value && value <= u16::MAX as i64 {
            self.set_percent(value as u16);
        } else {
            self.set_percent(SCALE_EFFECTS_IDENTITY);
        }
    }

    pub fn preview_enabled(&self) -> (r: bool)
        ensures
            r == self@.preview,
    {
        self.preview
    }

    pub fn set_preview(&mut self, on: bool)
        ensures
            final(self)@ == (ScaleEffectsModel { preview: on, ..old(self)@ }),
    {
        self.preview = on;
    }

    /// The percent the host should render a preview for: `Some` while Preview
    /// is on and the image in hand shows another percent (or none).
    pub fn preview_wanted(&self) -> (r: Option<u16>)
        ensures
            r == self@.wanted(),
    {
        let shown = match self.preview_percent() {
            Some(percent) => percent == self.percent,
            None => false,
        };
        if self.preview && !shown {
            Some(self.percent)
        } else {
            None
        }
    }

    /// The percent the preview in hand shows, if there is one.
    pub fn preview_percent(&self) -> (r: Option<u16>)
        ensures
            r == self@.shown(),
    {
        match &self.image {
            Some(image) => Some(image.percent),
            None => None,
        }
    }

    /// The preview in hand: its pixels and its size.
    pub fn preview_image(&self) -> (r: Option<(&Vec<u8>, u32, u32)>)
        ensures
            match r {
                Some((rgba, width, height)) => self@.image is Some && self@.image->0.rgba == rgba@
                    && self@.image->0.width == width && self@.image->0.height == height,
                None => self@.image is None,
            },
    {
        match &self.image {
            Some(image) => Some((&image.rgba, image.width, image.height)),
            None => None,
        }
    }

    /// Hand in the host's rendering of the document at `percent`: straight
    /// RGBA8, `width` x `height`. A buffer of the wrong length is dropped.
    pub fn set_preview_image(&mut self, percent: u16, rgba: Vec<u8>, width: u32, height: u32)
        ensures
            final(self)@ == old(self)@.with_image(
                PreviewModel { percent, rgba: rgba@, width, height },
            ),
    {
        assert(width * height * 4 <= 0xffff_ffff * 0xffff_ffff * 4) by (nonlinear_arith)
            requires
                width <= 0xffff_ffff,
                height <= 0xffff_ffff,
        ;
        if rgba.len() as u128 != width as u128 * height as u128 * 4 || width == 0 || height == 0 {
            return;
        }
        self.image = Some(PreviewImage { percent, rgba, width, height });
    }

    /// Why OK is unavailable, or `None` when it is live.
    pub fn blocked_reason(&self) -> (r: Option<String>)
        ensures
            match r {
                Some(reason) => self@.confirmation() is None && reason@ == strings::entry(
                    "ui.scale_effects.unchanged"@,
                ),
                None => self@.confirmation() is Some,
            },
    {
        if self.percent == SCALE_EFFECTS_IDENTITY {
            Some(text::copied(strings::tr("ui.scale_effects.unchanged")))
        } else {
            None
        }
    }

    /// The percent a confirmation carries.
    pub fn confirm(&self) -> (r: Option<u16>)
        ensures
            r == self@.confirmation(),
    {
        if self.blocked_reason().is_none() {
            Some(self.percent)
        } else {
            None
        }
    }

    pub fn title(&self) -> (r: &'static str)
        ensures
            r@ == strings::entry("ui.scale_effects.title"@),
    {
        strings::tr("ui.scale_effects.title")
    }

    /// Escape and Enter; Escape wins over Enter.
    pub fn resolve(&self, keys: DialogKeys) -> (r: DialogOutcome<u16>)
        ensures
            r == chrome::settled(keys, self@.confirmation()),
    {
        chrome::settle(keys, self.confirm())
    }

    /// A button of the action row.
    pub fn press(&self, button: DialogButton) -> (r: DialogOutcome<u16>)
        ensures
            r == chrome::pressed(button, self@.confirmation()),
    {
        chrome::press(button, self.confirm())
    }
}

} // verus!

//! View ▸ New Guide: one guide, by orientation and document position.
//!
//! Guides belong to the document, so the dialog is seeded with the set the
//! document holds and confirms to that set plus one guide. One undo step
//! removes the guide again.

use super::chrome;
use super::chrome::{DialogButton, DialogKeys, DialogOutcome};
use crate::guides::{Guide, GuideAxis, GuideSet, Guides};
use crate::ieee::Real64;
use crate::strings;
use crate::text;
use vstd::prelude::*;

verus! {

/// The orientation choice, as the combo lists it.
#[derive(Clone, Copy, PartialEq, Eq, Structural, Hash, Debug)]
pub enum Orientation {
    Horizontal,
    Vertical,
}

impl Orientation {
    pub const ALL: [Orientation; 2] = [Orientation::Horizontal, Orientation::Vertical];

    pub fn label(self) -> (r: &'static str)
        ensures
            r@ == match self {
                Orientation::Horizontal => "Horizontal"@,
                Orientation::Vertical => "Vertical"@,
            },
    {
        match self {
            Orientation::Horizontal => "Horizontal",
            Orientation::Vertical => "Vertical",
        }
    }

    /// The axis a guide of this orientation runs along.
    pub open spec fn guide_axis(self) -> GuideAxis {
        match self {
            Orientation::Horizontal => GuideAxis::Horizontal,
            Orientation::Vertical => GuideAxis::Vertical,
        }
    }

    pub fn axis(self) -> (r: GuideAxis)
        ensures
            r == self.guide_axis(),
    {
        match self {
            Orientation::Horizontal => GuideAxis::Horizontal,
            Orientation::Vertical => GuideAxis::Vertical,
        }
    }
}

/// What a [`NewGuideDialog`] stands for.
#[verifier::ext_equal]
pub struct NewGuideModel {
    pub current: GuideSet,
    pub canvas: (u32, u32),
    pub orientation: Orientation,
    pub position: Real64,
}

impl NewGuideModel {
    /// The guide a confirmation adds.
    pub open spec fn guide(self) -> Guide {
        Guide {
            axis: self.orientation.guide_axis(),
            doc: self.position.narrowed_spec(),
            locked: false,
        }
    }

    /// What a confirmation hands over: the current guides and the new one.
    pub open spec fn confirmation(self) -> Option<GuideSet> {
        if self.position.finite() {
            Some(self.current.with(seq![self.guide()]))
        } else {
            None
        }
    }
}

/// View ▸ New Guide.
#[derive(Debug)]
pub struct NewGuideDialog {
    current: Guides,
    canvas: (u32, u32),
    orientation: Orientation,
    position: Real64,
}

impl View for NewGuideDialog {
    type V = NewGuideModel;

    closed spec fn view(&self) -> NewGuideModel {
        NewGuideModel {
            current: self.current@,
            canvas: self.canvas,
            orientation: self.orientation,
            position: self.position,
        }
    }
}

impl NewGuideDialog {
    /// Over the document's current guide set and its canvas size (which bounds
    /// the position field).
    pub fn new(current: Guides, canvas: (u32, u32)) -> (r: Self)
        ensures
            r@ == (NewGuideModel {
                current: current@,
                canvas,
                orientation: Orientation::Horizontal,
                position: Real64 { bits: 0 },
            }),
    {
        NewGuideDialog {
            current,
            canvas,
            orientation: Orientation::Horizontal,
            position: Real64 { bits: 0 },
        }
    }

    pub fn orientation(&self) -> (r: Orientation)
        ensures
            r == self@.orientation,
    {
        self.orientation
    }

    pub fn set_orientation(&mut self, orientation: Orientation)
        ensures
            final(self)@ == (NewGuideModel { orientation, ..old(self)@ }),
    {
        self.orientation = orientation;
    }

    /// The document coordinate the guide will sit at, in pixels.
    pub fn position(&self) -> (r: Real64)
        ensures
            r == self@.position,
    {
        self.position
    }

    pub fn set_position(&mut self, position: Real64)
        ensures
            final(self)@ == (NewGuideModel { position, ..old(self)@ }),
    {
        self.position = position;
    }

    /// The largest position the field offers: the side of the canvas the guide
    /// crosses, and never less than one pixel.
    pub fn extent(&self) -> (r: u32)
        ensures
            r == {
                let side = match self@.orientation {
                    Orientation::Horizontal => self@.canvas.1,
                    Orientation::Vertical => self@.canvas.0,
                };
                if side < 1 {
                    1
                } else {
                    side
                }
            },
    {
        let side: u32 = match self.orientation {
            Orientation::Horizontal => self.canvas.1,
            Orientation::Vertical => self.canvas.0,
        };
        if side < 1 {
            1
        } else {
            side
        }
    }

    /// The guide a confirmation adds.
    pub fn guide(&self) -> (r: Guide)
        ensures
            r == self@.guide(),
    {
        Guide { axis: self.orientation.axis(), doc: self.position.narrowed(), locked: false }
    }

    /// The whole set a confirmation writes: the current guides plus the new
    /// one.
    pub fn guides_after(&self) -> (r: Guides)
        ensures
            r@ == self@.current.with(seq![self@.guide()]),
    {
        let mut next = self.current.clone();
        next.list.push(self.guide());
        assert(next@.list == self@.current.list + seq![self@.guide()]);
        next
    }

    pub fn title(&self) -> (r: &'static str)
        ensures
            r@ == strings::entry("ui.new_guide.title"@),
    {
        strings::tr("ui.new_guide.title")
    }

    pub fn confirm_label(&self) -> (r: &'static str)
        ensures
            r@ == "Place"@,
    {
        "Place"
    }

    /// The guide set a confirmation writes, or `None` while blocked.
    pub fn confirm(&self) -> (r: Option<Guides>)
        ensures
            chrome::request_view(r) == self@.confirmation(),
    {
        if self.position.is_finite() {
            Some(self.guides_after())
        } else {
            None
        }
    }

    /// Why Place is unavailable, or `None` when it is live.
    pub fn blocked_reason(&self) -> (r: Option<String>)
        ensures
            match r {
                Some(reason) => !self@.position.finite() && reason@ == strings::entry(
                    "ui.new_guide.position.must.be.finite"@,
                ),
                None => self@.position.finite(),
            },
    {
        if self.position.is_finite() {
            None
        } else {
            Some(text::copied(strings::tr("ui.new_guide.position.must.be.finite")))
        }
    }

    /// What the keyboard makes of the dialog: Escape cancels, Enter confirms.
    pub fn resolve(&self, keys: DialogKeys) -> (r: DialogOutcome<Guides>)
        ensures
            r@ == chrome::settled(keys, self@.confirmation()),
    {
        chrome::settle(keys, self.confirm())
    }

    /// What a press in the action row makes of the dialog.
    pub fn press(&self, button: DialogButton) -> (r: DialogOutcome<Guides>)
        ensures
            r@ == chrome::pressed(button, self@.confirmation()),
    {
        chrome::press(button, self.confirm())
    }
}

} // verus!

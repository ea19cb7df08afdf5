//! Channels ▸ New Spot Channel: the name, the ink colour and the solidity of a
//! new spot channel.

use super::chrome;
use super::chrome::{DialogButton, DialogKeys, DialogOutcome};
use crate::ieee::Real64;
use crate::rounding;
use crate::strings;
use crate::text;
use vstd::prelude::*;

verus! {

/// The ink a new spot channel starts with: a pure red, which the dialog lets
/// the user change before OK.
pub const DEFAULT_SPOT_INK: [u8; 3] = [255, 0, 0];

/// What the New Spot Channel dialog's OK hands the panel.
#[derive(Clone, PartialEq, Eq, Debug)]
pub struct SpotChannelSpec {
    pub name: String,
    pub ink: [u8; 3],
    /// 0..=100.
    pub solidity: u8,
}

/// What a [`SpotChannelSpec`] and a [`SpotChannelDialog`] stand for.
#[verifier::ext_equal]
pub struct SpotChannelModel {
    pub name: Seq<char>,
    pub ink: [u8; 3],
    pub solidity: u8,
}

impl View for SpotChannelSpec {
    type V = SpotChannelModel;

    open spec fn view(&self) -> SpotChannelModel {
        SpotChannelModel { name: self.name@, ink: self.ink, solidity: self.solidity }
    }
}

impl SpotChannelModel {
    /// What a confirmation hands over: the trimmed name.
    pub open spec fn confirmation(self) -> Option<SpotChannelModel> {
        if text::blank(self.name) {
            None
        } else {
            Some(SpotChannelModel { name: text::trimmed(self.name), ..self })
        }
    }
}

/// Channels ▸ New Spot Channel: the name, the ink colour and the solidity.
#[derive(Clone, PartialEq, Debug)]
pub struct SpotChannelDialog {
    name: String,
    ink: [u8; 3],
    solidity: u8,
}

impl View for SpotChannelDialog {
    type V = SpotChannelModel;

    closed spec fn view(&self) -> SpotChannelModel {
        SpotChannelModel { name: self.name@, ink: self.ink, solidity: self.solidity }
    }
}

impl SpotChannelDialog {
    /// The solidity is a percentage.
    pub closed spec fn wf(&self) -> bool {
        self.solidity <= 100
    }

    /// Opens on `name` (the next free "Spot Color N"), [`DEFAULT_SPOT_INK`] and
    /// 0% solidity.
    pub fn new(name: String) -> (r: Self)
        ensures
            r.wf(),
            r@ == (SpotChannelModel { name: name@, ink: DEFAULT_SPOT_INK, solidity: 0 }),
    {
        SpotChannelDialog { name, ink: DEFAULT_SPOT_INK, solidity: 0 }
    }

    pub fn name(&self) -> (r: &str)
        ensures
            r@ == self@.name,
    {
        self.name.as_str()
    }

    pub fn set_name(&mut self, name: String)
        requires
            old(self).wf(),
        ensures
            final(self).wf(),
            final(self)@ == (SpotChannelModel { name: name@, ..old(self)@ }),
    {
        self.name = name;
    }

    pub fn ink(&self) -> (r: [u8; 3])
        ensures
            r == self@.ink,
    {
        self.ink
    }

    pub fn set_ink(&mut self, ink: [u8; 3])
        requires
            old(self).wf(),
        ensures
            final(self).wf(),
            final(self)@ == (SpotChannelModel { ink, ..old(self)@ }),
    {
        self.ink = ink;
    }

    pub fn solidity(&self) -> (r: u8)
        requires
            self.wf(),
        ensures
            r == self@.solidity,
            r <= 100,
    {
        self.solidity
    }

    /// Clamped to 100.
    pub fn set_solidity(&mut self, solidity: u8)
        ensures
            final(self).wf(),
            final(self)@ == (SpotChannelModel {
                solidity: if solidity > 100 {
                    100
                } else {
                    solidity
                },
                ..old(self)@
            }),
    {
        self.solidity = if solidity > 100 {
            100
        } else {
            solidity
        };
    }

    /// Type a solidity: the nearest whole percentage.
    pub fn type_solidity(&mut self, value: Real64)
        ensures
            final(self).wf(),
            final(self)@ == (SpotChannelModel {
                solidity: {
                    let whole = rounding::truncated(value.rounded_spec().number(), u8::MAX as nat);
                    if whole > 100 {
                        100
                    } else {
                        whole as u8
                    }
                },
                ..old(self)@
            }),
    {
        let whole: u8 = value.rounded().to_u8();
        self.set_solidity(whole);
    }

    /// Why OK is unavailable, or `None` when it is live.
    pub fn blocked_reason(&self) -> (r: Option<&'static str>)
        ensures
            match r {
                Some(reason) => self@.confirmation() is None && reason@ == strings::entry(
                    "ui.spot_channel.no_name"@,
                ),
                None => self@.confirmation() is Some,
            },
    {
        if text::is_blank(self.name.as_str()) {
            Some(strings::tr("ui.spot_channel.no_name"))
        } else {
            None
        }
    }

    /// The channel a confirmation asks for, or `None` without a name.
    pub fn confirm(&self) -> (r: Option<SpotChannelSpec>)
        requires
            self.wf(),
        ensures
            chrome::request_view(r) == self@.confirmation(),
            r is Some ==> r->0.solidity <= 100,
    {
        if text::is_blank(self.name.as_str()) {
            return None;
        }
        Some(
            SpotChannelSpec {
                name: text::trim(self.name.as_str()),
                ink: self.ink,
                solidity: self.solidity,
            },
        )
    }

    /// Escape and Enter; Escape wins over Enter.
    pub fn resolve(&self, keys: DialogKeys) -> (r: DialogOutcome<SpotChannelSpec>)
        requires
            self.wf(),
        ensures
            r@ == chrome::settled(keys, self@.confirmation()),
    {
        chrome::settle(keys, self.confirm())
    }

    /// A button of the action row.
    pub fn press(&self, button: DialogButton) -> (r: DialogOutcome<SpotChannelSpec>)
        requires
            self.wf(),
        ensures
            r@ == chrome::pressed(button, self@.confirmation()),
    {
        chrome::press(button, self.confirm())
    }
}

} // verus!

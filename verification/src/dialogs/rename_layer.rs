//! Layer ▸ Rename Layer: one name field over the active layer.
//!
//! A confirmation carries only the name, so the rename is one undo step. A
//! blank name and an unchanged name are both refused with a reason: the first
//! would erase the layer's label, the second would record an undo step that
//! changes nothing.

use super::chrome;
use super::chrome::{DialogButton, DialogKeys, DialogOutcome};
use crate::layer_id::LayerId;
use crate::strings;
use crate::text;
use vstd::prelude::*;

verus! {

/// A confirmed rename.
#[derive(Debug, Clone, PartialEq, Eq)]
pub struct RenameSpec {
    pub layer: LayerId,
    pub name: String,
}

/// What a [`RenameSpec`] stands for.
#[verifier::ext_equal]
pub struct RenameRequest {
    pub layer: LayerId,
    pub name: Seq<char>,
}

impl View for RenameSpec {
    type V = RenameRequest;

    open spec fn view(&self) -> RenameRequest {
        RenameRequest { layer: self.layer, name: self.name@ }
    }
}

/// What a [`RenameLayerDialog`] stands for.
#[verifier::ext_equal]
pub struct RenameModel {
    pub layer: LayerId,
    pub original: Seq<char>,
    pub name: Seq<char>,
}

impl RenameModel {
    /// Why the rename is refused.
    pub open spec fn blocked(self) -> Option<Seq<char>> {
        if text::blank(self.name) {
            Some(strings::entry("ui.rename_layer.name.empty"@))
        } else if text::trimmed(self.name) == self.original {
            Some(strings::entry("ui.rename_layer.name.unchanged"@))
        } else {
            None
        }
    }

    /// What a confirmation hands over: the trimmed name.
    pub open spec fn confirmation(self) -> Option<RenameRequest> {
        if self.blocked() is None {
            Some(RenameRequest { layer: self.layer, name: text::trimmed(self.name) })
        } else {
            None
        }
    }
}

/// Layer ▸ Rename Layer.
#[derive(Debug, Clone, PartialEq, Eq)]
pub struct RenameLayerDialog {
    layer: LayerId,
    original: String,
    name: String,
}

impl View for RenameLayerDialog {
    type V = RenameModel;

    closed spec fn view(&self) -> RenameModel {
        RenameModel { layer: self.layer, original: self.original@, name: self.name@ }
    }
}

impl RenameLayerDialog {
    /// Over `layer`, whose name is `current`.
    pub fn new(layer: LayerId, current: String) -> (r: Self)
        ensures
            r@ == (RenameModel { layer, original: current@, name: current@ }),
    {
        RenameLayerDialog { layer, name: text::copied(current.as_str()), original: current }
    }

    pub fn layer(&self) -> (r: LayerId)
        ensures
            r == self@.layer,
    {
        self.layer
    }

    /// The name as typed so far.
    pub fn name(&self) -> (r: &str)
        ensures
            r@ == self@.name,
    {
        self.name.as_str()
    }

    pub fn set_name(&mut self, name: String)
        ensures
            final(self)@ == (RenameModel { name: name@, ..old(self)@ }),
    {
        self.name = name;
    }

    pub fn title(&self) -> (r: &'static str)
        ensures
            r@ == strings::entry("ui.rename_layer.title"@),
    {
        strings::tr("ui.rename_layer.title")
    }

    pub fn confirm_label(&self) -> (r: &'static str)
        ensures
            r@ == "Rename"@,
    {
        "Rename"
    }

    /// Why Rename is unavailable, or `None` when it is live.
    pub fn blocked_reason(&self) -> (r: Option<String>)
        ensures
            match r {
                Some(reason) => self@.blocked() == Some(reason@),
                None => self@.blocked() is None,
            },
    {
        if text::is_blank(self.name.as_str()) {
            return Some(text::copied(strings::tr("ui.rename_layer.name.empty")));
        }
        let name = text::trim(self.name.as_str());
        if text::same(name.as_str(), self.original.as_str()) {
            return Some(text::copied(strings::tr("ui.rename_layer.name.unchanged")));
        }
        None
    }

    /// The rename a confirmation asks for, or `None` while blocked.
    pub fn confirm(&self) -> (r: Option<RenameSpec>)
        ensures
            chrome::request_view(r) == self@.confirmation(),
    {
        if self.blocked_reason().is_some() {
            return None;
        }
        Some(RenameSpec { layer: self.layer, name: text::trim(self.name.as_str()) })
    }

    /// Escape and Enter; Escape wins over Enter.
    pub fn resolve(&self, keys: DialogKeys) -> (r: DialogOutcome<RenameSpec>)
        ensures
            r@ == chrome::settled(keys, self@.confirmation()),
    {
        chrome::settle(keys, self.confirm())
    }

    /// A button of the action row.
    pub fn press(&self, button: DialogButton) -> (r: DialogOutcome<RenameSpec>)
        ensures
            r@ == chrome::pressed(button, self@.confirmation()),
    {
        chrome::press(button, self.confirm())
    }
}

} // verus!

//! Select ▸ Modify ▸ Border / Smooth / Expand / Contract / Feather: one small
//! numeric dialog per operation, asking the amount in pixels.
//!
//! The dialog hands back a [`ModifySpec`] and nothing else: it owns only the
//! question and its bounds.

use super::chrome;
use super::chrome::{DialogButton, DialogKeys, DialogOutcome};
use crate::ieee::{Real32, Real64};
use crate::rounding;
use crate::strings;
use crate::text;
use vstd::prelude::*;

verus! {

/// The largest radius the selection morphology accepts, restated as the
/// dialog's ceiling so the field cannot offer a number the operation would
/// refuse: 512.
pub const MAX_MODIFY_PX: u32 = 0x4400_0000;

/// The amount every Modify dialog opens at, in pixels: 4.
pub const DEFAULT_MODIFY_PX: u32 = 0x4080_0000;

/// The operations of Select ▸ Modify.
#[derive(Clone, Copy, PartialEq, Eq, Structural, Hash, Debug)]
pub enum ModifySelection {
    Border,
    Smooth,
    Expand,
    Contract,
    Feather,
}

impl ModifySelection {
    /// Every operation, in menu order.
    pub const ALL: [ModifySelection; 5] = [
        ModifySelection::Border,
        ModifySelection::Smooth,
        ModifySelection::Expand,
        ModifySelection::Contract,
        ModifySelection::Feather,
    ];
}

/// A confirmed Select ▸ Modify: which operation, and how far.
#[derive(Clone, Copy, PartialEq, Structural, Debug)]
pub struct ModifySpec {
    pub op: ModifySelection,
    /// Pixels. Whole pixels for the four morphology operations; Feather keeps
    /// one decimal (a Gaussian radius is not a pixel count).
    pub amount: Real32,
}

impl View for ModifySpec {
    type V = ModifySpec;

    open spec fn view(&self) -> ModifySpec {
        *self
    }
}

/// The least and the most a field offers, in pixels.
pub open spec fn offered(op: ModifySelection) -> (Real32, Real32) {
    match op {
        ModifySelection::Border => (Real32 { bits: 0x3f80_0000 }, Real32 { bits: 0x4348_0000 }),
        ModifySelection::Feather => (Real32 { bits: 0x3dcc_cccd }, Real32 { bits: MAX_MODIFY_PX }),
        ModifySelection::Smooth | ModifySelection::Expand | ModifySelection::Contract => (
            Real32 { bits: 0x3f80_0000 },
            Real32 { bits: 0x43fa_0000 },
        ),
    }
}

/// The same two, written out.
pub open spec fn offered_text(op: ModifySelection) -> (Seq<char>, Seq<char>) {
    match op {
        ModifySelection::Border => ("1"@, "200"@),
        ModifySelection::Feather => ("0.1"@, "512"@),
        ModifySelection::Smooth | ModifySelection::Expand | ModifySelection::Contract => (
            "1"@,
            "500"@,
        ),
    }
}

/// An amount as the field keeps it: whole pixels, or tenths for Feather.
pub open spec fn kept(op: ModifySelection, amount: Real32) -> Real32 {
    if op == ModifySelection::Feather {
        let ten = Real32 { bits: 0x4120_0000 };
        amount.times_spec(ten).rounded_spec().over_spec(ten)
    } else {
        amount.rounded_spec()
    }
}

impl ModifySpec {
    /// `op` at the opening amount.
    pub open spec fn opening(op: ModifySelection) -> ModifySpec {
        ModifySpec { op, amount: Real32 { bits: DEFAULT_MODIFY_PX } }
    }

    /// The amount is one the operation can run.
    pub open spec fn valid(self) -> bool {
        &&& self.amount.finite()
        &&& offered(self.op).0.at_most(self.amount)
        &&& self.amount.at_most(offered(self.op).1)
    }

    /// What a confirmation hands over.
    pub open spec fn confirmation(self) -> Option<ModifySpec> {
        if self.valid() {
            Some(self)
        } else {
            None
        }
    }

    /// Why the operation cannot run.
    pub open spec fn blocked(self) -> Option<Seq<char>> {
        if self.valid() {
            None
        } else {
            Some(
                strings::entry("ui.selection_modify.out.of.range"@) + " "@ + offered_text(self.op).0
                    + " "@ + strings::entry("ui.selection_modify.range.to"@) + " "@ + offered_text(
                    self.op,
                ).1 + " "@ + strings::entry("ui.selection_modify.px"@),
            )
        }
    }

    /// `op` at the opening amount.
    pub fn new(op: ModifySelection) -> (r: Self)
        ensures
            r == ModifySpec::opening(op),
    {
        ModifySpec { op, amount: Real32 { bits: DEFAULT_MODIFY_PX } }
    }

    /// The range the field offers for `op`, in pixels, capped at what the
    /// morphology accepts.
    pub fn range(op: ModifySelection) -> (r: (Real32, Real32))
        ensures
            r == offered(op),
    {
        match op {
            ModifySelection::Border => (
                Real32 { bits: 0x3f80_0000 },
                Real32 { bits: 0x4348_0000 },
            ),
            ModifySelection::Feather => (
                Real32 { bits: 0x3dcc_cccd },
                Real32 { bits: MAX_MODIFY_PX },
            ),
            ModifySelection::Smooth | ModifySelection::Expand | ModifySelection::Contract => (
                Real32 { bits: 0x3f80_0000 },
                Real32 { bits: 0x43fa_0000 },
            ),
        }
    }

    /// Decimals the field shows for `op`.
    pub fn decimals(op: ModifySelection) -> (r: usize)
        ensures
            r == if op == ModifySelection::Feather {
                1usize
            } else {
                0
            },
    {
        match op {
            ModifySelection::Feather => 1,
            _ => 0,
        }
    }

    /// The amount as whole pixels, for the four morphology operations.
    pub fn whole_px(&self) -> (r: u32)
        ensures
            r == rounding::truncated(self.amount.rounded_spec().number(), u32::MAX as nat),
    {
        self.amount.rounded().to_u32()
    }

    /// Whether the amount is one the operation can run.
    pub fn is_valid(&self) -> (r: bool)
        ensures
            r == self.valid(),
    {
        let (low, high) = ModifySpec::range(self.op);
        self.amount.is_finite() && low.is_at_most(self.amount) && self.amount.is_at_most(high)
    }
}

/// Every operation opens on an amount it can run, and no operation offers more
/// than the morphology accepts.
pub proof fn the_opening_amount_is_offered(op: ModifySelection)
    ensures
        ModifySpec::opening(op).valid(),
        offered(op).1.at_most(Real32 { bits: MAX_MODIFY_PX }),
{
}

/// Select ▸ Modify ▸ an operation.
#[derive(Debug, Clone, Copy, PartialEq)]
pub struct SelectionModifyDialog {
    spec: ModifySpec,
}

impl View for SelectionModifyDialog {
    type V = ModifySpec;

    closed spec fn view(&self) -> ModifySpec {
        self.spec
    }
}

impl SelectionModifyDialog {
    /// The dialog for `op`, at the opening amount.
    pub fn new(op: ModifySelection) -> (r: Self)
        ensures
            r@ == ModifySpec::opening(op),
    {
        SelectionModifyDialog { spec: ModifySpec::new(op) }
    }

    /// The spec as it stands.
    pub fn spec(&self) -> (r: ModifySpec)
        ensures
            r == self@,
    {
        self.spec
    }

    /// Set the amount. Whole-pixel operations round, so what is confirmed is
    /// what the field shows.
    pub fn set_amount(&mut self, amount: Real32)
        ensures
            final(self)@ == (ModifySpec { amount: kept(old(self)@.op, amount), ..old(self)@ }),
    {
        self.spec.amount = if ModifySpec::decimals(self.spec.op) == 0 {
            amount.rounded()
        } else {
            let ten = Real32 { bits: 0x4120_0000 };
            amount.times(ten).rounded().over(ten)
        };
    }

    /// What the field shows after a frame; an amount that has not moved is
    /// left alone.
    pub fn type_amount(&mut self, value: Real64)
        ensures
            final(self)@ == {
                let typed = value.narrowed_spec();
                if (Real32 { bits: 0x3400_0000 }).below(
                    typed.minus_spec(old(self)@.amount).size_spec(),
                ) {
                    ModifySpec { amount: kept(old(self)@.op, typed), ..old(self)@ }
                } else {
                    old(self)@
                }
            },
    {
        let typed = value.narrowed();
        if (Real32 { bits: 0x3400_0000 }).is_below(typed.minus(self.spec.amount).abs()) {
            self.set_amount(typed);
        }
    }

    pub fn title(&self) -> (r: &'static str)
        ensures
            r@ == match self@.op {
                ModifySelection::Border => strings::entry("ui.selection_modify.border.title"@),
                ModifySelection::Smooth => strings::entry("ui.selection_modify.smooth.title"@),
                ModifySelection::Expand => strings::entry("ui.selection_modify.expand.title"@),
                ModifySelection::Contract => strings::entry("ui.selection_modify.contract.title"@),
                ModifySelection::Feather => strings::entry("ui.selection_modify.feather.title"@),
            },
    {
        match self.spec.op {
            ModifySelection::Border => strings::tr("ui.selection_modify.border.title"),
            ModifySelection::Smooth => strings::tr("ui.selection_modify.smooth.title"),
            ModifySelection::Expand => strings::tr("ui.selection_modify.expand.title"),
            ModifySelection::Contract => strings::tr("ui.selection_modify.contract.title"),
            ModifySelection::Feather => strings::tr("ui.selection_modify.feather.title"),
        }
    }

    /// The field's label: what the amount measures for this operation.
    pub fn field_label(&self) -> (r: &'static str)
        ensures
            r@ == match self@.op {
                ModifySelection::Border => strings::entry("ui.selection_modify.width"@),
                ModifySelection::Smooth => strings::entry("ui.selection_modify.sample.radius"@),
                ModifySelection::Expand => strings::entry("ui.selection_modify.expand.by"@),
                ModifySelection::Contract => strings::entry("ui.selection_modify.contract.by"@),
                ModifySelection::Feather => strings::entry("ui.selection_modify.feather.radius"@),
            },
    {
        match self.spec.op {
            ModifySelection::Border => strings::tr("ui.selection_modify.width"),
            ModifySelection::Smooth => strings::tr("ui.selection_modify.sample.radius"),
            ModifySelection::Expand => strings::tr("ui.selection_modify.expand.by"),
            ModifySelection::Contract => strings::tr("ui.selection_modify.contract.by"),
            ModifySelection::Feather => strings::tr("ui.selection_modify.feather.radius"),
        }
    }

    /// Why the primary action is unavailable, or `None` when it is live.
    pub fn blocked_reason(&self) -> (r: Option<String>)
        ensures
            match r {
                Some(reason) => self@.blocked() == Some(reason@),
                None => self@.blocked() is None,
            },
    {
        if self.spec.is_valid() {
            return None;
        }
        let (low, high) = match self.spec.op {
            ModifySelection::Border => ("1", "200"),
            ModifySelection::Feather => ("0.1", "512"),
            ModifySelection::Smooth | ModifySelection::Expand | ModifySelection::Contract => (
                "1",
                "500",
            ),
        };
        Some(
            text::copied(strings::tr("ui.selection_modify.out.of.range")).concat(" ").concat(
                low,
            ).concat(" ").concat(strings::tr("ui.selection_modify.range.to")).concat(" ").concat(
                high,
            ).concat(" ").concat(strings::tr("ui.selection_modify.px")),
        )
    }

    /// The spec a confirmation hands over, or `None` when the amount is out of
    /// range.
    pub fn confirm(&self) -> (r: Option<ModifySpec>)
        ensures
            r == self@.confirmation(),
    {
        if self.spec.is_valid() {
            Some(self.spec)
        } else {
            None
        }
    }

    /// Escape and Enter; Escape wins over Enter.
    pub fn resolve(&self, keys: DialogKeys) -> (r: DialogOutcome<ModifySpec>)
        ensures
            r == chrome::settled(keys, self@.confirmation()),
    {
        chrome::settle(keys, self.confirm())
    }

    /// A button of the action row.
    pub fn press(&self, button: DialogButton) -> (r: DialogOutcome<ModifySpec>)
        ensures
            r == chrome::pressed(button, self@.confirmation()),
    {
        chrome::press(button, self.confirm())
    }
}

} // verus!

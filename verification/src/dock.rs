//! The dock: which panels exist, where they sit, and the saved layouts that
//! move them all at once.
//!
//! Docking is state, not drawing. [`DockState`] is a plain value; what it means
//! is the [`DockModel`] it stands for, and every operation is a function from
//! one model to the next.
//!
//! Sizes are clamped on the way in rather than on the way out: a width that
//! arrives out of range is corrected once, at the setter, so every later reader
//! can trust it.

use crate::arrangement;
use crate::ieee::Real32;
use crate::sequences;
use crate::tabs;
use vstd::prelude::*;

verus! {

/// Every dockable panel.
#[derive(Clone, Copy, PartialEq, Eq, Structural, Hash, Debug, PartialOrd, Ord)]
pub enum PanelId {
    Layers,
    History,
    Adjustments,
    Properties,
    Color,
    Swatches,
    Brushes,
    Character,
    Paragraph,
    Navigator,
    Info,
    Channels,
    Paths,
    /// The Actions recorder: record, stop and replay command sequences.
    Actions,
}

impl PanelId {
    /// Every panel, in Window-menu order.
    pub const ALL: [PanelId; 14] = [
        PanelId::Layers,
        PanelId::History,
        PanelId::Adjustments,
        PanelId::Properties,
        PanelId::Color,
        PanelId::Swatches,
        PanelId::Brushes,
        PanelId::Character,
        PanelId::Paragraph,
        PanelId::Navigator,
        PanelId::Info,
        PanelId::Channels,
        PanelId::Paths,
        PanelId::Actions,
    ];

    /// The panel's place in Window-menu order.
    pub open spec fn rank(self) -> int {
        match self {
            PanelId::Layers => 0,
            PanelId::History => 1,
            PanelId::Adjustments => 2,
            PanelId::Properties => 3,
            PanelId::Color => 4,
            PanelId::Swatches => 5,
            PanelId::Brushes => 6,
            PanelId::Character => 7,
            PanelId::Paragraph => 8,
            PanelId::Navigator => 9,
            PanelId::Info => 10,
            PanelId::Channels => 11,
            PanelId::Paths => 12,
            PanelId::Actions => 13,
        }
    }

    /// The panel at a place in Window-menu order.
    pub open spec fn at(rank: int) -> PanelId {
        if rank == 0 {
            PanelId::Layers
        } else if rank == 1 {
            PanelId::History
        } else if rank == 2 {
            PanelId::Adjustments
        } else if rank == 3 {
            PanelId::Properties
        } else if rank == 4 {
            PanelId::Color
        } else if rank == 5 {
            PanelId::Swatches
        } else if rank == 6 {
            PanelId::Brushes
        } else if rank == 7 {
            PanelId::Character
        } else if rank == 8 {
            PanelId::Paragraph
        } else if rank == 9 {
            PanelId::Navigator
        } else if rank == 10 {
            PanelId::Info
        } else if rank == 11 {
            PanelId::Channels
        } else if rank == 12 {
            PanelId::Paths
        } else {
            PanelId::Actions
        }
    }

    /// The text of [`PanelId::title`].
    pub open spec fn title_text(self) -> Seq<char> {
        match self {
            PanelId::Layers => "Layers"@,
            PanelId::History => "History"@,
            PanelId::Adjustments => "Adjustments"@,
            PanelId::Properties => "Properties"@,
            PanelId::Color => "Color"@,
            PanelId::Swatches => "Swatches"@,
            PanelId::Brushes => "Brushes"@,
            PanelId::Character => "Character"@,
            PanelId::Paragraph => "Paragraph"@,
            PanelId::Navigator => "Navigator"@,
            PanelId::Info => "Info"@,
            PanelId::Channels => "Channels"@,
            PanelId::Paths => "Paths"@,
            PanelId::Actions => "Actions"@,
        }
    }

    /// The text of [`PanelId::key`].
    pub open spec fn key_text(self) -> Seq<char> {
        match self {
            PanelId::Layers => "layers"@,
            PanelId::History => "history"@,
            PanelId::Adjustments => "adjustments"@,
            PanelId::Properties => "properties"@,
            PanelId::Color => "color"@,
            PanelId::Swatches => "swatches"@,
            PanelId::Brushes => "brushes"@,
            PanelId::Character => "character"@,
            PanelId::Paragraph => "paragraph"@,
            PanelId::Navigator => "navigator"@,
            PanelId::Info => "info"@,
            PanelId::Channels => "channels"@,
            PanelId::Paths => "paths"@,
            PanelId::Actions => "actions"@,
        }
    }

    /// Panel title, as shown on its header and in the Window menu.
    pub fn title(self) -> (r: &'static str)
        ensures
            r@ == self.title_text(),
    {
        match self {
            PanelId::Layers => "Layers",
            PanelId::History => "History",
            PanelId::Adjustments => "Adjustments",
            PanelId::Properties => "Properties",
            PanelId::Color => "Color",
            PanelId::Swatches => "Swatches",
            PanelId::Brushes => "Brushes",
            PanelId::Character => "Character",
            PanelId::Paragraph => "Paragraph",
            PanelId::Navigator => "Navigator",
            PanelId::Info => "Info",
            PanelId::Channels => "Channels",
            PanelId::Paths => "Paths",
            PanelId::Actions => "Actions",
        }
    }

    /// Stable id string, used for widget ids and for settings keys.
    pub fn key(self) -> (r: &'static str)
        ensures
            r@ == self.key_text(),
    {
        match self {
            PanelId::Layers => "layers",
            PanelId::History => "history",
            PanelId::Adjustments => "adjustments",
            PanelId::Properties => "properties",
            PanelId::Color => "color",
            PanelId::Swatches => "swatches",
            PanelId::Brushes => "brushes",
            PanelId::Character => "character",
            PanelId::Paragraph => "paragraph",
            PanelId::Navigator => "navigator",
            PanelId::Info => "info",
            PanelId::Channels => "channels",
            PanelId::Paths => "paths",
            PanelId::Actions => "actions",
        }
    }
}

/// Which edge of the window a panel is docked to.
#[derive(Clone, Copy, PartialEq, Eq, Structural, Hash, Debug, PartialOrd, Ord)]
pub enum DockSide {
    Left,
    Right,
    /// Below the canvas, above the status bar.
    Bottom,
}

impl DockSide {
    pub const ALL: [DockSide; 3] = [DockSide::Left, DockSide::Right, DockSide::Bottom];
}

/// Where one panel sits and how it is showing.
#[derive(Clone, Copy, PartialEq, Eq, Structural, Debug)]
pub struct PanelPlacement {
    pub side: DockSide,
    /// Position within its group, smaller first. Ties break on Window-menu
    /// order, so the arrangement is total even after a sloppy drag.
    pub order: u8,
    /// Whether the panel is in the dock at all.
    pub open: bool,
    /// Whether its body is folded away, leaving only the header.
    pub collapsed: bool,
    /// Which tabbed group of its side the panel belongs to. Panels sharing
    /// `(side, group)` stack as tabs; only the group's active member draws.
    pub group: u8,
    /// Whether this panel is the tab its group is showing.
    pub active: bool,
}

/// A named arrangement the user can switch to in one click.
#[derive(Clone, Copy, PartialEq, Eq, Structural, Hash, Debug, PartialOrd, Ord)]
pub enum LayoutId {
    /// The default: layers, history, properties, colour.
    Essentials,
    /// Brushes and colour forward, history out of the way.
    Painting,
    /// Adjustments, histogram-adjacent panels, navigator.
    Photography,
    /// Everything closed but the canvas.
    Minimal,
}

impl LayoutId {
    pub const ALL: [LayoutId; 4] = [
        LayoutId::Essentials,
        LayoutId::Painting,
        LayoutId::Photography,
        LayoutId::Minimal,
    ];

    /// The text of [`LayoutId::title`].
    pub open spec fn title_text(self) -> Seq<char> {
        match self {
            LayoutId::Essentials => "Essentials"@,
            LayoutId::Painting => "Painting"@,
            LayoutId::Photography => "Photography"@,
            LayoutId::Minimal => "Minimal"@,
        }
    }

    pub fn title(self) -> (r: &'static str)
        ensures
            r@ == self.title_text(),
    {
        match self {
            LayoutId::Essentials => "Essentials",
            LayoutId::Painting => "Painting",
            LayoutId::Photography => "Photography",
            LayoutId::Minimal => "Minimal",
        }
    }

    /// The panels this layout opens, in tab order, each with its side and its
    /// tabbed group.
    pub open spec fn entries(self) -> Seq<(PanelId, DockSide, u8)> {
        match self {
            LayoutId::Essentials => seq![
                (PanelId::Properties, DockSide::Right, 0u8),
                (PanelId::Adjustments, DockSide::Right, 0u8),
                (PanelId::Layers, DockSide::Right, 1u8),
                (PanelId::History, DockSide::Right, 2u8),
                (PanelId::Color, DockSide::Right, 2u8),
            ],
            LayoutId::Painting => seq![
                (PanelId::Color, DockSide::Left, 0u8),
                (PanelId::Swatches, DockSide::Left, 0u8),
                (PanelId::Brushes, DockSide::Left, 1u8),
                (PanelId::Layers, DockSide::Right, 0u8),
                (PanelId::Properties, DockSide::Right, 1u8),
            ],
            LayoutId::Photography => seq![
                (PanelId::Navigator, DockSide::Left, 0u8),
                (PanelId::Info, DockSide::Left, 0u8),
                (PanelId::History, DockSide::Left, 1u8),
                (PanelId::Properties, DockSide::Right, 0u8),
                (PanelId::Adjustments, DockSide::Right, 0u8),
                (PanelId::Layers, DockSide::Right, 1u8),
                (PanelId::Channels, DockSide::Right, 1u8),
            ],
            LayoutId::Minimal => Seq::empty(),
        }
    }

    /// The panels this layout opens, with their side and tabbed group.
    pub fn panels(self) -> (r: Vec<(PanelId, DockSide, u8)>)
        ensures
            r@ == self.entries(),
    {
        match self {
            LayoutId::Essentials => vec![
                (PanelId::Properties, DockSide::Right, 0),
                (PanelId::Adjustments, DockSide::Right, 0),
                (PanelId::Layers, DockSide::Right, 1),
                (PanelId::History, DockSide::Right, 2),
                (PanelId::Color, DockSide::Right, 2),
            ],
            LayoutId::Painting => vec![
                (PanelId::Color, DockSide::Left, 0),
                (PanelId::Swatches, DockSide::Left, 0),
                (PanelId::Brushes, DockSide::Left, 1),
                (PanelId::Layers, DockSide::Right, 0),
                (PanelId::Properties, DockSide::Right, 1),
            ],
            LayoutId::Photography => vec![
                (PanelId::Navigator, DockSide::Left, 0),
                (PanelId::Info, DockSide::Left, 0),
                (PanelId::History, DockSide::Left, 1),
                (PanelId::Properties, DockSide::Right, 0),
                (PanelId::Adjustments, DockSide::Right, 0),
                (PanelId::Layers, DockSide::Right, 1),
                (PanelId::Channels, DockSide::Right, 1),
            ],
            LayoutId::Minimal => Vec::new(),
        }
    }
}

/// Narrowest a side dock may be dragged, by its bits: 220 points. Below this
/// an inspector row's label column no longer fits beside its field, so the
/// panel stops being usable rather than merely being small.
pub const MIN_DOCK_WIDTH: u32 = 0x435c_0000;

/// The width of a collapsed side dock, by its bits: 40 points, one column of
/// panel icons.
pub const RAIL_WIDTH_PT: u32 = 0x4220_0000;

/// Widest a side dock may be dragged, by its bits: 520 points, so the canvas
/// cannot be squeezed away.
pub const MAX_DOCK_WIDTH: u32 = 0x4402_0000;

/// Shortest the bottom dock may be, by its bits: 96 points.
pub const MIN_DOCK_HEIGHT: u32 = 0x42c0_0000;

/// Tallest the bottom dock may be, by its bits: 400 points.
pub const MAX_DOCK_HEIGHT: u32 = 0x43c8_0000;

/// What a [`DockState`] stands for.
#[verifier::ext_equal]
pub struct DockModel {
    /// One placement per panel, in Window-menu order.
    pub slots: Seq<PanelPlacement>,
    pub left_width: Real32,
    pub right_width: Real32,
    pub bottom_height: Real32,
    /// Whether the left and the right dock are folded to a rail of icons.
    pub left_rail: bool,
    pub right_rail: bool,
    /// The layout this arrangement was last set from, or `None` once the user
    /// has moved something.
    pub layout: Option<LayoutId>,
}

/// A panel that is not in the dock and never was placed.
pub open spec fn unplaced() -> PanelPlacement {
    PanelPlacement {
        side: DockSide::Right,
        order: 255,
        open: false,
        collapsed: false,
        group: 0,
        active: false,
    }
}

/// How many of the first `n` entries share the side and group.
pub open spec fn tabs_before(
    entries: Seq<(PanelId, DockSide, u8)>,
    n: int,
    side: DockSide,
    group: u8,
) -> int
    decreases n,
{
    if n <= 0 {
        0
    } else {
        tabs_before(entries, n - 1, side, group) + if entries[n - 1].1 == side && entries[n - 1].2
            == group {
            1int
        } else {
            0
        }
    }
}

/// The placements after the first `n` entries of a layout: each named panel is
/// open as the last tab of its group so far, and the first tab of a group is
/// the one it shows.
pub open spec fn laid_out(entries: Seq<(PanelId, DockSide, u8)>, n: int) -> Seq<PanelPlacement>
    decreases n,
{
    if n <= 0 {
        Seq::new(14, |i: int| unplaced())
    } else {
        let (panel, side, group) = entries[n - 1];
        let tab = tabs_before(entries, n - 1, side, group);
        laid_out(entries, n - 1).update(
            panel.rank(),
            PanelPlacement {
                side,
                order: tab as u8,
                open: true,
                collapsed: false,
                group,
                active: tab == 0,
            },
        )
    }
}

/// Where in a stack of groups a number stands, if it does.
pub open spec fn stack_index(gs: Seq<(u8, Seq<PanelId>)>, number: u8) -> Option<int> {
    if exists|k: int| 0 <= k < gs.len() && (#[trigger] gs[k]).0 == number {
        Some(choose|k: int| 0 <= k < gs.len() && (#[trigger] gs[k]).0 == number)
    } else {
        None
    }
}

impl DockModel {
    /// One placement per panel, and extents that are numbers.
    pub open spec fn valid(self) -> bool {
        &&& self.slots.len() == 14
        &&& !self.left_width.nan()
        &&& !self.right_width.nan()
        &&& !self.bottom_height.nan()
    }

    /// The arrangement a named layout describes, with the standard extents.
    pub open spec fn from_layout(layout: LayoutId) -> DockModel {
        DockModel {
            slots: laid_out(layout.entries(), layout.entries().len() as int),
            left_width: Real32 { bits: 0x4382_0000 },
            right_width: Real32 { bits: 0x4396_0000 },
            bottom_height: Real32 { bits: 0x4320_0000 },
            left_rail: false,
            right_rail: false,
            layout: Some(layout),
        }
    }

    /// The arrangement of a layout at this dock's own extents.
    pub open spec fn with_layout(self, layout: LayoutId) -> DockModel {
        DockModel {
            left_width: self.left_width,
            right_width: self.right_width,
            bottom_height: self.bottom_height,
            ..DockModel::from_layout(layout)
        }
    }

    pub open spec fn placement(self, panel: PanelId) -> PanelPlacement {
        self.slots[panel.rank()]
    }

    /// One placement replaced, which makes the arrangement the user's own.
    pub open spec fn placed(self, panel: PanelId, placement: PanelPlacement) -> DockModel {
        DockModel { slots: self.slots.update(panel.rank(), placement), layout: None, ..self }
    }

    /// An open panel as the tab its group shows, and every group with one active
    /// tab.
    pub open spec fn shown_on_top(self, panel: PanelId) -> DockModel {
        self.raised(panel).normalized()
    }

    /// A panel open at the end of a side, where it shows, which makes the
    /// arrangement the user's own. The group it left shows a remaining tab.
    pub open spec fn appended(self, panel: PanelId, side: DockSide) -> DockModel {
        DockModel {
            slots: tabs::appended(self.slots, side, panel),
            layout: None,
            ..self
        }.shown_on_top(panel)
    }

    /// A panel opened or closed. One that was never placed opens at the end of
    /// its side. What is opened shows, and the group of what is closed shows a
    /// remaining tab.
    pub open spec fn with_open(self, panel: PanelId, open: bool) -> DockModel {
        let p = self.placement(panel);
        if p.open == open {
            self
        } else if open && p.order == 255 {
            self.appended(panel, p.side)
        } else if open {
            self.placed(panel, PanelPlacement { open, ..p }).shown_on_top(panel)
        } else {
            self.placed(panel, PanelPlacement { open, ..p }).normalized()
        }
    }

    pub open spec fn with_collapsed(self, panel: PanelId, collapsed: bool) -> DockModel {
        let p = self.placement(panel);
        if p.collapsed == collapsed {
            self
        } else {
            self.placed(panel, PanelPlacement { collapsed, ..p })
        }
    }

    /// A panel moved to the end of a side, unless it is open there already.
    pub open spec fn docked(self, panel: PanelId, side: DockSide) -> DockModel {
        let p = self.placement(panel);
        if p.open && p.side == side {
            self
        } else {
            self.appended(panel, side)
        }
    }

    /// An open panel raised as the one active tab of its group.
    pub open spec fn raised(self, panel: PanelId) -> DockModel {
        let p = self.placement(panel);
        if !p.open {
            self
        } else {
            DockModel {
                slots: Seq::new(
                    14,
                    |i: int|
                        if self.slots[i].side == p.side && self.slots[i].group == p.group {
                            PanelPlacement { active: i == panel.rank(), ..self.slots[i] }
                        } else {
                            self.slots[i]
                        },
                ),
                layout: None,
                ..self
            }
        }
    }

    /// Every group with an open panel has exactly one active tab, and no closed
    /// panel is active.
    pub open spec fn one_tab_shows(self) -> bool {
        arrangement::one_tab_shows(self.slots)
    }

    pub open spec fn normalized(self) -> DockModel {
        DockModel { slots: arrangement::normalized(self.slots), ..self }
    }

    /// The placements with a panel as the last and only active tab of a group;
    /// the group it was open in has no active tab left.
    pub open spec fn joined(
        self,
        panel: PanelId,
        side: DockSide,
        group: u8,
    ) -> Seq<PanelPlacement> {
        let p = self.placement(panel);
        let base = tabs::roomy(self.slots, side, group);
        Seq::new(
            14,
            |i: int|
                if i == panel.rank() {
                    PanelPlacement {
                        side,
                        group,
                        order: tabs::next_tab(base, side, group) as u8,
                        open: true,
                        active: true,
                        ..p
                    }
                } else if (p.open && base[i].side == p.side && base[i].group == p.group) || (
                base[i].side == side && base[i].group == group) {
                    PanelPlacement { active: false, ..base[i] }
                } else {
                    base[i]
                },
        )
    }

    /// A panel moved into a group as its last and active tab, unless it is open
    /// there already. The group it left shows its first remaining tab.
    pub open spec fn moved_panel(self, panel: PanelId, side: DockSide, group: u8) -> DockModel {
        let p = self.placement(panel);
        if p.open && p.side == side && p.group == group {
            self
        } else {
            DockModel {
                slots: arrangement::normalized(self.joined(panel, side, group)),
                layout: None,
                ..self
            }
        }
    }

    /// Where in its side's stack an open panel's group stands.
    pub open spec fn group_index(self, panel: PanelId) -> Option<int> {
        if self.placement(panel).open {
            stack_index(
                arrangement::groups(self.slots, self.placement(panel).side),
                self.placement(panel).group,
            )
        } else {
            None
        }
    }

    /// Whether the panel's group can go to stack slot `to`: the panel is open,
    /// the slot exists, and the group is not there already.
    pub open spec fn can_reorder(self, panel: PanelId, to: int) -> bool {
        match self.group_index(panel) {
            Some(from) => 0 <= to < arrangement::groups(self.slots, self.placement(panel).side).len() && to
                != from,
            None => false,
        }
    }

    /// A panel's group moved to stack slot `to`, the others shifted, and the
    /// stack renumbered densely; nothing where that cannot be done.
    pub open spec fn reordered(self, panel: PanelId, to: int) -> DockModel {
        if self.can_reorder(panel, to) {
            DockModel {
                slots: arrangement::normalized(
                    arrangement::renumbered(
                        self.slots,
                        arrangement::moved(
                            arrangement::groups(self.slots, self.placement(panel).side),
                            self.group_index(panel)->0,
                            to,
                        ),
                    ),
                ),
                layout: None,
                ..self
            }
        } else {
            self
        }
    }

    /// Whether the panel can go to place `to` among the panels open on its
    /// side: it is open, the place exists, and another panel stands there.
    pub open spec fn can_relocate(self, panel: PanelId, to: int) -> bool {
        let listing = arrangement::panels(self.slots, self.placement(panel).side);
        self.placement(panel).open && 0 <= to < listing.len() && listing[to] != panel
    }

    /// A panel at place `to` among the panels open on its side, in the group of
    /// the panel that stood there, where it shows if it is new to that group;
    /// nothing where that cannot be done.
    pub open spec fn relocated(self, panel: PanelId, to: int) -> DockModel {
        if self.can_relocate(panel, to) {
            let side = self.placement(panel).side;
            let from = arrangement::panels(self.slots, side).index_of(panel);
            let moved = DockModel {
                slots: tabs::shifted(self.slots, side, from, to),
                layout: None,
                ..self
            };
            if moved.placement(panel).group == self.placement(panel).group {
                moved.normalized()
            } else {
                moved.shown_on_top(panel)
            }
        } else {
            self
        }
    }

    /// Width of a side, or the height of the bottom.
    pub open spec fn extent(self, side: DockSide) -> Real32 {
        match side {
            DockSide::Left => self.left_width,
            DockSide::Right => self.right_width,
            DockSide::Bottom => self.bottom_height,
        }
    }

    /// An extent brought into the usable range of its side.
    pub open spec fn usable(side: DockSide, width: Real32) -> Real32 {
        match side {
            DockSide::Bottom => width.clamped(
                Real32 { bits: MIN_DOCK_HEIGHT },
                Real32 { bits: MAX_DOCK_HEIGHT },
            ),
            _ => width.clamped(
                Real32 { bits: MIN_DOCK_WIDTH },
                Real32 { bits: MAX_DOCK_WIDTH },
            ),
        }
    }

    /// Whether recording `width` moves the stored extent.
    pub open spec fn extent_moves(self, side: DockSide, width: Real32) -> bool {
        width.finite() && !self.extent(side).equals(DockModel::usable(side, width))
    }

    pub open spec fn with_extent(self, side: DockSide, width: Real32) -> DockModel {
        match side {
            DockSide::Left => DockModel { left_width: width, ..self },
            DockSide::Right => DockModel { right_width: width, ..self },
            DockSide::Bottom => DockModel { bottom_height: width, ..self },
        }
    }

    /// An extent recorded within its range, which says nothing about who set
    /// it. What is not a finite number is ignored.
    pub open spec fn synced(self, side: DockSide, width: Real32) -> DockModel {
        if self.extent_moves(side, width) {
            self.with_extent(side, DockModel::usable(side, width))
        } else {
            self
        }
    }

    /// An extent set by the user.
    pub open spec fn resized(self, side: DockSide, width: Real32) -> DockModel {
        if self.extent_moves(side, width) {
            DockModel { layout: None, ..self.synced(side, width) }
        } else {
            self
        }
    }

    pub open spec fn rail(self, side: DockSide) -> bool {
        match side {
            DockSide::Left => self.left_rail,
            DockSide::Right => self.right_rail,
            DockSide::Bottom => false,
        }
    }

    pub open spec fn with_rail(self, side: DockSide, collapsed: bool) -> DockModel {
        match side {
            DockSide::Left => DockModel { left_rail: collapsed, ..self },
            DockSide::Right => DockModel { right_rail: collapsed, ..self },
            DockSide::Bottom => self,
        }
    }

    /// The same arrangement, with extents equal as numbers.
    pub open spec fn same(self, other: DockModel) -> bool {
        &&& self.slots == other.slots
        &&& self.left_width.equals(other.left_width)
        &&& self.right_width.equals(other.right_width)
        &&& self.bottom_height.equals(other.bottom_height)
        &&& self.left_rail == other.left_rail
        &&& self.right_rail == other.right_rail
        &&& self.layout == other.layout
    }
}

/// The full arrangement of the dock.
#[derive(PartialEq, Debug)]
pub struct DockState {
    /// One entry per panel, in Window-menu order.
    placements: Vec<PanelPlacement>,
    left_width: Real32,
    right_width: Real32,
    bottom_height: Real32,
    /// Whether the left and the right dock are folded to a rail of panel icons.
    left_rail: bool,
    right_rail: bool,
    /// The layout this state was last set from, or `None` once the user has
    /// moved something and it no longer matches any preset.
    layout: Option<LayoutId>,
}

impl View for DockState {
    type V = DockModel;

    closed spec fn view(&self) -> DockModel {
        DockModel {
            slots: self.placements@,
            left_width: self.left_width,
            right_width: self.right_width,
            bottom_height: self.bottom_height,
            left_rail: self.left_rail,
            right_rail: self.right_rail,
            layout: self.layout,
        }
    }
}

/// What groups stand for: each number with its members.
pub open spec fn group_view(r: Seq<(u8, Vec<PanelId>)>) -> Seq<(u8, Seq<PanelId>)> {
    Seq::new(r.len(), |k: int| (r[k].0, r[k].1@))
}

impl Default for DockState {
    fn default() -> (r: Self)
        ensures
            r@ == DockModel::from_layout(LayoutId::Essentials),
            r@.valid(),
    {
        Self::from_layout(LayoutId::Essentials)
    }
}

impl Clone for DockState {
    fn clone(&self) -> (r: Self)
        ensures
            r@ == self@,
    {
        let r = DockState {
            placements: self.placements.clone(),
            left_width: self.left_width,
            right_width: self.right_width,
            bottom_height: self.bottom_height,
            left_rail: self.left_rail,
            right_rail: self.right_rail,
            layout: self.layout,
        };
        assert(r.placements@ =~= self.placements@);
        r
    }
}

proof fn lemma_layout_bounds(layout: LayoutId, n: int)
    requires
        0 <= n <= layout.entries().len(),
    ensures
        laid_out(layout.entries(), n).len() == 14,
        layout.entries().len() <= 7,
    decreases n,
{
    if n > 0 {
        lemma_layout_bounds(layout, n - 1);
    }
}

impl DockState {
    /// The arrangement a named layout describes.
    pub fn from_layout(layout: LayoutId) -> (r: Self)
        ensures
            r@ == DockModel::from_layout(layout),
            r@.valid(),
    {
        let mut placements: Vec<PanelPlacement> = Vec::new();
        let mut i: usize = 0;
        while i < 14
            invariant
                i <= 14,
                placements@ == Seq::new(i as nat, |j: int| unplaced()),
            decreases 14 - i,
        {
            placements.push(
                PanelPlacement {
                    side: DockSide::Right,
                    order: 255,
                    open: false,
                    collapsed: false,
                    group: 0,
                    active: false,
                },
            );
            i = i + 1;
            assert(placements@ =~= Seq::new(i as nat, |j: int| unplaced()));
        }
        let entries = layout.panels();
        let mut n: usize = 0;
        assert(placements@ =~= laid_out(entries@, 0));
        while n < entries.len()
            invariant
                n <= entries.len(),
                entries@ == layout.entries(),
                placements@ == laid_out(entries@, n as int),
            decreases entries.len() - n,
        {
            proof {
                lemma_layout_bounds(layout, n as int);
            }
            let (panel, side, group) = entries[n];
            let mut tab: u8 = 0;
            let mut j: usize = 0;
            while j < n
                invariant
                    j <= n < entries.len() <= 7,
                    tab == tabs_before(entries@, j as int, side, group),
                    tab <= j,
                decreases n - j,
            {
                if entries[j].1 == side && entries[j].2 == group {
                    tab = tab + 1;
                }
                j = j + 1;
            }
            let index = Self::index_of(panel);
            placements.set(
                index,
                PanelPlacement {
                    side,
                    order: tab,
                    open: true,
                    collapsed: false,
                    group,
                    active: tab == 0,
                },
            );
            n = n + 1;
        }
        proof {
            lemma_layout_bounds(layout, entries.len() as int);
        }
        DockState {
            placements,
            left_width: Real32 { bits: 0x4382_0000 },
            right_width: Real32 { bits: 0x4396_0000 },
            bottom_height: Real32 { bits: 0x4320_0000 },
            left_rail: false,
            right_rail: false,
            layout: Some(layout),
        }
    }

    /// A dock from stored parts, where there is one placement per panel and
    /// the extents are numbers.
    pub fn from_parts(
        placements: Vec<PanelPlacement>,
        extents: (Real32, Real32, Real32),
        rails: (bool, bool),
        layout: Option<LayoutId>,
    ) -> (r: Option<Self>)
        ensures
            r is Some <==> placements@.len() == 14 && !extents.0.nan() && !extents.1.nan()
                && !extents.2.nan(),
            r matches Some(d) ==> d@.valid() && d@ == (DockModel {
                slots: placements@,
                left_width: extents.0,
                right_width: extents.1,
                bottom_height: extents.2,
                left_rail: rails.0,
                right_rail: rails.1,
                layout,
            }),
    {
        if placements.len() != 14 || extents.0.is_nan() || extents.1.is_nan()
            || extents.2.is_nan() {
            return None;
        }
        Some(
            DockState {
                placements,
                left_width: extents.0,
                right_width: extents.1,
                bottom_height: extents.2,
                left_rail: rails.0,
                right_rail: rails.1,
                layout,
            },
        )
    }

    fn index_of(panel: PanelId) -> (r: usize)
        ensures
            r == panel.rank(),
            r < 14,
    {
        match panel {
            PanelId::Layers => 0,
            PanelId::History => 1,
            PanelId::Adjustments => 2,
            PanelId::Properties => 3,
            PanelId::Color => 4,
            PanelId::Swatches => 5,
            PanelId::Brushes => 6,
            PanelId::Character => 7,
            PanelId::Paragraph => 8,
            PanelId::Navigator => 9,
            PanelId::Info => 10,
            PanelId::Channels => 11,
            PanelId::Paths => 12,
            PanelId::Actions => 13,
        }
    }

    /// The preset this arrangement came from, if the *user* has not changed it
    /// since: no panel opened, closed, collapsed, moved or reordered, and no
    /// splitter dragged.
    pub fn layout(&self) -> (r: Option<LayoutId>)
        ensures
            r == self@.layout,
    {
        self.layout
    }

    /// Replace the whole arrangement with a preset. Sizes are the user's, not
    /// the layout's, and stay.
    pub fn apply_layout(&mut self, layout: LayoutId)
        requires
            old(self)@.valid(),
        ensures
            final(self)@ == old(self)@.with_layout(layout),
            final(self)@.valid(),
    {
        let widths = (self.left_width, self.right_width, self.bottom_height);
        *self = Self::from_layout(layout);
        self.left_width = widths.0;
        self.right_width = widths.1;
        self.bottom_height = widths.2;
    }

    pub fn placement(&self, panel: PanelId) -> (r: PanelPlacement)
        requires
            self@.valid(),
        ensures
            r == self@.placement(panel),
    {
        self.placements[Self::index_of(panel)]
    }

    pub fn is_open(&self, panel: PanelId) -> (r: bool)
        requires
            self@.valid(),
        ensures
            r == self@.placement(panel).open,
    {
        self.placement(panel).open
    }

    /// Whether a whole side dock is folded to its icon rail. Only the two
    /// vertical sides collapse; the bottom dock has no rail to become.
    pub fn side_is_collapsed(&self, side: DockSide) -> (r: bool)
        ensures
            r == self@.rail(side),
    {
        match side {
            DockSide::Left => self.left_rail,
            DockSide::Right => self.right_rail,
            DockSide::Bottom => false,
        }
    }

    /// Fold a side to its icon rail, or unfold it back to the panels.
    pub fn set_side_collapsed(&mut self, side: DockSide, collapsed: bool)
        ensures
            final(self)@ == old(self)@.with_rail(side, collapsed),
    {
        match side {
            DockSide::Left => {
                self.left_rail = collapsed;
            },
            DockSide::Right => {
                self.right_rail = collapsed;
            },
            DockSide::Bottom => {},
        }
    }

    pub fn toggle_side_collapsed(&mut self, side: DockSide)
        ensures
            final(self)@ == old(self)@.with_rail(side, !old(self)@.rail(side)),
    {
        let collapsed = self.side_is_collapsed(side);
        self.set_side_collapsed(side, !collapsed);
    }

    pub fn is_collapsed(&self, panel: PanelId) -> (r: bool)
        requires
            self@.valid(),
        ensures
            r == self@.placement(panel).collapsed,
    {
        self.placement(panel).collapsed
    }

    /// Replace one placement.
    fn place(&mut self, panel: PanelId, placement: PanelPlacement)
        requires
            old(self)@.valid(),
        ensures
            final(self)@ == old(self)@.placed(panel, placement),
            final(self)@.valid(),
    {
        let index = Self::index_of(panel);
        self.placements.set(index, placement);
        self.layout = None;
    }

    /// Show an open panel as its group's tab, and settle every other group on
    /// one active tab.
    fn show_on_top(&mut self, panel: PanelId)
        requires
            old(self)@.valid(),
        ensures
            final(self)@ == old(self)@.shown_on_top(panel),
            final(self)@.valid(),
            final(self)@.one_tab_shows(),
    {
        self.raise(panel);
        self.normalize();
    }

    /// Open or close a panel. Opening one that has never been placed drops it
    /// at the end of the right-hand dock, where it starts out, rather than
    /// nowhere.
    pub fn set_open(&mut self, panel: PanelId, open: bool)
        requires
            old(self)@.valid(),
        ensures
            final(self)@ == old(self)@.with_open(panel, open),
            final(self)@.valid(),
            old(self)@.one_tab_shows() || old(self)@.placement(panel).open != open
                ==> final(self)@.one_tab_shows(),
    {
        let mut p = self.placement(panel);
        if p.open == open {
            return;
        }
        if open && p.order == 255 {
            self.append(panel, p.side);
            return;
        }
        p.open = open;
        self.place(panel, p);
        if open {
            self.show_on_top(panel);
        } else {
            self.normalize();
        }
    }

    pub fn toggle_open(&mut self, panel: PanelId)
        requires
            old(self)@.valid(),
        ensures
            final(self)@ == old(self)@.with_open(panel, !old(self)@.placement(panel).open),
            final(self)@.valid(),
            final(self)@.one_tab_shows(),
    {
        let open = self.is_open(panel);
        self.set_open(panel, !open);
    }

    pub fn set_collapsed(&mut self, panel: PanelId, collapsed: bool)
        requires
            old(self)@.valid(),
        ensures
            final(self)@ == old(self)@.with_collapsed(panel, collapsed),
            final(self)@.valid(),
    {
        let mut p = self.placement(panel);
        if p.collapsed != collapsed {
            p.collapsed = collapsed;
            self.place(panel, p);
        }
    }

    pub fn toggle_collapsed(&mut self, panel: PanelId)
        requires
            old(self)@.valid(),
        ensures
            final(self)@ == old(self)@.with_collapsed(
                panel,
                !old(self)@.placement(panel).collapsed,
            ),
            final(self)@.valid(),
    {
        let collapsed = self.is_collapsed(panel);
        self.set_collapsed(panel, !collapsed);
    }

    /// Move a panel to a side, at the end of that side's stack.
    ///
    /// Returns `true` when something moved. Docking a panel to the side it is
    /// already open on is a no-op and answers `false`.
    pub fn dock(&mut self, panel: PanelId, side: DockSide) -> (r: bool)
        requires
            old(self)@.valid(),
        ensures
            final(self)@ == old(self)@.docked(panel, side),
            final(self)@.valid(),
            old(self)@.one_tab_shows() || r ==> final(self)@.one_tab_shows(),
            r == !(old(self)@.placement(panel).open && old(self)@.placement(panel).side == side),
    {
        let p = self.placement(panel);
        if p.side == side && p.open {
            return false;
        }
        self.append(panel, side);
        true
    }

    /// The order behind every open tab of a group.
    fn next_tab(&self, side: DockSide, group: u8) -> (r: u16)
        requires
            self@.valid(),
        ensures
            r == tabs::next_tab(self@.slots, side, group),
    {
        let mut next: u16 = 0;
        let mut i: usize = 0;
        while i < 14
            invariant
                i <= 14,
                self@.valid(),
                next == tabs::next_tab_among(self@.slots, side, group, i as int),
            decreases 14 - i,
        {
            let p = self.placements[i];
            if p.open && p.side == side && p.group == group && p.order as u16 + 1 > next {
                next = p.order as u16 + 1;
            }
            i = i + 1;
        }
        next
    }

    /// Give the panels of a list their places in it as their orders.
    fn line_up(&mut self, list: &Vec<PanelId>)
        requires
            old(self)@.valid(),
            list@.len() <= 14,
        ensures
            final(self)@ == (DockModel {
                slots: tabs::lined_up(old(self)@.slots, list@, list@.len() as int),
                ..old(self)@
            }),
            final(self)@.valid(),
    {
        let ghost before = self@;
        let mut n: usize = 0;
        while n < list.len()
            invariant
                n <= list@.len() <= 14,
                before.valid(),
                self@.valid(),
                self@ == (DockModel {
                    slots: tabs::lined_up(before.slots, list@, n as int),
                    ..before
                }),
            decreases list@.len() - n,
        {
            let index = Self::index_of(list[n]);
            let mut p = self.placements[index];
            p.order = n as u8;
            self.placements.set(index, p);
            n = n + 1;
        }
    }

    /// Make room for one more tab behind a group, and answer its order. Orders
    /// are written anew only where the next would mark an unplaced panel.
    fn make_room(&mut self, side: DockSide, group: u8) -> (r: u8)
        requires
            old(self)@.valid(),
        ensures
            final(self)@ == (DockModel {
                slots: tabs::roomy(old(self)@.slots, side, group),
                ..old(self)@
            }),
            final(self)@.valid(),
            r == tabs::next_tab(final(self)@.slots, side, group),
    {
        proof {
            tabs::lemma_roomy(self@.slots, side, group);
            arrangement::lemma_panels(self@.slots, side);
        }
        if self.next_tab(side, group) >= 255 {
            let listing = self.panels_on(side);
            self.line_up(&listing);
        }
        self.next_tab(side, group) as u8
    }

    /// The group of a panel at the end of a side.
    fn end_group(&self, panel: PanelId, side: DockSide) -> (r: u8)
        requires
            self@.valid(),
        ensures
            r == tabs::end_group(self@.slots, side, panel),
    {
        let own = self.placement(panel).group;
        let listing = self.panels_on(side);
        let count = listing.len();
        let last: u8 = if count == 0 {
            0
        } else {
            self.placement(listing[count - 1]).group
        };
        if own >= last {
            own
        } else if last < 255 {
            last + 1
        } else {
            last
        }
    }

    /// Open a panel at the end of a side, where it shows.
    fn append(&mut self, panel: PanelId, side: DockSide)
        requires
            old(self)@.valid(),
        ensures
            final(self)@ == old(self)@.appended(panel, side),
            final(self)@.valid(),
            final(self)@.one_tab_shows(),
    {
        let group = self.end_group(panel, side);
        let order = self.make_room(side, group);
        let mut p = self.placement(panel);
        p.side = side;
        p.group = group;
        p.order = order;
        p.open = true;
        self.place(panel, p);
        self.show_on_top(panel);
    }

    /// The open panels on one side, in the order they should be drawn:
    /// group-major (groups stacked by number), tab order within a group.
    pub fn panels_on(&self, side: DockSide) -> (r: Vec<PanelId>)
        requires
            self@.valid(),
        ensures
            r@ == arrangement::panels(self@.slots, side),
    {
        let ghost slots = self@.slots;
        let mut open: Vec<PanelId> = Vec::new();
        let mut n: usize = 0;
        while n < 14
            invariant
                n <= 14,
                self@.valid(),
                slots == self@.slots,
                open@ == arrangement::listed(slots, side, n as int),
            decreases 14 - n,
        {
            let panel = Self::panel_at(n);
            let p = self.placements[n];
            if p.open && p.side == side {
                let ghost key = |q: PanelId| arrangement::sort_key(slots, q);
                let mut at: usize = open.len();
                assert(open@.take(at as int) =~= open@);
                while at > 0 && !self.precedes(open[at - 1], panel)
                    invariant
                        at <= open.len(),
                        self@.valid(),
                        slots == self@.slots,
                        key == (|q: PanelId| arrangement::sort_key(slots, q)),
                        sequences::insertion_point(open@, key, key(panel))
                            == sequences::insertion_point(open@.take(at as int), key, key(panel)),
                    decreases at,
                {
                    at = at - 1;
                    assert(open@.take(at + 1).drop_last() =~= open@.take(at as int));
                    assert(open@.take(at + 1).last() == open@[at as int]);
                }
                assert(at > 0 ==> open@.take(at as int).last() == open@[at - 1]);
                open.insert(at, panel);
            }
            n = n + 1;
        }
        open
    }

    /// The panel at a place in Window-menu order.
    fn panel_at(rank: usize) -> (r: PanelId)
        requires
            rank < 14,
        ensures
            r == PanelId::at(rank as int),
            r.rank() == rank,
    {
        PanelId::ALL[rank]
    }

    /// Whether `a` draws before `b`.
    fn precedes(&self, a: PanelId, b: PanelId) -> (r: bool)
        requires
            self@.valid(),
        ensures
            r == (arrangement::sort_key(self@.slots, a) < arrangement::sort_key(self@.slots, b)),
    {
        let i = Self::index_of(a);
        let j = Self::index_of(b);
        let p = self.placements[i];
        let q = self.placements[j];
        p.group < q.group || (p.group == q.group && (p.order < q.order || (p.order == q.order && i
            < j)))
    }

    /// The tabbed groups of one side, stacked in group-number order, each
    /// holding its open members in tab order. Groups are *derived* from the
    /// placements: when the last member of a group closes, the group is gone.
    pub fn groups_on(&self, side: DockSide) -> (r: Vec<(u8, Vec<PanelId>)>)
        requires
            self@.valid(),
        ensures
            group_view(r@) == arrangement::groups(self@.slots, side),
    {
        let ghost slots = self@.slots;
        let listing = self.panels_on(side);
        let mut groups: Vec<(u8, Vec<PanelId>)> = Vec::new();
        let mut i: usize = 0;
        assert(group_view(groups@) =~= arrangement::tab_groups(slots, listing@.take(0)));
        while i < listing.len()
            invariant
                i <= listing.len(),
                self@.valid(),
                slots == self@.slots,
                group_view(groups@) == arrangement::tab_groups(slots, listing@.take(i as int)),
            decreases listing.len() - i,
        {
            let panel = listing[i];
            let number = self.placement(panel).group;
            let ghost before = group_view(groups@);
            assert(listing@.take(i + 1).drop_last() =~= listing@.take(i as int));
            assert(listing@.take(i + 1).last() == panel);
            let count = groups.len();
            if count > 0 && groups[count - 1].0 == number {
                let (last_number, mut members) = groups.remove(count - 1);
                members.push(panel);
                groups.push((last_number, members));
                assert(group_view(groups@) =~= before.drop_last().push(
                    (number, before.last().1.push(panel)),
                ));
            } else {
                let mut members: Vec<PanelId> = Vec::new();
                members.push(panel);
                assert(members@ =~= seq![panel]);
                groups.push((number, members));
                assert(group_view(groups@) =~= before.push((number, seq![panel])));
            }
            i = i + 1;
        }
        assert(listing@.take(i as int) =~= listing@);
        groups
    }

    /// The first open panel of a group in tab order, or its first active one.
    fn first_tab(&self, listing: &Vec<PanelId>, group: u8, active: bool) -> (r: Option<PanelId>)
        requires
            self@.valid(),
        ensures
            r == sequences::first_where(
                listing@,
                arrangement::tab_of(self@.slots, group, active),
            ),
    {
        let ghost pred = arrangement::tab_of(self@.slots, group, active);
        let mut i: usize = 0;
        while i < listing.len()
            invariant
                i <= listing.len(),
                self@.valid(),
                pred == arrangement::tab_of(self@.slots, group, active),
                sequences::first_where(listing@.take(i as int), pred) is None,
            decreases listing.len() - i,
        {
            let p = self.placement(listing[i]);
            assert(listing@.take(i + 1).drop_last() =~= listing@.take(i as int));
            assert(listing@.take(i + 1).last() == listing@[i as int]);
            if p.group == group && (!active || p.active) {
                let found = listing[i];
                proof {
                    sequences::lemma_first_where_prefix(listing@, pred, i + 1, found);
                }
                return Some(found);
            }
            i = i + 1;
        }
        assert(listing@.take(i as int) =~= listing@);
        None
    }

    /// The panel a group is showing, if any of its members is open: its first
    /// active tab, else its first tab.
    pub fn active_panel(&self, side: DockSide, group: u8) -> (r: Option<PanelId>)
        requires
            self@.valid(),
        ensures
            r == arrangement::shown(self@.slots, side, group),
    {
        let listing = self.panels_on(side);
        let active = self.first_tab(&listing, group, true);
        let first = self.first_tab(&listing, group, false);
        match active {
            Some(p) => Some(p),
            None => first,
        }
    }

    /// Whether this panel is the tab its group is showing.
    pub fn is_active(&self, panel: PanelId) -> (r: bool)
        requires
            self@.valid(),
        ensures
            r == (self@.placement(panel).open && self@.placement(panel).active),
    {
        let p = self.placement(panel);
        p.open && p.active
    }

    /// Raise one panel as its group's active tab. Clicking a tab.
    pub fn raise(&mut self, panel: PanelId)
        requires
            old(self)@.valid(),
        ensures
            final(self)@ == old(self)@.raised(panel),
            final(self)@.valid(),
    {
        let index = Self::index_of(panel);
        let p = self.placements[index];
        if !p.open {
            return;
        }
        let ghost before = self@;
        let mut i: usize = 0;
        while i < 14
            invariant
                i <= 14,
                before.valid(),
                p == before.placement(panel),
                p.open,
                index == panel.rank(),
                self@ == (DockModel { slots: self@.slots, ..before }),
                self@.slots.len() == 14,
                forall|j: int|
                    0 <= j < i ==> #[trigger] self@.slots[j] == before.raised(panel).slots[j],
                forall|j: int| i <= j < 14 ==> #[trigger] self@.slots[j] == before.slots[j],
            decreases 14 - i,
        {
            let mut q = self.placements[i];
            if q.side == p.side && q.group == p.group {
                q.active = i == index;
                self.placements.set(i, q);
            }
            i = i + 1;
        }
        self.layout = None;
        assert(self@ =~= before.raised(panel));
    }

    /// Repair placements: every `(side, group)` with open panels has exactly
    /// one active member, and closed panels are never active. The first active
    /// tab in tab order stays; where there is none, the first tab wins.
    pub fn normalize(&mut self)
        requires
            old(self)@.valid(),
        ensures
            final(self)@ == old(self)@.normalized(),
            final(self)@.valid(),
            final(self)@.one_tab_shows(),
    {
        let ghost before = self@;
        proof {
            arrangement::lemma_normalized_shows_one(before.slots);
        }
        let mut active: Vec<bool> = Vec::new();
        let mut i: usize = 0;
        while i < 14
            invariant
                i <= 14,
                before.valid(),
                self@ == before,
                active@.len() == i,
                forall|j: int|
                    0 <= j < i ==> #[trigger] active@[j] == arrangement::normalized(
                        before.slots,
                    )[j].active,
            decreases 14 - i,
        {
            let p = self.placements[i];
            let panel = Self::panel_at(i);
            let shown = self.active_panel(p.side, p.group);
            active.push(p.open && shown == Some(panel));
            i = i + 1;
        }
        i = 0;
        while i < 14
            invariant
                i <= 14,
                before.valid(),
                active@.len() == 14,
                self@ == (DockModel { slots: self@.slots, ..before }),
                self@.slots.len() == 14,
                forall|j: int|
                    0 <= j < 14 ==> #[trigger] active@[j] == arrangement::normalized(
                        before.slots,
                    )[j].active,
                forall|j: int|
                    0 <= j < i ==> #[trigger] self@.slots[j] == arrangement::normalized(
                        before.slots,
                    )[j],
                forall|j: int| i <= j < 14 ==> #[trigger] self@.slots[j] == before.slots[j],
            decreases 14 - i,
        {
            let mut p = self.placements[i];
            p.active = active[i];
            self.placements.set(i, p);
            i = i + 1;
        }
        assert(self@ =~= before.normalized());
    }

    /// Where in a stack a group number stands.
    fn find_group(stack: &Vec<(u8, Vec<PanelId>)>, number: u8) -> (r: Option<usize>)
        requires
            sequences::increasing(
                group_view(stack@),
                |g: (u8, Seq<PanelId>)| g.0 as int,
            ),
        ensures
            match r {
                Some(k) => stack_index(group_view(stack@), number) == Some(k as int) && k
                    < stack@.len(),
                None => stack_index(group_view(stack@), number) is None,
            },
    {
        let ghost gs = group_view(stack@);
        let mut i: usize = 0;
        while i < stack.len()
            invariant
                i <= stack.len(),
                gs == group_view(stack@),
                sequences::increasing(gs, |g: (u8, Seq<PanelId>)| g.0 as int),
                forall|k: int| 0 <= k < i ==> (#[trigger] gs[k]).0 != number,
            decreases stack.len() - i,
        {
            if stack[i].0 == number {
                proof {
                    assert(gs[i as int].0 == number);
                    lemma_stack_index(gs, number, i as int);
                }
                return Some(i);
            }
            assert(gs[i as int].0 != number);
            i = i + 1;
        }
        None
    }

    /// Move a panel into a group of `side`, as its last tab. Joining the
    /// group it already lives in keeps its tab order and answers `false`.
    pub fn move_panel(&mut self, panel: PanelId, side: DockSide, group: u8) -> (r: bool)
        requires
            old(self)@.valid(),
        ensures
            final(self)@ == old(self)@.moved_panel(panel, side, group),
            final(self)@.valid(),
            r == !(old(self)@.placement(panel).open && old(self)@.placement(panel).side == side
                && old(self)@.placement(panel).group == group),
    {
        let index = Self::index_of(panel);
        let p = self.placements[index];
        if p.open && p.side == side && p.group == group {
            return false;
        }
        let ghost before = self@;
        let order = self.make_room(side, group);
        let ghost base = self@;
        proof {
            tabs::lemma_roomy(before.slots, side, group);
            let r = panel.rank();
        }
        let mut i: usize = 0;
        let ghost target = before.moved_panel(panel, side, group);
        let ghost joined = before.joined(panel, side, group);
        while i < 14
            invariant
                i <= 14,
                index == panel.rank(),
                base.valid(),
                base.slots == tabs::roomy(before.slots, side, group),
                order == tabs::next_tab(base.slots, side, group),
                p == before.placement(panel),
                p == (PanelPlacement { order: p.order, ..base.slots[panel.rank()] }),
                self@ == (DockModel { slots: self@.slots, ..before }),
                self@.slots.len() == 14,
                joined == before.joined(panel, side, group),
                forall|j: int| 0 <= j < i ==> #[trigger] self@.slots[j] == joined[j],
                forall|j: int| i <= j < 14 ==> #[trigger] self@.slots[j] == base.slots[j],
            decreases 14 - i,
        {
            let mut q = self.placements[i];
            if i == index {
                q.side = side;
                q.group = group;
                q.order = order;
                q.open = true;
                q.active = true;
            } else if (p.open && q.side == p.side && q.group == p.group) || (q.side == side
                && q.group == group) {
                q.active = false;
            }
            self.placements.set(i, q);
            i = i + 1;
        }
        assert(self@.slots =~= joined);
        self.normalize();
        self.layout = None;
        assert(self@ =~= target);
        true
    }

    pub fn left_width(&self) -> (r: Real32)
        ensures
            r == self@.left_width,
    {
        self.left_width
    }

    pub fn right_width(&self) -> (r: Real32)
        ensures
            r == self@.right_width,
    {
        self.right_width
    }

    pub fn bottom_height(&self) -> (r: Real32)
        ensures
            r == self@.bottom_height,
    {
        self.bottom_height
    }

    /// Set a side dock's width, clamped into the usable range. A non-finite
    /// value leaves the width alone rather than poisoning it, and a write that
    /// changes nothing changes nothing, the layout identity included.
    pub fn set_side_width(&mut self, side: DockSide, width: Real32)
        requires
            old(self)@.valid(),
        ensures
            final(self)@ == old(self)@.resized(side, width),
            final(self)@.valid(),
    {
        if self.sync_side_width(side, width) {
            self.layout = None;
        }
    }

    /// Record a side's extent **without** claiming the user rearranged
    /// anything. Returns `true` when the stored extent actually moved.
    pub fn sync_side_width(&mut self, side: DockSide, width: Real32) -> (r: bool)
        requires
            old(self)@.valid(),
        ensures
            final(self)@ == old(self)@.synced(side, width),
            final(self)@.valid(),
            r == old(self)@.extent_moves(side, width),
    {
        if !width.is_finite() {
            return false;
        }
        let clamped = match side {
            DockSide::Bottom => width.clamp(
                Real32 { bits: MIN_DOCK_HEIGHT },
                Real32 { bits: MAX_DOCK_HEIGHT },
            ),
            _ => width.clamp(Real32 { bits: MIN_DOCK_WIDTH }, Real32 { bits: MAX_DOCK_WIDTH }),
        };
        if self.side_extent(side).is_equal(clamped) {
            return false;
        }
        match side {
            DockSide::Left => {
                self.left_width = clamped;
            },
            DockSide::Right => {
                self.right_width = clamped;
            },
            DockSide::Bottom => {
                self.bottom_height = clamped;
            },
        }
        true
    }

    /// Move a panel's tab group one slot up or down the side's stack.
    ///
    /// Groups travel whole: a reorder can never split a group's tabs. Returns
    /// the group's new stack index, or `None` where the group is already at
    /// that end or the panel is closed.
    pub fn reorder(&mut self, panel: PanelId, up: bool) -> (r: Option<u8>)
        requires
            old(self)@.valid(),
        ensures
            final(self)@.valid(),
            match old(self)@.group_index(panel) {
                Some(at) => {
                    let to = if up {
                        at - 1
                    } else {
                        at + 1
                    };
                    &&& final(self)@ == old(self)@.reordered(panel, to)
                    &&& r == if old(self)@.can_reorder(panel, to) {
                        Some(to as u8)
                    } else {
                        None
                    }
                },
                None => final(self)@ == old(self)@ && r is None,
            },
    {
        let p = self.placement(panel);
        if !p.open {
            return None;
        }
        let stack = self.groups_on(p.side);
        proof {
            arrangement::lemma_groups(self@.slots, p.side);
        }
        let at = match Self::find_group(&stack, p.group) {
            Some(at) => at,
            None => {
                return None;
            },
        };
        assert(group_view(stack@).len() == stack@.len());
        let to: u8 = if up {
            if at == 0 {
                return None;
            }
            (at - 1) as u8
        } else {
            if at + 1 >= stack.len() {
                return None;
            }
            (at + 1) as u8
        };
        if self.reorder_to(panel, to) {
            Some(to)
        } else {
            None
        }
    }

    /// Write a stack of groups back into the placements: each panel in it gets
    /// the number of its group and its place among the tabs.
    fn write_stack(&mut self, side: DockSide, stack: &Vec<(u8, Vec<PanelId>)>)
        requires
            old(self)@.valid(),
            arrangement::is_stack(old(self)@.slots, side, group_view(stack@)),
        ensures
            final(self)@ == (DockModel {
                slots: arrangement::renumbered(old(self)@.slots, group_view(stack@)),
                ..old(self)@
            }),
            final(self)@.valid(),
    {
        let ghost before = self@;
        let ghost new_stack = group_view(stack@);
        proof {
            arrangement::lemma_written(before.slots, side, new_stack);
        }
        let mut k: usize = 0;
        while k < stack.len()
            invariant
                k <= stack.len(),
                before.valid(),
                group_view(stack@) == new_stack,
                arrangement::is_stack(before.slots, side, new_stack),
                self@ == (DockModel {
                    slots: arrangement::written(before.slots, new_stack, k as int, 0),
                    ..before
                }),
            decreases stack.len() - k,
        {
            let mut t: usize = 0;
            assert(new_stack[k as int].1 == stack@[k as int].1@);
            while t < stack[k].1.len()
                invariant
                    k < stack.len(),
                    t <= stack[k as int].1@.len(),
                    before.valid(),
                    new_stack.len() == stack@.len(),
                    new_stack[k as int].1 == stack[k as int].1@,
                    arrangement::is_stack(before.slots, side, new_stack),
                    self@ == (DockModel {
                        slots: arrangement::written(
                            before.slots,
                            new_stack,
                            k as int,
                            t as int,
                        ),
                        ..before
                    }),
                decreases stack[k as int].1@.len() - t,
            {
                let id = stack[k].1[t];
                let index = Self::index_of(id);
                let mut q = self.placements[index];
                q.group = k as u8;
                q.order = t as u8;
                self.placements.set(index, q);
                proof {
                    arrangement::lemma_written_step(
                        before.slots,
                        side,
                        new_stack,
                        k as int,
                        t as int,
                    );
                }
                t = t + 1;
            }
            proof {
                arrangement::lemma_written(before.slots, side, new_stack);
                assert(arrangement::written(before.slots, new_stack, k + 1, 0)
                    == arrangement::written(before.slots, new_stack, k as int, t as int));
            }
            k = k + 1;
        }
        proof {
            arrangement::lemma_written(before.slots, side, new_stack);
        }
    }

    /// Move a panel's tab group to stack slot `to` of its side.
    ///
    /// Absolute, and therefore idempotent: applying it twice leaves the panel
    /// where the first application put it. Returns `true` when the arrangement
    /// actually changed; a slot off the end of the stack is a refusal, not a
    /// clamp.
    pub fn reorder_to(&mut self, panel: PanelId, to: u8) -> (r: bool)
        requires
            old(self)@.valid(),
        ensures
            final(self)@ == old(self)@.reordered(panel, to as int),
            final(self)@.valid(),
            r == old(self)@.can_reorder(panel, to as int),
    {
        let p = self.placement(panel);
        if !p.open {
            return false;
        }
        let ghost before = self@;
        let ghost gs = arrangement::groups(before.slots, p.side);
        let mut stack = self.groups_on(p.side);
        proof {
            arrangement::lemma_groups(before.slots, p.side);
            arrangement::lemma_groups_stack(before.slots, p.side);
        }
        let from = match Self::find_group(&stack, p.group) {
            Some(at) => at,
            None => {
                return false;
            },
        };
        let to: usize = to as usize;
        assert(gs.len() == stack@.len());
        if to >= stack.len() || to == from {
            return false;
        }
        let group = stack.remove(from);
        stack.insert(to, group);
        assert(group_view(stack@) =~= arrangement::moved(gs, from as int, to as int));
        proof {
            arrangement::lemma_moved_stack(before.slots, p.side, gs, from as int, to as int);
        }
        self.write_stack(p.side, &stack);
        self.normalize();
        self.layout = None;
        assert(self@ =~= before.reordered(panel, to as int));
        true
    }

    /// Put a panel at place `to` among the panels open on its side.
    ///
    /// Absolute, as [`DockState::reorder_to`] is, but it moves the one panel:
    /// it joins the group of the panel that stood there, and the others keep
    /// their groups and their order. Returns `true` when the arrangement
    /// actually changed; a place off the end of the side is a refusal, not a
    /// clamp, and so is a closed panel.
    pub fn relocate(&mut self, panel: PanelId, to: u8) -> (r: bool)
        requires
            old(self)@.valid(),
        ensures
            final(self)@ == old(self)@.relocated(panel, to as int),
            final(self)@.valid(),
            r == old(self)@.can_relocate(panel, to as int),
    {
        let mut p = self.placement(panel);
        if !p.open {
            return false;
        }
        let ghost before = self@;
        let mut listing = self.panels_on(p.side);
        let ghost old_listing = listing@;
        proof {
            arrangement::lemma_panels(before.slots, p.side);
            tabs::lemma_listing(before.slots, p.side);
        }
        let to: usize = to as usize;
        if to >= listing.len() || listing[to] == panel {
            return false;
        }
        let from = Self::find_panel(&listing, panel);
        let own = p.group;
        p.group = self.placement(listing[to]).group;
        let joins = p.group != own;
        let moving = listing.remove(from);
        listing.insert(to, moving);
        assert(listing@ =~= arrangement::moved(old_listing, from as int, to as int));
        proof {
            tabs::lemma_shifted(before.slots, p.side, from as int, to as int);
        }
        self.place(panel, p);
        self.line_up(&listing);
        if joins {
            self.show_on_top(panel);
        } else {
            self.normalize();
        }
        assert(self@ =~= before.relocated(panel, to as int));
        true
    }

    /// Where a panel stands in a list that holds it.
    fn find_panel(list: &Vec<PanelId>, panel: PanelId) -> (r: usize)
        requires
            list@.contains(panel),
            list@.no_duplicates(),
        ensures
            r < list@.len(),
            list@[r as int] == panel,
            r == list@.index_of(panel),
    {
        let mut i: usize = 0;
        while list[i] != panel
            invariant
                i < list.len(),
                list@.contains(panel),
                forall|j: int| 0 <= j < i ==> #[trigger] list@[j] != panel,
            decreases list@.len() - i,
        {
            proof {
                let k = choose|k: int| 0 <= k < list@.len() && list@[k] == panel;
                assert(i < k);
            }
            i = i + 1;
        }
        i
    }

    /// Width (or, for the bottom, height) of one side.
    pub fn side_extent(&self, side: DockSide) -> (r: Real32)
        ensures
            r == self@.extent(side),
    {
        match side {
            DockSide::Left => self.left_width,
            DockSide::Right => self.right_width,
            DockSide::Bottom => self.bottom_height,
        }
    }

    /// `true` when a side has nothing open on it, so the dock should not be
    /// drawn at all: an empty rail of chrome is worse than no rail.
    pub fn side_is_empty(&self, side: DockSide) -> (r: bool)
        requires
            self@.valid(),
        ensures
            r == (forall|p: PanelId| !arrangement::on_side(self@.slots, side, p)),
    {
        let listing = self.panels_on(side);
        proof {
            arrangement::lemma_panels(self@.slots, side);
            if listing@.len() > 0 {
                assert(listing@.contains(listing@[0]));
            } else {
                assert forall|p: PanelId| !arrangement::on_side(self@.slots, side, p) by {
                    assert(!listing@.contains(p));
                }
            }
        }
        listing.len() == 0
    }

    /// Whether two docks hold the same arrangement at the same extents.
    pub fn same_as(&self, other: &DockState) -> (r: bool)
        requires
            self@.valid(),
            other@.valid(),
        ensures
            r == self@.same(other@),
    {
        let mut i: usize = 0;
        while i < 14
            invariant
                i <= 14,
                self@.valid(),
                other@.valid(),
                forall|j: int| 0 <= j < i ==> #[trigger] self@.slots[j] == other@.slots[j],
            decreases 14 - i,
        {
            if self.placements[i] != other.placements[i] {
                return false;
            }
            i = i + 1;
        }
        assert(self@.slots =~= other@.slots);
        self.left_width.is_equal(other.left_width) && self.right_width.is_equal(other.right_width)
            && self.bottom_height.is_equal(other.bottom_height) && self.left_rail
            == other.left_rail && self.right_rail == other.right_rail && self.layout
            == other.layout
    }

    /// One placement per panel, in Window-menu order.
    pub fn placements(&self) -> (r: &Vec<PanelPlacement>)
        ensures
            r@ == self@.slots,
    {
        &self.placements
    }
}

/// Whether a rail's freshly measured extent is a *user resize*: a change from
/// a previous measurement, while the pointer is down.
///
/// The very first measurement is not a resize, and a width that changes with
/// no pointer down is the window being resized, not the dock.
pub fn is_resize(previous: Option<Real32>, measured: Real32, pointer_down: bool) -> (r: bool)
    ensures
        r == (pointer_down && measured.finite() && match previous {
            Some(p) => !p.equals(measured),
            None => false,
        }),
{
    pointer_down && measured.is_finite() && match previous {
        Some(p) => !p.is_equal(measured),
        None => false,
    }
}

/// In a stack of distinct numbers, a number stands where it is found.
pub proof fn lemma_stack_index(gs: Seq<(u8, Seq<PanelId>)>, number: u8, k: int)
    requires
        sequences::increasing(gs, |g: (u8, Seq<PanelId>)| g.0 as int),
        0 <= k < gs.len(),
        gs[k].0 == number,
    ensures
        stack_index(gs, number) == Some(k),
{
    let key = |g: (u8, Seq<PanelId>)| g.0 as int;
    let j = choose|j: int| 0 <= j < gs.len() && (#[trigger] gs[j]).0 == number;
    if j < k {
        assert(key(gs[j]) < key(gs[k]));
    }
    if k < j {
        assert(key(gs[k]) < key(gs[j]));
    }
}

} // verus!

//! What a click means: the view's toggles, the clipboard as the menus see it,
//! the progress of a long operation, and the intents every control resolves to.
//!
//! Nothing here holds the document; every control resolves to an [`Intent`], the
//! workspace collects them, and the application performs them.

use crate::camera::Camera;
use crate::dialogs::units::Unit;
use crate::dock::{DockSide, LayoutId, PanelId};
use crate::geometry::Point;
use crate::ieee::Real32;
use crate::layer_id::LayerId;
use crate::rgba::Rgba;
use crate::theme::Theme;
use crate::tool_id::ToolId;
use vstd::prelude::*;

verus! {

/// A channel of the document, as the Channels panel lists it.
#[derive(Clone, Copy, PartialEq, Eq, Structural, Hash, Debug)]
pub enum ChannelKind {
    /// All components together.
    Composite,
    /// One colour component, counted from nothing.
    Component(u8),
    /// A layer's mask.
    Mask(LayerId),
}

/// Which colour well a control speaks of.
#[derive(Clone, Copy, PartialEq, Eq, Structural, Hash, Debug)]
pub enum ColorWell {
    Foreground,
    Background,
}

/// One thing the user asked for. `C` is the application's document edit, and
/// `A` whatever else it performs itself.
///
/// # Every workspace intent is idempotent
///
/// The drawing side applies an intent as it draws, and *then* emits it, because
/// a control that rearranges itself under the pointer lands the next click on
/// the wrong thing. An application that drains the outbox and absorbs what it
/// finds is therefore applying an intent that has already landed. So every one
/// of them is an **absolute set**, never a relative step.
#[derive(Clone, PartialEq, Debug)]
pub enum Intent<C, A> {
    /// A document edit, ready to run through history.
    Document(C),
    /// Something the application does itself.
    Action(A),
    /// Make a tool active.
    SelectTool(ToolId),
    /// Replace the layers-panel selection. `active` is the layer that gains
    /// focus, and is always a member of `layers` unless `layers` is empty.
    SelectLayers { layers: Vec<LayerId>, active: Option<LayerId> },
    /// Enter a text layer for editing on the canvas.
    EnterTextLayer { layer: LayerId },
    /// Aim the edits at the active layer's content or its mask coverage.
    SetEditTarget { mask: bool },
    /// Open the colour picker for one of the colour wells.
    OpenColorPicker(ColorWell),
    /// Open the gradient editor for the effective tool's ramp.
    OpenGradientEditor,
    /// Open the brush editor over the effective tool's brush.
    OpenBrushEditor,
    /// Confirm the gesture the live tool is holding, as Enter does.
    ConfirmTool,
    /// Start recording every applied command.
    StartRecording,
    /// Stop recording, keeping what was captured.
    StopRecording,
    /// Replay the last stopped recording on the active document.
    ReplayRecording,
    /// A character picked for a text layer.
    InsertGlyph { layer: LayerId, text: String },
    /// Move the animation playhead. An absolute time, so absorbing it twice
    /// lands in one place.
    SeekTimeline { t_ms: u32 },
    /// Expand or collapse a group row.
    SetGroupExpanded { layer: LayerId, expanded: bool },
    /// Set the view zoom, as a scale factor (`1.0` is 100%).
    SetZoom(Real32),
    /// Set the foreground colour, straight-alpha sRGB.
    SetForeground(Rgba),
    /// Set the background colour, straight-alpha sRGB.
    SetBackground(Rgba),
    /// Set the zoom's centre, in document pixels: the Navigator's pan.
    SetViewCenter(Point),
    /// Move the camera to where one of the View menu's zoom commands puts it:
    /// in, out, fit, fill, 100%, print size, to the selection. The canvas works
    /// out where that is, so this is a destination too.
    MoveCamera(Camera),
    /// Turn the view upright.
    ResetViewRotation,
    /// Show or hide one colour channel, or the whole composite. A view setting
    /// rather than a document edit.
    SetChannelVisible { channel: ChannelKind, visible: bool },
    /// Make one channel the editing target.
    SelectChannel(ChannelKind),
    /// Show or hide a dock panel.
    SetPanelOpen { panel: PanelId, open: bool },
    /// Move a panel to another side of the window.
    DockPanel { panel: PanelId, side: DockSide },
    /// Put a panel at index `to` among the panels open on its own side. A
    /// destination, not a direction, so absorbing it twice leaves the panel in
    /// one place.
    ReorderPanel { panel: PanelId, to: u8 },
    /// Switch the whole dock to a saved layout.
    ApplyLayout(LayoutId),
    /// Switch appearance.
    SetTheme(Theme),
    /// Turn one view overlay on or off.
    SetViewFlag { flag: ViewFlag, on: bool },
    /// Change the unit the rulers and readouts measure in.
    SetRulerUnit(Unit),
}

impl<C, A> Intent<C, A> {
    /// The document edit this intent carries, if any.
    pub fn as_command(&self) -> (r: Option<&C>)
        ensures
            r == match self {
                Intent::Document(c) => Some(c),
                _ => None,
            },
    {
        match self {
            Intent::Document(c) => Some(c),
            _ => None,
        }
    }

    /// The application's own action this intent carries, if any.
    pub fn as_action(&self) -> (r: Option<&A>)
        ensures
            r == match self {
                Intent::Action(a) => Some(a),
                _ => None,
            },
    {
        match self {
            Intent::Action(a) => Some(a),
            _ => None,
        }
    }
}

/// A toggle in the View menu.
#[derive(Clone, Copy, PartialEq, Eq, Structural, Hash, Debug)]
pub enum ViewFlag {
    Rulers,
    Guides,
    SmartGuides,
    Grid,
    PixelGrid,
    Snap,
    SelectionEdges,
    LayerEdges,
    ProofColors,
    GamutWarning,
    /// Mirror the *view* left to right. A view setting, not an edit: the
    /// document is untouched.
    FlipHorizontal,
    /// Mirror the view top to bottom.
    FlipVertical,
    /// Swap the pictorial cursors for a crosshair, for work that needs the exact
    /// pixel.
    PreciseCursor,
    /// View > Extras: the master switch over every overlay
    /// [`ViewFlag::is_extra`] names. Off hides them all at once while each keeps
    /// its own tick, so turning Extras back on restores exactly the set that was
    /// showing.
    Extras,
    /// View > Show > Slices: the committed slices on the canvas.
    Slices,
    /// View > Snap To > Guides.
    SnapToGuides,
    /// View > Snap To > Grid (only while the grid is showing).
    SnapToGrid,
    /// View > Snap To > Layers: other layers' edges and centres.
    SnapToLayers,
    /// View > Snap To > Document Bounds: the canvas edges and centre.
    SnapToBounds,
    /// View > Snap To > Slices (only while slices are showing).
    SnapToSlices,
    /// View > Pattern Preview: the canvas repeated around itself.
    PatternPreview,
    /// View > Show > Paths: the path being edited, its anchors and handles.
    Paths,
}

impl ViewFlag {
    /// Every flag, in menu order.
    pub const ALL: [ViewFlag; 22] = [
        ViewFlag::Rulers,
        ViewFlag::Guides,
        ViewFlag::SmartGuides,
        ViewFlag::Grid,
        ViewFlag::PixelGrid,
        ViewFlag::Snap,
        ViewFlag::SelectionEdges,
        ViewFlag::LayerEdges,
        ViewFlag::ProofColors,
        ViewFlag::GamutWarning,
        ViewFlag::FlipHorizontal,
        ViewFlag::FlipVertical,
        ViewFlag::PreciseCursor,
        ViewFlag::Extras,
        ViewFlag::Slices,
        ViewFlag::SnapToGuides,
        ViewFlag::SnapToGrid,
        ViewFlag::SnapToLayers,
        ViewFlag::SnapToBounds,
        ViewFlag::SnapToSlices,
        ViewFlag::PatternPreview,
        ViewFlag::Paths,
    ];

    /// The View > Snap To submenu's targets.
    pub const SNAP_TO: [ViewFlag; 5] = [
        ViewFlag::SnapToGuides,
        ViewFlag::SnapToGrid,
        ViewFlag::SnapToLayers,
        ViewFlag::SnapToSlices,
        ViewFlag::SnapToBounds,
    ];

    /// The overlays View > Extras hides at once.
    pub open spec fn extra(self) -> bool {
        self == ViewFlag::Guides || self == ViewFlag::SmartGuides || self == ViewFlag::Grid || self == ViewFlag::PixelGrid || self == ViewFlag::SelectionEdges || self == ViewFlag::LayerEdges || self == ViewFlag::Slices || self == ViewFlag::Paths
    }

    /// Whether View > Extras hides the overlay.
    pub fn is_extra(self) -> (r: bool)
        ensures
            r == self.extra(),
    {
        match self {
            ViewFlag::Guides | ViewFlag::SmartGuides | ViewFlag::Grid | ViewFlag::PixelGrid | ViewFlag::SelectionEdges | ViewFlag::LayerEdges | ViewFlag::Slices | ViewFlag::Paths => true,
            _ => false,
        }
    }

    /// Whether the flag's row lives in a View submenu (Show, Snap To) rather
    /// than in the flat list of toggles.
    pub fn in_submenu(self) -> (r: bool)
        ensures
            r == (self == ViewFlag::Slices || self == ViewFlag::Paths || self == ViewFlag::SnapToGuides || self == ViewFlag::SnapToGrid || self == ViewFlag::SnapToLayers || self == ViewFlag::SnapToBounds || self == ViewFlag::SnapToSlices),
    {
        match self {
            ViewFlag::Slices | ViewFlag::Paths | ViewFlag::SnapToGuides | ViewFlag::SnapToGrid | ViewFlag::SnapToLayers | ViewFlag::SnapToBounds | ViewFlag::SnapToSlices => true,
            _ => false,
        }
    }

    /// Menu label.
    pub fn label(self) -> (r: &'static str)
        ensures
            r@ == match self {
                ViewFlag::Rulers => "Rulers"@,
                ViewFlag::Guides => "Guides"@,
                ViewFlag::SmartGuides => "Smart Guides"@,
                ViewFlag::Grid => "Grid"@,
                ViewFlag::PixelGrid => "Pixel Grid"@,
                ViewFlag::Snap => "Snap"@,
                ViewFlag::SelectionEdges => "Selection Edges"@,
                ViewFlag::LayerEdges => "Layer Edges"@,
                ViewFlag::ProofColors => "Proof Colors"@,
                ViewFlag::GamutWarning => "Gamut Warning"@,
                ViewFlag::FlipHorizontal => "Flip View Horizontal"@,
                ViewFlag::FlipVertical => "Flip View Vertical"@,
                ViewFlag::PreciseCursor => "Precise Cursor"@,
                ViewFlag::Extras => "Extras"@,
                ViewFlag::Slices => "Slices"@,
                ViewFlag::SnapToGuides => "Guides"@,
                ViewFlag::SnapToGrid => "Grid"@,
                ViewFlag::SnapToLayers => "Layers"@,
                ViewFlag::SnapToBounds => "Document Bounds"@,
                ViewFlag::SnapToSlices => "Slices"@,
                ViewFlag::PatternPreview => "Pattern Preview"@,
                ViewFlag::Paths => "Paths"@,
            },
    {
        match self {
            ViewFlag::Rulers => "Rulers",
            ViewFlag::Guides => "Guides",
            ViewFlag::SmartGuides => "Smart Guides",
            ViewFlag::Grid => "Grid",
            ViewFlag::PixelGrid => "Pixel Grid",
            ViewFlag::Snap => "Snap",
            ViewFlag::SelectionEdges => "Selection Edges",
            ViewFlag::LayerEdges => "Layer Edges",
            ViewFlag::ProofColors => "Proof Colors",
            ViewFlag::GamutWarning => "Gamut Warning",
            ViewFlag::FlipHorizontal => "Flip View Horizontal",
            ViewFlag::FlipVertical => "Flip View Vertical",
            ViewFlag::PreciseCursor => "Precise Cursor",
            ViewFlag::Extras => "Extras",
            ViewFlag::Slices => "Slices",
            ViewFlag::SnapToGuides => "Guides",
            ViewFlag::SnapToGrid => "Grid",
            ViewFlag::SnapToLayers => "Layers",
            ViewFlag::SnapToBounds => "Document Bounds",
            ViewFlag::SnapToSlices => "Slices",
            ViewFlag::PatternPreview => "Pattern Preview",
            ViewFlag::Paths => "Paths",
        }
    }

    /// The flag's place in [`ViewFlag::ALL`].
    pub open spec fn place(self) -> u32 {
        match self {
            ViewFlag::Rulers => 0,
            ViewFlag::Guides => 1,
            ViewFlag::SmartGuides => 2,
            ViewFlag::Grid => 3,
            ViewFlag::PixelGrid => 4,
            ViewFlag::Snap => 5,
            ViewFlag::SelectionEdges => 6,
            ViewFlag::LayerEdges => 7,
            ViewFlag::ProofColors => 8,
            ViewFlag::GamutWarning => 9,
            ViewFlag::FlipHorizontal => 10,
            ViewFlag::FlipVertical => 11,
            ViewFlag::PreciseCursor => 12,
            ViewFlag::Extras => 13,
            ViewFlag::Slices => 14,
            ViewFlag::SnapToGuides => 15,
            ViewFlag::SnapToGrid => 16,
            ViewFlag::SnapToLayers => 17,
            ViewFlag::SnapToBounds => 18,
            ViewFlag::SnapToSlices => 19,
            ViewFlag::PatternPreview => 20,
            ViewFlag::Paths => 21,
        }
    }

    fn index(self) -> (r: u32)
        ensures
            r == self.place(),
            r < 22,
    {
        match self {
            ViewFlag::Rulers => 0,
            ViewFlag::Guides => 1,
            ViewFlag::SmartGuides => 2,
            ViewFlag::Grid => 3,
            ViewFlag::PixelGrid => 4,
            ViewFlag::Snap => 5,
            ViewFlag::SelectionEdges => 6,
            ViewFlag::LayerEdges => 7,
            ViewFlag::ProofColors => 8,
            ViewFlag::GamutWarning => 9,
            ViewFlag::FlipHorizontal => 10,
            ViewFlag::FlipVertical => 11,
            ViewFlag::PreciseCursor => 12,
            ViewFlag::Extras => 13,
            ViewFlag::Slices => 14,
            ViewFlag::SnapToGuides => 15,
            ViewFlag::SnapToGrid => 16,
            ViewFlag::SnapToLayers => 17,
            ViewFlag::SnapToBounds => 18,
            ViewFlag::SnapToSlices => 19,
            ViewFlag::PatternPreview => 20,
            ViewFlag::Paths => 21,
        }
    }
}

/// [`ViewFlag::ALL`] lists every flag once, and the set has a bit for each.
pub proof fn every_flag_is_listed(flag: ViewFlag)
    ensures
        flag.place() < ViewFlag::ALL@.len() <= 32,
        ViewFlag::ALL@[flag.place() as int] == flag,
        forall|i: int|
            0 <= i < ViewFlag::ALL@.len() ==> (#[trigger] ViewFlag::ALL@[i]).place() == i,
{
    let all = ViewFlag::ALL@;
    assert(all[0] == ViewFlag::Rulers);
    assert(all[1] == ViewFlag::Guides);
    assert(all[2] == ViewFlag::SmartGuides);
    assert(all[3] == ViewFlag::Grid);
    assert(all[4] == ViewFlag::PixelGrid);
    assert(all[5] == ViewFlag::Snap);
    assert(all[6] == ViewFlag::SelectionEdges);
    assert(all[7] == ViewFlag::LayerEdges);
    assert(all[8] == ViewFlag::ProofColors);
    assert(all[9] == ViewFlag::GamutWarning);
    assert(all[10] == ViewFlag::FlipHorizontal);
    assert(all[11] == ViewFlag::FlipVertical);
    assert(all[12] == ViewFlag::PreciseCursor);
    assert(all[13] == ViewFlag::Extras);
    assert(all[14] == ViewFlag::Slices);
    assert(all[15] == ViewFlag::SnapToGuides);
    assert(all[16] == ViewFlag::SnapToGrid);
    assert(all[17] == ViewFlag::SnapToLayers);
    assert(all[18] == ViewFlag::SnapToBounds);
    assert(all[19] == ViewFlag::SnapToSlices);
    assert(all[20] == ViewFlag::PatternPreview);
    assert(all[21] == ViewFlag::Paths);
}

/// Which view overlays are currently on.
///
/// A bit set, so the menu can be driven by [`ViewFlag::ALL`] and a new flag
/// cannot be forgotten in the menu builder.
#[derive(Clone, Copy, PartialEq, Eq, Structural, Debug)]
pub struct ViewFlags {
    bits: u32,
}

/// The bit at a place is set.
spec fn bit(bits: u32, place: u32) -> bool {
    bits & (1u32 << place) != 0
}

impl View for ViewFlags {
    type V = Set<ViewFlag>;

    closed spec fn view(&self) -> Set<ViewFlag> {
        Set::new(|f: ViewFlag| bit(self.bits, f.place()))
    }
}

impl Default for ViewFlags {
    fn default() -> (r: Self)
        ensures
            r@ == Set::<ViewFlag>::empty(),
    {
        let r = ViewFlags { bits: 0 };
        assert forall|f: ViewFlag| !r@.contains(f) by {
            let place = f.place();
            assert(0u32 & (1u32 << place) == 0) by (bit_vector);
        }
        assert(r@ == Set::<ViewFlag>::empty());
        r
    }
}

/// Setting one bit leaves every other as it was.
proof fn lemma_bits(bits: u32, a: u32, b: u32)
    requires
        a < 32,
        b < 32,
    ensures
        bit(bits | (1u32 << a), b) == (bit(bits, b) || a == b),
        bit(bits & !(1u32 << a), b) == (bit(bits, b) && a != b),
{
    assert((bits | (1u32 << a)) & (1u32 << b) != 0 <==> (bits & (1u32 << b) != 0 || a == b))
        by (bit_vector)
        requires
            a < 32,
            b < 32,
    ;
    assert((bits & !(1u32 << a)) & (1u32 << b) != 0 <==> (bits & (1u32 << b) != 0 && a != b))
        by (bit_vector)
        requires
            a < 32,
            b < 32,
    ;
}

/// A flag turned on or off; the others stay as they are.
pub open spec fn flagged(flags: Set<ViewFlag>, flag: ViewFlag, on: bool) -> Set<ViewFlag> {
    if on {
        flags.insert(flag)
    } else {
        flags.remove(flag)
    }
}

/// The flag's overlay is drawn: its own tick, and for an extra View > Extras as
/// well.
pub open spec fn shown(flags: Set<ViewFlag>, flag: ViewFlag) -> bool {
    flags.contains(flag) && (!flag.extra() || flags.contains(ViewFlag::Extras))
}

/// What a fresh window shows.
pub open spec fn fresh_flags() -> Set<ViewFlag> {
    set![
        ViewFlag::Rulers,
        ViewFlag::Guides,
        ViewFlag::SmartGuides,
        ViewFlag::Snap,
        ViewFlag::SelectionEdges,
        ViewFlag::LayerEdges,
        ViewFlag::Extras,
        ViewFlag::Slices,
        ViewFlag::SnapToGuides,
        ViewFlag::SnapToGrid,
        ViewFlag::SnapToLayers,
        ViewFlag::SnapToBounds,
        ViewFlag::SnapToSlices,
        ViewFlag::Paths,
    ]
}

/// Turning Extras off and on again restores exactly the overlays that were
/// showing; while it is off none of them shows.
pub proof fn extras_restores_what_was_showing(flags: Set<ViewFlag>, flag: ViewFlag)
    requires
        flags.contains(ViewFlag::Extras),
    ensures
        flag.extra() ==> !shown(flagged(flags, ViewFlag::Extras, false), flag),
        flagged(flagged(flags, ViewFlag::Extras, false), ViewFlag::Extras, true) == flags,
{
    assert(flagged(flagged(flags, ViewFlag::Extras, false), ViewFlag::Extras, true) == flags);
}

/// The flags are independent: setting one leaves every other as it was, and
/// setting it twice sets it once.
pub proof fn flags_are_independent(
    flags: Set<ViewFlag>,
    flag: ViewFlag,
    on: bool,
    other: ViewFlag,
)
    ensures
        flagged(flags, flag, on).contains(flag) == on,
        other != flag ==> flagged(flags, flag, on).contains(other) == flags.contains(other),
        flagged(flagged(flags, flag, on), flag, on) == flagged(flags, flag, on),
{
    assert(flagged(flagged(flags, flag, on), flag, on) == flagged(flags, flag, on));
}

impl ViewFlags {
    /// What a fresh window shows: rulers, guides, snapping and the two edge
    /// overlays. The pixel grid and the proofing overlays stay off: they are
    /// answers to questions the user has not asked yet.
    pub fn defaults() -> (r: Self)
        ensures
            r@ == fresh_flags(),
    {
        let mut f = ViewFlags::default();
        f.set(ViewFlag::Rulers, true);
        f.set(ViewFlag::Guides, true);
        f.set(ViewFlag::SmartGuides, true);
        f.set(ViewFlag::Snap, true);
        f.set(ViewFlag::SelectionEdges, true);
        f.set(ViewFlag::LayerEdges, true);
        f.set(ViewFlag::Extras, true);
        f.set(ViewFlag::Slices, true);
        f.set(ViewFlag::SnapToGuides, true);
        f.set(ViewFlag::SnapToGrid, true);
        f.set(ViewFlag::SnapToLayers, true);
        f.set(ViewFlag::SnapToBounds, true);
        f.set(ViewFlag::SnapToSlices, true);
        f.set(ViewFlag::Paths, true);
        assert(f@ == fresh_flags());
        f
    }

    /// Whether `flag`'s overlay is actually drawn: its own tick, and for an
    /// [extra](ViewFlag::is_extra) View > Extras as well. The menu's checkmark
    /// reads [`ViewFlags::get`]; every painter reads this.
    pub fn shows(self, flag: ViewFlag) -> (r: bool)
        ensures
            r == shown(self@, flag),
    {
        self.get(flag) && (!flag.is_extra() || self.get(ViewFlag::Extras))
    }

    pub fn get(self, flag: ViewFlag) -> (r: bool)
        ensures
            r == self@.contains(flag),
    {
        let mask: u32 = 1u32 << flag.index();
        self.bits & mask != 0
    }

    pub fn set(&mut self, flag: ViewFlag, on: bool)
        ensures
            final(self)@ == flagged(old(self)@, flag, on),
    {
        let mask: u32 = 1u32 << flag.index();
        let ghost before = self.bits;
        if on {
            self.bits = self.bits | mask;
        } else {
            self.bits = self.bits & !mask;
        }
        assert forall|f: ViewFlag| self@.contains(f) == flagged(
            old(self)@,
            flag,
            on,
        ).contains(f) by {
            every_flag_is_listed(f);
            every_flag_is_listed(flag);
            lemma_bits(before, flag.place(), f.place());
        }
        assert(self@ == flagged(old(self)@, flag, on));
    }

    pub fn toggle(&mut self, flag: ViewFlag)
        ensures
            final(self)@ == flagged(old(self)@, flag, !old(self)@.contains(flag)),
    {
        let on = self.get(flag);
        self.set(flag, !on);
    }
}

/// What the clipboard holds, as far as menu enablement is concerned.
///
/// The UI never touches clipboard *bytes*: it only needs to know whether Paste
/// has anything to do.
#[derive(Clone, Copy, PartialEq, Eq, Structural, Debug)]
pub struct ClipboardState {
    /// Pixels are available to paste from the application's own store.
    pub pixels: bool,
    /// Pixels are available from the system's image clipboard. They enable
    /// plain Paste but not Paste Into: they have no in-document origin.
    pub external_pixels: bool,
    /// Whole layers are available to paste.
    pub layers: bool,
}

impl Default for ClipboardState {
    fn default() -> (r: Self)
        ensures
            r == ClipboardState::nothing(),
    {
        ClipboardState { pixels: false, external_pixels: false, layers: false }
    }
}

impl ClipboardState {
    /// Nothing has been copied yet.
    pub open spec fn nothing() -> ClipboardState {
        ClipboardState { pixels: false, external_pixels: false, layers: false }
    }

    /// Nothing has been copied yet.
    pub fn empty() -> (r: ClipboardState)
        ensures
            r == ClipboardState::nothing(),
    {
        ClipboardState { pixels: false, external_pixels: false, layers: false }
    }

    /// `true` when Paste would produce nothing.
    pub fn is_empty(self) -> (r: bool)
        ensures
            r == (self == ClipboardState::nothing()),
    {
        !self.pixels && !self.external_pixels && !self.layers
    }

    /// `true` when the application's own store holds something: the only source
    /// Paste Into can honor.
    pub fn has_internal_pixels(self) -> (r: bool)
        ensures
            r == (self.pixels || self.layers),
    {
        self.pixels || self.layers
    }
}

/// A long operation the status bar reports on.
#[derive(Clone, PartialEq, Debug)]
pub struct Progress {
    /// What is running.
    pub label: String,
    /// `0.0..=1.0`, or `None` for an operation whose length is unknown.
    pub fraction: Option<Real32>,
}

impl Progress {
    /// A determinate operation. `fraction` is clamped into `0.0..=1.0`, and a
    /// non-finite value is treated as indeterminate rather than painted as a
    /// bar without a width.
    pub fn new(label: String, fraction: Real32) -> (r: Self)
        ensures
            r.label == label,
            r.fraction == if fraction.finite() {
                Some(fraction.clamped(Real32 { bits: 0 }, Real32 { bits: 0x3f80_0000 }))
            } else {
                None
            },
    {
        let fraction = if fraction.is_finite() {
            Some(fraction.clamp(Real32 { bits: 0 }, Real32 { bits: 0x3f80_0000 }))
        } else {
            None
        };
        Progress { label, fraction }
    }

    /// An operation with no known length.
    pub fn indeterminate(label: String) -> (r: Self)
        ensures
            r.label == label,
            r.fraction is None,
    {
        Progress { label, fraction: None }
    }
}

} // verus!

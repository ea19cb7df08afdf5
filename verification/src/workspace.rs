//! The workspace: the state the chrome keeps between frames, and the intents it
//! collects.
//!
//! The workspace never edits the document. Every control resolves to an
//! [`Intent`]; [`Workspace::drain_intents`] hands them to the application, and
//! [`Workspace::absorb`] applies the ones that are the workspace's own.

use crate::camera::Camera;
use crate::dialogs::units::Unit;
use crate::dock::{DockModel, DockSide, DockState, LayoutId, PanelId};
use crate::dock_laws;
use crate::geometry::Point;
use crate::ieee::Real32;
use crate::intent;
use crate::intent::{ChannelKind, ClipboardState, ColorWell, Intent, ViewFlag, ViewFlags};
use crate::keymap::Key;
use crate::keys;
use crate::keys::{ChannelRow, Modifiers, Resolution, ToolLetter};
use crate::layer_id::LayerId;
use crate::rgba::Rgba;
use crate::theme::Theme;
use crate::tool_id::ToolId;
use vstd::prelude::*;

verus! {

/// The zooms the view can have.
#[derive(Clone, Copy, PartialEq, Structural, Debug)]
pub struct ZoomLimits {
    pub least: Real32,
    pub most: Real32,
}

impl ZoomLimits {
    /// Two numbers, in order.
    pub open spec fn valid(self) -> bool {
        self.least.at_most(self.most)
    }

    /// A zoom the view can have; one that is not a finite number is 100%.
    pub open spec fn held(self, zoom: Real32) -> Real32 {
        if zoom.finite() {
            zoom.clamped(self.least, self.most)
        } else {
            Real32 { bits: 0x3f80_0000 }
        }
    }

    pub fn clamp_zoom(self, zoom: Real32) -> (r: Real32)
        requires
            self.valid(),
        ensures
            r == self.held(zoom),
    {
        if zoom.is_finite() {
            zoom.clamp(self.least, self.most)
        } else {
            Real32 { bits: 0x3f80_0000 }
        }
    }
}

/// What the menus read of the workspace.
#[derive(Debug)]
pub struct MenuContext {
    pub clipboard: ClipboardState,
    pub selected_layers: usize,
    pub view: ViewFlags,
    /// The view is not upright.
    pub view_rotated: bool,
    pub ruler_unit: Unit,
    pub dock: DockState,
    pub theme: Theme,
}

/// The tools a workspace opens with.
#[derive(Clone, Copy, PartialEq, Eq, Structural, Debug)]
pub struct ToolSetup {
    /// The tool that is active at first.
    pub opening: ToolId,
    /// The tool that samples a colour.
    pub eyedropper: ToolId,
}

/// What the View menu's toggles make of the canvas.
#[derive(Clone, Copy, PartialEq, Eq, Structural, Debug)]
pub struct CanvasToggles {
    pub rulers: bool,
    pub guides: bool,
    pub grid: bool,
    pub pixel_grid: bool,
    pub snap: bool,
    /// Smart guides *are* the layer-alignment snap: the lines only appear
    /// because a layer edge or centre caught, so the two are one setting.
    pub snap_to_layers: bool,
    pub selection_edges: bool,
    pub layer_edges: bool,
    pub precise_cursor: bool,
}

impl CanvasToggles {
    pub open spec fn of(flags: Set<ViewFlag>) -> CanvasToggles {
        CanvasToggles {
            rulers: flags.contains(ViewFlag::Rulers),
            guides: flags.contains(ViewFlag::Guides),
            grid: flags.contains(ViewFlag::Grid),
            pixel_grid: flags.contains(ViewFlag::PixelGrid),
            snap: flags.contains(ViewFlag::Snap),
            snap_to_layers: flags.contains(ViewFlag::SmartGuides),
            selection_edges: flags.contains(ViewFlag::SelectionEdges),
            layer_edges: flags.contains(ViewFlag::LayerEdges),
            precise_cursor: flags.contains(ViewFlag::PreciseCursor),
        }
    }
}

/// What the layout engine reported for each rail's extent.
#[derive(Clone, Copy, PartialEq, Structural, Debug)]
pub struct RailMeasures {
    pub left: Option<Real32>,
    pub right: Option<Real32>,
    pub bottom: Option<Real32>,
}

impl RailMeasures {
    pub open spec fn at(self, side: DockSide) -> Option<Real32> {
        match side {
            DockSide::Left => self.left,
            DockSide::Right => self.right,
            DockSide::Bottom => self.bottom,
        }
    }

    pub open spec fn with(self, side: DockSide, measured: Real32) -> RailMeasures {
        match side {
            DockSide::Left => RailMeasures { left: Some(measured), ..self },
            DockSide::Right => RailMeasures { right: Some(measured), ..self },
            DockSide::Bottom => RailMeasures { bottom: Some(measured), ..self },
        }
    }

    fn measured(self, side: DockSide, measured: Real32) -> (r: RailMeasures)
        ensures
            r == self.with(side, measured),
    {
        match side {
            DockSide::Left => RailMeasures { left: Some(measured), ..self },
            DockSide::Right => RailMeasures { right: Some(measured), ..self },
            DockSide::Bottom => RailMeasures { bottom: Some(measured), ..self },
        }
    }
}

/// Equal component for component.
pub open spec fn same_color(a: Rgba, b: Rgba) -> bool {
    a.red.equals(b.red) && a.green.equals(b.green) && a.blue.equals(b.blue) && a.alpha.equals(
        b.alpha,
    )
}

fn colors_agree(a: Rgba, b: Rgba) -> (r: bool)
    ensures
        r == same_color(a, b),
{
    a.red.is_equal(b.red) && a.green.is_equal(b.green) && a.blue.is_equal(b.blue)
        && a.alpha.is_equal(b.alpha)
}

/// A centre with every coordinate that is not finite put at the origin.
pub open spec fn sane_center(p: Point) -> Point {
    Point {
        x: if p.x.finite() {
            p.x
        } else {
            Real32 { bits: 0 }
        },
        y: if p.y.finite() {
            p.y
        } else {
            Real32 { bits: 0 }
        },
    }
}

/// What a [`Workspace`] stands for.
pub struct WorkspaceModel<C, A> {
    pub dock: DockModel,
    pub theme: Theme,
    pub view_flags: Set<ViewFlag>,
    pub clipboard: ClipboardState,
    pub ruler_unit: Unit,
    pub zoom_limits: ZoomLimits,
    pub camera: Camera,
    pub toggles: CanvasToggles,
    /// The zoom the status bar shows and the centre the Navigator shows.
    pub zoom: Real32,
    pub view_center: Point,
    /// The zoom and centre the last read-back copied off the camera, so a
    /// panel's write to either is distinguishable from the camera's own move.
    pub readback: (Real32, Point),
    pub viewport: (Real32, Real32),
    /// The document point under the pointer.
    pub pointer: Option<Point>,
    pub tools: ToolSetup,
    pub active_tool: ToolId,
    /// A tool group's fly-out is open.
    pub flyout_open: bool,
    pub hidden_components: Set<u8>,
    pub selected_channel: ChannelKind,
    pub foreground: Rgba,
    pub background: Rgba,
    pub well: ColorWell,
    pub eyedropper_armed: bool,
    pub collapsed_groups: Set<LayerId>,
    /// The layers selected in the Layers panel, in the order they were chosen.
    pub selection: Seq<LayerId>,
    pub grid_suppressed: bool,
    pub rails: RailMeasures,
    pub outbox: Seq<Intent<C, A>>,
}

impl<C, A> WorkspaceModel<C, A> {
    pub open spec fn valid(self) -> bool {
        self.dock.valid() && self.zoom_limits.valid()
    }

    /// A fresh workspace.
    pub open spec fn fresh(zoom_limits: ZoomLimits, tools: ToolSetup) -> WorkspaceModel<C, A> {
        let one = Real32 { bits: 0x3f80_0000 };
        let origin = Point { x: Real32 { bits: 0 }, y: Real32 { bits: 0 } };
        WorkspaceModel {
            dock: DockModel::from_layout(LayoutId::Essentials),
            theme: Theme::Dark,
            view_flags: intent::fresh_flags(),
            clipboard: ClipboardState::nothing(),
            ruler_unit: Unit::Pixels,
            zoom_limits,
            camera: Camera {
                zoom: one,
                center: origin,
                rotation: Real32 { bits: 0 },
                flip_x: false,
                flip_y: false,
            },
            toggles: CanvasToggles::of(intent::fresh_flags()),
            zoom: one,
            view_center: origin,
            readback: (one, origin),
            viewport: (Real32 { bits: 0x44a0_0000 }, Real32 { bits: 0x4434_0000 }),
            pointer: None,
            tools,
            active_tool: tools.opening,
            flyout_open: false,
            hidden_components: Set::empty(),
            selected_channel: ChannelKind::Composite,
            foreground: Rgba::black_spec(),
            background: Rgba::white_spec(),
            well: ColorWell::Foreground,
            eyedropper_armed: false,
            collapsed_groups: Set::empty(),
            selection: Seq::empty(),
            grid_suppressed: false,
            rails: RailMeasures { left: None, right: None, bottom: None },
            outbox: Seq::empty(),
        }
    }

    /// The numbers the chrome reads, copied off the camera.
    pub open spec fn read_back(self) -> WorkspaceModel<C, A> {
        WorkspaceModel {
            zoom: self.camera.zoom,
            view_center: self.camera.center,
            readback: (self.camera.zoom, self.camera.center),
            ..self
        }
    }

    /// A group row expanded or collapsed.
    pub open spec fn with_expanded(self, layer: LayerId, expanded: bool) -> WorkspaceModel<C, A> {
        WorkspaceModel {
            collapsed_groups: if expanded {
                self.collapsed_groups.remove(layer)
            } else {
                self.collapsed_groups.insert(layer)
            },
            ..self
        }
    }

    /// A colour component shown or hidden.
    pub open spec fn with_component(self, index: u8, visible: bool) -> WorkspaceModel<C, A> {
        WorkspaceModel {
            hidden_components: if visible {
                self.hidden_components.remove(index)
            } else {
                self.hidden_components.insert(index)
            },
            ..self
        }
    }

    /// A channel isolated among the rows the Channels panel lists: of the
    /// components it names, one alone is shown. The composite shows them all,
    /// and a mask is no component and hides none.
    pub open spec fn isolated(
        self,
        channel: ChannelKind,
        rows: Seq<ChannelRow>,
    ) -> WorkspaceModel<C, A> {
        WorkspaceModel {
            hidden_components: match channel {
                ChannelKind::Component(index) => self.hidden_components.union(
                    keys::named_components(rows),
                ).remove(index),
                ChannelKind::Composite => self.hidden_components.difference(
                    keys::named_components(rows),
                ),
                ChannelKind::Mask(_) => self.hidden_components,
            },
            ..self
        }
    }

    /// A tool made active. Leaving the eyedropper puts the sampler away, and
    /// choosing a tool answers whatever the fly-out was asking.
    pub open spec fn with_tool(self, tool: ToolId) -> WorkspaceModel<C, A> {
        WorkspaceModel {
            active_tool: tool,
            flyout_open: false,
            eyedropper_armed: self.eyedropper_armed && tool == self.tools.eyedropper,
            ..self
        }
    }

    /// The effect an intent has on the workspace's own state. Document edits
    /// and the application's actions have none. The composite and a mask
    /// channel need the document, which is not here.
    pub open spec fn absorbed(self, intent: Intent<C, A>) -> WorkspaceModel<C, A> {
        match intent {
            Intent::SetPanelOpen { panel, open } => WorkspaceModel {
                dock: self.dock.with_open(panel, open),
                ..self
            },
            Intent::DockPanel { panel, side } => WorkspaceModel {
                dock: self.dock.docked(panel, side),
                ..self
            },
            Intent::ReorderPanel { panel, to } => WorkspaceModel {
                dock: self.dock.relocated(panel, to as int),
                ..self
            },
            Intent::ApplyLayout(layout) => WorkspaceModel {
                dock: self.dock.with_layout(layout),
                ..self
            },
            Intent::SetTheme(theme) => WorkspaceModel { theme, ..self },
            Intent::SetViewFlag { flag, on } => WorkspaceModel {
                view_flags: intent::flagged(self.view_flags, flag, on),
                ..self
            },
            Intent::SelectTool(tool) => self.with_tool(tool),
            Intent::SetZoom(zoom) => (WorkspaceModel {
                camera: Camera { zoom: self.zoom_limits.held(zoom), ..self.camera },
                ..self
            }).read_back(),
            Intent::SetViewCenter(center) => (WorkspaceModel {
                camera: Camera { center: sane_center(center), ..self.camera },
                ..self
            }).read_back(),
            Intent::MoveCamera(camera) => (WorkspaceModel { camera, ..self }).read_back(),
            Intent::ResetViewRotation => (WorkspaceModel {
                camera: self.camera.upright(),
                ..self
            }).read_back(),
            Intent::SetRulerUnit(unit) => WorkspaceModel { ruler_unit: unit, ..self },
            Intent::SetChannelVisible { channel, visible } => match channel {
                ChannelKind::Component(index) => self.with_component(index, visible),
                _ => self,
            },
            Intent::SelectChannel(channel) => WorkspaceModel { selected_channel: channel, ..self },
            Intent::SetForeground(rgba) => WorkspaceModel { foreground: rgba, ..self },
            Intent::SetBackground(rgba) => WorkspaceModel { background: rgba, ..self },
            Intent::SetGroupExpanded { layer, expanded } => self.with_expanded(layer, expanded),
            _ => self,
        }
    }

    /// Whether an intent would change something.
    pub open spec fn changes(self, intent: Intent<C, A>) -> bool {
        match intent {
            Intent::SetPanelOpen { panel, open } => self.dock.placement(panel).open != open,
            Intent::DockPanel { panel, side } => !(self.dock.placement(panel).open
                && self.dock.placement(panel).side == side),
            Intent::ReorderPanel { panel, to } => self.dock.can_relocate(panel, to as int),
            Intent::ApplyLayout(layout) => !self.dock.same(self.dock.with_layout(layout)),
            Intent::SetTheme(theme) => self.theme != theme,
            Intent::SetViewFlag { flag, on } => self.view_flags.contains(flag) != on,
            Intent::SelectTool(tool) => self.active_tool != tool || self.flyout_open,
            Intent::SetZoom(zoom) => !(self.zoom.equals(self.zoom_limits.held(zoom))
                && self.camera.zoom.equals(self.zoom_limits.held(zoom))),
            Intent::SetViewCenter(center) => !self.view_center.same(sane_center(center)),
            Intent::MoveCamera(camera) => !camera.same(self.camera),
            Intent::ResetViewRotation => !self.camera.upright().same(self.camera),
            Intent::SetRulerUnit(unit) => self.ruler_unit != unit,
            Intent::SetChannelVisible { channel, visible } => match channel {
                ChannelKind::Component(index) => self.hidden_components.contains(index) == visible,
                _ => false,
            },
            Intent::SelectChannel(channel) => self.selected_channel != channel,
            Intent::SetForeground(rgba) => !same_color(self.foreground, rgba),
            Intent::SetBackground(rgba) => !same_color(self.background, rgba),
            Intent::SetGroupExpanded { layer, expanded } => self.collapsed_groups.contains(layer)
                == expanded,
            _ => false,
        }
    }

    /// A tool picked by its letter: the fly-out closes, and a tool that was not
    /// active is made so and announced.
    pub open spec fn picked(self, tool: ToolId) -> WorkspaceModel<C, A> {
        WorkspaceModel {
            flyout_open: false,
            active_tool: tool,
            outbox: if tool == self.active_tool {
                self.outbox
            } else {
                self.outbox.push(Intent::SelectTool(tool))
            },
            ..self
        }
    }

    /// What one key press does. `menu` is what the menu item bound to the chord
    /// resolves to, where there is one.
    pub open spec fn pressed(
        self,
        key: Key,
        modifiers: Modifiers,
        menu: Option<Resolution<C, A>>,
        rows: Seq<ChannelRow>,
        registry: Seq<ToolLetter>,
    ) -> WorkspaceModel<C, A> {
        match menu {
            Some(Resolution::Enabled(intent)) => WorkspaceModel {
                outbox: self.outbox.push(intent),
                ..self
            },
            Some(Resolution::Disabled(_)) => self,
            None => match keys::channel_of(key, modifiers, rows) {
                Some(channel) => WorkspaceModel {
                    outbox: self.outbox.push(Intent::SelectChannel(channel)),
                    ..self.isolated(channel, rows)
                },
                None => match keys::tool_of(key, modifiers, registry, Some(self.active_tool)) {
                    Some(tool) => self.picked(tool),
                    None => self,
                },
            },
        }
    }

    /// The View menu's toggles put onto the canvas, and a zoom or centre that a
    /// panel wrote since the last read-back put onto the camera.
    pub open spec fn synced(self) -> WorkspaceModel<C, A> {
        WorkspaceModel {
            camera: Camera {
                zoom: if self.zoom.equals(self.readback.0) {
                    self.camera.zoom
                } else {
                    self.zoom
                },
                center: if self.view_center.same(self.readback.1) {
                    self.camera.center
                } else {
                    self.view_center
                },
                rotation: self.camera.rotation,
                flip_x: self.view_flags.contains(ViewFlag::FlipHorizontal),
                flip_y: self.view_flags.contains(ViewFlag::FlipVertical),
            },
            toggles: CanvasToggles::of(self.view_flags),
            ..self
        }
    }
}

/// The document edits among some intents, in order.
pub open spec fn commands<C, A>(intents: Seq<Intent<C, A>>) -> Seq<C>
    decreases intents.len(),
{
    if intents.len() == 0 {
        Seq::empty()
    } else {
        let before = commands(intents.drop_last());
        match intents.last() {
            Intent::Document(c) => before.push(c),
            _ => before,
        }
    }
}

/// The colour or camera an intent carries is made of numbers.
pub open spec fn carries_numbers<C, A>(intent: Intent<C, A>) -> bool {
    match intent {
        Intent::SetForeground(rgba) | Intent::SetBackground(rgba) => same_color(rgba, rgba),
        Intent::MoveCamera(camera) => camera.same(camera),
        _ => true,
    }
}

/// Absorbing twice is absorbing once, and the second time reports no change:
/// every intent the workspace performs is an absolute set.
pub proof fn every_intent_is_idempotent<C, A>(m: WorkspaceModel<C, A>, intent: Intent<C, A>)
    requires
        m.valid(),
        carries_numbers(intent),
        intent is ResetViewRotation ==> m.camera.same(m.camera),
    ensures
        m.absorbed(intent).absorbed(intent) == m.absorbed(intent),
        !m.absorbed(intent).changes(intent),
{
    let once = m.absorbed(intent);
    let twice = once.absorbed(intent);
    match intent {
        Intent::SetPanelOpen { panel, open } => {
            dock_laws::opening_twice_opens_once(m.dock, panel, open);
        },
        Intent::DockPanel { panel, side } => {
            dock_laws::docking_moves_a_panel_across(m.dock, panel, side);
            dock_laws::docking_there_is_settled(m.dock, panel, side);
        },
        Intent::ReorderPanel { panel, to } => {
            dock_laws::relocating_twice_moves_once(m.dock, panel, to as int);
        },
        Intent::SetViewFlag { flag, on } => {
            intent::flags_are_independent(m.view_flags, flag, on, flag);
        },
        _ => {},
    }
    assert(twice.view_flags == once.view_flags);
    assert(twice.hidden_components == once.hidden_components);
    assert(twice.collapsed_groups == once.collapsed_groups);
    assert(twice == once);
}

/// An intent that carries no number and would change nothing changes nothing,
/// but that choosing the tool that is active puts away a sampler armed without
/// its tool.
pub proof fn an_unchanging_intent_leaves_the_workspace<C, A>(
    m: WorkspaceModel<C, A>,
    intent: Intent<C, A>,
)
    requires
        m.valid(),
        !m.changes(intent),
        !(intent is SetZoom || intent is SetViewCenter || intent is MoveCamera
            || intent is ResetViewRotation || intent is SetForeground || intent is SetBackground),
        intent is SelectTool ==> !m.eyedropper_armed || m.active_tool == m.tools.eyedropper,
    ensures
        m.absorbed(intent) == m,
{
    let once = m.absorbed(intent);
    assert(once.view_flags == m.view_flags);
    assert(once.hidden_components == m.hidden_components);
    assert(once.collapsed_groups == m.collapsed_groups);
    assert(once == m);
}

/// A view toggle that was flipped is on the canvas as soon as the canvas is
/// next drawn.
pub proof fn every_view_toggle_reaches_the_canvas<C, A>(
    m: WorkspaceModel<C, A>,
    flag: ViewFlag,
    on: bool,
)
    ensures
        ({
            let drawn = m.absorbed(Intent::SetViewFlag { flag, on }).synced();
            &&& flag == ViewFlag::Rulers ==> drawn.toggles.rulers == on
            &&& flag == ViewFlag::Guides ==> drawn.toggles.guides == on
            &&& flag == ViewFlag::Grid ==> drawn.toggles.grid == on
            &&& flag == ViewFlag::PixelGrid ==> drawn.toggles.pixel_grid == on
            &&& flag == ViewFlag::Snap ==> drawn.toggles.snap == on
            &&& flag == ViewFlag::SmartGuides ==> drawn.toggles.snap_to_layers == on
            &&& flag == ViewFlag::SelectionEdges ==> drawn.toggles.selection_edges == on
            &&& flag == ViewFlag::LayerEdges ==> drawn.toggles.layer_edges == on
            &&& flag == ViewFlag::PreciseCursor ==> drawn.toggles.precise_cursor == on
            &&& flag == ViewFlag::FlipHorizontal ==> drawn.camera.flip_x == on
            &&& flag == ViewFlag::FlipVertical ==> drawn.camera.flip_y == on
        }),
{
    intent::flags_are_independent(m.view_flags, flag, on, flag);
}

/// The zoom readout and the camera are one number: what a zoom or a pan leaves
/// in the readouts is where the camera is, and the next frame leaves the camera
/// there.
pub proof fn the_readouts_follow_the_camera<C, A>(
    m: WorkspaceModel<C, A>,
    zoom: Real32,
    center: Point,
)
    requires
        m.valid(),
        !m.camera.center.x.nan(),
        !m.camera.center.y.nan(),
    ensures
        ({
            let zoomed = m.absorbed(Intent::SetZoom(zoom));
            &&& zoomed.zoom == zoomed.camera.zoom
            &&& zoomed.zoom == m.zoom_limits.held(zoom)
            &&& zoomed.view_center == zoomed.camera.center
            &&& zoomed.view_center == m.camera.center
            &&& zoomed.synced().camera.zoom == zoomed.camera.zoom
            &&& zoomed.synced().camera.center == zoomed.camera.center
        }),
        ({
            let panned = m.absorbed(Intent::SetViewCenter(center));
            &&& panned.view_center == panned.camera.center
            &&& panned.view_center == sane_center(center)
            &&& panned.zoom == panned.camera.zoom
            &&& panned.zoom == m.camera.zoom
            &&& panned.synced().camera.center == panned.camera.center
        }),
        forall|camera: Camera|
            ({
                let moved = #[trigger] m.absorbed(Intent::MoveCamera(camera));
                &&& moved.camera == camera
                &&& moved.zoom == camera.zoom
                &&& moved.view_center == camera.center
            }),
        ({
            let upright = m.absorbed(Intent::ResetViewRotation);
            &&& upright.camera == m.camera.upright()
            &&& upright.zoom == m.camera.zoom
            &&& upright.view_center == m.camera.center
        }),
{
}

/// The chord beside a channel shows it alone: of the components the rows name,
/// every other is hidden, and the channel becomes the editing target.
pub proof fn a_channel_chord_shows_its_channel_alone<C, A>(
    m: WorkspaceModel<C, A>,
    key: Key,
    modifiers: Modifiers,
    rows: Seq<ChannelRow>,
    registry: Seq<ToolLetter>,
    index: u8,
)
    requires
        keys::channel_of(key, modifiers, rows) == Some(ChannelKind::Component(index)),
    ensures
        ({
            let after = m.pressed(key, modifiers, None, rows, registry);
            &&& !after.hidden_components.contains(index)
            &&& forall|other: u8|
                other != index && keys::named_components(rows).contains(other)
                    ==> #[trigger] after.hidden_components.contains(other)
            &&& after.outbox == m.outbox.push(
                Intent::SelectChannel(ChannelKind::Component(index)),
            )
        }),
{
}

/// The whole workspace: every panel's state between frames.
///
/// Held by the application across frames; [`Workspace::drain_intents`] takes
/// what a frame queued.
pub struct Workspace<C, A> {
    /// Where the panels are and which are open.
    dock: DockState,
    theme: Theme,
    view_flags: ViewFlags,
    clipboard: ClipboardState,
    ruler_unit: Unit,
    zoom_limits: ZoomLimits,
    camera: Camera,
    toggles: CanvasToggles,
    zoom: Real32,
    view_center: Point,
    readback: (Real32, Point),
    viewport: (Real32, Real32),
    pointer: Option<Point>,
    tools: ToolSetup,
    active_tool: ToolId,
    flyout_open: bool,
    hidden_components: Vec<u8>,
    selected_channel: ChannelKind,
    foreground: Rgba,
    background: Rgba,
    well: ColorWell,
    eyedropper_armed: bool,
    collapsed_groups: Vec<LayerId>,
    selection: Vec<LayerId>,
    grid_suppressed: bool,
    rails: RailMeasures,
    outbox: Vec<Intent<C, A>>,
}

/// The hidden components after every component that some rows name is shown or
/// hidden.
pub open spec fn hidden_after(hidden: Set<u8>, rows: Seq<ChannelRow>, visible: bool) -> Set<u8> {
    if visible {
        hidden.difference(keys::named_components(rows))
    } else {
        hidden.union(keys::named_components(rows))
    }
}

/// What a list holds.
pub open spec fn members<T>(list: Seq<T>) -> Set<T> {
    Set::new(|x: T| list.contains(x))
}

impl<C, A> View for Workspace<C, A> {
    type V = WorkspaceModel<C, A>;

    closed spec fn view(&self) -> WorkspaceModel<C, A> {
        WorkspaceModel {
            dock: self.dock@,
            theme: self.theme,
            view_flags: self.view_flags@,
            clipboard: self.clipboard,
            ruler_unit: self.ruler_unit,
            zoom_limits: self.zoom_limits,
            camera: self.camera,
            toggles: self.toggles,
            zoom: self.zoom,
            view_center: self.view_center,
            readback: self.readback,
            viewport: self.viewport,
            pointer: self.pointer,
            tools: self.tools,
            active_tool: self.active_tool,
            flyout_open: self.flyout_open,
            hidden_components: members(self.hidden_components@),
            selected_channel: self.selected_channel,
            foreground: self.foreground,
            background: self.background,
            well: self.well,
            eyedropper_armed: self.eyedropper_armed,
            collapsed_groups: members(self.collapsed_groups@),
            selection: self.selection@,
            grid_suppressed: self.grid_suppressed,
            rails: self.rails,
            outbox: self.outbox@,
        }
    }
}

fn holds_byte(list: &Vec<u8>, wanted: u8) -> (r: bool)
    ensures
        r == members(list@).contains(wanted),
{
    let mut i: usize = 0;
    while i < list.len()
        invariant
            i <= list@.len(),
            forall|k: int| 0 <= k < i ==> list@[k] != wanted,
        decreases list@.len() - i,
    {
        if list[i] == wanted {
            return true;
        }
        i = i + 1;
    }
    false
}

fn without_byte(list: &Vec<u8>, gone: u8) -> (r: Vec<u8>)
    ensures
        members(r@) == members(list@).remove(gone),
{
    let mut out: Vec<u8> = Vec::new();
    let mut i: usize = 0;
    while i < list.len()
        invariant
            i <= list@.len(),
            forall|x: u8| #[trigger]
                out@.contains(x) <==> list@.take(i as int).contains(x) && x != gone,
        decreases list@.len() - i,
    {
        let ghost before = out@;
        let ghost x = list@[i as int];
        assert(list@.take(i + 1) == list@.take(i as int).push(x));
        if list[i] != gone {
            out.push(list[i]);
            assert forall|y: u8| #[trigger] out@.contains(y) <==> before.contains(y) || y == x by {
                lemma_push_contains(before, x, y);
            }
        }
        assert forall|y: u8| #[trigger]
            out@.contains(y) <==> list@.take(i + 1).contains(y) && y != gone by {
            lemma_push_contains(list@.take(i as int), x, y);
        }
        i = i + 1;
    }
    assert(list@.take(i as int) == list@);
    assert(members(out@) == members(list@).remove(gone));
    out
}

proof fn lemma_push_contains<T>(s: Seq<T>, x: T, y: T)
    ensures
        s.push(x).contains(y) <==> s.contains(y) || y == x,
{
    if s.contains(y) {
        let k = choose|k: int| 0 <= k < s.len() && s[k] == y;
        assert(s.push(x)[k] == y);
    }
    if y == x {
        assert(s.push(x)[s.len() as int] == y);
    }
    if s.push(x).contains(y) && y != x {
        let k = choose|k: int| 0 <= k < s.push(x).len() && s.push(x)[k] == y;
        assert(s[k] == y);
    }
}

fn holds_layer(list: &Vec<LayerId>, wanted: LayerId) -> (r: bool)
    ensures
        r == members(list@).contains(wanted),
{
    let mut i: usize = 0;
    while i < list.len()
        invariant
            i <= list@.len(),
            forall|k: int| 0 <= k < i ==> list@[k] != wanted,
        decreases list@.len() - i,
    {
        if list[i] == wanted {
            return true;
        }
        i = i + 1;
    }
    false
}

/// The layers of a list that are in another.
fn kept_layers(list: &Vec<LayerId>, present: &Vec<LayerId>) -> (r: Vec<LayerId>)
    ensures
        r@ == list@.filter(|x: LayerId| present@.contains(x)),
{
    let ghost here = |x: LayerId| present@.contains(x);
    let mut out: Vec<LayerId> = Vec::new();
    let mut i: usize = 0;
    while i < list.len()
        invariant
            i <= list@.len(),
            here == (|x: LayerId| present@.contains(x)),
            out@ == list@.take(i as int).filter(here),
        decreases list@.len() - i,
    {
        proof {
            reveal(Seq::filter);
            assert(list@.take(i + 1).drop_last() == list@.take(i as int));
        }
        if holds_layer(present, list[i]) {
            out.push(list[i]);
        }
        assert(out@ == list@.take(i + 1).filter(here));
        i = i + 1;
    }
    assert(list@.take(i as int) == list@);
    out
}

proof fn lemma_kept_members(list: Seq<LayerId>, present: Seq<LayerId>)
    ensures
        members(list.filter(|x: LayerId| present.contains(x))) == members(list).intersect(
            members(present),
        ),
{
    let here = |x: LayerId| present.contains(x);
    let kept = list.filter(here);
    assert forall|x: LayerId|
        members(kept).contains(x) == members(list).intersect(members(present)).contains(x) by {
        if kept.contains(x) {
            list.lemma_filter_contains_rev(here, x);
            let k = choose|k: int| 0 <= k < kept.len() && kept[k] == x;
            list.lemma_filter_pred(here, k);
        }
        if list.contains(x) && present.contains(x) {
            let k = choose|k: int| 0 <= k < list.len() && list[k] == x;
            list.lemma_filter_contains(here, k);
        }
    }
    assert(members(kept) == members(list).intersect(members(present)));
}

fn without_layer(list: &Vec<LayerId>, gone: LayerId) -> (r: Vec<LayerId>)
    ensures
        members(r@) == members(list@).remove(gone),
{
    let mut out: Vec<LayerId> = Vec::new();
    let mut i: usize = 0;
    while i < list.len()
        invariant
            i <= list@.len(),
            forall|x: LayerId| #[trigger]
                out@.contains(x) <==> list@.take(i as int).contains(x) && x != gone,
        decreases list@.len() - i,
    {
        let ghost before = out@;
        let ghost x = list@[i as int];
        assert(list@.take(i + 1) == list@.take(i as int).push(x));
        if list[i] != gone {
            out.push(list[i]);
            assert forall|y: LayerId| #[trigger]
                out@.contains(y) <==> before.contains(y) || y == x by {
                lemma_push_contains(before, x, y);
            }
        }
        assert forall|y: LayerId| #[trigger]
            out@.contains(y) <==> list@.take(i + 1).contains(y) && y != gone by {
            lemma_push_contains(list@.take(i as int), x, y);
        }
        i = i + 1;
    }
    assert(list@.take(i as int) == list@);
    assert(members(out@) == members(list@).remove(gone));
    out
}

impl<C, A> Workspace<C, A> {
    pub fn new(zoom_limits: ZoomLimits, tools: ToolSetup) -> (r: Self)
        requires
            zoom_limits.valid(),
        ensures
            r@ == WorkspaceModel::<C, A>::fresh(zoom_limits, tools),
            r@.valid(),
    {
        let one = Real32 { bits: 0x3f80_0000 };
        let origin = Point { x: Real32 { bits: 0 }, y: Real32 { bits: 0 } };
        let view_flags = ViewFlags::defaults();
        let r = Workspace {
            dock: DockState::from_layout(LayoutId::Essentials),
            theme: Theme::Dark,
            view_flags,
            clipboard: ClipboardState::empty(),
            ruler_unit: Unit::Pixels,
            zoom_limits,
            camera: Camera {
                zoom: one,
                center: origin,
                rotation: Real32 { bits: 0 },
                flip_x: false,
                flip_y: false,
            },
            toggles: toggles_of(view_flags),
            zoom: one,
            view_center: origin,
            readback: (one, origin),
            viewport: (Real32 { bits: 0x44a0_0000 }, Real32 { bits: 0x4434_0000 }),
            pointer: None,
            tools,
            active_tool: tools.opening,
            flyout_open: false,
            hidden_components: Vec::new(),
            selected_channel: ChannelKind::Composite,
            foreground: Rgba::black(),
            background: Rgba::white(),
            well: ColorWell::Foreground,
            eyedropper_armed: false,
            collapsed_groups: Vec::new(),
            selection: Vec::new(),
            grid_suppressed: false,
            rails: RailMeasures { left: None, right: None, bottom: None },
            outbox: Vec::new(),
        };
        assert(r@.hidden_components == Set::<u8>::empty());
        assert(r@.collapsed_groups == Set::<LayerId>::empty());
        r
    }

    /// Where the panels are and which are open.
    pub fn dock(&self) -> (r: &DockState)
        ensures
            r@ == self@.dock,
    {
        &self.dock
    }

    /// The dock, for a control that rearranges it as it is drawn.
    pub fn dock_mut(&mut self) -> (r: &mut DockState)
        ensures
            r@ == old(self)@.dock,
            final(self)@ == (WorkspaceModel { dock: final(r)@, ..old(self)@ }),
    {
        &mut self.dock
    }

    pub fn theme(&self) -> (r: Theme)
        ensures
            r == self@.theme,
    {
        self.theme
    }

    pub fn view_flags(&self) -> (r: ViewFlags)
        ensures
            r@ == self@.view_flags,
    {
        self.view_flags
    }

    pub fn clipboard(&self) -> (r: ClipboardState)
        ensures
            r == self@.clipboard,
    {
        self.clipboard
    }

    /// The application owns the clipboard itself and writes this.
    pub fn set_clipboard(&mut self, clipboard: ClipboardState)
        ensures
            final(self)@ == (WorkspaceModel { clipboard, ..old(self)@ }),
    {
        self.clipboard = clipboard;
    }

    pub fn ruler_unit(&self) -> (r: Unit)
        ensures
            r == self@.ruler_unit,
    {
        self.ruler_unit
    }

    /// Where the canvas looks.
    pub fn camera(&self) -> (r: Camera)
        ensures
            r == self@.camera,
    {
        self.camera
    }

    pub fn toggles(&self) -> (r: CanvasToggles)
        ensures
            r == self@.toggles,
    {
        self.toggles
    }

    /// The zoom the status bar shows and the centre the Navigator shows.
    pub fn readouts(&self) -> (r: (Real32, Point))
        ensures
            r == (self@.zoom, self@.view_center),
    {
        (self.zoom, self.view_center)
    }

    /// The room the canvas has, in points.
    pub fn viewport(&self) -> (r: (Real32, Real32))
        ensures
            r == self@.viewport,
    {
        self.viewport
    }

    /// Whether a colour component is shown.
    pub fn component_visible(&self, index: u8) -> (r: bool)
        ensures
            r == !self@.hidden_components.contains(index),
    {
        !holds_byte(&self.hidden_components, index)
    }

    pub fn selected_channel(&self) -> (r: ChannelKind)
        ensures
            r == self@.selected_channel,
    {
        self.selected_channel
    }

    /// The foreground and the background colour.
    pub fn colors(&self) -> (r: (Rgba, Rgba))
        ensures
            r == (self@.foreground, self@.background),
    {
        (self.foreground, self.background)
    }

    /// Whether a group's row is expanded.
    pub fn is_expanded(&self, layer: LayerId) -> (r: bool)
        ensures
            r == !self@.collapsed_groups.contains(layer),
    {
        !holds_layer(&self.collapsed_groups, layer)
    }

    /// The grid is switched on but too dense at this zoom to be legible, so it
    /// was not drawn.
    pub fn grid_is_suppressed(&self) -> (r: bool)
        ensures
            r == self@.grid_suppressed,
    {
        self.grid_suppressed
    }

    /// The extent the layout engine reported for one rail last frame.
    pub fn rail_measure(&self, side: DockSide) -> (r: Option<Real32>)
        ensures
            r == self@.rails.at(side),
    {
        match side {
            DockSide::Left => self.rails.left,
            DockSide::Right => self.rails.right,
            DockSide::Bottom => self.rails.bottom,
        }
    }

    pub fn set_rail_measure(&mut self, side: DockSide, measured: Real32)
        ensures
            final(self)@ == (WorkspaceModel {
                rails: old(self)@.rails.with(side, measured),
                ..old(self)@
            }),
    {
        self.rails = self.rails.measured(side, measured);
    }

    /// Queue an intent.
    pub fn emit(&mut self, intent: Intent<C, A>)
        ensures
            final(self)@ == (WorkspaceModel {
                outbox: old(self)@.outbox.push(intent),
                ..old(self)@
            }),
    {
        self.outbox.push(intent);
    }

    /// Take everything queued this frame.
    pub fn drain_intents(&mut self) -> (r: Vec<Intent<C, A>>)
        ensures
            r@ == old(self)@.outbox,
            final(self)@ == (WorkspaceModel { outbox: Seq::empty(), ..old(self)@ }),
    {
        let mut out: Vec<Intent<C, A>> = Vec::new();
        std::mem::swap(&mut out, &mut self.outbox);
        out
    }

    /// Take only the document edits queued this frame, dropping the rest.
    ///
    /// A convenience for an application that performs commands and nothing
    /// else; anything that also handles menus wants
    /// [`Workspace::drain_intents`].
    pub fn drain_commands(&mut self) -> (r: Vec<C>)
        ensures
            r@ == commands(old(self)@.outbox),
            final(self)@ == (WorkspaceModel { outbox: Seq::empty(), ..old(self)@ }),
    {
        let mut all = self.drain_intents();
        let ghost queued = all@;
        let mut backwards: Vec<C> = Vec::new();
        while all.len() > 0
            invariant
                all@ == queued.take(all@.len() as int),
                all@.len() <= queued.len(),
                commands(queued) == commands(all@) + backwards@.reverse(),
            decreases all@.len(),
        {
            let ghost before = all@;
            let ghost tail = backwards@;
            match all.pop() {
                Some(Intent::Document(c)) => {
                    backwards.push(c);
                    assert(commands(before) == commands(before.drop_last()).push(c));
                    assert(commands(before.drop_last()).push(c) + tail.reverse() == commands(
                        before.drop_last(),
                    ) + backwards@.reverse());
                },
                _ => {},
            }
            assert(all@ == before.drop_last());
            assert(all@ == queued.take(all@.len() as int));
        }
        let mut out: Vec<C> = Vec::new();
        let ghost reversed = backwards@;
        assert(commands(queued) == reversed.reverse());
        while backwards.len() > 0
            invariant
                backwards@ == reversed.take(backwards@.len() as int),
                backwards@.len() <= reversed.len(),
                out@ + backwards@.reverse() == reversed.reverse(),
            decreases backwards@.len(),
        {
            let ghost before = backwards@;
            let ghost head = out@;
            match backwards.pop() {
                Some(c) => {
                    out.push(c);
                    assert(before.reverse() == seq![c] + backwards@.reverse());
                    assert(head + (seq![c] + backwards@.reverse()) == out@
                        + backwards@.reverse());
                },
                None => {},
            }
            assert(backwards@ == reversed.take(backwards@.len() as int));
        }
        assert(out@ == reversed.reverse());
        out
    }

    fn read_back_camera(&mut self)
        ensures
            final(self)@ == old(self)@.read_back(),
    {
        self.zoom = self.camera.zoom;
        self.view_center = self.camera.center;
        self.readback = (self.zoom, self.view_center);
    }

    /// Apply the effects an intent has on the *workspace's own* state: panel
    /// visibility, the theme, view flags, the view.
    ///
    /// Document edits are not this function's business and are ignored. Returns
    /// `true` when something in the workspace changed.
    pub fn absorb(&mut self, intent: &Intent<C, A>) -> (r: bool)
        requires
            old(self)@.valid(),
        ensures
            final(self)@ == old(self)@.absorbed(*intent),
            final(self)@.valid(),
            r == old(self)@.changes(*intent),
    {
        match intent {
            Intent::SetPanelOpen { panel, open } => self.set_panel_open(*panel, *open),
            Intent::DockPanel { panel, side } => self.dock_panel(*panel, *side),
            Intent::ReorderPanel { panel, to } => self.reorder_panel(*panel, *to),
            Intent::ApplyLayout(layout) => self.apply_layout(*layout),
            Intent::SetTheme(theme) => self.set_theme(*theme),
            Intent::SetViewFlag { flag, on } => self.set_view_flag(*flag, *on),
            Intent::SelectTool(tool) => self.select_tool(*tool),
            Intent::SetZoom(zoom) => self.set_zoom(*zoom),
            Intent::SetViewCenter(center) => self.set_view_center(*center),
            Intent::MoveCamera(camera) => self.move_camera(*camera),
            Intent::ResetViewRotation => self.reset_view_rotation(),
            Intent::SetRulerUnit(unit) => self.set_ruler_unit(*unit),
            Intent::SetChannelVisible { channel, visible } => {
                match channel {
                    ChannelKind::Component(index) => self.set_component_visible(*index, *visible),
                    _ => false,
                }
            },
            Intent::SelectChannel(channel) => self.select_channel(*channel),
            Intent::SetForeground(rgba) => self.set_foreground(*rgba),
            Intent::SetBackground(rgba) => self.set_background(*rgba),
            Intent::SetGroupExpanded { layer, expanded } => self.set_expanded(*layer, *expanded),
            _ => false,
        }
    }

    fn set_theme(&mut self, theme: Theme) -> (r: bool)
        ensures
            final(self)@ == (WorkspaceModel { theme, ..old(self)@ }),
            r == (old(self)@.theme != theme),
    {
        let changed = self.theme != theme;
        self.theme = theme;
        changed
    }

    fn set_ruler_unit(&mut self, ruler_unit: Unit) -> (r: bool)
        ensures
            final(self)@ == (WorkspaceModel { ruler_unit, ..old(self)@ }),
            r == (old(self)@.ruler_unit != ruler_unit),
    {
        let changed = self.ruler_unit != ruler_unit;
        self.ruler_unit = ruler_unit;
        changed
    }

    fn select_channel(&mut self, selected_channel: ChannelKind) -> (r: bool)
        ensures
            final(self)@ == (WorkspaceModel { selected_channel, ..old(self)@ }),
            r == (old(self)@.selected_channel != selected_channel),
    {
        let changed = self.selected_channel != selected_channel;
        self.selected_channel = selected_channel;
        changed
    }

    fn set_foreground(&mut self, foreground: Rgba) -> (r: bool)
        ensures
            final(self)@ == (WorkspaceModel { foreground, ..old(self)@ }),
            r == !same_color(old(self)@.foreground, foreground),
    {
        let changed = !colors_agree(self.foreground, foreground);
        self.foreground = foreground;
        changed
    }

    fn set_background(&mut self, background: Rgba) -> (r: bool)
        ensures
            final(self)@ == (WorkspaceModel { background, ..old(self)@ }),
            r == !same_color(old(self)@.background, background),
    {
        let changed = !colors_agree(self.background, background);
        self.background = background;
        changed
    }

    fn set_panel_open(&mut self, panel: PanelId, open: bool) -> (r: bool)
        requires
            old(self)@.valid(),
        ensures
            final(self)@ == (WorkspaceModel {
                dock: old(self)@.dock.with_open(panel, open),
                ..old(self)@
            }),
            final(self)@.valid(),
            r == (old(self)@.dock.placement(panel).open != open),
    {
        let before = self.dock.is_open(panel);
        self.dock.set_open(panel, open);
        before != open
    }

    fn dock_panel(&mut self, panel: PanelId, side: DockSide) -> (r: bool)
        requires
            old(self)@.valid(),
        ensures
            final(self)@ == (WorkspaceModel {
                dock: old(self)@.dock.docked(panel, side),
                ..old(self)@
            }),
            final(self)@.valid(),
            r == !(old(self)@.dock.placement(panel).open && old(self)@.dock.placement(panel).side
                == side),
    {
        self.dock.dock(panel, side)
    }

    fn reorder_panel(&mut self, panel: PanelId, to: u8) -> (r: bool)
        requires
            old(self)@.valid(),
        ensures
            final(self)@ == (WorkspaceModel {
                dock: old(self)@.dock.relocated(panel, to as int),
                ..old(self)@
            }),
            final(self)@.valid(),
            r == old(self)@.dock.can_relocate(panel, to as int),
    {
        self.dock.relocate(panel, to)
    }

    fn apply_layout(&mut self, layout: LayoutId) -> (r: bool)
        requires
            old(self)@.valid(),
        ensures
            final(self)@ == (WorkspaceModel {
                dock: old(self)@.dock.with_layout(layout),
                ..old(self)@
            }),
            final(self)@.valid(),
            r == !old(self)@.dock.same(old(self)@.dock.with_layout(layout)),
    {
        let before = self.dock.clone();
        self.dock.apply_layout(layout);
        !before.same_as(&self.dock)
    }

    fn set_view_flag(&mut self, flag: ViewFlag, on: bool) -> (r: bool)
        ensures
            final(self)@ == (WorkspaceModel {
                view_flags: intent::flagged(old(self)@.view_flags, flag, on),
                ..old(self)@
            }),
            r == (old(self)@.view_flags.contains(flag) != on),
    {
        let changed = self.view_flags.get(flag) != on;
        self.view_flags.set(flag, on);
        changed
    }

    fn select_tool(&mut self, tool: ToolId) -> (r: bool)
        ensures
            final(self)@ == old(self)@.with_tool(tool),
            r == (old(self)@.active_tool != tool || old(self)@.flyout_open),
    {
        let changed = self.active_tool != tool || self.flyout_open;
        if tool != self.tools.eyedropper {
            self.eyedropper_armed = false;
        }
        self.flyout_open = false;
        self.active_tool = tool;
        changed
    }

    fn set_zoom(&mut self, zoom: Real32) -> (r: bool)
        requires
            old(self)@.valid(),
        ensures
            final(self)@ == (WorkspaceModel {
                camera: Camera { zoom: old(self)@.zoom_limits.held(zoom), ..old(self)@.camera },
                ..old(self)@
            }).read_back(),
            r == !(old(self)@.zoom.equals(old(self)@.zoom_limits.held(zoom))
                && old(self)@.camera.zoom.equals(old(self)@.zoom_limits.held(zoom))),
    {
        let next = self.zoom_limits.clamp_zoom(zoom);
        let changed = !(self.zoom.is_equal(next) && self.camera.zoom.is_equal(next));
        self.camera.zoom = next;
        self.read_back_camera();
        changed
    }

    fn set_view_center(&mut self, center: Point) -> (r: bool)
        ensures
            final(self)@ == (WorkspaceModel {
                camera: Camera { center: sane_center(center), ..old(self)@.camera },
                ..old(self)@
            }).read_back(),
            r == !old(self)@.view_center.same(sane_center(center)),
    {
        let next = Point {
            x: if center.x.is_finite() {
                center.x
            } else {
                Real32 { bits: 0 }
            },
            y: if center.y.is_finite() {
                center.y
            } else {
                Real32 { bits: 0 }
            },
        };
        let changed = !self.view_center.same_as(next);
        self.camera.center = next;
        self.read_back_camera();
        changed
    }

    fn set_component_visible(&mut self, index: u8, visible: bool) -> (r: bool)
        ensures
            final(self)@ == old(self)@.with_component(index, visible),
            r == (old(self)@.hidden_components.contains(index) == visible),
    {
        let hidden = holds_byte(&self.hidden_components, index);
        let ghost before = self.hidden_components@;
        if visible {
            self.hidden_components = without_byte(&self.hidden_components, index);
        } else {
            self.hidden_components.push(index);
            assert forall|x: u8|
                members(self.hidden_components@).contains(x) == members(before).insert(
                    index,
                ).contains(x) by {
                lemma_push_contains(before, index, x);
            }
        }
        assert(self@.hidden_components == old(self)@.with_component(
            index,
            visible,
        ).hidden_components);
        hidden == visible
    }

    fn set_expanded(&mut self, layer: LayerId, expanded: bool) -> (r: bool)
        ensures
            final(self)@ == old(self)@.with_expanded(layer, expanded),
            r == (old(self)@.collapsed_groups.contains(layer) == expanded),
    {
        let collapsed = holds_layer(&self.collapsed_groups, layer);
        let ghost before = self.collapsed_groups@;
        if expanded {
            self.collapsed_groups = without_layer(&self.collapsed_groups, layer);
        } else {
            self.collapsed_groups.push(layer);
            assert forall|x: LayerId|
                members(self.collapsed_groups@).contains(x) == members(before).insert(
                    layer,
                ).contains(x) by {
                lemma_push_contains(before, layer, x);
            }
        }
        assert(self@.collapsed_groups == old(self)@.with_expanded(
            layer,
            expanded,
        ).collapsed_groups);
        collapsed == expanded
    }

    /// The layers selected in the Layers panel.
    pub fn selection(&self) -> (r: &Vec<LayerId>)
        ensures
            r@ == self@.selection,
    {
        &self.selection
    }

    /// Select one layer alone.
    pub fn select_only(&mut self, layer: LayerId)
        ensures
            final(self)@ == (WorkspaceModel { selection: seq![layer], ..old(self)@ }),
    {
        let mut only: Vec<LayerId> = Vec::new();
        only.push(layer);
        assert(only@ == seq![layer]);
        self.selection = only;
    }

    /// Drop panel state naming layers the document no longer has.
    pub fn prune(&mut self, layers: &Vec<LayerId>)
        ensures
            final(self)@ == (WorkspaceModel {
                collapsed_groups: old(self)@.collapsed_groups.intersect(members(layers@)),
                selection: old(self)@.selection.filter(|x: LayerId| layers@.contains(x)),
                ..old(self)@
            }),
    {
        proof {
            lemma_kept_members(self.collapsed_groups@, layers@);
        }
        self.collapsed_groups = kept_layers(&self.collapsed_groups, layers);
        self.selection = kept_layers(&self.selection, layers);
    }

    /// A panel writes the zoom readout, which asks the camera to move.
    pub fn write_zoom(&mut self, zoom: Real32)
        ensures
            final(self)@ == (WorkspaceModel { zoom, ..old(self)@ }),
    {
        self.zoom = zoom;
    }

    /// A panel writes the centre readout, which asks the camera to move.
    pub fn write_center(&mut self, center: Point)
        ensures
            final(self)@ == (WorkspaceModel { view_center: center, ..old(self)@ }),
    {
        self.view_center = center;
    }

    /// Put the View menu's toggles onto the canvas, immediately before it draws.
    ///
    /// A panel that wrote the zoom or the centre *since the last read-back* is
    /// asking the camera to move; anything else leaves the camera alone.
    pub fn sync_canvas_view(&mut self)
        ensures
            final(self)@ == old(self)@.synced(),
    {
        if !self.zoom.is_equal(self.readback.0) {
            self.camera.zoom = self.zoom;
        }
        if !self.view_center.same_as(self.readback.1) {
            self.camera.center = self.view_center;
        }
        self.camera.flip_x = self.view_flags.get(ViewFlag::FlipHorizontal);
        self.camera.flip_y = self.view_flags.get(ViewFlag::FlipVertical);
        self.toggles = toggles_of(self.view_flags);
    }

    /// Read what the canvas frame produced: where its camera is now, the
    /// document point under the pointer, and whether the grid was too dense to draw.
    pub fn consume_canvas(
        &mut self,
        camera: Camera,
        pointer: Option<Point>,
        grid_suppressed: bool,
    )
        ensures
            final(self)@ == (WorkspaceModel {
                camera,
                pointer,
                grid_suppressed,
                ..old(self)@
            }).read_back(),
    {
        self.camera = camera;
        self.pointer = pointer;
        self.grid_suppressed = grid_suppressed;
        self.read_back_camera();
    }

    /// Perform one of the view's own commands: the canvas has worked out where
    /// its camera goes, and the readouts follow. Returns `true` when the camera
    /// moved.
    fn move_camera(&mut self, camera: Camera) -> (r: bool)
        ensures
            final(self)@ == (WorkspaceModel { camera, ..old(self)@ }).read_back(),
            r == !camera.same(old(self)@.camera),
    {
        let moved = !camera.same_as(self.camera);
        self.camera = camera;
        self.read_back_camera();
        moved
    }

    /// Turn the view upright. Returns `true` when it was not.
    fn reset_view_rotation(&mut self) -> (r: bool)
        ensures
            final(self)@ == (WorkspaceModel {
                camera: old(self)@.camera.upright(),
                ..old(self)@
            }).read_back(),
            r == !old(self)@.camera.upright().same(old(self)@.camera),
    {
        let upright = Camera { rotation: Real32 { bits: 0 }, ..self.camera };
        self.move_camera(upright)
    }

    /// What the menus read of the workspace this frame. The active layer counts
    /// as selected where nothing else is.
    pub fn menu_context(&self, has_active_layer: bool) -> (r: MenuContext)
        ensures
            r.clipboard == self@.clipboard,
            r.selected_layers == if self@.selection.len() == 0 && has_active_layer {
                1
            } else {
                self@.selection.len()
            },
            r.view@ == self@.view_flags,
            r.view_rotated == !self@.camera.rotation.equals(Real32 { bits: 0 }),
            r.ruler_unit == self@.ruler_unit,
            r.dock@ == self@.dock,
            r.theme == self@.theme,
    {
        let count = self.selection.len();
        MenuContext {
            clipboard: self.clipboard,
            selected_layers: if count == 0 && has_active_layer {
                1
            } else {
                count
            },
            view: self.view_flags,
            view_rotated: !self.camera.rotation.is_equal(Real32 { bits: 0 }),
            ruler_unit: self.ruler_unit,
            dock: self.dock.clone(),
            theme: self.theme,
        }
    }

    /// The document point under the pointer.
    pub fn pointer(&self) -> (r: Option<Point>)
        ensures
            r == self@.pointer,
    {
        self.pointer
    }

    pub fn active_tool(&self) -> (r: ToolId)
        ensures
            r == self@.active_tool,
    {
        self.active_tool
    }

    /// A tool group's fly-out opens.
    pub fn open_flyout(&mut self)
        ensures
            final(self)@ == (WorkspaceModel { flyout_open: true, ..old(self)@ }),
    {
        self.flyout_open = true;
    }

    /// Remember how much room the canvas actually has, once every panel has
    /// taken its share; a size that is none is ignored.
    pub fn record_viewport(&mut self, width: Real32, height: Real32)
        ensures
            final(self)@ == if width.finite() && height.finite() && (Real32 { bits: 0 }).below(
                width,
            ) && (Real32 { bits: 0 }).below(height) {
                WorkspaceModel { viewport: (width, height), ..old(self)@ }
            } else {
                old(self)@
            },
    {
        let zero = Real32 { bits: 0 };
        if width.is_finite() && height.is_finite() && zero.is_below(width) && zero.is_below(height) {
            self.viewport = (width, height);
        }
    }

    fn pick_tool(&mut self, tool: ToolId)
        ensures
            final(self)@ == old(self)@.picked(tool),
    {
        self.flyout_open = false;
        if self.active_tool != tool {
            self.active_tool = tool;
            self.emit(Intent::SelectTool(tool));
        }
    }

    /// Show or hide every component that the first rows name.
    fn set_named_visible(&mut self, rows: &Vec<ChannelRow>, visible: bool)
        ensures
            final(self)@ == (WorkspaceModel {
                hidden_components: hidden_after(old(self)@.hidden_components, rows@, visible),
                ..old(self)@
            }),
    {
        let ghost before = self@;
        let mut i: usize = 0;
        assert(self@.hidden_components == hidden_after(
            before.hidden_components,
            rows@.take(0),
            visible,
        ));
        while i < rows.len()
            invariant
                i <= rows@.len(),
                self@ == (WorkspaceModel {
                    hidden_components: hidden_after(
                        before.hidden_components,
                        rows@.take(i as int),
                        visible,
                    ),
                    ..before
                }),
            decreases rows@.len() - i,
        {
            proof {
                assert(rows@.take(i + 1) == rows@.take(i as int).push(rows@[i as int]));
                keys::lemma_named_push(rows@.take(i as int), rows@[i as int]);
            }
            let ghost so_far = self@.hidden_components;
            match rows[i].kind {
                ChannelKind::Component(index) => {
                    self.set_component_visible(index, visible);
                },
                _ => {},
            }
            assert(self@.hidden_components == hidden_after(
                before.hidden_components,
                rows@.take(i + 1),
                visible,
            ));
            i = i + 1;
        }
        assert(rows@.take(i as int) == rows@);
    }

    /// Show one channel alone of those the Channels panel lists.
    fn isolate(&mut self, channel: ChannelKind, rows: &Vec<ChannelRow>)
        ensures
            final(self)@ == old(self)@.isolated(channel, rows@),
    {
        match channel {
            ChannelKind::Component(index) => {
                self.set_named_visible(rows, false);
                self.set_component_visible(index, true);
            },
            ChannelKind::Composite => {
                self.set_named_visible(rows, true);
            },
            ChannelKind::Mask(_) => {},
        }
    }

    /// Run one key press through the same tables the menu, the Channels panel
    /// and the tool palette draw. `menu` is what the menu item bound to the
    /// chord resolves to, where there is one.
    ///
    /// A menu chord always wins, and consumes the key even when its item is
    /// unavailable; a channel chord comes next, and a tool letter last.
    pub fn handle_key(
        &mut self,
        key: Key,
        modifiers: Modifiers,
        menu: Option<Resolution<C, A>>,
        rows: &Vec<ChannelRow>,
        registry: &Vec<ToolLetter>,
    )
        ensures
            final(self)@ == old(self)@.pressed(key, modifiers, menu, rows@, registry@),
    {
        match menu {
            Some(Resolution::Enabled(intent)) => {
                self.emit(intent);
            },
            Some(Resolution::Disabled(_)) => {},
            None => {
                if let Some(channel) = keys::channel_for_key(key, modifiers, rows) {
                    self.isolate(channel, rows);
                    self.emit(Intent::SelectChannel(channel));
                } else if let Some(tool) = keys::tool_for_key(
                    key,
                    modifiers,
                    registry,
                    Some(self.active_tool),
                ) {
                    self.pick_tool(tool);
                }
            },
        }
    }

    /// Arm the eyedropper for one of the colour wells.
    pub fn arm_eyedropper(&mut self, well: ColorWell)
        ensures
            final(self)@ == (WorkspaceModel { well, eyedropper_armed: true, ..old(self)@ }),
    {
        self.well = well;
        self.eyedropper_armed = true;
    }

    pub fn eyedropper_armed(&self) -> (r: bool)
        ensures
            r == self@.eyedropper_armed,
    {
        self.eyedropper_armed
    }

    /// Record a colour the application sampled from the canvas, and put the
    /// eyedropper away. Returns `true` when the well changed.
    pub fn color_sampled(&mut self, rgba: Rgba) -> (r: bool)
        ensures
            final(self)@ == match old(self)@.well {
                ColorWell::Foreground => WorkspaceModel {
                    foreground: rgba,
                    eyedropper_armed: false,
                    ..old(self)@
                },
                ColorWell::Background => WorkspaceModel {
                    background: rgba,
                    eyedropper_armed: false,
                    ..old(self)@
                },
            },
            r == !same_color(
                match old(self)@.well {
                    ColorWell::Foreground => old(self)@.foreground,
                    ColorWell::Background => old(self)@.background,
                },
                rgba,
            ),
    {
        self.eyedropper_armed = false;
        match self.well {
            ColorWell::Foreground => {
                let changed = !colors_agree(self.foreground, rgba);
                self.foreground = rgba;
                changed
            },
            ColorWell::Background => {
                let changed = !colors_agree(self.background, rgba);
                self.background = rgba;
                changed
            },
        }
    }
}

fn toggles_of(flags: ViewFlags) -> (r: CanvasToggles)
    ensures
        r == CanvasToggles::of(flags@),
{
    CanvasToggles {
        rulers: flags.get(ViewFlag::Rulers),
        guides: flags.get(ViewFlag::Guides),
        grid: flags.get(ViewFlag::Grid),
        pixel_grid: flags.get(ViewFlag::PixelGrid),
        snap: flags.get(ViewFlag::Snap),
        snap_to_layers: flags.get(ViewFlag::SmartGuides),
        selection_edges: flags.get(ViewFlag::SelectionEdges),
        layer_edges: flags.get(ViewFlag::LayerEdges),
        precise_cursor: flags.get(ViewFlag::PreciseCursor),
    }
}

} // verus!

use raster_ui::camera::Camera;
use raster_ui::dialogs::units::Unit;
use raster_ui::dock::{DockSide, LayoutId, PanelId};
use raster_ui::geometry::Point;
use raster_ui::ieee::Real32;
use raster_ui::intent::{ChannelKind, ColorWell, Intent, ViewFlag};
use raster_ui::keymap::{Binding, Key, KeyCommand, Keymap, Shortcut};
use raster_ui::keys::{
    channel_for_key, resolve_key, tool_for_key, ChannelRow, Modifiers, Resolution, ToolLetter,
};
use raster_ui::layer_id::LayerId;
use raster_ui::rgba::Rgba;
use raster_ui::theme::Theme;
use raster_ui::tool_id::ToolId;
use raster_ui::workspace::{ToolSetup, Workspace, ZoomLimits};

type Edit = &'static str;
type Action = &'static str;

const BRUSH: ToolId = ToolId { number: 1 };
const ERASER: ToolId = ToolId { number: 2 };
const EYEDROPPER: ToolId = ToolId { number: 3 };
const MARQUEE_RECT: ToolId = ToolId { number: 4 };
const MARQUEE_ELLIPSE: ToolId = ToolId { number: 5 };

fn num(value: f32) -> Real32 {
    Real32::from_bits(value.to_bits())
}

fn value(number: Real32) -> f32 {
    f32::from_bits(number.bits)
}

fn at(x: f32, y: f32) -> Point {
    Point {
        x: num(x),
        y: num(y),
    }
}

fn fresh() -> Workspace<Edit, Action> {
    Workspace::new(
        ZoomLimits {
            least: num(0.01),
            most: num(64.0),
        },
        ToolSetup {
            opening: BRUSH,
            eyedropper: EYEDROPPER,
        },
    )
}

fn layer(number: u128) -> LayerId {
    LayerId { number }
}

#[test]
fn a_fresh_workspace_has_the_essentials_layout_and_the_default_theme() {
    let w = fresh();
    assert_eq!(w.dock().layout(), Some(LayoutId::Essentials));
    assert!(w.dock().is_open(PanelId::Layers));
    assert_eq!(w.theme(), Theme::Dark);
    assert!(w.clipboard().is_empty());
}

#[test]
fn the_outbox_is_drained_not_replayed() {
    let mut w = fresh();
    w.emit(Intent::SelectTool(ERASER));
    assert_eq!(w.drain_intents().len(), 1);
    assert!(w.drain_intents().is_empty());
}

#[test]
fn draining_commands_keeps_only_the_document_edits() {
    let mut w = fresh();
    w.emit(Intent::SelectTool(ERASER));
    w.emit(Intent::Document("create layer"));
    w.emit(Intent::SetTheme(Theme::Light));
    w.emit(Intent::Document("rename layer"));
    assert_eq!(w.drain_commands(), ["create layer", "rename layer"]);
    assert!(w.drain_intents().is_empty());
}

#[test]
fn absorbing_a_panel_toggle_moves_the_dock() {
    let mut w = fresh();
    let open = Intent::SetPanelOpen {
        panel: PanelId::Paths,
        open: true,
    };
    assert!(w.absorb(&open));
    assert!(w.dock().is_open(PanelId::Paths));
    // Absorbing it again changes nothing and says so.
    assert!(!w.absorb(&open));
}

#[test]
fn absorbing_a_layout_replaces_the_whole_dock() {
    let mut w = fresh();
    assert!(w.absorb(&Intent::ApplyLayout(LayoutId::Painting)));
    assert!(w.dock().is_open(PanelId::Brushes));
    assert!(!w.dock().is_open(PanelId::History));
}

#[test]
fn absorbing_a_panel_move_puts_the_panel_on_the_other_side() {
    let mut w = fresh();
    assert_eq!(w.dock().placement(PanelId::Layers).side, DockSide::Right);
    let down = Intent::DockPanel {
        panel: PanelId::Layers,
        side: DockSide::Bottom,
    };
    assert!(w.absorb(&down));
    assert_eq!(w.dock().placement(PanelId::Layers).side, DockSide::Bottom);
    // Docking it where it already is says so rather than churning.
    assert!(!w.absorb(&down));
}

#[test]
fn absorbing_a_reorder_moves_the_panel_within_its_side() {
    let mut w = fresh();
    let before = w.dock().panels_on(DockSide::Right);
    let last = *before.last().expect("Essentials fills the right rail");
    let to = u8::try_from(before.len() - 2).unwrap();
    assert!(w.absorb(&Intent::ReorderPanel { panel: last, to }));
    assert_ne!(w.dock().panels_on(DockSide::Right), before);
    assert_eq!(w.dock().panels_on(DockSide::Right)[usize::from(to)], last);
    // Absorbing the very same intent again leaves it exactly there: the
    // destination is absolute, so a second application is a no-op.
    assert!(!w.absorb(&Intent::ReorderPanel { panel: last, to }));
    assert_eq!(w.dock().panels_on(DockSide::Right)[usize::from(to)], last);
    // Index 0 is where the first panel already is.
    let first = w.dock().panels_on(DockSide::Right)[0];
    assert!(!w.absorb(&Intent::ReorderPanel {
        panel: first,
        to: 0
    }));
    // A place off the end, and a closed panel, are refused.
    assert!(!w.absorb(&Intent::ReorderPanel {
        panel: first,
        to: 5
    }));
    assert!(!w.absorb(&Intent::ReorderPanel {
        panel: PanelId::Paths,
        to: 0
    }));
}

/// Everything an intent can reach in the workspace, as one comparable value.
fn probe(w: &Workspace<Edit, Action>) -> String {
    let shown: Vec<bool> = (0..=u8::MAX).map(|i| w.component_visible(i)).collect();
    let expanded: Vec<bool> = (0..16).map(|i| w.is_expanded(layer(i))).collect();
    format!(
        "{:?}|{:?}|{:?}|{:?}|{:?}|{:?}|{:?}|{:?}|{:?}|{:?}|{:?}|{:?}|{:?}|{:?}",
        w.dock(),
        w.view_flags(),
        shown,
        w.selected_channel(),
        w.ruler_unit(),
        expanded,
        w.selection(),
        w.theme(),
        w.active_tool(),
        w.eyedropper_armed(),
        w.colors(),
        w.camera(),
        w.readouts(),
        w.clipboard(),
    )
}

#[test]
fn every_workspace_intent_is_idempotent_under_absorb() {
    let intents: Vec<Intent<Edit, Action>> = vec![
        Intent::SetPanelOpen {
            panel: PanelId::Navigator,
            open: true,
        },
        Intent::DockPanel {
            panel: PanelId::Layers,
            side: DockSide::Left,
        },
        Intent::ReorderPanel {
            panel: PanelId::Layers,
            to: 0,
        },
        Intent::ApplyLayout(LayoutId::Painting),
        Intent::SetViewFlag {
            flag: ViewFlag::Grid,
            on: true,
        },
        Intent::SetRulerUnit(Unit::Centimeters),
        Intent::SetChannelVisible {
            channel: ChannelKind::Component(0),
            visible: false,
        },
        Intent::SelectChannel(ChannelKind::Component(1)),
        Intent::SetGroupExpanded {
            layer: layer(4),
            expanded: false,
        },
        Intent::SelectTool(ERASER),
        Intent::SetTheme(Theme::Light),
        Intent::SetZoom(num(3.0)),
        Intent::SetViewCenter(at(4.0, 5.0)),
        Intent::SetForeground(gray(0.25)),
        Intent::SetBackground(gray(0.75)),
        Intent::MoveCamera(Camera {
            zoom: num(4.0),
            center: at(7.0, 8.0),
            rotation: num(0.5),
            flip_x: false,
            flip_y: false,
        }),
        Intent::ResetViewRotation,
    ];
    for intent in intents {
        let mut w = fresh();
        // A turned view, for the reset to have something to undo.
        w.absorb(&Intent::MoveCamera(Camera {
            rotation: num(1.0),
            ..w.camera()
        }));
        let fresh = probe(&w);
        assert!(
            w.absorb(&intent),
            "{intent:?} changed nothing at all, so applying it twice proves nothing"
        );
        let once = probe(&w);
        assert_ne!(once, fresh, "{intent:?} reported a change it did not make");
        let again = w.absorb(&intent);
        assert_eq!(
            probe(&w),
            once,
            "absorbing {intent:?} twice moved the workspace twice"
        );
        assert!(
            !again,
            "{intent:?} reported a change on its second absorb"
        );
    }
}

fn gray(level: f32) -> Rgba {
    Rgba {
        red: num(level),
        green: num(level),
        blue: num(level),
        alpha: num(1.0),
    }
}

#[test]
fn absorbing_a_pan_moves_the_view_centre_and_refuses_a_nonsense_one() {
    let mut w = fresh();
    assert!(w.absorb(&Intent::SetViewCenter(at(120.0, 80.0))));
    assert_eq!(w.readouts().1, at(120.0, 80.0));
    assert!(!w.absorb(&Intent::SetViewCenter(at(120.0, 80.0))));
    w.absorb(&Intent::SetViewCenter(at(f32::NAN, f32::INFINITY)));
    assert_eq!(w.readouts().1, at(0.0, 0.0));
}

#[test]
fn absorbing_a_channel_toggle_writes_the_component_flag() {
    let mut w = fresh();
    let hide = Intent::SetChannelVisible {
        channel: ChannelKind::Component(1),
        visible: false,
    };
    assert!(w.absorb(&hide));
    assert!(!w.component_visible(1));
    assert!(w.component_visible(0));
    assert!(!w.absorb(&hide));
    assert!(!w.absorb(&Intent::SetChannelVisible {
        channel: ChannelKind::Composite,
        visible: false,
    }));
}

#[test]
fn leaving_the_eyedropper_puts_the_sampler_away() {
    let mut w = fresh();
    w.arm_eyedropper(ColorWell::Foreground);
    w.absorb(&Intent::SelectTool(EYEDROPPER));
    assert!(w.eyedropper_armed(), "the eyedropper disarmed itself");
    w.absorb(&Intent::SelectTool(BRUSH));
    assert!(!w.eyedropper_armed());
}

#[test]
fn a_sampled_colour_lands_in_the_well_and_disarms_the_sampler() {
    let mut w = fresh();
    w.arm_eyedropper(ColorWell::Foreground);
    let sampled = Rgba {
        red: num(0.25),
        green: num(0.5),
        blue: num(0.75),
        alpha: num(1.0),
    };
    assert!(w.color_sampled(sampled));
    assert!(!w.eyedropper_armed());
    assert_eq!(w.colors().0, sampled);
    assert!(!w.color_sampled(sampled), "the well already holds it");
}

#[test]
fn absorbing_a_document_command_changes_nothing_in_the_workspace() {
    let mut w = fresh();
    assert!(!w.absorb(&Intent::Document("create layer")));
    assert!(!w.absorb(&Intent::Action("quit")));
}

#[test]
fn absorbing_a_zoom_clamps_it() {
    let mut w = fresh();
    w.absorb(&Intent::SetZoom(num(1e9)));
    assert_eq!(value(w.readouts().0), 64.0);
    w.absorb(&Intent::SetZoom(num(f32::NAN)));
    assert_eq!(value(w.readouts().0), 1.0);
}

#[test]
fn pruning_drops_panel_state_for_layers_that_are_gone() {
    let mut w = fresh();
    w.select_only(layer(9));
    w.absorb(&Intent::SetGroupExpanded {
        layer: layer(9),
        expanded: false,
    });
    w.prune(&vec![layer(9)]);
    assert_eq!(w.selection(), &vec![layer(9)]);
    assert!(!w.is_expanded(layer(9)));
    w.prune(&Vec::new());
    assert!(w.selection().is_empty());
    assert!(w.is_expanded(layer(9)));
}

#[test]
fn every_view_toggle_reaches_the_canvas() {
    type Read = fn(&Workspace<Edit, Action>) -> bool;
    let read: [(ViewFlag, Read); 11] = [
        (ViewFlag::Rulers, |w| w.toggles().rulers),
        (ViewFlag::Guides, |w| w.toggles().guides),
        (ViewFlag::Grid, |w| w.toggles().grid),
        (ViewFlag::PixelGrid, |w| w.toggles().pixel_grid),
        (ViewFlag::Snap, |w| w.toggles().snap),
        (ViewFlag::SmartGuides, |w| w.toggles().snap_to_layers),
        (ViewFlag::SelectionEdges, |w| w.toggles().selection_edges),
        (ViewFlag::LayerEdges, |w| w.toggles().layer_edges),
        (ViewFlag::PreciseCursor, |w| w.toggles().precise_cursor),
        (ViewFlag::FlipHorizontal, |w| w.camera().flip_x),
        (ViewFlag::FlipVertical, |w| w.camera().flip_y),
    ];
    let mut w = fresh();
    for (flag, read_it) in read {
        for on in [true, false, true] {
            w.absorb(&Intent::SetViewFlag { flag, on });
            w.sync_canvas_view();
            assert_eq!(read_it(&w), on, "{flag:?} never reached the canvas");
        }
    }
}

#[test]
fn the_view_rotation_resets() {
    let mut w = fresh();
    assert!(!w.absorb(&Intent::ResetViewRotation), "already upright");
    let turned = Camera {
        rotation: num(std::f32::consts::FRAC_PI_4),
        ..w.camera()
    };
    assert!(w.absorb(&Intent::MoveCamera(turned)));
    assert!(w.absorb(&Intent::ResetViewRotation));
    assert_eq!(value(w.camera().rotation), 0.0);
}

#[test]
fn the_zoom_readout_and_the_camera_are_one_number() {
    let mut w = fresh();
    assert!(w.absorb(&Intent::SetZoom(num(2.0))));
    assert_eq!(
        value(w.camera().zoom),
        2.0,
        "SetZoom missed the camera"
    );
    assert_eq!(value(w.readouts().0), 2.0);

    // …and the wheel, which moves the canvas's own camera.
    w.sync_canvas_view();
    let wheeled = Camera {
        zoom: num(2.5),
        center: at(3.0, 4.0),
        ..w.camera()
    };
    w.consume_canvas(wheeled, Some(at(10.0, 20.0)), true);
    assert_eq!(value(w.readouts().0), 2.5);
    assert_eq!(w.readouts().1, at(3.0, 4.0));
    assert_eq!(w.pointer(), Some(at(10.0, 20.0)));
    assert!(w.grid_is_suppressed());

    // A panel that writes a readout asks the camera to move.
    w.write_zoom(num(4.0));
    w.write_center(at(7.0, 8.0));
    w.sync_canvas_view();
    assert_eq!(value(w.camera().zoom), 4.0);
    assert_eq!(w.camera().center, at(7.0, 8.0));
}

#[test]
fn the_viewport_and_the_rails_keep_what_was_measured() {
    let mut w = fresh();
    assert_eq!(w.viewport(), (num(1280.0), num(720.0)));
    w.record_viewport(num(900.0), num(600.0));
    w.record_viewport(num(f32::NAN), num(600.0));
    w.record_viewport(num(0.0), num(600.0));
    assert_eq!(w.viewport(), (num(900.0), num(600.0)));
    assert_eq!(w.rail_measure(DockSide::Left), None);
    w.set_rail_measure(DockSide::Left, num(300.0));
    assert_eq!(w.rail_measure(DockSide::Left), Some(num(300.0)));
    assert_eq!(w.rail_measure(DockSide::Right), None);
}

// Keys.

fn bare() -> Modifiers {
    Modifiers::bare()
}

fn command() -> Modifiers {
    Modifiers {
        command: true,
        ..bare()
    }
}

fn menu() -> Keymap {
    let bound = |shortcut: Shortcut, id: &str| Binding {
        shortcut,
        id: id.to_string(),
    };
    Keymap::from_defaults(
        vec![
            KeyCommand::new("undo", "Edit", "Undo"),
            KeyCommand::new("redo", "Edit", "Redo"),
            KeyCommand::new("paste", "Edit", "Paste"),
        ],
        vec![
            bound(Shortcut::ctrl(Key::Z), "undo"),
            bound(Shortcut::ctrl_shift(Key::Z), "redo"),
            bound(Shortcut::ctrl(Key::V), "paste"),
        ],
    )
}

fn rows() -> Vec<ChannelRow> {
    let mut rows = vec![ChannelRow {
        kind: ChannelKind::Composite,
        digit: Some(2),
    }];
    for i in 0..3u8 {
        rows.push(ChannelRow {
            kind: ChannelKind::Component(i),
            digit: Some(i + 3),
        });
    }
    rows
}

fn registry() -> Vec<ToolLetter> {
    [
        (BRUSH, 'b'),
        (ERASER, 'e'),
        (EYEDROPPER, 'i'),
        (MARQUEE_RECT, 'm'),
        (MARQUEE_ELLIPSE, 'm'),
    ]
    .into_iter()
    .map(|(tool, letter)| ToolLetter { tool, letter })
    .collect()
}

#[test]
fn a_menu_chord_resolves_to_its_menu_items_action() {
    assert_eq!(resolve_key(Key::Z, command(), &menu()), Some("undo"));
}

#[test]
fn every_channel_shortcut_the_panel_prints_selects_that_channel() {
    let digits = [
        Key::Num0,
        Key::Num1,
        Key::Num2,
        Key::Num3,
        Key::Num4,
        Key::Num5,
    ];
    let mut pressed = 0usize;
    for row in rows() {
        let Some(digit) = row.digit else { continue };
        let key = digits[usize::from(digit)];
        assert_eq!(channel_for_key(key, command(), &rows()), Some(row.kind));
        assert_eq!(resolve_key(key, command(), &menu()), None);
        pressed += 1;
    }
    assert!(pressed >= 4, "the panel printed no chords at all");
}

#[test]
fn a_channel_chord_needs_the_primary_modifier_and_nothing_else() {
    assert_eq!(
        channel_for_key(Key::Num3, command(), &rows()),
        Some(ChannelKind::Component(0))
    );
    assert_eq!(channel_for_key(Key::Num3, bare(), &rows()), None);
    assert_eq!(
        channel_for_key(
            Key::Num3,
            Modifiers {
                shift: true,
                ..command()
            },
            &rows()
        ),
        None
    );
    // An RGB document has no fourth component, so Ctrl+6 names nothing.
    assert_eq!(channel_for_key(Key::Num6, command(), &rows()), None);
    // A letter is never a channel chord.
    assert_eq!(channel_for_key(Key::B, command(), &rows()), None);
}

#[test]
fn an_unclaimed_chord_resolves_to_nothing() {
    assert_eq!(resolve_key(Key::Num9, command(), &menu()), None);
    // A bare letter is a tool key, not a menu chord.
    assert_eq!(resolve_key(Key::B, bare(), &menu()), None);
}

#[test]
fn the_modifiers_are_part_of_the_chord() {
    let shifted = Modifiers {
        shift: true,
        ..command()
    };
    assert_eq!(resolve_key(Key::Z, command(), &menu()), Some("undo"));
    assert_eq!(resolve_key(Key::Z, shifted, &menu()), Some("redo"));
}

#[test]
fn a_bare_letter_selects_a_tool_and_a_modified_one_does_not() {
    assert_eq!(
        tool_for_key(Key::B, bare(), &registry(), None),
        Some(BRUSH)
    );
    assert_eq!(tool_for_key(Key::B, command(), &registry(), None), None);
    let shifted = Modifiers {
        shift: true,
        ..bare()
    };
    assert_eq!(tool_for_key(Key::B, shifted, &registry(), None), None);
}

#[test]
fn pressing_a_tool_letter_again_cycles_within_its_group() {
    let first = tool_for_key(Key::M, bare(), &registry(), None).unwrap();
    assert_eq!(first, MARQUEE_RECT);
    let second = tool_for_key(Key::M, bare(), &registry(), Some(first)).unwrap();
    assert_eq!(second, MARQUEE_ELLIPSE);
    let third = tool_for_key(Key::M, bare(), &registry(), Some(second)).unwrap();
    assert_eq!(third, MARQUEE_RECT);
}

#[test]
fn a_key_no_tool_claims_selects_nothing() {
    assert_eq!(tool_for_key(Key::Num8, bare(), &registry(), None), None);
    assert_eq!(tool_for_key(Key::Escape, bare(), &registry(), None), None);
}

#[test]
fn a_disabled_menu_chord_consumes_its_key() {
    let mut w = fresh();
    let why = || -> Option<Resolution<Edit, Action>> {
        Some(Resolution::Disabled("Nothing to undo".to_string()))
    };
    w.handle_key(Key::M, bare(), why(), &rows(), &registry());
    assert_eq!(w.active_tool(), BRUSH);
    assert!(w.drain_intents().is_empty());
    assert_eq!(why().unwrap().reason(), Some("Nothing to undo"));
    assert!(!why().unwrap().is_enabled());

    w.handle_key(
        Key::Z,
        command(),
        Some(Resolution::Enabled(Intent::Action("undo"))),
        &rows(),
        &registry(),
    );
    assert_eq!(w.drain_intents(), vec![Intent::Action("undo")]);
}

#[test]
fn a_channel_chord_and_a_tool_letter_reach_the_outbox() {
    let mut w = fresh();
    w.handle_key(Key::Num4, command(), None, &rows(), &registry());
    assert_eq!(
        w.drain_intents(),
        vec![Intent::SelectChannel(ChannelKind::Component(1))]
    );
    // The chord isolates: the other components are hidden, and the composite's
    // chord shows them all again.
    assert!(!w.component_visible(0));
    assert!(w.component_visible(1));
    assert!(!w.component_visible(2));
    w.handle_key(Key::Num2, command(), None, &rows(), &registry());
    assert_eq!(
        w.drain_intents(),
        vec![Intent::SelectChannel(ChannelKind::Composite)]
    );
    assert!(w.component_visible(0) && w.component_visible(1) && w.component_visible(2));
    w.open_flyout();
    w.handle_key(Key::M, bare(), None, &rows(), &registry());
    assert_eq!(w.active_tool(), MARQUEE_RECT);
    assert_eq!(w.drain_intents(), vec![Intent::SelectTool(MARQUEE_RECT)]);
    w.handle_key(Key::Num4, bare(), None, &rows(), &registry());
    assert!(w.drain_intents().is_empty());
}

#[test]
fn the_menus_read_the_workspace_as_it_is() {
    let mut w = fresh();
    let context = w.menu_context(false);
    assert_eq!(context.selected_layers, 0);
    assert_eq!(w.menu_context(true).selected_layers, 1);
    assert!(!context.view_rotated);
    assert!(context.dock.same_as(w.dock()));
    w.select_only(LayerId { number: 3 });
    assert_eq!(w.menu_context(false).selected_layers, 1);
    assert_eq!(w.menu_context(true).selected_layers, 1);
    let turned = Camera {
        rotation: num(0.5),
        ..w.camera()
    };
    assert!(w.absorb(&Intent::MoveCamera(turned)));
    w.absorb(&Intent::SetViewFlag {
        flag: ViewFlag::Grid,
        on: true,
    });
    let context = w.menu_context(false);
    assert!(context.view_rotated);
    assert!(context.view.get(ViewFlag::Grid));
    assert_eq!(context.theme, w.theme());
    assert_eq!(context.ruler_unit, w.ruler_unit());
}

#[test]
fn a_zoom_command_moves_the_camera_and_the_readouts() {
    let mut w = fresh();
    let fitted = Camera {
        zoom: num(0.5),
        center: at(320.0, 240.0),
        ..w.camera()
    };
    assert!(w.absorb(&Intent::MoveCamera(fitted)));
    assert_eq!(w.camera(), fitted);
    assert_eq!(w.readouts(), (num(0.5), at(320.0, 240.0)));
    assert!(!w.absorb(&Intent::MoveCamera(fitted)));
}

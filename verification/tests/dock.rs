use raster_ui::dock::{
    is_resize, DockSide, DockState, LayoutId, PanelId, PanelPlacement, MAX_DOCK_HEIGHT,
    MAX_DOCK_WIDTH, MIN_DOCK_WIDTH, RAIL_WIDTH_PT,
};
use raster_ui::ieee::Real32;
use serde_json::Value;

fn num(value: f32) -> Real32 {
    Real32::from_bits(value.to_bits())
}

fn value(number: Real32) -> f32 {
    f32::from_bits(number.bits)
}

#[test]
fn the_default_layout_is_essentials_and_opens_the_layers_panel() {
    let d = DockState::default();
    assert_eq!(d.layout(), Some(LayoutId::Essentials));
    assert!(d.is_open(PanelId::Layers));
    assert_eq!(d.placement(PanelId::Layers).side, DockSide::Right);
    assert!(!d.is_open(PanelId::Paths));
}

#[test]
fn switching_to_painting_opens_brushes_and_closes_history() {
    let mut d = DockState::default();
    assert!(d.is_open(PanelId::History));
    assert!(!d.is_open(PanelId::Brushes));
    d.apply_layout(LayoutId::Painting);
    assert!(d.is_open(PanelId::Brushes));
    assert!(!d.is_open(PanelId::History));
    assert_eq!(d.layout(), Some(LayoutId::Painting));
}

#[test]
fn the_minimal_layout_leaves_every_side_empty() {
    let d = DockState::from_layout(LayoutId::Minimal);
    for side in DockSide::ALL {
        assert!(d.side_is_empty(side), "{side:?} is not empty");
    }
    for panel in PanelId::ALL {
        assert!(!d.is_open(panel), "{panel:?} is still open");
    }
}

#[test]
fn collapsing_a_side_round_trips_through_the_icon_rail() {
    let mut d = DockState::from_layout(LayoutId::Essentials);
    assert!(!d.side_is_collapsed(DockSide::Right));
    let placements = d.placements().clone();
    let width = d.right_width();

    d.set_side_collapsed(DockSide::Right, true);
    assert!(d.side_is_collapsed(DockSide::Right));
    assert_eq!(d.placements(), &placements);

    d.set_side_collapsed(DockSide::Right, false);
    assert!(!d.side_is_collapsed(DockSide::Right));
    assert_eq!(d.placements(), &placements, "unfolding restores the fold");
    assert_eq!(d.right_width(), width);

    // The bottom dock has no rail to become.
    d.set_side_collapsed(DockSide::Bottom, true);
    assert!(!d.side_is_collapsed(DockSide::Bottom));

    assert_eq!(f32::from_bits(RAIL_WIDTH_PT), 40.0);
}

#[test]
fn switching_layouts_keeps_the_users_dock_widths() {
    let mut d = DockState::default();
    d.set_side_width(DockSide::Right, num(480.0));
    d.apply_layout(LayoutId::Photography);
    assert_eq!(value(d.right_width()), 480.0);
}

#[test]
fn dock_widths_are_clamped_and_a_nan_is_ignored() {
    let mut d = DockState::default();
    d.set_side_width(DockSide::Right, num(10_000.0));
    assert_eq!(d.right_width().bits, MAX_DOCK_WIDTH);
    d.set_side_width(DockSide::Right, num(0.0));
    assert_eq!(d.right_width().bits, MIN_DOCK_WIDTH);
    d.set_side_width(DockSide::Right, num(f32::NAN));
    assert_eq!(d.right_width().bits, MIN_DOCK_WIDTH);
    d.set_side_width(DockSide::Bottom, num(10_000.0));
    assert_eq!(d.bottom_height().bits, MAX_DOCK_HEIGHT);
}

#[test]
fn opening_a_never_placed_panel_gives_it_a_real_slot() {
    let mut d = DockState::from_layout(LayoutId::Minimal);
    d.set_open(PanelId::Paths, true);
    assert!(d.is_open(PanelId::Paths));
    assert_ne!(d.placement(PanelId::Paths).order, u8::MAX);
    assert_eq!(d.panels_on(DockSide::Right), vec![PanelId::Paths]);
}

#[test]
fn panels_on_a_side_come_back_in_dock_order() {
    let d = DockState::from_layout(LayoutId::Essentials);
    assert_eq!(
        d.panels_on(DockSide::Right),
        vec![
            PanelId::Properties,
            PanelId::Adjustments,
            PanelId::Layers,
            PanelId::History,
            PanelId::Color
        ]
    );
    assert!(d.side_is_empty(DockSide::Left));
}

#[test]
fn re_setting_a_dock_width_to_the_value_it_already_holds_changes_nothing() {
    let mut d = DockState::default();
    let before = d.clone();
    d.set_side_width(DockSide::Right, d.right_width());
    assert_eq!(d, before);
    assert_eq!(d.layout(), Some(LayoutId::Essentials));

    d.set_side_width(DockSide::Right, Real32::from_bits(MAX_DOCK_WIDTH));
    assert_eq!(d.layout(), None, "a real change still clears the layout");
    let mut d = DockState::default();
    d.set_side_width(DockSide::Left, num(0.0));
    assert_eq!(d.left_width().bits, MIN_DOCK_WIDTH);
    assert_eq!(d.layout(), None);
    let dirtied = d.clone();
    d.set_side_width(DockSide::Left, num(-1000.0));
    assert_eq!(d, dirtied, "a second clamp to the same value is a no-op");
}

#[test]
fn a_measurement_is_a_resize_only_when_it_changes_under_the_pointer() {
    assert!(!is_resize(None, num(308.0), true));
    assert!(!is_resize(None, num(308.0), false));
    assert!(!is_resize(Some(num(308.0)), num(308.0), true));
    assert!(!is_resize(Some(num(308.0)), num(260.0), false));
    assert!(is_resize(Some(num(308.0)), num(260.0), true));
    assert!(!is_resize(Some(num(308.0)), num(f32::NAN), true));
}

#[test]
fn a_real_width_change_still_clears_the_layout() {
    let mut d = DockState::default();
    assert_eq!(d.layout(), Some(LayoutId::Essentials));
    d.set_side_width(DockSide::Right, num(value(d.right_width()) + 40.0));
    assert_eq!(d.layout(), None);
}

#[test]
fn syncing_a_measured_width_moves_the_extent_but_keeps_the_layout() {
    let mut d = DockState::default();
    assert!(d.sync_side_width(DockSide::Left, num(308.0)));
    assert_eq!(value(d.left_width()), 308.0);
    assert_eq!(d.layout(), Some(LayoutId::Essentials));
    assert!(!d.sync_side_width(DockSide::Left, num(308.0)));
    assert!(!d.sync_side_width(DockSide::Left, num(f32::NAN)));
    assert_eq!(value(d.left_width()), 308.0);
}

#[test]
fn reordering_moves_a_group_within_its_side_and_refuses_at_the_ends() {
    let mut d = DockState::default();
    assert_eq!(
        d.panels_on(DockSide::Right),
        vec![
            PanelId::Properties,
            PanelId::Adjustments,
            PanelId::Layers,
            PanelId::History,
            PanelId::Color
        ]
    );
    assert_eq!(d.reorder(PanelId::Layers, true), Some(0));
    let raised = vec![
        PanelId::Layers,
        PanelId::Properties,
        PanelId::Adjustments,
        PanelId::History,
        PanelId::Color,
    ];
    assert_eq!(d.panels_on(DockSide::Right), raised);
    assert_eq!(d.layout(), None);
    // The raised group's tab stays the shown one.
    assert!(d.is_active(PanelId::Layers));

    // The top group cannot go up and the bottom group cannot go down.
    assert_eq!(d.reorder(PanelId::Layers, true), None);
    assert_eq!(d.reorder(PanelId::Color, false), None);
    // A closed panel has no place in the order at all.
    assert_eq!(d.reorder(PanelId::Paths, true), None);
    // ...and the refusals left the arrangement alone.
    assert_eq!(d.panels_on(DockSide::Right), raised);
}

#[test]
fn reordering_down_is_the_inverse_of_reordering_up() {
    let mut d = DockState::default();
    let before = d.panels_on(DockSide::Right);
    assert!(d.reorder(PanelId::Layers, true).is_some());
    assert!(d.reorder(PanelId::Layers, false).is_some());
    assert_eq!(d.panels_on(DockSide::Right), before);
}

#[test]
fn moving_a_panel_to_the_index_it_already_holds_changes_nothing() {
    let mut d = DockState::default();
    let at = 2;
    assert_eq!(d.panels_on(DockSide::Right)[at], PanelId::Layers);
    assert!(d.reorder_to(PanelId::Layers, 0));
    let once = d.panels_on(DockSide::Right);
    assert_eq!(once[0], PanelId::Layers);
    assert!(!d.reorder_to(PanelId::Layers, 0));
    assert_eq!(d.panels_on(DockSide::Right), once);
    // An index off the end of the side is a refusal, not a clamp.
    assert!(!d.reorder_to(PanelId::Layers, 9));
    assert_eq!(d.panels_on(DockSide::Right), once);
}

#[test]
fn moving_a_panel_across_the_side_carries_the_rest_along() {
    let mut d = DockState::default();
    let before = d.panels_on(DockSide::Right);
    let last = *before.last().unwrap();
    assert!(d.reorder_to(last, 0));
    let mut expected = before.clone();
    let partner = d.placement(last).group;
    let group_members: Vec<PanelId> = before
        .iter()
        .copied()
        .filter(|p| d.placement(*p).group == partner)
        .collect();
    for id in group_members.iter().rev() {
        expected.remove(expected.iter().position(|p| p == id).unwrap());
        expected.insert(0, *id);
    }
    assert_eq!(d.panels_on(DockSide::Right), expected);
}

#[test]
fn docking_reports_whether_it_moved_anything() {
    let mut d = DockState::default();
    assert!(d.dock(PanelId::Layers, DockSide::Bottom));
    assert_eq!(d.panels_on(DockSide::Bottom), vec![PanelId::Layers]);
    assert!(!d.dock(PanelId::Layers, DockSide::Bottom));
    // A closed panel docks (and opens) even onto the side it is filed under.
    assert!(!d.is_open(PanelId::Paths));
    assert!(d.dock(PanelId::Paths, DockSide::Right));
    assert!(d.is_open(PanelId::Paths));
}

#[test]
fn moving_a_panel_across_sides_takes_it_off_the_old_one() {
    let mut d = DockState::default();
    assert!(d.panels_on(DockSide::Right).contains(&PanelId::Layers));
    d.dock(PanelId::Layers, DockSide::Left);
    assert!(!d.panels_on(DockSide::Right).contains(&PanelId::Layers));
    assert!(d.panels_on(DockSide::Left).contains(&PanelId::Layers));
    // A hand-arranged dock no longer claims to be a preset.
    assert_eq!(d.layout(), None);
}

#[test]
fn clicking_a_tab_raises_that_panel() {
    let mut d = DockState::default();
    assert!(d.is_active(PanelId::Properties));
    assert!(!d.is_active(PanelId::Adjustments));
    d.raise(PanelId::Adjustments);
    assert!(d.is_active(PanelId::Adjustments));
    assert!(!d.is_active(PanelId::Properties));
    assert_eq!(
        d.panels_on(DockSide::Right),
        vec![
            PanelId::Properties,
            PanelId::Adjustments,
            PanelId::Layers,
            PanelId::History,
            PanelId::Color
        ]
    );
    assert_eq!(d.layout(), None);
}

#[test]
fn dragging_a_panel_into_a_group_joins_it() {
    let mut d = DockState::default();
    assert!(d.move_panel(PanelId::Layers, DockSide::Right, 0));
    assert_eq!(
        d.groups_on(DockSide::Right),
        vec![
            (
                0,
                vec![PanelId::Properties, PanelId::Adjustments, PanelId::Layers]
            ),
            (2, vec![PanelId::History, PanelId::Color])
        ]
    );
    // The dragged panel is the tab the group shows.
    assert!(d.is_active(PanelId::Layers));
    assert!(!d.is_active(PanelId::Properties));
    // Joining the group it already lives in changes nothing.
    assert!(!d.move_panel(PanelId::Layers, DockSide::Right, 0));
}

#[test]
fn closing_the_last_tab_removes_the_group() {
    let mut d = DockState::from_layout(LayoutId::Essentials);
    assert_eq!(d.groups_on(DockSide::Right).len(), 3);
    d.set_open(PanelId::Layers, false);
    let groups = d.groups_on(DockSide::Right);
    assert_eq!(groups.len(), 2, "the empty group is gone");
    assert_eq!(groups[0].1, vec![PanelId::Properties, PanelId::Adjustments]);
    assert!(d.active_panel(DockSide::Right, 0).is_some());
}

#[test]
fn an_old_session_without_groups_normalizes_to_one_active_tab() {
    let saved = DockState::from_layout(LayoutId::Essentials);
    let placements: Vec<PanelPlacement> = saved
        .placements()
        .iter()
        .map(|p| PanelPlacement {
            group: 0,
            active: false,
            ..*p
        })
        .collect();
    let mut d = DockState::from_parts(
        placements,
        (
            saved.left_width(),
            saved.right_width(),
            saved.bottom_height(),
        ),
        (false, false),
        saved.layout(),
    )
    .expect("one placement per panel");
    d.normalize();
    let right = d.panels_on(DockSide::Right);
    let active = right.iter().filter(|p| d.is_active(**p)).count();
    assert_eq!(active, 1, "exactly one tab shows per side");
}

#[test]
fn collapsing_hides_the_body_but_keeps_the_panel_open() {
    let mut d = DockState::default();
    d.toggle_collapsed(PanelId::Layers);
    assert!(d.is_collapsed(PanelId::Layers));
    assert!(d.is_open(PanelId::Layers));
    assert!(d.panels_on(DockSide::Right).contains(&PanelId::Layers));
}

#[test]
fn a_hand_arranged_dock_stops_claiming_to_be_a_preset() {
    let mut d = DockState::default();
    assert_eq!(d.layout(), Some(LayoutId::Essentials));
    d.toggle_open(PanelId::Paths);
    assert_eq!(d.layout(), None);
}

#[test]
fn closing_an_already_closed_panel_does_not_dirty_the_layout() {
    let mut d = DockState::default();
    d.set_open(PanelId::Paths, false);
    assert_eq!(d.layout(), Some(LayoutId::Essentials));
}

#[test]
fn a_dock_survives_a_round_trip_through_its_parts() {
    let mut d = DockState::from_layout(LayoutId::Photography);
    d.set_side_width(DockSide::Left, num(333.0));
    d.toggle_collapsed(PanelId::Info);
    let back = DockState::from_parts(
        d.placements().clone(),
        (d.left_width(), d.right_width(), d.bottom_height()),
        (
            d.side_is_collapsed(DockSide::Left),
            d.side_is_collapsed(DockSide::Right),
        ),
        d.layout(),
    );
    assert_eq!(back, Some(d));
}

#[test]
fn parts_that_are_no_dock_are_refused() {
    let d = DockState::default();
    let extents = (d.left_width(), d.right_width(), d.bottom_height());
    let mut short = d.placements().clone();
    short.pop();
    assert_eq!(
        DockState::from_parts(short, extents, (false, false), None),
        None
    );
    assert_eq!(
        DockState::from_parts(
            d.placements().clone(),
            (num(f32::NAN), extents.1, extents.2),
            (false, false),
            None
        ),
        None
    );
}

#[test]
fn every_panel_has_a_title_and_a_unique_key() {
    let mut keys: Vec<&str> = PanelId::ALL.iter().map(|p| p.key()).collect();
    keys.sort_unstable();
    let count = keys.len();
    keys.dedup();
    assert_eq!(keys.len(), count, "two panels share a key");
    for panel in PanelId::ALL {
        assert!(!panel.title().is_empty(), "{panel:?}");
        assert!(!panel.key().is_empty(), "{panel:?}");
    }
}

#[test]
fn every_layout_has_a_title_and_places_only_known_panels() {
    for layout in LayoutId::ALL {
        assert!(!layout.title().is_empty(), "{layout:?}");
        let state = DockState::from_layout(layout);
        let placed: usize = DockSide::ALL
            .iter()
            .map(|s| state.panels_on(*s).len())
            .sum();
        assert_eq!(
            placed,
            layout.panels().len(),
            "{layout:?} lost a panel between its preset and its dock"
        );
    }
}

#[test]
fn every_group_of_a_normalized_side_shows_exactly_one_tab() {
    for layout in LayoutId::ALL {
        let mut d = DockState::from_layout(layout);
        d.normalize();
        for side in DockSide::ALL {
            for (group, members) in d.groups_on(side) {
                let shown = members.iter().filter(|p| d.is_active(**p)).count();
                assert_eq!(shown, 1, "{layout:?} {side:?} {group}");
            }
        }
    }
}

#[test]
fn side_extents_follow_their_sides() {
    let mut d = DockState::default();
    d.set_side_width(DockSide::Left, num(300.0));
    d.set_side_width(DockSide::Bottom, num(200.0));
    assert_eq!(value(d.side_extent(DockSide::Left)), 300.0);
    assert_eq!(value(d.side_extent(DockSide::Bottom)), 200.0);
    assert_eq!(d.side_extent(DockSide::Right), d.right_width());
}

fn to_json(d: &DockState) -> String {
    let placements = d
        .placements()
        .iter()
        .map(|p| {
            let mut fields = serde_json::Map::new();
            fields.insert("side".to_string(), Value::String(format!("{:?}", p.side)));
            fields.insert("order".to_string(), Value::from(p.order));
            fields.insert("open".to_string(), Value::from(p.open));
            fields.insert("collapsed".to_string(), Value::from(p.collapsed));
            fields.insert("group".to_string(), Value::from(p.group));
            fields.insert("active".to_string(), Value::from(p.active));
            Value::Object(fields)
        })
        .collect();
    let mut fields = serde_json::Map::new();
    fields.insert("placements".to_string(), Value::Array(placements));
    fields.insert("left_width".to_string(), Value::from(value(d.left_width())));
    fields.insert("right_width".to_string(), Value::from(value(d.right_width())));
    fields.insert("bottom_height".to_string(), Value::from(value(d.bottom_height())));
    for (key, side) in [("left", DockSide::Left), ("right", DockSide::Right)] {
        fields.insert(key.to_string(), Value::from(d.side_is_collapsed(side)));
    }
    if let Some(layout) = d.layout() {
        fields.insert("layout".to_string(), Value::String(layout.title().to_string()));
    }
    serde_json::to_string(&Value::Object(fields)).expect("serialize")
}

fn from_json(json: &str) -> DockState {
    let v: Value = serde_json::from_str(json).expect("deserialize");
    let placements = v["placements"]
        .as_array()
        .unwrap()
        .iter()
        .map(|p| PanelPlacement {
            side: *DockSide::ALL
                .iter()
                .find(|s| p["side"] == format!("{s:?}"))
                .unwrap(),
            order: p["order"].as_u64().unwrap() as u8,
            open: p["open"].as_bool().unwrap(),
            collapsed: p["collapsed"].as_bool().unwrap(),
            group: p["group"].as_u64().unwrap() as u8,
            active: p["active"].as_bool().unwrap(),
        })
        .collect();
    let extent = |key: &str| num(v[key].as_f64().unwrap() as f32);
    DockState::from_parts(
        placements,
        (extent("left_width"), extent("right_width"), extent("bottom_height")),
        (v["left"].as_bool().unwrap(), v["right"].as_bool().unwrap()),
        LayoutId::ALL.into_iter().find(|l| v["layout"] == l.title()),
    )
    .expect("a dock")
}

#[test]
fn a_dock_survives_a_settings_round_trip() {
    let mut d = DockState::from_layout(LayoutId::Photography);
    d.set_side_width(DockSide::Left, num(333.0));
    d.toggle_collapsed(PanelId::Info);
    let back = from_json(&to_json(&d));
    assert_eq!(back, d);
}

#[test]
fn a_docked_panel_is_the_last_its_side_draws() {
    let mut d = DockState::default();
    assert!(d.dock(PanelId::Paths, DockSide::Right));
    assert_eq!(
        d.panels_on(DockSide::Right),
        [
            PanelId::Properties,
            PanelId::Adjustments,
            PanelId::Layers,
            PanelId::History,
            PanelId::Color,
            PanelId::Paths,
        ]
    );
    assert!(d.is_open(PanelId::Paths));
    assert_eq!(d.layout(), None);
    assert!(!d.dock(PanelId::Paths, DockSide::Right));

    // From one side to the other: last there, gone here, the rest in order.
    assert!(d.dock(PanelId::Paths, DockSide::Left));
    assert!(d.dock(PanelId::Layers, DockSide::Left));
    assert_eq!(
        d.panels_on(DockSide::Left),
        [PanelId::Paths, PanelId::Layers]
    );
    assert_eq!(
        d.panels_on(DockSide::Right),
        [
            PanelId::Properties,
            PanelId::Adjustments,
            PanelId::History,
            PanelId::Color,
        ]
    );
}

#[test]
fn an_unplaced_panel_opens_behind_the_others() {
    let mut d = DockState::default();
    assert_eq!(d.placement(PanelId::Info).order, u8::MAX);
    let mut expected = d.panels_on(d.placement(PanelId::Info).side);
    d.set_open(PanelId::Info, true);
    expected.push(PanelId::Info);
    assert_eq!(d.panels_on(d.placement(PanelId::Info).side), expected);
    assert_ne!(d.placement(PanelId::Info).order, u8::MAX);
}

#[test]
fn a_side_whose_orders_have_run_out_still_takes_a_panel_last() {
    let saved = DockState::from_layout(LayoutId::Essentials);
    for order in [253u8, 254, 255] {
        let placements: Vec<PanelPlacement> = saved
            .placements()
            .iter()
            .map(|p| PanelPlacement { order, ..*p })
            .collect();
        let parts = (
            saved.left_width(),
            saved.right_width(),
            saved.bottom_height(),
        );
        let rebuilt = || {
            DockState::from_parts(placements.clone(), parts, (false, false), None)
                .expect("one placement per panel")
        };
        let mut d = rebuilt();
        let mut expected = d.panels_on(DockSide::Right);
        assert!(d.dock(PanelId::Actions, DockSide::Right));
        expected.push(PanelId::Actions);
        assert_eq!(d.panels_on(DockSide::Right), expected);
        assert_ne!(d.placement(PanelId::Actions).order, u8::MAX);

        let mut d = rebuilt();
        assert!(d.move_panel(PanelId::Layers, DockSide::Right, 0));
        let groups = d.groups_on(DockSide::Right);
        assert_eq!(groups[0].1.last(), Some(&PanelId::Layers));
    }
}

#[test]
fn a_joining_panel_is_the_last_tab_even_after_one_closed() {
    let mut d = DockState::default();
    d.set_open(PanelId::History, false);
    assert!(d.move_panel(PanelId::Layers, DockSide::Right, 2));
    assert_eq!(
        d.groups_on(DockSide::Right),
        [
            (0, vec![PanelId::Properties, PanelId::Adjustments]),
            (2, vec![PanelId::Color, PanelId::Layers]),
        ]
    );
    assert!(d.is_active(PanelId::Layers));
    assert!(!d.is_active(PanelId::Color));
    assert_eq!(d.layout(), None);
    assert!(!d.move_panel(PanelId::Layers, DockSide::Right, 2));
}

#[test]
fn relocating_moves_one_panel_among_those_of_its_side() {
    let mut d = DockState::default();
    let before = d.panels_on(DockSide::Right);
    assert!(d.relocate(PanelId::Layers, 0));
    assert_eq!(
        d.groups_on(DockSide::Right),
        [
            (
                0,
                vec![PanelId::Layers, PanelId::Properties, PanelId::Adjustments]
            ),
            (2, vec![PanelId::History, PanelId::Color]),
        ]
    );
    assert!(!d.relocate(PanelId::Layers, 0));
    assert!(d.relocate(PanelId::Layers, 2));
    assert_eq!(d.panels_on(DockSide::Right), before);
    assert!(d.relocate(PanelId::Properties, 4));
    assert_eq!(d.panels_on(DockSide::Right)[4], PanelId::Properties);
    // Off the end, and closed: refusals that leave everything alone.
    let settled = d.clone();
    assert!(!d.relocate(PanelId::Layers, 5));
    assert!(!d.relocate(PanelId::Paths, 0));
    assert!(d.same_as(&settled));
}

/// One active tab in every group, and no closed panel active.
fn one_tab_shows(d: &DockState) {
    for side in [DockSide::Left, DockSide::Right, DockSide::Bottom] {
        for (group, members) in d.groups_on(side) {
            let active: Vec<PanelId> = members
                .iter()
                .copied()
                .filter(|p| d.is_active(*p))
                .collect();
            assert_eq!(active.len(), 1, "{side:?} {group}: {active:?}");
            assert_eq!(d.active_panel(side, group), Some(active[0]));
        }
    }
    for panel in PanelId::ALL {
        let p = d.placement(panel);
        assert!(p.open || !p.active, "{panel:?} is closed and active");
    }
}

#[test]
fn docked_panels_show_and_every_group_keeps_one_active_tab() {
    let mut d = DockState::default();
    assert!(d.dock(PanelId::Layers, DockSide::Left));
    one_tab_shows(&d);
    assert!(d.dock(PanelId::Properties, DockSide::Left));
    one_tab_shows(&d);
    // Each has a group of its own, so both show.
    assert_eq!(
        d.groups_on(DockSide::Left),
        [(1, vec![PanelId::Layers]), (2, vec![PanelId::Properties])]
    );
    assert!(d.is_active(PanelId::Layers));
    assert!(d.is_active(PanelId::Properties));
    // The group that Properties left shows its remaining tab.
    assert!(d.is_active(PanelId::Adjustments));

    // A panel of the last group's own number joins it, and shows.
    assert!(d.dock(PanelId::Color, DockSide::Left));
    one_tab_shows(&d);
    assert_eq!(
        d.groups_on(DockSide::Left)[1],
        (2, vec![PanelId::Properties, PanelId::Color])
    );
    assert!(d.is_active(PanelId::Color));
    assert!(!d.is_active(PanelId::Properties));
}

#[test]
fn a_side_out_of_group_numbers_still_takes_a_panel_last() {
    let mut d = DockState::default();
    assert!(d.move_panel(PanelId::History, DockSide::Right, 255));
    assert!(d.dock(PanelId::Paths, DockSide::Right));
    assert_eq!(
        d.groups_on(DockSide::Right).last(),
        Some(&(255, vec![PanelId::History, PanelId::Paths]))
    );
    assert!(d.is_active(PanelId::Paths));
    one_tab_shows(&d);
}

#[test]
fn closing_the_shown_tab_hands_over_and_opening_it_takes_back() {
    let mut d = DockState::default();
    let placements = d.placements().clone();
    d.set_open(PanelId::Properties, false);
    one_tab_shows(&d);
    assert!(!d.placement(PanelId::Properties).active);
    assert!(d.is_active(PanelId::Adjustments));
    d.set_open(PanelId::Properties, true);
    one_tab_shows(&d);
    assert!(d.is_active(PanelId::Properties));
    assert_eq!(*d.placements(), placements);
}

#[test]
fn every_layout_shows_one_tab_of_each_group_and_changes_keep_it() {
    for layout in LayoutId::ALL {
        let mut d = DockState::from_layout(layout);
        one_tab_shows(&d);
        for (step, panel) in PanelId::ALL.into_iter().enumerate() {
            d.toggle_open(panel);
            one_tab_shows(&d);
            d.dock(panel, [DockSide::Left, DockSide::Right][step % 2]);
            one_tab_shows(&d);
            d.relocate(panel, 0);
            one_tab_shows(&d);
            d.raise(panel);
            one_tab_shows(&d);
            d.reorder(panel, step % 3 == 0);
            one_tab_shows(&d);
        }
    }
}

#[test]
fn a_relocated_panel_shows_in_the_group_it_joins() {
    let mut d = DockState::default();
    assert!(d.relocate(PanelId::Color, 1));
    assert!(d.is_active(PanelId::Color));
    assert!(!d.is_active(PanelId::Properties));
    assert!(d.is_active(PanelId::History));
    // Among its own tabs only the order changes.
    assert!(d.relocate(PanelId::Adjustments, 0));
    assert!(d.is_active(PanelId::Color));
    one_tab_shows(&d);
}

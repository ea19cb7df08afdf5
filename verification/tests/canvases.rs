use raster_ui::dialogs::chrome::{DialogButton, DialogKeys, DialogOutcome};
use raster_ui::dialogs::perspective_warp::{PerspectiveWarpDialog, WarpMode};
use raster_ui::dialogs::puppet_warp::{ink, MeshDensity, PuppetMode, PuppetWarpDialog, RestMesh};
use raster_ui::dialogs::refine_mask::{
    composite_preview, preview_size, PreviewBackground, RefineMaskDialog, RefineMaskSpec,
};
use raster_ui::dialogs::vanishing_point::{
    PlanePointer, VanishingMode, VanishingOp, VanishingPointDialog,
};
use raster_ui::dialogs::viewfinder::{fit, Viewfinder};
use raster_ui::geometry::{distance, find_nearest, Point, Quad};
use raster_ui::ieee::Real32;

const CONFIRM: DialogKeys = DialogKeys {
    confirm: true,
    cancel: false,
};
const CANCEL: DialogKeys = DialogKeys {
    confirm: false,
    cancel: true,
};

fn num(value: f32) -> Real32 {
    Real32::from_bits(value.to_bits())
}

fn value(number: Real32) -> f32 {
    f32::from_bits(number.bits)
}

fn at(x: f32, y: f32) -> Point {
    Point {
        x: num(x),
        y: num(y),
    }
}

// Perspective Warp.

#[test]
fn a_quad_left_unmoved_is_the_identity_and_blocked() {
    let mut dialog = PerspectiveWarpDialog::new(64, 64);
    dialog.add_quad(at(8.0, 8.0), at(40.0, 48.0)).unwrap();
    assert!(dialog.confirm().is_none());
    assert!(dialog.blocked_reason().is_some());
}

#[test]
fn warp_mode_moves_only_the_target_corner() {
    let mut dialog = PerspectiveWarpDialog::new(64, 64);
    let q = dialog.add_quad(at(8.0, 8.0), at(40.0, 48.0)).unwrap();
    dialog.set_mode(WarpMode::Warp);
    assert!(
        dialog.add_quad(at(0.0, 0.0), at(9.0, 9.0)).is_none(),
        "no drawing in Warp"
    );
    dialog.move_corner(q, 1, at(46.0, 4.0));
    let quad = dialog.quads()[q];
    assert_eq!(quad.source.top_right, at(40.0, 8.0));
    assert_eq!(quad.target.top_right, at(46.0, 4.0));
    let spec = match dialog.resolve(CONFIRM) {
        DialogOutcome::Confirmed(spec) => spec,
        other => panic!("Enter did not commit: {other:?}"),
    };
    assert_eq!(spec.image_size, (64, 64));
    assert!(!spec.is_identity());
    dialog.reset();
    assert!(dialog.quads().is_empty());
}

#[test]
fn a_rectangle_without_an_area_inside_the_image_is_refused() {
    let mut dialog = PerspectiveWarpDialog::new(100, 80);
    assert_eq!(dialog.add_quad(at(10.0, 10.0), at(11.0, 50.0)), None);
    assert_eq!(dialog.add_quad(at(10.0, 10.0), at(60.0, 11.5)), None);
    assert_eq!(dialog.add_quad(at(500.0, 10.0), at(600.0, 50.0)), None);
    assert_eq!(dialog.add_quad(at(10.0, -30.0), at(60.0, -5.0)), None);
    assert!(dialog.quads().is_empty());
    assert_eq!(dialog.add_quad(at(60.0, -30.0), at(600.0, 50.0)), Some(0));
    let quad = dialog.quads()[0];
    assert_eq!(quad.source.top_left, at(60.0, 0.0));
    assert_eq!(quad.source.bottom_right, at(100.0, 50.0));
}

#[test]
fn dragging_on_the_drawn_canvas_draws_a_quad_then_warps_a_corner() {
    let mut dialog = PerspectiveWarpDialog::new(64, 64);
    let pick = num(4.0);
    // Layout: a drag across empty canvas draws one quad.
    dialog.drag_started(at(10.0, 10.0), pick);
    dialog.drag_moved(at(30.0, 30.0));
    assert!(dialog.rubber().is_some());
    dialog.drag_stopped(Some(at(50.0, 44.0)));
    assert_eq!(dialog.quads().len(), 1, "one drag, one quad");
    let q = dialog.quads()[0];
    assert_eq!(q.source.top_left, at(10.0, 10.0));
    assert_eq!(q.source.bottom_right, at(50.0, 44.0));
    // Warp: dragging the top-right corner moves only its target.
    dialog.set_mode(WarpMode::Warp);
    let corner = q.target.top_right;
    dialog.drag_started(corner, pick);
    let to = at(value(corner.x) + 8.0, value(corner.y) - 6.0);
    dialog.drag_moved(to);
    dialog.drag_stopped(Some(to));
    let moved = dialog.quads()[0];
    assert_eq!(moved.source, q.source, "the drawn quad is where it was");
    assert_eq!(moved.target.top_right, to);
    assert!(dialog.confirm().is_some());
}

// Puppet Warp.

fn bar() -> RestMesh {
    let mut rest = Vec::new();
    for x in [12.0, 22.0, 32.0, 42.0, 50.0] {
        rest.push(at(x, 32.0));
    }
    RestMesh {
        rest,
        spacing: num(10.0),
    }
}

#[test]
fn pins_not_moved_confirm_the_identity() {
    let mut dialog = PuppetWarpDialog::new(Some(bar()));
    assert!(dialog.add_pin(at(14.0, 32.0)).is_some());
    assert!(dialog.add_pin(at(50.0, 32.0)).is_some());
    assert!(
        dialog.add_pin(at(2.0, 2.0)).is_none(),
        "no pin off the ink"
    );
    let spec = dialog.confirm().unwrap();
    assert!(spec.is_identity());
}

#[test]
fn dragging_a_pin_deforms_the_spec() {
    let mut dialog = PuppetWarpDialog::new(Some(bar()));
    dialog.add_pin(at(14.0, 32.0)).unwrap();
    let right = dialog.add_pin(at(50.0, 32.0)).unwrap();
    let pin = dialog.pins()[right];
    let to = at(value(pin.at.x), value(pin.at.y) + 10.0);
    dialog.move_pin(right, to);
    assert!(dialog.needs_pose());
    assert!(dialog.confirm().is_none(), "a pose is owed");
    assert!(dialog.resolve(CONFIRM).is_open());
    let mut pose = dialog.deformed().clone();
    pose[pin.vertex] = to;
    assert!(!dialog.set_pose(pose[1..].to_vec()), "a vertex has no place");
    assert!(!dialog.set_pose(Vec::new()));
    assert!(dialog.needs_pose());
    assert!(dialog.set_pose(pose));
    match dialog.resolve(CONFIRM) {
        DialogOutcome::Confirmed(spec) => assert!(!spec.is_identity()),
        other => panic!("Enter did not commit: {other:?}"),
    }
    dialog.reset();
    assert!(dialog.needs_pose());
    assert!(dialog.set_pose(bar().rest));
    assert!(dialog.confirm().unwrap().is_identity());
    assert!(matches!(dialog.resolve(CANCEL), DialogOutcome::Cancelled));
}

#[test]
fn a_layer_with_no_ink_cannot_commit_and_says_why() {
    let mut dialog = PuppetWarpDialog::new(None);
    assert!(!dialog.set_pose(bar().rest), "there is no mesh to pose");
    assert!(dialog.confirm().is_none());
    assert!(dialog.blocked_reason().is_some());
    assert!(dialog.resolve(CONFIRM).is_open());
}

#[test]
fn clicking_and_dragging_on_the_drawn_canvas_places_and_moves_pins() {
    let mut dialog = PuppetWarpDialog::new(Some(bar()));
    let pick = num(3.0);
    for x in [14.0, 50.0] {
        dialog.pressed(at(x, 32.0), pick);
        dialog.release();
    }
    assert_eq!(dialog.pins().len(), 2, "two clicks, two pins");
    let pin = dialog.pins()[1].at;
    dialog.pressed(pin, pick);
    for step in 1..=6 {
        dialog.dragged(at(value(pin.x), value(pin.y) + 2.0 * step as f32));
    }
    dialog.release();
    assert_eq!(
        dialog.pins().len(),
        2,
        "the drag moved a pin, it did not add one"
    );
    let moved = dialog.pins()[1].at;
    assert!(value(moved.y) > value(pin.y) + 6.0);
    dialog.secondary_clicked(moved, pick);
    assert_eq!(dialog.pins().len(), 1);
}

#[test]
fn a_new_density_starts_over_and_a_new_mode_asks_for_a_pose() {
    let mut dialog = PuppetWarpDialog::new(Some(bar()));
    dialog.add_pin(at(14.0, 32.0)).unwrap();
    dialog.set_mode(PuppetMode::Blend);
    assert_eq!(dialog.mode(), PuppetMode::Blend);
    dialog.set_density(MeshDensity::Fine, Some(bar()));
    assert_eq!(dialog.density(), MeshDensity::Fine);
    assert!(dialog.pins().is_empty());
}

#[test]
fn ink_is_the_rounded_alpha() {
    let alphas: Vec<Real32> = [0.0f32, 0.25, 0.5, 1.0, 2.0, -1.0, f32::NAN]
        .iter()
        .map(|a| num(*a))
        .collect();
    let want: Vec<u8> = [0.0f32, 0.25, 0.5, 1.0, 2.0, -1.0, f32::NAN]
        .iter()
        .map(|a| (a.clamp(0.0, 1.0) * 255.0).round() as u8)
        .collect();
    assert_eq!(ink(&alphas), want);
}

// Vanishing Point.

fn floor() -> Quad {
    Quad {
        top_left: at(40.0, 20.0),
        top_right: at(80.0, 20.0),
        bottom_right: at(110.0, 90.0),
        bottom_left: at(10.0, 90.0),
    }
}

#[test]
fn a_paste_lands_on_the_plane_and_confirms_as_one_spec() {
    let mut dialog = VanishingPointDialog::new(120, 100, floor(), Some((8, 8)));
    assert!(dialog.blocked_reason(true).is_some(), "no edit yet");
    dialog.set_mode(VanishingMode::Paste);
    dialog.set_paste_size(num(0.5));
    assert!(dialog.paste_at(Some(at(0.5, 0.5))));
    assert!(!dialog.paste_at(None), "off the plane");
    let spec = match dialog.resolve(CONFIRM, true) {
        DialogOutcome::Confirmed(spec) => spec,
        other => panic!("Enter did not commit: {other:?}"),
    };
    assert_eq!(spec.image_size, (120, 100));
    assert_eq!(spec.ops.len(), 1);
    dialog.undo_op();
    assert!(dialog.ops().is_empty());
    assert!(dialog.resolve(CONFIRM, true).is_open());
}

#[test]
fn clone_needs_a_source_and_keeps_its_offset() {
    let mut dialog = VanishingPointDialog::new(120, 100, floor(), None);
    dialog.set_mode(VanishingMode::Clone);
    assert!(!dialog.clone_at(Some(at(0.8, 0.6))), "no source yet");
    assert!(dialog.set_clone_source(Some(at(0.2, 0.6))));
    assert!(dialog.clone_at(Some(at(0.8, 0.6))));
    assert!(dialog.clone_at(Some(at(0.8, 0.7))));
    match dialog.ops()[1] {
        VanishingOp::Clone { from, to, .. } => {
            assert!((value(from.x) - 0.2).abs() < 1e-4 && (value(to.y) - 0.7).abs() < 1e-4);
            assert!((value(from.y) - 0.7).abs() < 1e-4, "aligned offset");
        }
        other => panic!("{other:?}"),
    }
    assert!(dialog.confirm(true).is_some());
    assert!(dialog.confirm(false).is_none(), "the plane is unusable");
}

#[test]
fn dragging_a_drawn_corner_moves_the_plane() {
    let mut dialog = VanishingPointDialog::new(120, 100, floor(), None);
    let start = dialog.plane().top_left;
    let event = |p: Point, started: bool| PlanePointer {
        at: p,
        on_plane: None,
        pick: num(4.0),
        drag_started: started,
        clicked: false,
        dragged: true,
        alt: false,
    };
    dialog.pointer(event(start, true));
    for step in 1..=5 {
        let p = at(
            value(start.x) + 2.0 * step as f32,
            value(start.y) - step as f32,
        );
        dialog.pointer(event(p, false));
    }
    dialog.release();
    let moved = dialog.plane().top_left;
    assert_eq!(moved, at(value(start.x) + 10.0, value(start.y) - 5.0));
}

// Refine Mask.

/// A hard half-plane: left half revealed, right half concealed.
fn half_plane(w: u32, h: u32) -> Vec<u8> {
    let mut c = vec![0u8; (w * h) as usize];
    for y in 0..h {
        for x in 0..w / 2 {
            c[(y * w + x) as usize] = 255;
        }
    }
    c
}

fn opaque(w: u32, h: u32) -> Vec<u8> {
    [200u8, 120, 40, 255].repeat((w * h) as usize)
}

#[test]
fn the_preview_shows_the_mask_geometry_over_each_backdrop() {
    let w = 16u32;
    let h = 16u32;
    for bg in PreviewBackground::ALL {
        let dialog = RefineMaskDialog::with_spec(
            RefineMaskSpec {
                background: bg,
                ..RefineMaskSpec::default()
            },
            opaque(w, h),
            half_plane(w, h),
            w,
            h,
        );
        // An identity refinement leaves the coverage as it was.
        let (content, coverage, pw, ph) = dialog.preview_source();
        let rgba = dialog.preview_rgba(&content, &coverage, pw, ph);
        let at = |x: usize, y: usize| (y * w as usize + x) * 4;
        // The revealed side shows the content's ink...
        assert_eq!(rgba[at(2, 8)], 200, "{bg:?}: revealed keeps the ink");
        // ...the concealed side shows the backdrop...
        let expected = match bg {
            PreviewBackground::Black => 0,
            PreviewBackground::White => 255,
            PreviewBackground::Checker => 200, // the light square at even parity
        };
        assert_eq!(
            rgba[at(13, 8)],
            expected,
            "{bg:?}: concealed shows the backdrop"
        );
        // ...and the preview is opaque (the backdrop IS the alpha).
        assert_eq!(rgba[at(13, 8) + 3], 255);
    }
}

#[test]
fn the_preview_blends_exactly_by_the_coverage() {
    let w = 8u32;
    let coverage: Vec<u8> = (0..64u32).map(|i| (i * 4) as u8).collect();
    let rgba = composite_preview(&opaque(w, 8), &coverage, w, 8, PreviewBackground::Checker);
    for y in 0..8u32 {
        for x in 0..8u32 {
            let c = f32::from(coverage[(y * w + x) as usize]) / 255.0;
            let backdrop = if (x + y) % 2 == 0 { 160.0 } else { 200.0 };
            let want = (200.0 * c + backdrop * (1.0 - c)).round() as i32;
            let got = i32::from(rgba[((y * w + x) * 4) as usize]);
            assert_eq!(got, want, "{x} {y}");
        }
    }
}

#[test]
fn the_preview_composites_the_raw_content_by_the_refined_coverage() {
    let dialog = RefineMaskDialog::new(opaque(8, 8), half_plane(8, 8), 8, 8);
    assert!(
        dialog.confirm().is_none(),
        "an all-identity spec confirms nothing"
    );
    assert!(
        dialog.blocked_reason().is_some(),
        "the disabled button says why"
    );
    let before = dialog.confirm();
    let (content, coverage, w, h) = dialog.preview_source();
    let _ = dialog.preview_rgba(&content, &coverage, w, h);
    assert_eq!(
        dialog.confirm(),
        before,
        "previewing never mutates the spec"
    );
}

#[test]
fn a_confirmed_spec_round_trips_through_the_action() {
    let spec = RefineMaskSpec {
        feather_px: num(4.0),
        shift_px: -2,
        smooth_px: 1,
        contrast: num(0.5),
        background: PreviewBackground::White,
    };
    let dialog = RefineMaskDialog::with_spec(spec, opaque(8, 8), half_plane(8, 8), 8, 8);
    assert_eq!(dialog.confirm(), Some(spec));
    assert_eq!(
        dialog.press(DialogButton::Confirm),
        DialogOutcome::Confirmed(spec)
    );
}

// The geometry under them.

#[test]
fn the_nearest_handle_within_reach_is_found() {
    let handles = vec![at(0.0, 0.0), at(10.0, 0.0), at(10.0, 3.0)];
    assert_eq!(
        find_nearest(&handles, at(10.0, 2.0), num(5.0)),
        Some(2)
    );
    assert_eq!(find_nearest(&handles, at(50.0, 50.0), num(5.0)), None);
    assert_eq!(value(distance(at(0.0, 0.0), at(3.0, 4.0))), 5.0);
}

#[test]
fn a_preview_is_drawn_at_the_limit_or_twice_its_size() {
    let (w, h) = preview_size(512, 256);
    assert_eq!((value(w), value(h)), (256.0, 128.0));
    let (w, h) = preview_size(16, 8);
    assert_eq!((value(w), value(h)), (32.0, 16.0));
}

#[test]
fn a_viewfinder_maps_the_screen_to_the_document_and_back() {
    let (w, h) = fit(64, 32, num(320.0));
    assert_eq!((value(w), value(h)), (320.0, 160.0));
    let finder = Viewfinder::new(at(10.0, 20.0), w, 64);
    assert_eq!(value(finder.per_px), 5.0);
    assert_eq!(finder.to_doc(at(60.0, 70.0)), at(10.0, 10.0));
    assert_eq!(finder.to_screen(at(10.0, 10.0)), at(60.0, 70.0));
    assert_eq!(value(finder.pick(num(5.0))), 2.0);
    let nothing = fit(0, 0, num(320.0));
    assert_eq!((value(nothing.0), value(nothing.1)), (0.0, 0.0));
}

#[test]
fn a_spec_hands_its_morphology_on() {
    let spec = RefineMaskSpec {
        feather_px: num(2.5),
        shift_px: -3,
        smooth_px: 4,
        contrast: num(0.25),
        ..RefineMaskSpec::default()
    };
    let params = spec.params();
    assert_eq!(value(params.feather_px), 2.5);
    assert_eq!((params.shift_px, params.smooth_px), (-3, 4));
    assert_eq!(value(params.contrast), 0.25);
}

#[test]
fn a_small_canvas_is_previewed_whatever_it_holds() {
    let odd = RefineMaskDialog::new(vec![1, 2], vec![3], 4, 4);
    assert!(!odd.is_consistent());
    assert_eq!(odd.preview_source(), (vec![1, 2], vec![3], 4, 4));
    assert!(RefineMaskDialog::new(vec![0; 64], vec![0; 16], 4, 4).is_consistent());
}

#[test]
fn the_mask_preview_is_stale_where_a_number_moved() {
    let mut dialog = RefineMaskDialog::new(opaque(4, 4), half_plane(4, 4), 4, 4);
    let opening = RefineMaskSpec {
        feather_px: num(0.0),
        shift_px: 0,
        smooth_px: 0,
        contrast: num(0.0),
        background: PreviewBackground::Checker,
    };
    assert_eq!(dialog.spec(), opening);
    dialog.preview_built();
    // The two zeros are one number.
    dialog.set_spec(RefineMaskSpec {
        feather_px: num(-0.0),
        ..opening
    });
    assert!(!dialog.is_preview_dirty());
    dialog.set_spec(RefineMaskSpec {
        contrast: num(0.5),
        ..opening
    });
    assert!(dialog.is_preview_dirty());
    // What is not a number equals nothing, itself included.
    let odd = RefineMaskSpec {
        feather_px: num(f32::NAN),
        ..opening
    };
    dialog.set_spec(odd);
    dialog.preview_built();
    dialog.set_spec(odd);
    assert!(dialog.is_preview_dirty());
}

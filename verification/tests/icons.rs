use raster_ui::drawings::{
    icon_for, ui_icon, AdjustmentId, LayerClass, LockToggle, StepKind, CHROME_ICON_KEYS,
};
use raster_ui::geometry::Point;
use raster_ui::icons::{decode, place, Icon, Prim, Spot};
use raster_ui::ieee::Real32;

fn num(value: f32) -> Real32 {
    Real32::from_bits(value.to_bits())
}

fn value(number: Real32) -> f32 {
    f32::from_bits(number.bits)
}

const TOOL_KEYS: [&str; 50] = [
    "move",
    "pen",
    "anchor-block",
    "path-select",
    "type",
    "marquee-rect",
    "marquee-ellipse",
    "marquee-row",
    "marquee-column",
    "lasso",
    "lasso-poly",
    "lasso-magnetic",
    "wand",
    "quick-select",
    "crop",
    "slice",
    "eyedropper",
    "spot-heal",
    "heal",
    "patch",
    "red-eye",
    "brush",
    "pencil",
    "color-replace",
    "clone",
    "pattern-stamp",
    "eraser",
    "eraser-bg",
    "eraser-magic",
    "gradient",
    "bucket",
    "pattern-fill",
    "blur",
    "sharpen",
    "smudge",
    "dodge",
    "burn",
    "sponge",
    "shape-rect",
    "shape-rrect",
    "shape-ellipse",
    "shape-polygon",
    "shape-star",
    "shape-line",
    "shape-custom",
    "hand",
    "zoom",
    "rotate-view",
    "transform",
    "arrow",
];

/// Every chrome key any surface can ask for, from the fixed list and from each
/// enum that names one.
fn all_chrome_keys() -> Vec<&'static str> {
    let mut keys: Vec<&'static str> = CHROME_ICON_KEYS.to_vec();
    keys.extend(AdjustmentId::ALL.iter().map(|id| id.icon()));
    keys.extend(StepKind::ALL.iter().map(|k| k.icon()));
    keys.extend(LayerClass::ALL.iter().map(|c| c.icon()));
    keys.extend(LockToggle::ALL.iter().map(|t| t.icon()));
    keys
}

#[test]
fn every_registry_icon_key_has_a_drawing() {
    for key in TOOL_KEYS {
        assert!(!icon_for(key).is_unknown(), "{key:?} has no drawing");
    }
}

#[test]
fn every_chrome_icon_key_has_a_drawing() {
    for key in all_chrome_keys() {
        assert!(
            !ui_icon(key).is_unknown(),
            "chrome icon key {key:?} has no drawing; the control would be blank"
        );
    }
}

#[test]
fn a_new_variant_of_an_iconed_enum_cannot_compile_without_visiting_this_gate() {
    match AdjustmentId::BrightnessContrast {
        AdjustmentId::BrightnessContrast
        | AdjustmentId::Levels
        | AdjustmentId::Curves
        | AdjustmentId::Exposure
        | AdjustmentId::Vibrance
        | AdjustmentId::HueSaturation
        | AdjustmentId::ColorBalance
        | AdjustmentId::BlackAndWhite
        | AdjustmentId::PhotoFilter
        | AdjustmentId::ChannelMixer
        | AdjustmentId::Invert
        | AdjustmentId::Posterize
        | AdjustmentId::Threshold
        | AdjustmentId::GradientMap
        | AdjustmentId::SelectiveColor => {}
    }
    match StepKind::Open {
        StepKind::Open
        | StepKind::LayerAdded
        | StepKind::LayerRemoved
        | StepKind::LayerMoved
        | StepKind::LayerChanged
        | StepKind::Transformed
        | StepKind::Painted
        | StepKind::Filled
        | StepKind::Cleared
        | StepKind::Batch
        | StepKind::Unknown => {}
    }
    match LayerClass::Raster {
        LayerClass::Raster
        | LayerClass::Group
        | LayerClass::Adjustment
        | LayerClass::Text
        | LayerClass::Shape
        | LayerClass::SmartObject
        | LayerClass::Generator => {}
    }
    match LockToggle::Transparency {
        LockToggle::Transparency
        | LockToggle::Pixels
        | LockToggle::Position
        | LockToggle::All => {}
    }

    // One per arm above.
    assert_eq!(AdjustmentId::ALL.len(), 15, "extend the match above too");
    assert_eq!(StepKind::ALL.len(), 11, "extend the match above too");
    assert_eq!(LayerClass::ALL.len(), 7, "extend the match above too");
    assert_eq!(LockToggle::ALL.len(), 4, "extend the match above too");
}

#[test]
fn no_chrome_icon_key_is_claimed_by_two_controls() {
    let declared = all_chrome_keys();
    let mut sorted = declared.clone();
    sorted.sort_unstable();
    let count = sorted.len();
    sorted.dedup();
    assert_eq!(
        sorted.len(),
        count,
        "an icon key is claimed by two controls"
    );
}

#[test]
fn no_two_chrome_controls_share_a_drawing() {
    let mut seen: Vec<(&'static str, Icon)> = Vec::new();
    for key in all_chrome_keys() {
        let icon = ui_icon(key);
        if let Some((other, _)) = seen.iter().find(|(_, drawn)| *drawn == icon) {
            panic!("{key:?} draws the same icon as {other:?}");
        }
        seen.push((key, icon));
    }
}

#[test]
fn no_two_tools_share_a_drawing() {
    let mut seen: Vec<(&'static str, Icon)> = Vec::new();
    for key in TOOL_KEYS {
        let icon = icon_for(key);
        if let Some((other, _)) = seen.iter().find(|(_, drawn)| *drawn == icon) {
            panic!("{key:?} draws the same icon as {other}");
        }
        seen.push((key, icon));
    }
}

fn assert_inside(key: &str, icon: &Icon) -> usize {
    let mut checked = 0usize;
    for prim in &icon.prims {
        let spots: Vec<(i32, i32)> = match prim {
            Prim::Poly(p, _) => {
                assert!(p.len() >= 2, "{key:?} has a one-point polyline");
                p.iter().map(|s| (i32::from(s.x), i32::from(s.y))).collect()
            }
            Prim::Fill(p) => {
                assert!(p.len() >= 3, "{key:?} has a fill with no area");
                p.iter().map(|s| (i32::from(s.x), i32::from(s.y))).collect()
            }
            Prim::Circle(c, r) | Prim::Dot(c, r) => {
                let (x, y, r) = (i32::from(c.x), i32::from(c.y), i32::from(*r));
                vec![(x - r, y - r), (x + r, y + r)]
            }
            Prim::Line(a, b) => vec![
                (i32::from(a.x), i32::from(a.y)),
                (i32::from(b.x), i32::from(b.y)),
            ],
        };
        for (x, y) in spots {
            assert!(
                (0..=1000).contains(&x) && (0..=1000).contains(&y),
                "{key:?} has a point outside the unit square: {x} {y}"
            );
            checked += 1;
        }
    }
    checked
}

#[test]
fn every_point_of_every_chrome_icon_is_inside_the_unit_square() {
    let mut checked = 0usize;
    for key in all_chrome_keys() {
        checked += assert_inside(key, &ui_icon(key));
    }
    assert!(checked > 100, "the chrome icon set lost its geometry");
}

#[test]
fn every_point_of_every_icon_is_inside_the_unit_square() {
    let mut checked = 0usize;
    for key in TOOL_KEYS {
        let icon = icon_for(key);
        assert!(!icon.prims.is_empty(), "{key:?}");
        checked += assert_inside(key, &icon);
    }
    assert!(checked > 100, "the icon set lost its geometry");
}

#[test]
fn an_unrecognised_key_falls_back_visibly_rather_than_to_nothing() {
    assert!(ui_icon("no-such-chrome-icon").is_unknown());
    let icon = icon_for("no-such-icon");
    assert!(icon.is_unknown());
    assert!(
        !icon.prims.is_empty(),
        "the fallback must still draw something"
    );
}

#[test]
fn the_anchor_block_is_a_filled_mark() {
    let icon = ui_icon("anchor-block");
    assert!(matches!(icon.prims.as_slice(), [Prim::Fill(_)]));
    assert!(icon.is_solid());
    assert!(!ui_icon("close").is_solid());
}

fn spot(s: &Spot) -> [f32; 2] {
    [f32::from(s.x) / 1000.0, f32::from(s.y) / 1000.0]
}

fn dist(a: &Spot, b: &Spot) -> f32 {
    let (a, b) = (spot(a), spot(b));
    ((a[0] - b[0]).powi(2) + (a[1] - b[1]).powi(2)).sqrt()
}

/// The ink measure in the machine's own arithmetic.
fn native_ink(icon: &Icon, side_pt: f32, width: f32) -> f32 {
    let side = side_pt.max(1.0);
    let mut sum = 0.0f32;
    for prim in &icon.prims {
        sum += match prim {
            Prim::Line(a, b) => {
                let d = dist(a, b) * side;
                d * width + width * width
            }
            Prim::Poly(points, closed) => {
                let n = points.len();
                let mut total = 0.0f32;
                for i in 0..n - 1 {
                    total += dist(&points[i], &points[i + 1]) * side * width;
                }
                if *closed {
                    total += dist(&points[n - 1], &points[0]) * side * width;
                }
                total + n as f32 * 0.5 * width * width
            }
            Prim::Fill(points) => {
                let n = points.len();
                let mut twice = 0.0f32;
                for i in 0..n {
                    let (a, b) = (spot(&points[i]), spot(&points[(i + 1) % n]));
                    twice += a[0] * b[1] - b[0] * a[1];
                }
                (twice.abs() * 0.5) * side * side
            }
            Prim::Circle(_, r) => {
                let r = f32::from(*r) / 1000.0;
                2.0 * std::f32::consts::PI * r * side * width + width * width
            }
            Prim::Dot(_, r) => {
                let r = f32::from(*r) / 1000.0;
                std::f32::consts::PI * (r * side).powi(2)
            }
        };
    }
    sum
}

#[test]
fn the_ink_measure_is_the_machines_own() {
    for key in all_chrome_keys() {
        let icon = ui_icon(key);
        for (side, width) in [(16.0, 1.5), (24.0, 2.0), (0.5, 1.0), (f32::NAN, 1.25)] {
            let got = icon.ink_area(num(side), num(width));
            assert_eq!(got, num(native_ink(&icon, side, width)), "{key} {side}");
        }
    }
    for key in TOOL_KEYS {
        let icon = icon_for(key);
        let got = icon.ink_area(num(16.0), num(1.5));
        assert_eq!(got, num(native_ink(&icon, 16.0, 1.5)), "{key}");
        assert!(value(got) > 0.0);
    }
}

#[test]
fn a_minus_lays_down_its_length_times_its_width() {
    // 0.6 of a 10 pt square at 2 pt: 6 * 2, and the caps' 2 * 2.
    let ink = value(ui_icon("minus").ink_area(num(10.0), num(2.0)));
    assert!((ink - 16.0).abs() < 1e-4, "{ink}");
}

#[test]
fn a_zero_sized_rect_has_no_place_for_a_drawing() {
    let center = Point {
        x: num(12.0),
        y: num(12.0),
    };
    assert!(place(center, num(0.0), num(0.0), num(1.5)).is_none());
    let placed = place(center, num(24.0), num(24.0), num(1.5)).expect("room");
    assert_eq!(value(placed.side), 22.5);
    assert_eq!(value(placed.origin.x), 0.75);
    let middle = placed.locate(Spot { x: 500, y: 500 });
    assert_eq!((value(middle.x), value(middle.y)), (12.0, 12.0));
}

#[test]
fn a_list_that_breaks_off_keeps_its_whole_strokes() {
    let prims = decode(&[4, 500, 500, 100, 5, 1, 2, 3, 4, 0, 9, 1, 1]);
    assert_eq!(
        prims,
        vec![
            Prim::Dot(Spot { x: 500, y: 500 }, 100),
            Prim::Line(Spot { x: 1, y: 2 }, Spot { x: 3, y: 4 }),
        ]
    );
}

#[test]
fn no_icon_is_empty() {
    for key in TOOL_KEYS {
        assert!(!icon_for(key).prims.is_empty(), "{key:?}");
    }
}

#[test]
fn a_polyline_has_at_least_two_points() {
    for key in TOOL_KEYS {
        for prim in &icon_for(key).prims {
            if let Prim::Poly(p, _) = prim {
                assert!(p.len() >= 2, "{key:?} has a one-point polyline");
            }
        }
    }
}

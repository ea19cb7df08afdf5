use raster_ui::dialogs::csv::parse_csv;
use raster_ui::dialogs::new_document::NewDocumentDialog;
use raster_ui::dialogs::preferences::{PrefControl, PrefsSection};
use raster_ui::dialogs::preset_manager::{PresetEntry, PresetKind, PresetLibrary};
use raster_ui::dialogs::refine_mask::{composite_preview, PreviewBackground};
use raster_ui::dialogs::resize_images::fitted_size;
use raster_ui::dialogs::selection_name::SaveSelectionDialog;
use raster_ui::dialogs::units::{ResolutionUnit, Unit};
use raster_ui::dialogs::variables::{
    VariableKind, VariableLayer, VariablesDialog, VariablesPage,
};
use raster_ui::ieee::Real64;
use raster_ui::layer_id::LayerId;

fn num(value: f64) -> Real64 {
    Real64::from_bits(value.to_bits())
}

fn value(number: Real64) -> f64 {
    f64::from_bits(number.bits)
}

/// Five parts in 2^53.
fn nearly(a: f64, b: f64) -> bool {
    (a - b).abs() <= a.abs() * 5.0 / 9_007_199_254_740_992.0
}

#[test]
fn lengths_come_back_from_pixels_within_five_parts() {
    for unit in Unit::ALL {
        for v in [0.5, 1.0, 7.25, 1234.5, -3.7, 1.0e-9, 6.02e23] {
            for ppi in [1.0, 72.0, 118.11, 300.0, 9999.9] {
                let px = unit.to_pixels(num(v), num(ppi), num(801.3));
                let back = value(unit.from_pixels(px, num(ppi), num(801.3)));
                assert!(nearly(v, back), "{unit:?} {v} at {ppi}: {back}");
                let w = unit.from_pixels(num(v), num(ppi), num(801.3));
                let px = value(unit.to_pixels(w, num(ppi), num(801.3)));
                assert!(nearly(v, px), "{unit:?} {v} px at {ppi}: {px}");
            }
        }
    }
}

#[test]
fn resolutions_come_back_within_five_parts() {
    for unit in ResolutionUnit::ALL {
        for v in [1.0, 72.0, 118.11, 300.0, 10_000.0] {
            assert!(nearly(v, value(unit.to_ppi(unit.from_ppi(num(v))))));
            assert!(nearly(v, value(unit.from_ppi(unit.to_ppi(num(v))))));
        }
    }
}

#[test]
fn whole_sizes_keep_their_pixels_in_every_unit() {
    for (w, h) in [(2.0, 3.0), (1920.0, 1080.0), (299_999.0, 300_000.0)] {
        for ppi in [1.0, 49.0, 72.0, 77.0, 300.0, 1200.0] {
            let mut dialog = NewDocumentDialog::default();
            dialog.set_unit(Unit::Pixels);
            dialog.set_resolution(num(ppi));
            dialog.set_width(num(w));
            dialog.set_height(num(h));
            for unit in NewDocumentDialog::units() {
                dialog.set_unit(unit);
                assert_eq!(dialog.pixel_width(), w as u32, "{unit:?} at {ppi}");
                assert_eq!(dialog.pixel_height(), h as u32, "{unit:?} at {ppi}");
            }
        }
    }
}

#[test]
fn a_single_pixel_can_fall_short_of_one() {
    let mut dialog = NewDocumentDialog::default();
    dialog.set_unit(Unit::Pixels);
    dialog.set_resolution(num(49.0));
    dialog.set_width(num(1.0));
    assert_eq!(dialog.pixel_width(), 1);
    dialog.set_unit(Unit::Inches);
    assert_eq!(dialog.pixel_width(), 0);
}

#[test]
fn the_ends_of_the_coverage_are_the_content_and_the_backdrop() {
    for ink in 0..=255u8 {
        let content = vec![ink, 255 - ink, ink / 2, 255];
        for background in PreviewBackground::ALL {
            let shown = composite_preview(&content, &vec![255], 1, 1, background);
            assert_eq!(shown, content);
            let hidden = composite_preview(&content, &vec![0], 1, 1, background);
            let clear = composite_preview(&vec![ink, ink, ink, 0], &vec![255], 1, 1, background);
            let black = composite_preview(&vec![0, 0, 0, 0], &vec![0], 1, 1, background);
            assert_eq!(hidden, black);
            assert_eq!(clear, black);
        }
    }
}

fn entry(name: &str, data: &str) -> PresetEntry {
    PresetEntry {
        name: name.to_string(),
        data: data.to_string(),
    }
}

fn brushes(entries: &[(&str, &str)]) -> PresetLibrary {
    PresetLibrary {
        brushes: entries.iter().map(|(n, d)| entry(n, d)).collect(),
        ..PresetLibrary::default()
    }
}

fn pairs(library: &PresetLibrary) -> Vec<(String, String)> {
    library
        .list(PresetKind::Brushes)
        .iter()
        .map(|e| (e.name.clone(), e.data.clone()))
        .collect()
}

fn expected(entries: &[(&str, &str)]) -> Vec<(String, String)> {
    entries
        .iter()
        .map(|(n, d)| (n.to_string(), d.to_string()))
        .collect()
}

#[test]
fn editing_a_library_loses_nothing() {
    let mut library = brushes(&[("a", "1"), ("b", "2"), ("c", "3")]);
    assert!(library.rename(PresetKind::Brushes, 1, " x "));
    assert_eq!(pairs(&library), expected(&[("a", "1"), ("x", "2"), ("c", "3")]));
    assert!(library.reorder(PresetKind::Brushes, 0, 2));
    assert_eq!(pairs(&library), expected(&[("x", "2"), ("c", "3"), ("a", "1")]));
    assert!(library.reorder(PresetKind::Brushes, 2, 0));
    assert_eq!(pairs(&library), expected(&[("a", "1"), ("x", "2"), ("c", "3")]));
    assert!(library.delete(PresetKind::Brushes, 1).is_some());
    assert_eq!(pairs(&library), expected(&[("a", "1"), ("c", "3")]));
}

#[test]
fn an_import_replaces_by_name_and_appends_the_rest() {
    let mut library = brushes(&[("a", "1"), ("b", "2")]);
    let incoming = brushes(&[("b", "9"), (" ", "0"), ("z", "5"), ("z", "6")]);
    assert_eq!(library.merge(incoming), 3);
    assert_eq!(pairs(&library), expected(&[("a", "1"), ("b", "9"), ("z", "6")]));
}

#[test]
fn proposed_variable_names_are_names() {
    let layers = ["Title 1", "__", "", "-badge-", "\u{e9}t\u{e9}"]
        .iter()
        .enumerate()
        .map(|(i, name)| VariableLayer {
            layer: LayerId { number: i as u128 },
            name: name.to_string(),
            is_text: true,
        })
        .collect();
    let dialog = VariablesDialog::new(VariablesPage::Define, layers, &Vec::new(), Vec::new());
    let names: Vec<&str> = (0..dialog.row_count())
        .map(|i| dialog.row_binding(i, VariableKind::Text).unwrap().1)
        .collect();
    assert_eq!(
        names,
        ["Title_1", "variable", "variable", "badge", "\u{e9}t\u{e9}"]
    );
    assert_eq!(
        dialog.row_binding(0, VariableKind::Visibility),
        Some((false, "Title_1_visible"))
    );
    assert_eq!(dialog.row_layer(3), Some(("-badge-", true)));
    assert_eq!(dialog.row_binding(5, VariableKind::Text), None);
}

#[test]
fn merging_twice_merges_once_and_nothing_merges_to_nothing() {
    let mut library = brushes(&[("a", "1"), ("b", "2"), ("b", "3")]);
    let incoming = brushes(&[("b", "8"), ("z", "5"), (" ", "0"), ("b", "9"), ("z", "6")]);
    assert_eq!(library.merge(incoming.clone()), 4);
    let once = library.clone();
    assert_eq!(
        pairs(&once),
        expected(&[("a", "1"), ("b", "9"), ("b", "3"), ("z", "6")])
    );
    assert_eq!(library.merge(incoming), 4);
    assert_eq!(library, once);
    assert_eq!(library.merge(PresetLibrary::default()), 0);
    assert_eq!(library, once);
}

#[test]
fn a_fitted_image_is_as_wide_or_as_tall_as_its_box() {
    let sides = [1u32, 2, 3, 7, 99, 640, 1081, 65_535, 4_294_967_295];
    for w in sides {
        for h in sides {
            for (mw, mh) in [(1, 1), (300, 200), (1920, 1080), (4_294_967_295, 5)] {
                let (fw, fh) = fitted_size(w, h, mw, mh, true);
                assert!(fw <= mw && fh <= mh, "{w}x{h} left {mw}x{mh}");
                assert!(fw == mw || fh == mh, "{w}x{h} falls short of {mw}x{mh}");
                if w > mw || h > mh {
                    assert_eq!(fitted_size(w, h, mw, mh, false), (fw, fh));
                } else {
                    assert_eq!(fitted_size(w, h, mw, mh, false), (w, h));
                }
            }
        }
    }
}

#[test]
fn the_preview_lies_between_the_content_and_the_backdrop() {
    for background in PreviewBackground::ALL {
        let bare = composite_preview(&vec![0, 0, 0, 0], &vec![0], 1, 1, background);
        for ink in (0..=255u8).step_by(5) {
            for alpha in (0..=255u8).step_by(15) {
                for coverage in (0..=255u8).step_by(15) {
                    let content = vec![ink, ink, ink, alpha];
                    let shown = composite_preview(&content, &vec![coverage], 1, 1, background);
                    for channel in 0..3 {
                        let low = ink.min(bare[channel]);
                        let high = ink.max(bare[channel]);
                        assert!((low..=high).contains(&shown[channel]));
                    }
                    assert_eq!(shown[3], 255);
                }
            }
        }
    }
}

#[test]
fn quoted_rows_come_back_whatever_their_line_ends() {
    let want = vec![
        vec!["a,b".to_string(), "say \"hi\"".to_string()],
        vec!["two\nlines".to_string()],
        vec![String::new(), " ".to_string()],
    ];
    let row = |fields: &Vec<String>| {
        let quoted: Vec<String> = fields
            .iter()
            .map(|f| format!("\"{}\"", f.replace('"', "\"\"")))
            .collect();
        quoted.join(",")
    };
    let lines: Vec<String> = want.iter().map(row).collect();
    for (first, second) in [("\n", "\n"), ("\r\n", "\n"), ("\n", "\r\n"), ("\r\n", "\r\n")] {
        for last in ["", "\n", "\r\n"] {
            let text = format!("{}{first}{}{second}{}{last}", lines[0], lines[1], lines[2]);
            assert_eq!(parse_csv(&text).unwrap(), want);
        }
    }
}

#[test]
fn a_blank_name_and_a_taken_one_are_refused_in_their_own_words() {
    let mut dialog = SaveSelectionDialog::new(vec!["Sky".to_string()]);
    dialog.set_name(" \t".to_string());
    let blank = dialog.blocked_reason().unwrap();
    assert!(dialog.confirm().is_none());
    dialog.set_name(" Sky ".to_string());
    let taken = dialog.blocked_reason().unwrap();
    assert!(dialog.confirm().is_none());
    assert_ne!(blank, taken);
    dialog.set_name(" Sea ".to_string());
    assert!(dialog.blocked_reason().is_none());
    assert_eq!(dialog.confirm().unwrap().name, "Sea");
}

#[test]
fn the_sections_draw_every_control_once() {
    let drawn: Vec<PrefControl> = PrefsSection::ALL
        .into_iter()
        .flat_map(PrefControl::in_section)
        .collect();
    assert_eq!(drawn, PrefControl::ALL);
}

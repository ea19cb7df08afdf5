use raster_ui::dialogs::chrome::{DialogButton, DialogKeys, DialogOutcome};
use raster_ui::dialogs::new_document::{
    BackgroundContents, BitDepth, ColorMode, DocumentPreset, NewDocumentDialog, PresetGroup,
    MAX_DIMENSION, MAX_PIXELS, PRESET_COUNT,
};
use raster_ui::dialogs::new_guide::{NewGuideDialog, Orientation};
use raster_ui::dialogs::new_guide_layout::{
    Divisions, GuideLayoutSpec, Margins, NewGuideLayoutDialog,
};
use raster_ui::dialogs::pdf_import::{PdfImportDialog, PdfImportSpec, PdfOpenMode, PdfPageThumb};
use raster_ui::dialogs::units::ResolutionUnit;
use raster_ui::guides::{Guide, GuideAxis, Guides};
use raster_ui::ieee::{Real32, Real64};
use raster_ui::rgba::Rgba;

const CONFIRM: DialogKeys = DialogKeys {
    confirm: true,
    cancel: false,
};
const CANCEL: DialogKeys = DialogKeys {
    confirm: false,
    cancel: true,
};

fn num(value: f32) -> Real32 {
    Real32::from_bits(value.to_bits())
}

fn value(number: Real32) -> f32 {
    f32::from_bits(number.bits)
}

fn wide(value: f64) -> Real64 {
    Real64::from_bits(value.to_bits())
}

fn wide_value(number: Real64) -> f64 {
    f64::from_bits(number.bits)
}

fn rgba(channels: [f32; 4]) -> Rgba {
    Rgba {
        red: num(channels[0]),
        green: num(channels[1]),
        blue: num(channels[2]),
        alpha: num(channels[3]),
    }
}

#[test]
fn the_default_is_a_real_document() {
    let dialog = NewDocumentDialog::default();
    assert!(dialog.spec().is_valid());
    assert_eq!(dialog.pixel_width(), 1920);
    assert_eq!(dialog.pixel_height(), 1080);
}

#[test]
fn every_preset_resolves_to_a_creatable_document() {
    for index in 0..PRESET_COUNT {
        let preset = DocumentPreset::at(index).expect("a preset");
        let mut dialog = NewDocumentDialog::default();
        dialog.apply_preset(index);
        let spec = dialog.spec();
        assert!(
            spec.is_valid(),
            "preset {index} ({}) resolved to {}x{}",
            preset.name,
            spec.width,
            spec.height
        );
    }
    assert!(DocumentPreset::at(PRESET_COUNT).is_none());
}

#[test]
fn a4_at_300ppi_is_the_size_a_print_shop_expects() {
    let index = (0..PRESET_COUNT)
        .position(|i| DocumentPreset::at(i).unwrap().name == "A4")
        .unwrap();
    let mut dialog = NewDocumentDialog::default();
    dialog.apply_preset(index);
    // 210 mm = 8.2677 in -> 2480 px; 297 mm = 11.6929 in -> 3508 px.
    assert_eq!(dialog.pixel_width(), 2480);
    assert_eq!(dialog.pixel_height(), 3508);
    assert_eq!(wide_value(dialog.resolution_ppi()), 300.0);
}

#[test]
fn switching_units_keeps_the_pixel_size() {
    let mut dialog = NewDocumentDialog::default();
    let (w, h) = (dialog.pixel_width(), dialog.pixel_height());
    for unit in NewDocumentDialog::units() {
        dialog.set_unit(unit);
        assert_eq!(
            dialog.pixel_width(),
            w,
            "width changed switching to {unit:?}"
        );
        assert_eq!(
            dialog.pixel_height(),
            h,
            "height changed switching to {unit:?}"
        );
    }
}

#[test]
fn switching_the_resolution_unit_keeps_the_resolution() {
    let mut dialog = NewDocumentDialog::default();
    dialog.set_resolution(wide(300.0));
    dialog.set_resolution_unit(ResolutionUnit::PerCentimeter);
    assert!((wide_value(dialog.resolution_ppi()) - 300.0).abs() < 1e-9);
    assert!((wide_value(dialog.resolution().0) - 300.0 / 2.54).abs() < 1e-9);
}

#[test]
fn editing_a_field_drops_the_preset_highlight() {
    let mut dialog = NewDocumentDialog::default();
    assert!(dialog.preset().is_some());
    dialog.set_pixel_width(wide(640.0));
    assert!(dialog.preset().is_none());
    assert_eq!(dialog.pixel_width(), 640);
}

#[test]
fn swapping_orientation_exchanges_the_sides() {
    let mut dialog = NewDocumentDialog::default();
    let (w, h) = (dialog.pixel_width(), dialog.pixel_height());
    dialog.swap_orientation();
    assert_eq!((dialog.pixel_width(), dialog.pixel_height()), (h, w));
}

#[test]
fn an_unsupported_colour_mode_is_refused_and_says_why() {
    let mut dialog = NewDocumentDialog::default();
    assert!(!dialog.set_color_mode(ColorMode::Cmyk));
    assert_eq!(dialog.spec().color_mode, ColorMode::Rgb);
    assert!(ColorMode::Cmyk.unavailable().is_some());
    assert!(ColorMode::Rgb.unavailable().is_none());
}

#[test]
fn a_zero_size_blocks_confirm_and_explains_itself() {
    let mut dialog = NewDocumentDialog::default();
    dialog.set_pixel_width(wide(0.0));
    assert!(dialog.confirm().is_none());
    assert!(dialog
        .blocked_reason()
        .unwrap()
        .contains("at least 1 pixel"));
}

#[test]
fn an_absurd_area_is_refused() {
    let mut dialog = NewDocumentDialog::default();
    dialog.set_pixel_width(wide(200_000.0));
    dialog.set_pixel_height(wide(200_000.0));
    assert!(dialog.confirm().is_none());
    assert!(dialog.blocked_reason().unwrap().contains("pixel limit"));
}

#[test]
fn the_dialog_cannot_describe_a_document_the_engine_refuses() {
    // The engine takes sides up to 300000 pixels and a billion pixels in all.
    assert_eq!(MAX_DIMENSION, 300_000);
    assert_eq!(MAX_PIXELS, 1_000_000_000);

    let mut dialog = NewDocumentDialog::default();
    // Every size at, just under, and just over each edge of the dialog's own
    // rules, checked against the engine's.
    for (w, h) in [
        (1.0, 1.0),
        (1920.0, 1080.0),
        (f64::from(MAX_DIMENSION), 3_333.0),
        (f64::from(MAX_DIMENSION) + 1.0, 1.0),
        (31_622.0, 31_622.0),
        (31_624.0, 31_624.0),
        (200_000.0, 200_000.0),
    ] {
        dialog.set_pixel_width(Real64::from_bits(f64::to_bits(w)));
        dialog.set_pixel_height(Real64::from_bits(f64::to_bits(h)));
        let spec = dialog.spec();
        if spec.is_valid() {
            assert!(
                (1..=300_000).contains(&spec.width)
                    && (1..=300_000).contains(&spec.height)
                    && u64::from(spec.width) * u64::from(spec.height) <= 1_000_000_000,
                "the dialog would create {}x{}, which the engine refuses",
                spec.width,
                spec.height
            );
            assert!(dialog.confirm().is_some());
        } else {
            assert!(
                dialog.confirm().is_none(),
                "an invalid spec must not be confirmable"
            );
            assert!(dialog.blocked_reason().is_some(), "and must say why");
        }
    }
}

#[test]
fn backgrounds_resolve_to_the_right_fill() {
    assert_eq!(
        BackgroundContents::White.fill(),
        Some(rgba([1.0, 1.0, 1.0, 1.0]))
    );
    assert_eq!(
        BackgroundContents::Black.fill(),
        Some(rgba([0.0, 0.0, 0.0, 1.0]))
    );
    assert_eq!(BackgroundContents::Transparent.fill(), None);
    assert_eq!(
        BackgroundContents::Custom(rgba([0.2, 0.4, 0.6, 0.5])).fill(),
        Some(rgba([0.2, 0.4, 0.6, 0.5]))
    );
}

#[test]
fn a_sixteen_bit_document_is_refused_until_live_compositing_handles_it() {
    let mut dialog = NewDocumentDialog::default();
    dialog.set_bit_depth(BitDepth::Sixteen);
    let reason = dialog.blocked_reason().expect("16-bit creation is refused");
    assert!(reason.contains("16-bit"), "{reason}");
    let outcome = dialog.outcome(false, CONFIRM, None);
    assert!(
        matches!(outcome, DialogOutcome::Open),
        "a blocked dialog must not confirm: {outcome:?}"
    );
}

#[test]
fn the_memory_estimate_scales_with_area_and_depth() {
    let mut dialog = NewDocumentDialog::default();
    dialog.set_pixel_width(wide(100.0));
    dialog.set_pixel_height(wide(100.0));
    assert_eq!(dialog.spec().flat_bytes(), 100 * 100 * 4);
    dialog.set_bit_depth(BitDepth::Sixteen);
    assert_eq!(dialog.spec().flat_bytes(), 100 * 100 * 4 * 2);
}

#[test]
fn a_background_choice_survives_a_trip_through_transparent_and_back() {
    let custom = BackgroundContents::Custom(rgba([0.2, 0.4, 0.6, 1.0]));
    for choice in [BackgroundContents::Black, custom] {
        let mut dialog = NewDocumentDialog::default();
        dialog.set_background(choice);
        let before = dialog.spec().background;
        dialog.set_background(BackgroundContents::Transparent);
        assert_eq!(dialog.spec().background, BackgroundContents::Transparent);
        dialog.set_background(before);
        assert_eq!(
            dialog.spec().background,
            before,
            "{choice:?} did not come back"
        );
        assert_ne!(
            dialog.spec().background,
            BackgroundContents::White,
            "{choice:?} collapsed to White"
        );
    }
}

#[test]
fn choosing_custom_from_the_menu_brings_its_colour_back() {
    let mut dialog = NewDocumentDialog::default();
    let chosen = rgba([0.9, 0.3, 0.1, 1.0]);
    dialog.set_background(BackgroundContents::Custom(chosen));
    assert_eq!(dialog.custom_background(), chosen);
    dialog.choose_background(BackgroundContents::Black);
    dialog.choose_background(BackgroundContents::Custom(Rgba::white()));
    assert_eq!(dialog.spec().background.fill(), Some(chosen));
}

#[test]
fn a_nested_picker_swallows_the_keys() {
    let dialog = NewDocumentDialog::default();
    assert!(dialog.outcome(true, CONFIRM, None).is_open());
    assert!(dialog.outcome(true, CANCEL, None).is_open());
    assert!(matches!(
        dialog.outcome(false, CONFIRM, None),
        DialogOutcome::Confirmed(_)
    ));
    assert_eq!(
        dialog.outcome(false, CANCEL, None),
        DialogOutcome::Cancelled
    );
    assert_eq!(
        dialog.outcome(false, CONFIRM, Some(DialogButton::Cancel)),
        DialogOutcome::Cancelled,
        "a button that was pressed decides"
    );
}

fn seeded() -> NewGuideDialog {
    NewGuideDialog::new(
        Guides {
            list: vec![Guide {
                axis: GuideAxis::Vertical,
                doc: num(5.0),
                locked: true,
            }],
            visible: true,
            locked: false,
        },
        (64, 32),
    )
}

#[test]
fn confirming_appends_one_guide_to_the_set_it_was_seeded_with() {
    let mut dialog = seeded();
    dialog.set_orientation(Orientation::Vertical);
    dialog.set_position(wide(20.0));
    let guides = dialog.confirm().expect("a finite position");
    assert_eq!(guides.list.len(), 2, "the existing guide is kept");
    assert_eq!(guides.list[1].axis, GuideAxis::Vertical);
    assert_eq!(value(guides.list[1].doc), 20.0);
    assert!(!guides.list[1].locked);
    assert!(guides.list[0].locked, "the seeded guide is untouched");
}

#[test]
fn a_non_finite_position_is_blocked_with_a_reason() {
    let mut dialog = seeded();
    dialog.set_position(wide(f64::NAN));
    assert_eq!(dialog.confirm(), None);
    assert_eq!(
        dialog.blocked_reason().as_deref(),
        Some("The position must be a finite number")
    );
}

#[test]
fn new_guide_resolve_confirms_on_enter_and_cancels_on_escape() {
    let dialog = seeded();
    assert!(matches!(
        dialog.resolve(CONFIRM),
        DialogOutcome::Confirmed(_)
    ));
    assert_eq!(dialog.resolve(CANCEL), DialogOutcome::Cancelled);
}

fn lines(guides: &[Guide], axis: GuideAxis) -> Vec<f32> {
    guides
        .iter()
        .filter(|g| g.axis == axis)
        .map(|g| value(g.doc))
        .collect()
}

fn divisions(count: i64, gutter: f64) -> Divisions {
    Divisions {
        enabled: true,
        count,
        gutter: wide(gutter),
    }
}

fn no_guides() -> Guides {
    Guides {
        list: Vec::new(),
        visible: true,
        locked: false,
    }
}

#[test]
fn two_columns_with_a_gutter_put_a_guide_on_every_column_edge() {
    let spec = GuideLayoutSpec {
        columns: divisions(2, 20.0),
        ..GuideLayoutSpec::default()
    };
    let g = spec.guides((220, 100)).unwrap();
    assert_eq!(
        lines(&g, GuideAxis::Vertical),
        vec![0.0, 100.0, 120.0, 220.0]
    );
    assert!(
        lines(&g, GuideAxis::Horizontal).is_empty(),
        "rows are off"
    );
}

#[test]
fn margins_inset_the_layout_and_add_their_own_lines_once() {
    let spec = GuideLayoutSpec {
        columns: divisions(1, 0.0),
        rows: divisions(2, 0.0),
        margins: Margins {
            enabled: true,
            top: wide(10.0),
            left: wide(20.0),
            bottom: wide(30.0),
            right: wide(40.0),
        },
        clear_existing: false,
    };
    let g = spec.guides((200, 140)).unwrap();
    // The single column's edges are the margins' lines: placed once.
    assert_eq!(lines(&g, GuideAxis::Vertical), vec![20.0, 160.0]);
    assert_eq!(lines(&g, GuideAxis::Horizontal), vec![10.0, 60.0, 110.0]);
}

#[test]
fn the_margins_lines_come_behind_the_columns_and_the_rows() {
    let spec = GuideLayoutSpec {
        columns: Divisions {
            enabled: false,
            ..divisions(1, 0.0)
        },
        rows: divisions(1, 0.0),
        margins: Margins {
            enabled: true,
            top: wide(10.0),
            left: wide(20.0),
            bottom: wide(30.0),
            right: wide(40.0),
        },
        clear_existing: false,
    };
    let placed: Vec<(GuideAxis, f32, bool)> = spec
        .guides((200, 140))
        .unwrap()
        .iter()
        .map(|g| (g.axis, f32::from_bits(g.doc.bits), g.locked))
        .collect();
    assert_eq!(
        placed,
        vec![
            (GuideAxis::Horizontal, 10.0, false),
            (GuideAxis::Horizontal, 110.0, false),
            (GuideAxis::Vertical, 20.0, false),
            (GuideAxis::Vertical, 160.0, false),
        ]
    );
}

#[test]
fn gutters_that_leave_no_room_block_the_dialog_with_a_reason() {
    let mut dialog = NewGuideLayoutDialog::new(no_guides(), (100, 100));
    dialog.set_spec(GuideLayoutSpec {
        columns: divisions(10, 20.0),
        ..GuideLayoutSpec::default()
    });
    assert_eq!(dialog.confirm(), None);
    assert_eq!(
        dialog.blocked_reason().as_deref(),
        Some("The margins and gutters leave no room for a column or a row")
    );
}

#[test]
fn confirming_adds_to_the_existing_set_or_replaces_it() {
    let existing = Guides {
        list: vec![Guide {
            axis: GuideAxis::Horizontal,
            doc: num(7.0),
            locked: true,
        }],
        visible: true,
        locked: false,
    };
    let mut dialog = NewGuideLayoutDialog::new(existing, (640, 64));
    let placed = dialog.confirm().expect("room for eight columns");
    assert_eq!(value(placed.list[0].doc), 7.0, "the existing guide is kept");
    assert_eq!(placed.list.len(), 1 + 16, "8 columns, 2 edges each");
    let mut spec = dialog.spec();
    spec.clear_existing = true;
    dialog.set_spec(spec);
    let replaced = dialog.guides_after().unwrap();
    assert_eq!(replaced.list.len(), 16);
    assert!(replaced.visible, "the set's own flags are kept");
}

fn thumbs(n: usize) -> Vec<PdfPageThumb> {
    (0..n)
        .map(|i| PdfPageThumb {
            width_pt: num(100.0 + i as f32),
            height_pt: num(50.0),
            width: 8,
            height: 4,
            rgba: vec![200; 8 * 4 * 4],
        })
        .collect()
}

#[test]
fn it_opens_on_every_page_at_72_dpi_as_artboards() {
    let dialog = PdfImportDialog::new("a.pdf".to_string(), 3, thumbs(3));
    assert_eq!(
        dialog.confirm(),
        Some(PdfImportSpec {
            pages: vec![0, 1, 2],
            dpi: 72,
            mode: PdfOpenMode::Artboards,
        })
    );
    assert_eq!(dialog.pixel_size(1), Some((101, 50)));
}

#[test]
fn nothing_chosen_or_a_bad_resolution_blocks_with_a_reason() {
    let mut dialog = PdfImportDialog::new("a.pdf".to_string(), 3, thumbs(3));
    dialog.select_all(false);
    assert_eq!(dialog.confirm(), None);
    assert_eq!(
        dialog.blocked_reason().as_deref(),
        Some("Choose at least one page to open")
    );
    assert!(dialog.resolve(CONFIRM).is_open());
    dialog.select(2, true);
    dialog.set_dpi(5000);
    assert_eq!(
        dialog.blocked_reason().as_deref(),
        Some("The resolution must be 18 to 1200 dpi")
    );
    dialog.set_dpi(144);
    dialog.set_mode(PdfOpenMode::SeparateDocuments);
    assert_eq!(
        dialog.resolve(CONFIRM),
        DialogOutcome::Confirmed(PdfImportSpec {
            pages: vec![2],
            dpi: 144,
            mode: PdfOpenMode::SeparateDocuments,
        })
    );
    assert_eq!(dialog.pixel_size(2), Some((204, 100)));
    assert_eq!(dialog.resolve(CANCEL), DialogOutcome::Cancelled);
}

#[test]
fn clicking_a_page_thumbnail_drops_it_and_clicking_again_takes_it_back() {
    let mut dialog = PdfImportDialog::new("a.pdf".to_string(), 3, thumbs(3));
    dialog.toggle(1);
    assert!(dialog.is_selected(0) && !dialog.is_selected(1) && dialog.is_selected(2));
    dialog.toggle(1);
    assert!(dialog.is_selected(1));
}

#[test]
fn the_captions_name_the_file_and_what_is_listed() {
    let all = PdfImportDialog::new("a.pdf".to_string(), 3, thumbs(3));
    assert_eq!(all.file_caption(), "a.pdf: 3 pages");
    assert_eq!(all.listed_caption(), None);
    let some = PdfImportDialog::new("b.pdf".to_string(), 120, thumbs(3));
    assert_eq!(
        some.listed_caption().as_deref(),
        Some("The first 3 of 120 pages are listed")
    );
    assert!(some.pages()[0].is_drawable());
}

#[test]
fn the_new_document_readout_names_the_size_and_the_memory() {
    let dialog = NewDocumentDialog::default();
    assert_eq!(dialog.readout(), "1920 x 1080 px  ·  7.9 MB");
}

#[test]
fn every_preset_sits_on_one_shelf() {
    let mut all: Vec<usize> = PresetGroup::ALL
        .iter()
        .flat_map(|group| DocumentPreset::on_shelf(*group))
        .collect();
    all.sort_unstable();
    let every: Vec<usize> = (0..PRESET_COUNT).collect();
    assert_eq!(all, every);
}

#[test]
fn the_background_menu_matches_its_entries() {
    let menu = BackgroundContents::menu();
    assert_eq!(menu.len(), 4);
    let custom = BackgroundContents::Custom(rgba([0.1, 0.2, 0.3, 1.0]));
    assert_eq!(menu.iter().position(|e| e.same_entry(custom)), Some(3));
    for depth in BitDepth::ALL {
        assert!(!depth.label().is_empty());
    }
}

#[test]
fn a_pdf_page_says_what_size_it_opens_at() {
    let mut dialog = PdfImportDialog::new("a.pdf".to_string(), 3, thumbs(3));
    assert_eq!(dialog.page_label(1), "Page 2");
    dialog.select(0, false);
    assert_eq!(
        dialog.size_caption().as_deref(),
        Some("Page 2 opens at 101 x 50 pixels")
    );
    dialog.select_all(false);
    assert_eq!(dialog.size_caption(), None);
}

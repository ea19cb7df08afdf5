use raster_ui::dialogs::batch::{BatchFolder, BatchFormat};
use raster_ui::dialogs::chrome::{DialogButton, DialogKeys, DialogOutcome};
use raster_ui::dialogs::csv::parse_csv;
use raster_ui::dialogs::profiles::{Dither, IndexedSpec, PaletteKind, ProfileChoice};
use raster_ui::dialogs::rename_layer::RenameLayerDialog;
use raster_ui::dialogs::resize_images::{fitted_size, FolderJob, FolderJobDialog};
use raster_ui::dialogs::scale_effects::ScaleEffectsDialog;
use raster_ui::dialogs::script::{NamedScript, Pressed, ScriptDialog, ScriptLogKind, ScriptOutcome};
use raster_ui::dialogs::selection_modify::{
    ModifySelection, ModifySpec, SelectionModifyDialog, DEFAULT_MODIFY_PX,
};
use raster_ui::dialogs::sizes;
use raster_ui::dialogs::spot_channel::{SpotChannelDialog, DEFAULT_SPOT_INK};
use raster_ui::dialogs::trim::{TrimBasis, TrimDialog, TrimSpec};
use raster_ui::dialogs::variables::{
    data_sets_from_csv, visibility_value, VariableDef, VariableKind, VariableLayer,
    VariablesDialog, VariablesPage, VariablesRequest,
};
use raster_ui::dialogs::vectorize::{VectorizeDialog, VectorizeSpec};
use raster_ui::dialogs::w13f::{
    ConvertProfileDialog, ConvertProfileSpec, ReduceColorsDialog, RenderingIntent, WaveletDialog,
    WaveletSpec,
};
use raster_ui::dialogs::warp_text::{MeshPoint, TextWarp, WarpStyle, WarpTextDialog};
use raster_ui::ieee::{Real32, Real64};
use raster_ui::layer_id::LayerId;
use raster_ui::paths::folders_agree;
use raster_ui::strings::tr;
use std::path::Path;

const CONFIRM: DialogKeys = DialogKeys {
    confirm: true,
    cancel: false,
};
const CANCEL: DialogKeys = DialogKeys {
    confirm: false,
    cancel: true,
};
const BOTH: DialogKeys = DialogKeys {
    confirm: true,
    cancel: true,
};
const IDLE: DialogKeys = DialogKeys {
    confirm: false,
    cancel: false,
};

fn num(value: f32) -> Real32 {
    Real32::from_bits(value.to_bits())
}

fn value(number: Real32) -> f32 {
    f32::from_bits(number.bits)
}

fn wide(value: f64) -> Real64 {
    Real64::from_bits(value.to_bits())
}

fn layer(number: u128) -> LayerId {
    LayerId { number }
}

// Trim.

#[test]
fn the_default_trims_transparent_pixels_from_every_side() {
    let dialog = TrimDialog::default();
    assert_eq!(dialog.confirm(), Some(TrimSpec::default()));
    assert_eq!(dialog.spec().basis, TrimBasis::Transparent);
    assert!(dialog.spec().top && dialog.spec().bottom && dialog.spec().left && dialog.spec().right);
    assert_eq!(dialog.blocked_reason(), None);
}

#[test]
fn a_trim_of_no_side_is_blocked_with_a_reason() {
    let mut dialog = TrimDialog::default();
    dialog.set_spec(TrimSpec {
        top: false,
        bottom: false,
        left: false,
        right: false,
        ..TrimSpec::default()
    });
    assert_eq!(dialog.confirm(), None);
    assert_eq!(
        dialog.blocked_reason().as_deref(),
        Some("Choose at least one side to trim")
    );
    assert!(dialog.resolve(CONFIRM).is_open());
    assert_eq!(dialog.resolve(CANCEL), DialogOutcome::Cancelled);
}

#[test]
fn enter_confirms_the_spec_that_was_set_and_escape_wins() {
    let mut dialog = TrimDialog::default();
    let spec = TrimSpec {
        basis: TrimBasis::TopLeftColor,
        right: false,
        ..TrimSpec::default()
    };
    dialog.set_spec(spec);
    assert_eq!(dialog.resolve(CONFIRM), DialogOutcome::Confirmed(spec));
    assert_eq!(dialog.resolve(BOTH), DialogOutcome::Cancelled);
}

#[test]
fn every_basis_has_a_label() {
    for basis in TrimBasis::ALL {
        assert!(!basis.label().is_empty(), "{basis:?}");
    }
}

// The profile conversion, Reduce Colors and Wavelet Decompose.

#[test]
fn convert_opens_on_another_profile_relative_with_black_point() {
    let dialog = ConvertProfileDialog::new(Some(ProfileChoice::Srgb), "sRGB".to_string());
    let spec = dialog.confirm().expect("live");
    assert_eq!(spec.target, ProfileChoice::AdobeRgb);
    assert_eq!(spec.intent, RenderingIntent::RelativeColorimetric);
    assert!(spec.black_point);
    let other = ConvertProfileDialog::new(Some(ProfileChoice::AdobeRgb), "Adobe".to_string());
    assert_eq!(other.spec().target, ProfileChoice::Srgb);
}

#[test]
fn convert_to_the_documents_own_profile_is_blocked_with_a_reason() {
    let mut dialog = ConvertProfileDialog::new(Some(ProfileChoice::DisplayP3), "P3".to_string());
    dialog.set_spec(ConvertProfileSpec {
        target: ProfileChoice::DisplayP3,
        ..dialog.spec()
    });
    assert_eq!(dialog.confirm(), None);
    assert_eq!(
        dialog.blocked_reason().as_deref(),
        Some("The destination is the profile the document already has")
    );
    assert!(dialog.resolve(CONFIRM).is_open());
    assert_eq!(dialog.resolve(CANCEL), DialogOutcome::Cancelled);
}

#[test]
fn enter_confirms_each_spec_that_was_set() {
    let mut convert = ConvertProfileDialog::new(None, "Custom".to_string());
    let spec = ConvertProfileSpec {
        target: ProfileChoice::ProPhotoRgb,
        intent: RenderingIntent::AbsoluteColorimetric,
        black_point: false,
    };
    convert.set_spec(spec);
    assert_eq!(convert.resolve(CONFIRM), DialogOutcome::Confirmed(spec));

    let mut reduce = ReduceColorsDialog::default();
    assert_eq!(reduce.confirm(), Some(ReduceColorsDialog::default_spec()));
    let spec = IndexedSpec {
        palette: PaletteKind::Uniform,
        colors: 9,
        dither: Dither::Off,
    };
    reduce.set_spec(spec);
    assert_eq!(reduce.resolve(CONFIRM), DialogOutcome::Confirmed(spec));
    reduce.set_spec(IndexedSpec { colors: 1, ..spec });
    assert!(reduce.blocked_reason().is_some());
    assert!(reduce.resolve(CONFIRM).is_open());

    let mut wavelet = WaveletDialog::default();
    assert_eq!(wavelet.confirm(), Some(WaveletSpec { scales: 5 }));
    wavelet.set_spec(WaveletSpec { scales: 3 });
    assert_eq!(
        wavelet.resolve(CONFIRM),
        DialogOutcome::Confirmed(WaveletSpec { scales: 3 })
    );
    wavelet.set_spec(WaveletSpec { scales: 9 });
    assert_eq!(
        wavelet.blocked_reason().as_deref(),
        Some("Wavelet Decompose splits into 2 to 7 scales")
    );
    assert_eq!(wavelet.resolve(BOTH), DialogOutcome::Cancelled);
}

#[test]
fn every_choice_has_a_label() {
    for i in RenderingIntent::ALL {
        assert!(!i.label().is_empty(), "{i:?}");
    }
    for p in ProfileChoice::ALL {
        assert!(!p.label().is_empty(), "{p:?}");
    }
}

#[test]
fn the_opening_conversion_never_keeps_the_profile() {
    for p in ProfileChoice::ALL {
        assert_ne!(ConvertProfileSpec::default_for(Some(p)).target, p);
    }
}

#[test]
fn typed_counts_are_held_to_their_ranges() {
    let mut reduce = ReduceColorsDialog::default();
    reduce.type_colors(1_000_000);
    assert_eq!(reduce.spec().colors, 256);
    reduce.type_colors(-5);
    assert_eq!(reduce.spec().colors, 2);
    let mut wavelet = WaveletDialog::default();
    wavelet.type_scales(100);
    assert_eq!(wavelet.spec().scales, 7);
    wavelet.type_scales(0);
    assert_eq!(wavelet.spec().scales, 2);
}

// Resize Images and Generate Mockups.

#[test]
fn every_string_resolves_through_the_catalogue() {
    for key in [
        "ui.folder_job.resize.title",
        "ui.folder_job.mockups.title",
        "ui.folder_job.resize.subtitle",
        "ui.folder_job.mockups.subtitle",
        "ui.folder_job.need_folders",
        "ui.folder_job.same_folder",
        "ui.folder_job.width",
        "ui.folder_job.height",
        "ui.folder_job.enlarge",
        "ui.folder_job.run",
    ] {
        assert!(!tr(key).is_empty(), "{key} is not in the catalogue");
    }
    assert_eq!(tr("ui.no.such.key"), "");
}

#[test]
fn ok_needs_two_different_folders() {
    let mut d = FolderJobDialog::new(FolderJob::ResizeImages);
    assert!(d.confirm().is_none());
    d.set_folder(BatchFolder::Source, "a".to_string());
    d.set_folder(BatchFolder::Destination, "a".to_string());
    assert!(d.confirm().is_none());
    d.set_folder(BatchFolder::Destination, "b".to_string());
    assert_eq!(d.confirm().unwrap().destination, "b");
}

#[test]
fn one_folder_under_two_spellings_is_refused() {
    let mut d = FolderJobDialog::new(FolderJob::ResizeImages);
    let same = [
        ("pictures", "pictures/"),
        ("a//b", "a/b"),
        ("a/./b", "a/b"),
        ("/a/b/.", "/a//b"),
        ("./a", "./a/"),
        ("/", "//"),
        (".", "./."),
    ];
    for (a, b) in same {
        for (source, destination) in [(a, b), (b, a)] {
            d.set_folder(BatchFolder::Source, source.to_string());
            d.set_folder(BatchFolder::Destination, destination.to_string());
            assert_eq!(
                d.blocked_reason(),
                Some(tr("ui.folder_job.same_folder")),
                "{source} and {destination}"
            );
            assert!(d.confirm().is_none());
            assert!(folders_agree(source, destination));
            assert_eq!(Path::new(source), Path::new(destination));
        }
    }
    let apart = [
        ("a/b", "a/c"),
        ("a", "/a"),
        ("a", "./a"),
        ("a/b", "ab"),
        ("a/..", "a"),
        ("A", "a"),
        ("a/b", "a"),
    ];
    for (a, b) in apart {
        for (source, destination) in [(a, b), (b, a)] {
            d.set_folder(BatchFolder::Source, source.to_string());
            d.set_folder(BatchFolder::Destination, destination.to_string());
            assert_eq!(d.blocked_reason(), None, "{source} and {destination}");
            assert_eq!(d.confirm().unwrap().source, source);
            assert_ne!(Path::new(source), Path::new(destination));
        }
    }
    d.set_folder(BatchFolder::Source, String::new());
    assert_eq!(
        d.blocked_reason(),
        Some(tr("ui.folder_job.need_folders"))
    );
}

#[test]
fn jobs_over_the_same_folders_are_equal_however_they_are_spelled() {
    let mut a = FolderJobDialog::new(FolderJob::GenerateMockups);
    let mut b = FolderJobDialog::new(FolderJob::GenerateMockups);
    assert_eq!(a, b);
    a.set_folder(BatchFolder::Source, "in/".to_string());
    b.set_folder(BatchFolder::Source, "in".to_string());
    assert_eq!(a.spec(), b.spec());
    assert_ne!(a, b, "the fields show different texts");
    b.set_folder(BatchFolder::Destination, "out".to_string());
    assert_ne!(a.spec(), b.spec());
}

#[test]
fn images_fit_the_box_with_their_aspect_kept() {
    assert_eq!(fitted_size(2000, 1000, 500, 500, false), (500, 250));
    assert_eq!(fitted_size(100, 50, 500, 500, false), (100, 50));
    assert_eq!(fitted_size(100, 50, 500, 500, true), (500, 250));
}

#[test]
fn a_fitted_image_never_leaves_its_box() {
    let mut seed: u64 = 7;
    let mut next = || {
        seed = seed
            .wrapping_mul(6_364_136_223_846_793_005)
            .wrapping_add(1_442_695_040_888_963_407);
        (seed >> 33) as u32
    };
    for round in 0..2000u32 {
        let shift = round % 31;
        let (w, h, mw, mh) = (
            next() >> shift,
            next() >> (round % 29),
            next() >> (round % 23),
            next() >> (round % 17),
        );
        for enlarge in [false, true] {
            let (fw, fh) = fitted_size(w, h, mw, mh, enlarge);
            assert!(
                fw >= 1 && fh >= 1 && fw <= mw.max(1) && fh <= mh.max(1),
                "{w}x{h} in {mw}x{mh}: {fw}x{fh}"
            );
            let (a, b) = (f64::from(w.max(1)), f64::from(h.max(1)));
            let mut s = (f64::from(mw.max(1)) / a).min(f64::from(mh.max(1)) / b);
            if !enlarge {
                s = s.min(1.0);
            }
            assert_eq!(fw, ((a * s).round() as u32).max(1));
            assert_eq!(fh, ((b * s).round() as u32).max(1));
        }
        if w >= 1 && h >= 1 && w <= mw && h <= mh {
            assert_eq!(fitted_size(w, h, mw, mh, false), (w, h));
        }
    }
}

#[test]
fn a_folder_is_asked_for_once_and_typed_folders_count() {
    let mut d = FolderJobDialog::new(FolderJob::ResizeImages);
    assert_eq!(d.take_folder_request(), None);
    d.ask_for_folder(BatchFolder::Source);
    assert_eq!(d.take_folder_request(), Some(BatchFolder::Source));
    assert_eq!(d.take_folder_request(), None);
    d.type_folder(BatchFolder::Source, "in".to_string());
    d.type_folder(BatchFolder::Destination, "out".to_string());
    d.set_box(640, 480);
    d.set_enlarge(true);
    let spec = d.confirm().expect("two folders");
    assert_eq!(
        (spec.source.as_str(), spec.max_width, spec.enlarge),
        ("in", 640, true)
    );
}

// Vectorize.

#[test]
fn the_defaults_confirm_and_a_bad_field_blocks() {
    let mut dialog = VectorizeDialog::default();
    assert_eq!(
        dialog.resolve(CONFIRM),
        DialogOutcome::Confirmed(VectorizeSpec::default())
    );
    dialog.set_spec(VectorizeSpec {
        colors: 0,
        ..VectorizeSpec::default()
    });
    assert!(dialog.blocked_reason().is_some());
    dialog.set_spec(VectorizeSpec {
        tolerance: wide(f64::NAN),
        ..VectorizeSpec::default()
    });
    assert!(dialog.resolve(CONFIRM).is_open());
}

// Rename Layer.

#[test]
fn confirming_writes_the_trimmed_name_as_a_property_patch() {
    let id = layer(7);
    let mut dialog = RenameLayerDialog::new(id, "Layer 1".to_string());
    dialog.set_name("  Sky  ".to_string());
    let spec = dialog.confirm().expect("a new name");
    assert_eq!(spec.layer, id);
    assert_eq!(spec.name, "Sky");
}

#[test]
fn a_blank_or_unchanged_name_is_blocked_with_a_reason() {
    let mut dialog = RenameLayerDialog::new(layer(1), "Layer 1".to_string());
    assert_eq!(dialog.confirm(), None);
    assert_eq!(
        dialog.blocked_reason().as_deref(),
        Some("The name has not changed")
    );
    dialog.set_name("   ".to_string());
    assert_eq!(dialog.confirm(), None);
    assert_eq!(
        dialog.blocked_reason().as_deref(),
        Some("The name cannot be empty")
    );
}

#[test]
fn rename_layer_resolve_confirms_on_enter_and_cancels_on_escape() {
    let mut dialog = RenameLayerDialog::new(layer(1), "Layer 1".to_string());
    dialog.set_name("Renamed".to_string());
    assert!(matches!(
        dialog.resolve(CONFIRM),
        DialogOutcome::Confirmed(_)
    ));
    assert_eq!(dialog.resolve(CANCEL), DialogOutcome::Cancelled);
}

// Scale Effects.

#[test]
fn it_opens_at_100_percent_with_preview_on_and_ok_blocked() {
    let dialog = ScaleEffectsDialog::new();
    assert_eq!(dialog.percent(), 100);
    assert!(dialog.preview_enabled());
    assert_eq!(dialog.confirm(), None);
    assert!(dialog.blocked_reason().is_some());
    assert!(dialog.resolve(CONFIRM).is_open());
    assert_eq!(dialog.resolve(CANCEL), DialogOutcome::Cancelled);
}

#[test]
fn any_percent_in_range_confirms_and_the_ends_clamp() {
    let mut dialog = ScaleEffectsDialog::new();
    dialog.set_percent(37);
    assert_eq!(dialog.resolve(CONFIRM), DialogOutcome::Confirmed(37));
    dialog.set_percent(0);
    assert_eq!(dialog.percent(), 1);
    dialog.set_percent(5000);
    assert_eq!(dialog.percent(), 1000);
    assert_eq!(dialog.confirm(), Some(1000));
}

#[test]
fn a_preview_is_wanted_only_while_on_and_stale() {
    let mut dialog = ScaleEffectsDialog::new();
    dialog.set_percent(37);
    assert_eq!(dialog.preview_wanted(), Some(37));
    dialog.set_preview_image(37, vec![0; 4 * 4 * 4], 4, 4);
    assert_eq!(dialog.preview_wanted(), None);
    dialog.set_percent(38);
    assert_eq!(dialog.preview_wanted(), Some(38));
    dialog.set_preview(false);
    assert_eq!(dialog.preview_wanted(), None);
    // A buffer that does not match its size is refused.
    dialog.set_preview_image(38, vec![0; 3], 4, 4);
    assert_eq!(dialog.preview_percent(), Some(37));
}

// Script.

#[test]
fn pressing_run_hands_back_the_source() {
    let mut dialog = ScriptDialog::new(String::new());
    dialog.set_source("alert(1)".to_string());
    assert_eq!(dialog.frame(false, false, None), ScriptOutcome::Open);
    assert_eq!(
        dialog.frame(false, false, Some(Pressed::Run)),
        ScriptOutcome::Run("alert(1)".to_string())
    );
}

#[test]
fn escape_closes_and_enter_does_not_run() {
    let mut dialog = ScriptDialog::new(String::new());
    // Enter is a newline: without Ctrl it reaches the dialog as nothing.
    assert_eq!(dialog.frame(false, false, None), ScriptOutcome::Open);
    assert_eq!(dialog.frame(true, false, None), ScriptOutcome::Closed);
}

#[test]
fn the_log_is_bounded() {
    let mut dialog = ScriptDialog::new(String::new());
    for i in 0..(ScriptDialog::MAX_LOG_LINES + 10) {
        dialog.push_log(ScriptLogKind::Output, i.to_string());
    }
    assert_eq!(dialog.log().len(), ScriptDialog::MAX_LOG_LINES);
    assert_eq!(dialog.log()[0].text, "10");
    dialog.clear_log();
    assert!(dialog.log().is_empty());
}

#[test]
fn ctrl_enter_runs_and_saving_needs_a_name() {
    let mut dialog = ScriptDialog::new("A note".to_string());
    assert_eq!(dialog.note(), Some("A note"));
    dialog.set_source("run()".to_string());
    assert_eq!(
        dialog.frame(false, true, None),
        ScriptOutcome::Run("run()".to_string())
    );
    dialog.set_save_name("  ".to_string());
    assert!(!dialog.can_save());
    dialog.set_save_name(" mine ".to_string());
    assert!(dialog.can_save());
    match dialog.frame(false, false, Some(Pressed::Save)) {
        ScriptOutcome::Save { name, source } => {
            assert_eq!((name.as_str(), source.as_str()), ("mine", "run()"));
        }
        other => panic!("{other:?}"),
    }
    dialog.set_saved(vec![NamedScript {
        name: "mine".to_string(),
        source: "saved()".to_string(),
    }]);
    dialog.load_saved(0);
    assert_eq!(dialog.source(), "saved()");
}

// Select > Modify.

#[test]
fn every_operation_opens_at_the_default_amount_and_confirms_it() {
    for op in ModifySelection::ALL {
        let dialog = SelectionModifyDialog::new(op);
        assert_eq!(
            dialog.confirm(),
            Some(ModifySpec {
                op,
                amount: Real32::from_bits(DEFAULT_MODIFY_PX)
            })
        );
        assert!(!dialog.title().is_empty(), "{op:?} has no title");
        assert_eq!(dialog.blocked_reason(), None);
    }
}

#[test]
fn an_amount_outside_the_operation_range_is_blocked_with_a_reason() {
    let mut dialog = SelectionModifyDialog::new(ModifySelection::Border);
    dialog.set_amount(num(201.0));
    assert_eq!(dialog.confirm(), None);
    let reason = dialog.blocked_reason().expect("a reason");
    assert!(reason.contains("200"), "{reason}");
    assert!(reason.is_ascii(), "a typed glyph in {reason:?}");
    assert!(reason.ends_with(" to 200 px"), "{reason}");
    dialog.set_amount(num(0.0));
    assert_eq!(dialog.confirm(), None);
    dialog.set_amount(num(12.0));
    assert_eq!(dialog.confirm().map(|s| s.whole_px()), Some(12));
}

#[test]
fn whole_pixel_operations_round_and_feather_keeps_a_decimal() {
    let mut expand = SelectionModifyDialog::new(ModifySelection::Expand);
    expand.set_amount(num(7.6));
    assert_eq!(value(expand.spec().amount), 8.0);
    let mut feather = SelectionModifyDialog::new(ModifySelection::Feather);
    feather.set_amount(num(2.54));
    assert!((value(feather.spec().amount) - 2.5).abs() < 1e-6);
    assert!(feather.confirm().is_some());
}

#[test]
fn enter_confirms_and_escape_wins() {
    let dialog = SelectionModifyDialog::new(ModifySelection::Contract);
    assert!(matches!(
        dialog.resolve(CONFIRM),
        DialogOutcome::Confirmed(ModifySpec {
            op: ModifySelection::Contract,
            ..
        })
    ));
    assert_eq!(dialog.resolve(BOTH), DialogOutcome::Cancelled);
    assert!(dialog.resolve(IDLE).is_open());
}

// New Spot Channel.

#[test]
fn a_spot_channel_needs_a_name_and_holds_its_solidity() {
    let mut dialog = SpotChannelDialog::new("Spot 1".to_string());
    assert_eq!(dialog.ink(), DEFAULT_SPOT_INK);
    dialog.set_name("  ".to_string());
    assert!(dialog.blocked_reason().is_some());
    assert_eq!(dialog.confirm(), None);
    dialog.set_name(" Gold ".to_string());
    dialog.set_ink([1, 2, 3]);
    dialog.set_solidity(50);
    let spec = dialog.confirm().expect("named");
    assert_eq!((spec.name.as_str(), spec.ink), ("Gold", [1, 2, 3]));
    dialog.type_solidity(wide(250.0));
    assert_eq!(dialog.solidity(), 100);
    dialog.type_solidity(wide(-4.0));
    assert_eq!(dialog.solidity(), 0);
}

// The extents.

#[test]
fn every_dialog_extent_is_a_whole_number_of_grid_units() {
    let all = sizes::all();
    assert!(all.len() >= 20);
    for (name, units) in all {
        assert!(units > 0, "{name} is {units}");
    }
}

#[test]
fn a_combo_is_wider_than_two_swatches_are_tall() {
    assert!(sizes::combo_min_width() > sizes::swatch().height * 2);
}

// Variables.

fn variable_layers() -> (Vec<VariableLayer>, LayerId, LayerId) {
    let (title, badge) = (layer(1), layer(2));
    (
        vec![
            VariableLayer {
                layer: title,
                name: "Title".to_string(),
                is_text: true,
            },
            VariableLayer {
                layer: badge,
                name: "Badge".to_string(),
                is_text: false,
            },
        ],
        title,
        badge,
    )
}

#[test]
fn the_csv_reader_handles_quotes_commas_and_line_breaks() {
    let rows = parse_csv("a,b\r\n\"x, y\",\"say \"\"hi\"\"\"\n\n\"two\nlines\",z").unwrap();
    assert_eq!(
        rows,
        vec![
            vec!["a".to_string(), "b".to_string()],
            vec!["x, y".to_string(), "say \"hi\"".to_string()],
            vec!["two\nlines".to_string(), "z".to_string()],
        ]
    );
    assert!(parse_csv("\"open").is_err());
}

#[test]
fn data_sets_follow_the_header_and_refuse_unknown_or_ragged_rows() {
    let (layers, _, _) = variable_layers();
    let mut dialog = VariablesDialog::new(VariablesPage::Define, layers, &Vec::new(), Vec::new());
    dialog.bind(0, VariableKind::Text, Some("title"));
    dialog.bind(1, VariableKind::Visibility, Some("badge"));
    // A text variable cannot bind to a non-text layer.
    dialog.bind(1, VariableKind::Text, Some("nope"));
    let defs = dialog.defs();
    assert_eq!(defs.len(), 2);
    let sets = data_sets_from_csv("title,badge\nHello,true\nWorld,false\n", &defs).unwrap();
    assert_eq!(sets.len(), 2);
    assert_eq!(sets[1].value("title"), Some("World"));
    assert!(!visibility_value(sets[1].value("badge").unwrap()));
    assert!(visibility_value("Visible"));
    assert!(data_sets_from_csv("other\nx\n", &defs).is_err());
    assert!(data_sets_from_csv("title,badge\nonly-one\n", &defs).is_err());
    assert!(data_sets_from_csv("title,badge\n", &defs).is_err());
    assert_eq!(dialog.load_csv("title,badge\nA,1\nB,0\nC,1").unwrap(), 3);
    dialog.set_request(VariablesRequest::Preview(1));
    let spec = dialog.confirm().expect("previewable");
    assert_eq!(spec.request, VariablesRequest::Preview(1));
    assert_eq!(spec.sets.len(), 3);
}

#[test]
fn duplicate_or_blank_names_block_and_no_sets_blocks_an_export() {
    let (layers, title, _) = variable_layers();
    let defs = vec![VariableDef {
        name: "t".to_string(),
        kind: VariableKind::Text,
        layer: title,
    }];
    let mut dialog = VariablesDialog::new(VariablesPage::DataSets, layers, &defs, Vec::new());
    assert_eq!(dialog.defs(), defs, "opens on the document's definitions");
    dialog.bind(1, VariableKind::Visibility, Some("t"));
    assert!(dialog.blocked_reason().is_some(), "two variables named t");
    dialog.bind(1, VariableKind::Visibility, Some(" "));
    assert!(dialog.blocked_reason().is_some(), "a blank name");
    dialog.bind(1, VariableKind::Visibility, None);
    assert_eq!(dialog.blocked_reason(), None);
    dialog.set_request(VariablesRequest::Export(BatchFormat::Png));
    assert!(dialog.blocked_reason().is_some(), "nothing to export");
}

#[test]
fn a_csv_that_cannot_be_read_leaves_its_error() {
    let (layers, _, _) = variable_layers();
    let mut dialog = VariablesDialog::new(VariablesPage::Define, layers, &Vec::new(), Vec::new());
    dialog.bind(0, VariableKind::Text, Some("title"));
    assert_eq!(dialog.csv_error(), None);
    assert!(dialog.load_csv("\"open").is_err());
    assert!(dialog.csv_error().is_some());
    assert!(dialog.load_csv("title\nA").is_ok());
    assert_eq!(dialog.csv_error(), None);
    dialog.ask_for_csv();
    assert!(dialog.take_csv_request());
    assert!(!dialog.take_csv_request());
}

// Warp Text.

fn confirmed_warp(dialog: &WarpTextDialog) -> TextWarp {
    dialog.confirm().expect("a warp to apply")
}

#[test]
fn w9k_the_dialog_confirms_the_style_bend_and_both_distortions() {
    let mut dialog = WarpTextDialog::new(layer(3), TextWarp::default());
    dialog.set_style(WarpStyle::Flag);
    dialog.set_amounts(-30, 40, -250);
    let warp = confirmed_warp(&dialog);
    assert_eq!(dialog.layer(), layer(3));
    assert_eq!(warp.style, WarpStyle::Flag);
    assert!((value(warp.bend) + 0.30).abs() < 1e-6, "{warp:?}");
    assert!((value(warp.horizontal) - 0.40).abs() < 1e-6, "{warp:?}");
    assert!((value(warp.vertical) + 1.0).abs() < 1e-6, "clamped: {warp:?}");
}

#[test]
fn w9k_an_unwarped_layer_opens_on_arc_and_enter_warps_it() {
    let dialog = WarpTextDialog::new(layer(3), TextWarp::default());
    assert!(dialog.blocked_reason().is_none());
    assert_eq!(confirmed_warp(&dialog), TextWarp::new(WarpStyle::Arc));
}

#[test]
fn w9k_none_clears_the_warp_and_an_unchanged_warp_is_refused() {
    let stored = TextWarp {
        style: WarpStyle::Wave,
        bend: num(0.25),
        horizontal: num(0.0),
        vertical: num(0.5),
        mesh: None,
    };
    let mut dialog = WarpTextDialog::new(layer(3), stored);
    assert!(dialog.confirm().is_none(), "opening on the stored warp");
    assert!(dialog.blocked_reason().is_some());
    dialog.set_style(WarpStyle::Flat);
    assert_eq!(confirmed_warp(&dialog), TextWarp::default());
}

#[test]
fn w13x5_custom_is_offered_and_keeps_the_layers_mesh() {
    assert!(WarpStyle::ALL.contains(&WarpStyle::Custom));
    let mut mesh: Vec<MeshPoint> = Vec::new();
    for row in 0..4 {
        for column in 0..4 {
            mesh.push(MeshPoint {
                x: num(column as f32 / 3.0),
                y: num(row as f32 / 3.0),
            });
        }
    }
    mesh[15] = MeshPoint {
        x: num(1.2),
        y: num(1.4),
    };
    let stored = TextWarp {
        style: WarpStyle::Custom,
        mesh: Some(mesh),
        ..TextWarp::default()
    };
    let mut dialog = WarpTextDialog::new(layer(3), stored);
    assert!(dialog.confirm().is_none(), "opening on the stored mesh");
    dialog.set_style(WarpStyle::Arc);
    assert_eq!(confirmed_warp(&dialog).mesh, None);
    dialog.set_style(WarpStyle::Custom);
    assert!(dialog.confirm().is_none(), "back to the stored mesh");
    let mut fresh = WarpTextDialog::new(layer(3), TextWarp::default());
    fresh.set_style(WarpStyle::Custom);
    let warp = confirmed_warp(&fresh);
    assert_eq!(warp.style, WarpStyle::Custom);
    assert_eq!(warp.mesh, None, "a new Custom warp starts flat");
}

#[test]
fn the_standard_buttons_confirm_and_cancel() {
    let dialog = TrimDialog::default();
    assert_eq!(
        dialog.press(DialogButton::Confirm),
        DialogOutcome::Confirmed(TrimSpec::default())
    );
    assert_eq!(dialog.press(DialogButton::Cancel), DialogOutcome::Cancelled);
    assert!(dialog.press(DialogButton::Extra(0)).is_open());
}

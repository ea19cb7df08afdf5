use raster_ui::dialogs::chrome::{DialogButton, DialogKeys, DialogOutcome};
use raster_ui::dialogs::preset_manager::{
    PresetEntry, PresetFileRequest, PresetKind, PresetLibrary, PresetManagerDialog,
};
use raster_ui::dialogs::selection_name::{
    LoadOperation, LoadSelectionDialog, LoadSelectionSpec, SaveSelectionDialog, SaveSelectionSpec,
};
use raster_ui::dialogs::shortcut_sheet::{ShortcutRow, ShortcutSheet};
use raster_ui::dialogs::slice_options::{
    slice_file_name, slice_file_stem, SliceOptionsDialog, SliceOptionsSpec,
};
use raster_ui::strings::tr;
use serde_json::Value;

const CONFIRM: DialogKeys = DialogKeys {
    confirm: true,
    cancel: false,
};
const CANCEL: DialogKeys = DialogKeys {
    confirm: false,
    cancel: true,
};

fn entry(name: &str) -> PresetEntry {
    PresetEntry {
        name: name.to_string(),
        data: format!("{{\"n\":\"{name}\"}}"),
    }
}

fn library() -> PresetLibrary {
    PresetLibrary {
        brushes: vec![entry("Soft"), entry("Hard"), entry("Chalk")],
        patterns: vec![entry("Dots")],
        ..PresetLibrary::default()
    }
}

#[test]
fn rename_delete_and_reorder_edit_the_library_in_place() {
    let mut d = PresetManagerDialog::new(library());
    d.set_kind(PresetKind::Brushes);
    d.select(Some(1));
    assert!(!d.rename_selected("Soft"), "a duplicate name is refused");
    assert!(!d.rename_selected("  "), "an empty name is refused");
    assert!(d.rename_selected("Hard Round"));
    assert!(d.move_selected(-1));
    assert_eq!(d.selected(), Some(0));
    let names: Vec<_> = d
        .library()
        .brushes
        .iter()
        .map(|e| e.name.as_str())
        .collect();
    assert_eq!(names, ["Hard Round", "Soft", "Chalk"]);
    // The payload travels with the entry, untouched.
    assert_eq!(d.library().brushes[0].data, "{\"n\":\"Hard\"}");
    d.select(Some(2));
    assert!(d.delete_selected());
    assert_eq!(d.library().brushes.len(), 2);
    assert_eq!(d.selected(), Some(1));
    assert!(!d.move_selected(1), "the last cannot move down");
    match d.resolve(CONFIRM) {
        DialogOutcome::Confirmed(lib) => assert_eq!(&lib, d.library()),
        other => panic!("{other:?}"),
    }
    assert_eq!(d.resolve(CANCEL), DialogOutcome::Cancelled);
}

#[test]
fn import_merges_by_name() {
    let mut d = PresetManagerDialog::new(library());
    let incoming = PresetLibrary {
        brushes: vec![PresetEntry {
            name: "Soft".to_string(),
            data: "new".to_string(),
        }],
        styles: vec![entry("Glow")],
        ..PresetLibrary::default()
    };
    assert_eq!(d.import(incoming), 2);
    assert_eq!(d.library().brushes.len(), 3, "same name replaces");
    assert_eq!(d.library().brushes[0].data, "new");
    assert_eq!(d.library().styles.len(), 1);
}

#[test]
fn a_library_edits_its_own_lists() {
    let mut lib = library();
    assert_eq!(lib.len(), 4);
    assert!(!lib.is_empty());
    assert!(PresetLibrary::default().is_empty());
    assert!(lib.reorder(PresetKind::Brushes, 0, 2));
    let names: Vec<_> = lib.brushes.iter().map(|e| e.name.as_str()).collect();
    assert_eq!(names, ["Hard", "Chalk", "Soft"]);
    assert!(
        !lib.reorder(PresetKind::Brushes, 2, 9),
        "a place past the end is the end"
    );
    assert!(!lib.reorder(PresetKind::Brushes, 3, 0));
    assert!(lib.rename(PresetKind::Patterns, 0, " Dashes "));
    assert_eq!(lib.list(PresetKind::Patterns)[0].name, "Dashes");
    assert_eq!(
        lib.delete(PresetKind::Patterns, 0).map(|e| e.name),
        Some("Dashes".to_string())
    );
    assert_eq!(lib.delete(PresetKind::Patterns, 0), None);
    for kind in PresetKind::ALL {
        assert!(!kind.label().is_empty());
    }
}

#[test]
fn the_preset_managers_extra_buttons_ask_for_a_file() {
    let mut d = PresetManagerDialog::new(library());
    assert_eq!(d.take_file_request(), None);
    assert!(d.press(DialogButton::Extra(0)).is_open());
    let asked = d.take_file_request();
    assert!(matches!(asked, Some(PresetFileRequest::Export)));
    assert_eq!(d.take_file_request(), None, "asked for once");
    assert!(d.press(DialogButton::Extra(1)).is_open());
    assert!(matches!(
        d.take_file_request(),
        Some(PresetFileRequest::Import)
    ));
}

#[test]
fn save_opens_at_the_first_free_alpha_name() {
    assert_eq!(SaveSelectionDialog::new(Vec::new()).name(), "Alpha 1");
    let taken = vec!["Alpha 1".to_string(), "Sky".to_string()];
    assert_eq!(SaveSelectionDialog::new(taken).name(), "Alpha 2");
    let gap = vec!["Alpha 2".to_string()];
    assert_eq!(SaveSelectionDialog::new(gap).name(), "Alpha 1");
}

#[test]
fn save_confirms_the_trimmed_name_and_refuses_blank_or_taken_ones() {
    let mut dialog = SaveSelectionDialog::new(vec!["Sky".to_string()]);
    assert_eq!(
        dialog.confirm(),
        Some(SaveSelectionSpec {
            name: "Alpha 1".to_string()
        })
    );
    dialog.set_name("  Sky ".to_string());
    assert_eq!(dialog.confirm(), None);
    assert_eq!(
        dialog.blocked_reason().as_deref(),
        Some(tr("ui.selection_name.taken"))
    );
    dialog.set_name("   ".to_string());
    assert_eq!(
        dialog.blocked_reason().as_deref(),
        Some(tr("ui.selection_name.empty"))
    );
    dialog.set_name(" Horizon ".to_string());
    assert_eq!(
        dialog.resolve(CONFIRM),
        DialogOutcome::Confirmed(SaveSelectionSpec {
            name: "Horizon".to_string()
        })
    );
    assert_eq!(dialog.resolve(CANCEL), DialogOutcome::Cancelled);
}

#[test]
fn load_lists_by_name_and_confirms_the_chosen_entry_and_operation() {
    let names = vec!["Alpha 1".to_string(), "Sky".to_string()];
    let mut dialog = LoadSelectionDialog::new(names, true);
    // The most recent entry is chosen on open.
    assert_eq!(dialog.confirm().map(|s| s.name), Some("Sky".to_string()));
    dialog.select(0);
    dialog.set_operation(LoadOperation::Subtract);
    dialog.set_invert(true);
    assert_eq!(
        dialog.confirm(),
        Some(LoadSelectionSpec {
            index: 0,
            name: "Alpha 1".to_string(),
            op: LoadOperation::Subtract,
            invert: true,
        })
    );
    // Out of range is ignored rather than stored.
    dialog.select(9);
    assert_eq!(dialog.confirm().map(|s| s.index), Some(0));
}

#[test]
fn the_dialog_opens_on_the_channels_row_that_was_clicked() {
    let names = vec!["Alpha 1".to_string(), "Alpha 2".to_string()];
    let dialog = LoadSelectionDialog::new_at(names.clone(), false, 0);
    assert_eq!(dialog.selected(), 0);
    assert_eq!(
        dialog.confirm().map(|s| (s.index, s.name)),
        Some((0, "Alpha 1".to_string()))
    );
    let stale = LoadSelectionDialog::new_at(names, false, 7);
    assert_eq!(stale.selected(), 1);
    let hint = tr("ui.docks.channels.saved.hint").to_lowercase();
    assert!(
        hint.contains("load selection"),
        "the hint must name the dialog the click opens: {hint}"
    );
}

#[test]
fn without_a_live_selection_only_new_is_offered() {
    let mut dialog = LoadSelectionDialog::new(vec!["Alpha 1".to_string()], false);
    assert!(dialog.confirm().is_some());
    for op in [
        LoadOperation::Add,
        LoadOperation::Subtract,
        LoadOperation::Intersect,
    ] {
        dialog.set_operation(op);
        assert_eq!(dialog.confirm(), None, "{op:?}");
        assert!(dialog.blocked_reason().is_some());
    }
    let empty = LoadSelectionDialog::new(Vec::new(), true);
    assert_eq!(empty.confirm(), None);
    assert!(empty.blocked_reason().is_some());
}

fn sheet() -> ShortcutSheet {
    let row = |chord: &str, command: &str| ShortcutRow {
        chord: chord.to_string(),
        command: command.to_string(),
    };
    ShortcutSheet::new(vec![
        row("Ctrl+S", "Save"),
        row("Ctrl+Shift+P", "Search Commands…"),
        row("Ctrl+S", "Save"),
    ])
}

#[test]
fn the_search_filters_by_command_or_chord_and_ignores_case() {
    let mut s = sheet();
    assert_eq!(s.rows().len(), 2, "the duplicate row is dropped");
    s.set_query("SEARCH".to_string());
    assert_eq!(s.visible().len(), 1);
    assert_eq!(s.visible()[0].command, "Search Commands…");
    s.set_query("ctrl+s".to_string());
    assert_eq!(s.visible().len(), 2, "both chords start Ctrl+S");
    s.set_query("save ctrl".to_string());
    assert_eq!(s.visible().len(), 1);
    s.set_query("nothing like this".to_string());
    assert!(s.visible().is_empty());
}

#[test]
fn the_sheet_has_a_title_and_stays_open_until_dismissed() {
    let s = sheet();
    assert_eq!(s.title(), "Keyboard Shortcut Sheet…");
    let idle = DialogKeys {
        confirm: false,
        cancel: false,
    };
    assert!(!s.is_dismissed(idle, false));
    assert!(s.is_dismissed(CANCEL, false));
    assert!(s.is_dismissed(idle, true));
}

#[test]
fn the_search_folds_the_case_of_letters_beyond_ascii() {
    let mut s = ShortcutSheet::new(vec![ShortcutRow {
        chord: "Ctrl+É".to_string(),
        command: "Élargir".to_string(),
    }]);
    s.set_query("ÉLARGIR é".to_string());
    assert_eq!(s.visible().len(), 1);
}

fn slice_dialog() -> SliceOptionsDialog {
    SliceOptionsDialog::new(
        1,
        "slice_02".to_string(),
        String::new(),
        String::new(),
        "poster".to_string(),
        vec!["poster_01".to_string()],
    )
}

#[test]
fn confirming_hands_over_the_trimmed_fields_for_the_slice() {
    let mut d = slice_dialog();
    d.set_name("  hero ".to_string());
    d.set_url(" https://example.com ".to_string());
    d.set_alt("The hero".to_string());
    assert_eq!(
        d.confirm(),
        Some(SliceOptionsSpec {
            index: 1,
            name: "hero".to_string(),
            url: "https://example.com".to_string(),
            alt: "The hero".to_string(),
        })
    );
}

#[test]
fn a_blank_name_or_another_slices_name_is_blocked_with_a_reason() {
    let mut d = slice_dialog();
    d.set_name("   ".to_string());
    assert_eq!(d.confirm(), None);
    assert_eq!(d.blocked_reason().as_deref(), Some("A slice needs a name"));
    d.set_name("slice_01".to_string());
    assert_eq!(d.confirm(), None);
    assert_eq!(
        d.blocked_reason().as_deref(),
        Some("Another slice already has this name")
    );
    // Its own name is not "taken".
    d.set_name("slice_02".to_string());
    assert!(d.confirm().is_some());
}

#[test]
fn a_name_that_exports_to_another_slices_file_is_blocked() {
    let others = vec![
        slice_file_stem("poster", "hero?", 1),
        slice_file_stem("poster", "slice_03", 3),
        slice_file_stem("poster", &"x".repeat(70), 4),
    ];
    assert_eq!(others, ["hero_", "poster_03", &"x".repeat(64)]);
    let taken = Some("Another slice already has this name");
    for name in ["hero!", "HERO_", "poster_03", "Poster_03", &"x".repeat(65)] {
        let mut d = SliceOptionsDialog::new(
            1,
            name.to_string(),
            String::new(),
            String::new(),
            "poster".to_string(),
            others.clone(),
        );
        assert_eq!(d.blocked_reason().as_deref(), taken, "{name}");
        assert_eq!(d.confirm(), None, "{name}");
        d.set_name("hero".to_string());
        assert!(d.confirm().is_some(), "hero exports as hero, which is free");
    }
}

#[test]
fn a_slice_file_keeps_plain_characters_only() {
    assert_eq!(slice_file_stem("poster", "été 2", 1), "_t_ 2");
    assert!(slice_file_name("poster", "hero", 2).contains("hero"));
}

#[test]
fn slice_options_resolve_confirms_on_enter_and_cancels_on_escape() {
    let d = slice_dialog();
    assert!(matches!(d.resolve(CONFIRM), DialogOutcome::Confirmed(_)));
    assert_eq!(d.resolve(CANCEL), DialogOutcome::Cancelled);
}

#[test]
fn the_standard_buttons_do_what_the_keys_do() {
    let d = slice_dialog();
    assert_eq!(d.press(DialogButton::Confirm), d.resolve(CONFIRM));
    assert_eq!(d.press(DialogButton::Cancel), d.resolve(CANCEL));
}

fn to_json(library: &PresetLibrary) -> String {
    let list = |entries: &Vec<PresetEntry>| {
        Value::Array(
            entries
                .iter()
                .map(|e| {
                    let mut fields = serde_json::Map::new();
                    fields.insert("name".to_string(), Value::String(e.name.clone()));
                    fields.insert("data".to_string(), Value::String(e.data.clone()));
                    Value::Object(fields)
                })
                .collect(),
        )
    };
    let mut kinds = serde_json::Map::new();
    for kind in PresetKind::ALL {
        kinds.insert(kind.label().to_lowercase(), list(library.list(kind)));
    }
    serde_json::to_string(&Value::Object(kinds)).unwrap()
}

fn from_json(json: &str) -> PresetLibrary {
    let value: Value = serde_json::from_str(json).unwrap();
    let mut library = PresetLibrary::default();
    for kind in PresetKind::ALL {
        *library.list_mut(kind) = value[kind.label().to_lowercase()]
            .as_array()
            .unwrap()
            .iter()
            .map(|e| PresetEntry {
                name: e["name"].as_str().unwrap().to_string(),
                data: e["data"].as_str().unwrap().to_string(),
            })
            .collect();
    }
    library
}

#[test]
fn import_merges_by_name_and_round_trips_through_json() {
    let mut d = PresetManagerDialog::new(library());
    let back = from_json(&to_json(d.library()));
    assert_eq!(&back, d.library());
    let incoming = PresetLibrary {
        brushes: vec![PresetEntry {
            name: "Soft".to_string(),
            data: "new".to_string(),
        }],
        styles: vec![entry("Glow")],
        ..PresetLibrary::default()
    };
    assert_eq!(d.import(incoming), 2);
    assert_eq!(d.library().brushes.len(), 3, "same name replaces");
    assert_eq!(d.library().brushes[0].data, "new");
    assert_eq!(d.library().styles.len(), 1);
}

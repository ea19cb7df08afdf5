use raster_ui::dialogs::chrome::{DialogKeys, DialogOutcome};
use raster_ui::dialogs::preferences::{
    read_shortcut, KeyEvent, Locale, PrefControl, PreferencesDialog, PrefsSection, ScratchPrefs,
    ThemeChoice, UiPreferences, MAX_AUTOSAVE_MINUTES, MAX_UI_SCALE, MIN_UI_SCALE,
};
use raster_ui::dialogs::units::Unit;
use raster_ui::ieee::{Real32, Real64};
use raster_ui::keymap::{Binding, Key, KeyCommand, Keymap, KeymapError, Shortcut};
use raster_ui::theme::Theme;

const CANCEL: DialogKeys = DialogKeys {
    confirm: false,
    cancel: true,
};
const IDLE: DialogKeys = DialogKeys {
    confirm: false,
    cancel: false,
};

fn num(value: f32) -> Real32 {
    Real32::from_bits(value.to_bits())
}

fn bound(shortcut: Shortcut, id: &str) -> Binding {
    Binding {
        shortcut,
        id: id.to_string(),
    }
}

/// Preferences over a small host keymap, as the shell would open them.
fn with_keymap() -> UiPreferences {
    UiPreferences {
        keymap: Keymap::from_defaults(
            vec![
                KeyCommand::new("save", "File", "Save"),
                KeyCommand::new("undo", "Edit", "Undo"),
                KeyCommand::new("brush", "Tools", "Brush"),
            ],
            vec![
                bound(Shortcut::ctrl(Key::S), "save"),
                bound(Shortcut::ctrl(Key::Z), "undo"),
                bound(Shortcut::plain(Key::B), "brush"),
            ],
        ),
        ..UiPreferences::default()
    }
}

#[test]
fn the_defaults_are_already_sane() {
    assert!(UiPreferences::default().is_sane());
    assert!(
        UiPreferences::default().tools.scroll_wheel_zooms,
        "a plain wheel zooms by default"
    );
}

#[test]
fn sanitizing_repairs_every_out_of_range_field() {
    let mut prefs = UiPreferences::default();
    prefs.interface.ui_scale = num(0.0);
    prefs.interface.units = Unit::Picas;
    prefs.history.states = 0;
    prefs.general.autosave_minutes = 100_000;
    prefs.scratch.dir = "  D:/scratch  ".to_string();
    let fixed = prefs.sanitized();
    assert_eq!(fixed.interface.ui_scale.bits, MIN_UI_SCALE);
    assert_eq!(
        fixed.interface.units,
        Unit::Picas,
        "picas are a units choice the rulers offer; sanitizing keeps them"
    );
    assert_eq!(fixed.history.states, 1);
    assert_eq!(fixed.general.autosave_minutes, MAX_AUTOSAVE_MINUTES);
    assert_eq!(fixed.scratch.dir, "D:/scratch");
    assert!(fixed.is_sane());
}

#[test]
fn a_non_finite_setting_falls_back_to_its_default_not_to_a_boundary() {
    let mut prefs = UiPreferences::default();
    prefs.interface.ui_scale = num(f32::NAN);
    assert_eq!(prefs.clone().sanitized().interface.ui_scale, num(1.0));
    prefs.interface.ui_scale = num(f32::INFINITY);
    assert_eq!(prefs.sanitized().interface.ui_scale, num(1.0));
}

#[test]
fn autosave_off_means_no_interval() {
    let mut prefs = UiPreferences::default();
    assert_eq!(prefs.autosave_interval(), Some(600));
    prefs.general.autosave_minutes = 0;
    assert_eq!(prefs.autosave_interval(), None);
}

#[test]
fn a_blank_scratch_directory_means_the_default() {
    let mut scratch = ScratchPrefs::default();
    assert_eq!(scratch.dir(), None);
    scratch.dir = "   ".to_string();
    assert_eq!(scratch.dir(), None);
    scratch.dir = " D:/scratch ".to_string();
    assert_eq!(scratch.dir().as_deref(), Some("D:/scratch"));
}

#[test]
fn the_theme_choice_resolves_the_way_the_menu_promises() {
    assert_eq!(ThemeChoice::Light.resolve(Theme::Dark), Theme::Light);
    assert_eq!(ThemeChoice::Dark.resolve(Theme::Light), Theme::Dark);
    assert_eq!(ThemeChoice::System.resolve(Theme::Light), Theme::Light);
    assert_eq!(ThemeChoice::System.resolve(Theme::Dark), Theme::Dark);
}

#[test]
fn every_control_sits_in_a_section_and_its_edit_is_visible() {
    let mut keys: Vec<&str> = PrefControl::ALL.iter().map(|c| c.key()).collect();
    keys.sort_unstable();
    keys.dedup();
    assert_eq!(
        keys.len(),
        PrefControl::ALL.len(),
        "two controls share a key"
    );
    for section in PrefsSection::ALL {
        assert!(
            !PrefControl::in_section(section).is_empty(),
            "{section:?} draws nothing"
        );
    }
    for control in PrefControl::ALL {
        assert!(PrefsSection::ALL.contains(&control.section()));
        let mut dialog = PreferencesDialog::new(with_keymap());
        let changed = control.mutate(dialog.prefs_mut());
        if control == PrefControl::Language && Locale::ALL.len() == 1 {
            assert!(!changed, "one locale: there is nothing to change to");
            continue;
        }
        assert!(changed, "{control:?} had nothing to change");
        assert!(dialog.is_modified(), "{control:?}'s edit is invisible");
        // And it is a real edit of the *sanitized* model: confirm keeps it.
        let prefs = dialog.confirm().expect("preferences");
        assert!(!prefs.same_as(&with_keymap().sanitized()), "{control:?}");
    }
}

#[test]
fn the_dialog_opens_on_the_requested_page() {
    let dialog = PreferencesDialog::default();
    assert_eq!(dialog.section(), PrefsSection::General);
    let prefs = UiPreferences {
        page: PrefsSection::Keymap,
        ..UiPreferences::default()
    };
    let dialog = PreferencesDialog::new(prefs);
    assert_eq!(dialog.section(), PrefsSection::Keymap);
    assert!(!dialog.is_modified(), "the page is not an edit");
}

#[test]
fn the_capture_flow_binds_a_free_shortcut_and_closes() {
    let mut dialog = PreferencesDialog::new(with_keymap());
    dialog.begin_capture("brush");
    assert_eq!(dialog.capturing(), Some("brush"));
    assert!(dialog.capture(Shortcut::ctrl_shift(Key::K)).is_ok());
    assert_eq!(dialog.capturing(), None);
    assert_eq!(
        dialog.prefs().keymap.shortcuts("brush"),
        vec![Shortcut::plain(Key::B), Shortcut::ctrl_shift(Key::K)]
    );
    assert!(dialog.is_modified());
}

#[test]
fn the_capture_flow_refuses_a_taken_shortcut_and_offers_a_way_out() {
    let mut dialog = PreferencesDialog::new(with_keymap());
    dialog.begin_capture("brush");
    let save = Shortcut::ctrl(Key::S);
    assert_eq!(
        dialog.capture(save),
        Err(KeymapError::Conflict {
            held_by: "save".to_string()
        })
    );
    // Nothing moved yet, and the dialog knows what it refused.
    assert_eq!(dialog.prefs().keymap.command_for(save), Some("save"));
    assert!(!dialog.is_modified());
    let refused = dialog.pending_conflict().expect("a recorded conflict");
    assert_eq!(refused.id, "brush");
    assert_eq!(refused.shortcut, save);
    assert!(dialog.conflict_message("Ctrl+S").is_some());
    // Then the user decides.
    assert_eq!(dialog.resolve_conflict(), Some("save".to_string()));
    assert_eq!(dialog.prefs().keymap.command_for(save), Some("brush"));
    assert_eq!(
        dialog.prefs().keymap.shortcuts("save"),
        Vec::<Shortcut>::new()
    );
    assert!(dialog.pending_conflict().is_none());
    assert_eq!(dialog.capturing(), None);
}

#[test]
fn cancelling_a_capture_leaves_the_keymap_alone() {
    let mut dialog = PreferencesDialog::new(with_keymap());
    let before = with_keymap().keymap;
    dialog.begin_capture("brush");
    dialog.cancel_capture();
    assert_eq!(dialog.capturing(), None);
    assert!(dialog.capture(Shortcut::plain(Key::Z)).is_err());
    assert!(dialog.prefs().keymap.same_as(&before));
}

#[test]
fn restore_defaults_resets_every_section_but_keeps_the_host_command_list() {
    let mut prefs = with_keymap();
    prefs.page = PrefsSection::Keymap;
    let mut dialog = PreferencesDialog::new(prefs);
    dialog.prefs_mut().interface.ui_scale = num(1.5);
    dialog.prefs_mut().interface.units = Unit::Centimeters;
    dialog.prefs_mut().tools.scroll_wheel_zooms = false;
    dialog.prefs_mut().keymap.unbind(Shortcut::ctrl(Key::S));
    assert!(dialog.is_modified());
    dialog.restore_defaults();
    assert!(!dialog.is_modified());
    assert_eq!(dialog.prefs().keymap.commands().len(), 3);
    assert!(dialog.prefs().keymap.is_default());
    assert_eq!(dialog.prefs().page, PrefsSection::Keymap);
}

#[test]
fn confirm_hands_back_sanitized_preferences() {
    let mut dialog = PreferencesDialog::default();
    dialog.prefs_mut().interface.ui_scale = num(99.0);
    let prefs = dialog.confirm().expect("preferences");
    assert_eq!(prefs.interface.ui_scale.bits, MAX_UI_SCALE);
    assert!(prefs.is_sane());
}

#[test]
fn cancel_produces_nothing() {
    let mut dialog = PreferencesDialog::default();
    assert!(matches!(
        dialog.resolve(CANCEL, None),
        DialogOutcome::Cancelled
    ));
}

#[test]
fn the_units_control_offers_picas() {
    assert!(Unit::PREFERENCE_CHOICES.contains(&Unit::Picas));
    assert_eq!(Unit::Picas.menu_label(), "Picas (pc)");
    let mut dialog = PreferencesDialog::default();
    dialog.prefs_mut().interface.units = Unit::Picas;
    assert_eq!(dialog.confirm().unwrap().interface.units, Unit::Picas);
}

fn press(key: Key, ctrl: bool) -> KeyEvent {
    KeyEvent {
        key,
        pressed: true,
        ctrl,
        command: ctrl,
        shift: false,
        alt: false,
    }
}

#[test]
fn a_frame_while_capturing_binds_the_key_pressed() {
    // A frame with no events leaves the capture open and the model untouched.
    let mut dialog = PreferencesDialog::new(with_keymap());
    dialog.set_section(PrefsSection::Keymap);
    dialog.begin_capture("brush");
    assert!(dialog.resolve(IDLE, read_shortcut(&Vec::new())).is_open());
    assert_eq!(dialog.capturing(), Some("brush"));
    // With a key event in the frame the capture completes.
    let chord = read_shortcut(&vec![press(Key::K, true)]);
    assert_eq!(chord, Some(Shortcut::ctrl(Key::K)));
    assert!(dialog.resolve(IDLE, chord).is_open());
    assert_eq!(dialog.capturing(), None);
    assert_eq!(
        dialog.prefs().keymap.command_for(Shortcut::ctrl(Key::K)),
        Some("brush")
    );
}

#[test]
fn numbers_typed_into_the_fields_are_held_to_their_ranges() {
    let mut dialog = PreferencesDialog::default();
    dialog.set_autosave_minutes(-3);
    assert_eq!(dialog.prefs().general.autosave_minutes, 0);
    assert!(dialog.autosave_warning().is_some());
    dialog.set_history_states(0);
    assert_eq!(dialog.prefs().history.states, 1);
    dialog.set_ui_scale_percent(Real64::from_bits(150f64.to_bits()));
    assert_eq!(dialog.prefs().interface.ui_scale, num(1.5));
    assert_eq!(f64::from_bits(dialog.ui_scale_percent().bits), 150.0);
}

#[test]
fn a_keymap_reports_collisions_and_unknown_commands() {
    let mut keymap = with_keymap().keymap;
    let save = Shortcut::ctrl(Key::S);
    assert!(matches!(
        keymap.assign("brush", save),
        Err(KeymapError::Conflict { .. })
    ));
    assert!(matches!(
        keymap.assign("nothing", Shortcut::plain(Key::Q)),
        Err(KeymapError::UnknownCommand)
    ));
    assert!(keymap.is_default());
    assert!(!keymap.is_customized("brush"));
    assert_eq!(keymap.force_assign("brush", save), Some("save".to_string()));
    assert_eq!(keymap.command_for(save), Some("brush"));
    assert!(keymap.is_customized("brush") && keymap.is_customized("save"));
    assert!(!keymap.is_customized("undo"));
    assert_eq!(
        keymap.command_for(Shortcut::ctrl(Key::Z)),
        Some("undo"),
        "every other chord stays where it was"
    );
    assert!(keymap.unbind(save));
    assert_eq!(keymap.command_for(save), None);
    assert!(!keymap.unbind(save));
    keymap.reset();
    assert!(keymap.is_default());
    assert_eq!(keymap.label_of("save"), "Save");
    assert!(keymap.is_known("save") && !keymap.is_known("nothing"));
}

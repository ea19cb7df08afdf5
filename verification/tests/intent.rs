use raster_ui::ieee::Real32;
use raster_ui::intent::{ClipboardState, Intent, Progress, ViewFlag, ViewFlags};

fn num(value: f32) -> Real32 {
    Real32::from_bits(value.to_bits())
}

#[test]
fn view_flags_are_independent() {
    let mut f = ViewFlags::default();
    for flag in ViewFlag::ALL {
        assert!(!f.get(flag));
    }
    f.set(ViewFlag::Grid, true);
    assert!(f.get(ViewFlag::Grid));
    for flag in ViewFlag::ALL.iter().filter(|x| **x != ViewFlag::Grid) {
        assert!(!f.get(*flag), "{flag:?} moved with Grid");
    }
    f.toggle(ViewFlag::Grid);
    assert!(!f.get(ViewFlag::Grid));
}

#[test]
fn the_default_view_shows_rulers_but_not_the_pixel_grid() {
    let f = ViewFlags::defaults();
    assert!(f.get(ViewFlag::Rulers));
    assert!(f.get(ViewFlag::Snap));
    assert!(!f.get(ViewFlag::PixelGrid));
    assert!(!f.get(ViewFlag::GamutWarning));
}

#[test]
fn every_view_flag_fits_in_the_bit_set() {
    assert!(ViewFlag::ALL.len() <= 32);
    let mut f = ViewFlags::default();
    for flag in ViewFlag::ALL {
        f.set(flag, true);
    }
    for flag in ViewFlag::ALL {
        assert!(f.get(flag), "{flag:?} was aliased away");
    }
}

#[test]
fn every_view_flag_has_a_label() {
    for flag in ViewFlag::ALL {
        assert!(!flag.label().is_empty(), "{flag:?}");
    }
}

#[test]
fn an_empty_clipboard_knows_it() {
    assert!(ClipboardState::empty().is_empty());
    assert!(!ClipboardState {
        external_pixels: true,
        pixels: true,
        layers: false
    }
    .is_empty());
}

#[test]
fn pixels_from_outside_do_not_paste_into_a_place() {
    let outside = ClipboardState {
        external_pixels: true,
        pixels: false,
        layers: false,
    };
    assert!(!outside.is_empty());
    assert!(!outside.has_internal_pixels());
    assert!(ClipboardState {
        pixels: true,
        ..outside
    }
    .has_internal_pixels());
}

#[test]
fn a_non_finite_progress_fraction_is_treated_as_indeterminate() {
    let label = || "x".to_string();
    assert_eq!(Progress::new(label(), num(f32::NAN)).fraction, None);
    assert_eq!(Progress::new(label(), num(2.0)).fraction, Some(num(1.0)));
    assert_eq!(Progress::new(label(), num(-1.0)).fraction, Some(num(0.0)));
    assert_eq!(Progress::indeterminate(label()).fraction, None);
}

#[test]
fn hiding_the_extras_hides_them_all_and_showing_them_restores_the_set() {
    let mut f = ViewFlags::defaults();
    f.set(ViewFlag::Grid, true);
    let before: Vec<bool> = ViewFlag::ALL.iter().map(|x| f.shows(*x)).collect();
    assert!(f.get(ViewFlag::Extras));
    f.set(ViewFlag::Extras, false);
    for flag in ViewFlag::ALL {
        if flag.is_extra() {
            assert!(!f.shows(flag), "{flag:?}");
        }
    }
    f.set(ViewFlag::Extras, true);
    let after: Vec<bool> = ViewFlag::ALL.iter().map(|x| f.shows(*x)).collect();
    assert_eq!(before, after);
}

#[test]
fn the_snap_targets_sit_in_their_submenu() {
    for flag in ViewFlag::SNAP_TO {
        assert!(flag.in_submenu(), "{flag:?}");
    }
    assert!(!ViewFlag::Rulers.in_submenu());
}

#[test]
fn an_intent_hands_out_what_it_carries() {
    let edit: Intent<u8, &str> = Intent::Document(7);
    assert_eq!(edit.as_command(), Some(&7));
    assert_eq!(edit.as_action(), None);
    let action: Intent<u8, &str> = Intent::Action("undo");
    assert_eq!(action.as_command(), None);
    assert_eq!(action.as_action(), Some(&"undo"));
}

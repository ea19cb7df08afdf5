use raster_ui::dialogs::refine_mask::RefinedMask;
use raster_ui::sources::{sources, Entry, Labels, Menu, PROPER_NAMES};

fn item(label: &str) -> Entry {
    Entry::Item(label.to_string())
}

fn all(labels: &[&str]) -> Vec<String> {
    labels.iter().map(|s| s.to_string()).collect()
}

fn labels() -> Labels {
    Labels {
        menus: vec![Menu {
            title: "File".to_string(),
            entries: vec![
                item("New"),
                Entry::Separator,
                Entry::Submenu {
                    label: "Language".to_string(),
                    entries: vec![item("English"), item("Other")],
                },
                item("Quit"),
            ],
        }],
        actions: all(&["New", "English", "Hidden"]),
        own_names: all(&["English"]),
        merge_layers: "Merge Layers".to_string(),
        blend_modes: all(&["Normal"]),
        history_steps: all(&["Paint"]),
        adjustments: all(&["Levels"]),
        type_choices: all(&["Bold"]),
        color_notations: all(&["Notation"]),
        brushes: all(&["Soft"]),
    }
}

#[test]
fn the_menus_are_walked_in_order_without_what_names_itself() {
    let strings = sources(&labels());
    assert_eq!(
        strings[..7],
        all(&["File", "New", "Language", "Other", "Quit", "New", "Hidden"])[..]
    );
    assert_eq!(
        strings[7..11],
        all(&["Undo", "Redo", "Layer", "Merge Layers"])[..]
    );
    assert_eq!(strings[11], "Layers");
    assert_eq!(strings[25], "Essentials");
    assert_eq!(
        strings[29..34],
        all(&["Normal", "Paint", "Levels", "Bold", "Ultra Condensed"])[..]
    );
    assert_eq!(strings[43..48].join(" "), "Pointer Document Selection Distance Angle");
    assert_eq!(strings.len(), 58);
    assert_eq!(strings[56..], all(&["Notation", "Soft"])[..]);
}

#[test]
fn proper_names_are_listed_once() {
    for (i, name) in PROPER_NAMES.iter().enumerate() {
        assert!(!PROPER_NAMES[..i].contains(name), "{name}");
    }
    assert_eq!(PROPER_NAMES.len(), 36);
}

#[test]
fn a_grown_mask_is_brought_back_to_the_canvas() {
    let mask = RefinedMask {
        left: -1,
        top: 1,
        width: 3,
        height: 2,
        coverage: vec![1, 2, 3, 4, 5, 6],
    };
    assert_eq!(
        mask.on_canvas(4, 4),
        [0, 0, 0, 0, 2, 3, 0, 0, 5, 6, 0, 0, 0, 0, 0, 0]
    );
    let whole = RefinedMask {
        left: 0,
        top: 0,
        width: 2,
        height: 2,
        coverage: vec![9, 8, 7, 6],
    };
    assert_eq!(whole.on_canvas(2, 2), [9, 8, 7, 6]);
    assert!(whole.on_canvas(0, 5).is_empty());
}

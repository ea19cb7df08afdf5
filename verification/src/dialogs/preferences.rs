//! Preferences.
//!
//! Six sections down the left, the chosen one on the right. The settings model
//! here is plain data with a [`UiPreferences::sanitized`] pass; the shell maps
//! it onto whatever it persists.
//!
//! The controls are an enumeration, [`PrefControl`], and the sections draw from
//! it: a control that is not in the list is not drawn. A shortcut that is
//! silently taken from another command is a bug the user only discovers later,
//! so a collision is reported and the dialog makes the user decide.

use super::chrome;
use super::chrome::{DialogButton, DialogKeys, DialogOutcome};
use super::units::Unit;
use crate::ieee::{Real32, Real64};
use crate::keymap;
use crate::keymap::{Key, Keymap, KeymapError, KeymapModel, Refusal, Shortcut};
use crate::sequences;
use crate::strings;
use crate::text;
use crate::theme::Theme;
use vstd::prelude::*;

verus! {

/// A language the catalogue holds.
#[derive(Clone, Copy, PartialEq, Eq, Structural, Hash, Debug)]
pub enum Locale {
    En,
}

impl Locale {
    /// Every language, in menu order.
    pub const ALL: [Locale; 1] = [Locale::En];
}

/// Which appearance the app uses.
#[derive(Clone, Copy, PartialEq, Eq, Structural, Hash, Debug)]
pub enum ThemeChoice {
    /// Follow the operating system.
    System,
    Light,
    Dark,
}

impl Default for ThemeChoice {
    fn default() -> (r: Self)
        ensures
            r == ThemeChoice::System,
    {
        ThemeChoice::System
    }
}

impl ThemeChoice {
    /// All three, in menu order.
    pub const ALL: [ThemeChoice; 3] = [ThemeChoice::System, ThemeChoice::Light, ThemeChoice::Dark];

    /// Menu label.
    pub fn label(self) -> (r: &'static str)
        ensures
            r@ == match self {
                ThemeChoice::System => "System"@,
                ThemeChoice::Light => "Light"@,
                ThemeChoice::Dark => "Dark"@,
            },
    {
        match self {
            ThemeChoice::System => "System",
            ThemeChoice::Light => "Light",
            ThemeChoice::Dark => "Dark",
        }
    }

    /// The appearance to install, given what the system reports.
    pub fn resolve(self, system: Theme) -> (r: Theme)
        ensures
            r == match self {
                ThemeChoice::System => system,
                ThemeChoice::Light => Theme::Light,
                ThemeChoice::Dark => Theme::Dark,
            },
    {
        match self {
            ThemeChoice::System => system,
            ThemeChoice::Light => Theme::Light,
            ThemeChoice::Dark => Theme::Dark,
        }
    }
}

/// General behaviour.
#[derive(Clone, Copy, PartialEq, Structural, Debug)]
pub struct GeneralPrefs {
    /// Minutes between autosaves; `0` turns autosave off.
    pub autosave_minutes: u32,
}

impl Default for GeneralPrefs {
    fn default() -> (r: Self)
        ensures
            r == (GeneralPrefs { autosave_minutes: 10 }),
    {
        GeneralPrefs { autosave_minutes: 10 }
    }
}

/// Appearance, language and measurement.
#[derive(Clone, Copy, PartialEq, Structural, Debug)]
pub struct InterfacePrefs {
    pub theme: ThemeChoice,
    /// Multiplier on every point in the design system.
    pub ui_scale: Real32,
    /// The catalogue's language.
    pub language: Locale,
    /// The measurement unit the rulers and the size readouts use.
    pub units: Unit,
}

impl Default for InterfacePrefs {
    fn default() -> (r: Self)
        ensures
            r == (InterfacePrefs {
                theme: ThemeChoice::System,
                ui_scale: Real32 { bits: 0x3f80_0000 },
                language: Locale::En,
                units: Unit::Pixels,
            }),
    {
        InterfacePrefs {
            theme: ThemeChoice::System,
            ui_scale: Real32 { bits: 0x3f80_0000 },
            language: Locale::En,
            units: Unit::Pixels,
        }
    }
}

/// Tool behaviour.
#[derive(Clone, Copy, PartialEq, Structural, Debug)]
pub struct ToolPrefs {
    /// A plain wheel zooms. Off, the plain wheel pans and Ctrl+wheel zooms.
    pub scroll_wheel_zooms: bool,
}

impl Default for ToolPrefs {
    fn default() -> (r: Self)
        ensures
            r == (ToolPrefs { scroll_wheel_zooms: true }),
    {
        ToolPrefs { scroll_wheel_zooms: true }
    }
}

/// Undo history.
#[derive(Clone, Copy, PartialEq, Structural, Debug)]
pub struct HistoryPrefs {
    /// How many undo steps are kept.
    pub states: u32,
}

impl Default for HistoryPrefs {
    fn default() -> (r: Self)
        ensures
            r == (HistoryPrefs { states: 100 }),
    {
        HistoryPrefs { states: 100 }
    }
}

/// Where working files go.
#[derive(PartialEq, Eq, Debug)]
pub struct ScratchPrefs {
    /// The directory autosaves of never-saved documents are written to. Empty
    /// means the application's default location.
    pub dir: String,
}

impl Default for ScratchPrefs {
    fn default() -> (r: Self)
        ensures
            r.dir@ == ""@,
    {
        ScratchPrefs { dir: text::copied("") }
    }
}

impl Clone for ScratchPrefs {
    fn clone(&self) -> (r: Self)
        ensures
            r.dir@ == self.dir@,
    {
        ScratchPrefs { dir: text::copied(self.dir.as_str()) }
    }
}

impl ScratchPrefs {
    /// The directory, trimmed, or `None` for the default.
    pub fn dir(&self) -> (r: Option<String>)
        ensures
            match r {
                Some(dir) => !text::blank(self.dir@) && dir@ == text::trimmed(self.dir@),
                None => text::blank(self.dir@),
            },
    {
        if text::is_blank(self.dir.as_str()) {
            None
        } else {
            Some(text::trim(self.dir.as_str()))
        }
    }
}

/// Smallest UI scale the interface stays usable at: 0.75.
pub const MIN_UI_SCALE: u32 = 0x3f40_0000;

/// Largest UI scale the interface stays usable at: 2.
pub const MAX_UI_SCALE: u32 = 0x4000_0000;

/// Largest number of undo states the dialog will accept.
pub const MAX_HISTORY_STATES: u32 = 1000;

/// Longest autosave period the dialog will accept, in minutes.
pub const MAX_AUTOSAVE_MINUTES: u32 = 1440;

/// Every preference the UI owns.
#[derive(Debug)]
pub struct UiPreferences {
    pub general: GeneralPrefs,
    pub interface: InterfacePrefs,
    pub tools: ToolPrefs,
    pub history: HistoryPrefs,
    pub scratch: ScratchPrefs,
    pub keymap: Keymap,
    /// The section the dialog opens on. Not a setting: the host sets it to
    /// [`PrefsSection::Keymap`] for Edit ▸ Keyboard Shortcuts, and the dialog
    /// never writes it.
    pub page: PrefsSection,
}

/// What a [`UiPreferences`] stands for.
#[verifier::ext_equal]
pub struct PrefsModel {
    pub general: GeneralPrefs,
    pub interface: InterfacePrefs,
    pub tools: ToolPrefs,
    pub history: HistoryPrefs,
    pub scratch_dir: Seq<char>,
    pub keymap: KeymapModel,
    pub page: PrefsSection,
}

impl View for UiPreferences {
    type V = PrefsModel;

    open spec fn view(&self) -> PrefsModel {
        PrefsModel {
            general: self.general,
            interface: self.interface,
            tools: self.tools,
            history: self.history,
            scratch_dir: self.scratch.dir@,
            keymap: self.keymap@,
            page: self.page,
        }
    }
}

/// The shortcut no shipped table uses.
pub open spec fn spare_shortcut() -> Shortcut {
    Shortcut { key: Key::F12, ctrl: true, shift: true, alt: true }
}

/// A UI scale in the usable range; one that is not a finite number is corrupt,
/// and becomes 1 rather than a boundary.
pub open spec fn usable_scale(scale: Real32) -> Real32 {
    if scale.finite() {
        scale.clamped(Real32 { bits: MIN_UI_SCALE }, Real32 { bits: MAX_UI_SCALE })
    } else {
        Real32 { bits: 0x3f80_0000 }
    }
}

impl PrefsModel {
    /// The preferences the app ships with, over a keymap and a page.
    pub open spec fn shipped(keymap: KeymapModel, page: PrefsSection) -> PrefsModel {
        PrefsModel {
            general: GeneralPrefs { autosave_minutes: 10 },
            interface: InterfacePrefs {
                theme: ThemeChoice::System,
                ui_scale: Real32 { bits: 0x3f80_0000 },
                language: Locale::En,
                units: Unit::Pixels,
            },
            tools: ToolPrefs { scroll_wheel_zooms: true },
            history: HistoryPrefs { states: 100 },
            scratch_dir: ""@,
            keymap,
            page,
        }
    }

    /// Every field forced into a range the app can run with.
    pub open spec fn sanitized(self) -> PrefsModel {
        PrefsModel {
            general: GeneralPrefs {
                autosave_minutes: if self.general.autosave_minutes > MAX_AUTOSAVE_MINUTES {
                    MAX_AUTOSAVE_MINUTES
                } else {
                    self.general.autosave_minutes
                },
            },
            interface: InterfacePrefs {
                ui_scale: usable_scale(self.interface.ui_scale),
                units: if self.interface.units == Unit::Percent {
                    Unit::Pixels
                } else {
                    self.interface.units
                },
                ..self.interface
            },
            history: HistoryPrefs {
                states: if self.history.states < 1 {
                    1
                } else if self.history.states > MAX_HISTORY_STATES {
                    MAX_HISTORY_STATES
                } else {
                    self.history.states
                },
            },
            scratch_dir: text::trimmed(self.scratch_dir),
            ..self
        }
    }

    /// Equal setting for setting.
    pub open spec fn same(self, other: PrefsModel) -> bool {
        &&& self.general == other.general
        &&& self.interface.theme == other.interface.theme
        &&& self.interface.ui_scale.equals(other.interface.ui_scale)
        &&& self.interface.language == other.interface.language
        &&& self.interface.units == other.interface.units
        &&& self.tools == other.tools
        &&& self.history == other.history
        &&& self.scratch_dir == other.scratch_dir
        &&& self.keymap.same(other.keymap)
        &&& self.page == other.page
    }

    /// The preferences after the setting a control edits is changed to
    /// something it is not now; nothing when there is no other value.
    pub open spec fn edited(self, control: PrefControl) -> Option<PrefsModel> {
        match control {
            PrefControl::Autosave => Some(
                PrefsModel {
                    general: GeneralPrefs {
                        autosave_minutes: if self.general.autosave_minutes == 7 {
                            8
                        } else {
                            7
                        },
                    },
                    ..self
                },
            ),
            PrefControl::Theme => Some(
                PrefsModel {
                    interface: InterfacePrefs {
                        theme: if self.interface.theme == ThemeChoice::Light {
                            ThemeChoice::Dark
                        } else {
                            ThemeChoice::Light
                        },
                        ..self.interface
                    },
                    ..self
                },
            ),
            PrefControl::UiScale => Some(
                PrefsModel {
                    interface: InterfacePrefs {
                        ui_scale: if self.interface.ui_scale.equals(
                            Real32 { bits: 0x3fc0_0000 },
                        ) {
                            Real32 { bits: 0x3fa0_0000 }
                        } else {
                            Real32 { bits: 0x3fc0_0000 }
                        },
                        ..self.interface
                    },
                    ..self
                },
            ),
            PrefControl::Language => {
                let others = Locale::ALL@.filter(|l: Locale| l != self.interface.language);
                if others.len() == 0 {
                    None
                } else {
                    Some(
                        PrefsModel {
                            interface: InterfacePrefs { language: others[0], ..self.interface },
                            ..self
                        },
                    )
                }
            },
            PrefControl::Units => Some(
                PrefsModel {
                    interface: InterfacePrefs {
                        units: if self.interface.units == Unit::Centimeters {
                            Unit::Inches
                        } else {
                            Unit::Centimeters
                        },
                        ..self.interface
                    },
                    ..self
                },
            ),
            PrefControl::ScrollWheelZooms => Some(
                PrefsModel {
                    tools: ToolPrefs { scroll_wheel_zooms: !self.tools.scroll_wheel_zooms },
                    ..self
                },
            ),
            PrefControl::HistoryStates => Some(
                PrefsModel {
                    history: HistoryPrefs {
                        states: if self.history.states == 250 {
                            300
                        } else {
                            250
                        },
                    },
                    ..self
                },
            ),
            PrefControl::ScratchDir => Some(
                PrefsModel {
                    scratch_dir: if self.scratch_dir.len() == 0 {
                        "scratch-elsewhere"@
                    } else {
                        ""@
                    },
                    ..self
                },
            ),
            PrefControl::Keymap => if self.keymap.commands.len() == 0 {
                None
            } else {
                let first = self.keymap.commands[0].id;
                Some(
                    PrefsModel {
                        keymap: if keymap::holder(self.keymap.bound, spare_shortcut()) == Some(
                            first,
                        ) {
                            KeymapModel {
                                bound: keymap::without(self.keymap.bound, spare_shortcut()),
                                ..self.keymap
                            }
                        } else {
                            self.keymap.forced(first, spare_shortcut())
                        },
                        ..self
                    },
                )
            },
        }
    }
}

impl Default for UiPreferences {
    fn default() -> (r: Self)
        ensures
            r@ == PrefsModel::shipped(KeymapModel::empty(), PrefsSection::General),
    {
        UiPreferences {
            general: GeneralPrefs::default(),
            interface: InterfacePrefs::default(),
            tools: ToolPrefs::default(),
            history: HistoryPrefs::default(),
            scratch: ScratchPrefs::default(),
            keymap: Keymap::default(),
            page: PrefsSection::General,
        }
    }
}

impl Clone for UiPreferences {
    fn clone(&self) -> (r: Self)
        ensures
            r@ == self@,
    {
        UiPreferences {
            general: self.general,
            interface: self.interface,
            tools: self.tools,
            history: self.history,
            scratch: self.scratch.clone(),
            keymap: self.keymap.clone(),
            page: self.page,
        }
    }
}

impl UiPreferences {
    /// Force every field into a range the app can actually run with.
    ///
    /// A preferences file is user-editable, so this is the boundary that stops
    /// a hand-typed scale of nothing from making the app unusable with no way
    /// back.
    pub fn sanitized(self) -> (r: Self)
        ensures
            r@ == self@.sanitized(),
    {
        let general = GeneralPrefs {
            autosave_minutes: if self.general.autosave_minutes > MAX_AUTOSAVE_MINUTES {
                MAX_AUTOSAVE_MINUTES
            } else {
                self.general.autosave_minutes
            },
        };
        let ui_scale = if self.interface.ui_scale.is_finite() {
            self.interface.ui_scale.clamp(
                Real32 { bits: MIN_UI_SCALE },
                Real32 { bits: MAX_UI_SCALE },
            )
        } else {
            Real32 { bits: 0x3f80_0000 }
        };
        let units = if self.interface.units == Unit::Percent {
            Unit::Pixels
        } else {
            self.interface.units
        };
        let history = HistoryPrefs {
            states: if self.history.states < 1 {
                1
            } else if self.history.states > MAX_HISTORY_STATES {
                MAX_HISTORY_STATES
            } else {
                self.history.states
            },
        };
        let scratch = ScratchPrefs { dir: text::trim(self.scratch.dir.as_str()) };
        UiPreferences {
            general,
            interface: InterfacePrefs { ui_scale, units, ..self.interface },
            tools: self.tools,
            history,
            scratch,
            keymap: self.keymap,
            page: self.page,
        }
    }

    /// Two sets of preferences, equal setting for setting.
    pub fn same_as(&self, other: &UiPreferences) -> (r: bool)
        ensures
            r == self@.same(other@),
    {
        self.general == other.general && self.interface.theme == other.interface.theme
            && self.interface.ui_scale.is_equal(other.interface.ui_scale)
            && self.interface.language == other.interface.language && self.interface.units
            == other.interface.units && self.tools == other.tools && self.history == other.history
            && text::same(self.scratch.dir.as_str(), other.scratch.dir.as_str())
            && self.keymap.same_as(&other.keymap) && self.page == other.page
    }

    /// Whether every field is already inside its range.
    pub fn is_sane(&self) -> (r: bool)
        ensures
            r == self@.same(self@.sanitized()),
    {
        self.same_as(&self.clone().sanitized())
    }

    /// Seconds between autosaves, or `None` when autosave is off.
    pub fn autosave_interval(&self) -> (r: Option<u64>)
        ensures
            r == if self@.general.autosave_minutes > 0 {
                Some((self@.general.autosave_minutes * 60) as u64)
            } else {
                None
            },
    {
        if self.general.autosave_minutes > 0 {
            Some(self.general.autosave_minutes as u64 * 60)
        } else {
            None
        }
    }
}

/// A scale in the usable range stays; every usable scale is in the range.
proof fn lemma_usable_scale(scale: Real32)
    ensures
        usable_scale(scale).finite(),
        !usable_scale(scale).below(Real32 { bits: MIN_UI_SCALE }),
        !(Real32 { bits: MAX_UI_SCALE }).below(usable_scale(scale)),
        usable_scale(usable_scale(scale)) == usable_scale(scale),
{
}

/// Sanitized preferences are in range, and sanitizing them again changes
/// nothing.
pub proof fn sanitizing_twice_changes_nothing(m: PrefsModel)
    ensures
        m.sanitized().sanitized() == m.sanitized(),
        m.sanitized().same(m.sanitized()),
        m.sanitized().general.autosave_minutes <= MAX_AUTOSAVE_MINUTES,
        m.sanitized().interface.ui_scale.finite(),
        !m.sanitized().interface.ui_scale.below(Real32 { bits: MIN_UI_SCALE }),
        !(Real32 { bits: MAX_UI_SCALE }).below(m.sanitized().interface.ui_scale),
        Unit::PREFERENCE_CHOICES@.contains(m.sanitized().interface.units),
        1 <= m.sanitized().history.states <= MAX_HISTORY_STATES,
{
    lemma_usable_scale(m.interface.ui_scale);
    text::lemma_trimmed_twice(m.scratch_dir);
    let choices = Unit::PREFERENCE_CHOICES@;
    let unit = m.sanitized().interface.units;
    assert(choices.contains(unit)) by {
        assert(choices[0] == Unit::Pixels && choices[1] == Unit::Inches && choices[2]
            == Unit::Centimeters && choices[3] == Unit::Millimeters && choices[4] == Unit::Points
            && choices[5] == Unit::Picas);
    }
}

// ------------------------------------------------------------------ controls

/// Every control the dialog draws, each exactly once.
///
/// The sections draw from this list, so a control cannot be drawn without being
/// here.
#[derive(Clone, Copy, PartialEq, Eq, Structural, Hash, Debug)]
pub enum PrefControl {
    Autosave,
    Theme,
    UiScale,
    Language,
    Units,
    ScrollWheelZooms,
    HistoryStates,
    ScratchDir,
    Keymap,
}

impl PrefControl {
    /// All, in drawing order.
    pub const ALL: [PrefControl; 9] = [
        PrefControl::Autosave,
        PrefControl::Theme,
        PrefControl::UiScale,
        PrefControl::Language,
        PrefControl::Units,
        PrefControl::ScrollWheelZooms,
        PrefControl::HistoryStates,
        PrefControl::ScratchDir,
        PrefControl::Keymap,
    ];

    pub open spec fn key_text(self) -> Seq<char> {
        match self {
            PrefControl::Autosave => "autosave"@,
            PrefControl::Theme => "theme"@,
            PrefControl::UiScale => "ui-scale"@,
            PrefControl::Language => "language"@,
            PrefControl::Units => "units"@,
            PrefControl::ScrollWheelZooms => "scroll-wheel-zooms"@,
            PrefControl::HistoryStates => "history-states"@,
            PrefControl::ScratchDir => "scratch-dir"@,
            PrefControl::Keymap => "keymap"@,
        }
    }

    /// Stable identifier.
    pub fn key(self) -> (r: &'static str)
        ensures
            r@ == self.key_text(),
    {
        match self {
            PrefControl::Autosave => "autosave",
            PrefControl::Theme => "theme",
            PrefControl::UiScale => "ui-scale",
            PrefControl::Language => "language",
            PrefControl::Units => "units",
            PrefControl::ScrollWheelZooms => "scroll-wheel-zooms",
            PrefControl::HistoryStates => "history-states",
            PrefControl::ScratchDir => "scratch-dir",
            PrefControl::Keymap => "keymap",
        }
    }

    /// Where the control is drawn.
    pub open spec fn place(self) -> PrefsSection {
        match self {
            PrefControl::Autosave => PrefsSection::General,
            PrefControl::Theme | PrefControl::UiScale | PrefControl::Language
            | PrefControl::Units => PrefsSection::Interface,
            PrefControl::ScrollWheelZooms => PrefsSection::Tools,
            PrefControl::HistoryStates => PrefsSection::History,
            PrefControl::ScratchDir => PrefsSection::Scratch,
            PrefControl::Keymap => PrefsSection::Keymap,
        }
    }

    /// The section the control is drawn in.
    pub fn section(self) -> (r: PrefsSection)
        ensures
            r == self.place(),
    {
        match self {
            PrefControl::Autosave => PrefsSection::General,
            PrefControl::Theme | PrefControl::UiScale | PrefControl::Language
            | PrefControl::Units => PrefsSection::Interface,
            PrefControl::ScrollWheelZooms => PrefsSection::Tools,
            PrefControl::HistoryStates => PrefsSection::History,
            PrefControl::ScratchDir => PrefsSection::Scratch,
            PrefControl::Keymap => PrefsSection::Keymap,
        }
    }

    /// The controls drawn in one section.
    pub open spec fn drawn_in(section: PrefsSection) -> spec_fn(PrefControl) -> bool {
        |c: PrefControl| c.place() == section
    }

    /// The controls of one section, in drawing order.
    pub open spec fn listed(section: PrefsSection) -> Seq<PrefControl> {
        PrefControl::ALL@.filter(PrefControl::drawn_in(section))
    }

    /// The controls of one section, in drawing order.
    pub fn in_section(section: PrefsSection) -> (r: Vec<PrefControl>)
        ensures
            r@ == PrefControl::listed(section),
    {
        let all = PrefControl::ALL;
        let ghost here = PrefControl::drawn_in(section);
        let mut out: Vec<PrefControl> = Vec::new();
        let mut i: usize = 0;
        while i < 9
            invariant
                i <= 9,
                all@ == PrefControl::ALL@,
                all@.len() == 9,
                here == PrefControl::drawn_in(section),
                out@ == all@.take(i as int).filter(here),
            decreases 9 - i,
        {
            proof {
                reveal(Seq::filter);
                assert(all@.take(i + 1).drop_last() == all@.take(i as int));
            }
            if all[i].section() == section {
                out.push(all[i]);
            }
            i = i + 1;
        }
        assert(all@.take(i as int) == all@);
        out
    }

    /// Change the setting this control edits to something it is not now.
    ///
    /// `false` when no different value exists: a language list of one, or a
    /// keymap with nothing to bind.
    pub fn mutate(self, prefs: &mut UiPreferences) -> (r: bool)
        ensures
            r == (old(prefs)@.edited(self) is Some),
            final(prefs)@ == match old(prefs)@.edited(self) {
                Some(next) => next,
                None => old(prefs)@,
            },
    {
        match self {
            PrefControl::Autosave => {
                prefs.general.autosave_minutes = if prefs.general.autosave_minutes == 7 {
                    8
                } else {
                    7
                };
            },
            PrefControl::Theme => {
                prefs.interface.theme = if prefs.interface.theme == ThemeChoice::Light {
                    ThemeChoice::Dark
                } else {
                    ThemeChoice::Light
                };
            },
            PrefControl::UiScale => {
                prefs.interface.ui_scale = if prefs.interface.ui_scale.is_equal(
                    Real32 { bits: 0x3fc0_0000 },
                ) {
                    Real32 { bits: 0x3fa0_0000 }
                } else {
                    Real32 { bits: 0x3fc0_0000 }
                };
            },
            PrefControl::Language => {
                let all = Locale::ALL;
                let now = prefs.interface.language;
                let ghost other = |l: Locale| l != now;
                let mut i: usize = 0;
                while i < 1
                    invariant
                        i <= 1,
                        all@ == Locale::ALL@,
                        all@.len() == 1,
                        prefs@ == old(prefs)@,
                        prefs.interface.language == now,
                        other == (|l: Locale| l != now),
                        all@.take(i as int).filter(other).len() == 0,
                    decreases 1 - i,
                {
                    proof {
                        reveal(Seq::filter);
                        assert(all@.take(i + 1).drop_last() == all@.take(i as int));
                    }
                    if all[i] != now {
                        proof {
                            lemma_first_filtered(all@, other, i as int);
                        }
                        prefs.interface.language = all[i];
                        return true;
                    }
                    i = i + 1;
                }
                assert(all@.take(i as int) == all@);
                return false;
            },
            PrefControl::Units => {
                prefs.interface.units = if prefs.interface.units == Unit::Centimeters {
                    Unit::Inches
                } else {
                    Unit::Centimeters
                };
            },
            PrefControl::ScrollWheelZooms => {
                prefs.tools.scroll_wheel_zooms = !prefs.tools.scroll_wheel_zooms;
            },
            PrefControl::HistoryStates => {
                prefs.history.states = if prefs.history.states == 250 {
                    300
                } else {
                    250
                };
            },
            PrefControl::ScratchDir => {
                prefs.scratch.dir = if prefs.scratch.dir.as_str().is_empty() {
                    text::copied("scratch-elsewhere")
                } else {
                    text::copied("")
                };
            },
            PrefControl::Keymap => {
                let first = {
                    let commands = prefs.keymap.commands();
                    if commands.len() == 0 {
                        assert(keymap::commands_of(commands@).len() == 0);
                        return false;
                    }
                    assert(keymap::commands_of(commands@)[0] == commands@[0]@);
                    text::copied(commands[0].id.as_str())
                };
                let free = Shortcut { key: Key::F12, ctrl: true, shift: true, alt: true };
                let held = match prefs.keymap.command_for(free) {
                    Some(id) => text::same(id, first.as_str()),
                    None => false,
                };
                if held {
                    return prefs.keymap.unbind(free);
                }
                prefs.keymap.force_assign(first.as_str(), free);
            },
        }
        true
    }
}

/// The first item of a sequence that a filter keeps comes first in what it
/// keeps.
proof fn lemma_first_filtered<T>(s: Seq<T>, keep: spec_fn(T) -> bool, n: int)
    requires
        0 <= n < s.len(),
        s.take(n).filter(keep).len() == 0,
        keep(s[n]),
    ensures
        s.filter(keep).len() > 0,
        s.filter(keep)[0] == s[n],
    decreases s.len(),
{
    reveal(Seq::filter);
    let head = s.drop_last();
    if n == s.len() - 1 {
        assert(s.take(n) == head);
    } else {
        assert(head.take(n) == s.take(n));
        lemma_first_filtered(head, keep, n);
    }
}

/// An edit through a control lands, and only in the control's own section; of
/// preferences in range it makes preferences in range, so a confirmation keeps
/// it.
pub proof fn every_edit_lands(m: PrefsModel, control: PrefControl)
    requires
        m.edited(control) is Some,
    ensures
        !m.edited(control)->0.same(m),
        control.place() != PrefsSection::General ==> m.edited(control)->0.general == m.general,
        control.place() != PrefsSection::Interface ==> m.edited(control)->0.interface
            == m.interface,
        control.place() != PrefsSection::Tools ==> m.edited(control)->0.tools == m.tools,
        control.place() != PrefsSection::History ==> m.edited(control)->0.history == m.history,
        control.place() != PrefsSection::Scratch ==> m.edited(control)->0.scratch_dir
            == m.scratch_dir,
        control.place() != PrefsSection::Keymap ==> m.edited(control)->0.keymap == m.keymap,
        m.edited(control)->0.page == m.page,
        m.sanitized() == m ==> m.edited(control)->0.sanitized() == m.edited(control)->0,
{
    let next = m.edited(control)->0;
    match control {
        PrefControl::Language => {
            reveal(Seq::filter);
            let all = Locale::ALL@;
            let keep = |l: Locale| l != m.interface.language;
            assert(all.filter(keep).len() == 0) by {
                assert(all.len() == 1 && all[0] == Locale::En);
                assert(all.drop_last().filter(keep).len() == 0);
            }
        },
        PrefControl::ScratchDir => {
            reveal_strlit("scratch-elsewhere");
            reveal_strlit("");
            text::lemma_untrimmed(next.scratch_dir);
            if m.scratch_dir.len() == 0 {
                assert(next.scratch_dir.len() > 0);
            }
        },
        PrefControl::Keymap => {
            let first = m.keymap.commands[0].id;
            let free = spare_shortcut();
            keymap::a_forced_chord_moves_alone(m.keymap, first, free, free);
            keymap::an_unbound_chord_runs_nothing(m.keymap.bound, free, free);
            assert(keymap::holder(next.keymap.bound, free) != keymap::holder(
                m.keymap.bound,
                free,
            ));
        },
        _ => {},
    }
}

/// No two controls share a key.
pub proof fn control_keys_differ(a: PrefControl, b: PrefControl)
    ensures
        a.key_text() == b.key_text() ==> a == b,
{
    reveal_strlit("autosave");
    reveal_strlit("theme");
    reveal_strlit("ui-scale");
    reveal_strlit("language");
    reveal_strlit("units");
    reveal_strlit("scroll-wheel-zooms");
    reveal_strlit("history-states");
    reveal_strlit("scratch-dir");
    reveal_strlit("keymap");
    if a.key_text() == b.key_text() {
        assert(a.key_text().len() == b.key_text().len());
        assert(a.key_text()[0] == b.key_text()[0]);
    }
}

/// What each section lists.
proof fn lemma_listed_in(section: PrefsSection)
    ensures
        PrefControl::listed(section) == match section {
            PrefsSection::General => seq![PrefControl::Autosave],
            PrefsSection::Interface => seq![
                PrefControl::Theme,
                PrefControl::UiScale,
                PrefControl::Language,
                PrefControl::Units,
            ],
            PrefsSection::Tools => seq![PrefControl::ScrollWheelZooms],
            PrefsSection::History => seq![PrefControl::HistoryStates],
            PrefsSection::Scratch => seq![PrefControl::ScratchDir],
            PrefsSection::Keymap => seq![PrefControl::Keymap],
        },
{
    reveal(Seq::filter);
    let all = PrefControl::ALL@;
    let here = PrefControl::drawn_in(section);
    assert(all == seq![
        PrefControl::Autosave,
        PrefControl::Theme,
        PrefControl::UiScale,
        PrefControl::Language,
        PrefControl::Units,
        PrefControl::ScrollWheelZooms,
        PrefControl::HistoryStates,
        PrefControl::ScratchDir,
        PrefControl::Keymap,
    ]);
    assert forall|i: int| 0 <= i < 9 implies all.take(i + 1).drop_last() == #[trigger] all.take(
        i,
    ) by {}
    assert(all.take(0).filter(here) == Seq::<PrefControl>::empty());
    lemma_one_more(all, here, 0);
    lemma_one_more(all, here, 1);
    lemma_one_more(all, here, 2);
    lemma_one_more(all, here, 3);
    lemma_one_more(all, here, 4);
    lemma_one_more(all, here, 5);
    lemma_one_more(all, here, 6);
    lemma_one_more(all, here, 7);
    lemma_one_more(all, here, 8);
    assert(all.take(9) == all);
}

proof fn lemma_one_more(all: Seq<PrefControl>, here: spec_fn(PrefControl) -> bool, i: int)
    requires
        0 <= i < all.len(),
    ensures
        all.take(i + 1).filter(here) == if here(all[i]) {
            all.take(i).filter(here).push(all[i])
        } else {
            all.take(i).filter(here)
        },
{
    reveal(Seq::filter);
    assert(all.take(i + 1).drop_last() == all.take(i));
}

/// Where a control stands among all.
spec fn standing(control: PrefControl) -> int {
    match control {
        PrefControl::Autosave => 0,
        PrefControl::Theme => 1,
        PrefControl::UiScale => 2,
        PrefControl::Language => 3,
        PrefControl::Units => 4,
        PrefControl::ScrollWheelZooms => 5,
        PrefControl::HistoryStates => 6,
        PrefControl::ScratchDir => 7,
        PrefControl::Keymap => 8,
    }
}

proof fn lemma_standing(control: PrefControl)
    ensures
        PrefControl::ALL@[standing(control)] == control,
        PrefControl::ALL@.no_duplicates(),
{
    let all = PrefControl::ALL@;
    assert forall|i: int| 0 <= i < 9 implies standing(#[trigger] all[i]) == i by {
        if i == 0 {
        } else if i == 1 {
        } else if i == 2 {
        } else if i == 3 {
        } else if i == 4 {
        } else if i == 5 {
        } else if i == 6 {
        } else if i == 7 {
        }
    }
    assert forall|i: int, j: int| 0 <= i < 9 && 0 <= j < 9 && i != j implies all[i]
        != all[j] by {
        assert(standing(all[i]) == i && standing(all[j]) == j);
    }
}

/// A section lists exactly its own controls, each once.
proof fn lemma_lists_its_own(section: PrefsSection, control: PrefControl)
    ensures
        PrefControl::listed(section).len() > 0,
        PrefControl::listed(section).contains(control) <==> control.place() == section,
        PrefControl::listed(section).no_duplicates(),
{
    lemma_listed_in(section);
    let s = PrefControl::listed(section);
    if control.place() == section {
        let i: int = match control {
            PrefControl::UiScale => 1,
            PrefControl::Language => 2,
            PrefControl::Units => 3,
            _ => 0,
        };
        assert(s[i] == control);
    }
}

/// What the sections draw, one after the other in sidebar order.
#[verifier::opaque]
pub open spec fn drawn() -> Seq<PrefControl> {
    PrefControl::listed(PrefsSection::General) + PrefControl::listed(PrefsSection::Interface)
        + PrefControl::listed(PrefsSection::Tools) + PrefControl::listed(PrefsSection::History)
        + PrefControl::listed(PrefsSection::Scratch) + PrefControl::listed(PrefsSection::Keymap)
}

proof fn lemma_drawn()
    ensures
        drawn() == PrefControl::ALL@,
{
    reveal(drawn);
    lemma_listed_in(PrefsSection::General);
    lemma_listed_in(PrefsSection::Interface);
    lemma_listed_in(PrefsSection::Tools);
    lemma_listed_in(PrefsSection::History);
    lemma_listed_in(PrefsSection::Scratch);
    lemma_listed_in(PrefsSection::Keymap);
    let all = PrefControl::ALL@;
    let a = PrefControl::listed(PrefsSection::General);
    let b = a + PrefControl::listed(PrefsSection::Interface);
    assert(a == all.take(1));
    assert(b == all.take(5));
    let c = b + PrefControl::listed(PrefsSection::Tools);
    assert(c == all.take(6));
    let d = c + PrefControl::listed(PrefsSection::History);
    assert(d == all.take(7));
    let e = d + PrefControl::listed(PrefsSection::Scratch);
    assert(e == all.take(8));
    assert(e + PrefControl::listed(PrefsSection::Keymap) == all);
}

/// Every section has something to draw, and the sections in sidebar order draw
/// all the controls in their order, each exactly once.
pub proof fn the_sections_draw_every_control_once(section: PrefsSection, control: PrefControl)
    ensures
        PrefControl::listed(section).len() > 0,
        PrefControl::listed(section).contains(control) <==> control.place() == section,
        PrefControl::listed(section).no_duplicates(),
        drawn() == PrefControl::ALL@,
        drawn().contains(control),
        drawn().no_duplicates(),
{
    lemma_lists_its_own(section, control);
    lemma_standing(control);
    lemma_drawn();
}

// ------------------------------------------------------------------ dialog

/// The sections of the Preferences dialog, in sidebar order.
#[derive(Clone, Copy, PartialEq, Eq, Structural, Hash, Debug)]
pub enum PrefsSection {
    General,
    Interface,
    Tools,
    History,
    Scratch,
    Keymap,
}

impl Default for PrefsSection {
    fn default() -> (r: Self)
        ensures
            r == PrefsSection::General,
    {
        PrefsSection::General
    }
}

impl PrefsSection {
    /// All six, in sidebar order.
    pub const ALL: [PrefsSection; 6] = [
        PrefsSection::General,
        PrefsSection::Interface,
        PrefsSection::Tools,
        PrefsSection::History,
        PrefsSection::Scratch,
        PrefsSection::Keymap,
    ];

    /// Sidebar label.
    pub fn label(self) -> (r: &'static str)
        ensures
            r@ == match self {
                PrefsSection::General => "General"@,
                PrefsSection::Interface => "Interface"@,
                PrefsSection::Tools => "Tools"@,
                PrefsSection::History => "History"@,
                PrefsSection::Scratch => "Scratch"@,
                PrefsSection::Keymap => "Keyboard Shortcuts"@,
            },
    {
        match self {
            PrefsSection::General => "General",
            PrefsSection::Interface => "Interface",
            PrefsSection::Tools => "Tools",
            PrefsSection::History => "History",
            PrefsSection::Scratch => "Scratch",
            PrefsSection::Keymap => "Keyboard Shortcuts",
        }
    }
}

/// A refused assignment: the command, the chord and the reason.
#[derive(Debug)]
pub struct RefusedShortcut {
    pub id: String,
    pub shortcut: Shortcut,
    pub error: KeymapError,
}

/// What a [`RefusedShortcut`] stands for.
#[verifier::ext_equal]
pub struct RefusedModel {
    pub id: Seq<char>,
    pub shortcut: Shortcut,
    pub error: Refusal,
}

impl View for RefusedShortcut {
    type V = RefusedModel;

    open spec fn view(&self) -> RefusedModel {
        RefusedModel { id: self.id@, shortcut: self.shortcut, error: self.error@ }
    }
}

/// What a [`PreferencesDialog`] stands for.
#[verifier::ext_equal]
pub struct PrefsDialogModel {
    pub prefs: PrefsModel,
    /// The preferences the dialog opened on.
    pub original: PrefsModel,
    pub section: PrefsSection,
    /// The command whose shortcut is being captured.
    pub capturing: Option<Seq<char>>,
    /// The most recent refused assignment.
    pub conflict: Option<RefusedModel>,
}

impl PrefsDialogModel {
    /// The dialog as it opens.
    pub open spec fn opened(prefs: PrefsModel) -> PrefsDialogModel {
        PrefsDialogModel {
            prefs: prefs.sanitized(),
            original: prefs.sanitized(),
            section: prefs.page,
            capturing: None,
            conflict: None,
        }
    }

    /// Every setting in every section back to its default. The keymap's command
    /// list is the host's, not a setting: it stays, and every chord goes back
    /// to the shipped table.
    pub open spec fn restored(self) -> PrefsDialogModel {
        PrefsDialogModel {
            prefs: PrefsModel::shipped(
                KeymapModel { bound: self.prefs.keymap.defaults, ..self.prefs.keymap },
                self.prefs.page,
            ),
            capturing: None,
            conflict: None,
            ..self
        }
    }

    /// Why a chord cannot be bound to the command being captured.
    pub open spec fn refusal(self, shortcut: Shortcut) -> Option<Refusal> {
        match self.capturing {
            None => Some(Refusal::UnknownCommand),
            Some(id) => self.prefs.keymap.refusal(id, shortcut),
        }
    }

    /// The chord pressed for the command being captured. On a conflict the
    /// binding is not made; the collision is recorded, and capture stays open.
    pub open spec fn captured(self, shortcut: Shortcut) -> PrefsDialogModel {
        match self.capturing {
            None => self,
            Some(id) => match self.prefs.keymap.refusal(id, shortcut) {
                None => PrefsDialogModel {
                    prefs: PrefsModel {
                        keymap: self.prefs.keymap.assigned(id, shortcut),
                        ..self.prefs
                    },
                    capturing: None,
                    conflict: None,
                    ..self
                },
                Some(error) => PrefsDialogModel {
                    conflict: Some(RefusedModel { id, shortcut, error }),
                    ..self
                },
            },
        }
    }

    /// The pending shortcut given to the command that was refused it.
    pub open spec fn settled_conflict(self) -> PrefsDialogModel {
        match self.conflict {
            None => self,
            Some(c) => PrefsDialogModel {
                prefs: PrefsModel {
                    keymap: self.prefs.keymap.forced(c.id, c.shortcut),
                    ..self.prefs
                },
                capturing: None,
                conflict: None,
                ..self
            },
        }
    }

    /// The keyboard's part of a frame: Escape leaves the shortcut field before
    /// it leaves the dialog, and a chord pressed while capturing is tried.
    pub open spec fn keyed(self, keys: DialogKeys, chord: Option<Shortcut>) -> PrefsDialogModel {
        if self.capturing is Some {
            if keys.cancel {
                PrefsDialogModel { capturing: None, ..self }
            } else {
                match chord {
                    Some(shortcut) => self.captured(shortcut),
                    None => self,
                }
            }
        } else {
            self
        }
    }
}

/// A refused chord leaves the keymap alone and stays on offer; the user then
/// gives it to the command anyway, or keeps things as they were.
pub proof fn a_refused_chord_waits_for_the_user(m: PrefsDialogModel, shortcut: Shortcut)
    requires
        m.capturing is Some,
        m.prefs.keymap.refusal(m.capturing->0, shortcut) is Some,
    ensures
        m.captured(shortcut).prefs == m.prefs,
        m.captured(shortcut).capturing == m.capturing,
        keymap::holder(
            m.captured(shortcut).settled_conflict().prefs.keymap.bound,
            shortcut,
        ) == m.capturing,
        m.captured(shortcut).settled_conflict().conflict is None,
        m.captured(shortcut).settled_conflict().capturing is None,
{
    keymap::a_forced_chord_moves_alone(m.prefs.keymap, m.capturing->0, shortcut, shortcut);
}

/// Restoring the defaults of preferences that are only off in their settings
/// leaves nothing modified.
pub proof fn restored_defaults_are_unmodified(keymap: KeymapModel, page: PrefsSection, m: PrefsDialogModel)
    requires
        keymap.bound == keymap.defaults,
        m.original == PrefsDialogModel::opened(PrefsModel::shipped(keymap, page)).original,
        m.prefs.keymap.commands == keymap.commands,
        m.prefs.keymap.defaults == keymap.defaults,
        m.prefs.page == page,
    ensures
        m.restored().prefs.same(m.original),
{
    reveal_strlit("");
    text::lemma_untrimmed(""@);
    assert(usable_scale(Real32 { bits: 0x3f80_0000 }) == Real32 { bits: 0x3f80_0000 });
    assert(m.restored().prefs.keymap == keymap);
}

/// A key event of a frame.
#[derive(Clone, Copy, PartialEq, Eq, Structural, Debug)]
pub struct KeyEvent {
    pub key: Key,
    pub pressed: bool,
    pub ctrl: bool,
    pub command: bool,
    pub shift: bool,
    pub alt: bool,
}

/// A key going down that can be part of a chord. Escape, Enter and Tab belong
/// to the dialog.
pub open spec fn bindable(event: KeyEvent) -> bool {
    event.pressed && event.key != Key::Escape && event.key != Key::Enter && event.key != Key::Tab
}

/// The first key pressed this frame, with its modifiers: what the shortcut
/// field captures.
///
/// Escape and Enter are skipped: they belong to the dialog grammar, and a
/// keymap editor that lets the user bind Escape traps them in it. The modifiers
/// are those the key event itself carries: the frame-level set is the state at
/// the end of the frame and can miss a chord pressed and released inside it.
pub fn read_shortcut(events: &Vec<KeyEvent>) -> (r: Option<Shortcut>)
    ensures
        r == match sequences::first_where(events@, |e: KeyEvent| bindable(e)) {
            Some(e) => Some(
                Shortcut { key: e.key, ctrl: e.ctrl || e.command, shift: e.shift, alt: e.alt },
            ),
            None => None,
        },
{
    let ghost wanted = |e: KeyEvent| bindable(e);
    let mut i: usize = 0;
    while i < events.len()
        invariant
            i <= events@.len(),
            wanted == (|e: KeyEvent| bindable(e)),
            sequences::first_where(events@.take(i as int), wanted) is None,
        decreases events@.len() - i,
    {
        let e = events[i];
        proof {
            sequences::lemma_first_where_step(events@, wanted, i as int);
        }
        if e.pressed && e.key != Key::Escape && e.key != Key::Enter && e.key != Key::Tab {
            proof {
                sequences::lemma_first_where_prefix(events@, wanted, i + 1, e);
            }
            return Some(
                Shortcut { key: e.key, ctrl: e.ctrl || e.command, shift: e.shift, alt: e.alt },
            );
        }
        i = i + 1;
    }
    assert(events@.take(i as int) == events@);
    None
}

/// Preferences.
#[derive(Debug)]
pub struct PreferencesDialog {
    prefs: UiPreferences,
    original: UiPreferences,
    section: PrefsSection,
    capturing: Option<String>,
    last_conflict: Option<RefusedShortcut>,
}

impl View for PreferencesDialog {
    type V = PrefsDialogModel;

    closed spec fn view(&self) -> PrefsDialogModel {
        PrefsDialogModel {
            prefs: self.prefs@,
            original: self.original@,
            section: self.section,
            capturing: match self.capturing {
                Some(id) => Some(id@),
                None => None,
            },
            conflict: match self.last_conflict {
                Some(c) => Some(c@),
                None => None,
            },
        }
    }
}

impl Default for PreferencesDialog {
    fn default() -> (r: Self)
        ensures
            r@ == PrefsDialogModel::opened(
                PrefsModel::shipped(KeymapModel::empty(), PrefsSection::General),
            ),
    {
        PreferencesDialog::new(UiPreferences::default())
    }
}

impl PreferencesDialog {
    /// Open on `prefs`, sanitised on the way in, showing
    /// [`UiPreferences::page`].
    pub fn new(prefs: UiPreferences) -> (r: Self)
        ensures
            r@ == PrefsDialogModel::opened(prefs@),
    {
        let prefs = prefs.sanitized();
        PreferencesDialog {
            section: prefs.page,
            original: prefs.clone(),
            prefs,
            capturing: None,
            last_conflict: None,
        }
    }

    /// The preferences as edited.
    pub fn prefs(&self) -> (r: &UiPreferences)
        ensures
            r@ == self@.prefs,
    {
        &self.prefs
    }

    /// Mutable access.
    pub fn prefs_mut(&mut self) -> (r: &mut UiPreferences)
        ensures
            r@ == old(self)@.prefs,
            final(self)@ == (PrefsDialogModel { prefs: final(r)@, ..old(self)@ }),
    {
        &mut self.prefs
    }

    /// The section on screen.
    pub fn section(&self) -> (r: PrefsSection)
        ensures
            r == self@.section,
    {
        self.section
    }

    /// Show a different section.
    pub fn set_section(&mut self, section: PrefsSection)
        ensures
            final(self)@ == (PrefsDialogModel { section, ..old(self)@ }),
    {
        self.section = section;
    }

    /// Whether anything changed since the dialog opened.
    pub fn is_modified(&self) -> (r: bool)
        ensures
            r == !self@.prefs.same(self@.original),
    {
        !self.prefs.same_as(&self.original)
    }

    /// Restore every setting in *every* section to its default. The keymap's
    /// command list is the host's, not a setting: it stays, and every chord
    /// goes back to the shipped table.
    pub fn restore_defaults(&mut self)
        ensures
            final(self)@ == old(self)@.restored(),
    {
        let mut keymap = self.prefs.keymap.clone();
        keymap.reset();
        let page = self.prefs.page;
        let fresh = UiPreferences::default();
        self.prefs = UiPreferences {
            general: fresh.general,
            interface: fresh.interface,
            tools: fresh.tools,
            history: fresh.history,
            scratch: fresh.scratch,
            keymap,
            page,
        };
        self.last_conflict = None;
        self.capturing = None;
    }

    /// The command whose next keystroke will be captured.
    pub fn capturing(&self) -> (r: Option<&str>)
        ensures
            match r {
                Some(id) => self@.capturing == Some(id@),
                None => self@.capturing is None,
            },
    {
        match &self.capturing {
            Some(id) => Some(id.as_str()),
            None => None,
        }
    }

    /// Start listening for a shortcut for `id`.
    pub fn begin_capture(&mut self, id: &str)
        ensures
            final(self)@ == (PrefsDialogModel {
                capturing: Some(id@),
                conflict: None,
                ..old(self)@
            }),
    {
        self.capturing = Some(text::copied(id));
        self.last_conflict = None;
    }

    /// Stop listening without binding anything.
    pub fn cancel_capture(&mut self)
        ensures
            final(self)@ == (PrefsDialogModel { capturing: None, ..old(self)@ }),
    {
        self.capturing = None;
    }

    /// The Add Shortcut button of a command's row: it starts listening for the
    /// command, or stops where it was.
    pub fn toggle_capture(&mut self, id: &str)
        ensures
            final(self)@ == if old(self)@.capturing == Some(id@) {
                PrefsDialogModel { capturing: None, ..old(self)@ }
            } else {
                PrefsDialogModel { capturing: Some(id@), conflict: None, ..old(self)@ }
            },
    {
        let here = match &self.capturing {
            Some(now) => text::same(now.as_str(), id),
            None => false,
        };
        if here {
            self.cancel_capture();
        } else {
            self.begin_capture(id);
        }
    }

    /// Try to bind `shortcut` to the command being captured.
    ///
    /// On a conflict the binding is **not** made; the collision is recorded so
    /// the dialog can offer to displace the other command, and capture stays
    /// open so Escape still gets the user out.
    pub fn capture(&mut self, shortcut: Shortcut) -> (r: Result<(), KeymapError>)
        ensures
            final(self)@ == old(self)@.captured(shortcut),
            match r {
                Ok(()) => old(self)@.refusal(shortcut) is None,
                Err(error) => old(self)@.refusal(shortcut) == Some(error@),
            },
    {
        let id = match &self.capturing {
            Some(id) => text::copied(id.as_str()),
            None => {
                return Err(KeymapError::UnknownCommand);
            },
        };
        match self.prefs.keymap.assign(id.as_str(), shortcut) {
            Ok(()) => {
                self.capturing = None;
                self.last_conflict = None;
                Ok(())
            },
            Err(error) => {
                self.last_conflict = Some(RefusedShortcut { id, shortcut, error: error.clone() });
                Err(error)
            },
        }
    }

    /// Take the pending shortcut away from whoever holds it and give it to the
    /// command that was refused. Returns the command that lost it.
    pub fn resolve_conflict(&mut self) -> (r: Option<String>)
        ensures
            final(self)@ == old(self)@.settled_conflict(),
            match r {
                Some(id) => old(self)@.conflict is Some && old(self)@.prefs.keymap.displaced(
                    old(self)@.conflict->0.id,
                    old(self)@.conflict->0.shortcut,
                ) == Some(id@),
                None => old(self)@.conflict is Some ==> old(self)@.prefs.keymap.displaced(
                    old(self)@.conflict->0.id,
                    old(self)@.conflict->0.shortcut,
                ) is None,
            },
    {
        let (id, shortcut) = match &self.last_conflict {
            Some(c) => (text::copied(c.id.as_str()), c.shortcut),
            None => {
                return None;
            },
        };
        self.last_conflict = None;
        self.capturing = None;
        self.prefs.keymap.force_assign(id.as_str(), shortcut)
    }

    /// Keep the keymap as it was: the refused assignment is forgotten.
    pub fn dismiss_conflict(&mut self)
        ensures
            final(self)@ == (PrefsDialogModel { capturing: None, conflict: None, ..old(self)@ }),
    {
        self.last_conflict = None;
        self.capturing = None;
    }

    /// The refused assignment still waiting on the user, if any.
    pub fn pending_conflict(&self) -> (r: Option<&RefusedShortcut>)
        ensures
            match r {
                Some(c) => self@.conflict == Some(c@),
                None => self@.conflict is None,
            },
    {
        match &self.last_conflict {
            Some(c) => Some(c),
            None => None,
        }
    }

    /// Every chord back to the shipped table.
    pub fn reset_shortcuts(&mut self)
        ensures
            final(self)@ == (PrefsDialogModel {
                prefs: PrefsModel {
                    keymap: KeymapModel {
                        bound: old(self)@.prefs.keymap.defaults,
                        ..old(self)@.prefs.keymap
                    },
                    ..old(self)@.prefs
                },
                capturing: None,
                conflict: None,
                ..old(self)@
            }),
    {
        self.prefs.keymap.reset();
        self.last_conflict = None;
        self.capturing = None;
    }

    /// Type minutes between autosaves; fewer than none is none. The field stops
    /// at a day, well short of where the count would wrap.
    pub fn set_autosave_minutes(&mut self, minutes: i64)
        ensures
            final(self)@ == (PrefsDialogModel {
                prefs: PrefsModel {
                    general: GeneralPrefs {
                        autosave_minutes: if minutes < 0 {
                            0
                        } else {
                            minutes as u32
                        },
                    },
                    ..old(self)@.prefs
                },
                ..old(self)@
            }),
    {
        self.prefs.general.autosave_minutes = if minutes < 0 {
            0
        } else {
            #[verifier::truncate]
            (minutes as u32)
        };
    }

    /// Type a number of undo states; at least one is kept.
    pub fn set_history_states(&mut self, states: i64)
        ensures
            final(self)@ == (PrefsDialogModel {
                prefs: PrefsModel {
                    history: HistoryPrefs {
                        states: if states < 1 {
                            1
                        } else {
                            states as u32
                        },
                    },
                    ..old(self)@.prefs
                },
                ..old(self)@
            }),
    {
        self.prefs.history.states = if states < 1 {
            1
        } else {
            #[verifier::truncate]
            (states as u32)
        };
    }

    /// The UI scale as the field shows it, in percent.
    pub fn ui_scale_percent(&self) -> (r: Real64)
        ensures
            r == self@.prefs.interface.ui_scale.widened_spec().times_spec(
                Real64 { bits: 0x4059_0000_0000_0000 },
            ),
    {
        self.prefs.interface.ui_scale.widened().times(Real64 { bits: 0x4059_0000_0000_0000 })
    }

    /// Type a UI scale, in percent.
    pub fn set_ui_scale_percent(&mut self, percent: Real64)
        ensures
            final(self)@ == (PrefsDialogModel {
                prefs: PrefsModel {
                    interface: InterfacePrefs {
                        ui_scale: percent.over_spec(
                            Real64 { bits: 0x4059_0000_0000_0000 },
                        ).narrowed_spec(),
                        ..old(self)@.prefs.interface
                    },
                    ..old(self)@.prefs
                },
                ..old(self)@
            }),
    {
        self.prefs.interface.ui_scale = percent.over(
            Real64 { bits: 0x4059_0000_0000_0000 },
        ).narrowed();
    }

    /// What stands under the autosave field while autosave is off.
    pub fn autosave_warning(&self) -> (r: Option<&'static str>)
        ensures
            match r {
                Some(line) => self@.prefs.general.autosave_minutes == 0 && line@
                    == "Autosave is off: a crash loses everything since the last save."@,
                None => self@.prefs.general.autosave_minutes != 0,
            },
    {
        if self.prefs.general.autosave_minutes == 0 {
            Some("Autosave is off: a crash loses everything since the last save.")
        } else {
            None
        }
    }

    pub fn title(&self) -> (r: &'static str)
        ensures
            r@ == "Preferences"@,
    {
        "Preferences"
    }

    pub fn confirm_label(&self) -> (r: &'static str)
        ensures
            r@ == "Save"@,
    {
        "Save"
    }

    /// What a confirmation hands over: the preferences, sanitized.
    pub fn confirm(&self) -> (r: Option<UiPreferences>)
        ensures
            chrome::request_view(r) == Some(self@.prefs.sanitized()),
    {
        Some(self.prefs.clone().sanitized())
    }

    /// Nothing keeps the preferences from being saved.
    pub fn blocked_reason(&self) -> (r: Option<String>)
        ensures
            r is None,
    {
        None
    }

    /// The keyboard's part of a frame: `chord` is the shortcut pressed in it.
    pub fn resolve(&mut self, keys: DialogKeys, chord: Option<Shortcut>) -> (r: DialogOutcome<
        UiPreferences,
    >)
        ensures
            final(self)@ == old(self)@.keyed(keys, chord),
            r@ == if keys.cancel && old(self)@.capturing is Some {
                DialogOutcome::Open
            } else {
                chrome::settled(keys, Some(final(self)@.prefs.sanitized()))
            },
    {
        if keys.cancel && self.capturing.is_some() {
            self.cancel_capture();
            return DialogOutcome::Open;
        }
        if self.capturing.is_some() {
            match chord {
                Some(shortcut) => {
                    let _ = self.capture(shortcut);
                },
                None => {},
            }
        }
        chrome::settle(keys, self.confirm())
    }

    /// A button of the action row; its one extra button is Restore Defaults.
    pub fn press(&mut self, button: DialogButton) -> (r: DialogOutcome<UiPreferences>)
        ensures
            final(self)@ == if button is Extra {
                old(self)@.restored()
            } else {
                old(self)@
            },
            r@ == chrome::pressed(button, Some(old(self)@.prefs.sanitized())),
    {
        match button {
            DialogButton::Extra(_) => {
                self.restore_defaults();
                DialogOutcome::Open
            },
            other => chrome::press(other, self.confirm()),
        }
    }

    /// The banner over the shortcut list: what was refused, and why. `chord` is
    /// the refused chord as it is written.
    pub fn conflict_message(&self, chord: &str) -> (r: Option<String>)
        ensures
            match r {
                Some(message) => self@.conflict is Some && message@ == {
                    let c = self@.conflict->0;
                    keymap_label(self@.prefs.keymap, c.id) + ": "@ + chord@ + " — "@ + match c.error {
                        Refusal::Conflict { held_by } => strings::entry(
                            "ui.keymap.already.used.by"@,
                        ) + " "@ + keymap_label(self@.prefs.keymap, held_by),
                        Refusal::UnknownCommand => strings::entry("ui.keymap.unknown.command"@),
                    }
                },
                None => self@.conflict is None,
            },
    {
        match &self.last_conflict {
            Some(c) => {
                let reason = match &c.error {
                    KeymapError::Conflict { held_by } => text::copied(
                        strings::tr("ui.keymap.already.used.by"),
                    ).concat(" ").concat(self.prefs.keymap.label_of(held_by.as_str()).as_str()),
                    KeymapError::UnknownCommand => text::copied(
                        strings::tr("ui.keymap.unknown.command"),
                    ),
                };
                Some(
                    self.prefs.keymap.label_of(c.id.as_str()).concat(": ").concat(chord).concat(
                        " — ",
                    ).concat(reason.as_str()),
                )
            },
            None => None,
        }
    }
}

/// The label the keymap shows for a command.
pub open spec fn keymap_label(m: KeymapModel, id: Seq<char>) -> Seq<char> {
    match sequences::first_where(m.commands, |c: keymap::CommandModel| c.id == id) {
        Some(c) => c.label,
        None => id,
    }
}

} // verus!

//! Turning a keypress into the same thing the menu would do.
//!
//! A shortcut hint painted beside a menu item is a promise: a chord is looked up
//! in the *same* table the menu draws, so a shortcut can never do something its
//! menu item does not, and can never work while its menu item is disabled.
//!
//! Tool letters are handled after menu chords and only when no modifier is held,
//! so `Ctrl+V` is Paste and a bare `V` is the Move tool.

use crate::intent::{ChannelKind, Intent};
use crate::keymap;
use crate::keymap::{Key, Keymap, Shortcut};
use crate::sequences;
use crate::tool_id::ToolId;
use vstd::prelude::*;

verus! {

/// The modifier keys held with a key.
#[derive(Clone, Copy, PartialEq, Eq, Structural, Hash, Debug)]
pub struct Modifiers {
    pub alt: bool,
    pub ctrl: bool,
    pub shift: bool,
    /// The Mac's Command key.
    pub mac_cmd: bool,
    /// The platform's primary modifier: Command on a Mac, Ctrl elsewhere.
    pub command: bool,
}

impl Modifiers {
    pub open spec fn some_held(self) -> bool {
        self.alt || self.ctrl || self.shift || self.mac_cmd || self.command
    }

    /// Whether any modifier is held.
    pub fn any(self) -> (r: bool)
        ensures
            r == self.some_held(),
    {
        self.alt || self.ctrl || self.shift || self.mac_cmd || self.command
    }

    /// No modifier.
    pub fn bare() -> (r: Modifiers)
        ensures
            r == (Modifiers {
                alt: false,
                ctrl: false,
                shift: false,
                mac_cmd: false,
                command: false,
            }),
    {
        Modifiers { alt: false, ctrl: false, shift: false, mac_cmd: false, command: false }
    }
}

impl Key {
    /// The character a letter or digit key types, letters in lower case.
    pub open spec fn character(self) -> Option<char> {
        match self {
            Key::Num0 => Some('0'),
            Key::Num1 => Some('1'),
            Key::Num2 => Some('2'),
            Key::Num3 => Some('3'),
            Key::Num4 => Some('4'),
            Key::Num5 => Some('5'),
            Key::Num6 => Some('6'),
            Key::Num7 => Some('7'),
            Key::Num8 => Some('8'),
            Key::Num9 => Some('9'),
            Key::A => Some('a'),
            Key::B => Some('b'),
            Key::C => Some('c'),
            Key::D => Some('d'),
            Key::E => Some('e'),
            Key::F => Some('f'),
            Key::G => Some('g'),
            Key::H => Some('h'),
            Key::I => Some('i'),
            Key::J => Some('j'),
            Key::K => Some('k'),
            Key::L => Some('l'),
            Key::M => Some('m'),
            Key::N => Some('n'),
            Key::O => Some('o'),
            Key::P => Some('p'),
            Key::Q => Some('q'),
            Key::R => Some('r'),
            Key::S => Some('s'),
            Key::T => Some('t'),
            Key::U => Some('u'),
            Key::V => Some('v'),
            Key::W => Some('w'),
            Key::X => Some('x'),
            Key::Y => Some('y'),
            Key::Z => Some('z'),
            _ => None,
        }
    }

    /// The character a letter or digit key types, letters in lower case.
    pub fn typed(self) -> (r: Option<char>)
        ensures
            r == self.character(),
    {
        match self {
            Key::Num0 => Some('0'),
            Key::Num1 => Some('1'),
            Key::Num2 => Some('2'),
            Key::Num3 => Some('3'),
            Key::Num4 => Some('4'),
            Key::Num5 => Some('5'),
            Key::Num6 => Some('6'),
            Key::Num7 => Some('7'),
            Key::Num8 => Some('8'),
            Key::Num9 => Some('9'),
            Key::A => Some('a'),
            Key::B => Some('b'),
            Key::C => Some('c'),
            Key::D => Some('d'),
            Key::E => Some('e'),
            Key::F => Some('f'),
            Key::G => Some('g'),
            Key::H => Some('h'),
            Key::I => Some('i'),
            Key::J => Some('j'),
            Key::K => Some('k'),
            Key::L => Some('l'),
            Key::M => Some('m'),
            Key::N => Some('n'),
            Key::O => Some('o'),
            Key::P => Some('p'),
            Key::Q => Some('q'),
            Key::R => Some('r'),
            Key::S => Some('s'),
            Key::T => Some('t'),
            Key::U => Some('u'),
            Key::V => Some('v'),
            Key::W => Some('w'),
            Key::X => Some('x'),
            Key::Y => Some('y'),
            Key::Z => Some('z'),
            _ => None,
        }
    }

    /// The digit a digit key types.
    pub open spec fn digit_spec(self) -> Option<u8> {
        match self {
            Key::Num0 => Some(0),
            Key::Num1 => Some(1),
            Key::Num2 => Some(2),
            Key::Num3 => Some(3),
            Key::Num4 => Some(4),
            Key::Num5 => Some(5),
            Key::Num6 => Some(6),
            Key::Num7 => Some(7),
            Key::Num8 => Some(8),
            Key::Num9 => Some(9),
            _ => None,
        }
    }

    /// The digit a digit key types.
    pub fn digit(self) -> (r: Option<u8>)
        ensures
            r == self.digit_spec(),
    {
        match self {
            Key::Num0 => Some(0),
            Key::Num1 => Some(1),
            Key::Num2 => Some(2),
            Key::Num3 => Some(3),
            Key::Num4 => Some(4),
            Key::Num5 => Some(5),
            Key::Num6 => Some(6),
            Key::Num7 => Some(7),
            Key::Num8 => Some(8),
            Key::Num9 => Some(9),
            _ => None,
        }
    }
}

/// What a menu item does: an intent, or the reason it is unavailable.
#[derive(PartialEq, Debug)]
pub enum Resolution<C, A> {
    Enabled(Intent<C, A>),
    Disabled(String),
}

impl<C, A> Resolution<C, A> {
    pub fn is_enabled(&self) -> (r: bool)
        ensures
            r == (self is Enabled),
    {
        match self {
            Resolution::Enabled(_) => true,
            Resolution::Disabled(_) => false,
        }
    }

    pub fn intent(&self) -> (r: Option<&Intent<C, A>>)
        ensures
            r == match self {
                Resolution::Enabled(intent) => Some(intent),
                Resolution::Disabled(_) => None,
            },
    {
        match self {
            Resolution::Enabled(intent) => Some(intent),
            Resolution::Disabled(_) => None,
        }
    }

    pub fn reason(&self) -> (r: Option<&str>)
        ensures
            match self {
                Resolution::Enabled(_) => r is None,
                Resolution::Disabled(why) => r is Some && r->0@ == why@,
            },
    {
        match self {
            Resolution::Enabled(_) => None,
            Resolution::Disabled(why) => Some(why.as_str()),
        }
    }
}

/// The chord a key makes with its modifiers. The primary modifier is the
/// chord's Ctrl.
pub open spec fn chord_of(key: Key, modifiers: Modifiers) -> Shortcut {
    Shortcut { key, ctrl: modifiers.command, shift: modifiers.shift, alt: modifiers.alt }
}

/// The command a chord runs, from the same table the menu draws its hints from.
///
/// `None` when no command claims the chord: the caller then tries the channel
/// chords and the tool letters.
pub fn resolve_key<'a>(key: Key, modifiers: Modifiers, keymap: &'a Keymap) -> (r: Option<&'a str>)
    ensures
        match r {
            Some(id) => keymap::holder(keymap@.bound, chord_of(key, modifiers)) == Some(id@),
            None => keymap::holder(keymap@.bound, chord_of(key, modifiers)) is None,
        },
{
    let chord = Shortcut {
        key,
        ctrl: modifiers.command,
        shift: modifiers.shift,
        alt: modifiers.alt,
    };
    keymap.command_for(chord)
}

/// A row of the Channels panel: what it shows, and the digit its chord hint
/// prints.
#[derive(Clone, Copy, PartialEq, Eq, Structural, Debug)]
pub struct ChannelRow {
    pub kind: ChannelKind,
    pub digit: Option<u8>,
}

/// The colour components some rows name.
pub open spec fn named_components(rows: Seq<ChannelRow>) -> Set<u8> {
    Set::new(|index: u8| rows.map_values(|row: ChannelRow| row.kind).contains(
        ChannelKind::Component(index),
    ))
}

/// One more row names one more component, or none.
pub proof fn lemma_named_push(rows: Seq<ChannelRow>, row: ChannelRow)
    ensures
        named_components(rows.push(row)) == match row.kind {
            ChannelKind::Component(index) => named_components(rows).insert(index),
            _ => named_components(rows),
        },
{
    let kind = |r: ChannelRow| r.kind;
    let before = rows.map_values(kind);
    let after = rows.push(row).map_values(kind);
    assert(after == before.push(row.kind));
    assert forall|index: u8| #[trigger] named_components(rows.push(row)).contains(index) <==> (
    named_components(rows).contains(index) || row.kind == ChannelKind::Component(index)) by {
        let c = ChannelKind::Component(index);
        if before.contains(c) {
            let k = choose|k: int| 0 <= k < before.len() && before[k] == c;
            assert(after[k] == c);
        }
        if row.kind == c {
            assert(after[before.len() as int] == c);
        }
        if after.contains(c) {
            let k = choose|k: int| 0 <= k < after.len() && after[k] == c;
            if k < before.len() {
                assert(before[k] == c);
            }
        }
    }
    match row.kind {
        ChannelKind::Component(index) => {
            assert(named_components(rows.push(row)) == named_components(rows).insert(index));
        },
        _ => {
            assert(named_components(rows.push(row)) == named_components(rows));
        },
    }
}

/// The channel a chord isolates: the first row that wears the digit, with the
/// primary modifier held and no other.
pub open spec fn channel_of(
    key: Key,
    modifiers: Modifiers,
    rows: Seq<ChannelRow>,
) -> Option<ChannelKind> {
    match key.digit_spec() {
        Some(digit) if modifiers.command && !modifiers.alt && !modifiers.shift => {
            match sequences::first_where(rows, |row: ChannelRow| row.digit == Some(digit)) {
                Some(row) => Some(row.kind),
                None => None,
            }
        },
        _ => None,
    }
}

fn row_with_digit(rows: &Vec<ChannelRow>, digit: u8) -> (r: Option<ChannelKind>)
    ensures
        r == match sequences::first_where(rows@, |row: ChannelRow| row.digit == Some(digit)) {
            Some(row) => Some(row.kind),
            None => None,
        },
{
    let ghost wears = |row: ChannelRow| row.digit == Some(digit);
    let mut i: usize = 0;
    while i < rows.len()
        invariant
            i <= rows@.len(),
            wears == (|row: ChannelRow| row.digit == Some(digit)),
            sequences::first_where(rows@.take(i as int), wears) is None,
        decreases rows@.len() - i,
    {
        proof {
            sequences::lemma_first_where_step(rows@, wears, i as int);
        }
        if rows[i].digit == Some(digit) {
            proof {
                sequences::lemma_first_where_prefix(rows@, wears, i + 1, rows@[i as int]);
            }
            return Some(rows[i].kind);
        }
        i = i + 1;
    }
    assert(rows@.take(i as int) == rows@);
    None
}

/// The channel `Ctrl+<digit>` isolates, given the rows the Channels panel is
/// listing.
///
/// Looked up in the same rows the panel draws, so the hint painted beside a
/// channel and the chord that acts on it are one decision, not two. `None` for
/// any chord carrying another modifier, and for a digit no row wears.
pub fn channel_for_key(key: Key, modifiers: Modifiers, rows: &Vec<ChannelRow>) -> (r: Option<
    ChannelKind,
>)
    ensures
        r == channel_of(key, modifiers, rows@),
{
    if !modifiers.command || modifiers.alt || modifiers.shift {
        return None;
    }
    match key.digit() {
        Some(digit) => row_with_digit(rows, digit),
        None => None,
    }
}

/// A tool and the letter that selects it.
#[derive(Clone, Copy, PartialEq, Eq, Structural, Debug)]
pub struct ToolLetter {
    pub tool: ToolId,
    pub letter: char,
}

/// The tools a letter stands for, in the registry's order.
pub open spec fn letter_group(registry: Seq<ToolLetter>, letter: char) -> Seq<ToolId> {
    registry.filter(|t: ToolLetter| t.letter == letter).map_values(|t: ToolLetter| t.tool)
}

/// The tool after the active one in its group, from the last back to the first;
/// the first where the active tool is of another group.
pub open spec fn cycled(group: Seq<ToolId>, active: Option<ToolId>) -> Option<ToolId> {
    if group.len() == 0 {
        None
    } else {
        match active {
            Some(tool) if group.contains(tool) => {
                let next = group.index_of_first(tool)->0 + 1;
                Some(
                    group[if next < group.len() {
                        next
                    } else {
                        0
                    }],
                )
            },
            _ => Some(group[0]),
        }
    }
}

/// The tool a key selects.
pub open spec fn tool_of(
    key: Key,
    modifiers: Modifiers,
    registry: Seq<ToolLetter>,
    active: Option<ToolId>,
) -> Option<ToolId> {
    match key.character() {
        Some(letter) if !modifiers.some_held() => cycled(letter_group(registry, letter), active),
        _ => None,
    }
}

/// The tools a letter stands for, in the registry's order.
pub fn by_shortcut(registry: &Vec<ToolLetter>, letter: char) -> (r: Vec<ToolId>)
    ensures
        r@ == letter_group(registry@, letter),
{
    let ghost own = |t: ToolLetter| t.letter == letter;
    let ghost tool = |t: ToolLetter| t.tool;
    let mut out: Vec<ToolId> = Vec::new();
    let mut i: usize = 0;
    while i < registry.len()
        invariant
            i <= registry@.len(),
            own == (|t: ToolLetter| t.letter == letter),
            tool == (|t: ToolLetter| t.tool),
            out@ == registry@.take(i as int).filter(own).map_values(tool),
        decreases registry@.len() - i,
    {
        proof {
            reveal(Seq::filter);
            assert(registry@.take(i + 1).drop_last() == registry@.take(i as int));
        }
        if registry[i].letter == letter {
            out.push(registry[i].tool);
        }
        assert(out@ == registry@.take(i + 1).filter(own).map_values(tool));
        i = i + 1;
    }
    assert(registry@.take(i as int) == registry@);
    out
}

fn place_in(group: &Vec<ToolId>, tool: ToolId) -> (r: Option<usize>)
    ensures
        match r {
            Some(k) => k < group@.len() && group@[k as int] == tool && forall|j: int|
                0 <= j < k ==> group@[j] != tool,
            None => !group@.contains(tool),
        },
{
    let mut i: usize = 0;
    while i < group.len()
        invariant
            i <= group@.len(),
            forall|j: int| 0 <= j < i ==> group@[j] != tool,
        decreases group@.len() - i,
    {
        if group[i] == tool {
            return Some(i);
        }
        i = i + 1;
    }
    None
}

/// The tool a bare letter selects, cycling within its group.
///
/// `None` for any chord carrying a modifier, since a tool letter is always bare,
/// and for a key no tool claims.
pub fn tool_for_key(
    key: Key,
    modifiers: Modifiers,
    registry: &Vec<ToolLetter>,
    active: Option<ToolId>,
) -> (r: Option<ToolId>)
    ensures
        r == tool_of(key, modifiers, registry@, active),
{
    if modifiers.any() {
        return None;
    }
    let letter = match key.typed() {
        Some(letter) => letter,
        None => {
            return None;
        },
    };
    let group = by_shortcut(registry, letter);
    if group.len() == 0 {
        return None;
    }
    if let Some(tool) = active {
        if let Some(k) = place_in(&group, tool) {
            assert(group@.contains(tool));
            proof {
                group@.index_of_first_ensures(tool);
            }
            assert(group@.index_of_first(tool) == Some(k as int));
            if k + 1 < group.len() {
                return Some(group[k + 1]);
            }
            return Some(group[0]);
        }
    }
    Some(group[0])
}

/// No press is both a channel chord and a tool letter: one needs the primary
/// modifier, the other none at all.
pub proof fn a_press_means_one_thing(
    key: Key,
    modifiers: Modifiers,
    rows: Seq<ChannelRow>,
    registry: Seq<ToolLetter>,
    active: Option<ToolId>,
)
    ensures
        channel_of(key, modifiers, rows) is Some ==> tool_of(
            key,
            modifiers,
            registry,
            active,
        ) is None,
{
}

/// A chord hint is kept: with the primary modifier alone, the digit a row wears
/// and no earlier row does selects that row's channel.
pub proof fn a_printed_digit_selects_its_channel(
    key: Key,
    modifiers: Modifiers,
    rows: Seq<ChannelRow>,
    at: int,
)
    requires
        0 <= at < rows.len(),
        key.digit_spec() is Some,
        rows[at].digit == key.digit_spec(),
        forall|j: int| 0 <= j < at ==> rows[j].digit != key.digit_spec(),
        modifiers.command,
        !modifiers.alt,
        !modifiers.shift,
    ensures
        channel_of(key, modifiers, rows) == Some(rows[at].kind),
{
    let digit = key.digit_spec()->0;
    let wears = |row: ChannelRow| row.digit == Some(digit);
    sequences::lemma_first_where(rows, wears);
    assert(wears(rows[at]));
}

/// Pressing a letter again moves on within its group: every tool of a group of
/// different tools is reached from the one before it.
pub proof fn a_letter_cycles_within_its_group(
    key: Key,
    modifiers: Modifiers,
    registry: Seq<ToolLetter>,
    at: int,
)
    requires
        !modifiers.some_held(),
        key.character() is Some,
        0 <= at < letter_group(registry, key.character()->0).len(),
        letter_group(registry, key.character()->0).no_duplicates(),
    ensures
        ({
            let group = letter_group(registry, key.character()->0);
            tool_of(key, modifiers, registry, Some(group[at])) == Some(
                group[if at + 1 < group.len() {
                    at + 1
                } else {
                    0
                }],
            )
        }),
{
    let group = letter_group(registry, key.character()->0);
    let tool = group[at];
    assert(group.contains(tool));
    group.index_of_first_ensures(tool);
}

} // verus!

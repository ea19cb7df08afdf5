//! Chords, the commands they run, and the table that binds one to the other.
//!
//! A shortcut that is silently taken from another command is a bug the user
//! only discovers later, so [`Keymap::assign`] reports the collision instead of
//! resolving it. The model is generic: the host lists the commands and their
//! chords.

use crate::sequences;
use crate::text;
use vstd::prelude::*;

verus! {

/// A key of the keyboard.
#[derive(Clone, Copy, PartialEq, Eq, Structural, Hash, Debug)]
pub enum Key {
    ArrowDown,
    ArrowLeft,
    ArrowRight,
    ArrowUp,
    Escape,
    Tab,
    Backspace,
    Enter,
    Space,
    Insert,
    Delete,
    Home,
    End,
    PageUp,
    PageDown,
    Copy,
    Cut,
    Paste,
    Colon,
    Comma,
    Backslash,
    Slash,
    Pipe,
    Questionmark,
    OpenBracket,
    CloseBracket,
    Backtick,
    Minus,
    Period,
    Plus,
    Equals,
    Semicolon,
    Quote,
    Num0,
    Num1,
    Num2,
    Num3,
    Num4,
    Num5,
    Num6,
    Num7,
    Num8,
    Num9,
    A,
    B,
    C,
    D,
    E,
    F,
    G,
    H,
    I,
    J,
    K,
    L,
    M,
    N,
    O,
    P,
    Q,
    R,
    S,
    T,
    U,
    V,
    W,
    X,
    Y,
    Z,
    F1,
    F2,
    F3,
    F4,
    F5,
    F6,
    F7,
    F8,
    F9,
    F10,
    F11,
    F12,
    F13,
    F14,
    F15,
    F16,
    F17,
    F18,
    F19,
    F20,
    F21,
    F22,
    F23,
    F24,
    F25,
    F26,
    F27,
    F28,
    F29,
    F30,
    F31,
    F32,
    F33,
    F34,
    F35,
}

/// A key with its modifiers.
#[derive(Clone, Copy, PartialEq, Eq, Structural, Hash, Debug)]
pub struct Shortcut {
    pub key: Key,
    pub ctrl: bool,
    pub shift: bool,
    pub alt: bool,
}

impl Shortcut {
    /// The bare key.
    pub fn plain(key: Key) -> (r: Shortcut)
        ensures
            r == (Shortcut { key, ctrl: false, shift: false, alt: false }),
    {
        Shortcut { key, ctrl: false, shift: false, alt: false }
    }

    /// The key with Ctrl held.
    pub fn ctrl(key: Key) -> (r: Shortcut)
        ensures
            r == (Shortcut { key, ctrl: true, shift: false, alt: false }),
    {
        Shortcut { key, ctrl: true, shift: false, alt: false }
    }

    /// The key with Ctrl and Shift held.
    pub fn ctrl_shift(key: Key) -> (r: Shortcut)
        ensures
            r == (Shortcut { key, ctrl: true, shift: true, alt: false }),
    {
        Shortcut { key, ctrl: true, shift: true, alt: false }
    }
}

/// A command a shortcut can run.
#[derive(PartialEq, Eq, Debug)]
pub struct KeyCommand {
    pub id: String,
    pub category: String,
    pub label: String,
}

/// What a [`KeyCommand`] stands for.
#[verifier::ext_equal]
pub struct CommandModel {
    pub id: Seq<char>,
    pub category: Seq<char>,
    pub label: Seq<char>,
}

impl View for KeyCommand {
    type V = CommandModel;

    open spec fn view(&self) -> CommandModel {
        CommandModel { id: self.id@, category: self.category@, label: self.label@ }
    }
}

impl KeyCommand {
    pub fn new(id: &str, category: &str, label: &str) -> (r: KeyCommand)
        ensures
            r@ == (CommandModel { id: id@, category: category@, label: label@ }),
    {
        KeyCommand {
            id: text::copied(id),
            category: text::copied(category),
            label: text::copied(label),
        }
    }
}

impl Clone for KeyCommand {
    fn clone(&self) -> (r: Self)
        ensures
            r@ == self@,
    {
        KeyCommand {
            id: text::copied(self.id.as_str()),
            category: text::copied(self.category.as_str()),
            label: text::copied(self.label.as_str()),
        }
    }
}

/// A chord and the command it runs.
#[derive(PartialEq, Eq, Debug)]
pub struct Binding {
    pub shortcut: Shortcut,
    pub id: String,
}

/// What a [`Binding`] stands for.
#[verifier::ext_equal]
pub struct BindingModel {
    pub shortcut: Shortcut,
    pub id: Seq<char>,
}

impl View for Binding {
    type V = BindingModel;

    open spec fn view(&self) -> BindingModel {
        BindingModel { shortcut: self.shortcut, id: self.id@ }
    }
}

impl Clone for Binding {
    fn clone(&self) -> (r: Self)
        ensures
            r@ == self@,
    {
        Binding { shortcut: self.shortcut, id: text::copied(self.id.as_str()) }
    }
}

/// Why an assignment was refused.
#[derive(PartialEq, Eq, Debug)]
pub enum KeymapError {
    /// No command of that name can be bound.
    UnknownCommand,
    /// Another command holds the chord.
    Conflict { held_by: String },
}

/// What a [`KeymapError`] stands for.
#[verifier::ext_equal]
pub enum Refusal {
    UnknownCommand,
    Conflict { held_by: Seq<char> },
}

impl View for KeymapError {
    type V = Refusal;

    open spec fn view(&self) -> Refusal {
        match self {
            KeymapError::UnknownCommand => Refusal::UnknownCommand,
            KeymapError::Conflict { held_by } => Refusal::Conflict { held_by: held_by@ },
        }
    }
}

impl Clone for KeymapError {
    fn clone(&self) -> (r: Self)
        ensures
            r@ == self@,
    {
        match self {
            KeymapError::UnknownCommand => KeymapError::UnknownCommand,
            KeymapError::Conflict { held_by } => KeymapError::Conflict {
                held_by: text::copied(held_by.as_str()),
            },
        }
    }
}

/// The command a table runs on a chord: the first it lists for it.
pub open spec fn holder(table: Seq<BindingModel>, shortcut: Shortcut) -> Option<Seq<char>> {
    match sequences::first_where(table, |b: BindingModel| b.shortcut == shortcut) {
        Some(b) => Some(b.id),
        None => None,
    }
}

/// The chords a table binds to a command, in its order.
pub open spec fn chords(table: Seq<BindingModel>, id: Seq<char>) -> Seq<Shortcut> {
    table.filter(|b: BindingModel| b.id == id).map_values(|b: BindingModel| b.shortcut)
}

/// A table without a chord.
pub open spec fn without(table: Seq<BindingModel>, shortcut: Shortcut) -> Seq<BindingModel> {
    table.filter(|b: BindingModel| b.shortcut != shortcut)
}

/// Two tables run the same command on every chord.
pub open spec fn agree(a: Seq<BindingModel>, b: Seq<BindingModel>) -> bool {
    forall|s: Shortcut| #[trigger] holder(a, s) == holder(b, s)
}

/// What a [`Keymap`] stands for.
#[verifier::ext_equal]
pub struct KeymapModel {
    pub commands: Seq<CommandModel>,
    pub bound: Seq<BindingModel>,
    pub defaults: Seq<BindingModel>,
}

impl KeymapModel {
    pub open spec fn empty() -> KeymapModel {
        KeymapModel { commands: Seq::empty(), bound: Seq::empty(), defaults: Seq::empty() }
    }

    pub open spec fn knows(self, id: Seq<char>) -> bool {
        exists|i: int| 0 <= i < self.commands.len() && (#[trigger] self.commands[i]).id == id
    }

    /// A chord given to a command; whoever held it loses it.
    pub open spec fn forced(self, id: Seq<char>, shortcut: Shortcut) -> KeymapModel {
        KeymapModel {
            bound: without(self.bound, shortcut).push(BindingModel { shortcut, id }),
            ..self
        }
    }

    /// Who loses a chord given to a command.
    pub open spec fn displaced(self, id: Seq<char>, shortcut: Shortcut) -> Option<Seq<char>> {
        match holder(self.bound, shortcut) {
            Some(other) => if other == id {
                None
            } else {
                Some(other)
            },
            None => None,
        }
    }

    /// Why a chord is not given to a command.
    pub open spec fn refusal(self, id: Seq<char>, shortcut: Shortcut) -> Option<Refusal> {
        if !self.knows(id) {
            Some(Refusal::UnknownCommand)
        } else {
            match self.displaced(id, shortcut) {
                Some(other) => Some(Refusal::Conflict { held_by: other }),
                None => None,
            }
        }
    }

    /// A free chord given to a command; one it has already changes nothing.
    pub open spec fn assigned(self, id: Seq<char>, shortcut: Shortcut) -> KeymapModel {
        if self.refusal(id, shortcut) is Some || holder(self.bound, shortcut) is Some {
            self
        } else {
            KeymapModel { bound: self.bound.push(BindingModel { shortcut, id }), ..self }
        }
    }

    /// The same commands, the same chords for each, the same shipped table.
    pub open spec fn same(self, other: KeymapModel) -> bool {
        self.commands == other.commands && agree(self.bound, other.bound) && agree(
            self.defaults,
            other.defaults,
        )
    }
}

/// Which command each chord runs.
#[derive(Debug)]
pub struct Keymap {
    commands: Vec<KeyCommand>,
    bound: Vec<Binding>,
    defaults: Vec<Binding>,
}

/// The commands a list stands for.
pub open spec fn commands_of(list: Seq<KeyCommand>) -> Seq<CommandModel> {
    list.map_values(|c: KeyCommand| c@)
}

/// The table a list stands for.
pub open spec fn table_of(list: Seq<Binding>) -> Seq<BindingModel> {
    list.map_values(|b: Binding| b@)
}

impl View for Keymap {
    type V = KeymapModel;

    closed spec fn view(&self) -> KeymapModel {
        KeymapModel {
            commands: commands_of(self.commands@),
            bound: table_of(self.bound@),
            defaults: table_of(self.defaults@),
        }
    }
}

impl Default for Keymap {
    fn default() -> (r: Self)
        ensures
            r@ == KeymapModel::empty(),
    {
        let r = Keymap { commands: Vec::new(), bound: Vec::new(), defaults: Vec::new() };
        assert(r@ == KeymapModel::empty());
        r
    }
}

fn copied_table(table: &Vec<Binding>) -> (r: Vec<Binding>)
    ensures
        table_of(r@) == table_of(table@),
{
    let mut out: Vec<Binding> = Vec::new();
    let mut i: usize = 0;
    while i < table.len()
        invariant
            i <= table@.len(),
            out@.len() == i,
            table_of(out@) == table_of(table@).take(i as int),
        decreases table@.len() - i,
    {
        let ghost before = out@;
        out.push(table[i].clone());
        assert(table_of(out@) == table_of(before).push(out@[i as int]@));
        assert(table_of(table@).take(i + 1) == table_of(table@).take(i as int).push(
            table@[i as int]@,
        ));
        i = i + 1;
    }
    assert(table_of(table@).take(i as int) == table_of(table@));
    out
}

fn copied_commands(list: &Vec<KeyCommand>) -> (r: Vec<KeyCommand>)
    ensures
        commands_of(r@) == commands_of(list@),
{
    let mut out: Vec<KeyCommand> = Vec::new();
    let mut i: usize = 0;
    while i < list.len()
        invariant
            i <= list@.len(),
            out@.len() == i,
            commands_of(out@) == commands_of(list@).take(i as int),
        decreases list@.len() - i,
    {
        let ghost before = out@;
        out.push(list[i].clone());
        assert(commands_of(out@) == commands_of(before).push(out@[i as int]@));
        assert(commands_of(list@).take(i + 1) == commands_of(list@).take(i as int).push(
            list@[i as int]@,
        ));
        i = i + 1;
    }
    assert(commands_of(list@).take(i as int) == commands_of(list@));
    out
}

/// The place of the first binding of a chord.
fn place_of(table: &Vec<Binding>, shortcut: Shortcut) -> (r: Option<usize>)
    ensures
        match r {
            Some(i) => i < table@.len() && holder(table_of(table@), shortcut) == Some(
                table@[i as int].id@,
            ),
            None => holder(table_of(table@), shortcut) is None,
        },
{
    let ghost all = table_of(table@);
    let ghost wanted = |b: BindingModel| b.shortcut == shortcut;
    let mut i: usize = 0;
    while i < table.len()
        invariant
            i <= table@.len(),
            all == table_of(table@),
            wanted == (|b: BindingModel| b.shortcut == shortcut),
            sequences::first_where(all.take(i as int), wanted) is None,
        decreases table@.len() - i,
    {
        assert(all[i as int] == table@[i as int]@);
        if table[i].shortcut == shortcut {
            proof {
                sequences::lemma_first_where_step(all, wanted, i as int);
                sequences::lemma_first_where_prefix(all, wanted, i + 1, all[i as int]);
            }
            return Some(i);
        }
        proof {
            sequences::lemma_first_where_step(all, wanted, i as int);
        }
        i = i + 1;
    }
    assert(all.take(i as int) == all);
    None
}

/// Every chord of `a` runs the same command in `b`.
fn covered_by(a: &Vec<Binding>, b: &Vec<Binding>) -> (r: bool)
    ensures
        r == forall|s: Shortcut|
            holder(table_of(a@), s) is Some ==> #[trigger] holder(table_of(a@), s) == holder(
                table_of(b@),
                s,
            ),
{
    let ghost all = table_of(a@);
    let ghost other = table_of(b@);
    let mut i: usize = 0;
    while i < a.len()
        invariant
            i <= a@.len(),
            all == table_of(a@),
            other == table_of(b@),
            forall|k: int|
                0 <= k < i ==> holder(all, (#[trigger] all[k]).shortcut) == holder(
                    other,
                    all[k].shortcut,
                ),
        decreases a@.len() - i,
    {
        let s = a[i].shortcut;
        assert(all[i as int] == a@[i as int]@);
        proof {
            sequences::lemma_first_where(all, |b: BindingModel| b.shortcut == s);
        }
        let same = match (place_of(a, s), place_of(b, s)) {
            (Some(x), Some(y)) => text::same(a[x].id.as_str(), b[y].id.as_str()),
            _ => false,
        };
        if !same {
            assert(holder(all, s) is Some && holder(all, s) != holder(other, s));
            return false;
        }
        i = i + 1;
    }
    assert forall|s: Shortcut| holder(all, s) is Some implies #[trigger] holder(all, s) == holder(
        other,
        s,
    ) by {
        sequences::lemma_first_where(all, |b: BindingModel| b.shortcut == s);
        let k = choose|k: int| 0 <= k < all.len() && (#[trigger] all[k]).shortcut == s;
        assert(holder(all, all[k].shortcut) == holder(other, all[k].shortcut));
    }
    true
}

fn tables_agree(a: &Vec<Binding>, b: &Vec<Binding>) -> (r: bool)
    ensures
        r == agree(table_of(a@), table_of(b@)),
{
    let r = covered_by(a, b) && covered_by(b, a);
    proof {
        if r {
            assert forall|s: Shortcut| #[trigger] holder(table_of(a@), s) == holder(
                table_of(b@),
                s,
            ) by {
                if holder(table_of(a@), s) is None && holder(table_of(b@), s) is Some {
                    assert(holder(table_of(b@), s) == holder(table_of(a@), s));
                }
            }
        }
    }
    r
}

impl Clone for Keymap {
    fn clone(&self) -> (r: Self)
        ensures
            r@ == self@,
    {
        Keymap {
            commands: copied_commands(&self.commands),
            bound: copied_table(&self.bound),
            defaults: copied_table(&self.defaults),
        }
    }
}

fn chords_in(table: &Vec<Binding>, id: &str) -> (r: Vec<Shortcut>)
    ensures
        r@ == chords(table_of(table@), id@),
{
    let ghost all = table_of(table@);
    let ghost own = |b: BindingModel| b.id == id@;
    let ghost chord = |b: BindingModel| b.shortcut;
    let mut out: Vec<Shortcut> = Vec::new();
    let mut i: usize = 0;
    while i < table.len()
        invariant
            i <= table@.len(),
            all == table_of(table@),
            own == (|b: BindingModel| b.id == id@),
            chord == (|b: BindingModel| b.shortcut),
            out@ == all.take(i as int).filter(own).map_values(chord),
        decreases table@.len() - i,
    {
        proof {
            reveal(Seq::filter);
            assert(all.take(i + 1).drop_last() == all.take(i as int));
            assert(all.take(i + 1).last() == table@[i as int]@);
        }
        if text::same(table[i].id.as_str(), id) {
            out.push(table[i].shortcut);
        }
        assert(out@ == all.take(i + 1).filter(own).map_values(chord));
        i = i + 1;
    }
    assert(all.take(i as int) == all);
    out
}

impl Keymap {
    /// The host's commands, bound as it ships them.
    pub fn from_defaults(commands: Vec<KeyCommand>, defaults: Vec<Binding>) -> (r: Keymap)
        ensures
            r@ == (KeymapModel {
                commands: commands_of(commands@),
                bound: table_of(defaults@),
                defaults: table_of(defaults@),
            }),
    {
        Keymap { commands, bound: copied_table(&defaults), defaults }
    }

    /// The host's commands.
    pub fn commands(&self) -> (r: &Vec<KeyCommand>)
        ensures
            commands_of(r@) == self@.commands,
    {
        &self.commands
    }

    /// The command a chord runs.
    pub fn command_for(&self, shortcut: Shortcut) -> (r: Option<&str>)
        ensures
            match r {
                Some(id) => holder(self@.bound, shortcut) == Some(id@),
                None => holder(self@.bound, shortcut) is None,
            },
    {
        match place_of(&self.bound, shortcut) {
            Some(i) => Some(self.bound[i].id.as_str()),
            None => None,
        }
    }

    /// The chords bound to a command, oldest first.
    pub fn shortcuts(&self, id: &str) -> (r: Vec<Shortcut>)
        ensures
            r@ == chords(self@.bound, id@),
    {
        chords_in(&self.bound, id)
    }

    /// A command's chords are not the ones it came with.
    pub fn is_customized(&self, id: &str) -> (r: bool)
        ensures
            r == (chords(self@.bound, id@) != chords(self@.defaults, id@)),
    {
        let now = chords_in(&self.bound, id);
        let at_first = chords_in(&self.defaults, id);
        if now.len() != at_first.len() {
            return true;
        }
        let mut i: usize = 0;
        while i < now.len()
            invariant
                i <= now@.len(),
                now@.len() == at_first@.len(),
                now@ == chords(self@.bound, id@),
                at_first@ == chords(self@.defaults, id@),
                forall|j: int| 0 <= j < i ==> now@[j] == at_first@[j],
            decreases now@.len() - i,
        {
            if now[i] != at_first[i] {
                return true;
            }
            i = i + 1;
        }
        assert(now@ == at_first@);
        false
    }

    /// A command is one the host listed.
    pub fn is_known(&self, id: &str) -> (r: bool)
        ensures
            r == self@.knows(id@),
    {
        let mut i: usize = 0;
        while i < self.commands.len()
            invariant
                i <= self.commands@.len(),
                forall|k: int| 0 <= k < i ==> (#[trigger] self@.commands[k]).id != id@,
            decreases self.commands@.len() - i,
        {
            assert(self@.commands[i as int] == self.commands@[i as int]@);
            if text::same(self.commands[i].id.as_str(), id) {
                return true;
            }
            i = i + 1;
        }
        false
    }

    /// A command's label; a command the host did not list is shown by its name.
    pub fn label_of(&self, id: &str) -> (r: String)
        ensures
            r@ == match sequences::first_where(
                self@.commands,
                |c: CommandModel| c.id == id@,
            ) {
                Some(c) => c.label,
                None => id@,
            },
    {
        let ghost all = commands_of(self.commands@);
        let ghost wanted = |c: CommandModel| c.id == id@;
        let mut i: usize = 0;
        while i < self.commands.len()
            invariant
                i <= self.commands@.len(),
                all == commands_of(self.commands@),
                wanted == (|c: CommandModel| c.id == id@),
                sequences::first_where(all.take(i as int), wanted) is None,
            decreases self.commands@.len() - i,
        {
            assert(all[i as int] == self.commands@[i as int]@);
            proof {
                sequences::lemma_first_where_step(all, wanted, i as int);
            }
            if text::same(self.commands[i].id.as_str(), id) {
                proof {
                    sequences::lemma_first_where_prefix(all, wanted, i + 1, all[i as int]);
                }
                return text::copied(self.commands[i].label.as_str());
            }
            i = i + 1;
        }
        assert(all.take(i as int) == all);
        text::copied(id)
    }

    /// Give a free chord to a command. A chord another command holds is not
    /// taken from it: the collision is reported.
    pub fn assign(&mut self, id: &str, shortcut: Shortcut) -> (r: Result<(), KeymapError>)
        ensures
            final(self)@ == old(self)@.assigned(id@, shortcut),
            match r {
                Ok(()) => old(self)@.refusal(id@, shortcut) is None,
                Err(error) => old(self)@.refusal(id@, shortcut) == Some(error@),
            },
    {
        if !self.is_known(id) {
            return Err(KeymapError::UnknownCommand);
        }
        match place_of(&self.bound, shortcut) {
            Some(i) => {
                if text::same(self.bound[i].id.as_str(), id) {
                    Ok(())
                } else {
                    Err(
                        KeymapError::Conflict { held_by: text::copied(self.bound[i].id.as_str()) },
                    )
                }
            },
            None => {
                self.bound.push(Binding { shortcut, id: text::copied(id) });
                assert(self@.bound == old(self)@.bound.push(BindingModel { shortcut, id: id@ }));
                Ok(())
            },
        }
    }

    /// Drop every binding of a chord.
    fn clear(&mut self, shortcut: Shortcut)
        ensures
            final(self)@ == (KeymapModel {
                bound: without(old(self)@.bound, shortcut),
                ..old(self)@
            }),
    {
        let ghost all = table_of(self.bound@);
        let ghost kept = |b: BindingModel| b.shortcut != shortcut;
        let mut out: Vec<Binding> = Vec::new();
        let mut i: usize = 0;
        while i < self.bound.len()
            invariant
                i <= self.bound@.len(),
                self@ == old(self)@,
                all == table_of(self.bound@),
                kept == (|b: BindingModel| b.shortcut != shortcut),
                table_of(out@) == all.take(i as int).filter(kept),
            decreases self.bound@.len() - i,
        {
            proof {
                reveal(Seq::filter);
                assert(all.take(i + 1).drop_last() == all.take(i as int));
                assert(all.take(i + 1).last() == self.bound@[i as int]@);
            }
            if self.bound[i].shortcut != shortcut {
                out.push(self.bound[i].clone());
            }
            assert(table_of(out@) == all.take(i + 1).filter(kept));
            i = i + 1;
        }
        assert(all.take(i as int) == all);
        self.bound = out;
    }

    /// Give a chord to a command, taking it from whoever holds it. Returns the
    /// command that lost it.
    pub fn force_assign(&mut self, id: &str, shortcut: Shortcut) -> (r: Option<String>)
        ensures
            final(self)@ == old(self)@.forced(id@, shortcut),
            match r {
                Some(other) => old(self)@.displaced(id@, shortcut) == Some(other@),
                None => old(self)@.displaced(id@, shortcut) is None,
            },
    {
        let displaced = match place_of(&self.bound, shortcut) {
            Some(i) => {
                if text::same(self.bound[i].id.as_str(), id) {
                    None
                } else {
                    Some(text::copied(self.bound[i].id.as_str()))
                }
            },
            None => None,
        };
        self.clear(shortcut);
        let ghost cleared = self@.bound;
        self.bound.push(Binding { shortcut, id: text::copied(id) });
        assert(self@.bound == cleared.push(BindingModel { shortcut, id: id@ }));
        displaced
    }

    /// Take a chord away. `false` when nothing had it.
    pub fn unbind(&mut self, shortcut: Shortcut) -> (r: bool)
        ensures
            r == (holder(old(self)@.bound, shortcut) is Some),
            final(self)@ == (KeymapModel {
                bound: without(old(self)@.bound, shortcut),
                ..old(self)@
            }),
    {
        let had = place_of(&self.bound, shortcut).is_some();
        self.clear(shortcut);
        had
    }

    /// Every chord back to the shipped table.
    pub fn reset(&mut self)
        ensures
            final(self)@ == (KeymapModel { bound: old(self)@.defaults, ..old(self)@ }),
    {
        self.bound = copied_table(&self.defaults);
    }

    /// Every chord runs what it shipped with.
    pub fn is_default(&self) -> (r: bool)
        ensures
            r == agree(self@.bound, self@.defaults),
    {
        tables_agree(&self.bound, &self.defaults)
    }

    /// Two keymaps with the same commands, the same chords for each and the
    /// same shipped table.
    pub fn same_as(&self, other: &Keymap) -> (r: bool)
        ensures
            r == self@.same(other@),
    {
        if self.commands.len() != other.commands.len() {
            assert(self@.commands.len() != other@.commands.len());
            return false;
        }
        let mut i: usize = 0;
        while i < self.commands.len()
            invariant
                i <= self.commands@.len(),
                self.commands@.len() == other.commands@.len(),
                forall|k: int|
                    0 <= k < i ==> #[trigger] self@.commands[k] == other@.commands[k],
            decreases self.commands@.len() - i,
        {
            let a = &self.commands[i];
            let b = &other.commands[i];
            assert(self@.commands[i as int] == a@ && other@.commands[i as int] == b@);
            if !(text::same(a.id.as_str(), b.id.as_str()) && text::same(
                a.category.as_str(),
                b.category.as_str(),
            ) && text::same(a.label.as_str(), b.label.as_str())) {
                return false;
            }
            i = i + 1;
        }
        assert(self@.commands == other@.commands);
        tables_agree(&self.bound, &other.bound) && tables_agree(&self.defaults, &other.defaults)
    }
}

proof fn lemma_without(table: Seq<BindingModel>, shortcut: Shortcut, other: Shortcut)
    ensures
        holder(without(table, shortcut), other) == if other == shortcut {
            None
        } else {
            holder(table, other)
        },
    decreases table.len(),
{
    reveal(Seq::filter);
    if table.len() > 0 {
        let head = table.drop_last();
        lemma_without(head, shortcut, other);
        let kept = |b: BindingModel| b.shortcut != shortcut;
        let wanted = |b: BindingModel| b.shortcut == other;
        lemma_holder_push(head, table.last(), other);
        assert(table == head.push(table.last()));
        lemma_holder_push(head.filter(kept), table.last(), other);
    }
}

proof fn lemma_holder_push(table: Seq<BindingModel>, last: BindingModel, s: Shortcut)
    ensures
        holder(table.push(last), s) == match holder(table, s) {
            Some(id) => Some(id),
            None => if last.shortcut == s {
                Some(last.id)
            } else {
                None
            },
        },
{
    let wanted = |b: BindingModel| b.shortcut == s;
    let all = table.push(last);
    let n = table.len() as int;
    assert(all.take(n) == table);
    assert(all.take(n + 1) == all);
    match sequences::first_where(table, wanted) {
        Some(found) => {
            sequences::lemma_first_where_prefix(all, wanted, n, found);
        },
        None => {
            sequences::lemma_first_where_step(all, wanted, n);
        },
    }
}

/// Giving a chord to a command makes the chord run it, and changes no other
/// chord; whoever held it is the one reported.
pub proof fn a_forced_chord_moves_alone(
    m: KeymapModel,
    id: Seq<char>,
    shortcut: Shortcut,
    other: Shortcut,
)
    ensures
        holder(m.forced(id, shortcut).bound, shortcut) == Some(id),
        other != shortcut ==> holder(m.forced(id, shortcut).bound, other) == holder(
            m.bound,
            other,
        ),
{
    lemma_without(m.bound, shortcut, shortcut);
    lemma_without(m.bound, shortcut, other);
    lemma_holder_push(
        without(m.bound, shortcut),
        BindingModel { shortcut, id },
        shortcut,
    );
    lemma_holder_push(without(m.bound, shortcut), BindingModel { shortcut, id }, other);
}

/// An accepted assignment makes the chord run the command and changes no other
/// chord; a refused one changes nothing.
pub proof fn an_assignment_takes_nothing_away(
    m: KeymapModel,
    id: Seq<char>,
    shortcut: Shortcut,
    other: Shortcut,
)
    ensures
        m.refusal(id, shortcut) is Some ==> m.assigned(id, shortcut) == m,
        m.refusal(id, shortcut) is None ==> holder(m.assigned(id, shortcut).bound, shortcut)
            == Some(id),
        other != shortcut ==> holder(m.assigned(id, shortcut).bound, other) == holder(
            m.bound,
            other,
        ),
{
    lemma_holder_push(m.bound, BindingModel { shortcut, id }, shortcut);
    lemma_holder_push(m.bound, BindingModel { shortcut, id }, other);
}

/// A chord taken away runs nothing, and no other chord changes.
pub proof fn an_unbound_chord_runs_nothing(
    table: Seq<BindingModel>,
    shortcut: Shortcut,
    other: Shortcut,
)
    ensures
        holder(without(table, shortcut), shortcut) is None,
        other != shortcut ==> holder(without(table, shortcut), other) == holder(table, other),
{
    lemma_without(table, shortcut, shortcut);
    lemma_without(table, shortcut, other);
}

} // verus!

//! Edit > Preset Manager: every saved preset in one window.
//!
//! One list per kind, each renamed, deleted and reordered in place. The dialog
//! edits a [`PresetLibrary`]: a name and an opaque payload per entry. The
//! payload is the application's; this module never looks inside it, so a rename
//! here can never corrupt a preset. Confirming hands the edited library back,
//! so Cancel really does leave every preset as it was.

use super::chrome;
use super::chrome::{DialogButton, DialogKeys, DialogOutcome};
use crate::arrangement;
use crate::text;
use vstd::prelude::*;

verus! {

/// The kinds of preset the library holds.
#[derive(Clone, Copy, PartialEq, Eq, Structural, Hash, Debug)]
pub enum PresetKind {
    Brushes,
    Gradients,
    Patterns,
    Styles,
    Shapes,
}

impl PresetKind {
    pub const ALL: [PresetKind; 5] = [
        PresetKind::Brushes,
        PresetKind::Gradients,
        PresetKind::Patterns,
        PresetKind::Styles,
        PresetKind::Shapes,
    ];

    /// The text of [`PresetKind::label`].
    pub open spec fn label_text(self) -> Seq<char> {
        match self {
            PresetKind::Brushes => "Brushes"@,
            PresetKind::Gradients => "Gradients"@,
            PresetKind::Patterns => "Patterns"@,
            PresetKind::Styles => "Styles"@,
            PresetKind::Shapes => "Shapes"@,
        }
    }

    pub fn label(self) -> (r: &'static str)
        ensures
            r@ == self.label_text(),
    {
        match self {
            PresetKind::Brushes => "Brushes",
            PresetKind::Gradients => "Gradients",
            PresetKind::Patterns => "Patterns",
            PresetKind::Styles => "Styles",
            PresetKind::Shapes => "Shapes",
        }
    }
}

/// One preset: its name, and the application's payload for it.
#[derive(PartialEq, Eq, Debug)]
pub struct PresetEntry {
    pub name: String,
    /// Opaque to this module: the application's serialized preset.
    pub data: String,
}

/// What a [`PresetEntry`] stands for.
#[verifier::ext_equal]
pub struct PresetEntryView {
    pub name: Seq<char>,
    pub data: Seq<char>,
}

impl View for PresetEntry {
    type V = PresetEntryView;

    open spec fn view(&self) -> PresetEntryView {
        PresetEntryView { name: self.name@, data: self.data@ }
    }
}

impl Clone for PresetEntry {
    fn clone(&self) -> (r: Self)
        ensures
            r@ == self@,
    {
        PresetEntry { name: text::copied(self.name.as_str()), data: text::copied(self.data.as_str()) }
    }
}

/// What a list of presets stands for.
pub open spec fn entries_view(entries: Seq<PresetEntry>) -> Seq<PresetEntryView> {
    Seq::new(entries.len(), |i: int| entries[i]@)
}

/// Every preset, per kind, in order.
#[derive(PartialEq, Eq, Debug)]
pub struct PresetLibrary {
    pub brushes: Vec<PresetEntry>,
    pub gradients: Vec<PresetEntry>,
    pub patterns: Vec<PresetEntry>,
    pub styles: Vec<PresetEntry>,
    pub shapes: Vec<PresetEntry>,
}

/// What a [`PresetLibrary`] stands for.
#[verifier::ext_equal]
pub struct LibraryModel {
    pub brushes: Seq<PresetEntryView>,
    pub gradients: Seq<PresetEntryView>,
    pub patterns: Seq<PresetEntryView>,
    pub styles: Seq<PresetEntryView>,
    pub shapes: Seq<PresetEntryView>,
}

impl View for PresetLibrary {
    type V = LibraryModel;

    open spec fn view(&self) -> LibraryModel {
        LibraryModel {
            brushes: entries_view(self.brushes@),
            gradients: entries_view(self.gradients@),
            patterns: entries_view(self.patterns@),
            styles: entries_view(self.styles@),
            shapes: entries_view(self.shapes@),
        }
    }
}

/// The first of the first `n` entries with this name.
pub open spec fn named_among(list: Seq<PresetEntryView>, name: Seq<char>, n: int) -> Option<int>
    decreases n,
{
    if n <= 0 {
        None
    } else {
        match named_among(list, name, n - 1) {
            Some(k) => Some(k),
            None => if list[n - 1].name == name {
                Some(n - 1)
            } else {
                None
            },
        }
    }
}

/// One entry taken into a list: it replaces the first of its name in place, or
/// is appended. An entry with a blank name is left out.
pub open spec fn taken_in(
    list: Seq<PresetEntryView>,
    entry: PresetEntryView,
) -> Seq<PresetEntryView> {
    if text::blank(entry.name) {
        list
    } else {
        match named_among(list, entry.name, list.len() as int) {
            Some(k) => list.update(k, entry),
            None => list.push(entry),
        }
    }
}

/// A list with the first `n` incoming entries taken in, in turn.
pub open spec fn merged(
    list: Seq<PresetEntryView>,
    incoming: Seq<PresetEntryView>,
    n: int,
) -> Seq<PresetEntryView>
    decreases n,
{
    if n <= 0 {
        list
    } else {
        taken_in(merged(list, incoming, n - 1), incoming[n - 1])
    }
}

/// How many of the first `n` incoming entries have a name.
pub open spec fn named_count(incoming: Seq<PresetEntryView>, n: int) -> int
    decreases n,
{
    if n <= 0 {
        0
    } else {
        named_count(incoming, n - 1) + if text::blank(incoming[n - 1].name) {
            0int
        } else {
            1
        }
    }
}

impl LibraryModel {
    pub open spec fn list(self, kind: PresetKind) -> Seq<PresetEntryView> {
        match kind {
            PresetKind::Brushes => self.brushes,
            PresetKind::Gradients => self.gradients,
            PresetKind::Patterns => self.patterns,
            PresetKind::Styles => self.styles,
            PresetKind::Shapes => self.shapes,
        }
    }

    pub open spec fn with(self, kind: PresetKind, list: Seq<PresetEntryView>) -> LibraryModel {
        match kind {
            PresetKind::Brushes => LibraryModel { brushes: list, ..self },
            PresetKind::Gradients => LibraryModel { gradients: list, ..self },
            PresetKind::Patterns => LibraryModel { patterns: list, ..self },
            PresetKind::Styles => LibraryModel { styles: list, ..self },
            PresetKind::Shapes => LibraryModel { shapes: list, ..self },
        }
    }

    /// How many presets in all.
    pub open spec fn total(self) -> nat {
        self.brushes.len() + self.gradients.len() + self.patterns.len() + self.styles.len()
            + self.shapes.len()
    }

    /// How many presets have a name.
    pub open spec fn named_total(self) -> int {
        named_count(self.brushes, self.brushes.len() as int) + named_count(
            self.gradients,
            self.gradients.len() as int,
        ) + named_count(self.patterns, self.patterns.len() as int) + named_count(
            self.styles,
            self.styles.len() as int,
        ) + named_count(self.shapes, self.shapes.len() as int)
    }

    /// Whether entry `index` can be called `name`: it exists, the name is not
    /// blank, and no other entry of the kind has it.
    pub open spec fn can_rename(self, kind: PresetKind, index: int, name: Seq<char>) -> bool {
        &&& !text::blank(name)
        &&& 0 <= index < self.list(kind).len()
        &&& forall|i: int|
            0 <= i < self.list(kind).len() && i != index ==> (#[trigger] self.list(kind)[i]).name
                != text::trimmed(name)
    }

    pub open spec fn renamed(self, kind: PresetKind, index: int, name: Seq<char>) -> LibraryModel {
        if self.can_rename(kind, index, name) {
            self.with(
                kind,
                self.list(kind).update(
                    index,
                    PresetEntryView { name: text::trimmed(name), ..self.list(kind)[index] },
                ),
            )
        } else {
            self
        }
    }

    pub open spec fn deleted(self, kind: PresetKind, index: int) -> LibraryModel {
        if 0 <= index < self.list(kind).len() {
            self.with(kind, self.list(kind).remove(index))
        } else {
            self
        }
    }

    /// The place an entry asked to `to` ends up at.
    pub open spec fn clamped(self, kind: PresetKind, to: int) -> int {
        if to < self.list(kind).len() {
            to
        } else {
            self.list(kind).len() - 1
        }
    }

    pub open spec fn can_reorder(self, kind: PresetKind, from: int, to: int) -> bool {
        0 <= from < self.list(kind).len() && self.clamped(kind, to) != from
    }

    pub open spec fn reordered(self, kind: PresetKind, from: int, to: int) -> LibraryModel {
        if self.can_reorder(kind, from, to) {
            self.with(
                kind,
                arrangement::moved(self.list(kind), from, self.clamped(kind, to)),
            )
        } else {
            self
        }
    }

    /// The library with another one's entries taken in, kind by kind.
    pub open spec fn merged(self, other: LibraryModel) -> LibraryModel {
        LibraryModel {
            brushes: merged(self.brushes, other.brushes, other.brushes.len() as int),
            gradients: merged(self.gradients, other.gradients, other.gradients.len() as int),
            patterns: merged(self.patterns, other.patterns, other.patterns.len() as int),
            styles: merged(self.styles, other.styles, other.styles.len() as int),
            shapes: merged(self.shapes, other.shapes, other.shapes.len() as int),
        }
    }
}

/// Copies of the entries.
fn copy_entries(entries: &Vec<PresetEntry>) -> (r: Vec<PresetEntry>)
    ensures
        entries_view(r@) == entries_view(entries@),
{
    let mut out: Vec<PresetEntry> = Vec::new();
    let mut i: usize = 0;
    while i < entries.len()
        invariant
            i <= entries@.len(),
            out@.len() == i,
            forall|j: int| 0 <= j < i ==> (#[trigger] out@[j])@ == entries@[j]@,
        decreases entries@.len() - i,
    {
        out.push(entries[i].clone());
        i = i + 1;
    }
    assert(entries_view(out@) =~= entries_view(entries@));
    out
}

impl Clone for PresetLibrary {
    fn clone(&self) -> (r: Self)
        ensures
            r@ == self@,
    {
        PresetLibrary {
            brushes: copy_entries(&self.brushes),
            gradients: copy_entries(&self.gradients),
            patterns: copy_entries(&self.patterns),
            styles: copy_entries(&self.styles),
            shapes: copy_entries(&self.shapes),
        }
    }
}

impl Default for PresetLibrary {
    fn default() -> (r: Self)
        ensures
            r@.total() == 0,
    {
        PresetLibrary {
            brushes: Vec::new(),
            gradients: Vec::new(),
            patterns: Vec::new(),
            styles: Vec::new(),
            shapes: Vec::new(),
        }
    }
}

/// The first entry with a name.
fn find_named(list: &Vec<PresetEntry>, name: &str) -> (r: Option<usize>)
    ensures
        match r {
            Some(k) => k < list@.len() && named_among(
                entries_view(list@),
                name@,
                list@.len() as int,
            ) == Some(k as int),
            None => named_among(entries_view(list@), name@, list@.len() as int) is None,
        },
{
    let ghost entries = entries_view(list@);
    let mut i: usize = 0;
    while i < list.len()
        invariant
            i <= list@.len(),
            entries == entries_view(list@),
            named_among(entries, name@, i as int) is None,
        decreases list@.len() - i,
    {
        assert(entries[i as int] == list@[i as int]@);
        if text::same(list[i].name.as_str(), name) {
            proof {
                lemma_named_found(entries, name@, i + 1, entries.len() as int);
            }
            return Some(i);
        }
        i = i + 1;
    }
    None
}

proof fn lemma_named_found(list: Seq<PresetEntryView>, name: Seq<char>, n: int, m: int)
    requires
        0 <= n <= m <= list.len(),
        named_among(list, name, n) is Some,
    ensures
        named_among(list, name, m) == named_among(list, name, n),
    decreases m - n,
{
    if n < m {
        lemma_named_found(list, name, n, m - 1);
    }
}

proof fn lemma_named_count(incoming: Seq<PresetEntryView>, n: int)
    requires
        0 <= n <= incoming.len(),
    ensures
        0 <= named_count(incoming, n) <= n,
    decreases n,
{
    if n > 0 {
        lemma_named_count(incoming, n - 1);
    }
}

/// Take the incoming entries into a list, and say how many came in.
fn merge_list(list: &mut Vec<PresetEntry>, incoming: Vec<PresetEntry>) -> (r: usize)
    ensures
        entries_view(final(list)@) == merged(
            entries_view(old(list)@),
            entries_view(incoming@),
            incoming@.len() as int,
        ),
        r == named_count(entries_view(incoming@), incoming@.len() as int),
        r <= incoming@.len(),
{
    let ghost before = entries_view(list@);
    let ghost arriving = entries_view(incoming@);
    let mut n: usize = 0;
    let mut i: usize = 0;
    while i < incoming.len()
        invariant
            i <= incoming@.len(),
            arriving == entries_view(incoming@),
            entries_view(list@) == merged(before, arriving, i as int),
            n == named_count(arriving, i as int),
            n <= i,
        decreases incoming@.len() - i,
    {
        let entry = &incoming[i];
        assert(arriving[i as int] == entry@);
        let ghost current = entries_view(list@);
        if !text::is_blank(entry.name.as_str()) {
            match find_named(list, entry.name.as_str()) {
                Some(k) => {
                    list.set(k, entry.clone());
                    assert(entries_view(list@) =~= current.update(k as int, entry@));
                },
                None => {
                    list.push(entry.clone());
                    assert(entries_view(list@) =~= current.push(entry@));
                },
            }
            n = n + 1;
        }
        i = i + 1;
    }
    n
}

impl PresetLibrary {
    /// The entries of a kind.
    pub open spec fn items(self, kind: PresetKind) -> Vec<PresetEntry> {
        match kind {
            PresetKind::Brushes => self.brushes,
            PresetKind::Gradients => self.gradients,
            PresetKind::Patterns => self.patterns,
            PresetKind::Styles => self.styles,
            PresetKind::Shapes => self.shapes,
        }
    }

    pub fn list(&self, kind: PresetKind) -> (r: &Vec<PresetEntry>)
        ensures
            *r == self.items(kind),
            entries_view(r@) == self@.list(kind),
    {
        match kind {
            PresetKind::Brushes => &self.brushes,
            PresetKind::Gradients => &self.gradients,
            PresetKind::Patterns => &self.patterns,
            PresetKind::Styles => &self.styles,
            PresetKind::Shapes => &self.shapes,
        }
    }

    pub fn list_mut(&mut self, kind: PresetKind) -> (r: &mut Vec<PresetEntry>)
        ensures
            *r == old(self).items(kind),
            entries_view(r@) == old(self)@.list(kind),
            final(self).items(kind) == *final(r),
            final(self)@ == old(self)@.with(kind, entries_view(final(r)@)),
    {
        match kind {
            PresetKind::Brushes => &mut self.brushes,
            PresetKind::Gradients => &mut self.gradients,
            PresetKind::Patterns => &mut self.patterns,
            PresetKind::Styles => &mut self.styles,
            PresetKind::Shapes => &mut self.shapes,
        }
    }

    /// How many presets in all.
    pub fn len(&self) -> (r: usize)
        requires
            self@.total() <= usize::MAX,
        ensures
            r == self@.total(),
    {
        self.brushes.len() + self.gradients.len() + self.patterns.len() + self.styles.len()
            + self.shapes.len()
    }

    pub fn is_empty(&self) -> (r: bool)
        ensures
            r == (self@.total() == 0),
    {
        self.brushes.len() == 0 && self.gradients.len() == 0 && self.patterns.len() == 0
            && self.styles.len() == 0 && self.shapes.len() == 0
    }

    /// Rename entry `index`. Refused (`false`) for an empty name, a name the
    /// kind already uses elsewhere, or a missing entry.
    pub fn rename(&mut self, kind: PresetKind, index: usize, name: &str) -> (r: bool)
        ensures
            r == old(self)@.can_rename(kind, index as int, name@),
            final(self)@ == old(self)@.renamed(kind, index as int, name@),
    {
        let trimmed = text::trim(name);
        if text::is_blank(name) {
            return false;
        }
        let ghost before = self@;
        let ghost list_before = self@.list(kind);
        let list = self.list(kind);
        if index >= list.len() {
            return false;
        }
        let mut i: usize = 0;
        while i < list.len()
            invariant
                i <= list@.len(),
                index < list@.len(),
                trimmed@ == text::trimmed(name@),
                list_before == entries_view(list@),
                before.list(kind) == list_before,
                self@ == before,
                forall|j: int|
                    0 <= j < i && j != index ==> (#[trigger] list_before[j]).name != trimmed@,
            decreases list@.len() - i,
        {
            assert(list_before[i as int].name == list@[i as int].name@);
            if i != index && text::same(list[i].name.as_str(), trimmed.as_str()) {
                return false;
            }
            i = i + 1;
        }
        let data = text::copied(list[index].data.as_str());
        assert(list_before[index as int].data == list@[index as int].data@);
        let slot = self.list_mut(kind);
        slot.set(index, PresetEntry { name: trimmed, data });
        assert(entries_view(slot@) =~= list_before.update(
            index as int,
            PresetEntryView { name: text::trimmed(name@), ..list_before[index as int] },
        ));
        true
    }

    /// Delete entry `index`, returning it.
    pub fn delete(&mut self, kind: PresetKind, index: usize) -> (r: Option<PresetEntry>)
        ensures
            match r {
                Some(entry) => index < old(self)@.list(kind).len() && entry@ == old(self)@.list(
                    kind,
                )[index as int],
                None => index >= old(self)@.list(kind).len(),
            },
            final(self)@ == old(self)@.deleted(kind, index as int),
    {
        let ghost list_before = self@.list(kind);
        if index >= self.list(kind).len() {
            return None;
        }
        let list = self.list_mut(kind);
        let entry = list.remove(index);
        assert(entries_view(list@) =~= list_before.remove(index as int));
        Some(entry)
    }

    /// Move entry `from` to position `to` (clamped). `false` when nothing
    /// moved.
    pub fn reorder(&mut self, kind: PresetKind, from: usize, to: usize) -> (r: bool)
        ensures
            r == old(self)@.can_reorder(kind, from as int, to as int),
            final(self)@ == old(self)@.reordered(kind, from as int, to as int),
    {
        let ghost list_before = self@.list(kind);
        let count = self.list(kind).len();
        if from >= count {
            return false;
        }
        let to: usize = if to < count {
            to
        } else {
            count - 1
        };
        if from == to {
            return false;
        }
        let list = self.list_mut(kind);
        let entry = list.remove(from);
        list.insert(to, entry);
        assert(entries_view(list@) =~= arrangement::moved(list_before, from as int, to as int));
        true
    }

    /// Merge `other` in: an entry whose name the kind already has replaces it
    /// in place, a new one is appended. Answers how many entries came in.
    pub fn merge(&mut self, other: PresetLibrary) -> (r: usize)
        requires
            other@.total() <= usize::MAX,
        ensures
            r == other@.named_total(),
            final(self)@ == old(self)@.merged(other@),
    {
        let brushes = merge_list(&mut self.brushes, other.brushes);
        let gradients = merge_list(&mut self.gradients, other.gradients);
        let patterns = merge_list(&mut self.patterns, other.patterns);
        let styles = merge_list(&mut self.styles, other.styles);
        let shapes = merge_list(&mut self.shapes, other.shapes);
        brushes + gradients + patterns + styles + shapes
    }
}

/// What the host is asked to do with a file.
#[derive(Clone, Copy, PartialEq, Eq, Structural, Debug)]
pub enum PresetFileRequest {
    /// Pick a JSON file and [`PresetManagerDialog::import`] it.
    Import,
    /// Pick a destination and write [`PresetManagerDialog::library`] there.
    Export,
}

/// What a [`PresetManagerDialog`] stands for.
#[verifier::ext_equal]
pub struct PresetManagerModel {
    pub library: LibraryModel,
    pub kind: PresetKind,
    pub selected: Option<int>,
    /// What the name field holds.
    pub name: Seq<char>,
    pub request: Option<PresetFileRequest>,
    /// The last import or export outcome, shown under the list.
    pub note: Option<Seq<char>>,
}

impl PresetManagerModel {
    /// The entries of the kind on show.
    pub open spec fn entries(self) -> Seq<PresetEntryView> {
        self.library.list(self.kind)
    }

    /// What is selected is an entry of the kind on show.
    pub open spec fn valid(self) -> bool {
        self.selected matches Some(i) ==> 0 <= i < self.entries().len()
    }

    /// An entry selected, its name in the name field; nothing selected where
    /// there is no such entry.
    pub open spec fn with_selected(self, index: Option<int>) -> PresetManagerModel {
        match index {
            Some(i) => if 0 <= i < self.entries().len() {
                PresetManagerModel {
                    selected: Some(i),
                    name: self.entries()[i].name,
                    ..self
                }
            } else {
                PresetManagerModel { selected: None, name: Seq::empty(), ..self }
            },
            None => PresetManagerModel { selected: None, name: Seq::empty(), ..self },
        }
    }

    pub open spec fn can_rename(self, name: Seq<char>) -> bool {
        match self.selected {
            Some(i) => self.library.can_rename(self.kind, i, name),
            None => false,
        }
    }

    pub open spec fn renamed(self, name: Seq<char>) -> PresetManagerModel {
        if self.can_rename(name) {
            PresetManagerModel {
                library: self.library.renamed(self.kind, self.selected->0, name),
                name: text::trimmed(name),
                ..self
            }
        } else {
            self
        }
    }

    /// The selected entry deleted; the one that takes its place, or the last
    /// one, is selected then.
    pub open spec fn deleted(self) -> PresetManagerModel {
        match self.selected {
            Some(i) => {
                let left = PresetManagerModel {
                    library: self.library.deleted(self.kind, i),
                    ..self
                };
                let count = left.entries().len();
                left.with_selected(
                    if count == 0 {
                        None
                    } else if i < count {
                        Some(i)
                    } else {
                        Some(count - 1)
                    },
                )
            },
            None => self,
        }
    }

    pub open spec fn can_move(self, delta: int) -> bool {
        match self.selected {
            Some(i) => 0 <= i + delta <= usize::MAX && self.library.can_reorder(
                self.kind,
                i,
                i + delta,
            ),
            None => false,
        }
    }

    pub open spec fn moved(self, delta: int) -> PresetManagerModel {
        if self.can_move(delta) {
            let to = self.selected->0 + delta;
            PresetManagerModel {
                library: self.library.reordered(self.kind, self.selected->0, to),
                selected: Some(self.library.clamped(self.kind, to)),
                ..self
            }
        } else {
            self
        }
    }

    pub open spec fn imported(self, other: LibraryModel) -> PresetManagerModel {
        PresetManagerModel {
            library: self.library.merged(other),
            note: Some("+"@ + text::decimal(other.named_total() as nat)),
            ..self
        }.with_selected(None)
    }
}

/// Edit > Preset Manager.
#[derive(Debug, PartialEq)]
pub struct PresetManagerDialog {
    library: PresetLibrary,
    kind: PresetKind,
    selected: Option<usize>,
    name: String,
    request: Option<PresetFileRequest>,
    note: Option<String>,
}

impl View for PresetManagerDialog {
    type V = PresetManagerModel;

    closed spec fn view(&self) -> PresetManagerModel {
        PresetManagerModel {
            library: self.library@,
            kind: self.kind,
            selected: match self.selected {
                Some(i) => Some(i as int),
                None => None,
            },
            name: self.name@,
            request: self.request,
            note: match self.note {
                Some(n) => Some(n@),
                None => None,
            },
        }
    }
}

impl PresetManagerDialog {
    pub fn new(library: PresetLibrary) -> (r: Self)
        ensures
            r@ == (PresetManagerModel {
                library: library@,
                kind: PresetKind::Brushes,
                selected: None,
                name: Seq::empty(),
                request: None,
                note: None,
            }),
            r@.valid(),
    {
        PresetManagerDialog {
            library,
            kind: PresetKind::Brushes,
            selected: None,
            name: String::new(),
            request: None,
            note: None,
        }
    }

    pub fn title(&self) -> (r: String)
        ensures
            r@ == "Preset Manager…"@,
    {
        text::copied("Preset Manager…")
    }

    pub fn library(&self) -> (r: &PresetLibrary)
        ensures
            r@ == self@.library,
    {
        &self.library
    }

    pub fn kind(&self) -> (r: PresetKind)
        ensures
            r == self@.kind,
    {
        self.kind
    }

    /// Show another kind, with nothing selected.
    pub fn set_kind(&mut self, kind: PresetKind)
        ensures
            final(self)@ == (PresetManagerModel { kind, ..old(self)@ }).with_selected(None),
            final(self)@.valid(),
    {
        self.kind = kind;
        self.select(None);
    }

    pub fn selected(&self) -> (r: Option<usize>)
        ensures
            match r {
                Some(i) => self@.selected == Some(i as int),
                None => self@.selected is None,
            },
    {
        self.selected
    }

    /// What the name field holds.
    pub fn name(&self) -> (r: &str)
        ensures
            r@ == self@.name,
    {
        self.name.as_str()
    }

    /// Type in the name field; the entry keeps its name until it is renamed.
    pub fn edit_name(&mut self, typed: String)
        ensures
            final(self)@ == (PresetManagerModel { name: typed@, ..old(self)@ }),
    {
        self.name = typed;
    }

    /// What is shown under the list.
    pub fn note(&self) -> (r: Option<&str>)
        ensures
            match r {
                Some(n) => self@.note == Some(n@),
                None => self@.note is None,
            },
    {
        match &self.note {
            Some(n) => Some(n.as_str()),
            None => None,
        }
    }

    /// Select an entry of the current kind (its name fills the name field).
    pub fn select(&mut self, index: Option<usize>)
        ensures
            final(self)@ == old(self)@.with_selected(
                match index {
                    Some(i) => Some(i as int),
                    None => None,
                },
            ),
            final(self)@.valid(),
    {
        match index {
            Some(i) => {
                let list = self.library.list(self.kind);
                if i < list.len() {
                    let name = text::copied(list[i].name.as_str());
                    assert(self@.entries()[i as int].name == name@);
                    self.selected = Some(i);
                    self.name = name;
                } else {
                    self.selected = None;
                    self.name = String::new();
                }
            },
            None => {
                self.selected = None;
                self.name = String::new();
            },
        }
    }

    /// Rename the selected entry to `name`.
    pub fn rename_selected(&mut self, name: &str) -> (r: bool)
        requires
            old(self)@.valid(),
        ensures
            r == old(self)@.can_rename(name@),
            final(self)@ == old(self)@.renamed(name@),
            final(self)@.valid(),
    {
        match self.selected {
            Some(i) => {
                if self.library.rename(self.kind, i, name) {
                    self.name = text::trim(name);
                    true
                } else {
                    false
                }
            },
            None => false,
        }
    }

    pub fn delete_selected(&mut self) -> (r: bool)
        requires
            old(self)@.valid(),
        ensures
            r == (old(self)@.selected is Some),
            final(self)@ == old(self)@.deleted(),
            final(self)@.valid(),
    {
        let i = match self.selected {
            Some(i) => i,
            None => {
                return false;
            },
        };
        let deleted = self.library.delete(self.kind, i);
        let count = self.library.list(self.kind).len();
        if count == 0 {
            self.select(None);
        } else if i < count {
            self.select(Some(i));
        } else {
            self.select(Some(count - 1));
        }
        true
    }

    /// Move the selected entry one place up (`-1`) or down (`+1`).
    pub fn move_selected(&mut self, delta: isize) -> (r: bool)
        requires
            old(self)@.valid(),
        ensures
            r == old(self)@.can_move(delta as int),
            final(self)@ == old(self)@.moved(delta as int),
            final(self)@.valid(),
    {
        let i = match self.selected {
            Some(i) => i,
            None => {
                return false;
            },
        };
        let target: i128 = i as i128 + delta as i128;
        if target < 0 || target > usize::MAX as i128 {
            return false;
        }
        let to: usize = target as usize;
        proof {
            arrangement::lemma_moved(self@.entries(), i as int, self@.library.clamped(self@.kind, to as int));
        }
        let count = self.library.list(self.kind).len();
        if self.library.reorder(self.kind, i, to) {
            self.selected = Some(
                if to < count {
                    to
                } else {
                    count - 1
                },
            );
            true
        } else {
            false
        }
    }

    /// Merge an imported library in; the note says how many came.
    pub fn import(&mut self, other: PresetLibrary) -> (r: usize)
        requires
            other@.total() <= usize::MAX,
        ensures
            r == other@.named_total(),
            final(self)@ == old(self)@.imported(other@),
            final(self)@.valid(),
    {
        let n = self.library.merge(other);
        let mut note = text::copied("+");
        note.append(text::decimal_of(n as u128).as_str());
        self.note = Some(note);
        self.select(None);
        n
    }

    /// Show a line under the list (an import/export outcome from the host).
    pub fn set_note(&mut self, note: String)
        ensures
            final(self)@ == (PresetManagerModel { note: Some(note@), ..old(self)@ }),
    {
        self.note = Some(note);
    }

    /// Whether Import or Export was pressed since the last call.
    pub fn take_file_request(&mut self) -> (r: Option<PresetFileRequest>)
        ensures
            r == old(self)@.request,
            final(self)@ == (PresetManagerModel { request: None, ..old(self)@ }),
    {
        let request = self.request;
        self.request = None;
        request
    }

    pub fn resolve(&self, keys: DialogKeys) -> (r: DialogOutcome<PresetLibrary>)
        ensures
            r@ == chrome::settled(keys, Some(self@.library)),
    {
        chrome::settle(keys, Some(self.library.clone()))
    }

    /// A button of the action row. Of the further buttons the first asks for an
    /// export, any other for an import.
    pub fn press(&mut self, button: DialogButton) -> (r: DialogOutcome<PresetLibrary>)
        ensures
            r@ == chrome::pressed(button, Some(old(self)@.library)),
            final(self)@ == match button {
                DialogButton::Extra(i) => PresetManagerModel {
                    request: Some(
                        if i == 0 {
                            PresetFileRequest::Export
                        } else {
                            PresetFileRequest::Import
                        },
                    ),
                    ..old(self)@
                },
                _ => old(self)@,
            },
    {
        match button {
            DialogButton::Extra(i) => {
                self.request = Some(
                    if i == 0 {
                        PresetFileRequest::Export
                    } else {
                        PresetFileRequest::Import
                    },
                );
            },
            _ => {},
        }
        chrome::press(button, Some(self.library.clone()))
    }
}

} // verus!

//! Select > Save Selection and Select > Load Selection.
//!
//! Save asks for a name, opening at the first free "Alpha N" the way a new
//! alpha channel is named; Load lists the saved selections by name and asks how
//! the chosen one meets the live selection (new, add, subtract, intersect),
//! with Invert beside it.

use super::chrome;
use super::chrome::{DialogButton, DialogKeys, DialogOutcome};
use crate::strings;
use crate::text;
use vstd::prelude::*;

verus! {

/// "Alpha N".
pub open spec fn alpha_name(n: nat) -> Seq<char> {
    strings::entry("ui.selection_name.alpha"@) + " "@ + text::decimal(n)
}

/// `n` is the smallest positive number whose alpha name is free.
pub open spec fn first_free(existing: Seq<Seq<char>>, n: nat) -> bool {
    &&& n >= 1
    &&& !existing.contains(alpha_name(n))
    &&& forall|m: nat| 1 <= m < n ==> existing.contains(#[trigger] alpha_name(m))
}

proof fn lemma_alpha_injective(a: nat, b: nat)
    requires
        alpha_name(a) == alpha_name(b),
    ensures
        a == b,
{
    let stem = strings::entry("ui.selection_name.alpha"@) + " "@;
    assert((stem + text::decimal(a)).skip(stem.len() as int) =~= text::decimal(a));
    assert((stem + text::decimal(b)).skip(stem.len() as int) =~= text::decimal(b));
    text::lemma_decimal_injective(a, b);
}

spec fn alpha_names(k: nat) -> Set<Seq<char>>
    decreases k,
{
    if k == 0 {
        Set::empty()
    } else {
        alpha_names((k - 1) as nat).insert(alpha_name(k))
    }
}

proof fn lemma_alpha_names(k: nat)
    ensures
        alpha_names(k).finite(),
        alpha_names(k).len() == k,
        forall|s: Seq<char>| #[trigger]
            alpha_names(k).contains(s) ==> exists|m: nat| 1 <= m <= k && s == #[trigger] alpha_name(
                m,
            ),
    decreases k,
{
    if k > 0 {
        let before = (k - 1) as nat;
        lemma_alpha_names(before);
        if alpha_names(before).contains(alpha_name(k)) {
            let m = choose|m: nat| 1 <= m <= before && alpha_name(k) == #[trigger] alpha_name(m);
            lemma_alpha_injective(k, m);
        }
        assert forall|s: Seq<char>| #[trigger] alpha_names(k).contains(s) implies exists|m: nat|
            1 <= m <= k && s == #[trigger] alpha_name(m) by {
            if s == alpha_name(k) {
                assert(1 <= k <= k && s == alpha_name(k));
            } else {
                assert(alpha_names(before).contains(s));
            }
        }
    }
}

/// Only as many alpha names can be taken as there are names.
proof fn lemma_taken_bound(existing: Seq<Seq<char>>, k: nat)
    requires
        forall|m: nat| 1 <= m <= k ==> existing.contains(#[trigger] alpha_name(m)),
    ensures
        k <= existing.len(),
{
    lemma_alpha_names(k);
    existing.lemma_cardinality_of_set();
    assert forall|s: Seq<char>| #[trigger] alpha_names(k).contains(s) implies existing.to_set().contains(
        s,
    ) by {
        let m = choose|m: nat| 1 <= m <= k && s == #[trigger] alpha_name(m);
        assert(existing.contains(alpha_name(m)));
    }
    vstd::set_lib::lemma_len_subset(alpha_names(k), existing.to_set());
}

/// The first "Alpha N" (N at least one) that `existing` does not already use.
pub fn next_alpha_name(existing: &Vec<String>) -> (r: String)
    ensures
        exists|n: nat| first_free(text::texts(existing@), n) && r@ == #[trigger] alpha_name(n),
{
    let ghost names = text::texts(existing@);
    let count = existing.len();
    let mut n: u128 = 1;
    loop
        invariant
            names == text::texts(existing@),
            count == names.len(),
            1 <= n <= count + 1,
            forall|m: nat| 1 <= m < n ==> names.contains(#[trigger] alpha_name(m)),
        decreases count + 1 - n,
    {
        let mut candidate = text::copied(strings::tr("ui.selection_name.alpha"));
        candidate.append(" ");
        candidate.append(text::decimal_of(n).as_str());
        assert(candidate@ == alpha_name(n as nat));
        if !text::holds(existing, candidate.as_str()) {
            assert(first_free(names, n as nat));
            return candidate;
        }
        proof {
            assert forall|m: nat| 1 <= m <= n implies names.contains(#[trigger] alpha_name(m)) by {}
            lemma_taken_bound(names, n as nat);
        }
        n = n + 1;
    }
}

/// There is always exactly one first free alpha name.
pub proof fn the_first_free_name_is_unique(existing: Seq<Seq<char>>, a: nat, b: nat)
    requires
        first_free(existing, a),
        first_free(existing, b),
    ensures
        a == b,
        a <= existing.len() + 1,
{
    if a < b {
        assert(existing.contains(alpha_name(a)));
    }
    if b < a {
        assert(existing.contains(alpha_name(b)));
    }
    lemma_taken_bound(existing, (a - 1) as nat);
}

/// A confirmed Save Selection: the name the new entry takes.
#[derive(Clone, PartialEq, Eq, Debug)]
pub struct SaveSelectionSpec {
    pub name: String,
}

impl View for SaveSelectionSpec {
    type V = Seq<char>;

    open spec fn view(&self) -> Seq<char> {
        self.name@
    }
}

/// What a [`SaveSelectionDialog`] stands for.
#[verifier::ext_equal]
pub struct SaveSelectionModel {
    pub name: Seq<char>,
    pub existing: Seq<Seq<char>>,
}

impl SaveSelectionModel {
    /// Why the primary action is unavailable.
    pub open spec fn blocked(self) -> Option<Seq<char>> {
        if text::blank(self.name) {
            Some(strings::entry("ui.selection_name.empty"@))
        } else if self.existing.contains(text::trimmed(self.name)) {
            Some(strings::entry("ui.selection_name.taken"@))
        } else {
            None
        }
    }

    /// The name a confirmation hands over.
    pub open spec fn confirmation(self) -> Option<Seq<char>> {
        if self.blocked() is None {
            Some(text::trimmed(self.name))
        } else {
            None
        }
    }
}

/// The dialog says a name is missing exactly when the field is blank, and that
/// it is taken exactly when a saved selection has it; otherwise, and only then,
/// it hands the trimmed name over.
pub proof fn each_refusal_has_its_own_case(m: SaveSelectionModel)
    ensures
        strings::entry("ui.selection_name.empty"@) != strings::entry("ui.selection_name.taken"@),
        m.blocked() == Some(strings::entry("ui.selection_name.empty"@)) <==> text::blank(m.name),
        m.blocked() == Some(strings::entry("ui.selection_name.taken"@)) <==> !text::blank(m.name)
            && m.existing.contains(text::trimmed(m.name)),
        m.confirmation() is Some <==> m.blocked() is None,
        m.confirmation() matches Some(name) ==> name == text::trimmed(m.name) && name.len() > 0
            && !m.existing.contains(name),
{
    strings::lemma_save_selection_refusals();
    reveal_strlit("A selection needs a name");
    reveal_strlit("A saved selection already has this name");
    assert("A selection needs a name"@.len() != "A saved selection already has this name"@.len());
    if m.confirmation() is Some {
        text::lemma_trimmed_blank(m.name);
    }
}

/// Select > Save Selection.
#[derive(Debug, Clone, PartialEq, Eq)]
pub struct SaveSelectionDialog {
    name: String,
    existing: Vec<String>,
}

impl View for SaveSelectionDialog {
    type V = SaveSelectionModel;

    closed spec fn view(&self) -> SaveSelectionModel {
        SaveSelectionModel { name: self.name@, existing: text::texts(self.existing@) }
    }
}

impl SaveSelectionDialog {
    /// Over the document's saved-selection names, opening at the first free
    /// "Alpha N".
    pub fn new(existing: Vec<String>) -> (r: Self)
        ensures
            r@.existing == text::texts(existing@),
            exists|n: nat|
                first_free(text::texts(existing@), n) && r@.name == #[trigger] alpha_name(n),
    {
        SaveSelectionDialog { name: next_alpha_name(&existing), existing }
    }

    /// The name as typed so far.
    pub fn name(&self) -> (r: &str)
        ensures
            r@ == self@.name,
    {
        self.name.as_str()
    }

    pub fn set_name(&mut self, name: String)
        ensures
            final(self)@ == (SaveSelectionModel { name: name@, ..old(self)@ }),
    {
        self.name = name;
    }

    pub fn title(&self) -> (r: &'static str)
        ensures
            r@ == strings::entry("ui.selection_name.save.title"@),
    {
        strings::tr("ui.selection_name.save.title")
    }

    /// Why the primary action is unavailable, or `None` when it is live.
    pub fn blocked_reason(&self) -> (r: Option<String>)
        ensures
            match r {
                Some(reason) => self@.blocked() == Some(reason@),
                None => self@.blocked() is None,
            },
    {
        if text::is_blank(self.name.as_str()) {
            return Some(text::copied(strings::tr("ui.selection_name.empty")));
        }
        let name = text::trim(self.name.as_str());
        if text::holds(&self.existing, name.as_str()) {
            Some(text::copied(strings::tr("ui.selection_name.taken")))
        } else {
            None
        }
    }

    /// The spec a confirmation hands over: the trimmed name, when it is
    /// neither blank nor already taken.
    pub fn confirm(&self) -> (r: Option<SaveSelectionSpec>)
        ensures
            chrome::request_view(r) == self@.confirmation(),
    {
        if self.blocked_reason().is_some() {
            None
        } else {
            Some(SaveSelectionSpec { name: text::trim(self.name.as_str()) })
        }
    }

    /// Escape and Enter.
    pub fn resolve(&self, keys: DialogKeys) -> (r: DialogOutcome<SaveSelectionSpec>)
        ensures
            r@ == chrome::settled(keys, self@.confirmation()),
    {
        chrome::settle(keys, self.confirm())
    }

    /// A button of the action row.
    pub fn press(&self, button: DialogButton) -> (r: DialogOutcome<SaveSelectionSpec>)
        ensures
            r@ == chrome::pressed(button, self@.confirmation()),
    {
        chrome::press(button, self.confirm())
    }
}

/// How a loaded selection meets the live one.
#[derive(Clone, Copy, PartialEq, Eq, Structural, Hash, Debug)]
pub enum LoadOperation {
    /// Replace the live selection.
    New,
    /// Union with the live selection.
    Add,
    /// Take the loaded coverage away from the live selection.
    Subtract,
    /// Keep only what both cover.
    Intersect,
}

impl Default for LoadOperation {
    fn default() -> (r: Self)
        ensures
            r == LoadOperation::New,
    {
        LoadOperation::New
    }
}

impl LoadOperation {
    pub const ALL: [LoadOperation; 4] = [
        LoadOperation::New,
        LoadOperation::Add,
        LoadOperation::Subtract,
        LoadOperation::Intersect,
    ];

    pub fn label(self) -> (r: &'static str)
        ensures
            r@ == match self {
                LoadOperation::New => strings::entry("ui.selection_name.op.new"@),
                LoadOperation::Add => strings::entry("ui.selection_name.op.add"@),
                LoadOperation::Subtract => strings::entry("ui.selection_name.op.subtract"@),
                LoadOperation::Intersect => strings::entry("ui.selection_name.op.intersect"@),
            },
    {
        match self {
            LoadOperation::New => strings::tr("ui.selection_name.op.new"),
            LoadOperation::Add => strings::tr("ui.selection_name.op.add"),
            LoadOperation::Subtract => strings::tr("ui.selection_name.op.subtract"),
            LoadOperation::Intersect => strings::tr("ui.selection_name.op.intersect"),
        }
    }
}

/// A confirmed Load Selection.
#[derive(Clone, PartialEq, Eq, Debug)]
pub struct LoadSelectionSpec {
    /// Index into the document's saved selections, and the name it had when
    /// the dialog opened; the shell refuses the load if the two no longer
    /// agree, rather than loading whatever moved into that slot.
    pub index: usize,
    pub name: String,
    pub op: LoadOperation,
    pub invert: bool,
}

/// What a [`LoadSelectionSpec`] stands for.
#[verifier::ext_equal]
pub struct LoadSelectionRequest {
    pub index: int,
    pub name: Seq<char>,
    pub op: LoadOperation,
    pub invert: bool,
}

impl View for LoadSelectionSpec {
    type V = LoadSelectionRequest;

    open spec fn view(&self) -> LoadSelectionRequest {
        LoadSelectionRequest {
            index: self.index as int,
            name: self.name@,
            op: self.op,
            invert: self.invert,
        }
    }
}

/// What a [`LoadSelectionDialog`] stands for.
#[verifier::ext_equal]
pub struct LoadSelectionModel {
    pub names: Seq<Seq<char>>,
    pub index: int,
    pub op: LoadOperation,
    pub invert: bool,
    pub has_selection: bool,
}

impl LoadSelectionModel {
    /// An entry is chosen, where there is one.
    pub open spec fn valid(self) -> bool {
        0 <= self.index && (self.names.len() > 0 ==> self.index < self.names.len())
    }

    /// Opened with the most recent entry chosen.
    pub open spec fn opened(names: Seq<Seq<char>>, has_selection: bool) -> LoadSelectionModel {
        LoadSelectionModel {
            names,
            index: if names.len() > 0 {
                names.len() - 1
            } else {
                0
            },
            op: LoadOperation::New,
            invert: false,
            has_selection,
        }
    }

    /// An entry chosen, where there is such an entry.
    pub open spec fn with_index(self, index: int) -> LoadSelectionModel {
        if index < self.names.len() {
            LoadSelectionModel { index, ..self }
        } else {
            self
        }
    }

    /// Why an operation cannot be chosen: without a live selection there is
    /// nothing to add to or take from.
    pub open spec fn unavailable(self, op: LoadOperation) -> Option<Seq<char>> {
        if !self.has_selection && op != LoadOperation::New {
            Some(strings::entry("ui.selection_name.op.needs.selection"@))
        } else {
            None
        }
    }

    /// Why the primary action is unavailable.
    pub open spec fn blocked(self) -> Option<Seq<char>> {
        if self.names.len() == 0 {
            Some(strings::entry("ui.selection_name.none.saved"@))
        } else {
            self.unavailable(self.op)
        }
    }

    /// What a confirmation hands over.
    pub open spec fn confirmation(self) -> Option<LoadSelectionRequest> {
        if self.blocked() is None {
            Some(
                LoadSelectionRequest {
                    index: self.index,
                    name: self.names[self.index],
                    op: self.op,
                    invert: self.invert,
                },
            )
        } else {
            None
        }
    }
}

/// Select > Load Selection.
#[derive(Debug, Clone, PartialEq, Eq)]
pub struct LoadSelectionDialog {
    names: Vec<String>,
    index: usize,
    op: LoadOperation,
    invert: bool,
    /// Whether the document has a live selection.
    has_selection: bool,
}

impl View for LoadSelectionDialog {
    type V = LoadSelectionModel;

    closed spec fn view(&self) -> LoadSelectionModel {
        LoadSelectionModel {
            names: text::texts(self.names@),
            index: self.index as int,
            op: self.op,
            invert: self.invert,
            has_selection: self.has_selection,
        }
    }
}

impl LoadSelectionDialog {
    /// Over the document's saved-selection names, the most recent chosen.
    pub fn new(names: Vec<String>, has_selection: bool) -> (r: Self)
        ensures
            r@ == LoadSelectionModel::opened(text::texts(names@), has_selection),
            r@.valid(),
    {
        let count = names.len();
        let index: usize = if count > 0 {
            count - 1
        } else {
            0
        };
        LoadSelectionDialog { names, index, op: LoadOperation::New, invert: false, has_selection }
    }

    pub fn names(&self) -> (r: &Vec<String>)
        ensures
            text::texts(r@) == self@.names,
    {
        &self.names
    }

    /// Over the document's saved-selection names, `index` chosen when it names
    /// one, the most recent otherwise.
    pub fn new_at(names: Vec<String>, has_selection: bool, index: usize) -> (r: Self)
        ensures
            r@ == LoadSelectionModel::opened(text::texts(names@), has_selection).with_index(
                index as int,
            ),
            r@.valid(),
    {
        let mut dialog = Self::new(names, has_selection);
        dialog.select(index);
        dialog
    }

    /// The index of the entry the dialog would load.
    pub fn selected(&self) -> (r: usize)
        ensures
            r == self@.index,
    {
        self.index
    }

    /// Choose an entry; one that is not there leaves the choice as it is.
    pub fn select(&mut self, index: usize)
        requires
            old(self)@.valid(),
        ensures
            final(self)@ == old(self)@.with_index(index as int),
            final(self)@.valid(),
    {
        if index < self.names.len() {
            self.index = index;
        }
    }

    pub fn operation(&self) -> (r: LoadOperation)
        ensures
            r == self@.op,
    {
        self.op
    }

    pub fn is_inverted(&self) -> (r: bool)
        ensures
            r == self@.invert,
    {
        self.invert
    }

    pub fn set_operation(&mut self, op: LoadOperation)
        ensures
            final(self)@ == (LoadSelectionModel { op, ..old(self)@ }),
    {
        self.op = op;
    }

    pub fn set_invert(&mut self, invert: bool)
        ensures
            final(self)@ == (LoadSelectionModel { invert, ..old(self)@ }),
    {
        self.invert = invert;
    }

    pub fn title(&self) -> (r: &'static str)
        ensures
            r@ == strings::entry("ui.selection_name.load.title"@),
    {
        strings::tr("ui.selection_name.load.title")
    }

    /// Why `op` cannot be chosen, or `None` when it can.
    pub fn operation_unavailable(&self, op: LoadOperation) -> (r: Option<&'static str>)
        ensures
            match r {
                Some(reason) => self@.unavailable(op) == Some(reason@),
                None => self@.unavailable(op) is None,
            },
    {
        if !self.has_selection && op != LoadOperation::New {
            Some(strings::tr("ui.selection_name.op.needs.selection"))
        } else {
            None
        }
    }

    /// Why the primary action is unavailable, or `None` when it is live.
    pub fn blocked_reason(&self) -> (r: Option<String>)
        ensures
            match r {
                Some(reason) => self@.blocked() == Some(reason@),
                None => self@.blocked() is None,
            },
    {
        if self.names.len() == 0 {
            return Some(text::copied(strings::tr("ui.selection_name.none.saved")));
        }
        match self.operation_unavailable(self.op) {
            Some(reason) => Some(text::copied(reason)),
            None => None,
        }
    }

    /// The spec a confirmation hands over.
    pub fn confirm(&self) -> (r: Option<LoadSelectionSpec>)
        requires
            self@.valid(),
        ensures
            chrome::request_view(r) == self@.confirmation(),
    {
        if self.blocked_reason().is_some() {
            return None;
        }
        Some(
            LoadSelectionSpec {
                index: self.index,
                name: text::copied(self.names[self.index].as_str()),
                op: self.op,
                invert: self.invert,
            },
        )
    }

    /// Escape and Enter.
    pub fn resolve(&self, keys: DialogKeys) -> (r: DialogOutcome<LoadSelectionSpec>)
        requires
            self@.valid(),
        ensures
            r@ == chrome::settled(keys, self@.confirmation()),
    {
        chrome::settle(keys, self.confirm())
    }

    /// A button of the action row.
    pub fn press(&self, button: DialogButton) -> (r: DialogOutcome<LoadSelectionSpec>)
        requires
            self@.valid(),
        ensures
            r@ == chrome::pressed(button, self@.confirmation()),
    {
        chrome::press(button, self.confirm())
    }
}

} // verus!

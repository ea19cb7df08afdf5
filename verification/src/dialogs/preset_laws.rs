//! What editing a preset library promises: a preset is never lost or altered by
//! renaming, moving or deleting another, and an import adds without removing.

use crate::arrangement;
use crate::dialogs::preset_manager;
use crate::dialogs::preset_manager::{LibraryModel, PresetEntryView, PresetKind};
use crate::text;
use vstd::prelude::*;

verus! {

/// No two entries have the same name.
pub open spec fn distinct(list: Seq<PresetEntryView>) -> bool {
    forall|i: int, j: int|
        0 <= i < j < list.len() ==> (#[trigger] list[i]).name != (#[trigger] list[j]).name
}

/// Whichever edit is made to a kind, the other kinds stay as they are.
pub proof fn an_edit_stays_within_its_kind(
    library: LibraryModel,
    kind: PresetKind,
    other: PresetKind,
    index: int,
    to: int,
    name: Seq<char>,
)
    requires
        other != kind,
    ensures
        library.renamed(kind, index, name).list(other) == library.list(other),
        library.deleted(kind, index).list(other) == library.list(other),
        library.reordered(kind, index, to).list(other) == library.list(other),
{
}

/// A rename changes one name and no payload, and leaves the names distinct.
pub proof fn a_rename_changes_one_name(
    library: LibraryModel,
    kind: PresetKind,
    index: int,
    name: Seq<char>,
)
    ensures
        ({
            let before = library.list(kind);
            let after = library.renamed(kind, index, name).list(kind);
            &&& after.len() == before.len()
            &&& forall|i: int|
                0 <= i < before.len() ==> (#[trigger] after[i]).data == before[i].data && (i
                    != index ==> after[i] == before[i])
            &&& distinct(before) ==> distinct(after)
        }),
{
}

/// Deleting an entry takes that one and keeps the rest in their order.
pub proof fn a_deletion_takes_one_entry(library: LibraryModel, kind: PresetKind, index: int)
    requires
        0 <= index < library.list(kind).len(),
    ensures
        ({
            let before = library.list(kind);
            let after = library.deleted(kind, index).list(kind);
            &&& after.len() == before.len() - 1
            &&& forall|i: int| 0 <= i < index ==> #[trigger] after[i] == before[i]
            &&& forall|i: int|
                index <= i < after.len() ==> #[trigger] after[i] == before[i + 1]
            &&& distinct(before) ==> distinct(after)
        }),
{
}

/// A move keeps every entry, and moving back restores the list.
pub proof fn a_move_loses_nothing(library: LibraryModel, kind: PresetKind, from: int, to: int)
    requires
        library.can_reorder(kind, from, to),
        to >= 0,
    ensures
        ({
            let place = library.clamped(kind, to);
            let after = library.reordered(kind, from, to);
            &&& after.list(kind).to_multiset() == library.list(kind).to_multiset()
            &&& after.list(kind)[place] == library.list(kind)[from]
            &&& after.reordered(kind, place, from).list(kind) == library.list(kind)
        }),
{
    let list = library.list(kind);
    let place = library.clamped(kind, to);
    let rest = list.remove(from);
    arrangement::lemma_moved(list, from, place);
    broadcast use vstd::seq_lib::group_to_multiset_ensures;

    assert(list == rest.insert(from, list[from]));
    assert(rest.insert(from, list[from]).to_multiset() == rest.to_multiset().insert(list[from]));
    assert(rest.insert(place, list[from]).to_multiset() == rest.to_multiset().insert(list[from]));
}

/// The first of the first `n` entries with a name, where there is one.
proof fn lemma_named(list: Seq<PresetEntryView>, name: Seq<char>, n: int)
    requires
        0 <= n <= list.len(),
    ensures
        match preset_manager::named_among(list, name, n) {
            Some(k) => 0 <= k < n && list[k].name == name,
            None => forall|i: int| 0 <= i < n ==> (#[trigger] list[i]).name != name,
        },
    decreases n,
{
    if n > 0 {
        lemma_named(list, name, n - 1);
    }
}

/// Taking one entry in keeps every name where it is, changes at most the entry
/// of that name, and puts the entry in.
proof fn lemma_taken_in(list: Seq<PresetEntryView>, entry: PresetEntryView)
    ensures
        ({
            let after = preset_manager::taken_in(list, entry);
            &&& list.len() <= after.len()
            &&& forall|i: int|
                0 <= i < list.len() ==> (#[trigger] after[i]).name == list[i].name && (
                list[i].name != entry.name ==> after[i] == list[i])
            &&& !text::blank(entry.name) ==> after.contains(entry)
            &&& forall|i: int|
                list.len() <= i < after.len() ==> #[trigger] after[i] == entry && !text::blank(
                    entry.name,
                )
            &&& distinct(list) ==> distinct(after)
        }),
{
    let after = preset_manager::taken_in(list, entry);
    lemma_named(list, entry.name, list.len() as int);
    if !text::blank(entry.name) {
        match preset_manager::named_among(list, entry.name, list.len() as int) {
            Some(k) => {
                assert(after[k] == entry);
            },
            None => {
                assert(after[list.len() as int] == entry);
            },
        }
    }
}

/// An import keeps every entry at its place under its name, leaves alone those
/// whose name does not come in, and leaves the names distinct.
pub proof fn an_import_keeps_what_was_there(
    list: Seq<PresetEntryView>,
    incoming: Seq<PresetEntryView>,
    n: int,
)
    requires
        0 <= n <= incoming.len(),
    ensures
        ({
            let after = preset_manager::merged(list, incoming, n);
            &&& list.len() <= after.len()
            &&& forall|i: int|
                0 <= i < list.len() ==> (#[trigger] after[i]).name == list[i].name && ((forall|
                    j: int,
                |
                    0 <= j < n ==> (#[trigger] incoming[j]).name != list[i].name) ==> after[i]
                    == list[i])
            &&& distinct(list) ==> distinct(after)
        }),
    decreases n,
{
    if n > 0 {
        an_import_keeps_what_was_there(list, incoming, n - 1);
        lemma_taken_in(preset_manager::merged(list, incoming, n - 1), incoming[n - 1]);
    }
}

/// An imported entry with a name is in the list, unless a later one of the same
/// name took its place.
pub proof fn an_import_brings_every_entry(
    list: Seq<PresetEntryView>,
    incoming: Seq<PresetEntryView>,
    n: int,
    j: int,
)
    requires
        0 <= j < n <= incoming.len(),
        !text::blank(incoming[j].name),
        forall|k: int| j < k < n ==> (#[trigger] incoming[k]).name != incoming[j].name,
    ensures
        preset_manager::merged(list, incoming, n).contains(incoming[j]),
    decreases n,
{
    let before = preset_manager::merged(list, incoming, n - 1);
    let after = preset_manager::merged(list, incoming, n);
    lemma_taken_in(before, incoming[n - 1]);
    if j < n - 1 {
        an_import_brings_every_entry(list, incoming, n - 1, j);
        let i = choose|i: int| 0 <= i < before.len() && before[i] == incoming[j];
        assert(after[i] == before[i]);
    }
}

/// The last of the first `n` entries with a name.
spec fn last_named(
    incoming: Seq<PresetEntryView>,
    name: Seq<char>,
    n: int,
) -> Option<PresetEntryView>
    decreases n,
{
    if n <= 0 {
        None
    } else if incoming[n - 1].name == name {
        Some(incoming[n - 1])
    } else {
        last_named(incoming, name, n - 1)
    }
}

/// Two lists with the same names in the first `n` places find a name alike.
proof fn lemma_named_alike(
    a: Seq<PresetEntryView>,
    b: Seq<PresetEntryView>,
    name: Seq<char>,
    n: int,
)
    requires
        0 <= n <= a.len(),
        n <= b.len(),
        forall|i: int| 0 <= i < n ==> (#[trigger] a[i]).name == b[i].name,
    ensures
        preset_manager::named_among(a, name, n) == preset_manager::named_among(b, name, n),
    decreases n,
{
    if n > 0 {
        lemma_named_alike(a, b, name, n - 1);
        assert(a[n - 1].name == b[n - 1].name);
    }
}

/// What is found among the first entries is found among more.
proof fn lemma_named_grows(list: Seq<PresetEntryView>, name: Seq<char>, n: int, m: int)
    requires
        0 <= n <= m <= list.len(),
        preset_manager::named_among(list, name, n) is Some,
    ensures
        preset_manager::named_among(list, name, m) == preset_manager::named_among(list, name, n),
    decreases m - n,
{
    if n < m {
        lemma_named_grows(list, name, n, m - 1);
    }
}

/// Once entries are taken in, the first of each of their names is the last that
/// came.
proof fn lemma_last_one_stays(
    list: Seq<PresetEntryView>,
    incoming: Seq<PresetEntryView>,
    name: Seq<char>,
    n: int,
)
    requires
        0 <= n <= incoming.len(),
        !text::blank(name),
        last_named(incoming, name, n) is Some,
    ensures
        ({
            let after = preset_manager::merged(list, incoming, n);
            preset_manager::named_among(after, name, after.len() as int) matches Some(k) && 0 <= k
                < after.len() && after[k] == last_named(incoming, name, n)->0
        }),
    decreases n,
{
    let before = preset_manager::merged(list, incoming, n - 1);
    let after = preset_manager::merged(list, incoming, n);
    let entry = incoming[n - 1];
    let count = before.len() as int;
    lemma_taken_in(before, entry);
    lemma_named_alike(before, after, name, count);
    lemma_named(before, name, count);
    if entry.name != name {
        lemma_last_one_stays(list, incoming, name, n - 1);
        lemma_named_grows(after, name, count, after.len() as int);
    } else {
        match preset_manager::named_among(before, name, count) {
            Some(k) => {
                assert(after == before.update(k, entry));
            },
            None => {
                assert(after == before.push(entry));
            },
        }
    }
}

/// Taking in entries whose names are all there changes the first of each name
/// and nothing else.
proof fn lemma_replaced(
    list: Seq<PresetEntryView>,
    incoming: Seq<PresetEntryView>,
    n: int,
)
    requires
        0 <= n <= incoming.len(),
        forall|j: int|
            0 <= j < n && !text::blank((#[trigger] incoming[j]).name)
                ==> preset_manager::named_among(list, incoming[j].name, list.len() as int) is Some,
    ensures
        ({
            let after = preset_manager::merged(list, incoming, n);
            &&& after.len() == list.len()
            &&& forall|i: int|
                0 <= i < list.len() ==> (#[trigger] after[i]).name == list[i].name && after[i]
                    == if !text::blank(list[i].name) && last_named(
                    incoming,
                    list[i].name,
                    n,
                ) is Some && preset_manager::named_among(
                    list,
                    list[i].name,
                    list.len() as int,
                ) == Some(i) {
                    last_named(incoming, list[i].name, n)->0
                } else {
                    list[i]
                }
        }),
    decreases n,
{
    if n > 0 {
        lemma_replaced(list, incoming, n - 1);
        let before = preset_manager::merged(list, incoming, n - 1);
        let entry = incoming[n - 1];
        lemma_named_alike(before, list, entry.name, list.len() as int);
        lemma_named(list, entry.name, list.len() as int);
        lemma_last_named(incoming, entry.name, n);
    }
}

proof fn lemma_last_named(incoming: Seq<PresetEntryView>, name: Seq<char>, n: int)
    requires
        0 <= n <= incoming.len(),
    ensures
        match last_named(incoming, name, n) {
            Some(e) => e.name == name,
            None => forall|j: int| 0 <= j < n ==> (#[trigger] incoming[j]).name != name,
        },
    decreases n,
{
    if n > 0 {
        lemma_last_named(incoming, name, n - 1);
    }
}

/// Importing the same entries twice is importing them once.
pub proof fn importing_twice_imports_once(
    list: Seq<PresetEntryView>,
    incoming: Seq<PresetEntryView>,
)
    ensures
        preset_manager::merged(
            preset_manager::merged(list, incoming, incoming.len() as int),
            incoming,
            incoming.len() as int,
        ) == preset_manager::merged(list, incoming, incoming.len() as int),
{
    let n = incoming.len() as int;
    let once = preset_manager::merged(list, incoming, n);
    let twice = preset_manager::merged(once, incoming, n);
    assert forall|j: int| 0 <= j < n && !text::blank(
        (#[trigger] incoming[j]).name,
    ) implies preset_manager::named_among(once, incoming[j].name, once.len() as int) is Some by {
        lemma_last_named(incoming, incoming[j].name, n);
        lemma_last_one_stays(list, incoming, incoming[j].name, n);
    }
    lemma_replaced(once, incoming, n);
    assert forall|i: int| 0 <= i < once.len() implies #[trigger] twice[i] == once[i] by {
        let name = once[i].name;
        if !text::blank(name) && last_named(incoming, name, n) is Some {
            lemma_last_one_stays(list, incoming, name, n);
        }
    }
    assert(twice =~= once);
}

/// Merging a library in twice is merging it once, and never loses a preset:
/// each kind keeps at least as many, and distinct names stay distinct.
pub proof fn merging_twice_merges_once(library: LibraryModel, other: LibraryModel)
    ensures
        library.merged(other).merged(other) == library.merged(other),
        library.total() <= library.merged(other).total(),
        forall|kind: PresetKind|
            (#[trigger] library.list(kind)).len() <= library.merged(other).list(kind).len() && (
            distinct(library.list(kind)) ==> distinct(library.merged(other).list(kind))),
{
    assert forall|kind: PresetKind|
        #![trigger library.list(kind)]
        ({
            let once = library.merged(other);
            &&& once.merged(other).list(kind) == once.list(kind)
            &&& library.list(kind).len() <= once.list(kind).len()
            &&& distinct(library.list(kind)) ==> distinct(once.list(kind))
        }) by {
        importing_twice_imports_once(library.list(kind), other.list(kind));
        an_import_keeps_what_was_there(
            library.list(kind),
            other.list(kind),
            other.list(kind).len() as int,
        );
    }
    assert(library.list(PresetKind::Brushes).len() <= library.merged(other).brushes.len());
    assert(library.list(PresetKind::Gradients).len() <= library.merged(other).gradients.len());
    assert(library.list(PresetKind::Patterns).len() <= library.merged(other).patterns.len());
    assert(library.list(PresetKind::Styles).len() <= library.merged(other).styles.len());
    assert(library.list(PresetKind::Shapes).len() <= library.merged(other).shapes.len());
}

/// A library with nothing in it brings nothing.
pub proof fn merging_nothing_changes_nothing(library: LibraryModel, other: LibraryModel)
    requires
        other.total() == 0,
    ensures
        library.merged(other) == library,
        other.named_total() == 0,
{
}

} // verus!

//! Help > Keyboard Shortcut Sheet.
//!
//! A read-only, searchable list of every chord the application answers. The
//! host builds the rows from the live keymap when the sheet opens. Typing
//! filters the rows by command name or chord; Escape, Enter and Close dismiss
//! it.

use super::chrome::DialogKeys;
use crate::text;
use vstd::prelude::*;

verus! {

/// One row of the sheet: a chord and the command it performs.
#[derive(Debug, PartialEq, Eq)]
pub struct ShortcutRow {
    /// The chord as the menu bar spells it (`Ctrl+Shift+P`).
    pub chord: String,
    /// The command's name (`Search Commands…`).
    pub command: String,
}

/// What a [`ShortcutRow`] stands for.
#[verifier::ext_equal]
pub struct ShortcutRowView {
    pub chord: Seq<char>,
    pub command: Seq<char>,
}

impl View for ShortcutRow {
    type V = ShortcutRowView;

    open spec fn view(&self) -> ShortcutRowView {
        ShortcutRowView { chord: self.chord@, command: self.command@ }
    }
}

impl Clone for ShortcutRow {
    fn clone(&self) -> (r: Self)
        ensures
            r@ == self@,
    {
        ShortcutRow {
            chord: text::copied(self.chord.as_str()),
            command: text::copied(self.command.as_str()),
        }
    }
}

/// What a list of rows stands for.
pub open spec fn rows_view(rows: Seq<ShortcutRow>) -> Seq<ShortcutRowView> {
    Seq::new(rows.len(), |i: int| rows[i]@)
}

/// By command, then by chord.
pub open spec fn row_before(a: ShortcutRowView, b: ShortcutRowView) -> bool {
    text::precedes(a.command, b.command) || (a.command == b.command && text::precedes(
        a.chord,
        b.chord,
    ))
}

/// Sorted by command then chord, with no row twice.
pub open spec fn in_order(rows: Seq<ShortcutRowView>) -> bool {
    forall|i: int, j: int|
        #![trigger rows[i], rows[j]]
        0 <= i < j < rows.len() ==> row_before(rows[i], rows[j])
}

/// The row holds every word of the query, in its command or in its chord,
/// ignoring case.
pub open spec fn row_matches(query: Seq<char>, row: ShortcutRowView) -> bool {
    forall|i: int|
        0 <= i < text::words(query).len() ==> {
            ||| text::occurs(
                text::lowercase(row.command),
                text::lowercase(#[trigger] text::words(query)[i]),
            )
            ||| text::occurs(text::lowercase(row.chord), text::lowercase(text::words(query)[i]))
        }
}

proof fn lemma_row_before(a: ShortcutRowView, b: ShortcutRowView, c: ShortcutRowView)
    ensures
        !row_before(a, a),
        row_before(a, b) && row_before(b, c) ==> row_before(a, c),
        row_before(a, b) || row_before(b, a) || a == b,
{
    text::lemma_precedes_irreflexive(a.command);
    text::lemma_precedes_irreflexive(a.chord);
    text::lemma_precedes_total(a.command, b.command);
    text::lemma_precedes_total(a.chord, b.chord);
    if text::precedes(a.command, b.command) && text::precedes(b.command, c.command) {
        text::lemma_precedes_transitive(a.command, b.command, c.command);
    }
    if text::precedes(a.chord, b.chord) && text::precedes(b.chord, c.chord) {
        text::lemma_precedes_transitive(a.chord, b.chord, c.chord);
    }
}

/// Two lists in order with the same rows are the same list.
pub proof fn the_order_of_rows_is_unique(a: Seq<ShortcutRowView>, b: Seq<ShortcutRowView>)
    requires
        in_order(a),
        in_order(b),
        forall|row: ShortcutRowView| #[trigger] a.contains(row) <==> b.contains(row),
    ensures
        a == b,
{
    lemma_same_prefix(a, b, a.len() as int);
    lemma_same_prefix(b, a, b.len() as int);
    assert(a =~= b);
}

proof fn lemma_same_prefix(a: Seq<ShortcutRowView>, b: Seq<ShortcutRowView>, n: int)
    requires
        in_order(a),
        in_order(b),
        forall|row: ShortcutRowView| #[trigger] a.contains(row) <==> b.contains(row),
        0 <= n <= a.len(),
    ensures
        n <= b.len(),
        forall|i: int| 0 <= i < n ==> a[i] == b[i],
    decreases n,
{
    if n > 0 {
        let i = n - 1;
        lemma_same_prefix(a, b, i);
        assert(a.contains(a[i]));
        let j = choose|j: int| 0 <= j < b.len() && b[j] == a[i];
        lemma_row_before(a[i], a[i], a[i]);
        if j < i {
            assert(a[j] == b[j]);
            assert(row_before(a[j], a[i]));
        }
        assert(b.contains(b[i]));
        assert(a.contains(b[i]));
        let k = choose|k: int| 0 <= k < a.len() && a[k] == b[i];
        lemma_row_before(b[i], b[i], b[i]);
        if k < i {
            assert(a[k] == b[k]);
            assert(row_before(b[k], b[i]));
        }
        if i < j && i < k {
            assert(row_before(b[i], b[j]));
            assert(row_before(a[i], a[k]));
            lemma_row_before(a[i], b[i], a[i]);
        }
    }
}

fn comes_before(a: &ShortcutRow, b: &ShortcutRow) -> (r: bool)
    ensures
        r == row_before(a@, b@),
{
    text::is_before(a.command.as_str(), b.command.as_str()) || (text::same(
        a.command.as_str(),
        b.command.as_str(),
    ) && text::is_before(a.chord.as_str(), b.chord.as_str()))
}

/// Put a row in its place, unless it is there already.
fn insert_row(rows: &mut Vec<ShortcutRow>, row: ShortcutRow)
    requires
        in_order(rows_view(old(rows)@)),
    ensures
        in_order(rows_view(final(rows)@)),
        forall|x: ShortcutRowView| #[trigger]
            rows_view(final(rows)@).contains(x) <==> (rows_view(old(rows)@).contains(x) || x
                == row@),
{
    let ghost before = rows_view(rows@);
    let ghost added = row@;
    let mut at: usize = rows.len();
    while at > 0 && comes_before(&row, &rows[at - 1])
        invariant
            at <= rows@.len(),
            before == rows_view(rows@),
            added == row@,
            forall|i: int| at <= i < before.len() ==> row_before(added, #[trigger] before[i]),
        decreases at,
    {
        at = at - 1;
        assert(before[at as int] == rows@[at as int]@);
    }
    if at > 0 {
        assert(before[at - 1] == rows@[at - 1]@);
        proof {
            lemma_row_before(before[at - 1], added, added);
        }
        if !comes_before(&rows[at - 1], &row) {
            assert(before[at - 1] == added);
            return;
        }
    }
    rows.insert(at, row);
    let ghost after = rows_view(rows@);
    assert(after =~= before.insert(at as int, added));
    assert forall|i: int, j: int|
        #![trigger after[i], after[j]]
        0 <= i < j < after.len() implies row_before(after[i], after[j]) by {
        let oi = if i < at { i } else { i - 1 };
        let oj = if j < at { j } else { j - 1 };
        if i != at && j != at {
            assert(row_before(before[oi], before[oj]));
        } else if i == at {
            assert(after[j] == before[oj]);
        } else {
            assert(after[i] == before[oi]);
            if oi < at - 1 {
                assert(row_before(before[oi], before[at - 1]));
                lemma_row_before(before[oi], before[at - 1], added);
            }
        }
    }
    assert forall|x: ShortcutRowView| #[trigger] after.contains(x) <==> (before.contains(x) || x
        == added) by {
        if after.contains(x) {
            let i = choose|i: int| 0 <= i < after.len() && after[i] == x;
            if i != at {
                let oi = if i < at { i } else { i - 1 };
                assert(before[oi] == x);
            }
        }
        if before.contains(x) {
            let oi = choose|i: int| 0 <= i < before.len() && before[i] == x;
            let i = if oi < at { oi } else { oi + 1 };
            assert(after[i] == x);
        }
        if x == added {
            assert(after[at as int] == x);
        }
    }
}

/// Whether every white-space separated word of `query` occurs in one of the
/// row's two texts, ignoring case. An empty query matches everything.
pub fn matches_terms(query: &str, row: &ShortcutRow) -> (r: bool)
    ensures
        r == row_matches(query@, row@),
{
    let command = row.command.as_str().to_lowercase();
    let chord = row.chord.as_str().to_lowercase();
    let words = text::words_of(query);
    let ghost all = text::words(query@);
    let mut i: usize = 0;
    while i < words.len()
        invariant
            i <= words@.len(),
            all == text::words(query@),
            all == text::texts(words@),
            command@ == text::lowercase(row@.command),
            chord@ == text::lowercase(row@.chord),
            forall|j: int|
                0 <= j < i ==> {
                    ||| text::occurs(
                        text::lowercase(row@.command),
                        text::lowercase(#[trigger] all[j]),
                    )
                    ||| text::occurs(text::lowercase(row@.chord), text::lowercase(all[j]))
                },
        decreases words@.len() - i,
    {
        let term = words[i].as_str().to_lowercase();
        assert(all[i as int] == words@[i as int]@);
        if !text::contains(command.as_str(), term.as_str()) && !text::contains(
            chord.as_str(),
            term.as_str(),
        ) {
            return false;
        }
        i = i + 1;
    }
    true
}

/// What a [`ShortcutSheet`] stands for.
#[verifier::ext_equal]
pub struct ShortcutSheetModel {
    pub rows: Seq<ShortcutRowView>,
    pub query: Seq<char>,
}

impl ShortcutSheetModel {
    /// The rows the search text keeps.
    pub open spec fn visible(self) -> Seq<ShortcutRowView> {
        self.rows.filter(|row: ShortcutRowView| row_matches(self.query, row))
    }
}

/// Help > Keyboard Shortcut Sheet.
#[derive(Debug, PartialEq, Eq)]
pub struct ShortcutSheet {
    rows: Vec<ShortcutRow>,
    query: String,
}

impl View for ShortcutSheet {
    type V = ShortcutSheetModel;

    closed spec fn view(&self) -> ShortcutSheetModel {
        ShortcutSheetModel { rows: rows_view(self.rows@), query: self.query@ }
    }
}

impl ShortcutSheet {
    /// A sheet over `rows`, sorted by command then chord, duplicates dropped.
    pub fn new(rows: Vec<ShortcutRow>) -> (r: Self)
        ensures
            in_order(r@.rows),
            forall|row: ShortcutRowView| #[trigger]
                r@.rows.contains(row) <==> rows_view(rows@).contains(row),
            r@.query == Seq::<char>::empty(),
    {
        let ghost given = rows_view(rows@);
        let mut sorted: Vec<ShortcutRow> = Vec::new();
        let mut i: usize = 0;
        while i < rows.len()
            invariant
                i <= rows@.len(),
                given == rows_view(rows@),
                in_order(rows_view(sorted@)),
                forall|x: ShortcutRowView| #[trigger]
                    rows_view(sorted@).contains(x) <==> given.take(i as int).contains(x),
            decreases rows@.len() - i,
        {
            let ghost before = rows_view(sorted@);
            insert_row(&mut sorted, rows[i].clone());
            assert forall|x: ShortcutRowView| #[trigger]
                rows_view(sorted@).contains(x) <==> given.take(i + 1).contains(x) by {
                let now = given.take(i + 1);
                assert(before.contains(x) <==> given.take(i as int).contains(x));
                if given.take(i as int).contains(x) {
                    let k = choose|k: int|
                        0 <= k < given.take(i as int).len() && given.take(i as int)[k] == x;
                    assert(now[k] == x);
                }
                if x == given[i as int] {
                    assert(now[i as int] == x);
                }
                if now.contains(x) {
                    let k = choose|k: int| 0 <= k < now.len() && now[k] == x;
                    if k < i {
                        assert(given.take(i as int)[k] == x);
                    }
                }
            }
            i = i + 1;
        }
        assert(given.take(i as int) =~= given);
        ShortcutSheet { rows: sorted, query: String::new() }
    }

    /// Every row, filter or not.
    pub fn rows(&self) -> (r: &Vec<ShortcutRow>)
        ensures
            rows_view(r@) == self@.rows,
    {
        &self.rows
    }

    /// The search text.
    pub fn query(&self) -> (r: &str)
        ensures
            r@ == self@.query,
    {
        self.query.as_str()
    }

    /// Replace the search text.
    pub fn set_query(&mut self, query: String)
        ensures
            final(self)@ == (ShortcutSheetModel { query: query@, ..old(self)@ }),
    {
        self.query = query;
    }

    /// The rows the search text keeps.
    pub fn visible(&self) -> (r: Vec<ShortcutRow>)
        ensures
            rows_view(r@) == self@.visible(),
    {
        let ghost keep = |row: ShortcutRowView| row_matches(self@.query, row);
        let mut out: Vec<ShortcutRow> = Vec::new();
        let mut i: usize = 0;
        reveal(Seq::filter);
        assert(rows_view(out@) =~= self@.rows.take(0).filter(keep));
        while i < self.rows.len()
            invariant
                i <= self.rows@.len(),
                keep == (|row: ShortcutRowView| row_matches(self@.query, row)),
                rows_view(out@) == self@.rows.take(i as int).filter(keep),
            decreases self.rows@.len() - i,
        {
            let ghost before = rows_view(out@);
            assert(self@.rows.take(i + 1).drop_last() =~= self@.rows.take(i as int));
            assert(self@.rows.take(i + 1).last() == self.rows@[i as int]@);
            reveal(Seq::filter);
            if matches_terms(self.query.as_str(), &self.rows[i]) {
                out.push(self.rows[i].clone());
                assert(rows_view(out@) =~= before.push(self.rows@[i as int]@));
            }
            i = i + 1;
        }
        assert(self@.rows.take(i as int) =~= self@.rows);
        out
    }

    /// The window's title: the Help row's own label.
    pub fn title(&self) -> (r: String)
        ensures
            r@ == "Keyboard Shortcut Sheet…"@,
    {
        text::copied("Keyboard Shortcut Sheet…")
    }

    /// Whether the frame dismisses the window: either key does, and so does
    /// its Close button.
    pub fn is_dismissed(&self, keys: DialogKeys, closed: bool) -> (r: bool)
        ensures
            r == (keys.cancel || keys.confirm || closed),
    {
        keys.cancel || keys.confirm || closed
    }
}

} // verus!

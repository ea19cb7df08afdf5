//! Reading comma separated values (RFC 4180): fields separated by commas and
//! rows by line ends, `"` quoting a field, `""` an escaped quote, quoted fields
//! free to span lines. Blank lines are skipped.

use crate::strings;
use crate::text;
use vstd::prelude::*;

verus! {

/// Where in a field the reader stands.
#[derive(Clone, Copy, PartialEq, Eq, Structural, Debug)]
pub enum CsvMode {
    /// Nothing of the field has been read, so a quote opens it.
    Fresh,
    /// Outside quotes, past the start of the field.
    Plain,
    /// Inside quotes.
    Quoted,
    /// Just past a quote inside quotes: another one escapes it, anything else
    /// means the quoted part is over.
    Closing,
}

/// What has been read so far.
#[verifier::ext_equal]
pub struct CsvState {
    pub rows: Seq<Seq<Seq<char>>>,
    pub row: Seq<Seq<char>>,
    pub field: Seq<char>,
    pub mode: CsvMode,
}

/// A row that is one blank field: a blank line.
pub open spec fn blank_row(row: Seq<Seq<char>>) -> bool {
    row.len() == 1 && text::blank(row[0])
}

/// The rows with one more, unless it is a blank line.
pub open spec fn with_row(rows: Seq<Seq<Seq<char>>>, row: Seq<Seq<char>>) -> Seq<Seq<Seq<char>>> {
    if blank_row(row) {
        rows
    } else {
        rows.push(row)
    }
}

/// One character outside quotes.
pub open spec fn plain_step(s: CsvState, c: char) -> CsvState {
    if c == '"' && s.mode == CsvMode::Fresh {
        CsvState { mode: CsvMode::Quoted, ..s }
    } else if c == ',' {
        CsvState { row: s.row.push(s.field), field: Seq::empty(), mode: CsvMode::Fresh, ..s }
    } else if c == '\r' {
        s
    } else if c == '\n' {
        CsvState {
            rows: with_row(s.rows, s.row.push(s.field)),
            row: Seq::empty(),
            field: Seq::empty(),
            mode: CsvMode::Fresh,
        }
    } else {
        CsvState { field: s.field.push(c), mode: CsvMode::Plain, ..s }
    }
}

/// One character.
pub open spec fn csv_step(s: CsvState, c: char) -> CsvState {
    match s.mode {
        CsvMode::Quoted => if c == '"' {
            CsvState { mode: CsvMode::Closing, ..s }
        } else {
            CsvState { field: s.field.push(c), ..s }
        },
        CsvMode::Closing => if c == '"' {
            CsvState { field: s.field.push('"'), mode: CsvMode::Quoted, ..s }
        } else {
            plain_step(CsvState { mode: CsvMode::Plain, ..s }, c)
        },
        _ => plain_step(s, c),
    }
}

/// A text read character by character.
pub open spec fn csv_run(s: CsvState, input: Seq<char>) -> CsvState
    decreases input.len(),
{
    if input.len() == 0 {
        s
    } else {
        csv_step(csv_run(s, input.drop_last()), input.last())
    }
}

/// Before anything is read.
pub open spec fn csv_start() -> CsvState {
    CsvState { rows: Seq::empty(), row: Seq::empty(), field: Seq::empty(), mode: CsvMode::Fresh }
}

/// The rows at the end of the text; none where a quote is never closed.
pub open spec fn csv_end(s: CsvState) -> Option<Seq<Seq<Seq<char>>>> {
    if s.mode == CsvMode::Quoted {
        None
    } else if s.field.len() > 0 || s.row.len() > 0 {
        Some(with_row(s.rows, s.row.push(s.field)))
    } else {
        Some(s.rows)
    }
}

/// The rows of fields a text holds; none where a quoted field is never closed.
pub open spec fn csv_rows(input: Seq<char>) -> Option<Seq<Seq<Seq<char>>>> {
    csv_end(csv_run(csv_start(), input))
}

/// The texts of a row.
pub open spec fn row_view(row: Seq<String>) -> Seq<Seq<char>> {
    Seq::new(row.len(), |i: int| row[i]@)
}

/// The texts of all rows.
pub open spec fn rows_view(rows: Seq<Vec<String>>) -> Seq<Seq<Seq<char>>> {
    Seq::new(rows.len(), |i: int| row_view(rows[i]@))
}

/// Add a row unless it is a blank line.
fn add_row(rows: &mut Vec<Vec<String>>, row: Vec<String>)
    ensures
        rows_view(final(rows)@) == with_row(rows_view(old(rows)@), row_view(row@)),
{
    if row.len() == 1 && text::is_blank(row[0].as_str()) {
        assert(row_view(row@)[0] == row@[0]@);
        return;
    }
    let ghost before = rows_view(rows@);
    let ghost added = row_view(row@);
    assert(row@.len() == 1 ==> row_view(row@)[0] == row@[0]@);
    rows.push(row);
    assert(rows_view(rows@) =~= before.push(added));
}

/// Read CSV text into rows of fields. Blank lines are skipped; a quoted field
/// that is never closed is an error.
pub fn parse_csv(input: &str) -> (r: Result<Vec<Vec<String>>, String>)
    ensures
        match r {
            Ok(rows) => csv_rows(input@) == Some(rows_view(rows@)),
            Err(e) => csv_rows(input@) is None && e@ == strings::entry(
                "ui.variables.csv.unclosed"@,
            ),
        },
{
    let mut rows: Vec<Vec<String>> = Vec::new();
    let mut row: Vec<String> = Vec::new();
    let mut field: String = String::new();
    let mut mode: CsvMode = CsvMode::Fresh;
    let chars = text::chars_of(input);
    let mut i: usize = 0;
    assert(rows_view(rows@) =~= Seq::empty());
    assert(row_view(row@) =~= Seq::empty());
    assert(input@.take(0) =~= Seq::empty());
    while i < chars.len()
        invariant
            i <= chars@.len(),
            chars@ == input@,
            csv_run(csv_start(), input@.take(i as int)) == (CsvState {
                rows: rows_view(rows@),
                row: row_view(row@),
                field: field@,
                mode,
            }),
        decreases chars@.len() - i,
    {
        let c = chars[i];
        let ghost state = csv_run(csv_start(), input@.take(i as int));
        i = i + 1;
        assert(input@.take(i as int).drop_last() =~= input@.take(i - 1));
        assert(input@.take(i as int).last() == c);
        if mode == CsvMode::Quoted {
            if c == '"' {
                mode = CsvMode::Closing;
            } else {
                field.push(c);
            }
        } else if mode == CsvMode::Closing && c == '"' {
            field.push('"');
            mode = CsvMode::Quoted;
        } else if c == '"' && mode == CsvMode::Fresh {
            mode = CsvMode::Quoted;
        } else if c == ',' {
            let ghost texts = row_view(row@);
            let ghost done = field@;
            row.push(field);
            assert(row_view(row@) =~= texts.push(done));
            field = String::new();
            mode = CsvMode::Fresh;
        } else if c == '\r' {
            if mode == CsvMode::Closing {
                mode = CsvMode::Plain;
            }
        } else if c == '\n' {
            let ghost texts = row_view(row@);
            let ghost done = field@;
            row.push(field);
            assert(row_view(row@) =~= texts.push(done));
            add_row(&mut rows, row);
            row = Vec::new();
            assert(row_view(row@) =~= Seq::empty());
            field = String::new();
            mode = CsvMode::Fresh;
        } else {
            field.push(c);
            mode = CsvMode::Plain;
        }
    }
    assert(input@.take(i as int) =~= input@);
    if mode == CsvMode::Quoted {
        return Err(text::copied(strings::tr("ui.variables.csv.unclosed")));
    }
    if !field.as_str().is_empty() || row.len() > 0 {
        let ghost texts = row_view(row@);
        let ghost done = field@;
        row.push(field);
        assert(row_view(row@) =~= texts.push(done));
        add_row(&mut rows, row);
    }
    Ok(rows)
}

/// A text with every quote doubled.
pub open spec fn doubled(field: Seq<char>) -> Seq<char>
    decreases field.len(),
{
    if field.len() == 0 {
        Seq::empty()
    } else if field.last() == '"' {
        doubled(field.drop_last()).push('"').push('"')
    } else {
        doubled(field.drop_last()).push(field.last())
    }
}

/// A field in quotes.
pub open spec fn quoted(field: Seq<char>) -> Seq<char> {
    seq!['"'] + doubled(field).push('"')
}

/// A row's fields in quotes, with commas between them.
pub open spec fn quoted_row(row: Seq<Seq<char>>) -> Seq<char>
    decreases row.len(),
{
    if row.len() == 0 {
        Seq::empty()
    } else if row.len() == 1 {
        quoted(row[0])
    } else {
        quoted_row(row.drop_last()).push(',') + quoted(row.last())
    }
}

/// The end of a line: a line feed, with or without a carriage return before it.
pub open spec fn line_end(carriage: bool) -> Seq<char> {
    if carriage {
        seq!['\r', '\n']
    } else {
        seq!['\n']
    }
}

/// Rows in quotes, each with its own line end.
pub open spec fn quoted_rows(rows: Seq<Seq<Seq<char>>>, carriages: Seq<bool>) -> Seq<char>
    decreases rows.len(),
{
    if rows.len() == 0 {
        Seq::empty()
    } else {
        quoted_rows(rows.drop_last(), carriages) + quoted_row(rows.last()) + line_end(
            carriages[rows.len() - 1],
        )
    }
}

/// Rows in quotes, with line ends between them and none behind the last.
pub open spec fn separated_rows(rows: Seq<Seq<Seq<char>>>, carriages: Seq<bool>) -> Seq<char> {
    if rows.len() == 0 {
        Seq::empty()
    } else {
        quoted_rows(rows.drop_last(), carriages) + quoted_row(rows.last())
    }
}

/// Rows a file can hold: each has a field, and none is one blank field, which
/// is a blank line.
pub open spec fn holdable(rows: Seq<Seq<Seq<char>>>) -> bool {
    forall|i: int|
        0 <= i < rows.len() ==> (#[trigger] rows[i]).len() > 0 && !blank_row(rows[i])
}

proof fn lemma_run_concat(s: CsvState, a: Seq<char>, b: Seq<char>)
    ensures
        csv_run(s, a + b) == csv_run(csv_run(s, a), b),
    decreases b.len(),
{
    if b.len() == 0 {
        assert(a + b =~= a);
    } else {
        assert((a + b).drop_last() =~= a + b.drop_last());
        assert((a + b).last() == b.last());
        lemma_run_concat(s, a, b.drop_last());
    }
}

proof fn lemma_run_push(s: CsvState, a: Seq<char>, c: char)
    ensures
        csv_run(s, a.push(c)) == csv_step(csv_run(s, a), c),
{
    assert(a.push(c).drop_last() =~= a);
}

proof fn lemma_run_doubled(s: CsvState, field: Seq<char>)
    requires
        s.mode == CsvMode::Quoted,
    ensures
        csv_run(s, doubled(field)) == (CsvState { field: s.field + field, ..s }),
    decreases field.len(),
{
    if field.len() == 0 {
        assert(s.field + field =~= s.field);
    } else {
        let front = field.drop_last();
        lemma_run_doubled(s, front);
        assert(s.field + field =~= (s.field + front).push(field.last()));
        if field.last() == '"' {
            lemma_run_push(s, doubled(front), '"');
            lemma_run_push(s, doubled(front).push('"'), '"');
        } else {
            lemma_run_push(s, doubled(front), field.last());
        }
    }
}

proof fn lemma_run_quoted(s: CsvState, field: Seq<char>)
    requires
        s.mode == CsvMode::Fresh,
        s.field.len() == 0,
    ensures
        csv_run(s, quoted(field)) == (CsvState { field, mode: CsvMode::Closing, ..s }),
{
    let open = CsvState { mode: CsvMode::Quoted, ..s };
    lemma_run_concat(s, seq!['"'], doubled(field).push('"'));
    assert(seq!['"'] =~= Seq::<char>::empty().push('"'));
    lemma_run_push(s, Seq::empty(), '"');
    lemma_run_push(open, doubled(field), '"');
    lemma_run_doubled(open, field);
    assert(s.field + field =~= field);
}

proof fn lemma_run_quoted_row(s: CsvState, row: Seq<Seq<char>>)
    requires
        s.mode == CsvMode::Fresh,
        s.field.len() == 0,
        s.row.len() == 0,
        row.len() > 0,
    ensures
        csv_run(s, quoted_row(row)) == (CsvState {
            row: row.drop_last(),
            field: row.last(),
            mode: CsvMode::Closing,
            ..s
        }),
    decreases row.len(),
{
    if row.len() == 1 {
        lemma_run_quoted(s, row[0]);
        assert(s.row =~= row.drop_last());
    } else {
        let front = row.drop_last();
        lemma_run_quoted_row(s, front);
        let comma = quoted_row(front).push(',');
        lemma_run_push(s, quoted_row(front), ',');
        let fresh = csv_run(s, comma);
        assert(fresh.row =~= front);
        lemma_run_quoted(fresh, row.last());
        lemma_run_concat(s, comma, quoted(row.last()));
    }
}

proof fn lemma_run_last_row(rows: Seq<Seq<Seq<char>>>, carriages: Seq<bool>)
    requires
        holdable(rows),
        rows.len() > 0,
        rows.len() - 1 <= carriages.len(),
    ensures
        csv_run(csv_start(), separated_rows(rows, carriages)) == (CsvState {
            rows: rows.drop_last(),
            row: rows.last().drop_last(),
            field: rows.last().last(),
            mode: CsvMode::Closing,
        }),
    decreases rows.len(), 0int,
{
    let front = rows.drop_last();
    let row = rows.last();
    assert forall|i: int| 0 <= i < front.len() implies (#[trigger] front[i]).len() > 0
        && !blank_row(front[i]) by {
        assert(front[i] == rows[i]);
    }
    lemma_run_quoted_rows(front, carriages);
    assert(rows[rows.len() - 1] == row);
    lemma_run_quoted_row(CsvState { rows: front, ..csv_start() }, row);
    lemma_run_concat(csv_start(), quoted_rows(front, carriages), quoted_row(row));
}

proof fn lemma_run_quoted_rows(rows: Seq<Seq<Seq<char>>>, carriages: Seq<bool>)
    requires
        holdable(rows),
        rows.len() <= carriages.len(),
    ensures
        csv_run(csv_start(), quoted_rows(rows, carriages)) == (CsvState { rows, ..csv_start() }),
    decreases rows.len(), 1int,
{
    if rows.len() == 0 {
        assert(rows =~= Seq::empty());
    } else {
        let front = rows.drop_last();
        let row = rows.last();
        lemma_run_last_row(rows, carriages);
        let text = separated_rows(rows, carriages);
        let end = line_end(carriages[rows.len() - 1]);
        let done = csv_run(csv_start(), text);
        assert(rows[rows.len() - 1] == row);
        assert(row.drop_last().push(row.last()) =~= row);
        assert(front.push(row) =~= rows);
        lemma_run_concat(csv_start(), text, end);
        if carriages[rows.len() - 1] {
            assert(end =~= Seq::<char>::empty().push('\r').push('\n'));
            lemma_run_push(done, Seq::empty(), '\r');
            lemma_run_push(done, Seq::<char>::empty().push('\r'), '\n');
        } else {
            assert(end =~= Seq::<char>::empty().push('\n'));
            lemma_run_push(done, Seq::empty(), '\n');
        }
    }
}

/// What is written in quotes is read back, whatever the fields hold: commas,
/// quotes and line ends included. Each line has either line end, whatever the
/// others have, and the last may have none. A row needs a field, and must not
/// be one blank field, which is a blank line.
pub proof fn quoted_rows_read_back(rows: Seq<Seq<Seq<char>>>, carriages: Seq<bool>)
    requires
        holdable(rows),
        rows.len() <= carriages.len(),
    ensures
        csv_rows(quoted_rows(rows, carriages)) == Some(rows),
        csv_rows(separated_rows(rows, carriages)) == Some(rows),
{
    lemma_run_quoted_rows(rows, carriages);
    if rows.len() > 0 {
        lemma_run_last_row(rows, carriages);
        let row = rows[rows.len() - 1];
        assert(row.drop_last().push(row.last()) =~= row);
        assert(rows.drop_last().push(row) =~= rows);
        if row.len() == 1 && row[0].len() == 0 {
            assert(text::blank(row[0]));
        }
    } else {
        assert(rows =~= Seq::empty());
    }
}

/// What can stand outside quotes: no comma, no line end, and no quote where it
/// starts.
pub open spec fn bare(part: Seq<char>) -> bool {
    &&& part.len() > 0 ==> part[0] != '"'
    &&& forall|i: int|
        0 <= i < part.len() ==> #[trigger] part[i] != ',' && part[i] != '\r' && part[i] != '\n'
}

/// A field can be written so: with its first characters in quotes, as many as
/// are asked for, and the rest as they stand; or all of it as it stands.
pub open spec fn writable(field: Seq<char>, in_quotes: Option<nat>) -> bool {
    match in_quotes {
        Some(n) => n <= field.len() && bare(field.skip(n as int)),
        None => bare(field),
    }
}

/// A field as it is written.
pub open spec fn written(field: Seq<char>, in_quotes: Option<nat>) -> Seq<char> {
    match in_quotes {
        Some(n) => quoted(field.take(n as int)) + field.skip(n as int),
        None => field,
    }
}

/// A row's fields as they are written, with commas between them.
pub open spec fn written_row(row: Seq<Seq<char>>, in_quotes: Seq<Option<nat>>) -> Seq<char>
    decreases row.len(),
{
    if row.len() == 0 {
        Seq::empty()
    } else if row.len() == 1 {
        written(row[0], in_quotes[0])
    } else {
        written_row(row.drop_last(), in_quotes).push(',') + written(
            row.last(),
            in_quotes[row.len() - 1],
        )
    }
}

/// A row whose every field can be written so.
pub open spec fn writable_row(row: Seq<Seq<char>>, in_quotes: Seq<Option<nat>>) -> bool {
    &&& row.len() <= in_quotes.len()
    &&& forall|i: int| 0 <= i < row.len() ==> writable(#[trigger] row[i], in_quotes[i])
}

/// Rows as they are written, each with its own line end.
pub open spec fn written_rows(
    rows: Seq<Seq<Seq<char>>>,
    in_quotes: Seq<Seq<Option<nat>>>,
    carriages: Seq<bool>,
) -> Seq<char>
    decreases rows.len(),
{
    if rows.len() == 0 {
        Seq::empty()
    } else {
        written_rows(rows.drop_last(), in_quotes, carriages) + written_row(
            rows.last(),
            in_quotes[rows.len() - 1],
        ) + line_end(carriages[rows.len() - 1])
    }
}

/// Rows that can be written so, and that a file can hold.
pub open spec fn writable_rows(
    rows: Seq<Seq<Seq<char>>>,
    in_quotes: Seq<Seq<Option<nat>>>,
    carriages: Seq<bool>,
) -> bool {
    &&& holdable(rows)
    &&& rows.len() <= carriages.len()
    &&& rows.len() <= in_quotes.len()
    &&& forall|i: int| 0 <= i < rows.len() ==> writable_row(#[trigger] rows[i], in_quotes[i])
}

/// Where the reader stands behind a field.
spec fn behind(field: Seq<char>, in_quotes: Option<nat>) -> CsvMode {
    match in_quotes {
        Some(n) => if n == field.len() {
            CsvMode::Closing
        } else {
            CsvMode::Plain
        },
        None => if field.len() == 0 {
            CsvMode::Fresh
        } else {
            CsvMode::Plain
        },
    }
}

proof fn lemma_run_bare(s: CsvState, part: Seq<char>)
    requires
        s.mode != CsvMode::Quoted,
        bare(part),
    ensures
        csv_run(s, part) == (CsvState {
            field: s.field + part,
            mode: if part.len() == 0 {
                s.mode
            } else {
                CsvMode::Plain
            },
            ..s
        }),
    decreases part.len(),
{
    if part.len() == 0 {
        assert(s.field + part =~= s.field);
    } else {
        let front = part.drop_last();
        assert forall|i: int| 0 <= i < front.len() implies #[trigger] front[i] != ',' && front[i]
            != '\r' && front[i] != '\n' by {
            assert(front[i] == part[i]);
        }
        assert(front.len() > 0 ==> front[0] == part[0]);
        lemma_run_bare(s, front);
        let c = part[part.len() - 1];
        assert(c != ',' && c != '\r' && c != '\n');
        assert(s.field + part =~= (s.field + front).push(c));
    }
}

proof fn lemma_run_written(s: CsvState, field: Seq<char>, in_quotes: Option<nat>)
    requires
        s.mode == CsvMode::Fresh,
        s.field.len() == 0,
        writable(field, in_quotes),
    ensures
        csv_run(s, written(field, in_quotes)) == (CsvState {
            field,
            mode: behind(field, in_quotes),
            ..s
        }),
{
    match in_quotes {
        Some(n) => {
            let head = field.take(n as int);
            let tail = field.skip(n as int);
            lemma_run_concat(s, quoted(head), tail);
            lemma_run_quoted(s, head);
            lemma_run_bare(CsvState { field: head, mode: CsvMode::Closing, ..s }, tail);
            assert(head + tail =~= field);
        },
        None => {
            lemma_run_bare(s, field);
            assert(s.field + field =~= field);
        },
    }
}

proof fn lemma_run_written_row(s: CsvState, row: Seq<Seq<char>>, in_quotes: Seq<Option<nat>>)
    requires
        s.mode == CsvMode::Fresh,
        s.field.len() == 0,
        s.row.len() == 0,
        row.len() > 0,
        writable_row(row, in_quotes),
    ensures
        csv_run(s, written_row(row, in_quotes)) == (CsvState {
            row: row.drop_last(),
            field: row.last(),
            mode: behind(row.last(), in_quotes[row.len() - 1]),
            ..s
        }),
    decreases row.len(),
{
    assert(writable(row[row.len() - 1], in_quotes[row.len() - 1]));
    if row.len() == 1 {
        lemma_run_written(s, row[0], in_quotes[0]);
        assert(s.row =~= row.drop_last());
    } else {
        let front = row.drop_last();
        assert forall|i: int| 0 <= i < front.len() implies writable(
            #[trigger] front[i],
            in_quotes[i],
        ) by {
            assert(front[i] == row[i]);
        }
        lemma_run_written_row(s, front, in_quotes);
        let comma = written_row(front, in_quotes).push(',');
        lemma_run_push(s, written_row(front, in_quotes), ',');
        let fresh = csv_run(s, comma);
        assert(front.drop_last().push(front.last()) =~= front);
        assert(fresh.row =~= front);
        lemma_run_written(fresh, row.last(), in_quotes[row.len() - 1]);
        lemma_run_concat(s, comma, written(row.last(), in_quotes[row.len() - 1]));
    }
}

proof fn lemma_fewer_rows(
    rows: Seq<Seq<Seq<char>>>,
    in_quotes: Seq<Seq<Option<nat>>>,
    carriages: Seq<bool>,
)
    requires
        writable_rows(rows, in_quotes, carriages),
        rows.len() > 0,
    ensures
        writable_rows(rows.drop_last(), in_quotes, carriages),
        rows.last().len() > 0,
        !blank_row(rows.last()),
        writable_row(rows.last(), in_quotes[rows.len() - 1]),
        rows.last().drop_last().push(rows.last().last()) == rows.last(),
        rows.drop_last().push(rows.last()) == rows,
{
    let front = rows.drop_last();
    assert forall|i: int| 0 <= i < front.len() implies (#[trigger] front[i]).len() > 0
        && !blank_row(front[i]) && writable_row(front[i], in_quotes[i]) by {
        assert(front[i] == rows[i]);
    }
    let last = rows[rows.len() - 1];
    assert(last.len() > 0);
    assert(writable_row(last, in_quotes[rows.len() - 1]));
    assert(last.drop_last().push(last.last()) =~= last);
    assert(front.push(last) =~= rows);
}

proof fn lemma_run_written_rows(
    rows: Seq<Seq<Seq<char>>>,
    in_quotes: Seq<Seq<Option<nat>>>,
    carriages: Seq<bool>,
)
    requires
        writable_rows(rows, in_quotes, carriages),
    ensures
        csv_run(csv_start(), written_rows(rows, in_quotes, carriages)) == (CsvState {
            rows,
            ..csv_start()
        }),
    decreases rows.len(),
{
    if rows.len() == 0 {
        assert(rows =~= Seq::empty());
    } else {
        let front = rows.drop_last();
        let row = rows.last();
        lemma_fewer_rows(rows, in_quotes, carriages);
        lemma_run_written_rows(front, in_quotes, carriages);
        let opened = CsvState { rows: front, ..csv_start() };
        let spelled = written_row(row, in_quotes[rows.len() - 1]);
        lemma_run_written_row(opened, row, in_quotes[rows.len() - 1]);
        let before = written_rows(front, in_quotes, carriages);
        lemma_run_concat(csv_start(), before, spelled);
        let done = csv_run(opened, spelled);
        let end = line_end(carriages[rows.len() - 1]);
        lemma_run_concat(csv_start(), before + spelled, end);
        if carriages[rows.len() - 1] {
            assert(end =~= Seq::<char>::empty().push('\r').push('\n'));
            lemma_run_push(done, Seq::empty(), '\r');
            lemma_run_push(done, Seq::<char>::empty().push('\r'), '\n');
        } else {
            assert(end =~= Seq::<char>::empty().push('\n'));
            lemma_run_push(done, Seq::empty(), '\n');
        }
    }
}

/// What is written is read back, field by field and character by character:
/// spaces, and quotes past the start of a field, included. Any field may stand
/// as it is, in quotes, or with only its first part in quotes; every line has
/// either line end, and the last may have none.
pub proof fn written_rows_read_back(
    rows: Seq<Seq<Seq<char>>>,
    in_quotes: Seq<Seq<Option<nat>>>,
    carriages: Seq<bool>,
)
    requires
        writable_rows(rows, in_quotes, carriages),
    ensures
        csv_rows(written_rows(rows, in_quotes, carriages)) == Some(rows),
        rows.len() > 0 ==> csv_rows(
            written_rows(rows.drop_last(), in_quotes, carriages) + written_row(
                rows.last(),
                in_quotes[rows.len() - 1],
            ),
        ) == Some(rows),
{
    lemma_run_written_rows(rows, in_quotes, carriages);
    if rows.len() > 0 {
        let front = rows.drop_last();
        let row = rows.last();
        lemma_fewer_rows(rows, in_quotes, carriages);
        lemma_run_written_rows(front, in_quotes, carriages);
        let opened = CsvState { rows: front, ..csv_start() };
        lemma_run_written_row(opened, row, in_quotes[rows.len() - 1]);
        lemma_run_concat(
            csv_start(),
            written_rows(front, in_quotes, carriages),
            written_row(row, in_quotes[rows.len() - 1]),
        );
        if row.len() == 1 && row[0].len() == 0 {
            assert(text::blank(row[0]));
        }
    }
}

/// A line of white space says nothing, wherever it stands between rows.
pub proof fn a_blank_line_says_nothing(
    rows: Seq<Seq<Seq<char>>>,
    in_quotes: Seq<Seq<Option<nat>>>,
    carriages: Seq<bool>,
    line: Seq<char>,
    rest: Seq<char>,
)
    requires
        writable_rows(rows, in_quotes, carriages),
        text::blank(line),
        !line.contains('\n'),
    ensures
        csv_rows(written_rows(rows, in_quotes, carriages) + (line.push('\n') + rest)) == csv_rows(
            written_rows(rows, in_quotes, carriages) + rest,
        ),
{
    let before = written_rows(rows, in_quotes, carriages);
    let s = CsvState { rows, ..csv_start() };
    lemma_run_written_rows(rows, in_quotes, carriages);
    lemma_run_white(s, line);
    lemma_run_push(s, line, '\n');
    let done = csv_run(s, line);
    assert(blank_row(s.row.push(done.field)));
    assert(csv_run(s, line.push('\n')) =~= s);
    lemma_run_concat(csv_start(), before, line.push('\n') + rest);
    lemma_run_concat(s, line.push('\n'), rest);
    lemma_run_concat(csv_start(), before, rest);
}

proof fn lemma_run_white(s: CsvState, line: Seq<char>)
    requires
        s.mode == CsvMode::Fresh,
        s.field.len() == 0,
        text::blank(line),
        !line.contains('\n'),
    ensures
        csv_run(s, line).rows == s.rows,
        csv_run(s, line).row == s.row,
        text::blank(csv_run(s, line).field),
        csv_run(s, line).mode == CsvMode::Fresh || csv_run(s, line).mode == CsvMode::Plain,
    decreases line.len(),
{
    if line.len() > 0 {
        let front = line.drop_last();
        assert forall|i: int| 0 <= i < front.len() implies text::white(#[trigger] front[i])
            && front[i] != '\n' by {
            assert(front[i] == line[i]);
            assert(line.contains(line[i]));
        }
        lemma_run_white(s, front);
        assert(text::white(line[line.len() - 1]));
        assert(line.contains(line[line.len() - 1]));
    }
}

/// A quote that opens a field and is never closed is refused, in whatever row
/// and field it stands.
pub proof fn an_unclosed_quote_is_refused(
    rows: Seq<Seq<Seq<char>>>,
    in_quotes: Seq<Seq<Option<nat>>>,
    carriages: Seq<bool>,
    row: Seq<Seq<char>>,
    row_quotes: Seq<Option<nat>>,
    field: Seq<char>,
)
    requires
        writable_rows(rows, in_quotes, carriages),
        writable_row(row, row_quotes),
    ensures
        csv_rows(
            written_rows(rows, in_quotes, carriages) + (seq!['"'] + doubled(field)),
        ) is None,
        row.len() > 0 ==> csv_rows(
            written_rows(rows, in_quotes, carriages) + (written_row(row, row_quotes).push(',') + (
            seq!['"'] + doubled(field))),
        ) is None,
{
    let before = written_rows(rows, in_quotes, carriages);
    let open = seq!['"'] + doubled(field);
    let s = CsvState { rows, ..csv_start() };
    lemma_run_written_rows(rows, in_quotes, carriages);
    lemma_run_concat(csv_start(), before, open);
    lemma_run_open(s, field);
    if row.len() > 0 {
        let comma = written_row(row, row_quotes).push(',');
        lemma_run_written_row(s, row, row_quotes);
        lemma_run_push(s, written_row(row, row_quotes), ',');
        lemma_run_concat(csv_start(), before, comma + open);
        lemma_run_concat(s, comma, open);
        lemma_run_open(csv_run(s, comma), field);
    }
}

proof fn lemma_run_open(s: CsvState, field: Seq<char>)
    requires
        s.mode == CsvMode::Fresh,
    ensures
        csv_run(s, seq!['"'] + doubled(field)).mode == CsvMode::Quoted,
{
    lemma_run_concat(s, seq!['"'], doubled(field));
    assert(seq!['"'] =~= Seq::<char>::empty().push('"'));
    lemma_run_push(s, Seq::empty(), '"');
    lemma_run_doubled(CsvState { mode: CsvMode::Quoted, ..s }, field);
}

/// A text without its carriage returns.
pub open spec fn without_returns(input: Seq<char>) -> Seq<char>
    decreases input.len(),
{
    if input.len() == 0 {
        input
    } else if input.last() == '\r' {
        without_returns(input.drop_last())
    } else {
        without_returns(input.drop_last()).push(input.last())
    }
}

/// Outside quotes a carriage return says nothing, wherever it stands.
pub proof fn carriage_returns_say_nothing(input: Seq<char>)
    requires
        !input.contains('"'),
    ensures
        csv_rows(without_returns(input)) == csv_rows(input),
{
    lemma_run_without_returns(input);
}

proof fn lemma_run_without_returns(input: Seq<char>)
    requires
        !input.contains('"'),
    ensures
        csv_run(csv_start(), without_returns(input)) == csv_run(csv_start(), input),
        csv_run(csv_start(), input).mode == CsvMode::Fresh || csv_run(csv_start(), input).mode
            == CsvMode::Plain,
    decreases input.len(),
{
    if input.len() > 0 {
        let front = input.drop_last();
        assert forall|i: int| 0 <= i < front.len() implies #[trigger] front[i] != '"' by {
            assert(front[i] == input[i]);
            assert(input.contains(input[i]));
        }
        lemma_run_without_returns(front);
        assert(input.contains(input[input.len() - 1]));
        if input.last() != '\r' {
            lemma_run_push(csv_start(), without_returns(front), input.last());
        }
    }
}

/// No row of a text is a blank line.
pub proof fn blank_lines_are_skipped(input: Seq<char>)
    ensures
        csv_rows(input) matches Some(rows) ==> forall|i: int|
            0 <= i < rows.len() ==> !blank_row(#[trigger] rows[i]) && rows[i].len() > 0,
{
    lemma_no_blank_rows(input);
}

proof fn lemma_no_blank_rows(input: Seq<char>)
    ensures
        forall|i: int|
            0 <= i < csv_run(csv_start(), input).rows.len() ==> !blank_row(
                #[trigger] csv_run(csv_start(), input).rows[i],
            ) && csv_run(csv_start(), input).rows[i].len() > 0,
    decreases input.len(),
{
    if input.len() > 0 {
        lemma_no_blank_rows(input.drop_last());
    }
}

} // verus!

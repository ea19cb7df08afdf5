//! Image > Variables > Define and Image > Variables > Data Sets.
//!
//! A **variable** is a name bound to a layer: a *text replacement* variable to
//! a text layer, whose text a data set replaces, or a *visibility* variable to
//! any layer, which a data set shows or hides. A **data set** is one value per
//! variable. Data sets are imported from a CSV whose first row names the
//! variables and whose every further row is one set.

use super::batch::BatchFormat;
use super::chrome;
use super::chrome::{DialogButton, DialogKeys, DialogOutcome};
use super::csv;
use super::csv::parse_csv;
use crate::layer_id::LayerId;
use crate::sequences;
use crate::strings;
use crate::text;
use vstd::prelude::*;

verus! {

/// What a variable does to the layer it is bound to.
#[derive(Clone, Copy, PartialEq, Eq, Structural, Hash, Debug)]
pub enum VariableKind {
    /// Replace the text layer's text.
    Text,
    /// Show or hide the layer.
    Visibility,
}

/// One variable: a name bound to a layer.
#[derive(Clone, PartialEq, Eq, Debug)]
pub struct VariableDef {
    pub name: String,
    pub kind: VariableKind,
    pub layer: LayerId,
}

/// What a [`VariableDef`] stands for.
#[verifier::ext_equal]
pub struct VariableDefView {
    pub name: Seq<char>,
    pub kind: VariableKind,
    pub layer: LayerId,
}

impl View for VariableDef {
    type V = VariableDefView;

    open spec fn view(&self) -> VariableDefView {
        VariableDefView { name: self.name@, kind: self.kind, layer: self.layer }
    }
}

/// What a list of definitions stands for.
pub open spec fn defs_view(defs: Seq<VariableDef>) -> Seq<VariableDefView> {
    Seq::new(defs.len(), |i: int| defs[i]@)
}

/// One data set: its name and a value per variable, in any order.
#[derive(PartialEq, Eq, Debug)]
pub struct DataSet {
    pub name: String,
    pub values: Vec<(String, String)>,
}

/// What a [`DataSet`] stands for.
#[verifier::ext_equal]
pub struct DataSetView {
    pub name: Seq<char>,
    pub values: Seq<(Seq<char>, Seq<char>)>,
}

/// What a list of variables and values stands for.
pub open spec fn values_view(values: Seq<(String, String)>) -> Seq<(Seq<char>, Seq<char>)> {
    Seq::new(values.len(), |i: int| (values[i].0@, values[i].1@))
}

impl View for DataSet {
    type V = DataSetView;

    open spec fn view(&self) -> DataSetView {
        DataSetView { name: self.name@, values: values_view(self.values@) }
    }
}

/// What a list of data sets stands for.
pub open spec fn sets_view(sets: Seq<DataSet>) -> Seq<DataSetView> {
    Seq::new(sets.len(), |i: int| sets[i]@)
}

impl DataSetView {
    /// The value of the first of the first `n` pairs that names the variable.
    pub open spec fn value_among(self, variable: Seq<char>, n: int) -> Option<Seq<char>>
        decreases n,
    {
        if n <= 0 {
            None
        } else {
            match self.value_among(variable, n - 1) {
                Some(v) => Some(v),
                None => if self.values[n - 1].0 == variable {
                    Some(self.values[n - 1].1)
                } else {
                    None
                },
            }
        }
    }

    /// The value the set gives a variable, if it names it.
    pub open spec fn value(self, variable: Seq<char>) -> Option<Seq<char>> {
        self.value_among(variable, self.values.len() as int)
    }
}

proof fn lemma_value_found(set: DataSetView, variable: Seq<char>, n: int, m: int)
    requires
        0 <= n <= m <= set.values.len(),
        set.value_among(variable, n) is Some,
    ensures
        set.value_among(variable, m) == set.value_among(variable, n),
    decreases m - n,
{
    if n < m {
        lemma_value_found(set, variable, n, m - 1);
    }
}

impl Clone for DataSet {
    fn clone(&self) -> (r: Self)
        ensures
            r@ == self@,
    {
        let mut values: Vec<(String, String)> = Vec::new();
        let mut i: usize = 0;
        while i < self.values.len()
            invariant
                i <= self.values@.len(),
                values_view(values@) == values_view(self.values@).take(i as int),
            decreases self.values@.len() - i,
        {
            let ghost before = values_view(values@);
            let pair = (text::copied(self.values[i].0.as_str()), text::copied(
                self.values[i].1.as_str(),
            ));
            values.push(pair);
            assert(values_view(values@) =~= before.push(values_view(self.values@)[i as int]));
            i = i + 1;
            assert(values_view(values@) =~= values_view(self.values@).take(i as int));
        }
        assert(values_view(values@) =~= values_view(self.values@));
        DataSet { name: text::copied(self.name.as_str()), values }
    }
}

impl DataSet {
    /// The value this set gives `variable`, if it names it.
    pub fn value(&self, variable: &str) -> (r: Option<&str>)
        ensures
            match r {
                Some(v) => self@.value(variable@) == Some(v@),
                None => self@.value(variable@) is None,
            },
    {
        let mut i: usize = 0;
        while i < self.values.len()
            invariant
                i <= self.values@.len(),
                self@.value_among(variable@, i as int) is None,
            decreases self.values@.len() - i,
        {
            if text::same(self.values[i].0.as_str(), variable) {
                proof {
                    assert(self@.values[i as int] == (self.values@[i as int].0@, self.values@[i as int].1@));
                    lemma_value_found(self@, variable@, i + 1, self@.values.len() as int);
                }
                return Some(self.values[i].1.as_str());
            }
            assert(self@.values[i as int].0 == self.values@[i as int].0@);
            i = i + 1;
        }
        None
    }
}

/// The words that show a layer.
pub open spec fn shows(word: Seq<char>) -> bool {
    word == "true"@ || word == "1"@ || word == "yes"@ || word == "visible"@ || word == "show"@
}

/// How a visibility variable reads a data-set value: `true`, `1`, `yes`,
/// `visible` and `show` (any case) show the layer; anything else hides it.
pub fn visibility_value(value: &str) -> (r: bool)
    ensures
        r == shows(text::ascii_lowercase(text::trimmed(value@))),
{
    let word = text::to_ascii_lowercase(text::trim(value).as_str());
    let w = word.as_str();
    text::same(w, "true") || text::same(w, "1") || text::same(w, "yes") || text::same(
        w,
        "visible",
    ) || text::same(w, "show")
}

/// A variable of this name is defined.
pub open spec fn defined(defs: Seq<VariableDefView>, name: Seq<char>) -> bool {
    exists|i: int| 0 <= i < defs.len() && (#[trigger] defs[i]).name == name
}

/// The fields of a row without surrounding white space.
pub open spec fn trimmed_row(row: Seq<Seq<char>>) -> Seq<Seq<char>> {
    Seq::new(row.len(), |i: int| text::trimmed(row[i]))
}

/// The first of the first `n` names that no variable has.
pub open spec fn first_unknown(
    header: Seq<Seq<char>>,
    defs: Seq<VariableDefView>,
    n: int,
) -> Option<Seq<char>>
    decreases n,
{
    if n <= 0 {
        None
    } else {
        match first_unknown(header, defs, n - 1) {
            Some(name) => Some(name),
            None => if defined(defs, header[n - 1]) {
                None
            } else {
                Some(header[n - 1])
            },
        }
    }
}

/// The first of the first `n` rows, the header counted, whose width is not the
/// header's.
pub open spec fn first_ragged(rows: Seq<Seq<Seq<char>>>, n: int) -> Option<int>
    decreases n,
{
    if n <= 1 {
        None
    } else {
        match first_ragged(rows, n - 1) {
            Some(k) => Some(k),
            None => if rows[n - 1].len() == rows[0].len() {
                None
            } else {
                Some(n - 1)
            },
        }
    }
}

/// Row `k` below the header as a data set.
pub open spec fn set_of_row(rows: Seq<Seq<Seq<char>>>, k: int) -> DataSetView {
    DataSetView {
        name: strings::entry("ui.variables.set"@) + " "@ + text::decimal(k as nat),
        values: Seq::new(rows[0].len(), |j: int| (text::trimmed(rows[0][j]), rows[k][j])),
    }
}

/// What a CSV comes to, checked against the defined variables: its data sets,
/// or what is said of the first thing wrong with it.
pub open spec fn sets_of_csv(
    input: Seq<char>,
    defs: Seq<VariableDefView>,
) -> Result<Seq<DataSetView>, Seq<char>> {
    match csv::csv_rows(input) {
        None => Err(strings::entry("ui.variables.csv.unclosed"@)),
        Some(rows) => if rows.len() == 0 {
            Err(strings::entry("ui.variables.csv.empty"@))
        } else {
            let header = trimmed_row(rows[0]);
            match first_unknown(header, defs, header.len() as int) {
                Some(name) => Err(strings::entry("ui.variables.csv.unknown"@) + " "@ + name),
                None => if rows.len() == 1 {
                    Err(strings::entry("ui.variables.csv.no.rows"@))
                } else {
                    match first_ragged(rows, rows.len() as int) {
                        Some(k) => Err(
                            strings::entry("ui.variables.csv.row.width"@) + " "@ + text::decimal(
                                (k + 1) as nat,
                            ) + " ("@ + text::decimal(rows[k].len()) + "/"@ + text::decimal(
                                rows[0].len(),
                            ) + ")"@,
                        ),
                        None => Ok(
                            Seq::new(
                                (rows.len() - 1) as nat,
                                |i: int| set_of_row(rows, i + 1),
                            ),
                        ),
                    }
                },
            }
        },
    }
}

fn is_defined(defs: &Vec<VariableDef>, name: &str) -> (r: bool)
    ensures
        r == defined(defs_view(defs@), name@),
{
    let mut i: usize = 0;
    while i < defs.len()
        invariant
            i <= defs@.len(),
            forall|j: int| 0 <= j < i ==> (#[trigger] defs_view(defs@)[j]).name != name@,
        decreases defs@.len() - i,
    {
        if text::same(defs[i].name.as_str(), name) {
            assert(defs_view(defs@)[i as int].name == name@);
            return true;
        }
        assert(defs_view(defs@)[i as int].name != name@);
        i = i + 1;
    }
    false
}

proof fn lemma_unknown_found(
    header: Seq<Seq<char>>,
    defs: Seq<VariableDefView>,
    n: int,
    m: int,
)
    requires
        0 <= n <= m <= header.len(),
        first_unknown(header, defs, n) is Some,
    ensures
        first_unknown(header, defs, m) == first_unknown(header, defs, n),
    decreases m - n,
{
    if n < m {
        lemma_unknown_found(header, defs, n, m - 1);
    }
}

proof fn lemma_ragged_found(rows: Seq<Seq<Seq<char>>>, n: int, m: int)
    requires
        0 <= n <= m <= rows.len(),
        first_ragged(rows, n) is Some,
    ensures
        first_ragged(rows, m) == first_ragged(rows, n),
    decreases m - n,
{
    if n < m {
        lemma_ragged_found(rows, n, m - 1);
    }
}

/// "Data Set N".
fn set_name(n: u64) -> (r: String)
    ensures
        r@ == strings::entry("ui.variables.set"@) + " "@ + text::decimal(n as nat),
{
    let mut name = text::copied(strings::tr("ui.variables.set"));
    name.append(" ");
    name.append(text::decimal_of(n as u128).as_str());
    name
}

fn unknown_message(name: &str) -> (r: String)
    ensures
        r@ == strings::entry("ui.variables.csv.unknown"@) + " "@ + name@,
{
    let mut message = text::copied(strings::tr("ui.variables.csv.unknown"));
    message.append(" ");
    message.append(name);
    message
}

fn width_message(row: usize, width: usize, expected: usize) -> (r: String)
    requires
        row < usize::MAX,
    ensures
        r@ == strings::entry("ui.variables.csv.row.width"@) + " "@ + text::decimal(
            (row + 1) as nat,
        ) + " ("@ + text::decimal(width as nat) + "/"@ + text::decimal(expected as nat) + ")"@,
{
    let mut message = text::copied(strings::tr("ui.variables.csv.row.width"));
    message.append(" ");
    message.append(text::decimal_of((row + 1) as u128).as_str());
    message.append(" (");
    message.append(text::decimal_of(width as u128).as_str());
    message.append("/");
    message.append(text::decimal_of(expected as u128).as_str());
    message.append(")");
    message
}

/// The fields of one row under the names of the header.
fn row_values(header: &Vec<String>, row: &Vec<String>) -> (r: Vec<(String, String)>)
    requires
        header@.len() == row@.len(),
    ensures
        values_view(r@) == Seq::new(header@.len(), |j: int| (header@[j]@, row@[j]@)),
{
    let mut values: Vec<(String, String)> = Vec::new();
    let mut j: usize = 0;
    while j < header.len()
        invariant
            j <= header@.len(),
            header@.len() == row@.len(),
            values_view(values@) == Seq::new(j as nat, |k: int| (header@[k]@, row@[k]@)),
        decreases header@.len() - j,
    {
        let ghost before = values_view(values@);
        values.push((text::copied(header[j].as_str()), text::copied(row[j].as_str())));
        assert(values_view(values@) =~= before.push((header@[j as int]@, row@[j as int]@)));
        j = j + 1;
        assert(values_view(values@) =~= Seq::new(j as nat, |k: int| (header@[k]@, row@[k]@)));
    }
    values
}

/// The first header name no variable has, if any.
fn find_unknown(header: &Vec<String>, defs: &Vec<VariableDef>) -> (r: Option<usize>)
    ensures
        match r {
            Some(k) => k < header@.len() && first_unknown(
                csv::row_view(header@),
                defs_view(defs@),
                header@.len() as int,
            ) == Some(header@[k as int]@),
            None => first_unknown(
                csv::row_view(header@),
                defs_view(defs@),
                header@.len() as int,
            ) is None,
        },
{
    let ghost names = csv::row_view(header@);
    let mut k: usize = 0;
    while k < header.len()
        invariant
            k <= header@.len(),
            names == csv::row_view(header@),
            first_unknown(names, defs_view(defs@), k as int) is None,
        decreases header@.len() - k,
    {
        assert(names[k as int] == header@[k as int]@);
        if !is_defined(defs, header[k].as_str()) {
            proof {
                lemma_unknown_found(names, defs_view(defs@), k + 1, names.len() as int);
            }
            return Some(k);
        }
        k = k + 1;
    }
    None
}

/// The first row whose width is not the header's, if any.
fn find_ragged(rows: &Vec<Vec<String>>) -> (r: Option<usize>)
    requires
        rows@.len() > 0,
    ensures
        match r {
            Some(k) => k < rows@.len() && first_ragged(
                csv::rows_view(rows@),
                rows@.len() as int,
            ) == Some(k as int),
            None => first_ragged(csv::rows_view(rows@), rows@.len() as int) is None,
        },
        r is None ==> forall|k: int|
            0 <= k < rows@.len() ==> (#[trigger] rows@[k])@.len() == rows@[0]@.len(),
{
    let ghost texts = csv::rows_view(rows@);
    let mut k: usize = 1;
    while k < rows.len()
        invariant
            1 <= k <= rows@.len(),
            texts == csv::rows_view(rows@),
            first_ragged(texts, k as int) is None,
            forall|j: int| 0 <= j < k ==> (#[trigger] rows@[j])@.len() == rows@[0]@.len(),
        decreases rows@.len() - k,
    {
        assert(texts[k as int].len() == rows@[k as int]@.len());
        assert(texts[0].len() == rows@[0]@.len());
        if rows[k].len() != rows[0].len() {
            proof {
                lemma_ragged_found(texts, k + 1, texts.len() as int);
            }
            return Some(k);
        }
        k = k + 1;
    }
    None
}

/// The header names without surrounding white space.
fn trimmed_header(row: &Vec<String>) -> (r: Vec<String>)
    ensures
        csv::row_view(r@) == trimmed_row(csv::row_view(row@)),
        r@.len() == row@.len(),
{
    let mut header: Vec<String> = Vec::new();
    let mut i: usize = 0;
    while i < row.len()
        invariant
            i <= row@.len(),
            header@.len() == i,
            forall|j: int| 0 <= j < i ==> (#[trigger] header@[j])@ == text::trimmed(row@[j]@),
        decreases row@.len() - i,
    {
        header.push(text::trim(row[i].as_str()));
        i = i + 1;
    }
    assert(csv::row_view(header@) =~= trimmed_row(csv::row_view(row@)));
    header
}

/// The data sets a CSV describes, checked against the defined variables: the
/// header row names variables (every one must be defined), each further row is
/// one set named "Data Set N". A row with the wrong number of fields is
/// refused, never padded.
pub fn data_sets_from_csv(input: &str, defs: &Vec<VariableDef>) -> (r: Result<
    Vec<DataSet>,
    String,
>)
    ensures
        match r {
            Ok(sets) => sets_of_csv(input@, defs_view(defs@)) == Ok::<
                Seq<DataSetView>,
                Seq<char>,
            >(sets_view(sets@)),
            Err(e) => sets_of_csv(input@, defs_view(defs@)) == Err::<Seq<DataSetView>, Seq<char>>(
                e@,
            ),
        },
{
    let rows = match parse_csv(input) {
        Ok(rows) => rows,
        Err(e) => {
            return Err(e);
        },
    };
    let ghost texts = csv::rows_view(rows@);
    if rows.len() == 0 {
        return Err(text::copied(strings::tr("ui.variables.csv.empty")));
    }
    assert(texts[0] == csv::row_view(rows@[0]@));
    let header = trimmed_header(&rows[0]);
    match find_unknown(&header, defs) {
        Some(k) => {
            return Err(unknown_message(header[k].as_str()));
        },
        None => {},
    }
    if rows.len() == 1 {
        return Err(text::copied(strings::tr("ui.variables.csv.no.rows")));
    }
    match find_ragged(&rows) {
        Some(k) => {
            assert(texts[k as int].len() == rows@[k as int]@.len());
            return Err(width_message(k, rows[k].len(), header.len()));
        },
        None => {},
    }
    let mut sets: Vec<DataSet> = Vec::new();
    let mut k: usize = 1;
    while k < rows.len()
        invariant
            1 <= k <= rows@.len(),
            texts == csv::rows_view(rows@),
            csv::row_view(header@) == trimmed_row(texts[0]),
            header@.len() == rows@[0]@.len(),
            forall|j: int| 0 <= j < rows@.len() ==> (#[trigger] rows@[j])@.len()
                == rows@[0]@.len(),
            sets_view(sets@) == Seq::new((k - 1) as nat, |i: int| set_of_row(texts, i + 1)),
        decreases rows@.len() - k,
    {
        let ghost before = sets_view(sets@);
        assert(rows@[k as int]@.len() == header@.len());
        let set = DataSet { name: set_name(k as u64), values: row_values(&header, &rows[k]) };
        assert(set@.values =~= set_of_row(texts, k as int).values) by {
            assert forall|j: int| 0 <= j < header@.len() implies #[trigger] set@.values[j] == (
                text::trimmed(texts[0][j]),
                texts[k as int][j],
            ) by {
                assert(csv::row_view(header@)[j] == header@[j]@);
                assert(texts[k as int][j] == rows@[k as int]@[j]@);
            }
        }
        assert(set@ == set_of_row(texts, k as int));
        sets.push(set);
        assert(sets_view(sets@) =~= before.push(set_of_row(texts, k as int)));
        k = k + 1;
        assert(sets_view(sets@) =~= Seq::new((k - 1) as nat, |i: int| set_of_row(texts, i + 1)));
    }
    Ok(sets)
}

/// A layer the Define page can bind a variable to.
#[derive(Clone, PartialEq, Eq, Debug)]
pub struct VariableLayer {
    pub layer: LayerId,
    pub name: String,
    /// Whether a text replacement variable can bind to it.
    pub is_text: bool,
}

/// Which page the dialog shows.
#[derive(Clone, Copy, PartialEq, Eq, Structural, Hash, Debug)]
pub enum VariablesPage {
    Define,
    DataSets,
}

/// What the confirmation asks the application to do besides storing the
/// definitions and sets.
#[derive(Clone, Copy, PartialEq, Eq, Structural, Debug)]
pub enum VariablesRequest {
    /// Keep the definitions and data sets with the document.
    Save,
    /// Apply this data set to the document, as one undoable step.
    Preview(usize),
    /// Write one file per data set into a folder the host asks for.
    Export(BatchFormat),
}

/// A confirmed Variables dialog.
#[derive(PartialEq, Debug)]
pub struct VariablesSpec {
    pub defs: Vec<VariableDef>,
    pub sets: Vec<DataSet>,
    pub request: VariablesRequest,
}

/// What a [`VariablesSpec`] stands for.
#[verifier::ext_equal]
pub struct VariablesSpecView {
    pub defs: Seq<VariableDefView>,
    pub sets: Seq<DataSetView>,
    pub request: VariablesRequest,
}

impl View for VariablesSpec {
    type V = VariablesSpecView;

    open spec fn view(&self) -> VariablesSpecView {
        VariablesSpecView {
            defs: defs_view(self.defs@),
            sets: sets_view(self.sets@),
            request: self.request,
        }
    }
}

/// One Define-page row's edit state.
#[derive(PartialEq, Eq, Debug)]
struct Binding {
    text_on: bool,
    text_name: String,
    visibility_on: bool,
    visibility_name: String,
}

/// A row of the Define page: the layer, and what is ticked and typed there.
#[verifier::ext_equal]
pub struct DefineRow {
    pub layer: LayerId,
    pub name: Seq<char>,
    pub is_text: bool,
    pub text_on: bool,
    pub text_name: Seq<char>,
    pub visibility_on: bool,
    pub visibility_name: Seq<char>,
}

/// The text without leading underscores.
pub open spec fn stripped_start(s: Seq<char>) -> Seq<char>
    decreases s.len(),
{
    if s.len() > 0 && s[0] == '_' {
        stripped_start(s.drop_first())
    } else {
        s
    }
}

/// The text without trailing underscores.
pub open spec fn stripped_end(s: Seq<char>) -> Seq<char>
    decreases s.len(),
{
    if s.len() > 0 && s.last() == '_' {
        stripped_end(s.drop_last())
    } else {
        s
    }
}

/// A character that may stand in a variable name, else an underscore.
pub open spec fn name_char(c: char) -> char {
    if text::alphanumeric(c) {
        c
    } else {
        '_'
    }
}

/// A variable name from a layer name: letters, digits and `_`, never empty.
pub open spec fn default_variable(layer: Seq<char>) -> Seq<char> {
    let name = stripped_end(
        stripped_start(Seq::new(layer.len(), |i: int| name_char(layer[i]))),
    );
    if name.len() == 0 {
        "variable"@
    } else {
        name
    }
}

/// The definitions of a kind bound to a layer.
pub open spec fn bound_to(layer: LayerId, kind: VariableKind) -> spec_fn(VariableDefView) -> bool {
    |d: VariableDefView| d.layer == layer && d.kind == kind
}

/// The row of a layer, filled from the document's definitions.
pub open spec fn opened_row(
    layer: LayerId,
    name: Seq<char>,
    is_text: bool,
    defs: Seq<VariableDefView>,
) -> DefineRow {
    let by_text = sequences::first_where(defs, bound_to(layer, VariableKind::Text));
    let by_visibility = sequences::first_where(defs, bound_to(layer, VariableKind::Visibility));
    DefineRow {
        layer,
        name,
        is_text,
        text_on: by_text is Some && is_text,
        text_name: match by_text {
            Some(d) => d.name,
            None => default_variable(name),
        },
        visibility_on: by_visibility is Some,
        visibility_name: match by_visibility {
            Some(d) => d.name,
            None => default_variable(name) + "_visible"@,
        },
    }
}

/// What a [`VariablesDialog`] stands for.
#[verifier::ext_equal]
pub struct VariablesModel {
    pub page: VariablesPage,
    pub rows: Seq<DefineRow>,
    pub sets: Seq<DataSetView>,
    pub selected_set: int,
    pub format: BatchFormat,
    pub csv_request: bool,
    pub csv_error: Option<Seq<char>>,
    pub request: VariablesRequest,
}

impl VariablesModel {
    /// The definitions the first `n` rows describe.
    pub open spec fn defs_of(self, n: int) -> Seq<VariableDefView>
        decreases n,
    {
        if n <= 0 {
            Seq::empty()
        } else {
            let row = self.rows[n - 1];
            let by_text = if row.text_on && row.is_text {
                self.defs_of(n - 1).push(
                    VariableDefView {
                        name: text::trimmed(row.text_name),
                        kind: VariableKind::Text,
                        layer: row.layer,
                    },
                )
            } else {
                self.defs_of(n - 1)
            };
            if row.visibility_on {
                by_text.push(
                    VariableDefView {
                        name: text::trimmed(row.visibility_name),
                        kind: VariableKind::Visibility,
                        layer: row.layer,
                    },
                )
            } else {
                by_text
            }
        }
    }

    /// The definitions the Define page describes.
    pub open spec fn defs(self) -> Seq<VariableDefView> {
        self.defs_of(self.rows.len() as int)
    }

    /// Some definition has no name.
    pub open spec fn unnamed(self) -> bool {
        exists|i: int| 0 <= i < self.defs().len() && (#[trigger] self.defs()[i]).name.len() == 0
    }

    /// Two definitions share a name.
    pub open spec fn named_twice(self) -> bool {
        exists|i: int, j: int|
            0 <= i < j < self.defs().len() && (#[trigger] self.defs()[i]).name == (
            #[trigger] self.defs()[j]).name
    }

    /// Why a confirmation is impossible.
    pub open spec fn blocked(self) -> Option<Seq<char>> {
        if self.unnamed() {
            Some(strings::entry("ui.variables.name.empty"@))
        } else if self.named_twice() {
            Some(strings::entry("ui.variables.name.twice"@))
        } else if self.request != VariablesRequest::Save && self.sets.len() == 0 {
            Some(strings::entry("ui.variables.no.sets"@))
        } else {
            None
        }
    }

    /// What a confirmation hands over.
    pub open spec fn confirmation(self) -> Option<VariablesSpecView> {
        if self.blocked() is None {
            Some(
                VariablesSpecView {
                    defs: self.defs(),
                    sets: self.sets,
                    request: self.request,
                },
            )
        } else {
            None
        }
    }

    /// A row's variable ticked under a name, or unticked.
    pub open spec fn bound(self, index: int, kind: VariableKind, name: Option<Seq<char>>) -> Self {
        if 0 <= index < self.rows.len() {
            let row = self.rows[index];
            let changed = match kind {
                VariableKind::Text => DefineRow {
                    text_on: name is Some && row.is_text,
                    text_name: match name {
                        Some(n) => n,
                        None => row.text_name,
                    },
                    ..row
                },
                VariableKind::Visibility => DefineRow {
                    visibility_on: name is Some,
                    visibility_name: match name {
                        Some(n) => n,
                        None => row.visibility_name,
                    },
                    ..row
                },
            };
            VariablesModel { rows: self.rows.update(index, changed), ..self }
        } else {
            self
        }
    }

    /// A CSV taken in: its sets replace the ones there were, or the sets are
    /// kept and the reason is held.
    pub open spec fn with_csv(self, input: Seq<char>) -> Self {
        match sets_of_csv(input, self.defs()) {
            Ok(sets) => VariablesModel { sets, selected_set: 0, csv_error: None, ..self },
            Err(e) => VariablesModel { csv_error: Some(e), ..self },
        }
    }
}

/// Image > Variables > Define / Data Sets.
#[derive(Debug)]
pub struct VariablesDialog {
    page: VariablesPage,
    layers: Vec<VariableLayer>,
    bindings: Vec<Binding>,
    sets: Vec<DataSet>,
    selected_set: usize,
    format: BatchFormat,
    csv_request: bool,
    csv_error: Option<String>,
    request: VariablesRequest,
}

spec fn row_of(layer: VariableLayer, binding: Binding) -> DefineRow {
    DefineRow {
        layer: layer.layer,
        name: layer.name@,
        is_text: layer.is_text,
        text_on: binding.text_on,
        text_name: binding.text_name@,
        visibility_on: binding.visibility_on,
        visibility_name: binding.visibility_name@,
    }
}

spec fn rows_of(layers: Seq<VariableLayer>, bindings: Seq<Binding>) -> Seq<DefineRow> {
    Seq::new(layers.len(), |i: int| row_of(layers[i], bindings[i]))
}

impl View for VariablesDialog {
    type V = VariablesModel;

    closed spec fn view(&self) -> VariablesModel {
        VariablesModel {
            page: self.page,
            rows: rows_of(self.layers@, self.bindings@),
            sets: sets_view(self.sets@),
            selected_set: self.selected_set as int,
            format: self.format,
            csv_request: self.csv_request,
            csv_error: match self.csv_error {
                Some(e) => Some(e@),
                None => None,
            },
            request: self.request,
        }
    }
}

/// The name of the first definition of a kind bound to a layer.
fn find_def(defs: &Vec<VariableDef>, layer: LayerId, kind: VariableKind) -> (r: Option<String>)
    ensures
        match r {
            Some(name) => match sequences::first_where(defs_view(defs@), bound_to(layer, kind)) {
                Some(d) => d.name == name@,
                None => false,
            },
            None => sequences::first_where(defs_view(defs@), bound_to(layer, kind)) is None,
        },
{
    let ghost all = defs_view(defs@);
    let ghost pred = bound_to(layer, kind);
    let mut i: usize = 0;
    assert(all.take(0) =~= Seq::empty());
    while i < defs.len()
        invariant
            i <= defs@.len(),
            all == defs_view(defs@),
            pred == bound_to(layer, kind),
            sequences::first_where(all.take(i as int), pred) is None,
        decreases defs@.len() - i,
    {
        proof {
            assert(all[i as int] == defs@[i as int]@);
            sequences::lemma_first_where_step(all, pred, i as int);
        }
        if defs[i].layer == layer && defs[i].kind == kind {
            proof {
                sequences::lemma_first_where_prefix(all, pred, i + 1, all[i as int]);
            }
            return Some(text::copied(defs[i].name.as_str()));
        }
        i = i + 1;
    }
    assert(all.take(i as int) =~= all);
    None
}

/// A variable name from a layer name: letters, digits and `_`, never empty.
fn default_name(layer: &str) -> (r: String)
    ensures
        r@ == default_variable(layer@),
{
    let source = text::chars_of(layer);
    let ghost mapped = Seq::new(layer@.len(), |i: int| name_char(layer@[i]));
    let mut chars: Vec<char> = Vec::new();
    let mut i: usize = 0;
    while i < source.len()
        invariant
            i <= source@.len(),
            source@ == layer@,
            mapped == Seq::new(layer@.len(), |i: int| name_char(layer@[i])),
            chars@ == mapped.take(i as int),
        decreases source@.len() - i,
    {
        if source[i].is_alphanumeric() {
            chars.push(source[i]);
        } else {
            chars.push('_');
        }
        i = i + 1;
        assert(chars@ =~= mapped.take(i as int));
    }
    assert(chars@ =~= mapped);
    let n: usize = chars.len();
    let mut from: usize = 0;
    assert(mapped.subrange(0, n as int) =~= mapped);
    while from < n && chars[from] == '_'
        invariant
            from <= n,
            n == chars@.len(),
            chars@ == mapped,
            stripped_start(mapped) == stripped_start(mapped.subrange(from as int, n as int)),
        decreases n - from,
    {
        assert(mapped.subrange(from as int, n as int).drop_first() =~= mapped.subrange(
            from + 1,
            n as int,
        ));
        from = from + 1;
    }
    assert(stripped_start(mapped) == mapped.subrange(from as int, n as int));
    let mut to: usize = n;
    while to > from && chars[to - 1] == '_'
        invariant
            from <= to <= n,
            n == chars@.len(),
            chars@ == mapped,
            stripped_end(stripped_start(mapped)) == stripped_end(
                mapped.subrange(from as int, to as int),
            ),
        decreases to - from,
    {
        assert(mapped.subrange(from as int, to as int).drop_last() =~= mapped.subrange(
            from as int,
            to - 1,
        ));
        assert(mapped.subrange(from as int, to as int).last() == mapped[to - 1]);
        to = to - 1;
    }
    assert(to > from ==> mapped.subrange(from as int, to as int).last() == mapped[to - 1]);
    if from == to {
        text::copied("variable")
    } else {
        text::text_of(&chars, from, to)
    }
}

/// Copies of the data sets.
fn copy_sets(sets: &Vec<DataSet>) -> (r: Vec<DataSet>)
    ensures
        sets_view(r@) == sets_view(sets@),
{
    let mut out: Vec<DataSet> = Vec::new();
    let mut i: usize = 0;
    while i < sets.len()
        invariant
            i <= sets@.len(),
            out@.len() == i,
            forall|j: int| 0 <= j < i ==> (#[trigger] out@[j])@ == sets@[j]@,
        decreases sets@.len() - i,
    {
        out.push(sets[i].clone());
        i = i + 1;
    }
    assert(sets_view(out@) =~= sets_view(sets@));
    out
}

impl VariablesDialog {
    /// Every layer has its row.
    pub closed spec fn wf(&self) -> bool {
        self.layers@.len() == self.bindings@.len()
    }

    /// Over `layers` (top first), with the document's current `defs` and
    /// `sets`, opened on `page`.
    pub fn new(
        page: VariablesPage,
        layers: Vec<VariableLayer>,
        defs: &Vec<VariableDef>,
        sets: Vec<DataSet>,
    ) -> (r: Self)
        ensures
            r.wf(),
            r@ == (VariablesModel {
                page,
                rows: Seq::new(
                    layers@.len(),
                    |i: int|
                        opened_row(
                            layers@[i].layer,
                            layers@[i].name@,
                            layers@[i].is_text,
                            defs_view(defs@),
                        ),
                ),
                sets: sets_view(sets@),
                selected_set: 0,
                format: BatchFormat::Png,
                csv_request: false,
                csv_error: None,
                request: VariablesRequest::Save,
            }),
    {
        let mut bindings: Vec<Binding> = Vec::new();
        let mut i: usize = 0;
        while i < layers.len()
            invariant
                i <= layers@.len(),
                bindings@.len() == i,
                forall|j: int|
                    0 <= j < i ==> row_of(layers@[j], #[trigger] bindings@[j]) == opened_row(
                        layers@[j].layer,
                        layers@[j].name@,
                        layers@[j].is_text,
                        defs_view(defs@),
                    ),
            decreases layers@.len() - i,
        {
            let layer = &layers[i];
            let by_text = find_def(defs, layer.layer, VariableKind::Text);
            let by_visibility = find_def(defs, layer.layer, VariableKind::Visibility);
            let text_on = by_text.is_some() && layer.is_text;
            let visibility_on = by_visibility.is_some();
            let text_name = match by_text {
                Some(name) => name,
                None => default_name(layer.name.as_str()),
            };
            let visibility_name = match by_visibility {
                Some(name) => name,
                None => default_name(layer.name.as_str()).concat("_visible"),
            };
            bindings.push(Binding { text_on, text_name, visibility_on, visibility_name });
            i = i + 1;
        }
        let dialog = VariablesDialog {
            page,
            layers,
            bindings,
            sets,
            selected_set: 0,
            format: BatchFormat::Png,
            csv_request: false,
            csv_error: None,
            request: VariablesRequest::Save,
        };
        assert(dialog@.rows =~= Seq::new(
            layers@.len(),
            |i: int|
                opened_row(
                    layers@[i].layer,
                    layers@[i].name@,
                    layers@[i].is_text,
                    defs_view(defs@),
                ),
        )) by {
            assert forall|j: int| 0 <= j < layers@.len() implies #[trigger] dialog@.rows[j]
                == opened_row(
                layers@[j].layer,
                layers@[j].name@,
                layers@[j].is_text,
                defs_view(defs@),
            ) by {
                assert(dialog@.rows[j] == row_of(layers@[j], bindings@[j]));
            }
        }
        dialog
    }

    pub fn page(&self) -> (r: VariablesPage)
        ensures
            r == self@.page,
    {
        self.page
    }

    pub fn set_page(&mut self, page: VariablesPage)
        requires
            old(self).wf(),
        ensures
            final(self).wf(),
            final(self)@ == (VariablesModel { page, ..old(self)@ }),
    {
        self.page = page;
    }

    /// How many layers the Define list shows.
    pub fn row_count(&self) -> (r: usize)
        ensures
            r == self@.rows.len(),
    {
        self.layers.len()
    }

    /// The layer of a row of the Define list: its name, and whether its text
    /// can be bound.
    pub fn row_layer(&self, index: usize) -> (r: Option<(&str, bool)>)
        ensures
            match r {
                Some((name, is_text)) => index < self@.rows.len() && name@
                    == self@.rows[index as int].name && is_text
                    == self@.rows[index as int].is_text,
                None => index >= self@.rows.len(),
            },
    {
        if index < self.layers.len() {
            Some((self.layers[index].name.as_str(), self.layers[index].is_text))
        } else {
            None
        }
    }

    /// The variable of `kind` on a row of the Define list: whether it is
    /// ticked, and the name beside the tick.
    pub fn row_binding(&self, index: usize, kind: VariableKind) -> (r: Option<(bool, &str)>)
        requires
            self.wf(),
        ensures
            match r {
                Some((on, name)) => index < self@.rows.len() && match kind {
                    VariableKind::Text => on == self@.rows[index as int].text_on && name@
                        == self@.rows[index as int].text_name,
                    VariableKind::Visibility => on == self@.rows[index as int].visibility_on
                        && name@ == self@.rows[index as int].visibility_name,
                },
                None => index >= self@.rows.len(),
            },
    {
        if index < self.bindings.len() {
            let binding = &self.bindings[index];
            match kind {
                VariableKind::Text => Some((binding.text_on, binding.text_name.as_str())),
                VariableKind::Visibility => Some(
                    (binding.visibility_on, binding.visibility_name.as_str()),
                ),
            }
        } else {
            None
        }
    }

    /// Bind (or unbind, with `None`) a variable of `kind` named `name` to the
    /// layer at `index` in the Define list: what ticking a row does.
    pub fn bind(&mut self, index: usize, kind: VariableKind, name: Option<&str>)
        requires
            old(self).wf(),
        ensures
            final(self).wf(),
            final(self)@ == old(self)@.bound(
                index as int,
                kind,
                match name {
                    Some(n) => Some(n@),
                    None => None,
                },
            ),
    {
        if index >= self.bindings.len() {
            return;
        }
        let ghost before = self@;
        let is_text = self.layers[index].is_text;
        let text_on = self.bindings[index].text_on;
        let visibility_on = self.bindings[index].visibility_on;
        let text_name = text::copied(self.bindings[index].text_name.as_str());
        let visibility_name = text::copied(self.bindings[index].visibility_name.as_str());
        let changed = match kind {
            VariableKind::Text => match name {
                Some(n) => Binding {
                    text_on: is_text,
                    text_name: text::copied(n),
                    visibility_on,
                    visibility_name,
                },
                None => Binding { text_on: false, text_name, visibility_on, visibility_name },
            },
            VariableKind::Visibility => match name {
                Some(n) => Binding {
                    text_on,
                    text_name,
                    visibility_on: true,
                    visibility_name: text::copied(n),
                },
                None => Binding { text_on, text_name, visibility_on: false, visibility_name },
            },
        };
        self.bindings.set(index, changed);
        assert(self@ =~= before.bound(
            index as int,
            kind,
            match name {
                Some(n) => Some(n@),
                None => None,
            },
        )) by {
            let named = match name {
                Some(n) => Some(n@),
                None => None,
            };
            assert forall|j: int| 0 <= j < self@.rows.len() implies #[trigger] self@.rows[j]
                == before.bound(index as int, kind, named).rows[j] by {
                assert(self@.rows[j] == row_of(self.layers@[j], self.bindings@[j]));
            }
            assert(self@.rows =~= before.bound(index as int, kind, named).rows);
        }
    }

    /// The definitions the Define page describes.
    pub fn defs(&self) -> (r: Vec<VariableDef>)
        requires
            self.wf(),
        ensures
            defs_view(r@) == self@.defs(),
    {
        let mut out: Vec<VariableDef> = Vec::new();
        let mut i: usize = 0;
        assert(defs_view(out@) =~= Seq::empty());
        while i < self.layers.len()
            invariant
                self.wf(),
                i <= self.layers@.len(),
                defs_view(out@) == self@.defs_of(i as int),
            decreases self.layers@.len() - i,
        {
            let layer = &self.layers[i];
            let binding = &self.bindings[i];
            let ghost row = self@.rows[i as int];
            assert(row == row_of(self.layers@[i as int], self.bindings@[i as int]));
            let ghost before = defs_view(out@);
            if binding.text_on && layer.is_text {
                let def = VariableDef {
                    name: text::trim(binding.text_name.as_str()),
                    kind: VariableKind::Text,
                    layer: layer.layer,
                };
                let ghost view = def@;
                out.push(def);
                assert(defs_view(out@) =~= before.push(view));
            }
            let ghost between = defs_view(out@);
            if binding.visibility_on {
                let def = VariableDef {
                    name: text::trim(binding.visibility_name.as_str()),
                    kind: VariableKind::Visibility,
                    layer: layer.layer,
                };
                let ghost view = def@;
                out.push(def);
                assert(defs_view(out@) =~= between.push(view));
            }
            i = i + 1;
        }
        out
    }

    /// The data sets as they stand.
    pub fn sets(&self) -> (r: &Vec<DataSet>)
        ensures
            sets_view(r@) == self@.sets,
    {
        &self.sets
    }

    /// The data set Preview applies.
    pub fn selected_set(&self) -> (r: usize)
        ensures
            r == self@.selected_set,
    {
        self.selected_set
    }

    /// Choose the data set Preview applies; past the end chooses the last.
    pub fn select_set(&mut self, index: usize)
        requires
            old(self).wf(),
        ensures
            final(self).wf(),
            final(self)@ == (VariablesModel {
                selected_set: if index < old(self)@.sets.len() {
                    index as int
                } else if old(self)@.sets.len() > 0 {
                    old(self)@.sets.len() - 1
                } else {
                    0
                },
                ..old(self)@
            }),
    {
        let count = self.sets.len();
        self.selected_set = if index < count {
            index
        } else if count > 0 {
            count - 1
        } else {
            0
        };
    }

    /// The format Export writes.
    pub fn set_format(&mut self, format: BatchFormat)
        requires
            old(self).wf(),
        ensures
            final(self).wf(),
            final(self)@ == (VariablesModel { format, ..old(self)@ }),
    {
        self.format = format;
    }

    /// The Import CSV button was pressed.
    pub fn ask_for_csv(&mut self)
        requires
            old(self).wf(),
        ensures
            final(self).wf(),
            final(self)@ == (VariablesModel { csv_request: true, ..old(self)@ }),
    {
        self.csv_request = true;
    }

    /// Whether the Import CSV button was pressed since the last take; the host
    /// answers it by reading a file and calling [`Self::load_csv`].
    pub fn take_csv_request(&mut self) -> (r: bool)
        requires
            old(self).wf(),
        ensures
            final(self).wf(),
            r == old(self)@.csv_request,
            final(self)@ == (VariablesModel { csv_request: false, ..old(self)@ }),
    {
        let asked = self.csv_request;
        self.csv_request = false;
        asked
    }

    /// Why the last CSV could not be read.
    pub fn csv_error(&self) -> (r: Option<&str>)
        ensures
            match r {
                Some(e) => self@.csv_error == Some(e@),
                None => self@.csv_error is None,
            },
    {
        match &self.csv_error {
            Some(e) => Some(e.as_str()),
            None => None,
        }
    }

    /// Replace the data sets with a CSV's, and say how many there are. On
    /// failure the sets are kept and the reason is shown.
    pub fn load_csv(&mut self, input: &str) -> (r: Result<usize, String>)
        requires
            old(self).wf(),
        ensures
            final(self).wf(),
            final(self)@ == old(self)@.with_csv(input@),
            match r {
                Ok(n) => sets_of_csv(input@, old(self)@.defs()) matches Ok(sets) && n
                    == sets.len(),
                Err(e) => sets_of_csv(input@, old(self)@.defs()) == Err::<
                    Seq<DataSetView>,
                    Seq<char>,
                >(e@),
            },
    {
        let defs = self.defs();
        match data_sets_from_csv(input, &defs) {
            Ok(sets) => {
                let n = sets.len();
                self.sets = sets;
                self.selected_set = 0;
                self.csv_error = None;
                Ok(n)
            },
            Err(e) => {
                self.csv_error = Some(text::copied(e.as_str()));
                Err(e)
            },
        }
    }

    /// Say why a CSV could not be read (the host's file read failed).
    pub fn set_csv_error(&mut self, error: String)
        requires
            old(self).wf(),
        ensures
            final(self).wf(),
            final(self)@ == (VariablesModel { csv_error: Some(error@), ..old(self)@ }),
    {
        self.csv_error = Some(error);
    }

    /// Ask for `request` on the next confirmation.
    pub fn set_request(&mut self, request: VariablesRequest)
        requires
            old(self).wf(),
        ensures
            final(self).wf(),
            final(self)@ == (VariablesModel { request, ..old(self)@ }),
    {
        self.request = request;
    }

    pub fn title(&self) -> (r: &'static str)
        ensures
            r@ == match self@.page {
                VariablesPage::Define => strings::entry("ui.variables.define.title"@),
                VariablesPage::DataSets => strings::entry("ui.variables.sets.title"@),
            },
    {
        match self.page {
            VariablesPage::Define => strings::tr("ui.variables.define.title"),
            VariablesPage::DataSets => strings::tr("ui.variables.sets.title"),
        }
    }

    /// Why a confirmation is impossible, or `None`.
    pub fn blocked_reason(&self) -> (r: Option<String>)
        requires
            self.wf(),
        ensures
            match r {
                Some(reason) => self@.blocked() == Some(reason@),
                None => self@.blocked() is None,
            },
    {
        let defs = self.defs();
        let ghost names = self@.defs();
        let mut i: usize = 0;
        while i < defs.len()
            invariant
                i <= defs@.len(),
                names == defs_view(defs@),
                names == self@.defs(),
                forall|k: int| 0 <= k < i ==> (#[trigger] names[k]).name.len() > 0,
            decreases defs@.len() - i,
        {
            assert(names[i as int].name == defs@[i as int].name@);
            if defs[i].name.as_str().is_empty() {
                return Some(text::copied(strings::tr("ui.variables.name.empty")));
            }
            i = i + 1;
        }
        assert(!self@.unnamed());
        i = 0;
        while i < defs.len()
            invariant
                i <= defs@.len(),
                names == defs_view(defs@),
                names == self@.defs(),
                !self@.unnamed(),
                forall|k: int, l: int|
                    0 <= k < l < i ==> (#[trigger] names[k]).name != (#[trigger] names[l]).name,
            decreases defs@.len() - i,
        {
            let mut j: usize = 0;
            while j < i
                invariant
                    j <= i < defs@.len(),
                    names == defs_view(defs@),
                    names == self@.defs(),
                    !self@.unnamed(),
                    forall|k: int|
                        0 <= k < j ==> (#[trigger] names[k]).name != names[i as int].name,
                decreases i - j,
            {
                assert(names[j as int].name == defs@[j as int].name@);
                assert(names[i as int].name == defs@[i as int].name@);
                if text::same(defs[j].name.as_str(), defs[i].name.as_str()) {
                    return Some(text::copied(strings::tr("ui.variables.name.twice")));
                }
                j = j + 1;
            }
            i = i + 1;
        }
        assert(!self@.named_twice());
        let needs_sets = match self.request {
            VariablesRequest::Save => false,
            _ => true,
        };
        if needs_sets && self.sets.len() == 0 {
            return Some(text::copied(strings::tr("ui.variables.no.sets")));
        }
        None
    }

    /// The spec a confirmation hands over, or `None` while blocked.
    pub fn confirm(&self) -> (r: Option<VariablesSpec>)
        requires
            self.wf(),
        ensures
            chrome::request_view(r) == self@.confirmation(),
    {
        if self.blocked_reason().is_some() {
            return None;
        }
        Some(
            VariablesSpec {
                defs: self.defs(),
                sets: copy_sets(&self.sets),
                request: self.request,
            },
        )
    }

    /// Escape and Enter; Escape wins over Enter.
    pub fn resolve(&self, keys: DialogKeys) -> (r: DialogOutcome<VariablesSpec>)
        requires
            self.wf(),
        ensures
            r@ == chrome::settled(keys, self@.confirmation()),
    {
        chrome::settle(keys, self.confirm())
    }

    /// A button of the action row. Confirm saves; of the further buttons the
    /// first exports, any other previews the chosen set.
    pub fn press(&mut self, button: DialogButton) -> (r: DialogOutcome<VariablesSpec>)
        requires
            old(self).wf(),
        ensures
            final(self).wf(),
            match button {
                DialogButton::Cancel => final(self)@ == old(self)@ && r is Cancelled,
                DialogButton::Confirm => final(self)@ == (VariablesModel {
                    request: VariablesRequest::Save,
                    ..old(self)@
                }),
                DialogButton::Extra(i) => final(self)@ == (VariablesModel {
                    request: if i == 0 {
                        VariablesRequest::Export(old(self)@.format)
                    } else {
                        VariablesRequest::Preview(old(self)@.selected_set as usize)
                    },
                    ..old(self)@
                }),
            },
            button != DialogButton::Cancel ==> r@ == chrome::pressed(
                DialogButton::Confirm,
                final(self)@.confirmation(),
            ),
    {
        match button {
            DialogButton::Cancel => {
                return DialogOutcome::Cancelled;
            },
            DialogButton::Confirm => {
                self.request = VariablesRequest::Save;
            },
            DialogButton::Extra(i) => {
                self.request = if i == 0 {
                    VariablesRequest::Export(self.format)
                } else {
                    VariablesRequest::Preview(self.selected_set)
                };
            },
        }
        chrome::press(DialogButton::Confirm, self.confirm())
    }
}

proof fn lemma_all_known(header: Seq<Seq<char>>, defs: Seq<VariableDefView>, n: int)
    requires
        0 <= n <= header.len(),
        first_unknown(header, defs, n) is None,
    ensures
        forall|j: int| 0 <= j < n ==> defined(defs, #[trigger] header[j]),
    decreases n,
{
    if n > 0 {
        lemma_all_known(header, defs, n - 1);
    }
}

proof fn lemma_all_even(rows: Seq<Seq<Seq<char>>>, n: int)
    requires
        0 <= n <= rows.len(),
        first_ragged(rows, n) is None,
    ensures
        forall|k: int| 0 <= k < n ==> (#[trigger] rows[k]).len() == rows[0].len(),
    decreases n,
{
    if n > 1 {
        lemma_all_even(rows, n - 1);
    }
}

/// The sets of an accepted CSV: one for each row below the header, with a value
/// for every column of the header, every column a defined variable, and no
/// value made up or left out.
pub proof fn an_accepted_csv_fits_the_definitions(
    input: Seq<char>,
    defs: Seq<VariableDefView>,
)
    requires
        sets_of_csv(input, defs) is Ok,
    ensures
        ({
            let sets = sets_of_csv(input, defs)->Ok_0;
            let rows = csv::csv_rows(input)->0;
            &&& csv::csv_rows(input) is Some
            &&& sets.len() == rows.len() - 1
            &&& sets.len() > 0
            &&& forall|i: int|
                0 <= i < sets.len() ==> (#[trigger] sets[i]).values.len() == rows[0].len()
                    && sets[i].values.len() == rows[i + 1].len()
            &&& forall|i: int, j: int|
                0 <= i < sets.len() && 0 <= j < rows[0].len() ==> (
                #[trigger] sets[i].values[j]).1 == rows[i + 1][j] && defined(
                    defs,
                    sets[i].values[j].0,
                )
        }),
{
    let rows = csv::csv_rows(input)->0;
    let header = trimmed_row(rows[0]);
    lemma_all_known(header, defs, header.len() as int);
    lemma_all_even(rows, rows.len() as int);
    let sets = sets_of_csv(input, defs)->Ok_0;
    assert forall|i: int, j: int| 0 <= i < sets.len() && 0 <= j < rows[0].len() implies (
    #[trigger] sets[i].values[j]).1 == rows[i + 1][j] && defined(defs, sets[i].values[j].0) by {
        assert(defined(defs, header[j]));
    }
}

proof fn lemma_none_unknown(header: Seq<Seq<char>>, defs: Seq<VariableDefView>, n: int)
    requires
        0 <= n <= header.len(),
        forall|i: int| 0 <= i < n ==> defined(defs, #[trigger] header[i]),
    ensures
        first_unknown(header, defs, n) is None,
    decreases n,
{
    if n > 0 {
        lemma_none_unknown(header, defs, n - 1);
        assert(defined(defs, header[n - 1]));
    }
}

proof fn lemma_none_ragged(rows: Seq<Seq<Seq<char>>>, n: int)
    requires
        0 <= n <= rows.len(),
        forall|i: int| 0 <= i < n ==> (#[trigger] rows[i]).len() == rows[0].len(),
    ensures
        first_ragged(rows, n) is None,
    decreases n,
{
    if n > 1 {
        lemma_none_ragged(rows, n - 1);
        assert(rows[n - 1].len() == rows[0].len());
    }
}

/// A CSV file is accepted exactly where it has a row below its header, every
/// name of the header is a defined variable, and every row is as wide as the
/// header. Its sets are then its rows, in order and numbered from one: each
/// gives every variable of the header the field below it, as it was written.
pub proof fn a_written_csv_gives_its_data_sets(
    rows: Seq<Seq<Seq<char>>>,
    in_quotes: Seq<Seq<Option<nat>>>,
    carriages: Seq<bool>,
    defs: Seq<VariableDefView>,
)
    requires
        csv::writable_rows(rows, in_quotes, carriages),
    ensures
        ({
            let read = sets_of_csv(csv::written_rows(rows, in_quotes, carriages), defs);
            let fits = rows.len() >= 2 && (forall|j: int|
                0 <= j < rows[0].len() ==> defined(defs, text::trimmed(#[trigger] rows[0][j])))
                && (forall|i: int|
                0 <= i < rows.len() ==> (#[trigger] rows[i]).len() == rows[0].len());
            &&& read is Ok <==> fits
            &&& read matches Ok(sets) ==> {
                &&& sets.len() == rows.len() - 1
                &&& forall|i: int|
                    0 <= i < sets.len() ==> (#[trigger] sets[i]).name == strings::entry(
                        "ui.variables.set"@,
                    ) + " "@ + text::decimal((i + 1) as nat) && sets[i].values.len()
                        == rows[0].len()
                &&& forall|i: int, j: int|
                    0 <= i < sets.len() && 0 <= j < rows[0].len() ==> (
                    #[trigger] sets[i].values[j]) == (text::trimmed(rows[0][j]), rows[i + 1][j])
            }
        }),
{
    csv::written_rows_read_back(rows, in_quotes, carriages);
    let input = csv::written_rows(rows, in_quotes, carriages);
    let read = sets_of_csv(input, defs);
    if rows.len() > 0 {
        let header = trimmed_row(rows[0]);
        if read is Ok {
            lemma_all_known(header, defs, header.len() as int);
            lemma_all_even(rows, rows.len() as int);
            assert forall|j: int| 0 <= j < rows[0].len() implies defined(
                defs,
                text::trimmed(#[trigger] rows[0][j]),
            ) by {
                assert(defined(defs, header[j]));
            }
        }
        if (forall|j: int|
            0 <= j < rows[0].len() ==> defined(defs, text::trimmed(#[trigger] rows[0][j]))) {
            assert forall|j: int| 0 <= j < header.len() implies defined(
                defs,
                #[trigger] header[j],
            ) by {
                assert(defined(defs, text::trimmed(rows[0][j])));
            }
            lemma_none_unknown(header, defs, header.len() as int);
        }
        if (forall|i: int| 0 <= i < rows.len() ==> (#[trigger] rows[i]).len() == rows[0].len()) {
            lemma_none_ragged(rows, rows.len() as int);
        }
    }
}

/// What is confirmed names every variable, and no two alike.
pub proof fn confirmed_variables_have_names_of_their_own(m: VariablesModel)
    requires
        m.confirmation() is Some,
    ensures
        ({
            let defs = m.confirmation()->0.defs;
            &&& forall|i: int| 0 <= i < defs.len() ==> (#[trigger] defs[i]).name.len() > 0
            &&& forall|i: int, j: int|
                0 <= i < j < defs.len() ==> (#[trigger] defs[i]).name != (#[trigger] defs[j]).name
        }),
{
}

proof fn lemma_stripped(s: Seq<char>)
    ensures
        forall|c: char| #[trigger] stripped_start(s).contains(c) ==> s.contains(c),
        stripped_start(s).len() > 0 ==> stripped_start(s)[0] != '_',
        forall|c: char| #[trigger] stripped_end(s).contains(c) ==> s.contains(c),
        stripped_end(s).len() > 0 ==> stripped_end(s).last() != '_' && stripped_end(s)[0] == s[0],
    decreases s.len(),
{
    if s.len() > 0 {
        lemma_stripped(s.drop_first());
        lemma_stripped(s.drop_last());
        if s[0] == '_' {
            assert forall|c: char| #[trigger] stripped_start(s).contains(c) implies s.contains(
                c,
            ) by {
                assert(stripped_start(s.drop_first()).contains(c));
                let i = choose|i: int|
                    0 <= i < s.drop_first().len() && s.drop_first()[i] == c;
                assert(s[i + 1] == c);
            }
        }
        if s.last() == '_' {
            assert forall|c: char| #[trigger] stripped_end(s).contains(c) implies s.contains(
                c,
            ) by {
                assert(stripped_end(s.drop_last()).contains(c));
                let i = choose|i: int| 0 <= i < s.drop_last().len() && s.drop_last()[i] == c;
                assert(s[i] == c);
            }
        }
    }
}

/// The name proposed for a layer's variable is never empty: it is made of
/// letters, digits and underscores, with no underscore at either end, or it is
/// the word `variable`.
pub proof fn a_proposed_name_is_a_name(layer: Seq<char>)
    ensures
        ({
            let name = default_variable(layer);
            &&& name.len() > 0
            &&& name == "variable"@ || {
                &&& forall|i: int|
                    0 <= i < name.len() ==> text::alphanumeric(#[trigger] name[i]) || name[i] == '_'
                &&& name[0] != '_'
                &&& name.last() != '_'
            }
        }),
{
    let all = Seq::new(layer.len(), |i: int| name_char(layer[i]));
    let start = stripped_start(all);
    let name = stripped_end(start);
    lemma_stripped(all);
    lemma_stripped(start);
    reveal_strlit("variable");
    if name.len() > 0 {
        assert forall|i: int| 0 <= i < name.len() implies text::alphanumeric(#[trigger] name[i])
            || name[i] == '_' by {
            let c = name[i];
            assert(name.contains(c));
            assert(all.contains(c));
            let k = choose|k: int| 0 <= k < all.len() && all[k] == c;
            assert(c == name_char(layer[k]));
        }
    }
}

} // verus!

//! File > Export > Slice Options: the name, link and alternate text of a slice.
//!
//! A blank name, and a name whose exported file ([`slice_file_stem`], compared
//! ignoring case) is another slice's, are refused with a reason: the name is
//! what the exported file is called, and two slices that export to one file
//! would overwrite each other.

use super::chrome;
use super::chrome::{DialogButton, DialogKeys, DialogOutcome};
use crate::strings;
use crate::text;
use vstd::prelude::*;

verus! {

/// A confirmed Slice Options: slice `index` of the active document's set takes
/// these options.
#[derive(Clone, PartialEq, Eq, Debug)]
pub struct SliceOptionsSpec {
    pub index: usize,
    pub name: String,
    pub url: String,
    pub alt: String,
}

/// What a [`SliceOptionsSpec`] stands for.
#[verifier::ext_equal]
pub struct SliceOptionsRequest {
    pub index: int,
    pub name: Seq<char>,
    pub url: Seq<char>,
    pub alt: Seq<char>,
}

impl View for SliceOptionsSpec {
    type V = SliceOptionsRequest;

    open spec fn view(&self) -> SliceOptionsRequest {
        SliceOptionsRequest {
            index: self.index as int,
            name: self.name@,
            url: self.url@,
            alt: self.alt@,
        }
    }
}

pub open spec fn ascii_digit(c: char) -> bool {
    '0' <= c <= '9'
}

/// A name the Slice tool gave: `slice_` and digits.
pub open spec fn tool_name(name: Seq<char>) -> bool {
    &&& name.len() > 6
    &&& name.take(6) == "slice_"@
    &&& forall|i: int| 6 <= i < name.len() ==> ascii_digit(#[trigger] name[i])
}

/// Control characters, and those a file name cannot hold.
pub open spec fn unsafe_in_file_name(c: char) -> bool {
    (c as u32) < 0x20 || 0x7f <= c as u32 <= 0x9f || c == '/' || c == '\\' || c == ':' || c == '*'
        || c == '?' || c == '"' || c == '<' || c == '>' || c == '|'
}

/// A number in decimal with at least two digits.
pub open spec fn two_digits(n: nat) -> Seq<char> {
    if n < 10 {
        "0"@ + text::decimal(n)
    } else {
        text::decimal(n)
    }
}

/// The file name a slice is exported under, before the exporter makes it safe.
pub open spec fn file_name(doc_stem: Seq<char>, name: Seq<char>, number: nat) -> Seq<char> {
    let trimmed = text::trimmed(name);
    if tool_name(trimmed) {
        doc_stem + "_"@ + trimmed.skip(6)
    } else if trimmed.len() == 0 {
        doc_stem + "_"@ + two_digits(number)
    } else {
        Seq::new(
            trimmed.len(),
            |i: int|
                if unsafe_in_file_name(trimmed[i]) {
                    '_'
                } else {
                    trimmed[i]
                },
        )
    }
}

fn is_tool_name(chars: &Vec<char>) -> (r: bool)
    ensures
        r == tool_name(chars@),
{
    if chars.len() <= 6 {
        return false;
    }
    if !text::same(text::text_of(chars, 0, 6).as_str(), "slice_") {
        assert(chars@.subrange(0, 6) =~= chars@.take(6));
        return false;
    }
    assert(chars@.subrange(0, 6) =~= chars@.take(6));
    let mut i: usize = 6;
    while i < chars.len() && '0' <= chars[i] && chars[i] <= '9'
        invariant
            6 <= i <= chars@.len(),
            forall|j: int| 6 <= j < i ==> ascii_digit(#[trigger] chars@[j]),
        decreases chars@.len() - i,
    {
        i = i + 1;
    }
    if i < chars.len() {
        assert(!ascii_digit(chars@[i as int]));
    }
    i == chars.len()
}

fn is_unsafe(c: char) -> (r: bool)
    ensures
        r == unsafe_in_file_name(c),
{
    let n: u32 = c as u32;
    n < 0x20 || (0x7f <= n && n <= 0x9f) || c == '/' || c == '\\' || c == ':' || c == '*' || c
        == '?' || c == '"' || c == '<' || c == '>' || c == '|'
}

/// The file name (before the exporter makes it safe) that slice `number`
/// (1-based) of a document whose file stem is `doc_stem` is exported under.
/// The Slice tool's own names (`slice_NN`) keep the `<document>_NN` pattern,
/// numbered by the slice's name, so a slice keeps its file name after another
/// is deleted; a blank name is numbered by position. A name the user gave has
/// the characters a file name cannot hold replaced by `_`; the exporter then
/// sanitises it further ([`slice_file_stem`]).
pub fn slice_file_name(doc_stem: &str, name: &str, number: usize) -> (r: String)
    ensures
        r@ == file_name(doc_stem@, name@, number as nat),
{
    let trimmed = text::trim(name);
    let chars = text::chars_of(trimmed.as_str());
    let count = chars.len();
    if is_tool_name(&chars) {
        let digits = text::text_of(&chars, 6, count);
        assert(digits@ =~= trimmed@.skip(6));
        return text::copied(doc_stem).concat("_").concat(digits.as_str());
    }
    if count == 0 {
        let digits = text::decimal_of(number as u128);
        let padded = if number < 10 {
            text::copied("0").concat(digits.as_str())
        } else {
            digits
        };
        return text::copied(doc_stem).concat("_").concat(padded.as_str());
    }
    let ghost safe = Seq::new(
        trimmed@.len(),
        |i: int|
            if unsafe_in_file_name(trimmed@[i]) {
                '_'
            } else {
                trimmed@[i]
            },
    );
    let mut out = String::new();
    let mut i: usize = 0;
    while i < count
        invariant
            i <= count,
            count == chars@.len(),
            chars@ == trimmed@,
            safe == Seq::new(
                trimmed@.len(),
                |i: int|
                    if unsafe_in_file_name(trimmed@[i]) {
                        '_'
                    } else {
                        trimmed@[i]
                    },
            ),
            out@ == safe.take(i as int),
        decreases count - i,
    {
        if is_unsafe(chars[i]) {
            out.push('_');
        } else {
            out.push(chars[i]);
        }
        i = i + 1;
        assert(out@ =~= safe.take(i as int));
    }
    assert(out@ =~= safe);
    out
}

/// The characters an exported file keeps: ASCII letters and digits, `-`, `_`,
/// `(`, `)` and space.
pub open spec fn kept_in_stem(c: char) -> bool {
    'a' <= c <= 'z' || 'A' <= c <= 'Z' || '0' <= c <= '9' || c == '-' || c == '_' || c == '(' || c
        == ')' || c == ' '
}

/// The most characters an exported file's stem has.
pub const MAX_STEM: usize = 64;

/// A stem the exporter writes: everything else `_`, cut at 64 characters.
pub open spec fn sanitized(stem: Seq<char>) -> Seq<char> {
    Seq::new(
        if stem.len() < MAX_STEM {
            stem.len()
        } else {
            MAX_STEM as nat
        },
        |i: int|
            if kept_in_stem(stem[i]) {
                stem[i]
            } else {
                '_'
            },
    )
}

fn is_kept(c: char) -> (r: bool)
    ensures
        r == kept_in_stem(c),
{
    ('a' <= c && c <= 'z') || ('A' <= c && c <= 'Z') || ('0' <= c && c <= '9') || c == '-' || c
        == '_' || c == '(' || c == ')' || c == ' '
}

/// A stem made safe to write.
pub fn sanitize_file_stem(stem: &str) -> (r: String)
    ensures
        r@ == sanitized(stem@),
{
    let chars = text::chars_of(stem);
    let mut out = String::new();
    let mut i: usize = 0;
    while i < chars.len() && i < MAX_STEM
        invariant
            i <= chars@.len(),
            i <= MAX_STEM,
            chars@ == stem@,
            out@ == sanitized(stem@).take(i as int),
        decreases chars@.len() - i,
    {
        if is_kept(chars[i]) {
            out.push(chars[i]);
        } else {
            out.push('_');
        }
        i = i + 1;
        assert(out@ =~= sanitized(stem@).take(i as int));
    }
    assert(out@ =~= sanitized(stem@));
    out
}

/// The file stem File > Export > Slices really writes slice `number` as:
/// [`slice_file_name`] made safe. Two slices whose stems are equal ignoring
/// case would land in one file.
pub fn slice_file_stem(doc_stem: &str, name: &str, number: usize) -> (r: String)
    ensures
        r@ == sanitized(file_name(doc_stem@, name@, number as nat)),
{
    sanitize_file_stem(slice_file_name(doc_stem, name, number).as_str())
}

/// The stem of an exported file has at most 64 characters, all of them safe,
/// whatever the slice is called; making it safe again changes nothing.
pub proof fn exported_stems_are_safe(doc_stem: Seq<char>, name: Seq<char>, number: nat)
    ensures
        sanitized(file_name(doc_stem, name, number)).len() <= MAX_STEM,
        forall|i: int|
            0 <= i < sanitized(file_name(doc_stem, name, number)).len() ==> kept_in_stem(
                #[trigger] sanitized(file_name(doc_stem, name, number))[i],
            ),
        sanitized(sanitized(file_name(doc_stem, name, number))) == sanitized(
            file_name(doc_stem, name, number),
        ),
{
    let stem = sanitized(file_name(doc_stem, name, number));
    assert(sanitized(stem) =~= stem);
}

/// A name the Slice tool gave exports under its own number, whatever position
/// the slice has now.
pub proof fn tool_names_keep_their_file(
    doc_stem: Seq<char>,
    name: Seq<char>,
    number: nat,
    other: nat,
)
    requires
        tool_name(text::trimmed(name)),
    ensures
        file_name(doc_stem, name, number) == file_name(doc_stem, name, other),
{
}

/// What a [`SliceOptionsDialog`] stands for.
#[verifier::ext_equal]
pub struct SliceOptionsModel {
    pub index: int,
    pub name: Seq<char>,
    pub url: Seq<char>,
    pub alt: Seq<char>,
    pub doc_stem: Seq<char>,
    pub others: Seq<Seq<char>>,
}

impl SliceOptionsModel {
    /// The file stem the slice exports as.
    pub open spec fn stem(self) -> Seq<char> {
        sanitized(file_name(self.doc_stem, text::trimmed(self.name), (self.index + 1) as nat))
    }

    /// Another slice exports to the same file, ignoring case.
    pub open spec fn taken(self) -> bool {
        exists|i: int|
            0 <= i < self.others.len() && text::ascii_lowercase(#[trigger] self.others[i])
                == text::ascii_lowercase(self.stem())
    }

    /// Why OK is unavailable.
    pub open spec fn blocked(self) -> Option<Seq<char>> {
        if text::blank(self.name) {
            Some(strings::entry("ui.slice_options.name.empty"@))
        } else if self.taken() {
            Some(strings::entry("ui.slice_options.name.taken"@))
        } else {
            None
        }
    }

    /// What a confirmation hands over: the trimmed fields.
    pub open spec fn confirmation(self) -> Option<SliceOptionsRequest> {
        if self.blocked() is None {
            Some(
                SliceOptionsRequest {
                    index: self.index,
                    name: text::trimmed(self.name),
                    url: text::trimmed(self.url),
                    alt: text::trimmed(self.alt),
                },
            )
        } else {
            None
        }
    }
}

/// File > Export > Slice Options.
#[derive(Debug, Clone, PartialEq, Eq)]
pub struct SliceOptionsDialog {
    index: usize,
    name: String,
    url: String,
    alt: String,
    /// The document's file stem, which the Slice tool's names export under.
    doc_stem: String,
    /// The file stems ([`slice_file_stem`]) the other slices export as.
    others: Vec<String>,
}

impl View for SliceOptionsDialog {
    type V = SliceOptionsModel;

    closed spec fn view(&self) -> SliceOptionsModel {
        SliceOptionsModel {
            index: self.index as int,
            name: self.name@,
            url: self.url@,
            alt: self.alt@,
            doc_stem: self.doc_stem@,
            others: text::texts(self.others@),
        }
    }
}

impl SliceOptionsDialog {
    /// The slice has a position that can be counted from one.
    pub closed spec fn wf(&self) -> bool {
        self.index < usize::MAX
    }

    /// Over slice `index` of a document whose file stem is `doc_stem`; the
    /// slice's options are `name`, `url` and `alt`; `others` are the file
    /// stems ([`slice_file_stem`]) the rest of the set exports as.
    pub fn new(
        index: usize,
        name: String,
        url: String,
        alt: String,
        doc_stem: String,
        others: Vec<String>,
    ) -> (r: Self)
        requires
            index < usize::MAX,
        ensures
            r.wf(),
            r@ == (SliceOptionsModel {
                index: index as int,
                name: name@,
                url: url@,
                alt: alt@,
                doc_stem: doc_stem@,
                others: text::texts(others@),
            }),
    {
        SliceOptionsDialog { index, name, url, alt, doc_stem, others }
    }

    /// Which slice of the set the dialog edits (0-based).
    pub fn index(&self) -> (r: usize)
        ensures
            r == self@.index,
    {
        self.index
    }

    /// Replace the Name field, as typing into it does.
    pub fn set_name(&mut self, name: String)
        requires
            old(self).wf(),
        ensures
            final(self).wf(),
            final(self)@ == (SliceOptionsModel { name: name@, ..old(self)@ }),
    {
        self.name = name;
    }

    /// Replace the URL field, as typing into it does.
    pub fn set_url(&mut self, url: String)
        requires
            old(self).wf(),
        ensures
            final(self).wf(),
            final(self)@ == (SliceOptionsModel { url: url@, ..old(self)@ }),
    {
        self.url = url;
    }

    /// Replace the alternate text, as typing into it does.
    pub fn set_alt(&mut self, alt: String)
        requires
            old(self).wf(),
        ensures
            final(self).wf(),
            final(self)@ == (SliceOptionsModel { alt: alt@, ..old(self)@ }),
    {
        self.alt = alt;
    }

    /// The fields as typed so far: name, URL, alt text.
    pub fn fields(&self) -> (r: (&str, &str, &str))
        ensures
            r.0@ == self@.name,
            r.1@ == self@.url,
            r.2@ == self@.alt,
    {
        (self.name.as_str(), self.url.as_str(), self.alt.as_str())
    }

    pub fn title(&self) -> (r: &'static str)
        ensures
            r@ == strings::entry("ui.slice_options.title"@),
    {
        strings::tr("ui.slice_options.title")
    }

    /// Why OK is unavailable, or `None` when it is live.
    pub fn blocked_reason(&self) -> (r: Option<String>)
        requires
            self.wf(),
        ensures
            match r {
                Some(reason) => self@.blocked() == Some(reason@),
                None => self@.blocked() is None,
            },
    {
        if text::is_blank(self.name.as_str()) {
            return Some(text::copied(strings::tr("ui.slice_options.name.empty")));
        }
        let name = text::trim(self.name.as_str());
        let stem = slice_file_stem(self.doc_stem.as_str(), name.as_str(), self.index + 1);
        let folded = text::to_ascii_lowercase(stem.as_str());
        let mut i: usize = 0;
        while i < self.others.len()
            invariant
                i <= self.others@.len(),
                !text::blank(self@.name),
                folded@ == text::ascii_lowercase(self@.stem()),
                forall|j: int|
                    0 <= j < i ==> text::ascii_lowercase(#[trigger] self@.others[j]) != folded@,
            decreases self.others@.len() - i,
        {
            let other = text::to_ascii_lowercase(self.others[i].as_str());
            assert(self@.others[i as int] == self.others@[i as int]@);
            if text::same(other.as_str(), folded.as_str()) {
                return Some(text::copied(strings::tr("ui.slice_options.name.taken")));
            }
            i = i + 1;
        }
        None
    }

    /// The spec a confirmation hands over: the trimmed fields.
    pub fn confirm(&self) -> (r: Option<SliceOptionsSpec>)
        requires
            self.wf(),
        ensures
            chrome::request_view(r) == self@.confirmation(),
    {
        if self.blocked_reason().is_some() {
            return None;
        }
        Some(
            SliceOptionsSpec {
                index: self.index,
                name: text::trim(self.name.as_str()),
                url: text::trim(self.url.as_str()),
                alt: text::trim(self.alt.as_str()),
            },
        )
    }

    /// Escape and Enter.
    pub fn resolve(&self, keys: DialogKeys) -> (r: DialogOutcome<SliceOptionsSpec>)
        requires
            self.wf(),
        ensures
            r@ == chrome::settled(keys, self@.confirmation()),
    {
        chrome::settle(keys, self.confirm())
    }

    /// A button of the action row.
    pub fn press(&self, button: DialogButton) -> (r: DialogOutcome<SliceOptionsSpec>)
        requires
            self.wf(),
        ensures
            r@ == chrome::pressed(button, self@.confirmation()),
    {
        chrome::press(button, self.confirm())
    }
}

} // verus!

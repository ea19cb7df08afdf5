//! What the names of exported slices and the size of a new document promise.

use crate::dialogs::new_document::{BitDepth, ColorMode, NewDocumentRequest};
use crate::dialogs::slice_options;
use crate::text;
use crate::text_laws;
use vstd::prelude::*;

verus! {

proof fn lemma_spelled_behind_zero(s: Seq<char>)
    ensures
        text_laws::spelled(seq!['0'] + s) == text_laws::spelled(s),
    decreases s.len(),
{
    let t = seq!['0'] + s;
    if s.len() == 0 {
        assert(t.drop_last() =~= Seq::empty());
        assert(text_laws::spelled(t.drop_last()) == 0);
    } else {
        assert(t.drop_last() =~= seq!['0'] + s.drop_last());
        assert(t.last() == s.last());
        lemma_spelled_behind_zero(s.drop_last());
    }
}

/// A slice without a name is exported under the document's name and its number,
/// in at least two digits: so two of them never share a file.
pub proof fn a_nameless_slice_is_exported_by_its_number(
    doc_stem: Seq<char>,
    name: Seq<char>,
    number: nat,
)
    requires
        text::blank(name),
    ensures
        ({
            let file = slice_options::file_name(doc_stem, name, number);
            let behind = file.skip(doc_stem.len() as int + 1);
            &&& file.len() >= doc_stem.len() + 3
            &&& file.take(doc_stem.len() as int) == doc_stem
            &&& file[doc_stem.len() as int] == '_'
            &&& text_laws::spelled(behind) == number
            &&& forall|i: int| 0 <= i < behind.len() ==> '0' <= #[trigger] behind[i] <= '9'
            &&& behind.len() > 2 ==> behind[0] != '0'
        }),
{
    reveal_strlit("_");
    reveal_strlit("0");
    text::lemma_trimmed_blank(name);
    let digits = slice_options::two_digits(number);
    let file = slice_options::file_name(doc_stem, name, number);
    let behind = file.skip(doc_stem.len() as int + 1);
    assert(file.take(doc_stem.len() as int) =~= doc_stem);
    assert(behind =~= digits);
    text_laws::a_decimal_reads_back(number);
    let plain = text::decimal(number);
    if number < 10 {
        assert("0"@ =~= seq!['0']);
        lemma_spelled_behind_zero(plain);
        assert(plain.len() == 1);
    } else {
        assert(text::decimal(number / 10).len() >= 1) by {
            text_laws::a_decimal_reads_back(number / 10);
        }
    }
}

/// A slice that the tool named is exported under the document's name and the
/// tool's digits; white space around the name says nothing.
pub proof fn a_tool_named_slice_keeps_its_digits(
    doc_stem: Seq<char>,
    digits: Seq<char>,
    number: nat,
)
    requires
        digits.len() > 0,
        forall|i: int| 0 <= i < digits.len() ==> '0' <= #[trigger] digits[i] <= '9',
    ensures
        slice_options::file_name(doc_stem, "slice_"@ + digits, number) == doc_stem + seq!['_']
            + digits,
{
    reveal_strlit("_");
    reveal_strlit("slice_");
    let name = "slice_"@ + digits;
    assert(name[0] == 's' && name.last() == digits.last());
    assert('0' <= digits[digits.len() - 1] <= '9');
    text::lemma_untrimmed(name);
    assert(name.take(6) =~= "slice_"@);
    assert(name.skip(6) =~= digits);
    assert forall|i: int| 6 <= i < name.len() implies slice_options::ascii_digit(
        #[trigger] name[i],
    ) by {
        assert(name[i] == digits[i - 6]);
    }
    assert("_"@ =~= seq!['_']);
}

/// A slice that the user named is exported under that name: as long as the name
/// without the white space around it, every character as it is unless a file
/// name cannot hold it, and then an underscore.
pub proof fn a_named_slice_keeps_its_name(doc_stem: Seq<char>, name: Seq<char>, number: nat)
    requires
        !text::blank(name),
        !slice_options::tool_name(text::trimmed(name)),
    ensures
        ({
            let file = slice_options::file_name(doc_stem, name, number);
            let own = text::trimmed(name);
            &&& file.len() == own.len()
            &&& own.len() > 0
            &&& forall|i: int| 0 <= i < own.len() ==> #[trigger] file[i] == own[i] || file[i] == '_'
            &&& forall|i: int|
                0 <= i < own.len() ==> {
                    let c = #[trigger] file[i];
                    &&& c != '/' && c != '\\' && c != ':' && c != '*' && c != '?' && c != '"'
                    &&& c != '<' && c != '>' && c != '|' && c as u32 >= 0x20
                }
            &&& forall|i: int|
                0 <= i < own.len() && ('a' <= own[i] <= 'z' || 'A' <= own[i] <= 'Z' || '0' <= own[i]
                    <= '9' || own[i] == ' ' || own[i] == '-' || own[i] == '.') ==> #[trigger] file[i]
                    == own[i]
        }),
{
    text::lemma_trimmed_blank(name);
    let own = text::trimmed(name);
    let file = slice_options::file_name(doc_stem, name, number);
    assert forall|i: int| 0 <= i < own.len() implies #[trigger] file[i] == (
    if slice_options::unsafe_in_file_name(own[i]) {
        '_'
    } else {
        own[i]
    }) by {}
}

/// A document takes a byte for each channel of each pixel, and twice that at
/// sixteen bits: red, green, blue and alpha; grey and alpha; or the four inks
/// and alpha.
pub proof fn a_document_takes_a_byte_for_each_channel(r: NewDocumentRequest)
    ensures
        ({
            let pixels = r.width * r.height;
            let eight = NewDocumentRequest { bit_depth: BitDepth::Eight, ..r };
            let sixteen = NewDocumentRequest { bit_depth: BitDepth::Sixteen, ..r };
            let grey = NewDocumentRequest { color_mode: ColorMode::Grayscale, ..eight };
            &&& sixteen.bytes() == 2 * eight.bytes()
            &&& r.color_mode == ColorMode::Rgb ==> eight.bytes() == 2 * grey.bytes()
            &&& r.color_mode == ColorMode::Cmyk ==> eight.bytes() == 5 * pixels
            &&& grey.bytes() == 2 * pixels
        }),
{
    let pixels = r.width * r.height;
    assert(pixels * 4 * 1 == 4 * pixels && pixels * 2 * 1 == 2 * pixels && pixels * 5 * 1 == 5
        * pixels && pixels * 4 * 2 == 8 * pixels && pixels * 2 * 2 == 4 * pixels && pixels * 5 * 2
        == 10 * pixels) by (nonlinear_arith);
}

} // verus!

//! What the text operations promise of every text.

use crate::text;
use vstd::prelude::*;

verus! {

/// The number a row of digits spells.
pub open spec fn spelled(s: Seq<char>) -> int
    decreases s.len(),
{
    if s.len() == 0 {
        0
    } else {
        10 * spelled(s.drop_last()) + (s.last() as int - '0' as int)
    }
}

/// A number in decimal is digits only, spells the number, and does not start
/// with a zero unless it is one.
pub proof fn a_decimal_reads_back(n: nat)
    ensures
        spelled(text::decimal(n)) == n,
        text::decimal(n).len() >= 1,
        forall|i: int|
            0 <= i < text::decimal(n).len() ==> '0' <= #[trigger] text::decimal(n)[i] <= '9',
        text::decimal(n)[0] == '0' ==> n == 0,
    decreases n,
{
    let s = text::decimal(n);
    if n < 10 {
        assert(s.drop_last() =~= Seq::empty());
        assert(spelled(s.drop_last()) == 0);
        assert(s.last() as int - '0' as int == n);
    } else {
        a_decimal_reads_back(n / 10);
        assert(s.drop_last() =~= text::decimal(n / 10));
        assert(s[0] == text::decimal(n / 10)[0]);
        assert forall|i: int| 0 <= i < s.len() implies '0' <= #[trigger] s[i] <= '9' by {
            if i < s.len() - 1 {
                assert(s[i] == text::decimal(n / 10)[i]);
            }
        }
    }
}

proof fn lemma_start(s: Seq<char>) -> (n: nat)
    ensures
        n <= s.len(),
        text::trimmed_start(s) == s.skip(n as int),
        text::blank(s.take(n as int)),
        n < s.len() ==> !text::white(s[n as int]),
    decreases s.len(),
{
    if s.len() > 0 && text::white(s[0]) {
        let m = lemma_start(s.drop_first());
        assert(s.drop_first().skip(m as int) =~= s.skip(m as int + 1));
        assert forall|i: int| 0 <= i < m + 1 implies text::white(
            #[trigger] s.take(m as int + 1)[i],
        ) by {
            if i > 0 {
                assert(s.drop_first().take(m as int)[i - 1] == s[i]);
            }
        }
        m + 1
    } else {
        assert(s.skip(0) =~= s);
        0
    }
}

proof fn lemma_end(s: Seq<char>) -> (n: nat)
    ensures
        n <= s.len(),
        text::trimmed_end(s) == s.take(n as int),
        text::blank(s.skip(n as int)),
        n > 0 ==> !text::white(s[n - 1]),
    decreases s.len(),
{
    if s.len() > 0 && text::white(s.last()) {
        let m = lemma_end(s.drop_last());
        assert(s.drop_last().take(m as int) =~= s.take(m as int));
        assert forall|i: int| 0 <= i < s.len() - m implies text::white(
            #[trigger] s.skip(m as int)[i],
        ) by {
            if i < s.len() - m - 1 {
                assert(s.drop_last().skip(m as int)[i] == s[m + i]);
            }
        }
        m
    } else {
        assert(s.take(s.len() as int) =~= s);
        s.len()
    }
}

/// Trimming takes white space off both ends and nothing else: what is left is a
/// run of the text that neither starts nor ends with white space.
pub proof fn trimming_takes_the_white_ends_alone(s: Seq<char>)
    ensures
        exists|i: int, j: int|
            0 <= i <= j <= s.len() && text::trimmed(s) == #[trigger] s.subrange(i, j)
                && text::blank(s.take(i)) && text::blank(s.skip(j)),
        text::trimmed(s).len() > 0 ==> !text::white(text::trimmed(s)[0]) && !text::white(
            text::trimmed(s).last(),
        ),
{
    let i = lemma_start(s) as int;
    let t = s.skip(i);
    let n = lemma_end(t) as int;
    let j = i + n;
    assert(t.take(n) =~= s.subrange(i, j));
    assert forall|k: int| 0 <= k < s.len() - j implies text::white(#[trigger] s.skip(j)[k]) by {
        assert(t.skip(n)[k] == s[j + k]);
    }
    if n > 0 {
        assert(text::trimmed(s)[0] == s[i]);
        assert(text::trimmed(s).last() == t[n - 1]);
    }
}

/// A replacement puts the new text where the pattern first stands, keeps what is
/// before it, and goes on behind it.
pub proof fn a_replacement_stands_where_the_pattern_stood(
    before: Seq<char>,
    pattern: Seq<char>,
    after: Seq<char>,
    with: Seq<char>,
)
    requires
        pattern.len() > 0,
        forall|k: int|
            0 <= k < before.len() ==> #[trigger] (before + pattern + after).subrange(
                k,
                k + pattern.len(),
            ) != pattern,
    ensures
        text::replaced(before + pattern + after, pattern, with) == before + with
            + text::replaced(after, pattern, with),
    decreases before.len(),
{
    let s = before + pattern + after;
    if before.len() == 0 {
        assert(s.take(pattern.len() as int) =~= pattern);
        assert(s.skip(pattern.len() as int) =~= after);
        assert(before + with =~= with);
    } else {
        let rest = before.drop_first();
        let t = rest + pattern + after;
        assert(s.subrange(0, 0int + pattern.len()) != pattern);
        assert(s.take(pattern.len() as int) =~= s.subrange(0, 0int + pattern.len()));
        assert(s.skip(1) =~= t);
        assert(text::replaced(s, pattern, with) == seq![s[0]] + text::replaced(t, pattern, with));
        assert forall|k: int| 0 <= k < rest.len() implies #[trigger] t.subrange(
            k,
            k + pattern.len(),
        ) != pattern by {
            assert(t.subrange(k, k + pattern.len()) =~= s.subrange(k + 1, k + 1 + pattern.len()));
        }
        a_replacement_stands_where_the_pattern_stood(rest, pattern, after, with);
        assert(seq![s[0]] + (rest + with + text::replaced(after, pattern, with)) =~= before + with
            + text::replaced(after, pattern, with));
    }
}

/// A text without the pattern is left as it is.
pub proof fn a_text_without_the_pattern_stays(
    s: Seq<char>,
    pattern: Seq<char>,
    with: Seq<char>,
)
    requires
        pattern.len() > 0,
        !text::occurs(s, pattern),
    ensures
        text::replaced(s, pattern, with) == s,
    decreases s.len(),
{
    if s.len() >= pattern.len() {
        assert(s.take(pattern.len() as int) =~= s.subrange(0, 0int + pattern.len()));
        let t = s.skip(1);
        assert forall|i: int| 0 <= i <= t.len() - pattern.len() implies #[trigger] t.subrange(
            i,
            i + pattern.len(),
        ) != pattern by {
            assert(t.subrange(i, i + pattern.len()) =~= s.subrange(i + 1, i + 1 + pattern.len()));
        }
        a_text_without_the_pattern_stays(t, pattern, with);
        assert(seq![s[0]] + t =~= s);
    }
}

/// The letters of a text: what is not white space.
pub open spec fn letters(s: Seq<char>) -> Seq<char>
    decreases s.len(),
{
    if s.len() == 0 {
        s
    } else if text::white(s.last()) {
        letters(s.drop_last())
    } else {
        letters(s.drop_last()).push(s.last())
    }
}

/// A list of texts, one behind the other.
pub open spec fn joined(list: Seq<Seq<char>>) -> Seq<char>
    decreases list.len(),
{
    if list.len() == 0 {
        Seq::empty()
    } else {
        joined(list.drop_last()) + list.last()
    }
}

proof fn lemma_words(s: Seq<char>)
    ensures
        joined(text::split_words(s).0) + text::split_words(s).1 == letters(s),
        forall|i: int|
            0 <= i < text::split_words(s).0.len() ==> {
                let w = #[trigger] text::split_words(s).0[i];
                w.len() > 0 && forall|k: int| 0 <= k < w.len() ==> !text::white(#[trigger] w[k])
            },
        forall|k: int|
            0 <= k < text::split_words(s).1.len() ==> !text::white(
                #[trigger] text::split_words(s).1[k],
            ),
        s.len() > 0 && !text::white(s.last()) ==> text::split_words(s).1.len() > 0,
        s.len() > 0 && text::white(s.last()) ==> text::split_words(s).1.len() == 0,
    decreases s.len(),
{
    if s.len() == 0 {
        assert(joined(text::split_words(s).0) + text::split_words(s).1 =~= s);
    } else {
        lemma_words(s.drop_last());
        let (done, open) = text::split_words(s.drop_last());
        let (now, left) = text::split_words(s);
        if text::white(s.last()) {
            if open.len() > 0 {
                assert(done.push(open).drop_last() =~= done);
                assert(joined(now) + left =~= joined(done) + open);
            } else {
                assert(joined(now) + left =~= joined(done) + open);
            }
        } else {
            assert(joined(now) + left =~= (joined(done) + open).push(s.last()));
        }
    }
}

/// The words of a text hold every character that is not white space, in order,
/// and nothing else; no word is empty.
pub proof fn the_words_hold_every_letter(s: Seq<char>)
    ensures
        joined(text::words(s)) == letters(s),
        forall|i: int| 0 <= i < text::words(s).len() ==> (#[trigger] text::words(s)[i]).len() > 0,
        forall|i: int, k: int|
            0 <= i < text::words(s).len() && 0 <= k < text::words(s)[i].len() ==> !text::white(
                #[trigger] text::words(s)[i][k],
            ),
{
    lemma_words(s);
    let (done, open) = text::split_words(s);
    if open.len() > 0 {
        assert(done.push(open).drop_last() =~= done);
    } else {
        assert(joined(done) + open =~= joined(done));
    }
}

} // verus!

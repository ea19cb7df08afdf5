//! Folders by their paths: what a path names, whatever its spelling.
//!
//! A path is steps between slashes. Slashes in a row, a slash at the end, and a
//! `.` anywhere but at the very start say nothing.

use crate::text;
use vstd::prelude::*;

verus! {

/// The pieces of a text between its slashes.
pub open spec fn pieces(s: Seq<char>) -> Seq<Seq<char>>
    decreases s.len(),
{
    if s.len() == 0 {
        seq![Seq::empty()]
    } else {
        let before = pieces(s.drop_last());
        if s.last() == '/' {
            before.push(Seq::empty())
        } else {
            before.drop_last().push(before.last().push(s.last()))
        }
    }
}

/// A piece is a step of its path: it is not empty, and a `.` only where the
/// path begins with it.
pub open spec fn is_step(piece: Seq<char>, first: bool) -> bool {
    piece.len() > 0 && (first || piece != seq!['.'])
}

/// The steps among the first `n` pieces of a path.
pub open spec fn steps_among(ps: Seq<Seq<char>>, n: int) -> Seq<Seq<char>>
    decreases n,
{
    if n <= 0 {
        Seq::empty()
    } else if is_step(ps[n - 1], n == 1) {
        steps_among(ps, n - 1).push(ps[n - 1])
    } else {
        steps_among(ps, n - 1)
    }
}

/// The steps of a path.
pub open spec fn steps(s: Seq<char>) -> Seq<Seq<char>> {
    steps_among(pieces(s), pieces(s).len() as int)
}

/// The path starts at the root.
pub open spec fn rooted(s: Seq<char>) -> bool {
    s.len() > 0 && s[0] == '/'
}

/// Two paths name one folder: both or neither start at the root, and their
/// steps are the same.
pub open spec fn same_folder(a: Seq<char>, b: Seq<char>) -> bool {
    rooted(a) == rooted(b) && steps(a) == steps(b)
}

/// A text has one piece more than slashes.
proof fn lemma_pieces(s: Seq<char>)
    ensures
        pieces(s).len() > 0,
    decreases s.len(),
{
    if s.len() > 0 {
        lemma_pieces(s.drop_last());
    }
}

/// The steps among the first pieces rest on those alone.
proof fn lemma_steps_among(a: Seq<Seq<char>>, b: Seq<Seq<char>>, n: int)
    requires
        n <= a.len(),
        n <= b.len(),
        forall|i: int| 0 <= i < n ==> #[trigger] a[i] == b[i],
    ensures
        steps_among(a, n) == steps_among(b, n),
    decreases n,
{
    if n > 0 {
        lemma_steps_among(a, b, n - 1);
    }
}

/// A slash parts the pieces of what stands on either side.
proof fn lemma_parted(a: Seq<char>, b: Seq<char>)
    ensures
        pieces(a.push('/') + b) == pieces(a) + pieces(b),
    decreases b.len(),
{
    let whole = a.push('/') + b;
    lemma_pieces(a);
    lemma_pieces(b);
    if b.len() == 0 {
        assert(whole =~= a.push('/'));
        assert(whole.drop_last() =~= a);
        assert(pieces(whole) =~= pieces(a) + pieces(b));
    } else {
        let front = b.drop_last();
        lemma_parted(a, front);
        lemma_pieces(front);
        assert(whole.drop_last() =~= a.push('/') + front);
        assert(whole.last() == b.last());
        assert(pieces(whole) =~= pieces(a) + pieces(b));
    }
}

/// A later piece that is no step can be left out.
proof fn lemma_left_out(before: Seq<Seq<char>>, piece: Seq<char>, behind: Seq<Seq<char>>, n: int)
    requires
        before.len() > 0,
        !is_step(piece, false),
        0 <= n <= behind.len(),
    ensures
        steps_among(before.push(piece) + behind, before.len() + 1 + n) == steps_among(
            before + behind,
            before.len() + n,
        ),
    decreases n,
{
    let long = before.push(piece) + behind;
    let short = before + behind;
    if n == 0 {
        lemma_steps_among(long, short, before.len() as int);
        assert(long[before.len() as int] == piece);
    } else {
        lemma_left_out(before, piece, behind, n - 1);
        assert(long[before.len() + n] == behind[n - 1]);
        assert(short[before.len() + n - 1] == behind[n - 1]);
    }
}

/// What says nothing in a path may stand between any two slashes of it.
proof fn lemma_says_nothing(a: Seq<char>, piece: Seq<char>, b: Seq<char>)
    requires
        pieces(piece) == seq![piece],
        !is_step(piece, false),
    ensures
        same_folder(a.push('/') + (piece.push('/') + b), a.push('/') + b),
{
    lemma_parted(a, piece.push('/') + b);
    lemma_parted(piece, b);
    lemma_parted(a, b);
    lemma_pieces(a);
    lemma_left_out(pieces(a), piece, pieces(b), pieces(b).len() as int);
    assert(pieces(a) + (seq![piece] + pieces(b)) =~= pieces(a).push(piece) + pieces(b));
}

/// A slash at the end of a path says nothing.
pub proof fn a_slash_at_the_end_says_nothing(s: Seq<char>)
    requires
        s.len() > 0,
    ensures
        same_folder(s.push('/'), s),
{
    lemma_pieces(s);
    let long = s.push('/');
    assert(long.drop_last() =~= s);
    lemma_steps_among(pieces(long), pieces(s), pieces(s).len() as int);
}

/// Slashes in a row are one slash.
pub proof fn a_repeated_slash_says_nothing(a: Seq<char>, b: Seq<char>)
    ensures
        same_folder(a + seq!['/', '/'] + b, a + seq!['/'] + b),
{
    let none = Seq::<char>::empty();
    lemma_says_nothing(a, none, b);
    assert(a + seq!['/', '/'] + b =~= a.push('/') + (none.push('/') + b));
    assert(a + seq!['/'] + b =~= a.push('/') + b);
}

/// A `.` after a slash says nothing.
pub proof fn a_later_dot_says_nothing(a: Seq<char>, b: Seq<char>)
    ensures
        same_folder(a + seq!['/', '.', '/'] + b, a + seq!['/'] + b),
{
    let dot = seq!['.'];
    assert(pieces(dot) =~= seq![dot]) by {
        assert(dot.drop_last() =~= Seq::<char>::empty());
        assert(pieces(dot.drop_last()) =~= seq![Seq::<char>::empty()]);
        assert(Seq::<char>::empty().push('.') =~= dot);
    }
    lemma_says_nothing(a, dot, b);
    assert(a + seq!['/', '.', '/'] + b =~= a.push('/') + (dot.push('/') + b));
    assert(a + seq!['/'] + b =~= a.push('/') + b);
}

/// A piece of a path is a step of it.
fn counts(piece: &str, first: bool) -> (r: bool)
    ensures
        r == is_step(piece@, first),
{
    proof {
        reveal_strlit(".");
        assert("."@ =~= seq!['.']);
    }
    !piece.is_empty() && (first || !text::same(piece, "."))
}

/// The steps of a path.
fn steps_of(s: &str) -> (r: Vec<String>)
    ensures
        text::texts(r@) == steps(s@),
{
    let chars = text::chars_of(s);
    let mut found: Vec<String> = Vec::new();
    let mut piece = String::new();
    let mut first = true;
    let mut i: usize = 0;
    let ghost mut ps = pieces(chars@.take(0));
    assert(chars@.take(0) =~= Seq::<char>::empty());
    assert(text::texts(found@) =~= steps_among(ps, 0));
    while i < chars.len()
        invariant
            i <= chars.len(),
            ps == pieces(chars@.take(i as int)),
            ps.len() > 0,
            piece@ == ps.last(),
            first == (ps.len() == 1),
            text::texts(found@) == steps_among(ps, ps.len() - 1),
        decreases chars.len() - i,
    {
        let ghost before = ps;
        let ghost done = text::texts(found@);
        let c = chars[i];
        i = i + 1;
        proof {
            assert(chars@.take(i as int).drop_last() =~= chars@.take(i - 1));
            assert(chars@.take(i as int).last() == c);
            ps = pieces(chars@.take(i as int));
            lemma_steps_among(ps, before, before.len() - 1);
        }
        if c == '/' {
            proof {
                lemma_steps_among(ps, before, before.len() as int);
            }
            if counts(piece.as_str(), first) {
                found.push(piece);
                assert(text::texts(found@) =~= done.push(before.last()));
            }
            piece = String::new();
            first = false;
        } else {
            piece.push(c);
        }
    }
    assert(chars@.take(i as int) =~= s@);
    if counts(piece.as_str(), first) {
        let ghost done = text::texts(found@);
        found.push(piece);
        assert(text::texts(found@) =~= done.push(ps.last()));
    }
    found
}

/// Whether two paths name one folder.
pub fn folders_agree(a: &str, b: &str) -> (r: bool)
    ensures
        r == same_folder(a@, b@),
{
    if starts_at_root(a) != starts_at_root(b) {
        return false;
    }
    let ours = steps_of(a);
    let theirs = steps_of(b);
    if ours.len() != theirs.len() {
        assert(text::texts(ours@).len() != text::texts(theirs@).len());
        return false;
    }
    let mut i: usize = 0;
    while i < ours.len()
        invariant
            i <= ours.len(),
            ours.len() == theirs.len(),
            text::texts(ours@) == steps(a@),
            text::texts(theirs@) == steps(b@),
            forall|j: int| 0 <= j < i ==> #[trigger] ours@[j]@ == theirs@[j]@,
        decreases ours.len() - i,
    {
        if !text::same(ours[i].as_str(), theirs[i].as_str()) {
            assert(text::texts(ours@)[i as int] != text::texts(theirs@)[i as int]);
            return false;
        }
        i = i + 1;
    }
    assert(text::texts(ours@) =~= text::texts(theirs@));
    true
}

/// Whether a path starts at the root.
fn starts_at_root(s: &str) -> (r: bool)
    ensures
        r == rooted(s@),
{
    let chars = text::chars_of(s);
    chars.len() > 0 && chars[0] == '/'
}

} // verus!

//! Facts about sequences that several modules rest on.

use vstd::prelude::*;

verus! {

/// Strictly increasing by an integer key.
pub open spec fn increasing<T>(s: Seq<T>, key: spec_fn(T) -> int) -> bool {
    forall|i: int, j: int| #![trigger s[i], s[j]] 0 <= i < j < s.len() ==> key(s[i]) < key(s[j])
}

/// The first item that meets `pred`, if any does.
pub open spec fn first_where<T>(s: Seq<T>, pred: spec_fn(T) -> bool) -> Option<T>
    decreases s.len(),
{
    if s.len() == 0 {
        None
    } else {
        match first_where(s.drop_last(), pred) {
            Some(x) => Some(x),
            None => if pred(s.last()) {
                Some(s.last())
            } else {
                None
            },
        }
    }
}

/// What [`first_where`] finds is in the sequence and meets the predicate, and
/// nothing before it does; where it finds nothing, nothing meets it.
pub proof fn lemma_first_where<T>(s: Seq<T>, pred: spec_fn(T) -> bool)
    ensures
        match first_where(s, pred) {
            Some(x) => pred(x) && exists|k: int|
                0 <= k < s.len() && #[trigger] s[k] == x && forall|j: int|
                    0 <= j < k ==> !pred(#[trigger] s[j]),
            None => forall|j: int| 0 <= j < s.len() ==> !pred(#[trigger] s[j]),
        },
    decreases s.len(),
{
    if s.len() > 0 {
        let front = s.drop_last();
        lemma_first_where(front, pred);
        match first_where(front, pred) {
            Some(x) => {
                let k = choose|k: int|
                    0 <= k < front.len() && #[trigger] front[k] == x && forall|j: int|
                        0 <= j < k ==> !pred(#[trigger] front[j]);
                assert(s[k] == x);
                assert forall|j: int| 0 <= j < k implies !pred(#[trigger] s[j]) by {
                    assert(front[j] == s[j]);
                }
            },
            None => {
                assert forall|j: int| 0 <= j < s.len() - 1 implies !pred(#[trigger] s[j]) by {
                    assert(front[j] == s[j]);
                }
                if pred(s.last()) {
                    assert(s[s.len() - 1] == s.last());
                }
            },
        }
    }
}

/// Where an item with this key goes: after every leading item with a smaller
/// one.
pub open spec fn insertion_point<T>(s: Seq<T>, key: spec_fn(T) -> int, at: int) -> int
    decreases s.len(),
{
    if s.len() == 0 || key(s.last()) < at {
        s.len() as int
    } else {
        insertion_point(s.drop_last(), key, at)
    }
}

/// Everything before the insertion point has a smaller key, everything from it
/// on does not.
pub proof fn lemma_insertion_point<T>(s: Seq<T>, key: spec_fn(T) -> int, at: int)
    requires
        increasing(s, key),
    ensures
        0 <= insertion_point(s, key, at) <= s.len(),
        forall|i: int| 0 <= i < insertion_point(s, key, at) ==> key(#[trigger] s[i]) < at,
        forall|i: int| insertion_point(s, key, at) <= i < s.len() ==> key(#[trigger] s[i]) >= at,
    decreases s.len(),
{
    if s.len() > 0 {
        if key(s.last()) < at {
            assert forall|i: int| 0 <= i < s.len() implies key(#[trigger] s[i]) < at by {
                if i < s.len() - 1 {
                    assert(key(s[i]) < key(s[s.len() - 1]));
                }
            }
        } else {
            let front = s.drop_last();
            lemma_increasing_drop_last(s, key);
            lemma_insertion_point(front, key, at);
            assert forall|i: int| 0 <= i < insertion_point(s, key, at) implies key(
                #[trigger] s[i],
            ) < at by {
                assert(front[i] == s[i]);
            }
            assert forall|i: int| insertion_point(s, key, at) <= i < s.len() implies key(
                #[trigger] s[i],
            ) >= at by {
                if i < front.len() {
                    assert(front[i] == s[i]);
                }
            }
        }
    }
}

/// Dropping the last item keeps a sequence increasing.
pub proof fn lemma_increasing_drop_last<T>(s: Seq<T>, key: spec_fn(T) -> int)
    requires
        increasing(s, key),
        s.len() > 0,
    ensures
        increasing(s.drop_last(), key),
{
    let front = s.drop_last();
    assert forall|i: int, j: int|
        #![trigger front[i], front[j]]
        0 <= i < j < front.len() implies key(front[i]) < key(front[j]) by {
        assert(key(s[i]) < key(s[j]));
    }
}

/// Putting an item with a new key at its insertion point keeps a sequence
/// increasing and adds exactly that item.
pub proof fn lemma_insert_increasing<T>(s: Seq<T>, key: spec_fn(T) -> int, item: T)
    requires
        increasing(s, key),
        forall|i: int| 0 <= i < s.len() ==> key(#[trigger] s[i]) != key(item),
    ensures
        0 <= insertion_point(s, key, key(item)) <= s.len(),
        increasing(s.insert(insertion_point(s, key, key(item)), item), key),
        forall|x: T| #[trigger]
            s.insert(insertion_point(s, key, key(item)), item).contains(x) <==> (s.contains(x)
                || x == item),
{
    lemma_insertion_point(s, key, key(item));
    let at = insertion_point(s, key, key(item));
    let after = s.insert(at, item);
    assert forall|i: int, j: int|
        #![trigger after[i], after[j]]
        0 <= i < j < after.len() implies key(after[i]) < key(after[j]) by {
        let oi = if i < at { i } else { i - 1 };
        let oj = if j < at { j } else { j - 1 };
        if i != at {
            assert(after[i] == s[oi]);
        }
        if j != at {
            assert(after[j] == s[oj]);
        }
        if i != at && j != at {
            assert(key(s[oi]) < key(s[oj]));
        }
    }
    assert forall|x: T| #[trigger] after.contains(x) <==> (s.contains(x) || x == item) by {
        if after.contains(x) {
            let i = choose|i: int| 0 <= i < after.len() && after[i] == x;
            if i != at {
                let oi = if i < at { i } else { i - 1 };
                assert(after[i] == s[oi]);
            }
        }
        if x == item {
            assert(after[at] == x);
        }
        if s.contains(x) {
            let oi = choose|i: int| 0 <= i < s.len() && s[i] == x;
            let i = if oi < at { oi } else { oi + 1 };
            assert(after[i] == x);
        }
    }
}

/// Two strictly increasing sequences with the same items are the same.
pub proof fn lemma_increasing_unique<T>(a: Seq<T>, b: Seq<T>, key: spec_fn(T) -> int)
    requires
        increasing(a, key),
        increasing(b, key),
        forall|x: T| #[trigger] a.contains(x) <==> b.contains(x),
    ensures
        a == b,
{
    lemma_increasing_prefix(a, b, key, a.len() as int);
    lemma_increasing_prefix(b, a, key, b.len() as int);
    assert(a =~= b);
}

proof fn lemma_increasing_prefix<T>(a: Seq<T>, b: Seq<T>, key: spec_fn(T) -> int, n: int)
    requires
        increasing(a, key),
        increasing(b, key),
        forall|x: T| #[trigger] a.contains(x) <==> b.contains(x),
        0 <= n <= a.len(),
    ensures
        n <= b.len(),
        forall|i: int| 0 <= i < n ==> a[i] == b[i],
    decreases n,
{
    if n > 0 {
        let i = n - 1;
        lemma_increasing_prefix(a, b, key, i);
        assert(a.contains(a[i]));
        let j = choose|j: int| 0 <= j < b.len() && b[j] == a[i];
        if j < i {
            assert(a[j] == b[j]);
            assert(key(a[j]) < key(a[i]));
        }
        assert(i <= j);
        assert(b.contains(b[i]));
        assert(a.contains(b[i]));
        let k = choose|k: int| 0 <= k < a.len() && a[k] == b[i];
        if k < i {
            assert(a[k] == b[k]);
            assert(key(b[k]) < key(b[i]));
        }
        if i < j {
            assert(key(b[i]) < key(b[j]));
        }
        if i < k {
            assert(key(a[i]) < key(a[k]));
        }
    }
}

/// What is found in a prefix is found in the whole.
pub proof fn lemma_first_where_prefix<T>(s: Seq<T>, pred: spec_fn(T) -> bool, n: int, found: T)
    requires
        0 <= n <= s.len(),
        first_where(s.take(n), pred) == Some(found),
    ensures
        first_where(s, pred) == Some(found),
    decreases s.len() - n,
{
    if n < s.len() {
        assert(s.take(n + 1).drop_last() =~= s.take(n));
        lemma_first_where_prefix(s, pred, n + 1, found);
    } else {
        assert(s.take(n) =~= s);
    }
}

/// One more item is looked at.
pub proof fn lemma_first_where_step<T>(s: Seq<T>, pred: spec_fn(T) -> bool, n: int)
    requires
        0 <= n < s.len(),
        first_where(s.take(n), pred) is None,
    ensures
        first_where(s.take(n + 1), pred) == if pred(s[n]) {
            Some(s[n])
        } else {
            None
        },
{
    assert(s.take(n + 1).drop_last() =~= s.take(n));
    assert(s.take(n + 1).last() == s[n]);
}

} // verus!

//! How placements arrange panels: the order panels draw in, the tabbed groups
//! that order falls into, and which tab each group shows.
//!
//! Everything here is a function of the placements, one per panel in
//! Window-menu order. Groups are derived: when the last member of a group
//! closes, the group is gone.

use crate::dock::{DockSide, PanelId, PanelPlacement};
use crate::sequences;
use vstd::prelude::*;

verus! {

/// The panel is in the dock, on this side.
pub open spec fn on_side(slots: Seq<PanelPlacement>, side: DockSide, panel: PanelId) -> bool {
    slots[panel.rank()].open && slots[panel.rank()].side == side
}

/// Groups stack by number, tabs within a group by their order, ties by
/// Window-menu order.
pub open spec fn sort_key(slots: Seq<PanelPlacement>, panel: PanelId) -> int {
    (slots[panel.rank()].group * 256 + slots[panel.rank()].order) * 14 + panel.rank()
}

/// `s` lists exactly the open panels of a side, in drawing order.
pub open spec fn is_listing(
    slots: Seq<PanelPlacement>,
    side: DockSide,
    s: Seq<PanelId>,
) -> bool {
    &&& sequences::increasing(s, |p: PanelId| sort_key(slots, p))
    &&& forall|p: PanelId| #[trigger] s.contains(p) <==> on_side(slots, side, p)
}

/// The open panels of a side among the first `n`, in drawing order.
pub open spec fn listed(slots: Seq<PanelPlacement>, side: DockSide, n: int) -> Seq<PanelId>
    decreases n,
{
    if n <= 0 {
        Seq::empty()
    } else {
        let before = listed(slots, side, n - 1);
        let panel = PanelId::at(n - 1);
        if on_side(slots, side, panel) {
            before.insert(
                sequences::insertion_point(before, |p: PanelId| sort_key(slots, p), sort_key(slots, panel)),
                panel,
            )
        } else {
            before
        }
    }
}

/// The open panels of a side, in drawing order.
pub open spec fn panels(slots: Seq<PanelPlacement>, side: DockSide) -> Seq<PanelId> {
    listed(slots, side, 14)
}

/// The groups a drawing order falls into: neighbours with one group number.
pub open spec fn tab_groups(
    slots: Seq<PanelPlacement>,
    s: Seq<PanelId>,
) -> Seq<(u8, Seq<PanelId>)>
    decreases s.len(),
{
    if s.len() == 0 {
        Seq::empty()
    } else {
        let before = tab_groups(slots, s.drop_last());
        let panel = s.last();
        let number = slots[panel.rank()].group;
        if before.len() > 0 && before.last().0 == number {
            before.drop_last().push((number, before.last().1.push(panel)))
        } else {
            before.push((number, seq![panel]))
        }
    }
}

/// The tabbed groups of a side, stacked in group-number order, each with its
/// open members in tab order.
pub open spec fn groups(slots: Seq<PanelPlacement>, side: DockSide) -> Seq<(u8, Seq<PanelId>)> {
    tab_groups(slots, panels(slots, side))
}

/// `gs` holds exactly the open panels of a side, each under its own group
/// number, groups by number and members in tab order.
pub open spec fn is_grouping(
    slots: Seq<PanelPlacement>,
    side: DockSide,
    gs: Seq<(u8, Seq<PanelId>)>,
) -> bool {
    &&& sequences::increasing(gs, |g: (u8, Seq<PanelId>)| g.0 as int)
    &&& forall|k: int|
        #![trigger gs[k]]
        0 <= k < gs.len() ==> {
            &&& gs[k].1.len() > 0
            &&& sequences::increasing(gs[k].1, |p: PanelId| sort_key(slots, p))
            &&& forall|p: PanelId| #[trigger]
                gs[k].1.contains(p) ==> on_side(slots, side, p) && slots[p.rank()].group == gs[k].0
        }
    &&& forall|p: PanelId|
        on_side(slots, side, p) ==> exists|k: int|
            0 <= k < gs.len() && #[trigger] gs[k].1.contains(p)
}

/// The panels of a group, or only its active ones.
pub open spec fn tab_of(
    slots: Seq<PanelPlacement>,
    group: u8,
    active: bool,
) -> spec_fn(PanelId) -> bool {
    |p: PanelId| slots[p.rank()].group == group && (active ==> slots[p.rank()].active)
}

/// The panel a group shows: its first active member, else its first member.
pub open spec fn shown(slots: Seq<PanelPlacement>, side: DockSide, group: u8) -> Option<PanelId> {
    match sequences::first_where(panels(slots, side), tab_of(slots, group, true)) {
        Some(p) => Some(p),
        None => sequences::first_where(panels(slots, side), tab_of(slots, group, false)),
    }
}

/// The placements with exactly one active tab per group of open panels: the
/// one the group shows. A closed panel is never active.
pub open spec fn normalized(slots: Seq<PanelPlacement>) -> Seq<PanelPlacement> {
    Seq::new(
        14,
        |i: int|
            PanelPlacement {
                active: slots[i].open && shown(slots, slots[i].side, slots[i].group) == Some(
                    PanelId::at(i),
                ),
                ..slots[i]
            },
    )
}

/// Two open panels are tabs of one group.
pub open spec fn alongside(slots: Seq<PanelPlacement>, a: PanelId, b: PanelId) -> bool {
    &&& slots[a.rank()].open
    &&& slots[b.rank()].open
    &&& slots[a.rank()].side == slots[b.rank()].side
    &&& slots[a.rank()].group == slots[b.rank()].group
}

/// A panel is the one active tab of the group it is open in.
pub open spec fn sole_tab(slots: Seq<PanelPlacement>, panel: PanelId) -> bool {
    &&& slots[panel.rank()].open
    &&& slots[panel.rank()].active
    &&& forall|q: PanelId| #[trigger]
        alongside(slots, panel, q) && slots[q.rank()].active ==> q == panel
}

/// Exactly one open member of every group is active, and no closed panel is.
pub open spec fn one_tab_shows(slots: Seq<PanelPlacement>) -> bool {
    &&& forall|p: PanelId|
        #![trigger p.rank()]
        slots[p.rank()].active ==> slots[p.rank()].open
    &&& forall|p: PanelId|
        #![trigger p.rank()]
        slots[p.rank()].open ==> exists|q: PanelId| #[trigger]
            alongside(slots, p, q) && sole_tab(slots, q)
}

/// Panel `p` is tab `t` of the `k`-th group of `stack`.
pub open spec fn sits(stack: Seq<(u8, Seq<PanelId>)>, k: int, t: int, p: PanelId) -> bool {
    0 <= k < stack.len() && 0 <= t < stack[k].1.len() && stack[k].1[t] == p
}

/// Group and tab of a panel in `stack`, if it is there.
pub open spec fn seat(stack: Seq<(u8, Seq<PanelId>)>, p: PanelId) -> Option<(int, int)> {
    if exists|k: int, t: int| sits(stack, k, t, p) {
        Some(choose|seat: (int, int)| sits(stack, seat.0, seat.1, p))
    } else {
        None
    }
}

/// The placements after writing a stack of groups back: every panel in it gets
/// the number of its group and its place among the tabs.
pub open spec fn renumbered(
    slots: Seq<PanelPlacement>,
    stack: Seq<(u8, Seq<PanelId>)>,
) -> Seq<PanelPlacement> {
    Seq::new(
        14,
        |i: int|
            match seat(stack, PanelId::at(i)) {
                Some((k, t)) => PanelPlacement { group: k as u8, order: t as u8, ..slots[i] },
                None => slots[i],
            },
    )
}

/// The stack with the group at `from` taken out and put in at `to`.
pub open spec fn moved<T>(stack: Seq<T>, from: int, to: int) -> Seq<T> {
    stack.remove(from).insert(to, stack[from])
}

/// The stack under dense numbers, in its order.
pub open spec fn dense(stack: Seq<(u8, Seq<PanelId>)>) -> Seq<(u8, Seq<PanelId>)> {
    Seq::new(stack.len(), |k: int| (k as u8, stack[k].1))
}

/// Two sets of placements that differ in nothing but which tabs are active and
/// which bodies are folded.
pub open spec fn same_arrangement(a: Seq<PanelPlacement>, b: Seq<PanelPlacement>) -> bool {
    &&& a.len() == 14
    &&& b.len() == 14
    &&& forall|i: int|
        #![trigger a[i]]
        #![trigger b[i]]
        0 <= i < 14 ==> a[i].side == b[i].side && a[i].order == b[i].order && a[i].open
            == b[i].open && a[i].group == b[i].group
}

/// Every panel has one place in Window-menu order, and every place one panel.
pub proof fn lemma_ranks()
    ensures
        forall|p: PanelId| 0 <= #[trigger] p.rank() < 14 && PanelId::at(p.rank()) == p,
        forall|i: int| 0 <= i < 14 ==> (#[trigger] PanelId::at(i)).rank() == i,
{
}

proof fn lemma_listed(slots: Seq<PanelPlacement>, side: DockSide, n: int)
    requires
        0 <= n <= 14,
    ensures
        sequences::increasing(listed(slots, side, n), |p: PanelId| sort_key(slots, p)),
        forall|p: PanelId| #[trigger]
            listed(slots, side, n).contains(p) <==> (on_side(slots, side, p) && p.rank() < n),
        listed(slots, side, n).len() <= n,
    decreases n,
{
    let key = |p: PanelId| sort_key(slots, p);
    if n > 0 {
        lemma_listed(slots, side, n - 1);
        let before = listed(slots, side, n - 1);
        let panel = PanelId::at(n - 1);
        let after = listed(slots, side, n);
        assert(panel.rank() == n - 1);
        if on_side(slots, side, panel) {
            assert forall|i: int| 0 <= i < before.len() implies key(#[trigger] before[i]) != key(
                panel,
            ) by {
                assert(before.contains(before[i]));
                lemma_keys_differ(slots, before[i], panel);
            }
            sequences::lemma_insert_increasing(before, key, panel);
        }
        assert forall|p: PanelId| #[trigger]
            after.contains(p) <==> (on_side(slots, side, p) && p.rank() < n) by {
            if p.rank() == n - 1 {
                lemma_rank_determines(p, panel);
            }
            assert(before.contains(p) <==> (on_side(slots, side, p) && p.rank() < n - 1));
        }
    } else {
        assert(listed(slots, side, n) == Seq::<PanelId>::empty());
    }
}

proof fn lemma_rank_determines(a: PanelId, b: PanelId)
    requires
        a.rank() == b.rank(),
    ensures
        a == b,
{
}

proof fn lemma_keys_differ(slots: Seq<PanelPlacement>, a: PanelId, b: PanelId)
    requires
        a.rank() != b.rank(),
    ensures
        sort_key(slots, a) != sort_key(slots, b),
{
    assert(0 <= a.rank() < 14);
    assert(0 <= b.rank() < 14);
}

/// [`panels`] lists exactly the open panels of a side, in drawing order.
pub proof fn lemma_panels(slots: Seq<PanelPlacement>, side: DockSide)
    ensures
        is_listing(slots, side, panels(slots, side)),
        panels(slots, side).len() <= 14,
{
    lemma_ranks();
    lemma_listed(slots, side, 14);
}

/// Only one sequence lists the open panels of a side in drawing order.
pub proof fn lemma_listing_unique(slots: Seq<PanelPlacement>, side: DockSide, s: Seq<PanelId>)
    requires
        is_listing(slots, side, s),
    ensures
        s == panels(slots, side),
{
    lemma_panels(slots, side);
    sequences::lemma_increasing_unique(s, panels(slots, side), |p: PanelId| sort_key(slots, p));
}

/// A smaller key is never in a later group.
proof fn lemma_key_group(slots: Seq<PanelPlacement>, a: PanelId, b: PanelId)
    requires
        sort_key(slots, a) < sort_key(slots, b),
    ensures
        slots[a.rank()].group <= slots[b.rank()].group,
{
    assert(0 <= a.rank() < 14);
    assert(0 <= b.rank() < 14);
}

/// `gs` holds exactly the panels of `s`, each under its own group number,
/// groups by number and members in tab order.
spec fn groups_of(
    slots: Seq<PanelPlacement>,
    s: Seq<PanelId>,
    gs: Seq<(u8, Seq<PanelId>)>,
) -> bool {
    &&& sequences::increasing(gs, |g: (u8, Seq<PanelId>)| g.0 as int)
    &&& forall|k: int|
        #![trigger gs[k]]
        0 <= k < gs.len() ==> {
            &&& 0 < gs[k].1.len() <= s.len()
            &&& sequences::increasing(gs[k].1, |p: PanelId| sort_key(slots, p))
            &&& forall|p: PanelId| #[trigger]
                gs[k].1.contains(p) ==> s.contains(p) && slots[p.rank()].group == gs[k].0
        }
    &&& forall|p: PanelId|
        s.contains(p) ==> exists|k: int| 0 <= k < gs.len() && #[trigger] gs[k].1.contains(p)
}

proof fn lemma_push_increasing(slots: Seq<PanelPlacement>, s: Seq<PanelId>, p: PanelId)
    requires
        sequences::increasing(s, |p: PanelId| sort_key(slots, p)),
        forall|q: PanelId| #[trigger] s.contains(q) ==> sort_key(slots, q) < sort_key(slots, p),
    ensures
        sequences::increasing(s.push(p), |p: PanelId| sort_key(slots, p)),
        forall|q: PanelId| #[trigger] s.push(p).contains(q) <==> (s.contains(q) || q == p),
{
    let key = |p: PanelId| sort_key(slots, p);
    let t = s.push(p);
    assert forall|i: int, j: int|
        #![trigger t[i], t[j]]
        0 <= i < j < t.len() implies key(t[i]) < key(t[j]) by {
        assert(s.contains(s[i]));
        if j < s.len() {
            assert(key(s[i]) < key(s[j]));
        }
    }
    assert forall|q: PanelId| #[trigger] t.contains(q) <==> (s.contains(q) || q == p) by {
        if s.contains(q) {
            let i = choose|i: int| 0 <= i < s.len() && s[i] == q;
            assert(t[i] == q);
        }
        if q == p {
            assert(t[s.len() as int] == q);
        }
    }
}

#[verifier::spinoff_prover]
#[verifier::rlimit(40)]
proof fn lemma_tab_groups(slots: Seq<PanelPlacement>, s: Seq<PanelId>)
    requires
        sequences::increasing(s, |p: PanelId| sort_key(slots, p)),
    ensures
        groups_of(slots, s, tab_groups(slots, s)),
        tab_groups(slots, s).len() <= s.len(),
        s.len() > 0 ==> tab_groups(slots, s).len() > 0 && tab_groups(slots, s).last().0
            == slots[s.last().rank()].group,
    decreases s.len(),
{
    let key = |p: PanelId| sort_key(slots, p);
    let gs = tab_groups(slots, s);
    if s.len() > 0 {
        let front = s.drop_last();
        let p = s.last();
        let number = slots[p.rank()].group;
        sequences::lemma_increasing_drop_last(s, key);
        lemma_tab_groups(slots, front);
        let before = tab_groups(slots, front);
        assert forall|q: PanelId| #[trigger] front.contains(q) implies sort_key(slots, q)
            < sort_key(slots, p) by {
            let i = choose|i: int| 0 <= i < front.len() && front[i] == q;
            assert(key(s[i]) < key(s[s.len() - 1]));
        }
        assert forall|q: PanelId| #[trigger] s.contains(q) <==> (front.contains(q) || q == p) by {
            if s.contains(q) {
                let i = choose|i: int| 0 <= i < s.len() && s[i] == q;
                if i < front.len() {
                    assert(front[i] == q);
                }
            }
            if front.contains(q) {
                let i = choose|i: int| 0 <= i < front.len() && front[i] == q;
                assert(s[i] == q);
            }
            if q == p {
                assert(s[s.len() - 1] == q);
            }
        }
        if before.len() > 0 {
            assert(front.contains(front.last()));
            lemma_key_group(slots, front.last(), p);
        }
        let last = gs.len() - 1;
        if before.len() > 0 && before.last().0 == number {
            let members = before.last().1;
            lemma_push_increasing(slots, members, p);
            assert(gs == before.update(last, (number, members.push(p))));
        } else {
            lemma_push_increasing(slots, Seq::empty(), p);
            assert(seq![p] == Seq::<PanelId>::empty().push(p));
            assert(gs == before.push((number, seq![p])));
        }
        assert(gs[last].1.contains(p));
        assert forall|q: PanelId| s.contains(q) implies exists|k: int|
            0 <= k < gs.len() && #[trigger] gs[k].1.contains(q) by {
            if q != p {
                let k = choose|k: int| 0 <= k < before.len() && #[trigger] before[k].1.contains(q);
                assert(gs[k].1.contains(q));
            }
        }
        assert forall|k: int| #![trigger gs[k]] 0 <= k < gs.len() implies {
            &&& 0 < gs[k].1.len() <= s.len()
            &&& sequences::increasing(gs[k].1, |p: PanelId| sort_key(slots, p))
            &&& forall|p: PanelId| #[trigger]
                gs[k].1.contains(p) ==> s.contains(p) && slots[p.rank()].group == gs[k].0
        } by {
            if k < before.len() {
                let g = before[k];
            }
        }
        assert forall|i: int, j: int|
            #![trigger gs[i], gs[j]]
            0 <= i < j < gs.len() implies (gs[i].0 as int) < gs[j].0 as int by {
            assert(gs[i].0 == before[i].0);
            let l = before[before.len() - 1];
        }
    }
}

/// [`groups`] holds exactly the open panels of a side, each under its own group
/// number, groups by number and members in tab order.
pub proof fn lemma_groups(slots: Seq<PanelPlacement>, side: DockSide)
    ensures
        is_grouping(slots, side, groups(slots, side)),
        groups(slots, side).len() <= 14,
        forall|k: int|
            0 <= k < groups(slots, side).len() ==> (#[trigger] groups(slots, side)[k]).1.len()
                <= 14,
{
    lemma_panels(slots, side);
    lemma_tab_groups(slots, panels(slots, side));
    let s = panels(slots, side);
    let gs = groups(slots, side);
    assert forall|p: PanelId| on_side(slots, side, p) implies exists|k: int|
        0 <= k < gs.len() && #[trigger] gs[k].1.contains(p) by {
        assert(s.contains(p));
    }
    assert forall|k: int| #![trigger gs[k]] 0 <= k < gs.len() implies forall|p: PanelId| #[trigger]
        gs[k].1.contains(p) ==> on_side(slots, side, p) && slots[p.rank()].group == gs[k].0 by {
        assert forall|p: PanelId| #[trigger] gs[k].1.contains(p) implies on_side(slots, side, p)
            && slots[p.rank()].group == gs[k].0 by {
            assert(s.contains(p));
        }
    }
}

/// Only one stack groups the open panels of a side.
pub proof fn lemma_grouping_unique(
    slots: Seq<PanelPlacement>,
    side: DockSide,
    gs: Seq<(u8, Seq<PanelId>)>,
)
    requires
        is_grouping(slots, side, gs),
    ensures
        gs == groups(slots, side),
{
    lemma_groups(slots, side);
    let hs = groups(slots, side);
    lemma_grouping_within(slots, side, gs, hs);
    lemma_grouping_within(slots, side, hs, gs);
    sequences::lemma_increasing_unique(gs, hs, |g: (u8, Seq<PanelId>)| g.0 as int);
}

proof fn lemma_grouping_within(
    slots: Seq<PanelPlacement>,
    side: DockSide,
    gs: Seq<(u8, Seq<PanelId>)>,
    hs: Seq<(u8, Seq<PanelId>)>,
)
    requires
        is_grouping(slots, side, gs),
        is_grouping(slots, side, hs),
    ensures
        forall|g: (u8, Seq<PanelId>)| #[trigger] gs.contains(g) ==> hs.contains(g),
{
    assert forall|g: (u8, Seq<PanelId>)| #[trigger] gs.contains(g) implies hs.contains(g) by {
        let k = choose|k: int| 0 <= k < gs.len() && gs[k] == g;
        let p = gs[k].1[0];
        assert(gs[k].1.contains(p));
        let j = choose|j: int| 0 <= j < hs.len() && #[trigger] hs[j].1.contains(p);
        assert(hs[j].0 == g.0);
        lemma_members_within(slots, side, gs, k, hs, j);
        lemma_members_within(slots, side, hs, j, gs, k);
        sequences::lemma_increasing_unique(gs[k].1, hs[j].1, |p: PanelId| sort_key(slots, p));
        assert(hs[j] == g);
    }
}

proof fn lemma_members_within(
    slots: Seq<PanelPlacement>,
    side: DockSide,
    gs: Seq<(u8, Seq<PanelId>)>,
    k: int,
    hs: Seq<(u8, Seq<PanelId>)>,
    j: int,
)
    requires
        is_grouping(slots, side, gs),
        is_grouping(slots, side, hs),
        0 <= k < gs.len(),
        0 <= j < hs.len(),
        gs[k].0 == hs[j].0,
    ensures
        forall|p: PanelId| #[trigger] gs[k].1.contains(p) ==> hs[j].1.contains(p),
{
    let number = |g: (u8, Seq<PanelId>)| g.0 as int;
    assert forall|p: PanelId| #[trigger] gs[k].1.contains(p) implies hs[j].1.contains(p) by {
        let i = choose|i: int| 0 <= i < hs.len() && #[trigger] hs[i].1.contains(p);
        assert(hs[i].0 == hs[j].0);
        if i < j {
            assert(number(hs[i]) < number(hs[j]));
        }
        if j < i {
            assert(number(hs[j]) < number(hs[i]));
        }
    }
}

/// The drawing order and the groups depend on nothing but side, order, group
/// and openness.
pub proof fn lemma_same_arrangement(
    a: Seq<PanelPlacement>,
    b: Seq<PanelPlacement>,
    side: DockSide,
)
    requires
        same_arrangement(a, b),
    ensures
        panels(a, side) == panels(b, side),
        groups(a, side) == groups(b, side),
{
    assert forall|p: PanelId| #[trigger] on_side(a, side, p) == on_side(b, side, p) && a[p.rank()].group
        == b[p.rank()].group && a[p.rank()].order == b[p.rank()].order by {
        assert(0 <= p.rank() < 14);
        let slot = a[p.rank()];
    }
    lemma_elsewhere(a, b, side);
}

/// Normalizing changes nothing but which tabs are active.
pub proof fn lemma_normalized_arrangement(slots: Seq<PanelPlacement>, side: DockSide)
    requires
        slots.len() == 14,
    ensures
        same_arrangement(slots, normalized(slots)),
        panels(normalized(slots), side) == panels(slots, side),
        groups(normalized(slots), side) == groups(slots, side),
{
    lemma_same_arrangement(normalized(slots), slots, side);
}

/// A stack of tabs that seats every open panel of a side once, and no other.
pub open spec fn is_stack(
    slots: Seq<PanelPlacement>,
    side: DockSide,
    stack: Seq<(u8, Seq<PanelId>)>,
) -> bool {
    &&& stack.len() <= 14
    &&& forall|k: int| 0 <= k < stack.len() ==> 0 < (#[trigger] stack[k]).1.len() <= 14
    &&& forall|k: int, t: int, p: PanelId| #[trigger]
        sits(stack, k, t, p) ==> on_side(slots, side, p)
    &&& forall|p: PanelId| on_side(slots, side, p) ==> exists|k: int, t: int| sits(stack, k, t, p)
    &&& forall|k: int, t: int, j: int, u: int, p: PanelId| #[trigger]
        sits(stack, k, t, p) && #[trigger] sits(stack, j, u, p) ==> k == j && t == u
}

/// The groups of a side are such a stack.
pub proof fn lemma_groups_stack(slots: Seq<PanelPlacement>, side: DockSide)
    ensures
        is_stack(slots, side, groups(slots, side)),
{
    lemma_groups(slots, side);
    let gs = groups(slots, side);
    let number = |g: (u8, Seq<PanelId>)| g.0 as int;
    let key = |p: PanelId| sort_key(slots, p);
    assert forall|k: int, t: int, p: PanelId| #[trigger] sits(gs, k, t, p) implies on_side(
        slots,
        side,
        p,
    ) by {
        assert(gs[k].1.contains(p));
    }
    assert forall|p: PanelId| on_side(slots, side, p) implies exists|k: int, t: int|
        sits(gs, k, t, p) by {
        let k = choose|k: int| 0 <= k < gs.len() && #[trigger] gs[k].1.contains(p);
        let t = choose|t: int| 0 <= t < gs[k].1.len() && gs[k].1[t] == p;
        assert(sits(gs, k, t, p));
    }
    assert forall|k: int, t: int, j: int, u: int, p: PanelId| #[trigger]
        sits(gs, k, t, p) && #[trigger] sits(gs, j, u, p) implies k == j && t == u by {
        assert(gs[k].1.contains(p));
        assert(gs[j].1.contains(p));
        if k < j {
            assert(number(gs[k]) < number(gs[j]));
        }
        if j < k {
            assert(number(gs[j]) < number(gs[k]));
        }
        let m = gs[k].1;
        if t < u {
            assert(key(m[t]) < key(m[u]));
        }
        if u < t {
            assert(key(m[u]) < key(m[t]));
        }
    }
}

/// Where the item that ends up at `i` was before a move.
pub open spec fn source(from: int, to: int, i: int) -> int {
    if i == to {
        from
    } else if from <= i < to {
        i + 1
    } else if to < i <= from {
        i - 1
    } else {
        i
    }
}

/// A move carries each item as [`source`] says, and moving back undoes it.
pub proof fn lemma_moved<T>(s: Seq<T>, from: int, to: int)
    requires
        0 <= from < s.len(),
        0 <= to < s.len(),
    ensures
        moved(s, from, to).len() == s.len(),
        forall|i: int|
            0 <= i < s.len() ==> #[trigger] moved(s, from, to)[i] == s[source(from, to, i)],
        forall|i: int|
            0 <= i < s.len() ==> 0 <= #[trigger] source(from, to, i) < s.len() && source(
                to,
                from,
                source(from, to, i),
            ) == i,
        moved(moved(s, from, to), to, from) == s,
{
    let m = moved(s, from, to);
    assert(m.len() == s.len());
    assert forall|i: int| 0 <= i < s.len() implies #[trigger] m[i] == s[source(from, to, i)] by {}
    let b = moved(m, to, from);
    assert(b =~= s);
}

/// Moving a group within the stack leaves it a stack of the same panels.
pub proof fn lemma_moved_stack(
    slots: Seq<PanelPlacement>,
    side: DockSide,
    stack: Seq<(u8, Seq<PanelId>)>,
    from: int,
    to: int,
)
    requires
        is_stack(slots, side, stack),
        0 <= from < stack.len(),
        0 <= to < stack.len(),
    ensures
        is_stack(slots, side, moved(stack, from, to)),
{
    lemma_moved(stack, from, to);
    lemma_moved(stack, to, from);
    let m = moved(stack, from, to);
    assert forall|k: int| 0 <= k < m.len() implies 0 < (#[trigger] m[k]).1.len() <= 14 by {
        assert(m[k] == stack[source(from, to, k)]);
    }
    assert forall|k: int, t: int, p: PanelId| #[trigger] sits(m, k, t, p) implies sits(
        stack,
        source(from, to, k),
        t,
        p,
    ) by {}
    assert forall|p: PanelId| on_side(slots, side, p) implies exists|k: int, t: int|
        sits(m, k, t, p) by {
        let (k, t) = choose|k: int, t: int| sits(stack, k, t, p);
        let j = source(to, from, k);
        assert(source(from, to, j) == k);
        assert(sits(m, j, t, p));
    }
    assert forall|k: int, t: int, j: int, u: int, p: PanelId| #[trigger]
        sits(m, k, t, p) && #[trigger] sits(m, j, u, p) implies k == j && t == u by {
        assert(sits(stack, source(from, to, k), t, p));
        assert(sits(stack, source(from, to, j), u, p));
    }
}

/// A seated panel has the seat it sits in.
pub proof fn lemma_seat(
    slots: Seq<PanelPlacement>,
    side: DockSide,
    stack: Seq<(u8, Seq<PanelId>)>,
    k: int,
    t: int,
    p: PanelId,
)
    requires
        is_stack(slots, side, stack),
        sits(stack, k, t, p),
    ensures
        seat(stack, p) == Some((k, t)),
{
    let s = choose|seat: (int, int)| sits(stack, seat.0, seat.1, p);
    assert(sits(stack, (k, t).0, (k, t).1, p));
    assert(sits(stack, s.0, s.1, p));
}

/// Writing a stack back makes it, under dense numbers, the groups of its side,
/// and leaves the other sides as they were.
pub proof fn lemma_renumbered(
    slots: Seq<PanelPlacement>,
    side: DockSide,
    stack: Seq<(u8, Seq<PanelId>)>,
)
    requires
        slots.len() == 14,
        is_stack(slots, side, stack),
    ensures
        groups(renumbered(slots, stack), side) == dense(stack),
        forall|other: DockSide|
            other != side ==> #[trigger] panels(renumbered(slots, stack), other) == panels(
                slots,
                other,
            ),
        forall|other: DockSide|
            other != side ==> #[trigger] groups(renumbered(slots, stack), other) == groups(
                slots,
                other,
            ),
{
    let new = renumbered(slots, stack);
    let gs = dense(stack);
    lemma_ranks();
    assert forall|k: int, t: int, p: PanelId| #[trigger] sits(stack, k, t, p) implies {
        &&& new[p.rank()].group == k
        &&& new[p.rank()].order == t
        &&& on_side(new, side, p)
        &&& sort_key(new, p) == (k * 256 + t) * 14 + p.rank()
    } by {
        lemma_seat(slots, side, stack, k, t, p);
        let tabs = stack[k];
        assert(on_side(slots, side, p));
    }
    assert forall|p: PanelId, other: DockSide| #[trigger] on_side(new, other, p) == on_side(
        slots,
        other,
        p,
    ) by {}
    let number = |g: (u8, Seq<PanelId>)| g.0 as int;
    let key = |p: PanelId| sort_key(new, p);
    assert(sequences::increasing(gs, number));
    assert forall|k: int| #![trigger gs[k]] 0 <= k < gs.len() implies {
        &&& gs[k].1.len() > 0
        &&& sequences::increasing(gs[k].1, key)
        &&& forall|p: PanelId| #[trigger]
            gs[k].1.contains(p) ==> on_side(new, side, p) && new[p.rank()].group == gs[k].0
    } by {
        let tabs = stack[k].1;
        assert(gs[k] == (k as u8, tabs));
        assert forall|t: int, u: int| #![trigger tabs[t], tabs[u]] 0 <= t < u < tabs.len() implies key(
            tabs[t],
        ) < key(tabs[u]) by {
            assert(sits(stack, k, t, tabs[t]));
            assert(sits(stack, k, u, tabs[u]));
        }
        assert forall|p: PanelId| #[trigger] tabs.contains(p) implies on_side(new, side, p)
            && new[p.rank()].group == gs[k].0 by {
            let t = choose|t: int| 0 <= t < tabs.len() && tabs[t] == p;
            assert(sits(stack, k, t, p));
        }
    }
    assert forall|p: PanelId| on_side(new, side, p) implies exists|k: int|
        0 <= k < gs.len() && #[trigger] gs[k].1.contains(p) by {
        assert(on_side(slots, side, p));
        let (k, t) = choose|k: int, t: int| sits(stack, k, t, p);
        assert(stack[k].1[t] == p);
        assert(gs[k].1.contains(p));
    }
    lemma_grouping_unique(new, side, gs);
    assert forall|other: DockSide| other != side implies panels(new, other) == panels(slots, other)
        && groups(new, other) == groups(slots, other) by {
        lemma_elsewhere(slots, new, other);
    }
}

/// Placements that agree on the open panels of a side arrange that side alike.
pub proof fn lemma_elsewhere(
    a: Seq<PanelPlacement>,
    b: Seq<PanelPlacement>,
    side: DockSide,
)
    requires
        forall|p: PanelId| #[trigger] on_side(a, side, p) == on_side(b, side, p),
        forall|p: PanelId| #[trigger]
            on_side(a, side, p) ==> a[p.rank()].group == b[p.rank()].group && a[p.rank()].order
                == b[p.rank()].order,
    ensures
        panels(a, side) == panels(b, side),
        groups(a, side) == groups(b, side),
{
    lemma_panels(a, side);
    let s = panels(a, side);
    let key_a = |p: PanelId| sort_key(a, p);
    let key_b = |p: PanelId| sort_key(b, p);
    assert(sequences::increasing(s, key_b)) by {
        assert forall|i: int, j: int|
            #![trigger s[i], s[j]]
            0 <= i < j < s.len() implies key_b(s[i]) < key_b(s[j]) by {
            assert(key_a(s[i]) < key_a(s[j]));
            assert(s.contains(s[i]));
            assert(s.contains(s[j]));
            assert(on_side(a, side, s[i]));
            assert(on_side(a, side, s[j]));
        }
    }
    assert forall|p: PanelId| #[trigger] s.contains(p) <==> on_side(b, side, p) by {
        assert(on_side(a, side, p) == on_side(b, side, p));
    }
    lemma_listing_unique(b, side, s);
    lemma_groups(a, side);
    let gs = groups(a, side);
    assert forall|k: int| #![trigger gs[k]] 0 <= k < gs.len() implies {
        &&& gs[k].1.len() > 0
        &&& sequences::increasing(gs[k].1, key_b)
        &&& forall|p: PanelId| #[trigger]
            gs[k].1.contains(p) ==> on_side(b, side, p) && b[p.rank()].group == gs[k].0
    } by {
        let m = gs[k].1;
        assert forall|i: int, j: int|
            #![trigger m[i], m[j]]
            0 <= i < j < m.len() implies key_b(m[i]) < key_b(m[j]) by {
            assert(key_a(m[i]) < key_a(m[j]));
            assert(m.contains(m[i]));
            assert(m.contains(m[j]));
            assert(on_side(a, side, m[i]));
            assert(on_side(a, side, m[j]));
        }
        assert forall|p: PanelId| #[trigger] m.contains(p) implies on_side(b, side, p)
            && b[p.rank()].group == gs[k].0 by {
            assert(on_side(a, side, p));
        }
    }
    assert forall|p: PanelId| on_side(b, side, p) implies exists|k: int|
        0 <= k < gs.len() && #[trigger] gs[k].1.contains(p) by {
        assert(on_side(a, side, p));
    }
    lemma_grouping_unique(b, side, gs);
}

/// The placements once the seats before tab `t` of group `k` are written back.
pub open spec fn written(
    slots: Seq<PanelPlacement>,
    stack: Seq<(u8, Seq<PanelId>)>,
    k: int,
    t: int,
) -> Seq<PanelPlacement> {
    Seq::new(
        14,
        |i: int|
            match seat(stack, PanelId::at(i)) {
                Some((j, u)) => if j < k || (j == k && u < t) {
                    PanelPlacement { group: j as u8, order: u as u8, ..slots[i] }
                } else {
                    slots[i]
                },
                None => slots[i],
            },
    )
}

/// Writing seats back one at a time, in order, ends in [`renumbered`].
pub proof fn lemma_written(
    slots: Seq<PanelPlacement>,
    side: DockSide,
    stack: Seq<(u8, Seq<PanelId>)>,
)
    requires
        slots.len() == 14,
        is_stack(slots, side, stack),
    ensures
        written(slots, stack, 0, 0) == slots,
        written(slots, stack, stack.len() as int, 0) == renumbered(slots, stack),
        forall|k: int|
            0 <= k < stack.len() ==> #[trigger] written(slots, stack, k + 1, 0) == written(
                slots,
                stack,
                k,
                stack[k].1.len() as int,
            ),
{
    assert forall|p: PanelId| match #[trigger] seat(stack, p) {
        Some((j, u)) => sits(stack, j, u, p),
        None => true,
    } by {
        if exists|k: int, t: int| sits(stack, k, t, p) {
            let (k, t) = choose|k: int, t: int| sits(stack, k, t, p);
            lemma_seat(slots, side, stack, k, t, p);
        }
    }
    assert(written(slots, stack, 0, 0) =~= slots);
    assert(written(slots, stack, stack.len() as int, 0) =~= renumbered(slots, stack));
    assert forall|k: int| 0 <= k < stack.len() implies #[trigger] written(slots, stack, k + 1, 0)
        == written(slots, stack, k, stack[k].1.len() as int) by {
        assert(written(slots, stack, k + 1, 0) =~= written(
            slots,
            stack,
            k,
            stack[k].1.len() as int,
        ));
    }
}

/// One seat written back.
pub proof fn lemma_written_step(
    slots: Seq<PanelPlacement>,
    side: DockSide,
    stack: Seq<(u8, Seq<PanelId>)>,
    k: int,
    t: int,
)
    requires
        slots.len() == 14,
        is_stack(slots, side, stack),
        0 <= k < stack.len(),
        0 <= t < stack[k].1.len(),
    ensures
        written(slots, stack, k, t + 1) == written(slots, stack, k, t).update(
            stack[k].1[t].rank(),
            PanelPlacement {
                group: k as u8,
                order: t as u8,
                ..written(slots, stack, k, t)[stack[k].1[t].rank()]
            },
        ),
{
    let p = stack[k].1[t];
    lemma_ranks();
    lemma_seat(slots, side, stack, k, t, p);
    let before = written(slots, stack, k, t);
    let after = written(slots, stack, k, t + 1);
    assert forall|i: int| 0 <= i < 14 && i != p.rank() implies #[trigger] after[i] == before[i] by {
        let q = PanelId::at(i);
        match seat(stack, q) {
            Some((j, u)) => {
                if j == k && u == t {
                    if exists|a: int, b: int| sits(stack, a, b, q) {
                        let (a, b) = choose|a: int, b: int| sits(stack, a, b, q);
                        lemma_seat(slots, side, stack, a, b, q);
                    }
                    assert(q == p);
                }
            },
            None => {},
        }
    }
    assert(before[p.rank()] == slots[p.rank()]);
    assert(after =~= before.update(
        p.rank(),
        PanelPlacement { group: k as u8, order: t as u8, ..before[p.rank()] },
    ));
}

/// The tabs of a stack, one group after the other.
pub open spec fn flat(stack: Seq<(u8, Seq<PanelId>)>) -> Seq<PanelId>
    decreases stack.len(),
{
    if stack.len() == 0 {
        Seq::empty()
    } else {
        flat(stack.drop_last()) + stack.last().1
    }
}

proof fn lemma_flat_groups(slots: Seq<PanelPlacement>, s: Seq<PanelId>)
    ensures
        flat(tab_groups(slots, s)) == s,
    decreases s.len(),
{
    let gs = tab_groups(slots, s);
    if s.len() > 0 {
        let front = s.drop_last();
        lemma_flat_groups(slots, front);
        let before = tab_groups(slots, front);
        assert(front.push(s.last()) =~= s);
        let number = slots[s.last().rank()].group;
        if before.len() > 0 && before.last().0 == number {
            assert(gs.drop_last() =~= before.drop_last());
            assert(flat(gs) =~= flat(before).push(s.last()));
        } else {
            assert(gs.drop_last() =~= before);
            assert(flat(gs) =~= flat(before).push(s.last()));
        }
    }
}

proof fn lemma_flat_tabs(a: Seq<(u8, Seq<PanelId>)>, b: Seq<(u8, Seq<PanelId>)>)
    requires
        a.len() == b.len(),
        forall|k: int| 0 <= k < a.len() ==> (#[trigger] a[k]).1 == b[k].1,
    ensures
        flat(a) == flat(b),
    decreases a.len(),
{
    if a.len() > 0 {
        assert forall|k: int| 0 <= k < a.drop_last().len() implies (#[trigger] a.drop_last()[k]).1
            == b.drop_last()[k].1 by {
            assert(a[k].1 == b[k].1);
        }
        lemma_flat_tabs(a.drop_last(), b.drop_last());
        assert(a[a.len() - 1].1 == b[a.len() - 1].1);
    }
}

/// Sides whose stacks hold the same tabs in the same order draw alike.
pub proof fn lemma_same_tabs_same_panels(
    a: Seq<PanelPlacement>,
    b: Seq<PanelPlacement>,
    side: DockSide,
)
    requires
        groups(a, side).len() == groups(b, side).len(),
        forall|k: int|
            0 <= k < groups(a, side).len() ==> (#[trigger] groups(a, side)[k]).1 == groups(
                b,
                side,
            )[k].1,
    ensures
        panels(a, side) == panels(b, side),
{
    lemma_flat_groups(a, panels(a, side));
    lemma_flat_groups(b, panels(b, side));
    lemma_flat_tabs(groups(a, side), groups(b, side));
}

/// A group with an open member shows one of its open members, and an active
/// one where it has one.
pub proof fn lemma_shown(
    slots: Seq<PanelPlacement>,
    side: DockSide,
    group: u8,
    member: PanelId,
)
    requires
        on_side(slots, side, member),
        slots[member.rank()].group == group,
    ensures
        shown(slots, side, group) matches Some(p) && on_side(slots, side, p)
            && slots[p.rank()].group == group && (slots[member.rank()].active
            ==> slots[p.rank()].active),
{
    let s = panels(slots, side);
    lemma_panels(slots, side);
    sequences::lemma_first_where(s, tab_of(slots, group, true));
    sequences::lemma_first_where(s, tab_of(slots, group, false));
    assert(s.contains(member));
    let i = choose|i: int| 0 <= i < s.len() && s[i] == member;
    assert(tab_of(slots, group, false)(s[i]));
    if slots[member.rank()].active {
        assert(tab_of(slots, group, true)(s[i]));
    }
    let p = shown(slots, side, group)->0;
    let k = choose|k: int| 0 <= k < s.len() && #[trigger] s[k] == p;
    assert(s.contains(p));
}

/// Normalizing leaves every group showing what it showed.
pub proof fn lemma_shown_settles(
    slots: Seq<PanelPlacement>,
    side: DockSide,
    group: u8,
    member: PanelId,
)
    requires
        slots.len() == 14,
        on_side(slots, side, member),
        slots[member.rank()].group == group,
    ensures
        shown(normalized(slots), side, group) == shown(slots, side, group),
{
    lemma_ranks();
    lemma_shown(slots, side, group, member);
    let p = shown(slots, side, group)->0;
    let new = normalized(slots);
    lemma_normalized_arrangement(slots, side);
    let s = panels(slots, side);
    lemma_panels(slots, side);
    assert(new[p.rank()].active);
    assert forall|q: PanelId| #[trigger] s.contains(q) && tab_of(new, group, true)(q) implies q
        == p by {
        assert(on_side(slots, side, q));
        assert(new[q.rank()].active);
        assert(slots[q.rank()].group == group);
    }
    assert(on_side(slots, side, p));
    assert(on_side(new, side, p));
    assert(new[p.rank()].group == group);
    lemma_shown(new, side, group, p);
    let r = shown(new, side, group)->0;
    assert(on_side(new, side, r));
    assert(on_side(slots, side, r));
    assert(s.contains(r));
    assert(tab_of(new, group, true)(r));
}

/// A group shows its one active tab.
pub proof fn lemma_sole_tab(slots: Seq<PanelPlacement>, panel: PanelId)
    requires
        sole_tab(slots, panel),
    ensures
        shown(slots, slots[panel.rank()].side, slots[panel.rank()].group) == Some(panel),
{
    let p = slots[panel.rank()];
    lemma_shown(slots, p.side, p.group, panel);
    let q = shown(slots, p.side, p.group)->0;
    assert(on_side(slots, p.side, q));
    assert(alongside(slots, panel, q));
}

/// Normalizing leaves one tab showing in every group.
pub proof fn lemma_normalized_shows_one(slots: Seq<PanelPlacement>)
    requires
        slots.len() == 14,
    ensures
        one_tab_shows(normalized(slots)),
{
    lemma_ranks();
    let new = normalized(slots);
    assert forall|p: PanelId| #![trigger p.rank()] new[p.rank()].open implies exists|q: PanelId|
        #[trigger]
        alongside(new, p, q) && sole_tab(new, q) by {
        let slot = slots[p.rank()];
        lemma_shown(slots, slot.side, slot.group, p);
        let q = shown(slots, slot.side, slot.group)->0;
        assert(on_side(slots, slot.side, q));
        assert(new[q.rank()].active);
        assert(alongside(new, p, q));
        assert forall|r: PanelId| #[trigger] alongside(new, q, r) && new[r.rank()].active implies r
            == q by {
            assert(slots[r.rank()].side == slot.side && slots[r.rank()].group == slot.group);
        }
        assert(sole_tab(new, q));
    }
}

/// Normalizing leaves a panel as it is where its group has one active tab, or
/// where it is closed and not active.
pub proof fn lemma_normalized_keeps(slots: Seq<PanelPlacement>, panel: PanelId, tab: PanelId)
    requires
        slots.len() == 14,
        slots[panel.rank()].active ==> slots[panel.rank()].open,
        slots[panel.rank()].open ==> alongside(slots, panel, tab) && sole_tab(slots, tab),
    ensures
        normalized(slots)[panel.rank()] == slots[panel.rank()],
{
    lemma_ranks();
    if slots[panel.rank()].open {
        lemma_sole_tab(slots, tab);
        if slots[panel.rank()].active {
            assert(alongside(slots, tab, panel));
        }
    }
}

} // verus!

//! Where a panel lands: the tabs of one group, the place behind the last of
//! them, and orders written along a side's drawing order.

use crate::arrangement;
use crate::dock::{DockSide, PanelId, PanelPlacement};
use crate::sequences;
use vstd::prelude::*;

verus! {

/// The panels of one group number.
pub open spec fn in_group(slots: Seq<PanelPlacement>, group: u8) -> spec_fn(PanelId) -> bool {
    |p: PanelId| slots[p.rank()].group == group
}

/// The open panels of one group of a side, in tab order.
pub open spec fn tabs(slots: Seq<PanelPlacement>, side: DockSide, group: u8) -> Seq<PanelId> {
    arrangement::panels(slots, side).filter(in_group(slots, group))
}

/// The panels but one.
pub open spec fn other_than(panel: PanelId) -> spec_fn(PanelId) -> bool {
    |p: PanelId| p != panel
}

/// The sequence without one panel.
pub open spec fn without(s: Seq<PanelId>, panel: PanelId) -> Seq<PanelId> {
    s.filter(other_than(panel))
}

/// One past the order of every open tab of a group, among the first `n` panels.
pub open spec fn next_tab_among(
    slots: Seq<PanelPlacement>,
    side: DockSide,
    group: u8,
    n: int,
) -> int
    decreases n,
{
    if n <= 0 {
        0
    } else {
        let before = next_tab_among(slots, side, group, n - 1);
        let slot = slots[n - 1];
        if slot.open && slot.side == side && slot.group == group && slot.order + 1 > before {
            slot.order + 1
        } else {
            before
        }
    }
}

/// The order behind every open tab of a group.
pub open spec fn next_tab(slots: Seq<PanelPlacement>, side: DockSide, group: u8) -> int {
    next_tab_among(slots, side, group, 14)
}

/// The placements after the first `n` panels of a list got their places in it
/// as their orders.
pub open spec fn lined_up(
    slots: Seq<PanelPlacement>,
    list: Seq<PanelId>,
    n: int,
) -> Seq<PanelPlacement>
    decreases n,
{
    if n <= 0 {
        slots
    } else {
        let before = lined_up(slots, list, n - 1);
        let rank = list[n - 1].rank();
        before.update(rank, PanelPlacement { order: (n - 1) as u8, ..before[rank] })
    }
}

/// The placements with room for one more tab behind a group: as they are, or,
/// where the next order would be the one that marks an unplaced panel, with the
/// side's orders written anew along its drawing order.
pub open spec fn roomy(
    slots: Seq<PanelPlacement>,
    side: DockSide,
    group: u8,
) -> Seq<PanelPlacement> {
    if next_tab(slots, side, group) < 255 {
        slots
    } else {
        lined_up(
            slots,
            arrangement::panels(slots, side),
            arrangement::panels(slots, side).len() as int,
        )
    }
}

/// The group of the panel that a side draws last; the first group where the
/// side is empty.
pub open spec fn last_group(slots: Seq<PanelPlacement>, side: DockSide) -> u8 {
    let listing = arrangement::panels(slots, side);
    if listing.len() == 0 {
        0
    } else {
        slots[listing.last().rank()].group
    }
}

/// The group of a panel at the end of a side: its own number where no group of
/// the side is beyond it, else a group to itself behind the last. Only where no
/// number is left behind the last does it join that group.
pub open spec fn end_group(slots: Seq<PanelPlacement>, side: DockSide, panel: PanelId) -> u8 {
    let own = slots[panel.rank()].group;
    let last = last_group(slots, side);
    if own >= last {
        own
    } else if last < 255 {
        (last + 1) as u8
    } else {
        last
    }
}

/// The placements with a panel open at the end of a side.
pub open spec fn appended(
    slots: Seq<PanelPlacement>,
    side: DockSide,
    panel: PanelId,
) -> Seq<PanelPlacement> {
    let group = end_group(slots, side, panel);
    let base = roomy(slots, side, group);
    base.update(
        panel.rank(),
        PanelPlacement {
            side,
            group,
            order: next_tab(base, side, group) as u8,
            open: true,
            ..base[panel.rank()]
        },
    )
}

/// A panel's place in its side's drawing order moved to `to`: it joins the
/// group of the panel that stood there, and the side's orders are written anew.
pub open spec fn shifted(
    slots: Seq<PanelPlacement>,
    side: DockSide,
    from: int,
    to: int,
) -> Seq<PanelPlacement> {
    let listing = arrangement::panels(slots, side);
    let rank = listing[from].rank();
    let group = slots[listing[to].rank()].group;
    lined_up(
        slots.update(rank, PanelPlacement { group, ..slots[rank] }),
        arrangement::moved(listing, from, to),
        listing.len() as int,
    )
}

/// Filtering keeps the drawing order and exactly the panels that pass.
pub proof fn lemma_filtered(
    slots: Seq<PanelPlacement>,
    s: Seq<PanelId>,
    pred: spec_fn(PanelId) -> bool,
)
    requires
        sequences::increasing(s, |p: PanelId| arrangement::sort_key(slots, p)),
    ensures
        sequences::increasing(s.filter(pred), |p: PanelId| arrangement::sort_key(slots, p)),
        forall|p: PanelId| #[trigger] s.filter(pred).contains(p) <==> s.contains(p) && pred(p),
    decreases s.len(),
{
    reveal(Seq::filter);
    let key = |p: PanelId| arrangement::sort_key(slots, p);
    if s.len() > 0 {
        let front = s.drop_last();
        let last = s.last();
        sequences::lemma_increasing_drop_last(s, key);
        lemma_filtered(slots, front, pred);
        let kept = front.filter(pred);
        let all = s.filter(pred);
        assert forall|i: int| 0 <= i < kept.len() implies key(#[trigger] kept[i]) < key(last) by {
            assert(kept.contains(kept[i]));
            let j = choose|j: int| 0 <= j < front.len() && front[j] == kept[i];
            assert(key(s[j]) < key(s[s.len() - 1]));
        }
        assert forall|i: int, j: int|
            #![trigger all[i], all[j]]
            0 <= i < j < all.len() implies key(all[i]) < key(all[j]) by {
            assert(all[i] == kept[i]);
            if j < kept.len() {
                assert(all[j] == kept[j]);
            }
        }
        assert forall|p: PanelId| #[trigger] all.contains(p) <==> s.contains(p) && pred(p) by {
            if s.contains(p) && pred(p) {
                let i = choose|i: int| 0 <= i < s.len() && s[i] == p;
                if i < front.len() {
                    assert(front[i] == p);
                    assert(kept.contains(p));
                    let j = choose|j: int| 0 <= j < kept.len() && kept[j] == p;
                    assert(all[j] == p);
                } else {
                    assert(all[all.len() - 1] == p);
                }
            }
            if all.contains(p) {
                let i = choose|i: int| 0 <= i < all.len() && all[i] == p;
                if i < kept.len() {
                    assert(kept[i] == p);
                    assert(kept.contains(p));
                    let j = choose|j: int| 0 <= j < front.len() && front[j] == p;
                    assert(s[j] == p);
                } else {
                    assert(s[s.len() - 1] == p);
                }
            }
        }
    }
}

/// [`tabs`] lists exactly the open panels of a group, in tab order.
pub proof fn lemma_tabs(slots: Seq<PanelPlacement>, side: DockSide, group: u8)
    ensures
        sequences::increasing(
            tabs(slots, side, group),
            |p: PanelId| arrangement::sort_key(slots, p),
        ),
        forall|p: PanelId| #[trigger]
            tabs(slots, side, group).contains(p) <==> arrangement::on_side(slots, side, p)
                && slots[p.rank()].group == group,
{
    let listing = arrangement::panels(slots, side);
    arrangement::lemma_panels(slots, side);
    lemma_filtered(slots, listing, in_group(slots, group));
    assert forall|p: PanelId| #[trigger]
        tabs(slots, side, group).contains(p) <==> arrangement::on_side(slots, side, p)
            && slots[p.rank()].group == group by {
        assert(listing.contains(p) <==> arrangement::on_side(slots, side, p));
    }
}

/// Every open tab of a group has an order below [`next_tab`].
pub proof fn lemma_next_tab(slots: Seq<PanelPlacement>, side: DockSide, group: u8, n: int)
    requires
        0 <= n <= 14,
    ensures
        0 <= next_tab_among(slots, side, group, n) <= 256,
        forall|i: int|
            #![trigger slots[i]]
            0 <= i < n && slots[i].open && slots[i].side == side && slots[i].group == group
                ==> slots[i].order < next_tab_among(slots, side, group, n),
        forall|bound: int|
            0 <= bound && (forall|i: int|
                #![trigger slots[i]]
                0 <= i < n && slots[i].open && slots[i].side == side && slots[i].group == group
                    ==> slots[i].order < bound) ==> #[trigger] next_tab_at_most(
                slots,
                side,
                group,
                n,
                bound,
            ),
    decreases n,
{
    if n > 0 {
        lemma_next_tab(slots, side, group, n - 1);
        assert forall|bound: int|
            0 <= bound && (forall|i: int|
                #![trigger slots[i]]
                0 <= i < n && slots[i].open && slots[i].side == side && slots[i].group == group
                    ==> slots[i].order < bound) implies #[trigger] next_tab_at_most(
            slots,
            side,
            group,
            n,
            bound,
        ) by {
            assert(next_tab_at_most(slots, side, group, n - 1, bound));
            let slot = slots[n - 1];
        }
    }
}

/// No order up to `bound` is missed: the next tab comes no later.
pub open spec fn next_tab_at_most(
    slots: Seq<PanelPlacement>,
    side: DockSide,
    group: u8,
    n: int,
    bound: int,
) -> bool {
    next_tab_among(slots, side, group, n) <= bound
}

/// The first `n` panels of a list without repeats have their places as their
/// orders, and nothing else has changed.
pub proof fn lemma_lined_up(slots: Seq<PanelPlacement>, list: Seq<PanelId>, n: int)
    requires
        slots.len() == 14,
        list.no_duplicates(),
        0 <= n <= list.len() <= 14,
    ensures
        lined_up(slots, list, n).len() == 14,
        forall|k: int|
            0 <= k < n ==> lined_up(slots, list, n)[(#[trigger] list[k]).rank()] == (
            PanelPlacement { order: k as u8, ..slots[list[k].rank()] }),
        forall|p: PanelId|
            (forall|k: int| 0 <= k < n ==> #[trigger] list[k] != p) ==> #[trigger] lined_up(
                slots,
                list,
                n,
            )[p.rank()] == slots[p.rank()],
    decreases n,
{
    arrangement::lemma_ranks();
    if n > 0 {
        lemma_lined_up(slots, list, n - 1);
        let before = lined_up(slots, list, n - 1);
        let after = lined_up(slots, list, n);
        let last = list[n - 1];
        assert forall|k: int| 0 <= k < n implies after[(#[trigger] list[k]).rank()] == (
        PanelPlacement { order: k as u8, ..slots[list[k].rank()] }) by {
            if k < n - 1 {
                assert(list[k] != last);
                assert(PanelId::at(list[k].rank()) != PanelId::at(last.rank()));
            } else {
                assert(before[last.rank()] == slots[last.rank()]);
            }
        }
        assert forall|p: PanelId|
            (forall|k: int| 0 <= k < n ==> #[trigger] list[k] != p) implies #[trigger] after[p.rank()]
            == slots[p.rank()] by {
            assert(list[n - 1] != p);
            assert(PanelId::at(p.rank()) != PanelId::at(last.rank()));
            assert(before[p.rank()] == slots[p.rank()]);
        }
    }
}

/// A list without repeats of a side's open panels, along which the group
/// numbers never fall, is the side's drawing order once its places are written
/// as orders. Group numbers, sides and openness stay, and so does every other
/// side.
pub proof fn lemma_lined_up_draws(
    slots: Seq<PanelPlacement>,
    side: DockSide,
    list: Seq<PanelId>,
)
    requires
        slots.len() == 14,
        list.no_duplicates(),
        list.len() <= 14,
        forall|p: PanelId| #[trigger] list.contains(p) <==> arrangement::on_side(slots, side, p),
        forall|i: int, j: int|
            #![trigger list[i], list[j]]
            0 <= i < j < list.len() ==> slots[list[i].rank()].group <= slots[list[j].rank()].group,
    ensures
        lined_up(slots, list, list.len() as int).len() == 14,
        arrangement::panels(lined_up(slots, list, list.len() as int), side) == list,
        forall|p: PanelId|
            #![trigger p.rank()]
            lined_up(slots, list, list.len() as int)[p.rank()] == (PanelPlacement {
                order: lined_up(slots, list, list.len() as int)[p.rank()].order,
                ..slots[p.rank()]
            }),
        forall|p: PanelId|
            #![trigger p.rank()]
            arrangement::on_side(slots, side, p) ==> lined_up(
                slots,
                list,
                list.len() as int,
            )[p.rank()].order < 14,
        forall|p: PanelId|
            #![trigger p.rank()]
            !arrangement::on_side(slots, side, p) ==> lined_up(
                slots,
                list,
                list.len() as int,
            )[p.rank()] == slots[p.rank()],
        forall|other: DockSide|
            other != side ==> #[trigger] arrangement::panels(
                lined_up(slots, list, list.len() as int),
                other,
            ) == arrangement::panels(slots, other),
{
    arrangement::lemma_ranks();
    let n = list.len() as int;
    let new = lined_up(slots, list, n);
    lemma_lined_up(slots, list, n);
    assert forall|p: PanelId| #![trigger p.rank()] {
        &&& new[p.rank()] == (PanelPlacement { order: new[p.rank()].order, ..slots[p.rank()] })
        &&& arrangement::on_side(slots, side, p) ==> new[p.rank()].order < 14
        &&& !arrangement::on_side(slots, side, p) ==> new[p.rank()] == slots[p.rank()]
    } by {
        if arrangement::on_side(slots, side, p) {
            assert(list.contains(p));
            let k = choose|k: int| 0 <= k < list.len() && list[k] == p;
            assert(new[list[k].rank()].order == k as u8);
        } else {
            assert(!list.contains(p));
        }
    }
    let key = |p: PanelId| arrangement::sort_key(new, p);
    assert forall|i: int, j: int|
        #![trigger list[i], list[j]]
        0 <= i < j < list.len() implies key(list[i]) < key(list[j]) by {
        let a = new[list[i].rank()];
        let b = new[list[j].rank()];
        assert(a.order == i && b.order == j);
        assert(a.group <= b.group);
        assert(0 <= list[i].rank() < 14);
        assert(0 <= list[j].rank() < 14);
    }
    assert forall|p: PanelId, s: DockSide| #[trigger] arrangement::on_side(new, s, p)
        == arrangement::on_side(slots, s, p) by {
        let r = p.rank();
    }
    assert forall|p: PanelId| #[trigger] list.contains(p) <==> arrangement::on_side(
        new,
        side,
        p,
    ) by {
        assert(arrangement::on_side(new, side, p) == arrangement::on_side(slots, side, p));
    }
    arrangement::lemma_listing_unique(new, side, list);
    assert forall|other: DockSide| other != side implies #[trigger] arrangement::panels(new, other)
        == arrangement::panels(slots, other) by {
        assert forall|p: PanelId| #[trigger] arrangement::on_side(new, other, p)
            == arrangement::on_side(slots, other, p) by {}
        assert forall|p: PanelId| #[trigger] arrangement::on_side(new, other, p) implies {
            &&& new[p.rank()].group == slots[p.rank()].group
            &&& new[p.rank()].order == slots[p.rank()].order
        } by {
            assert(!arrangement::on_side(slots, side, p));
            let r = p.rank();
        }
        arrangement::lemma_elsewhere(new, slots, other);
    }
}

/// A drawing order repeats no panel, and along it group numbers never fall.
pub proof fn lemma_listing(slots: Seq<PanelPlacement>, side: DockSide)
    ensures
        arrangement::panels(slots, side).no_duplicates(),
        arrangement::panels(slots, side).len() <= 14,
        forall|i: int, j: int|
            #![trigger arrangement::panels(slots, side)[i], arrangement::panels(slots, side)[j]]
            0 <= i < j < arrangement::panels(slots, side).len()
                ==> slots[arrangement::panels(slots, side)[i].rank()].group
                <= slots[arrangement::panels(slots, side)[j].rank()].group,
{
    let listing = arrangement::panels(slots, side);
    arrangement::lemma_panels(slots, side);
    let key = |p: PanelId| arrangement::sort_key(slots, p);
    assert forall|i: int, j: int|
        #![trigger listing[i], listing[j]]
        0 <= i < j < listing.len() implies slots[listing[i].rank()].group
        <= slots[listing[j].rank()].group && listing[i] != listing[j] by {
        assert(key(listing[i]) < key(listing[j]));
        assert(0 <= listing[i].rank() < 14);
        assert(0 <= listing[j].rank() < 14);
    }
}

/// Making room changes no drawing order, and leaves an order for one more tab.
pub proof fn lemma_roomy(slots: Seq<PanelPlacement>, side: DockSide, group: u8)
    requires
        slots.len() == 14,
    ensures
        roomy(slots, side, group).len() == 14,
        0 <= next_tab(roomy(slots, side, group), side, group) < 255,
        forall|s: DockSide| #[trigger]
            arrangement::panels(roomy(slots, side, group), s) == arrangement::panels(slots, s),
        forall|s: DockSide, g: u8| #[trigger]
            tabs(roomy(slots, side, group), s, g) == tabs(slots, s, g),
        forall|p: PanelId|
            #![trigger p.rank()]
            roomy(slots, side, group)[p.rank()] == (PanelPlacement {
                order: roomy(slots, side, group)[p.rank()].order,
                ..slots[p.rank()]
            }),
        forall|p: PanelId|
            #![trigger p.rank()]
            !arrangement::on_side(slots, side, p) ==> roomy(slots, side, group)[p.rank()]
                == slots[p.rank()],
{
    arrangement::lemma_ranks();
    lemma_next_tab(slots, side, group, 14);
    let base = roomy(slots, side, group);
    if next_tab(slots, side, group) >= 255 {
        let listing = arrangement::panels(slots, side);
        lemma_listing(slots, side);
        arrangement::lemma_panels(slots, side);
        lemma_lined_up_draws(slots, side, listing);
        lemma_next_tab(base, side, group, 14);
        assert forall|i: int|
            #![trigger base[i]]
            0 <= i < 14 && base[i].open && base[i].side == side && base[i].group
                == group implies base[i].order < 14 by {
            let p = PanelId::at(i);
            assert(p.rank() == i);
            assert(arrangement::on_side(slots, side, p));
        }
        assert(next_tab_at_most(base, side, group, 14, 14));
        assert forall|s: DockSide| #[trigger] arrangement::panels(base, s) == arrangement::panels(
            slots,
            s,
        ) by {}
        assert forall|s: DockSide, g: u8| #[trigger] tabs(base, s, g) == tabs(slots, s, g) by {
            assert(arrangement::panels(base, s) == arrangement::panels(slots, s));
            assert forall|p: PanelId| #[trigger] in_group(base, g)(p) == in_group(slots, g)(p) by {
                let r = p.rank();
            }
            assert(in_group(base, g) =~= in_group(slots, g));
        }
    }
}

/// A panel set down behind the tabs of a group is that group's last tab. It is
/// gone from every other group and side, and nothing else moves. Where no group
/// of the side is beyond that group, the panel is the last the side draws.
pub proof fn lemma_set_down(
    base: Seq<PanelPlacement>,
    after: Seq<PanelPlacement>,
    panel: PanelId,
    side: DockSide,
    group: u8,
)
    requires
        base.len() == 14,
        after.len() == 14,
        forall|q: PanelId|
            #![trigger q.rank()]
            q != panel ==> {
                &&& after[q.rank()].side == base[q.rank()].side
                &&& after[q.rank()].open == base[q.rank()].open
                &&& after[q.rank()].group == base[q.rank()].group
                &&& after[q.rank()].order == base[q.rank()].order
            },
        after[panel.rank()].open,
        after[panel.rank()].side == side,
        after[panel.rank()].group == group,
        after[panel.rank()].order >= next_tab(base, side, group),
        !(base[panel.rank()].open && base[panel.rank()].side == side && base[panel.rank()].group
            == group),
    ensures
        tabs(after, side, group) == tabs(base, side, group).push(panel),
        forall|s: DockSide, g: u8|
            s != side || g != group ==> #[trigger] tabs(after, s, g) == without(
                tabs(base, s, g),
                panel,
            ),
        !arrangement::on_side(base, side, panel) && group >= last_group(base, side)
            ==> arrangement::panels(after, side) == arrangement::panels(base, side).push(panel),
        forall|s: DockSide|
            s != side ==> #[trigger] arrangement::panels(after, s) == without(
                arrangement::panels(base, s),
                panel,
            ),
{
    arrangement::lemma_ranks();
    lemma_next_tab(base, side, group, 14);
    let key = |p: PanelId| arrangement::sort_key(after, p);
    assert forall|q: PanelId| #![trigger q.rank()] q != panel implies arrangement::sort_key(
        after,
        q,
    ) == arrangement::sort_key(base, q) by {}
    assert forall|q: PanelId, s: DockSide| q != panel implies #[trigger] arrangement::on_side(
        after,
        s,
        q,
    ) == arrangement::on_side(base, s, q) by {
        let r = q.rank();
    }
    lemma_tabs(base, side, group);
    lemma_tabs(after, side, group);
    let tail = tabs(base, side, group);
    assert forall|q: PanelId| #[trigger] tail.contains(q) implies q != panel && key(q) < key(
        panel,
    ) by {
        assert(arrangement::on_side(base, side, q));
        let slot = base[q.rank()];
        assert(0 <= q.rank() < 14);
        assert(0 <= panel.rank() < 14);
        assert(slot.order < next_tab(base, side, group));
        assert(after[q.rank()].order < after[panel.rank()].order);
        assert(after[q.rank()].group == group);
    }
    lemma_pushed(base, after, tail, panel);
    assert forall|q: PanelId| #[trigger] tail.push(panel).contains(q) <==> tabs(
        after,
        side,
        group,
    ).contains(q) by {
        assert(tail.contains(q) <==> arrangement::on_side(base, side, q) && base[q.rank()].group
            == group);
        assert(tabs(after, side, group).contains(q) <==> arrangement::on_side(after, side, q)
            && after[q.rank()].group == group);
        if q != panel {
            assert(arrangement::on_side(after, side, q) == arrangement::on_side(base, side, q));
        }
    }
    sequences::lemma_increasing_unique(tail.push(panel), tabs(after, side, group), key);
    assert forall|s: DockSide, g: u8| s != side || g != group implies #[trigger] tabs(after, s, g)
        == without(tabs(base, s, g), panel) by {
        lemma_tabs(base, s, g);
        lemma_tabs(after, s, g);
        lemma_kept(base, after, tabs(base, s, g), panel);
        assert forall|q: PanelId| #[trigger] without(tabs(base, s, g), panel).contains(q) <==> tabs(
            after,
            s,
            g,
        ).contains(q) by {
            assert(tabs(base, s, g).contains(q) <==> arrangement::on_side(base, s, q)
                && base[q.rank()].group == g);
            if q != panel {
                assert(arrangement::on_side(after, s, q) == arrangement::on_side(base, s, q));
            }
        }
        sequences::lemma_increasing_unique(
            without(tabs(base, s, g), panel),
            tabs(after, s, g),
            key,
        );
    }
    assert forall|s: DockSide| s != side implies #[trigger] arrangement::panels(after, s)
        == without(arrangement::panels(base, s), panel) by {
        arrangement::lemma_panels(base, s);
        lemma_kept(base, after, arrangement::panels(base, s), panel);
        let kept = without(arrangement::panels(base, s), panel);
        assert forall|q: PanelId| #[trigger] kept.contains(q) <==> arrangement::on_side(
            after,
            s,
            q,
        ) by {
            assert(arrangement::panels(base, s).contains(q) <==> arrangement::on_side(base, s, q));
            if q != panel {
                assert(arrangement::on_side(after, s, q) == arrangement::on_side(base, s, q));
            }
        }
        arrangement::lemma_listing_unique(after, s, kept);
    }
    if !arrangement::on_side(base, side, panel) && group >= last_group(base, side) {
        let listing = arrangement::panels(base, side);
        arrangement::lemma_panels(base, side);
        lemma_listing(base, side);
        assert forall|q: PanelId| #[trigger] listing.contains(q) implies q != panel && key(q)
            < key(panel) by {
            assert(arrangement::on_side(base, side, q));
            let i = choose|i: int| 0 <= i < listing.len() && listing[i] == q;
            let last = listing[listing.len() - 1];
            assert(base[listing[i].rank()].group <= base[last.rank()].group);
            assert(base[q.rank()].group <= group);
            assert(0 <= q.rank() < 14);
            assert(0 <= panel.rank() < 14);
            if base[q.rank()].group == group {
                assert(tail.contains(q));
            }
        }
        lemma_pushed(base, after, listing, panel);
        assert forall|q: PanelId| #[trigger] listing.push(panel).contains(q)
            <==> arrangement::on_side(after, side, q) by {
            assert(listing.contains(q) <==> arrangement::on_side(base, side, q));
            if q != panel {
                assert(arrangement::on_side(after, side, q) == arrangement::on_side(base, side, q));
            }
        }
        arrangement::lemma_listing_unique(after, side, listing.push(panel));
    }
}

/// An order that holds of `base`, with a panel behind it, holds of `after`.
proof fn lemma_pushed(
    base: Seq<PanelPlacement>,
    after: Seq<PanelPlacement>,
    s: Seq<PanelId>,
    panel: PanelId,
)
    requires
        sequences::increasing(s, |p: PanelId| arrangement::sort_key(base, p)),
        forall|q: PanelId|
            #![trigger q.rank()]
            q != panel ==> arrangement::sort_key(after, q) == arrangement::sort_key(base, q),
        forall|q: PanelId| #[trigger]
            s.contains(q) ==> q != panel && arrangement::sort_key(after, q)
                < arrangement::sort_key(after, panel),
    ensures
        sequences::increasing(s.push(panel), |p: PanelId| arrangement::sort_key(after, p)),
        forall|q: PanelId| #[trigger] s.push(panel).contains(q) <==> s.contains(q) || q == panel,
{
    let key = |p: PanelId| arrangement::sort_key(after, p);
    let old_key = |p: PanelId| arrangement::sort_key(base, p);
    let t = s.push(panel);
    assert forall|i: int, j: int|
        #![trigger t[i], t[j]]
        0 <= i < j < t.len() implies key(t[i]) < key(t[j]) by {
        assert(t[i] == s[i]);
        assert(s.contains(s[i]));
        let a = s[i].rank();
        if j < s.len() {
            assert(t[j] == s[j]);
            assert(s.contains(s[j]));
            let b = s[j].rank();
            assert(old_key(s[i]) < old_key(s[j]));
        }
    }
    assert forall|q: PanelId| #[trigger] t.contains(q) <==> s.contains(q) || q == panel by {
        if s.contains(q) {
            let i = choose|i: int| 0 <= i < s.len() && s[i] == q;
            assert(t[i] == q);
        }
        if q == panel {
            assert(t[s.len() as int] == q);
        }
        if t.contains(q) {
            let i = choose|i: int| 0 <= i < t.len() && t[i] == q;
            if i < s.len() {
                assert(s[i] == q);
            }
        }
    }
}

/// An order that holds of `base` holds of `after` without the panel that moved.
proof fn lemma_kept(
    base: Seq<PanelPlacement>,
    after: Seq<PanelPlacement>,
    s: Seq<PanelId>,
    panel: PanelId,
)
    requires
        sequences::increasing(s, |p: PanelId| arrangement::sort_key(base, p)),
        forall|q: PanelId|
            #![trigger q.rank()]
            q != panel ==> arrangement::sort_key(after, q) == arrangement::sort_key(base, q),
    ensures
        sequences::increasing(without(s, panel), |p: PanelId| arrangement::sort_key(after, p)),
        forall|q: PanelId| #[trigger]
            without(s, panel).contains(q) <==> s.contains(q) && q != panel,
{
    lemma_filtered(base, s, other_than(panel));
    let key = |p: PanelId| arrangement::sort_key(after, p);
    let old_key = |p: PanelId| arrangement::sort_key(base, p);
    let t = without(s, panel);
    assert forall|i: int, j: int|
        #![trigger t[i], t[j]]
        0 <= i < j < t.len() implies key(t[i]) < key(t[j]) by {
        assert(t.contains(t[i]));
        assert(t.contains(t[j]));
        let a = t[i].rank();
        let b = t[j].rank();
        assert(old_key(t[i]) < old_key(t[j]));
    }
}

/// Opening a panel at the end of a side makes it the last the side draws.
pub proof fn lemma_appended(slots: Seq<PanelPlacement>, side: DockSide, panel: PanelId)
    requires
        slots.len() == 14,
        !arrangement::on_side(slots, side, panel),
    ensures
        appended(slots, side, panel).len() == 14,
        appended(slots, side, panel)[panel.rank()].open,
        appended(slots, side, panel)[panel.rank()].side == side,
        appended(slots, side, panel)[panel.rank()].order < 255,
        arrangement::panels(appended(slots, side, panel), side) == arrangement::panels(
            slots,
            side,
        ).push(panel),
        forall|s: DockSide|
            s != side ==> #[trigger] arrangement::panels(appended(slots, side, panel), s)
                == without(arrangement::panels(slots, s), panel),
        forall|q: PanelId|
            #![trigger q.rank()]
            q != panel ==> appended(slots, side, panel)[q.rank()] == (PanelPlacement {
                order: appended(slots, side, panel)[q.rank()].order,
                ..slots[q.rank()]
            }),
        forall|q: PanelId|
            #![trigger q.rank()]
            q != panel && !arrangement::on_side(slots, side, q) ==> appended(
                slots,
                side,
                panel,
            )[q.rank()] == slots[q.rank()],
{
    arrangement::lemma_ranks();
    let group = end_group(slots, side, panel);
    let base = roomy(slots, side, group);
    let after = appended(slots, side, panel);
    lemma_roomy(slots, side, group);
    assert forall|q: PanelId| #![trigger q.rank()] q != panel implies after[q.rank()]
        == base[q.rank()] by {
        assert(PanelId::at(q.rank()) != PanelId::at(panel.rank()));
    }
    assert(base[panel.rank()] == slots[panel.rank()]);
    let listing = arrangement::panels(slots, side);
    assert(arrangement::panels(base, side) == listing);
    if listing.len() > 0 {
        let r = listing.last().rank();
        assert(base[r].group == slots[r].group);
    }
    assert(last_group(base, side) == last_group(slots, side));
    lemma_set_down(base, after, panel, side, group);
}

/// Moving a panel along a side's drawing order leaves the side drawing exactly
/// that, and every other side as it was.
pub proof fn lemma_shifted(slots: Seq<PanelPlacement>, side: DockSide, from: int, to: int)
    requires
        slots.len() == 14,
        0 <= from < arrangement::panels(slots, side).len(),
        0 <= to < arrangement::panels(slots, side).len(),
    ensures
        shifted(slots, side, from, to).len() == 14,
        arrangement::panels(shifted(slots, side, from, to), side) == arrangement::moved(
            arrangement::panels(slots, side),
            from,
            to,
        ),
        forall|s: DockSide|
            s != side ==> #[trigger] arrangement::panels(shifted(slots, side, from, to), s)
                == arrangement::panels(slots, s),
        forall|p: PanelId|
            #![trigger p.rank()]
            shifted(slots, side, from, to)[p.rank()] == (PanelPlacement {
                order: shifted(slots, side, from, to)[p.rank()].order,
                group: if p == arrangement::panels(slots, side)[from] {
                    slots[arrangement::panels(slots, side)[to].rank()].group
                } else {
                    slots[p.rank()].group
                },
                ..slots[p.rank()]
            }),
{
    arrangement::lemma_ranks();
    let listing = arrangement::panels(slots, side);
    let panel = listing[from];
    let rank = panel.rank();
    let group = slots[listing[to].rank()].group;
    let list = arrangement::moved(listing, from, to);
    let base = slots.update(rank, PanelPlacement { group, ..slots[rank] });
    arrangement::lemma_panels(slots, side);
    lemma_listing(slots, side);
    arrangement::lemma_moved(listing, from, to);
    arrangement::lemma_moved(listing, to, from);
    assert forall|p: PanelId| #![trigger p.rank()] p != panel implies base[p.rank()]
        == slots[p.rank()] by {
        assert(PanelId::at(p.rank()) != PanelId::at(rank));
    }
    assert forall|p: PanelId, s: DockSide| #[trigger] arrangement::on_side(base, s, p)
        == arrangement::on_side(slots, s, p) by {
        let r = p.rank();
    }
    assert forall|i: int, j: int|
        #![trigger list[i], list[j]]
        0 <= i < j < list.len() implies list[i] != list[j] && base[list[i].rank()].group
        <= base[list[j].rank()].group by {
        let a = arrangement::source(from, to, i);
        let b = arrangement::source(from, to, j);
        assert(list[i] == listing[a]);
        assert(list[j] == listing[b]);
        assert(a != b);
        if a < b {
            assert(slots[listing[a].rank()].group <= slots[listing[b].rank()].group);
        }
        if i == to {
            let at = listing[to];
            assert(slots[listing[to].rank()].group <= slots[listing[b].rank()].group);
        } else if j == to {
            let at = listing[to];
            assert(slots[listing[a].rank()].group <= slots[listing[to].rank()].group);
        } else {
            assert(a < b);
        }
        let r = list[i].rank();
        let q = list[j].rank();
    }
    assert forall|p: PanelId| #[trigger] list.contains(p) <==> arrangement::on_side(
        base,
        side,
        p,
    ) by {
        assert(listing.contains(p) <==> arrangement::on_side(slots, side, p));
        if list.contains(p) {
            let i = choose|i: int| 0 <= i < list.len() && list[i] == p;
            assert(list[i] == listing[arrangement::source(from, to, i)]);
        }
        if listing.contains(p) {
            let i = choose|i: int| 0 <= i < listing.len() && listing[i] == p;
            let j = arrangement::source(to, from, i);
            assert(arrangement::source(from, to, j) == i);
            assert(list[j] == listing[i]);
        }
    }
    lemma_lined_up_draws(base, side, list);
    let new = shifted(slots, side, from, to);
    assert(new == lined_up(base, list, list.len() as int));
    assert forall|p: PanelId| #![trigger p.rank()] new[p.rank()] == (PanelPlacement {
        order: new[p.rank()].order,
        group: if p == panel {
            group
        } else {
            slots[p.rank()].group
        },
        ..slots[p.rank()]
    }) by {
        assert(new[p.rank()] == (PanelPlacement {
            order: new[p.rank()].order,
            ..base[p.rank()]
        }));
    }
    assert forall|s: DockSide| s != side implies #[trigger] arrangement::panels(new, s)
        == arrangement::panels(slots, s) by {
        assert(arrangement::panels(new, s) == arrangement::panels(base, s));
        assert forall|p: PanelId| #[trigger] arrangement::on_side(base, s, p) implies {
            &&& base[p.rank()].group == slots[p.rank()].group
            &&& base[p.rank()].order == slots[p.rank()].order
        } by {
            assert(listing.contains(panel));
            assert(arrangement::on_side(slots, side, panel));
            let r = p.rank();
        }
        arrangement::lemma_elsewhere(base, slots, s);
    }
}

} // verus!

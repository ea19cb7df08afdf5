//! What holds of the dock across operations.

use crate::arrangement;
use crate::dock;
use crate::dock::{DockModel, DockSide, LayoutId, PanelId, PanelPlacement};
use crate::ieee::Real32;
use crate::sequences;
use crate::tabs;
use vstd::prelude::*;

verus! {

/// No two panels share a settings key.
pub proof fn panel_keys_differ(a: PanelId, b: PanelId)
    requires
        a != b,
    ensures
        a.key_text() != b.key_text(),
{
    reveal_strlit("layers");
    reveal_strlit("history");
    reveal_strlit("adjustments");
    reveal_strlit("properties");
    reveal_strlit("color");
    reveal_strlit("swatches");
    reveal_strlit("brushes");
    reveal_strlit("character");
    reveal_strlit("paragraph");
    reveal_strlit("navigator");
    reveal_strlit("info");
    reveal_strlit("channels");
    reveal_strlit("paths");
    reveal_strlit("actions");
    assert(a.key_text().len() != b.key_text().len() || a.key_text()[0] != b.key_text()[0]);
}

/// Every panel has a title and a settings key.
pub proof fn panels_are_named(panel: PanelId)
    ensures
        panel.title_text().len() > 0,
        panel.key_text().len() > 0,
{
    reveal_strlit("layers");
    reveal_strlit("history");
    reveal_strlit("adjustments");
    reveal_strlit("properties");
    reveal_strlit("color");
    reveal_strlit("swatches");
    reveal_strlit("brushes");
    reveal_strlit("character");
    reveal_strlit("paragraph");
    reveal_strlit("navigator");
    reveal_strlit("info");
    reveal_strlit("channels");
    reveal_strlit("paths");
    reveal_strlit("actions");
    reveal_strlit("Layers");
    reveal_strlit("History");
    reveal_strlit("Adjustments");
    reveal_strlit("Properties");
    reveal_strlit("Color");
    reveal_strlit("Swatches");
    reveal_strlit("Brushes");
    reveal_strlit("Character");
    reveal_strlit("Paragraph");
    reveal_strlit("Navigator");
    reveal_strlit("Info");
    reveal_strlit("Channels");
    reveal_strlit("Paths");
    reveal_strlit("Actions");
}

/// A layout opens exactly the panels it names, each on the side and in the
/// group it names.
pub proof fn a_layout_places_what_it_names(layout: LayoutId, panel: PanelId)
    ensures
        DockModel::from_layout(layout).placement(panel).open <==> exists|k: int|
            0 <= k < layout.entries().len() && (#[trigger] layout.entries()[k]).0 == panel,
        forall|k: int|
            0 <= k < layout.entries().len() && (#[trigger] layout.entries()[k]).0 == panel ==> {
                &&& DockModel::from_layout(layout).placement(panel).side == layout.entries()[k].1
                &&& DockModel::from_layout(layout).placement(panel).group == layout.entries()[k].2
            },
{
    reveal_with_fuel(dock::laid_out, 8);
    let entries = layout.entries();
    let slots = dock::laid_out(entries, entries.len() as int);
    assert(slots.len() == 14);
    match layout {
        LayoutId::Essentials => {
            assert(entries[0].0 == PanelId::Properties);
            assert(entries[1].0 == PanelId::Adjustments);
            assert(entries[2].0 == PanelId::Layers);
            assert(entries[3].0 == PanelId::History);
            assert(entries[4].0 == PanelId::Color);
        },
        LayoutId::Painting => {
            assert(entries[0].0 == PanelId::Color);
            assert(entries[1].0 == PanelId::Swatches);
            assert(entries[2].0 == PanelId::Brushes);
            assert(entries[3].0 == PanelId::Layers);
            assert(entries[4].0 == PanelId::Properties);
        },
        LayoutId::Photography => {
            assert(entries[0].0 == PanelId::Navigator);
            assert(entries[1].0 == PanelId::Info);
            assert(entries[2].0 == PanelId::History);
            assert(entries[3].0 == PanelId::Properties);
            assert(entries[4].0 == PanelId::Adjustments);
            assert(entries[5].0 == PanelId::Layers);
            assert(entries[6].0 == PanelId::Channels);
        },
        LayoutId::Minimal => {},
    }
}

/// Where a layout puts a panel: its side, its group and its place among the
/// group's tabs.
pub open spec fn stands(m: DockModel, panel: PanelId, side: DockSide, group: u8, tab: u8) -> bool {
    let p = m.placement(panel);
    &&& p.open
    &&& !p.collapsed
    &&& p.side == side
    &&& p.group == group
    &&& p.order == tab
    &&& p.active == (tab == 0)
}

/// Whatever the dock held, switching to a layout opens exactly the panels that
/// belong to it, each on its side, in its group and at its place among the
/// tabs. The first tab of a group shows, and every other panel is closed.
pub proof fn each_layout_opens_its_own_panels(m: DockModel, panel: PanelId)
    ensures
        ({
            let d = m.with_layout(LayoutId::Essentials);
            match panel {
                PanelId::Properties => stands(d, panel, DockSide::Right, 0, 0),
                PanelId::Adjustments => stands(d, panel, DockSide::Right, 0, 1),
                PanelId::Layers => stands(d, panel, DockSide::Right, 1, 0),
                PanelId::History => stands(d, panel, DockSide::Right, 2, 0),
                PanelId::Color => stands(d, panel, DockSide::Right, 2, 1),
                _ => !d.placement(panel).open && !d.placement(panel).active,
            }
        }),
        ({
            let d = m.with_layout(LayoutId::Painting);
            match panel {
                PanelId::Color => stands(d, panel, DockSide::Left, 0, 0),
                PanelId::Swatches => stands(d, panel, DockSide::Left, 0, 1),
                PanelId::Brushes => stands(d, panel, DockSide::Left, 1, 0),
                PanelId::Layers => stands(d, panel, DockSide::Right, 0, 0),
                PanelId::Properties => stands(d, panel, DockSide::Right, 1, 0),
                _ => !d.placement(panel).open && !d.placement(panel).active,
            }
        }),
        ({
            let d = m.with_layout(LayoutId::Photography);
            match panel {
                PanelId::Navigator => stands(d, panel, DockSide::Left, 0, 0),
                PanelId::Info => stands(d, panel, DockSide::Left, 0, 1),
                PanelId::History => stands(d, panel, DockSide::Left, 1, 0),
                PanelId::Properties => stands(d, panel, DockSide::Right, 0, 0),
                PanelId::Adjustments => stands(d, panel, DockSide::Right, 0, 1),
                PanelId::Layers => stands(d, panel, DockSide::Right, 1, 0),
                PanelId::Channels => stands(d, panel, DockSide::Right, 1, 1),
                _ => !d.placement(panel).open && !d.placement(panel).active,
            }
        }),
        !m.with_layout(LayoutId::Minimal).placement(panel).open,
        !m.with_layout(LayoutId::Minimal).placement(panel).active,
{
    reveal_with_fuel(dock::laid_out, 8);
    reveal_with_fuel(dock::tabs_before, 8);
}

/// Every layout but the bare one has the Layers panel open on the right, and
/// the bare one opens nothing.
pub proof fn every_layout_but_the_bare_one_opens_layers(m: DockModel, layout: LayoutId)
    ensures
        layout != LayoutId::Minimal ==> arrangement::panels(
            m.with_layout(layout).slots,
            DockSide::Right,
        ).contains(PanelId::Layers),
        layout == LayoutId::Minimal ==> forall|side: DockSide| #[trigger]
            arrangement::panels(m.with_layout(layout).slots, side).len() == 0,
{
    let slots = m.with_layout(layout).slots;
    each_layout_opens_its_own_panels(m, PanelId::Layers);
    arrangement::lemma_panels(slots, DockSide::Right);
    assert(layout != LayoutId::Minimal ==> arrangement::on_side(
        slots,
        DockSide::Right,
        PanelId::Layers,
    ));
    if layout == LayoutId::Minimal {
        assert forall|side: DockSide| #[trigger] arrangement::panels(slots, side).len() == 0 by {
            let listing = arrangement::panels(slots, side);
            arrangement::lemma_panels(slots, side);
            if listing.len() > 0 {
                assert(listing.contains(listing[0]));
                each_layout_opens_its_own_panels(m, listing[0]);
            }
        }
    }
}

/// A list of a side's open panels in drawing order is what the side draws.
proof fn lemma_draws(m: DockModel, side: DockSide, list: Seq<PanelId>)
    requires
        sequences::increasing(list, |p: PanelId| arrangement::sort_key(m.slots, p)),
        forall|p: PanelId| #[trigger] list.contains(p) <==> arrangement::on_side(m.slots, side, p),
    ensures
        arrangement::panels(m.slots, side) == list,
{
    arrangement::lemma_listing_unique(m.slots, side, list);
}

/// What each side draws under each layout, from top to bottom.
pub proof fn each_layout_draws_its_own_order(m: DockModel)
    ensures
        arrangement::panels(m.with_layout(LayoutId::Essentials).slots, DockSide::Left)
            == Seq::<PanelId>::empty(),
        arrangement::panels(m.with_layout(LayoutId::Essentials).slots, DockSide::Right) == seq![
            PanelId::Properties,
            PanelId::Adjustments,
            PanelId::Layers,
            PanelId::History,
            PanelId::Color,
        ],
        arrangement::panels(m.with_layout(LayoutId::Painting).slots, DockSide::Left) == seq![
            PanelId::Color,
            PanelId::Swatches,
            PanelId::Brushes,
        ],
        arrangement::panels(m.with_layout(LayoutId::Painting).slots, DockSide::Right) == seq![
            PanelId::Layers,
            PanelId::Properties,
        ],
        arrangement::panels(m.with_layout(LayoutId::Photography).slots, DockSide::Left) == seq![
            PanelId::Navigator,
            PanelId::Info,
            PanelId::History,
        ],
        arrangement::panels(m.with_layout(LayoutId::Photography).slots, DockSide::Right) == seq![
            PanelId::Properties,
            PanelId::Adjustments,
            PanelId::Layers,
            PanelId::Channels,
        ],
        forall|layout: LayoutId| #[trigger]
            arrangement::panels(m.with_layout(layout).slots, DockSide::Bottom)
                == Seq::<PanelId>::empty(),
{
    let essentials = m.with_layout(LayoutId::Essentials);
    let painting = m.with_layout(LayoutId::Painting);
    let photography = m.with_layout(LayoutId::Photography);
    let none = Seq::<PanelId>::empty();
    assert forall|p: PanelId| #[trigger] none.contains(p) <==> arrangement::on_side(
        essentials.slots,
        DockSide::Left,
        p,
    ) by {
        each_layout_opens_its_own_panels(m, p);
    }
    lemma_draws(essentials, DockSide::Left, none);
    assert(arrangement::panels(essentials.slots, DockSide::Right) == seq![PanelId::Properties, PanelId::Adjustments, PanelId::Layers, PanelId::History, PanelId::Color]) by {
        let list = seq![PanelId::Properties, PanelId::Adjustments, PanelId::Layers, PanelId::History, PanelId::Color];
        assert(list[0] == PanelId::Properties);
        assert(list[1] == PanelId::Adjustments);
        assert(list[2] == PanelId::Layers);
        assert(list[3] == PanelId::History);
        assert(list[4] == PanelId::Color);
        assert forall|p: PanelId| #[trigger] list.contains(p) <==> arrangement::on_side(
            essentials.slots,
            DockSide::Right,
            p,
        ) by {
            each_layout_opens_its_own_panels(m, p);
        }
        each_layout_opens_its_own_panels(m, PanelId::Properties);
        each_layout_opens_its_own_panels(m, PanelId::Adjustments);
        each_layout_opens_its_own_panels(m, PanelId::Layers);
        each_layout_opens_its_own_panels(m, PanelId::History);
        each_layout_opens_its_own_panels(m, PanelId::Color);
        lemma_draws(essentials, DockSide::Right, list);
    }
    assert(arrangement::panels(painting.slots, DockSide::Left) == seq![PanelId::Color, PanelId::Swatches, PanelId::Brushes]) by {
        let list = seq![PanelId::Color, PanelId::Swatches, PanelId::Brushes];
        assert(list[0] == PanelId::Color);
        assert(list[1] == PanelId::Swatches);
        assert(list[2] == PanelId::Brushes);
        assert forall|p: PanelId| #[trigger] list.contains(p) <==> arrangement::on_side(
            painting.slots,
            DockSide::Left,
            p,
        ) by {
            each_layout_opens_its_own_panels(m, p);
        }
        each_layout_opens_its_own_panels(m, PanelId::Color);
        each_layout_opens_its_own_panels(m, PanelId::Swatches);
        each_layout_opens_its_own_panels(m, PanelId::Brushes);
        lemma_draws(painting, DockSide::Left, list);
    }
    assert(arrangement::panels(painting.slots, DockSide::Right) == seq![PanelId::Layers, PanelId::Properties]) by {
        let list = seq![PanelId::Layers, PanelId::Properties];
        assert(list[0] == PanelId::Layers);
        assert(list[1] == PanelId::Properties);
        assert forall|p: PanelId| #[trigger] list.contains(p) <==> arrangement::on_side(
            painting.slots,
            DockSide::Right,
            p,
        ) by {
            each_layout_opens_its_own_panels(m, p);
        }
        each_layout_opens_its_own_panels(m, PanelId::Layers);
        each_layout_opens_its_own_panels(m, PanelId::Properties);
        lemma_draws(painting, DockSide::Right, list);
    }
    assert(arrangement::panels(photography.slots, DockSide::Left) == seq![PanelId::Navigator, PanelId::Info, PanelId::History]) by {
        let list = seq![PanelId::Navigator, PanelId::Info, PanelId::History];
        assert(list[0] == PanelId::Navigator);
        assert(list[1] == PanelId::Info);
        assert(list[2] == PanelId::History);
        assert forall|p: PanelId| #[trigger] list.contains(p) <==> arrangement::on_side(
            photography.slots,
            DockSide::Left,
            p,
        ) by {
            each_layout_opens_its_own_panels(m, p);
        }
        each_layout_opens_its_own_panels(m, PanelId::Navigator);
        each_layout_opens_its_own_panels(m, PanelId::Info);
        each_layout_opens_its_own_panels(m, PanelId::History);
        lemma_draws(photography, DockSide::Left, list);
    }
    assert(arrangement::panels(photography.slots, DockSide::Right) == seq![PanelId::Properties, PanelId::Adjustments, PanelId::Layers, PanelId::Channels]) by {
        let list = seq![PanelId::Properties, PanelId::Adjustments, PanelId::Layers, PanelId::Channels];
        assert(list[0] == PanelId::Properties);
        assert(list[1] == PanelId::Adjustments);
        assert(list[2] == PanelId::Layers);
        assert(list[3] == PanelId::Channels);
        assert forall|p: PanelId| #[trigger] list.contains(p) <==> arrangement::on_side(
            photography.slots,
            DockSide::Right,
            p,
        ) by {
            each_layout_opens_its_own_panels(m, p);
        }
        each_layout_opens_its_own_panels(m, PanelId::Properties);
        each_layout_opens_its_own_panels(m, PanelId::Adjustments);
        each_layout_opens_its_own_panels(m, PanelId::Layers);
        each_layout_opens_its_own_panels(m, PanelId::Channels);
        lemma_draws(photography, DockSide::Right, list);
    }
    assert forall|layout: LayoutId| #[trigger]
        arrangement::panels(m.with_layout(layout).slots, DockSide::Bottom) == none by {
        let slots = m.with_layout(layout).slots;
        assert forall|p: PanelId| #[trigger] none.contains(p) <==> arrangement::on_side(
            slots,
            DockSide::Bottom,
            p,
        ) by {
            each_layout_opens_its_own_panels(m, p);
        }
        lemma_draws(m.with_layout(layout), DockSide::Bottom, none);
    }
}

/// Switching layouts keeps the extents the user chose, and switching to the
/// same layout again changes nothing.
pub proof fn switching_layouts_keeps_the_extents(m: DockModel, layout: LayoutId, side: DockSide)
    ensures
        m.with_layout(layout).extent(side) == m.extent(side),
        m.with_layout(layout).layout == Some(layout),
        m.with_layout(layout).with_layout(layout) == m.with_layout(layout),
{
}

/// Unfolding a folded side restores exactly what was folded.
pub proof fn folding_a_side_round_trips(m: DockModel, side: DockSide)
    requires
        !m.rail(side),
    ensures
        m.with_rail(side, true).with_rail(side, false) == m,
        m.with_rail(side, true).slots == m.slots,
        m.with_rail(side, true).extent(side) == m.extent(side),
        m.with_rail(side, true).rail(side) == (side != DockSide::Bottom),
{
}

/// Opening or closing a panel is an absolute setting: doing it twice is doing
/// it once.
pub proof fn opening_twice_opens_once(m: DockModel, panel: PanelId, open: bool)
    requires
        m.valid(),
    ensures
        m.with_open(panel, open).placement(panel).open == open,
        m.with_open(panel, open).with_open(panel, open) == m.with_open(panel, open),
        m.with_open(panel, open) == m <==> m.placement(panel).open == open,
{
    if open && !m.placement(panel).open && m.placement(panel).order == 255 {
        lemma_appended(m, panel, m.placement(panel).side);
    }
}

/// Showing an open panel on top changes nothing but which tabs are active: its
/// group shows it, and so every group has one active tab.
proof fn lemma_on_top(m: DockModel, panel: PanelId)
    requires
        m.slots.len() == 14,
        m.placement(panel).open,
    ensures
        arrangement::same_arrangement(m.slots, m.shown_on_top(panel).slots),
        forall|side: DockSide| #[trigger]
            arrangement::panels(m.shown_on_top(panel).slots, side) == arrangement::panels(
                m.slots,
                side,
            ),
        forall|p: PanelId|
            #![trigger p.rank()]
            m.shown_on_top(panel).slots[p.rank()] == (PanelPlacement {
                active: m.shown_on_top(panel).slots[p.rank()].active,
                ..m.slots[p.rank()]
            }),
        m.shown_on_top(panel).placement(panel).active,
        m.shown_on_top(panel).one_tab_shows(),
{
    arrangement::lemma_ranks();
    let raised = m.raised(panel);
    let after = m.shown_on_top(panel);
    assert(arrangement::sole_tab(raised.slots, panel)) by {
        assert forall|q: PanelId| #[trigger]
            arrangement::alongside(raised.slots, panel, q)
                && raised.slots[q.rank()].active implies q == panel by {
            let r = q.rank();
        }
    }
    assert(arrangement::alongside(raised.slots, panel, panel));
    arrangement::lemma_normalized_keeps(raised.slots, panel, panel);
    arrangement::lemma_normalized_shows_one(raised.slots);
    assert forall|side: DockSide| #[trigger] arrangement::panels(after.slots, side)
        == arrangement::panels(m.slots, side) by {
        arrangement::lemma_same_arrangement(after.slots, m.slots, side);
    }
}

/// A panel opened at the end of a side is the last that side draws, and shows.
/// Every other panel keeps its place in the order, its group and its side.
proof fn lemma_appended(m: DockModel, panel: PanelId, side: DockSide)
    requires
        m.valid(),
        !(m.placement(panel).open && m.placement(panel).side == side),
    ensures
        m.appended(panel, side).valid(),
        arrangement::panels(m.appended(panel, side).slots, side) == arrangement::panels(
            m.slots,
            side,
        ).push(panel),
        forall|other: DockSide|
            other != side ==> #[trigger] arrangement::panels(
                m.appended(panel, side).slots,
                other,
            ) == tabs::without(arrangement::panels(m.slots, other), panel),
        m.appended(panel, side).placement(panel).open,
        m.appended(panel, side).placement(panel).side == side,
        m.appended(panel, side).placement(panel).order < 255,
        forall|p: PanelId|
            p != panel ==> #[trigger] m.appended(panel, side).placement(p) == (PanelPlacement {
                order: m.appended(panel, side).placement(p).order,
                active: m.appended(panel, side).placement(p).active,
                ..m.placement(p)
            }),
        m.appended(panel, side).placement(panel).active,
        m.appended(panel, side).one_tab_shows(),
{
    arrangement::lemma_ranks();
    tabs::lemma_appended(m.slots, side, panel);
    let base = DockModel { slots: tabs::appended(m.slots, side, panel), layout: None, ..m };
    lemma_on_top(base, panel);
    let after = m.appended(panel, side);
    assert(arrangement::panels(after.slots, side) == arrangement::panels(base.slots, side));
    assert forall|other: DockSide| other != side implies #[trigger] arrangement::panels(
        after.slots,
        other,
    ) == tabs::without(arrangement::panels(m.slots, other), panel) by {
        assert(arrangement::panels(base.slots, other) == tabs::without(
            arrangement::panels(m.slots, other),
            panel,
        ));
    }
    assert forall|p: PanelId| p != panel implies #[trigger] after.placement(p) == (PanelPlacement {
        order: after.placement(p).order,
        active: after.placement(p).active,
        ..m.placement(p)
    }) by {
        let r = p.rank();
    }
}

/// A panel that was never placed opens as the last its side draws, behind the
/// others in their order. It shows, and has a place from then on.
pub proof fn an_unplaced_panel_opens_last(m: DockModel, panel: PanelId)
    requires
        m.valid(),
        !m.placement(panel).open,
        m.placement(panel).order == 255,
    ensures
        arrangement::panels(m.with_open(panel, true).slots, m.placement(panel).side)
            == arrangement::panels(m.slots, m.placement(panel).side).push(panel),
        forall|other: DockSide|
            other != m.placement(panel).side ==> #[trigger] arrangement::panels(
                m.with_open(panel, true).slots,
                other,
            ) == arrangement::panels(m.slots, other),
        m.with_open(panel, true).placement(panel).order < 255,
        m.with_open(panel, true).placement(panel).active,
        m.with_open(panel, true).layout is None,
{
    let side = m.placement(panel).side;
    lemma_appended(m, panel, side);
    assert forall|other: DockSide| other != side implies #[trigger] arrangement::panels(
        m.with_open(panel, true).slots,
        other,
    ) == arrangement::panels(m.slots, other) by {
        let listing = arrangement::panels(m.slots, other);
        arrangement::lemma_panels(m.slots, other);
        assert(!listing.contains(panel));
        lemma_absent(listing, panel);
    }
}

/// Taking out a panel that is not there changes nothing.
proof fn lemma_absent(s: Seq<PanelId>, panel: PanelId)
    requires
        !s.contains(panel),
    ensures
        tabs::without(s, panel) == s,
    decreases s.len(),
{
    reveal(Seq::filter);
    if s.len() > 0 {
        let front = s.drop_last();
        assert forall|p: PanelId| #[trigger] front.contains(p) implies s.contains(p) by {
            let i = choose|i: int| 0 <= i < front.len() && front[i] == p;
            assert(s[i] == p);
        }
        lemma_absent(front, panel);
        assert(s.contains(s[s.len() - 1]));
        assert(front.push(s.last()) =~= s);
    }
}

/// Docking a panel opens it on that side, as the last the side draws, and
/// nowhere else; it shows there. The other panels keep their order on every
/// side and their groups. Docking it there again changes nothing.
pub proof fn docking_moves_a_panel_across(m: DockModel, panel: PanelId, side: DockSide)
    requires
        m.valid(),
    ensures
        forall|other: DockSide| #[trigger]
            arrangement::panels(m.docked(panel, side).slots, other).contains(panel) <==> other
                == side,
        m.docked(panel, side) != m ==> arrangement::panels(m.docked(panel, side).slots, side)
            == arrangement::panels(m.slots, side).push(panel),
        m.docked(panel, side) != m ==> m.docked(panel, side).layout is None,
        forall|other: DockSide|
            other != side ==> #[trigger] arrangement::panels(m.docked(panel, side).slots, other)
                == tabs::without(arrangement::panels(m.slots, other), panel),
        forall|p: PanelId|
            p != panel ==> #[trigger] m.docked(panel, side).placement(p) == (PanelPlacement {
                order: m.docked(panel, side).placement(p).order,
                active: m.docked(panel, side).placement(p).active,
                ..m.placement(p)
            }),
        m.docked(panel, side) != m ==> m.docked(panel, side).placement(panel).active,
        m.docked(panel, side).docked(panel, side) == m.docked(panel, side),
        m.docked(panel, side) == m <==> m.placement(panel).open && m.placement(panel).side == side,
{
    let d = m.docked(panel, side);
    if !(m.placement(panel).open && m.placement(panel).side == side) {
        lemma_appended(m, panel, side);
    } else {
        assert forall|other: DockSide| other != side implies #[trigger] arrangement::panels(
            m.slots,
            other,
        ) == tabs::without(arrangement::panels(m.slots, other), panel) by {
            let listing = arrangement::panels(m.slots, other);
            arrangement::lemma_panels(m.slots, other);
            assert(!listing.contains(panel));
            lemma_absent(listing, panel);
        }
    }
    assert forall|other: DockSide| #[trigger]
        arrangement::panels(d.slots, other).contains(panel) <==> other == side by {
        arrangement::lemma_panels(d.slots, other);
        assert(arrangement::on_side(d.slots, other, panel) <==> other == side);
    }
}

/// The groups that a side stacks are its tabs: each holds the open panels of
/// its number, in the order of their tabs.
pub proof fn a_group_holds_its_tabs(m: DockModel, side: DockSide, k: int)
    requires
        0 <= k < arrangement::groups(m.slots, side).len(),
    ensures
        arrangement::groups(m.slots, side)[k].1 == tabs::tabs(
            m.slots,
            side,
            arrangement::groups(m.slots, side)[k].0,
        ),
{
    let gs = arrangement::groups(m.slots, side);
    let key = |p: PanelId| arrangement::sort_key(m.slots, p);
    let number = |g: (u8, Seq<PanelId>)| g.0 as int;
    let group = gs[k].0;
    arrangement::lemma_groups(m.slots, side);
    tabs::lemma_tabs(m.slots, side, group);
    assert forall|p: PanelId| #[trigger]
        gs[k].1.contains(p) <==> tabs::tabs(m.slots, side, group).contains(p) by {
        if tabs::tabs(m.slots, side, group).contains(p) {
            assert(arrangement::on_side(m.slots, side, p));
            let j = choose|j: int| 0 <= j < gs.len() && #[trigger] gs[j].1.contains(p);
            assert(gs[j].0 == group);
            if j < k {
                assert(number(gs[j]) < number(gs[k]));
            }
            if k < j {
                assert(number(gs[k]) < number(gs[j]));
            }
        }
    }
    sequences::lemma_increasing_unique(gs[k].1, tabs::tabs(m.slots, side, group), key);
}

/// A panel that moves into a group becomes the last of its tabs and the one it
/// shows. It is gone from every other group, and the other tabs keep their
/// order everywhere.
pub proof fn a_joining_panel_is_the_last_tab(
    m: DockModel,
    panel: PanelId,
    side: DockSide,
    group: u8,
)
    requires
        m.valid(),
        !(m.placement(panel).open && m.placement(panel).side == side && m.placement(panel).group
            == group),
    ensures
        tabs::tabs(m.moved_panel(panel, side, group).slots, side, group) == tabs::tabs(
            m.slots,
            side,
            group,
        ).push(panel),
        forall|s: DockSide, g: u8|
            s != side || g != group ==> #[trigger] tabs::tabs(
                m.moved_panel(panel, side, group).slots,
                s,
                g,
            ) == tabs::without(tabs::tabs(m.slots, s, g), panel),
        arrangement::shown(m.moved_panel(panel, side, group).slots, side, group) == Some(panel),
        m.moved_panel(panel, side, group).placement(panel).active,
        m.moved_panel(panel, side, group).layout is None,
{
    arrangement::lemma_ranks();
    let base = tabs::roomy(m.slots, side, group);
    let joined = m.joined(panel, side, group);
    tabs::lemma_roomy(m.slots, side, group);
    assert forall|q: PanelId| #![trigger q.rank()] q != panel implies {
        &&& joined[q.rank()].side == base[q.rank()].side
        &&& joined[q.rank()].open == base[q.rank()].open
        &&& joined[q.rank()].group == base[q.rank()].group
        &&& joined[q.rank()].order == base[q.rank()].order
    } by {
        assert(PanelId::at(q.rank()) != PanelId::at(panel.rank()));
    }
    tabs::lemma_set_down(base, joined, panel, side, group);
    let after = arrangement::normalized(joined);
    assert forall|s: DockSide, g: u8| #[trigger] tabs::tabs(after, s, g) == tabs::tabs(
        joined,
        s,
        g,
    ) by {
        arrangement::lemma_normalized_arrangement(joined, s);
        assert(tabs::in_group(after, g) =~= tabs::in_group(joined, g)) by {
            assert forall|p: PanelId| #[trigger] tabs::in_group(after, g)(p) == tabs::in_group(
                joined,
                g,
            )(p) by {
                assert(0 <= p.rank() < 14);
            }
        }
    }
    assert forall|s: DockSide, g: u8| s != side || g != group implies #[trigger] tabs::tabs(
        after,
        s,
        g,
    ) == tabs::without(tabs::tabs(m.slots, s, g), panel) by {
        assert(tabs::tabs(joined, s, g) == tabs::without(tabs::tabs(base, s, g), panel));
        assert(tabs::tabs(base, s, g) == tabs::tabs(m.slots, s, g));
    }
    assert(tabs::tabs(base, side, group) == tabs::tabs(m.slots, side, group));
    assert(arrangement::on_side(joined, side, panel));
    arrangement::lemma_shown(joined, side, group, panel);
    let shown = arrangement::shown(joined, side, group)->0;
    if shown != panel {
        assert(PanelId::at(shown.rank()) != PanelId::at(panel.rank()));
        assert(!joined[shown.rank()].active);
    }
    arrangement::lemma_shown_settles(joined, side, group, panel);
}

/// Where a panel stands in its side's drawing order.
proof fn lemma_listed_at(m: DockModel, panel: PanelId) -> (from: int)
    requires
        m.valid(),
        m.placement(panel).open,
    ensures
        0 <= from < arrangement::panels(m.slots, m.placement(panel).side).len(),
        arrangement::panels(m.slots, m.placement(panel).side)[from] == panel,
        from == arrangement::panels(m.slots, m.placement(panel).side).index_of(panel),
        arrangement::panels(m.slots, m.placement(panel).side).no_duplicates(),
{
    let side = m.placement(panel).side;
    let listing = arrangement::panels(m.slots, side);
    arrangement::lemma_panels(m.slots, side);
    tabs::lemma_listing(m.slots, side);
    assert(arrangement::on_side(m.slots, side, panel));
    assert(listing.contains(panel));
    listing.index_of(panel)
}

/// Relocating puts the panel at exactly the place named among the panels open
/// on its side, and the others keep their order; the other sides stay as they
/// are, and no other panel changes its group. A panel that is new to a group
/// shows there.
pub proof fn relocating_puts_a_panel_in_its_place(m: DockModel, panel: PanelId, to: int)
    requires
        m.valid(),
        m.can_relocate(panel, to),
    ensures
        arrangement::panels(m.relocated(panel, to).slots, m.placement(panel).side)
            == arrangement::moved(
            arrangement::panels(m.slots, m.placement(panel).side),
            arrangement::panels(m.slots, m.placement(panel).side).index_of(panel),
            to,
        ),
        arrangement::panels(m.relocated(panel, to).slots, m.placement(panel).side)[to] == panel,
        forall|other: DockSide|
            other != m.placement(panel).side ==> #[trigger] arrangement::panels(
                m.relocated(panel, to).slots,
                other,
            ) == arrangement::panels(m.slots, other),
        forall|p: PanelId|
            p != panel ==> (#[trigger] m.relocated(panel, to).placement(p)).group == m.placement(
                p,
            ).group,
        m.relocated(panel, to).placement(panel).open,
        m.relocated(panel, to).placement(panel).side == m.placement(panel).side,
        m.relocated(panel, to).placement(panel).group != m.placement(panel).group
            ==> m.relocated(panel, to).placement(panel).active,
        m.relocated(panel, to).valid(),
        m.relocated(panel, to).layout is None,
{
    arrangement::lemma_ranks();
    let side = m.placement(panel).side;
    let listing = arrangement::panels(m.slots, side);
    let from = lemma_listed_at(m, panel);
    tabs::lemma_shifted(m.slots, side, from, to);
    let slots = tabs::shifted(m.slots, side, from, to);
    let moved = DockModel { slots, layout: None, ..m };
    lemma_on_top(moved, panel);
    arrangement::lemma_normalized_arrangement(slots, side);
    arrangement::lemma_moved(listing, from, to);
    let after = m.relocated(panel, to);
    assert(arrangement::panels(after.slots, side) == arrangement::panels(slots, side));
    assert(arrangement::moved(listing, from, to)[to] == listing[arrangement::source(from, to, to)]);
    assert forall|other: DockSide| other != side implies #[trigger] arrangement::panels(
        after.slots,
        other,
    ) == arrangement::panels(m.slots, other) by {
        arrangement::lemma_normalized_arrangement(slots, other);
        assert(arrangement::panels(moved.shown_on_top(panel).slots, other)
            == arrangement::panels(slots, other));
    }
    assert forall|p: PanelId| p != panel implies (#[trigger] after.placement(p)).group
        == m.placement(p).group by {
        let r = p.rank();
    }
}

/// Relocating names a destination, so doing it twice is doing it once: the
/// second has nothing to do and says so.
pub proof fn relocating_twice_moves_once(m: DockModel, panel: PanelId, to: int)
    requires
        m.valid(),
    ensures
        !m.relocated(panel, to).can_relocate(panel, to),
        m.relocated(panel, to).relocated(panel, to) == m.relocated(panel, to),
{
    if m.can_relocate(panel, to) {
        relocating_puts_a_panel_in_its_place(m, panel, to);
    }
}

/// Relocating a panel back restores the order its side drew in.
pub proof fn relocating_back_restores_the_order(m: DockModel, panel: PanelId, to: int)
    requires
        m.valid(),
        m.can_relocate(panel, to),
    ensures
        ({
            let side = m.placement(panel).side;
            let listing = arrangement::panels(m.slots, side);
            let back = m.relocated(panel, to).relocated(panel, listing.index_of(panel));
            arrangement::panels(back.slots, side) == listing
        }),
{
    let side = m.placement(panel).side;
    let listing = arrangement::panels(m.slots, side);
    let from = lemma_listed_at(m, panel);
    relocating_puts_a_panel_in_its_place(m, panel, to);
    let once = m.relocated(panel, to);
    let moved = arrangement::panels(once.slots, side);
    arrangement::lemma_moved(listing, from, to);
    let at = lemma_listed_at(once, panel);
    assert(moved.no_duplicates());
    assert(moved[to] == panel && moved[at] == panel);
    assert(at == to);
    if moved[from] != panel {
        relocating_puts_a_panel_in_its_place(once, panel, from);
    } else {
        assert(from == to);
    }
}

/// A docked panel is open on the side it was docked to.
pub proof fn docking_there_is_settled(m: DockModel, panel: PanelId, side: DockSide)
    requires
        m.valid(),
    ensures
        m.docked(panel, side).placement(panel).open,
        m.docked(panel, side).placement(panel).side == side,
        m.docked(panel, side).valid(),
{
    if !(m.placement(panel).open && m.placement(panel).side == side) {
        lemma_appended(m, panel, side);
    }
}

/// A width, once set, is in range, and setting it again changes nothing.
pub proof fn setting_a_width_twice_sets_it_once(m: DockModel, side: DockSide, width: Real32)
    requires
        m.valid(),
    ensures
        m.resized(side, width).resized(side, width) == m.resized(side, width),
        m.synced(side, width).synced(side, width) == m.synced(side, width),
        m.synced(side, width).layout == m.layout,
        m.extent_moves(side, width) ==> DockModel::usable(side, m.synced(side, width).extent(side))
            == m.synced(side, width).extent(side),
{
}

/// The panel's group number in its side's stack.
proof fn lemma_group_index(m: DockModel, panel: PanelId) -> (at: (int, int))
    requires
        m.valid(),
        m.placement(panel).open,
    ensures
        m.group_index(panel) == Some(at.0),
        arrangement::sits(
            arrangement::groups(m.slots, m.placement(panel).side),
            at.0,
            at.1,
            panel,
        ),
{
    let side = m.placement(panel).side;
    let gs = arrangement::groups(m.slots, side);
    arrangement::lemma_groups(m.slots, side);
    assert(arrangement::on_side(m.slots, side, panel));
    let k = choose|k: int| 0 <= k < gs.len() && #[trigger] gs[k].1.contains(panel);
    let t = choose|t: int| 0 <= t < gs[k].1.len() && gs[k].1[t] == panel;
    assert(gs[k].0 == m.placement(panel).group);
    dock::lemma_stack_index(gs, m.placement(panel).group, k);
    (k, t)
}

/// Every open panel's group has a place in its side's stack.
pub proof fn an_open_panel_has_a_stack_slot(m: DockModel, panel: PanelId)
    requires
        m.valid(),
        m.placement(panel).open,
    ensures
        m.group_index(panel) matches Some(at) && 0 <= at < arrangement::groups(
            m.slots,
            m.placement(panel).side,
        ).len() && arrangement::groups(m.slots, m.placement(panel).side)[at].1.contains(panel),
{
    let at = lemma_group_index(m, panel);
}

/// Groups travel whole. A reorder takes the panel's group out of its side's
/// stack and puts it in at `to`, with every group's tabs as they were and dense
/// numbers; the other sides stay as they are.
pub proof fn reordering_moves_whole_groups(m: DockModel, panel: PanelId, to: int)
    requires
        m.valid(),
        m.can_reorder(panel, to),
    ensures
        arrangement::groups(m.reordered(panel, to).slots, m.placement(panel).side)
            == arrangement::dense(
            arrangement::moved(
                arrangement::groups(m.slots, m.placement(panel).side),
                m.group_index(panel)->0,
                to,
            ),
        ),
        forall|other: DockSide|
            other != m.placement(panel).side ==> #[trigger] arrangement::groups(
                m.reordered(panel, to).slots,
                other,
            ) == arrangement::groups(m.slots, other),
        m.reordered(panel, to).placement(panel).open,
        m.reordered(panel, to).placement(panel).side == m.placement(panel).side,
        m.reordered(panel, to).group_index(panel) == Some(to),
        m.reordered(panel, to).layout is None,
{
    let side = m.placement(panel).side;
    let gs = arrangement::groups(m.slots, side);
    let (from, t) = lemma_group_index(m, panel);
    arrangement::lemma_groups(m.slots, side);
    arrangement::lemma_groups_stack(m.slots, side);
    arrangement::lemma_moved_stack(m.slots, side, gs, from, to);
    arrangement::lemma_moved(gs, from, to);
    let stack = arrangement::moved(gs, from, to);
    arrangement::lemma_renumbered(m.slots, side, stack);
    let slots = arrangement::renumbered(m.slots, stack);
    arrangement::lemma_normalized_arrangement(slots, side);
    assert(stack[to] == gs[arrangement::source(from, to, to)]);
    assert(arrangement::sits(stack, to, t, panel));
    arrangement::lemma_seat(m.slots, side, stack, to, t, panel);
    arrangement::lemma_ranks();
    let after = m.reordered(panel, to);
    assert(after.slots == arrangement::normalized(slots));
    assert(slots[panel.rank()].group == to);
    assert(after.placement(panel).group == to);
    arrangement::lemma_groups(after.slots, side);
    dock::lemma_stack_index(arrangement::groups(after.slots, side), to as u8, to);
    assert forall|other: DockSide| other != side implies #[trigger] arrangement::groups(
        after.slots,
        other,
    ) == arrangement::groups(m.slots, other) by {
        arrangement::lemma_normalized_arrangement(slots, other);
    }
}

/// A reorder names a destination, so doing it twice is doing it once: the
/// second has nothing to do and says so.
pub proof fn reordering_twice_moves_once(m: DockModel, panel: PanelId, to: int)
    requires
        m.valid(),
    ensures
        !m.reordered(panel, to).can_reorder(panel, to),
        m.reordered(panel, to).reordered(panel, to) == m.reordered(panel, to),
{
    if m.can_reorder(panel, to) {
        reordering_moves_whole_groups(m, panel, to);
    }
}

/// Reordering back is the inverse: the side draws as it did before.
pub proof fn reordering_back_restores_the_order(m: DockModel, panel: PanelId, to: int)
    requires
        m.valid(),
        m.can_reorder(panel, to),
    ensures
        ({
            let back = m.reordered(panel, to).reordered(panel, m.group_index(panel)->0);
            arrangement::panels(back.slots, m.placement(panel).side) == arrangement::panels(
                m.slots,
                m.placement(panel).side,
            )
        }),
{
    let side = m.placement(panel).side;
    let gs = arrangement::groups(m.slots, side);
    let from = m.group_index(panel)->0;
    an_open_panel_has_a_stack_slot(m, panel);
    reordering_moves_whole_groups(m, panel, to);
    arrangement::lemma_moved(gs, from, to);
    let once = m.reordered(panel, to);
    let stack = arrangement::moved(gs, from, to);
    assert(once.valid());
    assert(once.can_reorder(panel, from));
    reordering_moves_whole_groups(once, panel, from);
    let back = once.reordered(panel, from);
    let dense = arrangement::dense(stack);
    let hs = arrangement::groups(back.slots, side);
    assert(hs == arrangement::dense(arrangement::moved(dense, to, from)));
    arrangement::lemma_moved(dense, to, from);
    arrangement::lemma_moved(stack, to, from);
    assert(hs.len() == gs.len());
    assert forall|k: int| 0 <= k < gs.len() implies (#[trigger] hs[k]).1 == gs[k].1 by {
        assert(arrangement::moved(dense, to, from)[k] == dense[arrangement::source(to, from, k)]);
        assert(arrangement::moved(stack, to, from)[k] == stack[arrangement::source(to, from, k)]);
    }
    arrangement::lemma_same_tabs_same_panels(back.slots, m.slots, side);
}

/// After normalizing, every group with an open panel has exactly one active
/// tab, and that is the tab it showed before; a closed panel is never active;
/// nothing else has changed.
pub proof fn normalizing_leaves_one_active_tab(m: DockModel, panel: PanelId)
    requires
        m.valid(),
    ensures
        m.normalized().placement(panel).active <==> m.placement(panel).open && arrangement::shown(
            m.slots,
            m.placement(panel).side,
            m.placement(panel).group,
        ) == Some(panel),
        m.placement(panel).open ==> match arrangement::shown(
            m.slots,
            m.placement(panel).side,
            m.placement(panel).group,
        ) {
            Some(p) => m.placement(p).open && m.placement(p).side == m.placement(panel).side
                && m.placement(p).group == m.placement(panel).group && m.normalized().placement(
                p,
            ).active,
            None => false,
        },
        m.normalized().placement(panel) == (PanelPlacement {
            active: m.normalized().placement(panel).active,
            ..m.placement(panel)
        }),
{
    arrangement::lemma_ranks();
    let side = m.placement(panel).side;
    let group = m.placement(panel).group;
    if m.placement(panel).open {
        arrangement::lemma_shown(m.slots, side, group, panel);
    }
}

/// Normalizing twice is normalizing once.
pub proof fn normalizing_twice_changes_nothing(m: DockModel)
    requires
        m.valid(),
    ensures
        m.normalized().normalized() == m.normalized(),
{
    arrangement::lemma_ranks();
    let n = m.normalized();
    assert forall|i: int| 0 <= i < 14 implies #[trigger] n.normalized().slots[i] == n.slots[i] by {
        let panel = PanelId::at(i);
        let side = m.slots[i].side;
        let group = m.slots[i].group;
        if m.slots[i].open {
            arrangement::lemma_shown_settles(m.slots, side, group, panel);
        }
    }
    assert(n.normalized() =~= n);
}

/// Every change of the arrangement keeps exactly one active tab in every group
/// with an open panel, and no closed panel active. Where opening, closing,
/// docking, moving, reordering or relocating changes anything, that holds
/// whatever held before.
pub proof fn every_change_leaves_one_tab_showing(
    m: DockModel,
    panel: PanelId,
    side: DockSide,
    group: u8,
    to: int,
    flag: bool,
)
    requires
        m.valid(),
    ensures
        m.one_tab_shows() || m.with_open(panel, flag) != m ==> m.with_open(
            panel,
            flag,
        ).one_tab_shows(),
        m.one_tab_shows() || m.docked(panel, side) != m ==> m.docked(panel, side).one_tab_shows(),
        m.one_tab_shows() || m.moved_panel(panel, side, group) != m ==> m.moved_panel(
            panel,
            side,
            group,
        ).one_tab_shows(),
        m.one_tab_shows() || m.reordered(panel, to) != m ==> m.reordered(panel, to).one_tab_shows(),
        m.one_tab_shows() || m.relocated(panel, to) != m ==> m.relocated(panel, to).one_tab_shows(),
        m.one_tab_shows() ==> m.raised(panel).one_tab_shows(),
        m.one_tab_shows() ==> m.with_collapsed(panel, flag).one_tab_shows(),
        m.normalized().one_tab_shows(),
{
    arrangement::lemma_ranks();
    arrangement::lemma_normalized_shows_one(m.slots);
    let p = m.placement(panel);
    arrangement::lemma_normalized_shows_one(
        m.placed(panel, PanelPlacement { open: flag, ..p }).slots,
    );
    if flag {
        lemma_on_top(m.placed(panel, PanelPlacement { open: flag, ..p }), panel);
    }
    if flag && !p.open && p.order == 255 {
        lemma_appended(m, panel, p.side);
    }
    if !(p.open && p.side == side) {
        lemma_appended(m, panel, side);
    }
    arrangement::lemma_normalized_shows_one(m.joined(panel, side, group));
    if m.can_reorder(panel, to) {
        arrangement::lemma_normalized_shows_one(
            arrangement::renumbered(
                m.slots,
                arrangement::moved(arrangement::groups(m.slots, p.side), m.group_index(panel)->0, to),
            ),
        );
    }
    if m.can_relocate(panel, to) {
        let from = lemma_listed_at(m, panel);
        tabs::lemma_shifted(m.slots, p.side, from, to);
        let moved = DockModel {
            slots: tabs::shifted(m.slots, p.side, from, to),
            layout: None,
            ..m
        };
        arrangement::lemma_normalized_shows_one(moved.slots);
        lemma_on_top(moved, panel);
    }
    if m.one_tab_shows() {
        lemma_raised_shows_one(m, panel);
        lemma_folded_shows_one(m, panel, flag);
    }
}

proof fn lemma_raised_shows_one(m: DockModel, panel: PanelId)
    requires
        m.valid(),
        m.one_tab_shows(),
    ensures
        m.raised(panel).one_tab_shows(),
{
    arrangement::lemma_ranks();
    let p = m.placement(panel);
    let after = m.raised(panel);
    if p.open {
        assert(arrangement::sole_tab(after.slots, panel)) by {
            assert forall|q: PanelId| #[trigger]
                arrangement::alongside(after.slots, panel, q)
                    && after.slots[q.rank()].active implies q == panel by {
                let r = q.rank();
            }
        }
        assert forall|q: PanelId|
            #![trigger q.rank()]
            after.slots[q.rank()].open implies exists|t: PanelId| #[trigger]
            arrangement::alongside(after.slots, q, t) && arrangement::sole_tab(after.slots, t) by {
            if m.slots[q.rank()].side == p.side && m.slots[q.rank()].group == p.group {
                assert(arrangement::alongside(after.slots, q, panel));
            } else {
                let t = choose|t: PanelId| #[trigger]
                    arrangement::alongside(m.slots, q, t) && arrangement::sole_tab(m.slots, t);
                lemma_tab_kept(m.slots, after.slots, t);
                assert(arrangement::alongside(after.slots, q, t));
            }
        }
    }
}

proof fn lemma_folded_shows_one(m: DockModel, panel: PanelId, collapsed: bool)
    requires
        m.valid(),
        m.one_tab_shows(),
    ensures
        m.with_collapsed(panel, collapsed).one_tab_shows(),
{
    arrangement::lemma_ranks();
    let after = m.with_collapsed(panel, collapsed);
    assert forall|q: PanelId| #![trigger q.rank()] {
        &&& after.slots[q.rank()].open == m.slots[q.rank()].open
        &&& after.slots[q.rank()].active == m.slots[q.rank()].active
        &&& after.slots[q.rank()].side == m.slots[q.rank()].side
        &&& after.slots[q.rank()].group == m.slots[q.rank()].group
    } by {}
    assert forall|q: PanelId| #![trigger q.rank()] after.slots[q.rank()].open implies exists|
        t: PanelId,
    | #[trigger]
        arrangement::alongside(after.slots, q, t) && arrangement::sole_tab(after.slots, t) by {
        let t = choose|t: PanelId| #[trigger]
            arrangement::alongside(m.slots, q, t) && arrangement::sole_tab(m.slots, t);
        lemma_tab_kept(m.slots, after.slots, t);
        assert(arrangement::alongside(after.slots, q, t));
    }
}

/// The one active tab of a group stays that where nothing of its group changes.
proof fn lemma_tab_kept(before: Seq<PanelPlacement>, after: Seq<PanelPlacement>, tab: PanelId)
    requires
        arrangement::sole_tab(before, tab),
        forall|q: PanelId|
            #![trigger q.rank()]
            after[q.rank()].open && after[q.rank()].side == before[tab.rank()].side
                && after[q.rank()].group == before[tab.rank()].group ==> {
                &&& before[q.rank()].open
                &&& before[q.rank()].side == after[q.rank()].side
                &&& before[q.rank()].group == after[q.rank()].group
                &&& before[q.rank()].active == after[q.rank()].active
            },
        after[tab.rank()].open,
        after[tab.rank()].side == before[tab.rank()].side,
        after[tab.rank()].group == before[tab.rank()].group,
    ensures
        arrangement::sole_tab(after, tab),
{
    assert forall|q: PanelId| #[trigger]
        arrangement::alongside(after, tab, q) && after[q.rank()].active implies q == tab by {
        let r = q.rank();
        assert(arrangement::alongside(before, tab, q));
    }
}

/// A named layout shows one tab of every group it opens.
pub proof fn a_layout_shows_one_tab_of_each_group(layout: LayoutId)
    ensures
        DockModel::from_layout(layout).one_tab_shows(),
{
    reveal_with_fuel(dock::laid_out, 8);
    reveal_with_fuel(dock::tabs_before, 8);
    let m = DockModel::from_layout(layout);
    assert forall|p: PanelId| #![trigger p.rank()] m.slots[p.rank()].open implies exists|
        t: PanelId,
    | #[trigger]
        arrangement::alongside(m.slots, p, t) && arrangement::sole_tab(m.slots, t) by {
        let t = match (layout, p) {
            (LayoutId::Essentials, PanelId::Adjustments) => PanelId::Properties,
            (LayoutId::Essentials, PanelId::Color) => PanelId::History,
            (LayoutId::Painting, PanelId::Swatches) => PanelId::Color,
            (LayoutId::Photography, PanelId::Info) => PanelId::Navigator,
            (LayoutId::Photography, PanelId::Adjustments) => PanelId::Properties,
            (LayoutId::Photography, PanelId::Channels) => PanelId::Layers,
            _ => p,
        };
        assert(arrangement::alongside(m.slots, p, t));
    }
}

/// Closing the tab that a group shows and opening it again restores every
/// placement.
pub proof fn closing_and_opening_the_shown_tab_restores_it(m: DockModel, panel: PanelId)
    requires
        m.valid(),
        m.one_tab_shows(),
        m.placement(panel).open,
        m.placement(panel).active,
        m.placement(panel).order < 255,
    ensures
        m.with_open(panel, false).with_open(panel, true).slots == m.slots,
{
    arrangement::lemma_ranks();
    let p = m.placement(panel);
    let gone = m.placed(panel, PanelPlacement { open: false, ..p });
    let closed = m.with_open(panel, false);
    let again = closed.placed(panel, PanelPlacement { open: true, ..closed.placement(panel) });
    let raised = again.raised(panel);
    let owner = choose|t: PanelId| #[trigger]
        arrangement::alongside(m.slots, panel, t) && arrangement::sole_tab(m.slots, t);
    assert(arrangement::alongside(m.slots, owner, panel));
    assert(owner == panel);
    assert forall|q: PanelId| #![trigger q.rank()] raised.slots[q.rank()] == m.slots[q.rank()] by {
        let slot = m.slots[q.rank()];
        if slot.side == p.side && slot.group == p.group {
            if q != panel && slot.active {
                assert(arrangement::alongside(m.slots, panel, q));
            }
        } else {
            if slot.open {
                let t = choose|t: PanelId| #[trigger]
                    arrangement::alongside(m.slots, q, t) && arrangement::sole_tab(m.slots, t);
                lemma_tab_kept(m.slots, gone.slots, t);
                assert(arrangement::alongside(gone.slots, q, t));
                arrangement::lemma_normalized_keeps(gone.slots, q, t);
            } else {
                arrangement::lemma_normalized_keeps(gone.slots, q, q);
            }
        }
    }
    assert forall|i: int| 0 <= i < 14 implies #[trigger] raised.slots[i] == m.slots[i] by {
        assert(PanelId::at(i).rank() == i);
    }
    assert(raised.slots =~= m.slots);
    assert forall|i: int| 0 <= i < 14 implies #[trigger] arrangement::normalized(m.slots)[i]
        == m.slots[i] by {
        let q = PanelId::at(i);
        assert(q.rank() == i);
        if m.slots[i].open {
            let t = choose|t: PanelId| #[trigger]
                arrangement::alongside(m.slots, q, t) && arrangement::sole_tab(m.slots, t);
            arrangement::lemma_normalized_keeps(m.slots, q, t);
        } else {
            arrangement::lemma_normalized_keeps(m.slots, q, q);
        }
    }
    assert(arrangement::normalized(m.slots) =~= m.slots);
}

/// Docking a panel leaves every group it has nothing to do with showing the tab
/// it showed.
pub proof fn docking_leaves_other_groups_alone(
    m: DockModel,
    panel: PanelId,
    side: DockSide,
    other: PanelId,
)
    requires
        m.valid(),
        m.one_tab_shows(),
        other != panel,
        !arrangement::alongside(m.slots, panel, other),
        !arrangement::alongside(m.docked(panel, side).slots, panel, other),
    ensures
        m.docked(panel, side).placement(other).active == m.placement(other).active,
{
    arrangement::lemma_ranks();
    let p = m.placement(panel);
    if !(p.open && p.side == side) {
        tabs::lemma_appended(m.slots, side, panel);
        let base = DockModel { slots: tabs::appended(m.slots, side, panel), layout: None, ..m };
        let raised = base.raised(panel);
        lemma_on_top(base, panel);
        let r = other.rank();
        if m.slots[r].open {
            let t = choose|t: PanelId| #[trigger]
                arrangement::alongside(m.slots, other, t) && arrangement::sole_tab(m.slots, t);
            assert(t != panel);
            let k = t.rank();
            lemma_tab_kept(m.slots, raised.slots, t);
            assert(arrangement::alongside(raised.slots, other, t));
            arrangement::lemma_normalized_keeps(raised.slots, other, t);
        } else {
            arrangement::lemma_normalized_keeps(raised.slots, other, other);
        }
    }
}

} // verus!

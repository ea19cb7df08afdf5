//! View > New Guide Layout: columns, rows, gutters and margins.
//!
//! A number of columns and of rows, each with a gutter between neighbours, laid
//! out inside optional margins. Every column and row contributes a guide on
//! each of its edges and each margin a guide on its line; coincident guides are
//! placed once. Confirms to the document's guide set with the layout's guides
//! added, or, with "Clear existing guides" ticked, in place of the old ones, so
//! one undo removes the whole layout.

use super::chrome;
use super::chrome::{DialogButton, DialogKeys, DialogOutcome};
use crate::guides::{Guide, GuideAxis, GuideSet, Guides};
use crate::ieee::{Real32, Real64};
use crate::strings;
use crate::text;
use vstd::prelude::*;

verus! {

/// The most columns or rows the dialog lays out.
pub const MAX_DIVISIONS: i64 = 100;

/// One thousandth of a pixel: guides closer than this are one guide.
pub const COINCIDENT: u32 = 0x3a83_126f;

/// One direction of the layout: how many divisions, and the gutter between
/// neighbouring divisions, in document pixels.
#[derive(Debug, Clone, Copy, PartialEq, Structural)]
pub struct Divisions {
    pub enabled: bool,
    pub count: i64,
    pub gutter: Real64,
}

/// The four margins, in document pixels, and whether they apply.
#[derive(Debug, Clone, Copy, PartialEq, Structural)]
pub struct Margins {
    pub enabled: bool,
    pub top: Real64,
    pub left: Real64,
    pub bottom: Real64,
    pub right: Real64,
}

/// Everything the dialog asks.
#[derive(Debug, Clone, Copy, PartialEq, Structural)]
pub struct GuideLayoutSpec {
    pub columns: Divisions,
    pub rows: Divisions,
    pub margins: Margins,
    /// Replace the document's guides rather than add to them.
    pub clear_existing: bool,
}

impl GuideLayoutSpec {
    /// The layout the dialog opens on: 8 columns with a 20 px gutter, no rows,
    /// no margins, existing guides kept.
    pub open spec fn opening() -> GuideLayoutSpec {
        GuideLayoutSpec {
            columns: Divisions {
                enabled: true,
                count: 8,
                gutter: Real64 { bits: 0x4034_0000_0000_0000 },
            },
            rows: Divisions {
                enabled: false,
                count: 4,
                gutter: Real64 { bits: 0x4034_0000_0000_0000 },
            },
            margins: Margins {
                enabled: false,
                top: Real64 { bits: 0 },
                left: Real64 { bits: 0 },
                bottom: Real64 { bits: 0 },
                right: Real64 { bits: 0 },
            },
            clear_existing: false,
        }
    }
}

impl Default for GuideLayoutSpec {
    fn default() -> (r: Self)
        ensures
            r == GuideLayoutSpec::opening(),
    {
        GuideLayoutSpec {
            columns: Divisions {
                enabled: true,
                count: 8,
                gutter: Real64 { bits: 0x4034_0000_0000_0000 },
            },
            rows: Divisions {
                enabled: false,
                count: 4,
                gutter: Real64 { bits: 0x4034_0000_0000_0000 },
            },
            margins: Margins {
                enabled: false,
                top: Real64 { bits: 0 },
                left: Real64 { bits: 0 },
                bottom: Real64 { bits: 0 },
                right: Real64 { bits: 0 },
            },
            clear_existing: false,
        }
    }
}

/// How many divisions are laid out: no more than the most the dialog offers.
pub open spec fn laid_out(count: int) -> nat {
    if count > MAX_DIVISIONS {
        MAX_DIVISIONS as nat
    } else if count < 0 {
        0
    } else {
        count as nat
    }
}

/// The width of one of `count` divisions that fill `lo..hi` with `gutter`
/// between them.
pub open spec fn division_size(lo: Real64, hi: Real64, count: int, gutter: Real64) -> Real64 {
    let n = Real64::of_whole(laid_out(count));
    let one = Real64 { bits: 0x3ff0_0000_0000_0000 };
    hi.minus_spec(lo).minus_spec(n.minus_spec(one).times_spec(gutter)).over_spec(n)
}

/// Where division `i` starts.
pub open spec fn division_start(lo: Real64, size: Real64, gutter: Real64, i: nat) -> Real64 {
    lo.plus_spec(Real64::of_whole(i).times_spec(size.plus_spec(gutter)))
}

/// The edges of `count` divisions with `gutter` between them, filling `lo..hi`.
/// There are none when the gutters leave no room (a division would have no
/// width) or a number is not finite.
pub open spec fn edges(lo: Real64, hi: Real64, count: int, gutter: Real64) -> Option<Seq<Real64>> {
    let size = division_size(lo, hi, count, gutter);
    if !(lo.finite() && hi.finite() && gutter.finite()) || count < 1 || gutter.below(
        Real64 { bits: 0 },
    ) || size.at_most(Real64 { bits: 0 }) {
        None
    } else {
        Some(
            Seq::new(
                2 * laid_out(count),
                |j: int|
                    {
                        let start = division_start(lo, size, gutter, (j / 2) as nat);
                        if j % 2 == 0 {
                            start
                        } else {
                            start.plus_spec(size)
                        }
                    },
            ),
        )
    }
}

fn division_edges(lo: Real64, hi: Real64, count: i64, gutter: Real64) -> (r: Option<Vec<Real64>>)
    ensures
        chrome::request_view(r) == edges(lo, hi, count as int, gutter),
{
    if !(lo.is_finite() && hi.is_finite() && gutter.is_finite()) || count < 1 || gutter.is_below(
        Real64 { bits: 0 },
    ) {
        return None;
    }
    let most: u64 = if count > MAX_DIVISIONS {
        MAX_DIVISIONS as u64
    } else {
        count as u64
    };
    let n = Real64::from_u64(most);
    let one = Real64 { bits: 0x3ff0_0000_0000_0000 };
    let size = hi.minus(lo).minus(n.minus(one).times(gutter)).over(n);
    if size.is_at_most(Real64 { bits: 0 }) {
        return None;
    }
    let ghost all = edges(lo, hi, count as int, gutter)->0;
    let mut out: Vec<Real64> = Vec::new();
    let mut i: u64 = 0;
    while i < most
        invariant
            i <= most,
            most == laid_out(count as int),
            size == division_size(lo, hi, count as int, gutter),
            edges(lo, hi, count as int, gutter) == Some(all),
            out@.len() == 2 * i,
            out@ == all.take(2 * i),
        decreases most - i,
    {
        let start = lo.plus(Real64::from_u64(i).times(size.plus(gutter)));
        out.push(start);
        out.push(start.plus(size));
        assert(all[2 * i] == start);
        assert(all[2 * i + 1] == start.plus_spec(size));
        assert(out@ == all.take(2 * i + 2));
        i = i + 1;
    }
    assert(all.take(2 * most) == all);
    Some(out)
}

/// A guide close enough to a coordinate on the axis to be that guide.
pub open spec fn coincides(g: Guide, axis: GuideAxis, doc: Real32) -> bool {
    g.axis == axis && g.doc.minus_spec(doc).size_spec().below(Real32 { bits: COINCIDENT })
}

/// One more guide, unless one is there already.
pub open spec fn placed_once(placed: Seq<Guide>, axis: GuideAxis, doc: Real32) -> Seq<Guide> {
    if exists|i: int| 0 <= i < placed.len() && coincides(#[trigger] placed[i], axis, doc) {
        placed
    } else {
        placed.push(Guide { axis, doc, locked: false })
    }
}

/// A guide at each coordinate, in order, each placed once.
pub open spec fn all_placed(placed: Seq<Guide>, axis: GuideAxis, at: Seq<Real64>) -> Seq<Guide>
    decreases at.len(),
{
    if at.len() == 0 {
        placed
    } else {
        placed_once(all_placed(placed, axis, at.drop_last()), axis, at.last().narrowed_spec())
    }
}

fn place_all(placed: &mut Vec<Guide>, axis: GuideAxis, at: &Vec<Real64>)
    ensures
        final(placed)@ == all_placed(old(placed)@, axis, at@),
{
    let ghost before = placed@;
    let mut i: usize = 0;
    while i < at.len()
        invariant
            i <= at@.len(),
            placed@ == all_placed(before, axis, at@.take(i as int)),
        decreases at@.len() - i,
    {
        let doc = at[i].narrowed();
        let mut found = false;
        let mut j: usize = 0;
        while j < placed.len()
            invariant
                j <= placed@.len(),
                found == exists|k: int| 0 <= k < j && coincides(#[trigger] placed@[k], axis, doc),
            decreases placed@.len() - j,
        {
            let g = placed[j];
            if g.axis == axis && g.doc.minus(doc).abs().is_below(Real32 { bits: COINCIDENT }) {
                found = true;
                assert(coincides(placed@[j as int], axis, doc));
            }
            j = j + 1;
        }
        assert(at@.take(i + 1).drop_last() == at@.take(i as int));
        assert(at@.take(i + 1).last() == at@[i as int]);
        if !found {
            placed.push(Guide { axis, doc, locked: false });
        }
        i = i + 1;
    }
    assert(at@.take(i as int) == at@);
}

impl GuideLayoutSpec {
    /// What is left of the canvas inside the margins: left, right, top, bottom.
    pub open spec fn inside(self, canvas: (u32, u32)) -> (Real64, Real64, Real64, Real64) {
        let w = Real64::of_whole(canvas.0 as nat);
        let h = Real64::of_whole(canvas.1 as nat);
        if self.margins.enabled {
            (
                self.margins.left,
                w.minus_spec(self.margins.right),
                self.margins.top,
                h.minus_spec(self.margins.bottom),
            )
        } else {
            (Real64 { bits: 0 }, w, Real64 { bits: 0 }, h)
        }
    }

    /// Where the divisions of one direction have their edges.
    pub open spec fn divided(d: Divisions, lo: Real64, hi: Real64) -> Option<Seq<Real64>> {
        if d.enabled {
            edges(lo, hi, d.count as int, d.gutter)
        } else {
            Some(Seq::empty())
        }
    }

    /// Where the margins of one direction have their lines.
    pub open spec fn margin_lines(self, lo: Real64, hi: Real64) -> Seq<Real64> {
        if self.margins.enabled {
            seq![lo, hi]
        } else {
            Seq::empty()
        }
    }

    /// The guides this layout places on a canvas: those of the columns, of the
    /// rows, of the margins.
    pub open spec fn placed(self, canvas: (u32, u32)) -> Option<Seq<Guide>> {
        let (left, right, top, bottom) = self.inside(canvas);
        if !(left.below(right) && top.below(bottom)) {
            None
        } else {
            match (
                GuideLayoutSpec::divided(self.columns, left, right),
                GuideLayoutSpec::divided(self.rows, top, bottom),
            ) {
                (Some(columns), Some(rows)) => Some(
                    all_placed(
                        all_placed(
                            all_placed(
                                all_placed(Seq::empty(), GuideAxis::Vertical, columns),
                                GuideAxis::Horizontal,
                                rows,
                            ),
                            GuideAxis::Vertical,
                            self.margin_lines(left, right),
                        ),
                        GuideAxis::Horizontal,
                        self.margin_lines(top, bottom),
                    ),
                ),
                _ => None,
            }
        }
    }

    fn divide(d: Divisions, lo: Real64, hi: Real64) -> (r: Option<Vec<Real64>>)
        ensures
            chrome::request_view(r) == GuideLayoutSpec::divided(d, lo, hi),
    {
        if d.enabled {
            division_edges(lo, hi, d.count, d.gutter)
        } else {
            Some(Vec::new())
        }
    }

    fn lines_of_margins(&self, lo: Real64, hi: Real64) -> (r: Vec<Real64>)
        ensures
            r@ == self.margin_lines(lo, hi),
    {
        let mut out: Vec<Real64> = Vec::new();
        if self.margins.enabled {
            out.push(lo);
            out.push(hi);
        }
        out
    }

    /// The guides this layout places on a `canvas` (width, height), in the
    /// order columns, rows, margins, each placed once. `None` when the margins
    /// or the gutters leave no room for a column or a row.
    pub fn guides(&self, canvas: (u32, u32)) -> (r: Option<Vec<Guide>>)
        ensures
            chrome::request_view(r) == self.placed(canvas),
    {
        let w = Real64::from_u64(canvas.0 as u64);
        let h = Real64::from_u64(canvas.1 as u64);
        let m = self.margins;
        let (left, right, top, bottom) = if m.enabled {
            (m.left, w.minus(m.right), m.top, h.minus(m.bottom))
        } else {
            (Real64 { bits: 0 }, w, Real64 { bits: 0 }, h)
        };
        if !(left.is_below(right) && top.is_below(bottom)) {
            return None;
        }
        let columns = match Self::divide(self.columns, left, right) {
            Some(columns) => columns,
            None => {
                return None;
            },
        };
        let rows = match Self::divide(self.rows, top, bottom) {
            Some(rows) => rows,
            None => {
                return None;
            },
        };
        let mut out: Vec<Guide> = Vec::new();
        place_all(&mut out, GuideAxis::Vertical, &columns);
        place_all(&mut out, GuideAxis::Horizontal, &rows);
        place_all(&mut out, GuideAxis::Vertical, &self.lines_of_margins(left, right));
        place_all(&mut out, GuideAxis::Horizontal, &self.lines_of_margins(top, bottom));
        Some(out)
    }
}

/// No guide coincides with one placed before it.
pub open spec fn distinct(placed: Seq<Guide>) -> bool {
    forall|i: int, j: int|
        0 <= i < j < placed.len() ==> !coincides(
            #[trigger] placed[i],
            (#[trigger] placed[j]).axis,
            placed[j].doc,
        )
}

/// A coordinate has a guide: its own, or one that coincides with it.
pub open spec fn covered(placed: Seq<Guide>, axis: GuideAxis, doc: Real32) -> bool {
    exists|i: int|
        0 <= i < placed.len() && (#[trigger] placed[i]).axis == axis && (placed[i].doc == doc
            || coincides(placed[i], axis, doc))
}

proof fn lemma_covered_stays(a: Seq<Guide>, b: Seq<Guide>, axis: GuideAxis, doc: Real32)
    requires
        a.is_prefix_of(b),
        covered(a, axis, doc),
    ensures
        covered(b, axis, doc),
{
    let i = choose|i: int|
        0 <= i < a.len() && (#[trigger] a[i]).axis == axis && (a[i].doc == doc || coincides(
            a[i],
            axis,
            doc,
        ));
    assert(b[i] == a[i]);
}

proof fn lemma_all_placed(placed: Seq<Guide>, axis: GuideAxis, at: Seq<Real64>)
    requires
        distinct(placed),
    ensures
        distinct(all_placed(placed, axis, at)),
        placed.is_prefix_of(all_placed(placed, axis, at)),
        all_covered(all_placed(placed, axis, at), axis, at),
    decreases at.len(),
{
    if at.len() > 0 {
        let head = at.drop_last();
        let before = all_placed(placed, axis, head);
        let after = all_placed(placed, axis, at);
        let doc = at.last().narrowed_spec();
        lemma_all_placed(placed, axis, head);
        assert(after == placed_once(before, axis, doc));
        assert(before.is_prefix_of(after));
        assert(covered(after, axis, doc)) by {
            if exists|i: int| 0 <= i < before.len() && coincides(#[trigger] before[i], axis, doc) {
                let i = choose|i: int|
                    0 <= i < before.len() && coincides(#[trigger] before[i], axis, doc);
                assert(after[i].axis == axis);
            } else {
                assert(after[before.len() as int].axis == axis);
            }
        }
        assert forall|k: int| 0 <= k < at.len() implies covered(
            after,
            axis,
            (#[trigger] at[k]).narrowed_spec(),
        ) by {
            if k < head.len() {
                assert(head[k] == at[k]);
                lemma_covered_stays(before, after, axis, at[k].narrowed_spec());
            }
        }
    }
}

proof fn lemma_covered_all(
    a: Seq<Guide>,
    b: Seq<Guide>,
    axis: GuideAxis,
    at: Seq<Real64>,
)
    requires
        a.is_prefix_of(b),
        all_covered(a, axis, at),
    ensures
        all_covered(b, axis, at),
{
    assert forall|k: int| 0 <= k < at.len() implies covered(
        b,
        axis,
        (#[trigger] at[k]).narrowed_spec(),
    ) by {
        lemma_covered_stays(a, b, axis, at[k].narrowed_spec());
    }
}

/// Every line of a direction has its guide.
pub open spec fn all_covered(placed: Seq<Guide>, axis: GuideAxis, at: Seq<Real64>) -> bool {
    forall|k: int|
        0 <= k < at.len() ==> covered(placed, axis, (#[trigger] at[k]).narrowed_spec())
}

/// Coincident guides are placed once; every line of the columns, the rows and
/// the margins has its guide; and the guides of the columns come first, then
/// those the rows add, then those the margins add.
pub proof fn every_line_has_one_guide(spec: GuideLayoutSpec, canvas: (u32, u32))
    requires
        spec.placed(canvas) is Some,
    ensures
        distinct(spec.placed(canvas)->0),
        ({
            let (left, right, top, bottom) = spec.inside(canvas);
            let columns = GuideLayoutSpec::divided(spec.columns, left, right)->0;
            let rows = GuideLayoutSpec::divided(spec.rows, top, bottom)->0;
            let placed = spec.placed(canvas)->0;
            &&& all_covered(placed, GuideAxis::Vertical, columns)
            &&& all_covered(placed, GuideAxis::Horizontal, rows)
            &&& all_covered(placed, GuideAxis::Vertical, spec.margin_lines(left, right))
            &&& all_covered(placed, GuideAxis::Horizontal, spec.margin_lines(top, bottom))
            &&& all_placed(Seq::empty(), GuideAxis::Vertical, columns).is_prefix_of(placed)
            &&& all_placed(
                all_placed(Seq::empty(), GuideAxis::Vertical, columns),
                GuideAxis::Horizontal,
                rows,
            ).is_prefix_of(placed)
        }),
{
    let (left, right, top, bottom) = spec.inside(canvas);
    let columns = GuideLayoutSpec::divided(spec.columns, left, right)->0;
    let rows = GuideLayoutSpec::divided(spec.rows, top, bottom)->0;
    let across = spec.margin_lines(left, right);
    let down = spec.margin_lines(top, bottom);
    let first = all_placed(Seq::empty(), GuideAxis::Vertical, columns);
    let second = all_placed(first, GuideAxis::Horizontal, rows);
    let third = all_placed(second, GuideAxis::Vertical, across);
    let fourth = all_placed(third, GuideAxis::Horizontal, down);
    lemma_all_placed(Seq::empty(), GuideAxis::Vertical, columns);
    lemma_all_placed(first, GuideAxis::Horizontal, rows);
    lemma_all_placed(second, GuideAxis::Vertical, across);
    lemma_all_placed(third, GuideAxis::Horizontal, down);
    lemma_covered_all(first, fourth, GuideAxis::Vertical, columns);
    lemma_covered_all(second, fourth, GuideAxis::Horizontal, rows);
    lemma_covered_all(third, fourth, GuideAxis::Vertical, across);
}

/// What a [`NewGuideLayoutDialog`] stands for.
#[verifier::ext_equal]
pub struct NewGuideLayoutModel {
    pub current: GuideSet,
    pub canvas: (u32, u32),
    pub spec: GuideLayoutSpec,
}

impl NewGuideLayoutModel {
    /// What a confirmation hands over: the layout's guides behind the current
    /// ones, or in their place.
    pub open spec fn confirmation(self) -> Option<GuideSet> {
        match self.spec.placed(self.canvas) {
            Some(placed) => Some(
                if self.spec.clear_existing {
                    GuideSet { list: placed, ..self.current }
                } else {
                    self.current.with(placed)
                },
            ),
            None => None,
        }
    }
}

/// View > New Guide Layout.
#[derive(Debug)]
pub struct NewGuideLayoutDialog {
    current: Guides,
    canvas: (u32, u32),
    spec: GuideLayoutSpec,
}

impl View for NewGuideLayoutDialog {
    type V = NewGuideLayoutModel;

    closed spec fn view(&self) -> NewGuideLayoutModel {
        NewGuideLayoutModel { current: self.current@, canvas: self.canvas, spec: self.spec }
    }
}

impl NewGuideLayoutDialog {
    /// Over the document's current guide set and its canvas size.
    pub fn new(current: Guides, canvas: (u32, u32)) -> (r: Self)
        ensures
            r@ == (NewGuideLayoutModel {
                current: current@,
                canvas,
                spec: GuideLayoutSpec::opening(),
            }),
    {
        NewGuideLayoutDialog { current, canvas, spec: GuideLayoutSpec::default() }
    }

    pub fn spec(&self) -> (r: GuideLayoutSpec)
        ensures
            r == self@.spec,
    {
        self.spec
    }

    pub fn set_spec(&mut self, spec: GuideLayoutSpec)
        ensures
            final(self)@ == (NewGuideLayoutModel { spec, ..old(self)@ }),
    {
        self.spec = spec;
    }

    /// The whole set a confirmation writes, or `None` when the layout does not
    /// fit (see [`GuideLayoutSpec::guides`]).
    pub fn guides_after(&self) -> (r: Option<Guides>)
        ensures
            chrome::request_view(r) == self@.confirmation(),
    {
        match self.spec.guides(self.canvas) {
            Some(placed) => {
                let mut next = self.current.clone();
                if self.spec.clear_existing {
                    next.list = placed;
                } else {
                    let mut placed = placed;
                    next.list.append(&mut placed);
                }
                Some(next)
            },
            None => None,
        }
    }

    pub fn title(&self) -> (r: &'static str)
        ensures
            r@ == strings::entry("ui.new_guide_layout.title"@),
    {
        strings::tr("ui.new_guide_layout.title")
    }

    pub fn confirm_label(&self) -> (r: &'static str)
        ensures
            r@ == "Place"@,
    {
        "Place"
    }

    /// The guide set a confirmation writes, or `None` while blocked.
    pub fn confirm(&self) -> (r: Option<Guides>)
        ensures
            chrome::request_view(r) == self@.confirmation(),
    {
        self.guides_after()
    }

    /// Why Place is unavailable, or `None` when it is live.
    pub fn blocked_reason(&self) -> (r: Option<String>)
        ensures
            match r {
                Some(reason) => self@.confirmation() is None && reason@ == strings::entry(
                    "ui.new_guide_layout.no.room"@,
                ),
                None => self@.confirmation() is Some,
            },
    {
        if self.guides_after().is_none() {
            Some(text::copied(strings::tr("ui.new_guide_layout.no.room")))
        } else {
            None
        }
    }

    /// What the keyboard makes of the dialog: Escape cancels, Enter confirms.
    pub fn resolve(&self, keys: DialogKeys) -> (r: DialogOutcome<Guides>)
        ensures
            r@ == chrome::settled(keys, self@.confirmation()),
    {
        chrome::settle(keys, self.confirm())
    }

    /// What a press in the action row makes of the dialog.
    pub fn press(&self, button: DialogButton) -> (r: DialogOutcome<Guides>)
        ensures
            r@ == chrome::pressed(button, self@.confirmation()),
    {
        chrome::press(button, self.confirm())
    }
}

} // verus!

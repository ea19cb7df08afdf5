//! Edit ▸ Perspective Warp: draw quads, then drag their corners.
//!
//! Two modes:
//!
//! * **Layout**: a drag on the preview draws a quad over one plane of the
//!   image; dragging an existing corner re-shapes the quad (source and target
//!   together, since nothing has been warped yet).
//! * **Warp**: dragging a corner moves only where it goes; the plane under the
//!   quad follows.
//!
//! Enter commits a [`PerspectiveWarpSpec`], the quads in document pixels.
//! Escape writes nothing.

use super::chrome;
use super::chrome::{DialogButton, DialogKeys, DialogOutcome};
use crate::geometry;
use crate::geometry::{Point, Quad};
use crate::ieee::Real32;
use crate::strings;
use crate::text;
use vstd::prelude::*;

verus! {

/// Which half of the tool the canvas is in.
#[derive(Clone, Copy, PartialEq, Eq, Structural, Hash, Debug)]
pub enum WarpMode {
    /// Draw and shape quads.
    Layout,
    /// Drag the corners to warp.
    Warp,
}

impl Default for WarpMode {
    fn default() -> (r: Self)
        ensures
            r == WarpMode::Layout,
    {
        WarpMode::Layout
    }
}

impl WarpMode {
    pub const ALL: [WarpMode; 2] = [WarpMode::Layout, WarpMode::Warp];

    pub fn label(self) -> (r: &'static str)
        ensures
            r@ == match self {
                WarpMode::Layout => "Layout"@,
                WarpMode::Warp => "Warp"@,
            },
    {
        match self {
            WarpMode::Layout => "Layout",
            WarpMode::Warp => "Warp",
        }
    }
}

/// A quad as it was drawn, and where its corners go.
#[derive(Clone, Copy, PartialEq, Structural, Debug)]
pub struct WarpQuad {
    pub source: Quad,
    pub target: Quad,
}

/// A confirmed Perspective Warp, in document pixels.
#[derive(PartialEq, Debug)]
pub struct PerspectiveWarpSpec {
    pub image_size: (u32, u32),
    pub quads: Vec<WarpQuad>,
}

/// What a [`PerspectiveWarpSpec`] stands for.
#[verifier::ext_equal]
pub struct WarpRequest {
    pub image_size: (u32, u32),
    pub quads: Seq<WarpQuad>,
}

impl View for PerspectiveWarpSpec {
    type V = WarpRequest;

    open spec fn view(&self) -> WarpRequest {
        WarpRequest { image_size: self.image_size, quads: self.quads@ }
    }
}

/// No corner goes anywhere but where it was drawn.
pub open spec fn unmoved(quads: Seq<WarpQuad>) -> bool {
    forall|i: int| 0 <= i < quads.len() ==> (#[trigger] quads[i]).source.same(quads[i].target)
}

fn quads_unmoved(quads: &Vec<WarpQuad>) -> (r: bool)
    ensures
        r == unmoved(quads@),
{
    let mut i: usize = 0;
    while i < quads.len()
        invariant
            i <= quads@.len(),
            forall|k: int| 0 <= k < i ==> (#[trigger] quads@[k]).source.same(quads@[k].target),
        decreases quads@.len() - i,
    {
        if !quads[i].source.same_as(quads[i].target) {
            return false;
        }
        i = i + 1;
    }
    true
}

impl PerspectiveWarpSpec {
    /// Whether the warp changes nothing.
    pub fn is_identity(&self) -> (r: bool)
        ensures
            r == unmoved(self@.quads),
    {
        quads_unmoved(&self.quads)
    }
}

/// What a drag on the canvas is doing.
#[derive(Clone, Copy, PartialEq, Structural, Debug)]
pub enum Drag {
    /// Drawing a new quad from this document point.
    Drawing(Point),
    /// Moving corner `corner` of quad `quad`.
    Corner { quad: usize, corner: usize },
}

/// Every corner handle: the warped corners, quad by quad.
pub open spec fn handles(quads: Seq<WarpQuad>) -> Seq<Point> {
    Seq::new(4 * quads.len(), |k: int| quads[k / 4].target.corners()[k % 4])
}

/// A quad with one corner moved: in Layout both the drawn and the warped
/// corner, in Warp only the warped one.
pub open spec fn reshaped(q: WarpQuad, mode: WarpMode, corner: int, p: Point) -> WarpQuad {
    WarpQuad {
        source: if mode == WarpMode::Layout {
            q.source.with(corner, p)
        } else {
            q.source
        },
        target: q.target.with(corner, p),
    }
}

/// Two coordinates less than two pixels apart.
pub open spec fn too_near(a: Real32, b: Real32) -> bool {
    a.minus_spec(b).size_spec().below(Real32 { bits: 0x4000_0000 })
}

/// What a [`PerspectiveWarpDialog`] stands for.
#[verifier::ext_equal]
pub struct PerspectiveModel {
    pub width: u32,
    pub height: u32,
    pub mode: WarpMode,
    pub quads: Seq<WarpQuad>,
    pub drag: Option<Drag>,
    /// The rectangle being drawn.
    pub rubber: Option<(Point, Point)>,
    /// The preview is out of date.
    pub dirty: bool,
}

impl PerspectiveModel {
    pub open spec fn opened(width: u32, height: u32) -> PerspectiveModel {
        PerspectiveModel {
            width,
            height,
            mode: WarpMode::Layout,
            quads: Seq::empty(),
            drag: None,
            rubber: None,
            dirty: true,
        }
    }

    /// A rectangle can be drawn as a quad: in Layout, and with an area, also
    /// once it is brought inside the image.
    pub open spec fn drawable(self, a: Point, b: Point) -> bool {
        let start = a.inside(self.width, self.height);
        let end = b.inside(self.width, self.height);
        &&& self.mode == WarpMode::Layout
        &&& !too_near(a.x, b.x) && !too_near(a.y, b.y)
        &&& !start.x.equals(end.x) && !start.y.equals(end.y)
    }

    /// A rectangle added as a quad, inside the image.
    pub open spec fn with_quad(self, a: Point, b: Point) -> PerspectiveModel {
        if self.drawable(a, b) {
            let drawn = Quad::spanned(
                a.inside(self.width, self.height),
                b.inside(self.width, self.height),
            );
            PerspectiveModel {
                quads: self.quads.push(WarpQuad { source: drawn, target: drawn }),
                dirty: true,
                ..self
            }
        } else {
            self
        }
    }

    /// A corner moved; a quad or a corner that is not there changes nothing.
    pub open spec fn with_corner(self, quad: int, corner: int, p: Point) -> PerspectiveModel {
        if 0 <= quad < self.quads.len() && 0 <= corner < 4 {
            PerspectiveModel {
                quads: self.quads.update(quad, reshaped(self.quads[quad], self.mode, corner, p)),
                dirty: true,
                ..self
            }
        } else {
            self
        }
    }

    /// The handle within a radius of a point, nearest first: its quad and its
    /// corner.
    pub open spec fn corner_near(self, p: Point, radius: Real32) -> Option<(int, int)> {
        match geometry::nearest_within(handles(self.quads), p, radius) {
            Some(k) => Some((k / 4, k % 4)),
            None => None,
        }
    }

    /// What a drag that starts at a point does: it takes the handle that is
    /// near, or in Layout draws a quad.
    pub open spec fn grabbed(self, p: Point, pick: Real32) -> PerspectiveModel {
        PerspectiveModel {
            drag: match self.corner_near(p, pick) {
                Some((quad, corner)) => Some(
                    Drag::Corner { quad: quad as usize, corner: corner as usize },
                ),
                None => if self.mode == WarpMode::Layout {
                    Some(Drag::Drawing(p))
                } else {
                    None
                },
            },
            ..self
        }
    }

    /// The drag goes on to a point.
    pub open spec fn dragged(self, p: Point) -> PerspectiveModel {
        match self.drag {
            Some(Drag::Corner { quad, corner }) => self.with_corner(quad as int, corner as int, p),
            Some(Drag::Drawing(start)) => PerspectiveModel { rubber: Some((start, p)), ..self },
            None => self,
        }
    }

    /// The drag ends; a quad being drawn is added.
    pub open spec fn dropped(self, p: Option<Point>) -> PerspectiveModel {
        let added = match (self.drag, p) {
            (Some(Drag::Drawing(start)), Some(end)) => self.with_quad(start, end),
            _ => self,
        };
        PerspectiveModel { drag: None, rubber: None, ..added }
    }

    /// Every quad thrown away.
    pub open spec fn emptied(self) -> PerspectiveModel {
        PerspectiveModel { quads: Seq::empty(), drag: None, dirty: true, ..self }
    }

    /// What a confirmation commits: a warp that moves something.
    pub open spec fn confirmation(self) -> Option<WarpRequest> {
        if unmoved(self.quads) {
            None
        } else {
            Some(WarpRequest { image_size: (self.width, self.height), quads: self.quads })
        }
    }
}

/// A quad left as it was drawn warps nothing: drawing, and re-shaping in
/// Layout, keep an unmoved set of quads unmoved.
pub proof fn layout_warps_nothing(
    m: PerspectiveModel,
    a: Point,
    b: Point,
    quad: int,
    corner: int,
    p: Point,
)
    requires
        m.mode == WarpMode::Layout,
        unmoved(m.quads),
        a.finite(),
        b.finite(),
        p.finite(),
    ensures
        m.with_quad(a, b).confirmation() is None,
        m.with_corner(quad, corner, p).confirmation() is None,
{
    geometry::lemma_inside_finite(a, m.width, m.height);
    geometry::lemma_inside_finite(b, m.width, m.height);
}

/// A quad added to the layout has its corners inside the image, and an area:
/// its sides stand apart across and down.
pub proof fn a_drawn_quad_has_an_area(m: PerspectiveModel, a: Point, b: Point)
    requires
        a.finite(),
        b.finite(),
        m.drawable(a, b),
    ensures
        ({
            let drawn = m.with_quad(a, b).quads.last().source;
            let right = Real32::of_whole(m.width as nat);
            let bottom = Real32::of_whole(m.height as nat);
            let zero = Real32 { bits: 0 };
            &&& zero.at_most(drawn.top_left.x) && drawn.top_left.x.at_most(right)
            &&& zero.at_most(drawn.top_left.y) && drawn.top_left.y.at_most(bottom)
            &&& zero.at_most(drawn.bottom_right.x) && drawn.bottom_right.x.at_most(right)
            &&& zero.at_most(drawn.bottom_right.y) && drawn.bottom_right.y.at_most(bottom)
            &&& drawn.top_left.x.below(drawn.top_right.x) || drawn.top_right.x.below(
                drawn.top_left.x,
            )
            &&& drawn.top_left.y.below(drawn.bottom_left.y) || drawn.bottom_left.y.below(
                drawn.top_left.y,
            )
        }),
{
    geometry::lemma_inside_finite(a, m.width, m.height);
    geometry::lemma_inside_finite(b, m.width, m.height);
    Real32::lemma_of_whole(m.width as nat);
    Real32::lemma_of_whole(m.height as nat);
}

/// In Warp a drag moves only where a corner goes: every quad stays as it was
/// drawn, and no quad can be added.
pub proof fn warping_keeps_the_drawn_quads(
    m: PerspectiveModel,
    quad: int,
    corner: int,
    p: Point,
    a: Point,
    b: Point,
)
    requires
        m.mode == WarpMode::Warp,
    ensures
        m.with_corner(quad, corner, p).quads.len() == m.quads.len(),
        forall|i: int|
            0 <= i < m.quads.len() ==> (#[trigger] m.with_corner(
                quad,
                corner,
                p,
            ).quads[i]).source == m.quads[i].source,
        m.with_quad(a, b) == m,
{
}

/// Edit ▸ Perspective Warp.
#[derive(Debug)]
pub struct PerspectiveWarpDialog {
    width: u32,
    height: u32,
    mode: WarpMode,
    quads: Vec<WarpQuad>,
    drag: Option<Drag>,
    rubber: Option<(Point, Point)>,
    dirty: bool,
}

impl View for PerspectiveWarpDialog {
    type V = PerspectiveModel;

    closed spec fn view(&self) -> PerspectiveModel {
        PerspectiveModel {
            width: self.width,
            height: self.height,
            mode: self.mode,
            quads: self.quads@,
            drag: self.drag,
            rubber: self.rubber,
            dirty: self.dirty,
        }
    }
}

impl PerspectiveWarpDialog {
    /// Over a layer of the size.
    pub fn new(width: u32, height: u32) -> (r: Self)
        ensures
            r@ == PerspectiveModel::opened(width, height),
    {
        PerspectiveWarpDialog {
            width,
            height,
            mode: WarpMode::Layout,
            quads: Vec::new(),
            drag: None,
            rubber: None,
            dirty: true,
        }
    }

    pub fn mode(&self) -> (r: WarpMode)
        ensures
            r == self@.mode,
    {
        self.mode
    }

    pub fn set_mode(&mut self, mode: WarpMode)
        ensures
            final(self)@ == (PerspectiveModel { mode, ..old(self)@ }),
    {
        self.mode = mode;
    }

    pub fn quads(&self) -> (r: &Vec<WarpQuad>)
        ensures
            r@ == self@.quads,
    {
        &self.quads
    }

    /// The rectangle being drawn, for the overlay.
    pub fn rubber(&self) -> (r: Option<(Point, Point)>)
        ensures
            r == self@.rubber,
    {
        self.rubber
    }

    /// Whether the preview is out of date. The host that renders it again says
    /// so with [`PerspectiveWarpDialog::preview_rendered`].
    pub fn is_dirty(&self) -> (r: bool)
        ensures
            r == self@.dirty,
    {
        self.dirty
    }

    pub fn preview_rendered(&mut self)
        ensures
            final(self)@ == (PerspectiveModel { dirty: false, ..old(self)@ }),
    {
        self.dirty = false;
    }

    /// Layout: add the rectangle `a`-`b` (document points) as a quad. Refused
    /// (returns `None`) in Warp mode or when it has no area inside the image.
    pub fn add_quad(&mut self, a: Point, b: Point) -> (r: Option<usize>)
        ensures
            final(self)@ == old(self)@.with_quad(a, b),
            match r {
                Some(i) => old(self)@.drawable(a, b) && i == old(self)@.quads.len(),
                None => !old(self)@.drawable(a, b),
            },
    {
        let two = Real32 { bits: 0x4000_0000 };
        if self.mode != WarpMode::Layout || a.x.minus(b.x).abs().is_below(two) || a.y.minus(
            b.y,
        ).abs().is_below(two) {
            return None;
        }
        let start = a.clamped_into(self.width, self.height);
        let end = b.clamped_into(self.width, self.height);
        if start.x.is_equal(end.x) || start.y.is_equal(end.y) {
            return None;
        }
        let drawn = Quad::rect(start, end);
        let at: usize = self.quads.len();
        self.quads.push(WarpQuad { source: drawn, target: drawn });
        self.dirty = true;
        Some(at)
    }

    /// Move a corner to document point `p`: in Layout both the drawn and the
    /// warped corner (the quad is re-shaped), in Warp only the warped one.
    pub fn move_corner(&mut self, quad: usize, corner: usize, p: Point)
        ensures
            final(self)@ == old(self)@.with_corner(quad as int, corner as int, p),
    {
        if quad < self.quads.len() && corner < 4 {
            let mut q = self.quads[quad];
            if self.mode == WarpMode::Layout {
                q.source.set(corner, p);
            }
            q.target.set(corner, p);
            self.quads.set(quad, q);
            self.dirty = true;
        }
    }

    /// Throw every quad away.
    pub fn reset(&mut self)
        ensures
            final(self)@ == old(self)@.emptied(),
    {
        self.quads = Vec::new();
        self.drag = None;
        self.dirty = true;
    }

    /// The corner within `radius` document pixels of `p`, nearest first: the
    /// warped corners (what is drawn) are the handles.
    pub fn corner_near(&self, p: Point, radius: Real32) -> (r: Option<(usize, usize)>)
        ensures
            match r {
                Some((quad, corner)) => self@.corner_near(p, radius) == Some(
                    (quad as int, corner as int),
                ),
                None => self@.corner_near(p, radius) is None,
            },
    {
        let ghost all = handles(self.quads@);
        let mut points: Vec<Point> = Vec::new();
        let mut i: usize = 0;
        while i < self.quads.len()
            invariant
                i <= self.quads@.len(),
                all == handles(self.quads@),
                points@.len() == 4 * i,
                points@ == all.take(4 * i),
            decreases self.quads@.len() - i,
        {
            let q = self.quads[i].target;
            points.push(q.top_left);
            points.push(q.top_right);
            points.push(q.bottom_right);
            points.push(q.bottom_left);
            assert(all[4 * i] == q.corners()[0]);
            assert(all[4 * i + 1] == q.corners()[1]);
            assert(all[4 * i + 2] == q.corners()[2]);
            assert(all[4 * i + 3] == q.corners()[3]);
            assert(points@ == all.take(4 * i + 4));
            i = i + 1;
        }
        assert(all.take(4 * i) == all);
        match geometry::find_nearest(&points, p, radius) {
            Some(k) => Some((k / 4, k % 4)),
            None => None,
        }
    }

    /// A drag starts at document point `p`; `pick` is how near a handle must be
    /// to be taken.
    pub fn drag_started(&mut self, p: Point, pick: Real32)
        ensures
            final(self)@ == old(self)@.grabbed(p, pick),
    {
        self.drag = match self.corner_near(p, pick) {
            Some((quad, corner)) => Some(Drag::Corner { quad, corner }),
            None => {
                if self.mode == WarpMode::Layout {
                    Some(Drag::Drawing(p))
                } else {
                    None
                }
            },
        };
    }

    /// The drag goes on to document point `p`.
    pub fn drag_moved(&mut self, p: Point)
        ensures
            final(self)@ == old(self)@.dragged(p),
    {
        match self.drag {
            Some(Drag::Corner { quad, corner }) => {
                self.move_corner(quad, corner, p);
            },
            Some(Drag::Drawing(start)) => {
                self.rubber = Some((start, p));
            },
            None => {},
        }
    }

    /// The drag ends, at document point `p` where the pointer is known.
    pub fn drag_stopped(&mut self, p: Option<Point>)
        ensures
            final(self)@ == old(self)@.dropped(p),
    {
        match (self.drag, p) {
            (Some(Drag::Drawing(start)), Some(end)) => {
                let _ = self.add_quad(start, end);
            },
            _ => {},
        }
        self.drag = None;
        self.rubber = None;
    }

    /// What a confirmation commits, when it would change something.
    pub fn confirm(&self) -> (r: Option<PerspectiveWarpSpec>)
        ensures
            chrome::request_view(r) == self@.confirmation(),
    {
        if quads_unmoved(&self.quads) {
            return None;
        }
        let mut quads: Vec<WarpQuad> = Vec::new();
        let mut i: usize = 0;
        while i < self.quads.len()
            invariant
                i <= self.quads@.len(),
                quads@ == self.quads@.take(i as int),
            decreases self.quads@.len() - i,
        {
            quads.push(self.quads[i]);
            i = i + 1;
        }
        assert(self.quads@.take(i as int) == self.quads@);
        Some(PerspectiveWarpSpec { image_size: (self.width, self.height), quads })
    }

    /// Why the primary action is unavailable.
    pub fn blocked_reason(&self) -> (r: Option<String>)
        ensures
            match r {
                Some(reason) => self@.confirmation() is None && reason@ == strings::entry(
                    "ui.adjustment.blocked.identity"@,
                ),
                None => self@.confirmation() is Some,
            },
    {
        if quads_unmoved(&self.quads) {
            Some(text::copied(strings::tr("ui.adjustment.blocked.identity")))
        } else {
            None
        }
    }

    /// Escape and Enter; Escape wins over Enter.
    pub fn resolve(&self, keys: DialogKeys) -> (r: DialogOutcome<PerspectiveWarpSpec>)
        ensures
            r@ == chrome::settled(keys, self@.confirmation()),
    {
        chrome::settle(keys, self.confirm())
    }

    /// A button of the action row; its one extra button is Reset.
    pub fn press(&mut self, button: DialogButton) -> (r: DialogOutcome<PerspectiveWarpSpec>)
        ensures
            final(self)@ == if button is Extra {
                old(self)@.emptied()
            } else {
                old(self)@
            },
            r@ == chrome::pressed(button, old(self)@.confirmation()),
    {
        match button {
            DialogButton::Extra(_) => {
                self.reset();
                DialogOutcome::Open
            },
            other => chrome::press(other, self.confirm()),
        }
    }
}

} // verus!

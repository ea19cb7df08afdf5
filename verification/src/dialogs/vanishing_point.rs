//! Filter ▸ Vanishing Point: edit inside a perspective plane.
//!
//! The dialog opens over the active layer with a plane. In **Plane** mode the
//! four corner handles drag to lie the plane over a surface in the picture.
//!
//! * **Clone** mode is the perspective clone stamp: Alt+click on the plane sets
//!   the source, then clicks and drags paint dabs whose content comes from the
//!   same offset *on the plane*. The offset is aligned: fixed by the first dab
//!   after the source is set.
//! * **Paste** mode lays the image on the clipboard into the plane, centred
//!   where the plane is clicked, its width the Size fraction of the plane's, its
//!   height following the image's aspect and the plane's estimated one (its mean
//!   side lengths).
//!
//! Every edit is a [`VanishingOp`] in plane coordinates. Where a document point
//! lies on the plane, and whether the plane is usable, is the host's to compute;
//! the dialog is told. Undo takes back the last edit. Enter commits the session.

use super::chrome;
use super::chrome::{DialogButton, DialogKeys, DialogOutcome};
use crate::geometry;
use crate::geometry::{Point, Quad};
use crate::ieee::Real32;
use crate::strings;
use crate::text;
use vstd::prelude::*;

verus! {

/// How many cells a side of the drawn grid has.
pub const VANISHING_GRID_DIVISIONS: u32 = 8;

/// What a click on the plane does.
#[derive(Clone, Copy, PartialEq, Eq, Structural, Debug)]
pub enum VanishingMode {
    /// Drag the plane's corners.
    Plane,
    /// The perspective clone stamp.
    Clone,
    /// Paste the clipboard into the plane.
    Paste,
}

impl Default for VanishingMode {
    fn default() -> (r: Self)
        ensures
            r == VanishingMode::Plane,
    {
        VanishingMode::Plane
    }
}

impl VanishingMode {
    pub const ALL: [VanishingMode; 3] = [
        VanishingMode::Plane,
        VanishingMode::Clone,
        VanishingMode::Paste,
    ];

    pub fn label(self) -> (r: &'static str)
        ensures
            r@ == match self {
                VanishingMode::Plane => "Plane"@,
                VanishingMode::Clone => "Clone"@,
                VanishingMode::Paste => "Paste"@,
            },
    {
        match self {
            VanishingMode::Plane => "Plane",
            VanishingMode::Clone => "Clone",
            VanishingMode::Paste => "Paste",
        }
    }
}

/// One edit, in plane coordinates.
#[derive(Clone, Copy, PartialEq, Structural, Debug)]
pub enum VanishingOp {
    /// A dab of what lies at `from`.
    Clone { from: Point, to: Point, radius: Real32 },
    /// The clipboard's image, over the rectangle between two corners.
    Paste { low: Point, high: Point },
}

/// The plane, in document pixels, and the edits made on it.
#[derive(PartialEq, Debug)]
pub struct VanishingPointSpec {
    /// The document size the dialog opened over.
    pub image_size: (u32, u32),
    pub plane: Quad,
    pub ops: Vec<VanishingOp>,
}

/// What a [`VanishingPointSpec`] stands for.
#[verifier::ext_equal]
pub struct VanishingRequest {
    pub image_size: (u32, u32),
    pub plane: Quad,
    pub ops: Seq<VanishingOp>,
}

impl View for VanishingPointSpec {
    type V = VanishingRequest;

    open spec fn view(&self) -> VanishingRequest {
        VanishingRequest { image_size: self.image_size, plane: self.plane, ops: self.ops@ }
    }
}

/// What the pointer does over the canvas in a frame.
#[derive(Clone, Copy, PartialEq, Structural, Debug)]
pub struct PlanePointer {
    /// Where it is, in document pixels.
    pub at: Point,
    /// Where that lies in the plane's coordinates, if the plane is usable.
    pub on_plane: Option<Point>,
    /// How near a corner handle must be to be picked up.
    pub pick: Real32,
    pub drag_started: bool,
    pub clicked: bool,
    pub dragged: bool,
    pub alt: bool,
}

/// A number from nothing to one.
pub open spec fn unit(v: Real32) -> bool {
    (Real32 { bits: 0 }).at_most(v) && v.at_most(Real32 { bits: 0x3f80_0000 })
}

/// A place in plane coordinates that is on the plane.
pub open spec fn lies_on(uv: Option<Point>) -> Option<Point> {
    match uv {
        Some(p) => if unit(p.x) && unit(p.y) {
            Some(p)
        } else {
            None
        },
        None => None,
    }
}

fn on_plane(uv: Option<Point>) -> (r: Option<Point>)
    ensures
        r == lies_on(uv),
{
    let zero = Real32 { bits: 0 };
    let one = Real32 { bits: 0x3f80_0000 };
    match uv {
        Some(p) => {
            if zero.is_at_most(p.x) && p.x.is_at_most(one) && zero.is_at_most(p.y)
                && p.y.is_at_most(one) {
                Some(p)
            } else {
                None
            }
        },
        None => None,
    }
}

/// The plane's width over its height, estimated from its mean side lengths.
pub open spec fn aspect(plane: Quad) -> Real32 {
    let half = Real32 { bits: 0x3f00_0000 };
    let across = half.times_spec(
        geometry::apart(plane.top_left, plane.top_right).plus_spec(
            geometry::apart(plane.bottom_left, plane.bottom_right),
        ),
    );
    let down = half.times_spec(
        geometry::apart(plane.top_left, plane.bottom_left).plus_spec(
            geometry::apart(plane.top_right, plane.bottom_right),
        ),
    );
    if (Real32 { bits: 0 }).below(down) && (Real32 { bits: 0 }).below(across) {
        across.over_spec(down)
    } else {
        Real32 { bits: 0x3f80_0000 }
    }
}

fn plane_aspect(plane: Quad) -> (r: Real32)
    ensures
        r == aspect(plane),
{
    let half = Real32 { bits: 0x3f00_0000 };
    let across = half.times(
        geometry::distance(plane.top_left, plane.top_right).plus(
            geometry::distance(plane.bottom_left, plane.bottom_right),
        ),
    );
    let down = half.times(
        geometry::distance(plane.top_left, plane.bottom_left).plus(
            geometry::distance(plane.top_right, plane.bottom_right),
        ),
    );
    if (Real32 { bits: 0 }).is_below(down) && (Real32 { bits: 0 }).is_below(across) {
        across.over(down)
    } else {
        Real32 { bits: 0x3f80_0000 }
    }
}

/// What a [`VanishingPointDialog`] stands for.
#[verifier::ext_equal]
pub struct VanishingModel {
    pub width: u32,
    pub height: u32,
    pub plane: Quad,
    pub ops: Seq<VanishingOp>,
    pub mode: VanishingMode,
    /// The size of the image Paste lays into the plane.
    pub paste: Option<(u32, u32)>,
    /// Paste width as a fraction of the plane's width.
    pub paste_size: Real32,
    /// Clone brush radius in plane units.
    pub radius: Real32,
    pub clone_source: Option<Point>,
    pub clone_offset: Option<Point>,
    pub last_dab: Option<Point>,
    pub dragging_corner: Option<int>,
    /// The preview is out of date.
    pub dirty: bool,
}

impl VanishingModel {
    /// The dialog as it opens.
    pub open spec fn opened(width: u32, height: u32, plane: Quad, paste: Option<(u32, u32)>) -> VanishingModel {
        VanishingModel {
            width,
            height,
            plane,
            ops: Seq::empty(),
            mode: VanishingMode::Plane,
            paste: match paste {
                Some((w, h)) => if w > 0 && h > 0 {
                    paste
                } else {
                    None
                },
                None => None,
            },
            paste_size: Real32 { bits: 0x3f00_0000 },
            radius: Real32 { bits: 0x3da3_d70a },
            clone_source: None,
            clone_offset: None,
            last_dab: None,
            dragging_corner: None,
            dirty: true,
        }
    }

    pub open spec fn with_mode(self, mode: VanishingMode) -> VanishingModel {
        VanishingModel { mode, last_dab: None, ..self }
    }

    /// A corner moved, into the image; anything else is ignored.
    pub open spec fn with_corner(self, index: int, p: Point) -> VanishingModel {
        if 0 <= index < 4 && p.finite() {
            VanishingModel {
                plane: self.plane.with(index, p.inside(self.width, self.height)),
                dirty: true,
                ..self
            }
        } else {
            self
        }
    }

    /// The clone source set, at a place on the plane.
    pub open spec fn sourced(self, uv: Option<Point>) -> VanishingModel {
        match lies_on(uv) {
            Some(p) => VanishingModel {
                clone_source: Some(p),
                clone_offset: None,
                last_dab: None,
                ..self
            },
            None => self,
        }
    }

    /// How far a dab's content is from the dab: fixed by the first dab after
    /// the source was set.
    pub open spec fn offset_at(self, source: Point, to: Point) -> Point {
        match self.clone_offset {
            Some(offset) => offset,
            None => Point { x: source.x.minus_spec(to.x), y: source.y.minus_spec(to.y) },
        }
    }

    /// Whether a dab can be made there: on the plane, with a source.
    pub open spec fn can_clone(self, uv: Option<Point>) -> bool {
        lies_on(uv) is Some && self.clone_source is Some
    }

    /// One dab.
    pub open spec fn cloned(self, uv: Option<Point>) -> VanishingModel {
        if self.can_clone(uv) {
            let to = lies_on(uv)->0;
            let offset = self.offset_at(self.clone_source->0, to);
            VanishingModel {
                ops: self.ops.push(
                    VanishingOp::Clone {
                        from: Point { x: to.x.plus_spec(offset.x), y: to.y.plus_spec(offset.y) },
                        to,
                        radius: self.radius,
                    },
                ),
                clone_offset: Some(offset),
                last_dab: Some(to),
                dirty: true,
                ..self
            }
        } else {
            self
        }
    }

    /// Whether the clipboard can be pasted there.
    pub open spec fn can_paste(self, uv: Option<Point>) -> bool {
        lies_on(uv) is Some && self.paste is Some
    }

    /// The clipboard laid into the plane, centred.
    pub open spec fn pasted(self, uv: Option<Point>) -> VanishingModel {
        if self.can_paste(uv) {
            let p = lies_on(uv)->0;
            let (iw, ih) = self.paste->0;
            let two = Real32 { bits: 0x4000_0000 };
            let w = self.paste_size;
            let h = w.times_spec(Real32::of_whole(ih as nat)).over_spec(
                Real32::of_whole(if iw < 1 { 1 } else { iw as nat }),
            ).times_spec(aspect(self.plane));
            VanishingModel {
                ops: self.ops.push(
                    VanishingOp::Paste {
                        low: Point {
                            x: p.x.minus_spec(w.over_spec(two)),
                            y: p.y.minus_spec(h.over_spec(two)),
                        },
                        high: Point {
                            x: p.x.plus_spec(w.over_spec(two)),
                            y: p.y.plus_spec(h.over_spec(two)),
                        },
                    },
                ),
                dirty: true,
                ..self
            }
        } else {
            self
        }
    }

    /// The last edit taken back.
    pub open spec fn undone(self) -> VanishingModel {
        if self.ops.len() > 0 {
            VanishingModel { ops: self.ops.drop_last(), dirty: true, ..self }
        } else {
            self
        }
    }

    /// A drag has come a quarter of the brush from the last dab.
    pub open spec fn far_enough(self, uv: Option<Point>) -> bool {
        match (self.last_dab, lies_on(uv)) {
            (Some(last), Some(p)) => self.radius.times_spec(Real32 { bits: 0x3e80_0000 }).at_most(
                geometry::apart(p, last),
            ),
            (None, Some(_)) => true,
            _ => false,
        }
    }

    /// What the pointer makes of the dialog.
    pub open spec fn pointed(self, e: PlanePointer) -> VanishingModel {
        let pressed = e.drag_started || e.clicked;
        match self.mode {
            VanishingMode::Plane => {
                let picked = if pressed {
                    VanishingModel {
                        dragging_corner: geometry::nearest_within(
                            self.plane.corners(),
                            e.at,
                            e.pick,
                        ),
                        ..self
                    }
                } else {
                    self
                };
                match picked.dragging_corner {
                    Some(i) => if e.dragged {
                        picked.with_corner(i, e.at)
                    } else {
                        picked
                    },
                    None => picked,
                }
            },
            VanishingMode::Clone => if pressed && e.alt {
                self.sourced(e.on_plane)
            } else if pressed || (e.dragged && !e.alt && self.far_enough(e.on_plane)) {
                self.cloned(e.on_plane)
            } else {
                self
            },
            VanishingMode::Paste => if e.clicked {
                self.pasted(e.on_plane)
            } else {
                self
            },
        }
    }

    /// What a confirmation commits: a session that edits something on a plane
    /// that is usable.
    pub open spec fn confirmation(self, usable: bool) -> Option<VanishingRequest> {
        if usable && self.ops.len() > 0 {
            Some(
                VanishingRequest {
                    image_size: (self.width, self.height),
                    plane: self.plane,
                    ops: self.ops,
                },
            )
        } else {
            None
        }
    }
}

/// Undo takes back exactly the last edit, be it a dab or a paste.
pub proof fn undo_takes_back_the_last_edit(m: VanishingModel, uv: Option<Point>)
    ensures
        m.can_clone(uv) ==> m.cloned(uv).undone().ops == m.ops,
        m.can_paste(uv) ==> m.pasted(uv).undone().ops == m.ops,
        m.cloned(uv).undone().plane == m.plane,
        m.pasted(uv).undone().plane == m.plane,
{
    assert(m.can_clone(uv) ==> m.cloned(uv).ops.drop_last() == m.ops);
    assert(m.can_paste(uv) ==> m.pasted(uv).ops.drop_last() == m.ops);
}

/// The clone offset is aligned: every dab after the first keeps the first one's
/// offset, until another source is set.
pub proof fn the_clone_offset_is_aligned(m: VanishingModel, first: Option<Point>, next: Option<Point>)
    requires
        m.can_clone(first),
        m.can_clone(next),
    ensures
        m.cloned(first).cloned(next).clone_offset == m.cloned(first).clone_offset,
        m.cloned(first).clone_offset is Some,
        m.sourced(next).clone_offset is None,
        ({
            let offset = m.cloned(first).clone_offset->0;
            m.cloned(first).cloned(next).ops.last() == (VanishingOp::Clone {
                from: Point {
                    x: lies_on(next)->0.x.plus_spec(offset.x),
                    y: lies_on(next)->0.y.plus_spec(offset.y),
                },
                to: lies_on(next)->0,
                radius: m.radius,
            })
        }),
{
}

/// Nothing is edited off the plane.
pub proof fn nothing_is_edited_off_the_plane(m: VanishingModel, uv: Option<Point>)
    requires
        lies_on(uv) is None,
    ensures
        m.sourced(uv) == m,
        m.cloned(uv) == m,
        m.pasted(uv) == m,
{
}

/// Filter ▸ Vanishing Point.
#[derive(Debug)]
pub struct VanishingPointDialog {
    width: u32,
    height: u32,
    plane: Quad,
    ops: Vec<VanishingOp>,
    mode: VanishingMode,
    paste: Option<(u32, u32)>,
    paste_size: Real32,
    radius: Real32,
    clone_source: Option<Point>,
    clone_offset: Option<Point>,
    last_dab: Option<Point>,
    dragging_corner: Option<usize>,
    dirty: bool,
}

impl View for VanishingPointDialog {
    type V = VanishingModel;

    closed spec fn view(&self) -> VanishingModel {
        VanishingModel {
            width: self.width,
            height: self.height,
            plane: self.plane,
            ops: self.ops@,
            mode: self.mode,
            paste: self.paste,
            paste_size: self.paste_size,
            radius: self.radius,
            clone_source: self.clone_source,
            clone_offset: self.clone_offset,
            last_dab: self.last_dab,
            dragging_corner: match self.dragging_corner {
                Some(i) => Some(i as int),
                None => None,
            },
            dirty: self.dirty,
        }
    }
}

fn copied_ops(ops: &Vec<VanishingOp>) -> (r: Vec<VanishingOp>)
    ensures
        r@ == ops@,
{
    let mut out: Vec<VanishingOp> = Vec::new();
    let mut i: usize = 0;
    while i < ops.len()
        invariant
            i <= ops@.len(),
            out@ == ops@.take(i as int),
        decreases ops@.len() - i,
    {
        out.push(ops[i]);
        i = i + 1;
    }
    assert(ops@.take(i as int) == ops@);
    out
}

impl VanishingPointDialog {
    /// Over a layer of the size, with the plane the host lays over it; `paste`
    /// is the size of the image on the clipboard, if any.
    pub fn new(width: u32, height: u32, plane: Quad, paste: Option<(u32, u32)>) -> (r: Self)
        ensures
            r@ == VanishingModel::opened(width, height, plane, paste),
    {
        let held = match paste {
            Some((w, h)) => {
                if w > 0 && h > 0 {
                    Some((w, h))
                } else {
                    None
                }
            },
            None => None,
        };
        VanishingPointDialog {
            width,
            height,
            plane,
            ops: Vec::new(),
            mode: VanishingMode::Plane,
            paste: held,
            paste_size: Real32 { bits: 0x3f00_0000 },
            radius: Real32 { bits: 0x3da3_d70a },
            clone_source: None,
            clone_offset: None,
            last_dab: None,
            dragging_corner: None,
            dirty: true,
        }
    }

    pub fn plane(&self) -> (r: Quad)
        ensures
            r == self@.plane,
    {
        self.plane
    }

    pub fn ops(&self) -> (r: &Vec<VanishingOp>)
        ensures
            r@ == self@.ops,
    {
        &self.ops
    }

    pub fn mode(&self) -> (r: VanishingMode)
        ensures
            r == self@.mode,
    {
        self.mode
    }

    pub fn set_mode(&mut self, mode: VanishingMode)
        ensures
            final(self)@ == old(self)@.with_mode(mode),
    {
        self.mode = mode;
        self.last_dab = None;
    }

    pub fn has_paste(&self) -> (r: bool)
        ensures
            r == (self@.paste is Some),
    {
        self.paste.is_some()
    }

    /// The clone brush radius and the paste width.
    pub fn amounts(&self) -> (r: (Real32, Real32))
        ensures
            r == (self@.radius, self@.paste_size),
    {
        (self.radius, self.paste_size)
    }

    /// Where the clone stamp takes its content from.
    pub fn clone_source(&self) -> (r: Option<Point>)
        ensures
            r == self@.clone_source,
    {
        self.clone_source
    }

    /// Whether the preview is out of date. The host that renders it again says
    /// so with [`VanishingPointDialog::preview_rendered`].
    pub fn is_dirty(&self) -> (r: bool)
        ensures
            r == self@.dirty,
    {
        self.dirty
    }

    pub fn preview_rendered(&mut self)
        ensures
            final(self)@ == (VanishingModel { dirty: false, ..old(self)@ }),
    {
        self.dirty = false;
    }

    /// Move corner `index` (0..4: top-left, top-right, bottom-right,
    /// bottom-left) to document point `p`, clamped into the image.
    pub fn set_corner(&mut self, index: usize, p: Point)
        ensures
            final(self)@ == old(self)@.with_corner(index as int, p),
    {
        if index < 4 && p.is_finite() {
            self.plane.set(index, p.clamped_into(self.width, self.height));
            self.dirty = true;
        }
    }

    /// Set the clone brush radius (plane units, 0.005..=0.5).
    pub fn set_radius(&mut self, radius: Real32)
        ensures
            final(self)@ == if radius.finite() {
                VanishingModel {
                    radius: radius.clamped(
                        Real32 { bits: 0x3ba3_d70a },
                        Real32 { bits: 0x3f00_0000 },
                    ),
                    ..old(self)@
                }
            } else {
                old(self)@
            },
    {
        if radius.is_finite() {
            self.radius = radius.clamp(Real32 { bits: 0x3ba3_d70a }, Real32 { bits: 0x3f00_0000 });
        }
    }

    /// Set the paste width (fraction of the plane's width, 0.05..=1).
    pub fn set_paste_size(&mut self, size: Real32)
        ensures
            final(self)@ == if size.finite() {
                VanishingModel {
                    paste_size: size.clamped(
                        Real32 { bits: 0x3d4c_cccd },
                        Real32 { bits: 0x3f80_0000 },
                    ),
                    ..old(self)@
                }
            } else {
                old(self)@
            },
    {
        if size.is_finite() {
            self.paste_size = size.clamp(Real32 { bits: 0x3d4c_cccd }, Real32 { bits: 0x3f80_0000 });
        }
    }

    /// Alt+click: the clone source, at a point whose plane coordinates are
    /// `uv`. Refused off the plane.
    pub fn set_clone_source(&mut self, uv: Option<Point>) -> (r: bool)
        ensures
            r == (lies_on(uv) is Some),
            final(self)@ == old(self)@.sourced(uv),
    {
        match on_plane(uv) {
            Some(p) => {
                self.clone_source = Some(p);
                self.clone_offset = None;
                self.last_dab = None;
                true
            },
            None => false,
        }
    }

    /// One clone dab centred on a point whose plane coordinates are `uv`.
    /// Refused off the plane or before a source is set.
    pub fn clone_at(&mut self, uv: Option<Point>) -> (r: bool)
        ensures
            r == old(self)@.can_clone(uv),
            final(self)@ == old(self)@.cloned(uv),
    {
        let (to, source) = match (on_plane(uv), self.clone_source) {
            (Some(to), Some(source)) => (to, source),
            _ => {
                return false;
            },
        };
        let offset = match self.clone_offset {
            Some(offset) => offset,
            None => Point { x: source.x.minus(to.x), y: source.y.minus(to.y) },
        };
        self.clone_offset = Some(offset);
        self.ops.push(
            VanishingOp::Clone {
                from: Point { x: to.x.plus(offset.x), y: to.y.plus(offset.y) },
                to,
                radius: self.radius,
            },
        );
        self.last_dab = Some(to);
        self.dirty = true;
        true
    }

    /// Paste the clipboard centred on a point whose plane coordinates are `uv`.
    /// Refused off the plane or with nothing to paste.
    pub fn paste_at(&mut self, uv: Option<Point>) -> (r: bool)
        ensures
            r == old(self)@.can_paste(uv),
            final(self)@ == old(self)@.pasted(uv),
    {
        let (p, iw, ih) = match (on_plane(uv), self.paste) {
            (Some(p), Some((iw, ih))) => (p, iw, ih),
            _ => {
                return false;
            },
        };
        let two = Real32 { bits: 0x4000_0000 };
        let w = self.paste_size;
        let wide: u32 = if iw < 1 {
            1
        } else {
            iw
        };
        let h = w.times(Real32::from_u64(ih as u64)).over(Real32::from_u64(wide as u64)).times(
            plane_aspect(self.plane),
        );
        self.ops.push(
            VanishingOp::Paste {
                low: Point { x: p.x.minus(w.over(two)), y: p.y.minus(h.over(two)) },
                high: Point { x: p.x.plus(w.over(two)), y: p.y.plus(h.over(two)) },
            },
        );
        self.dirty = true;
        true
    }

    /// Take back the last edit.
    pub fn undo_op(&mut self)
        ensures
            final(self)@ == old(self)@.undone(),
    {
        if self.ops.pop().is_some() {
            self.dirty = true;
        }
    }

    /// What the pointer does over the canvas in one frame.
    pub fn pointer(&mut self, e: PlanePointer)
        ensures
            final(self)@ == old(self)@.pointed(e),
    {
        let pressed = e.drag_started || e.clicked;
        match self.mode {
            VanishingMode::Plane => {
                if pressed {
                    self.dragging_corner = geometry::find_nearest(
                        &self.plane.points(),
                        e.at,
                        e.pick,
                    );
                }
                if e.dragged {
                    match self.dragging_corner {
                        Some(i) => {
                            self.set_corner(i, e.at);
                        },
                        None => {},
                    }
                }
            },
            VanishingMode::Clone => {
                if pressed && e.alt {
                    self.set_clone_source(e.on_plane);
                } else if pressed {
                    self.clone_at(e.on_plane);
                } else if e.dragged && !e.alt {
                    let far_enough = match (self.last_dab, on_plane(e.on_plane)) {
                        (Some(last), Some(p)) => self.radius.times(
                            Real32 { bits: 0x3e80_0000 },
                        ).is_at_most(geometry::distance(p, last)),
                        (None, Some(_)) => true,
                        _ => false,
                    };
                    if far_enough {
                        self.clone_at(e.on_plane);
                    }
                }
            },
            VanishingMode::Paste => {
                if e.clicked {
                    self.paste_at(e.on_plane);
                }
            },
        }
    }

    /// The pointer let go of whatever it dragged.
    pub fn release(&mut self)
        ensures
            final(self)@ == (VanishingModel { dragging_corner: None, ..old(self)@ }),
    {
        self.dragging_corner = None;
    }

    /// What a confirm commits, when it would change something; `usable` says
    /// whether the plane can be edited on.
    pub fn confirm(&self, usable: bool) -> (r: Option<VanishingPointSpec>)
        ensures
            chrome::request_view(r) == self@.confirmation(usable),
    {
        if usable && self.ops.len() > 0 {
            Some(
                VanishingPointSpec {
                    image_size: (self.width, self.height),
                    plane: self.plane,
                    ops: copied_ops(&self.ops),
                },
            )
        } else {
            None
        }
    }

    /// Why the primary action is unavailable.
    pub fn blocked_reason(&self, usable: bool) -> (r: Option<String>)
        ensures
            match r {
                Some(reason) => self@.confirmation(usable) is None && reason@ == strings::entry(
                    "ui.adjustment.blocked.identity"@,
                ),
                None => self@.confirmation(usable) is Some,
            },
    {
        if self.confirm(usable).is_none() {
            Some(text::copied(strings::tr("ui.adjustment.blocked.identity")))
        } else {
            None
        }
    }

    /// Escape and Enter; Escape wins over Enter.
    pub fn resolve(&self, keys: DialogKeys, usable: bool) -> (r: DialogOutcome<VanishingPointSpec>)
        ensures
            r@ == chrome::settled(keys, self@.confirmation(usable)),
    {
        chrome::settle(keys, self.confirm(usable))
    }

    /// A button of the action row; its one extra button is Undo.
    pub fn press(&mut self, button: DialogButton, usable: bool) -> (r: DialogOutcome<
        VanishingPointSpec,
    >)
        ensures
            final(self)@ == if button is Extra {
                old(self)@.undone()
            } else {
                old(self)@
            },
            r@ == chrome::pressed(button, old(self)@.confirmation(usable)),
    {
        match button {
            DialogButton::Extra(_) => {
                self.undo_op();
                DialogOutcome::Open
            },
            other => chrome::press(other, self.confirm(usable)),
        }
    }
}

} // verus!

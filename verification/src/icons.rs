//! Icons, drawn rather than typed.
//!
//! A missing glyph is a tofu box in the middle of the tool palette. These are
//! paths in a unit square instead: they scale to any size, take their colour
//! from the theme, and cannot be missing.
//!
//! A drawing is written down as a display list: a run of small numbers, each
//! stroke an operation followed by its points, in thousandths of the unit square
//! with `y` pointing down. [`decode`] turns the list into [`Prim`]s.

use crate::geometry;
use crate::geometry::Point;
use crate::ieee::Real32;
use vstd::prelude::*;

verus! {

/// A point of the unit square, in thousandths, with `y` pointing down.
#[derive(Clone, Copy, PartialEq, Eq, Structural, Debug)]
pub struct Spot {
    pub x: u16,
    pub y: u16,
}

impl Spot {
    pub open spec fn inside(self) -> bool {
        self.x <= 1000 && self.y <= 1000
    }

    /// The point of the unit square a spot names.
    pub open spec fn place(self) -> Point {
        Point { x: thousandths(self.x), y: thousandths(self.y) }
    }

    /// The point of the unit square a spot names.
    pub fn point(self) -> (r: Point)
        ensures
            r == self.place(),
    {
        Point { x: in_thousandths(self.x), y: in_thousandths(self.y) }
    }
}

/// A count of thousandths as a number.
pub open spec fn thousandths(n: u16) -> Real32 {
    Real32::of_whole(n as nat).over_spec(Real32::of_whole(1000))
}

fn in_thousandths(n: u16) -> (r: Real32)
    ensures
        r == thousandths(n),
{
    Real32::from_u64(n as u64).over(Real32::from_u64(1000))
}

/// One stroke of an icon.
#[derive(PartialEq, Eq, Debug)]
pub enum Prim {
    /// An open or closed polyline.
    Poly(Vec<Spot>, bool),
    /// A *filled* convex polygon.
    ///
    /// A closed polyline around a square is a hollow square, which is the shape
    /// of the tofu box, so a mark that stands for something *solid* has to be
    /// filled.
    Fill(Vec<Spot>),
    /// A stroked circle: centre, radius.
    Circle(Spot, u16),
    /// A filled dot: centre, radius.
    Dot(Spot, u16),
    /// A single segment.
    Line(Spot, Spot),
}

/// What a [`Prim`] stands for.
#[verifier::ext_equal]
pub enum PrimModel {
    Poly(Seq<Spot>, bool),
    Fill(Seq<Spot>),
    Circle(Spot, u16),
    Dot(Spot, u16),
    Line(Spot, Spot),
}

impl View for Prim {
    type V = PrimModel;

    open spec fn view(&self) -> PrimModel {
        match self {
            Prim::Poly(points, closed) => PrimModel::Poly(points@, *closed),
            Prim::Fill(points) => PrimModel::Fill(points@),
            Prim::Circle(center, radius) => PrimModel::Circle(*center, *radius),
            Prim::Dot(center, radius) => PrimModel::Dot(*center, *radius),
            Prim::Line(a, b) => PrimModel::Line(*a, *b),
        }
    }
}

/// A disc is inside the unit square.
pub open spec fn disc_inside(center: Spot, radius: u16) -> bool {
    radius <= center.x && radius <= center.y && center.x + radius <= 1000 && center.y + radius
        <= 1000
}

/// A stroke stays inside the unit square, so that a button does not clip it, and
/// has enough points to draw something.
pub open spec fn stays_inside(prim: PrimModel) -> bool {
    match prim {
        PrimModel::Poly(points, _) => points.len() >= 2 && forall|i: int|
            0 <= i < points.len() ==> (#[trigger] points[i]).inside(),
        PrimModel::Fill(points) => points.len() >= 3 && forall|i: int|
            0 <= i < points.len() ==> (#[trigger] points[i]).inside(),
        PrimModel::Circle(center, radius) => disc_inside(center, radius),
        PrimModel::Dot(center, radius) => disc_inside(center, radius),
        PrimModel::Line(a, b) => a.inside() && b.inside(),
    }
}

/// The points written from `at` on, two numbers each.
pub open spec fn points_at(code: Seq<u16>, at: int, count: nat) -> Seq<Spot> {
    Seq::new(count, |i: int| Spot { x: code[at + 2 * i], y: code[at + 2 * i + 1] })
}

/// How many numbers the stroke at `at` takes: a polyline or a polygon its
/// operation, its count and its points; a disc its operation, its centre and its
/// radius; a segment its operation and its ends.
pub open spec fn extent_at(code: Seq<u16>, at: int) -> int {
    if code[at] <= 2 {
        2 + 2 * code[at + 1]
    } else if code[at] <= 4 {
        4
    } else {
        5
    }
}

/// There is a whole stroke at `at`.
pub open spec fn whole_at(code: Seq<u16>, at: int) -> bool {
    0 <= at && at + 2 <= code.len() && at + extent_at(code, at) <= code.len()
}

/// The stroke written at `at`.
pub open spec fn prim_at(code: Seq<u16>, at: int) -> PrimModel {
    if code[at] == 0 {
        PrimModel::Poly(points_at(code, at + 2, code[at + 1] as nat), false)
    } else if code[at] == 1 {
        PrimModel::Poly(points_at(code, at + 2, code[at + 1] as nat), true)
    } else if code[at] == 2 {
        PrimModel::Fill(points_at(code, at + 2, code[at + 1] as nat))
    } else if code[at] == 3 {
        PrimModel::Circle(Spot { x: code[at + 1], y: code[at + 2] }, code[at + 3])
    } else if code[at] == 4 {
        PrimModel::Dot(Spot { x: code[at + 1], y: code[at + 2] }, code[at + 3])
    } else {
        PrimModel::Line(
            Spot { x: code[at + 1], y: code[at + 2] },
            Spot { x: code[at + 3], y: code[at + 4] },
        )
    }
}

/// The strokes written from `at` on.
pub open spec fn decoded(code: Seq<u16>, at: int) -> Seq<PrimModel>
    decreases code.len() - at,
{
    if whole_at(code, at) {
        seq![prim_at(code, at)] + decoded(code, at + extent_at(code, at))
    } else {
        Seq::empty()
    }
}

/// The strokes from `at` on take up the whole list, and each stays inside the
/// unit square.
pub open spec fn sound(code: Seq<u16>, at: int) -> bool
    decreases code.len() - at,
{
    at == code.len() || (whole_at(code, at) && stays_inside(prim_at(code, at)) && sound(
        code,
        at + extent_at(code, at),
    ))
}

/// Every stroke of a sound list stays inside the unit square.
pub proof fn lemma_sound(code: Seq<u16>, at: int)
    requires
        0 <= at <= code.len(),
        sound(code, at),
    ensures
        forall|i: int|
            0 <= i < decoded(code, at).len() ==> stays_inside(#[trigger] decoded(code, at)[i]),
        at < code.len() ==> decoded(code, at).len() > 0,
    decreases code.len() - at,
{
    if at < code.len() {
        let next = at + extent_at(code, at);
        lemma_sound(code, next);
        let rest = decoded(code, next);
        assert forall|i: int| 0 <= i < decoded(code, at).len() implies stays_inside(
            #[trigger] decoded(code, at)[i],
        ) by {
            if i > 0 {
                assert(decoded(code, at)[i] == rest[i - 1]);
            }
        }
    }
}

fn read_points(code: &[u16], at: usize, count: usize) -> (r: Vec<Spot>)
    requires
        at + 2 * count <= code@.len(),
    ensures
        r@ == points_at(code@, at as int, count as nat),
{
    let len = code.len();
    let mut out: Vec<Spot> = Vec::new();
    let mut i: usize = 0;
    while i < count
        invariant
            i <= count,
            len == code@.len(),
            at + 2 * count <= code@.len(),
            out@ == points_at(code@, at as int, i as nat),
        decreases count - i,
    {
        out.push(Spot { x: code[at + 2 * i], y: code[at + 2 * i + 1] });
        assert(out@ == points_at(code@, at as int, (i + 1) as nat));
        i = i + 1;
    }
    out
}

fn read_prim(code: &[u16], at: usize) -> (r: Prim)
    requires
        whole_at(code@, at as int),
    ensures
        r@ == prim_at(code@, at as int),
{
    let op = code[at];
    if op == 0 {
        Prim::Poly(read_points(code, at + 2, code[at + 1] as usize), false)
    } else if op == 1 {
        Prim::Poly(read_points(code, at + 2, code[at + 1] as usize), true)
    } else if op == 2 {
        Prim::Fill(read_points(code, at + 2, code[at + 1] as usize))
    } else if op == 3 {
        Prim::Circle(Spot { x: code[at + 1], y: code[at + 2] }, code[at + 3])
    } else if op == 4 {
        Prim::Dot(Spot { x: code[at + 1], y: code[at + 2] }, code[at + 3])
    } else {
        Prim::Line(
            Spot { x: code[at + 1], y: code[at + 2] },
            Spot { x: code[at + 3], y: code[at + 4] },
        )
    }
}

/// What a list of strokes stands for.
pub open spec fn prims_of(prims: Seq<Prim>) -> Seq<PrimModel> {
    prims.map_values(|p: Prim| p@)
}

/// The strokes a display list writes down. Whatever follows the last whole
/// stroke is left out.
pub fn decode(code: &[u16]) -> (r: Vec<Prim>)
    ensures
        prims_of(r@) == decoded(code@, 0),
{
    let mut out: Vec<Prim> = Vec::new();
    let mut at: usize = 0;
    assert(prims_of(out@) + decoded(code@, 0) == decoded(code@, 0));
    loop
        invariant
            at <= code@.len(),
            prims_of(out@) + decoded(code@, at as int) == decoded(code@, 0),
        decreases code@.len() - at,
    {
        let left: usize = code.len() - at;
        if left < 2 {
            assert(decoded(code@, at as int) == Seq::<PrimModel>::empty());
            assert(prims_of(out@) == decoded(code@, 0));
            return out;
        }
        let op = code[at];
        let extent: usize = if op <= 2 {
            2 + 2 * (code[at + 1] as usize)
        } else if op <= 4 {
            4
        } else {
            5
        };
        if left < extent {
            assert(decoded(code@, at as int) == Seq::<PrimModel>::empty());
            assert(prims_of(out@) == decoded(code@, 0));
            return out;
        }
        let ghost before = out@;
        let prim = read_prim(code, at);
        out.push(prim);
        assert(prims_of(out@) == prims_of(before).push(prim@));
        assert(prims_of(before) + (seq![prim@] + decoded(code@, at + extent)) == prims_of(out@)
            + decoded(code@, at + extent));
        at = at + extent;
    }
}

/// A drawable icon, by its strokes; the fallback for a key nothing recognises is
/// marked.
#[derive(PartialEq, Eq, Debug)]
pub struct Icon {
    pub prims: Vec<Prim>,
    pub known: bool,
}

/// What an [`Icon`] stands for.
#[verifier::ext_equal]
pub struct IconModel {
    pub prims: Seq<PrimModel>,
    pub known: bool,
}

impl View for Icon {
    type V = IconModel;

    open spec fn view(&self) -> IconModel {
        IconModel { prims: prims_of(self.prims@), known: self.known }
    }
}

impl IconModel {
    /// The icon a display list draws.
    pub open spec fn drawn(code: Seq<u16>) -> IconModel {
        IconModel { prims: decoded(code, 0), known: true }
    }

    /// The fallback: a hollow square, for a key nothing recognises.
    pub open spec fn unknown() -> IconModel {
        IconModel { prims: decoded(UNKNOWN@, 0), known: false }
    }

    /// The icon a display list draws; the fallback where there is none.
    pub open spec fn of(code: Option<Seq<u16>>) -> IconModel {
        match code {
            Some(code) => IconModel::drawn(code),
            None => IconModel::unknown(),
        }
    }
}

/// The fallback's square.
pub const UNKNOWN: [u16; 10] = [1, 4, 200, 200, 800, 200, 800, 800, 200, 800];

/// The distance between two spots, drawn at `side`.
pub open spec fn stroke_length(a: Spot, b: Spot, side: Real32) -> Real32 {
    geometry::apart(a.place(), b.place()).times_spec(side)
}

/// The ink of the first `upto` segments of a polyline.
pub open spec fn path_ink(points: Seq<Spot>, upto: int, side: Real32, width: Real32) -> Real32
    decreases upto,
{
    if upto <= 0 {
        Real32 { bits: 0 }
    } else {
        path_ink(points, upto - 1, side, width).plus_spec(
            stroke_length(points[upto - 1], points[upto], side).times_spec(width),
        )
    }
}

/// One term of the shoelace formula.
pub open spec fn lace(a: Spot, b: Spot) -> Real32 {
    a.place().x.times_spec(b.place().y).minus_spec(b.place().x.times_spec(a.place().y))
}

/// The first `upto` terms of the shoelace formula: twice a polygon's area, with
/// its sense.
pub open spec fn laced(points: Seq<Spot>, upto: int) -> Real32
    decreases upto,
{
    if upto <= 0 {
        Real32 { bits: 0 }
    } else {
        let i = upto - 1;
        laced(points, i).plus_spec(
            lace(
                points[i],
                points[if i + 1 < points.len() {
                    i + 1
                } else {
                    0
                }],
            ),
        )
    }
}

/// Half, and pi.
pub const HALF: u32 = 0x3f00_0000;

pub const PI: u32 = 0x4049_0fdb;

pub const TWO: u32 = 0x4000_0000;

/// The ink of one stroke.
pub open spec fn prim_ink(prim: PrimModel, side: Real32, width: Real32) -> Real32 {
    let half = Real32 { bits: HALF };
    let pi = Real32 { bits: PI };
    match prim {
        PrimModel::Line(a, b) => stroke_length(a, b, side).times_spec(width).plus_spec(
            width.times_spec(width),
        ),
        PrimModel::Poly(points, closed) => {
            let n = points.len();
            if n < 2 {
                Real32 { bits: 0 }
            } else {
                let open = path_ink(points, n - 1, side, width);
                let total = if closed {
                    open.plus_spec(
                        stroke_length(points[n - 1], points[0], side).times_spec(width),
                    )
                } else {
                    open
                };
                // Joints: each vertex doubles up roughly half a stroke.
                total.plus_spec(
                    Real32::of_whole(n).times_spec(half).times_spec(width).times_spec(width),
                )
            }
        },
        PrimModel::Fill(points) => {
            let n = points.len();
            if n < 3 {
                Real32 { bits: 0 }
            } else {
                laced(points, n as int).size_spec().times_spec(half).times_spec(side).times_spec(
                    side,
                )
            }
        },
        PrimModel::Circle(_, radius) => Real32 { bits: TWO }.times_spec(pi).times_spec(
            thousandths(radius),
        ).times_spec(side).times_spec(width).plus_spec(width.times_spec(width)),
        PrimModel::Dot(_, radius) => {
            let r = thousandths(radius).times_spec(side);
            pi.times_spec(r.times_spec(r))
        },
    }
}

/// The ink of the first `upto` strokes.
pub open spec fn ink(prims: Seq<PrimModel>, upto: int, side: Real32, width: Real32) -> Real32
    decreases upto,
{
    if upto <= 0 {
        Real32 { bits: 0 }
    } else {
        ink(prims, upto - 1, side, width).plus_spec(prim_ink(prims[upto - 1], side, width))
    }
}

/// A square's side for the ink measure: at least one point.
pub open spec fn inked_side(side: Real32) -> Real32 {
    if (Real32 { bits: 0x3f80_0000 }).below(side) {
        side
    } else {
        Real32 { bits: 0x3f80_0000 }
    }
}

fn measure_stroke(a: Spot, b: Spot, side: Real32) -> (r: Real32)
    ensures
        r == stroke_length(a, b, side),
{
    geometry::distance(a.point(), b.point()).times(side)
}

fn measure_path(points: &Vec<Spot>, side: Real32, width: Real32) -> (r: Real32)
    requires
        points@.len() >= 1,
    ensures
        r == path_ink(points@, points@.len() - 1, side, width),
{
    let mut total = Real32 { bits: 0 };
    let mut i: usize = 0;
    while i < points.len() - 1
        invariant
            0 <= i <= points@.len() - 1,
            total == path_ink(points@, i as int, side, width),
        decreases points@.len() - i,
    {
        total = total.plus(measure_stroke(points[i], points[i + 1], side).times(width));
        i = i + 1;
    }
    total
}

fn measure_area(points: &Vec<Spot>) -> (r: Real32)
    ensures
        r == laced(points@, points@.len() as int),
{
    let n = points.len();
    let mut twice = Real32 { bits: 0 };
    let mut i: usize = 0;
    while i < n
        invariant
            i <= n,
            n == points@.len(),
            twice == laced(points@, i as int),
        decreases n - i,
    {
        let j: usize = if i + 1 < n {
            i + 1
        } else {
            0
        };
        let a = points[i].point();
        let b = points[j].point();
        twice = twice.plus(a.x.times(b.y).minus(b.x.times(a.y)));
        i = i + 1;
    }
    twice
}

impl Prim {
    /// The ink of one stroke.
    fn ink_area(&self, side: Real32, width: Real32) -> (r: Real32)
        ensures
            r == prim_ink(self@, side, width),
    {
        let half = Real32 { bits: HALF };
        let pi = Real32 { bits: PI };
        match self {
            Prim::Line(a, b) => measure_stroke(*a, *b, side).times(width).plus(width.times(width)),
            Prim::Poly(points, closed) => {
                let n = points.len();
                if n < 2 {
                    return Real32 { bits: 0 };
                }
                let mut total = measure_path(points, side, width);
                if *closed {
                    total = total.plus(measure_stroke(points[n - 1], points[0], side).times(width));
                }
                total.plus(Real32::from_u64(n as u64).times(half).times(width).times(width))
            },
            Prim::Fill(points) => {
                if points.len() < 3 {
                    return Real32 { bits: 0 };
                }
                measure_area(points).abs().times(half).times(side).times(side)
            },
            Prim::Circle(_, radius) => Real32 { bits: TWO }.times(pi).times(
                in_thousandths(*radius),
            ).times(side).times(width).plus(width.times(width)),
            Prim::Dot(_, radius) => {
                let r = in_thousandths(*radius).times(side);
                pi.times(r.times(r))
            },
        }
    }
}

/// Where a drawing goes: the corner of its square and the square's side.
#[derive(Clone, Copy, PartialEq, Structural, Debug)]
pub struct Placement {
    pub origin: Point,
    pub side: Real32,
}

impl Placement {
    /// Where a point of the unit square lands.
    pub open spec fn at(self, spot: Spot) -> Point {
        Point {
            x: self.origin.x.plus_spec(spot.place().x.times_spec(self.side)),
            y: self.origin.y.plus_spec(spot.place().y.times_spec(self.side)),
        }
    }

    /// Where a point of the unit square lands.
    pub fn locate(self, spot: Spot) -> (r: Point)
        ensures
            r == self.at(spot),
    {
        let p = spot.point();
        Point {
            x: self.origin.x.plus(p.x.times(self.side)),
            y: self.origin.y.plus(p.y.times(self.side)),
        }
    }
}

/// Where a drawing goes in a rectangle of the given centre: the largest square,
/// inset by half the stroke so that a path at its edge is not clipped in half. A
/// rectangle with no room has no place for one.
pub open spec fn placed(center: Point, width: Real32, height: Real32, stroke: Real32) -> Option<
    Placement,
> {
    let shorter = if height.below(width) || width.nan() {
        height
    } else {
        width
    };
    if shorter.at_most(Real32 { bits: 0 }) {
        None
    } else {
        let inset = stroke.times_spec(Real32 { bits: HALF });
        let side = inked_side(shorter.minus_spec(inset.times_spec(Real32 { bits: TWO })));
        let half = side.times_spec(Real32 { bits: HALF });
        Some(
            Placement {
                origin: Point { x: center.x.minus_spec(half), y: center.y.minus_spec(half) },
                side,
            },
        )
    }
}

/// Where a drawing goes in a rectangle, given its centre and its size.
pub fn place(center: Point, width: Real32, height: Real32, stroke: Real32) -> (r: Option<
    Placement,
>)
    ensures
        r == placed(center, width, height, stroke),
{
    let shorter = if height.is_below(width) || width.is_nan() {
        height
    } else {
        width
    };
    if shorter.is_at_most(Real32 { bits: 0 }) {
        return None;
    }
    let inset = stroke.times(Real32 { bits: HALF });
    let side = at_least_one(shorter.minus(inset.times(Real32 { bits: TWO })));
    let half = side.times(Real32 { bits: HALF });
    Some(
        Placement {
            origin: Point { x: center.x.minus(half), y: center.y.minus(half) },
            side,
        },
    )
}

fn at_least_one(side: Real32) -> (r: Real32)
    ensures
        r == inked_side(side),
{
    let one = Real32 { bits: 0x3f80_0000 };
    if one.is_below(side) {
        side
    } else {
        one
    }
}

impl Icon {
    /// The icon a display list draws.
    pub fn drawn(code: &[u16]) -> (r: Icon)
        ensures
            r@ == IconModel::drawn(code@),
    {
        Icon { prims: decode(code), known: true }
    }

    /// The fallback: a hollow square, for a key nothing recognises.
    pub fn unknown() -> (r: Icon)
        ensures
            r@ == IconModel::unknown(),
    {
        Icon { prims: decode(vstd::array::array_as_slice(&UNKNOWN)), known: false }
    }

    /// `true` when this is the fallback rather than a drawing of its own.
    pub fn is_unknown(&self) -> (r: bool)
        ensures
            r == !self@.known,
    {
        !self.known
    }

    /// The ink this drawing lays down, in square points, painted into a
    /// `side_pt` square at `width` points of stroke.
    ///
    /// Geometric, not rasterised: strokes count as length times width with a
    /// small cap allowance, dots as discs, fills by the shoelace formula.
    pub fn ink_area(&self, side_pt: Real32, width: Real32) -> (r: Real32)
        ensures
            r == ink(self@.prims, self@.prims.len() as int, inked_side(side_pt), width),
    {
        let side = at_least_one(side_pt);
        let mut total = Real32 { bits: 0 };
        let mut i: usize = 0;
        while i < self.prims.len()
            invariant
                i <= self.prims@.len(),
                total == ink(self@.prims, i as int, side, width),
            decreases self.prims@.len() - i,
        {
            total = total.plus(self.prims[i].ink_area(side, width));
            assert(self@.prims[i as int] == self.prims@[i as int]@);
            i = i + 1;
        }
        total
    }

    /// Every stroke is solid: a fill or a dot.
    pub fn is_solid(&self) -> (r: bool)
        ensures
            r == forall|i: int|
                0 <= i < self@.prims.len() ==> (#[trigger] self@.prims[i] is Fill
                    || self@.prims[i] is Dot),
    {
        let mut i: usize = 0;
        while i < self.prims.len()
            invariant
                i <= self.prims@.len(),
                forall|j: int|
                    0 <= j < i ==> (#[trigger] self@.prims[j] is Fill || self@.prims[j] is Dot),
            decreases self.prims@.len() - i,
        {
            assert(self@.prims[i as int] == self.prims@[i as int]@);
            match &self.prims[i] {
                Prim::Fill(_) | Prim::Dot(_, _) => {},
                _ => {
                    return false;
                },
            }
            i = i + 1;
        }
        true
    }
}

/// The fallback still draws something.
pub proof fn the_fallback_is_visible()
    ensures
        IconModel::unknown().prims.len() > 0,
        !IconModel::unknown().known,
        forall|i: int|
            0 <= i < IconModel::unknown().prims.len() ==> stays_inside(
                #[trigger] IconModel::unknown().prims[i],
            ),
{
    reveal_with_fuel(sound, 2);
    assert(sound(UNKNOWN@, 0));
    lemma_sound(UNKNOWN@, 0);
}

} // verus!

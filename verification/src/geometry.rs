//! Points in document pixels, quads of them, and the handle nearest to a
//! click.

use crate::ieee::Real32;
use vstd::prelude::*;

verus! {

#[derive(Clone, Copy, PartialEq, Structural, Debug)]
pub struct Point {
    pub x: Real32,
    pub y: Real32,
}

impl Point {
    /// Both coordinates are finite.
    pub open spec fn finite(self) -> bool {
        self.x.finite() && self.y.finite()
    }

    pub fn is_finite(self) -> (r: bool)
        ensures
            r == self.finite(),
    {
        self.x.is_finite() && self.y.is_finite()
    }

    /// The point brought into an image of the size.
    pub open spec fn inside(self, width: u32, height: u32) -> Point {
        Point {
            x: self.x.clamped(Real32 { bits: 0 }, Real32::of_whole(width as nat)),
            y: self.y.clamped(Real32 { bits: 0 }, Real32::of_whole(height as nat)),
        }
    }

    pub fn clamped_into(self, width: u32, height: u32) -> (r: Point)
        ensures
            r == self.inside(width, height),
    {
        Point {
            x: self.x.clamp(Real32 { bits: 0 }, Real32::from_u64(width as u64)),
            y: self.y.clamp(Real32 { bits: 0 }, Real32::from_u64(height as u64)),
        }
    }

    /// Equal coordinate for coordinate.
    pub open spec fn same(self, other: Point) -> bool {
        self.x.equals(other.x) && self.y.equals(other.y)
    }

    pub fn same_as(self, other: Point) -> (r: bool)
        ensures
            r == self.same(other),
    {
        self.x.is_equal(other.x) && self.y.is_equal(other.y)
    }
}

/// A finite point stays a pair of numbers when it is brought into an image.
pub proof fn lemma_inside_finite(p: Point, width: u32, height: u32)
    requires
        p.finite(),
    ensures
        !p.inside(width, height).x.nan(),
        !p.inside(width, height).y.nan(),
{
    Real32::lemma_of_whole(width as nat);
    Real32::lemma_of_whole(height as nat);
}

/// How far two points are apart.
pub open spec fn apart(a: Point, b: Point) -> Real32 {
    let dx = a.x.minus_spec(b.x);
    let dy = a.y.minus_spec(b.y);
    dx.times_spec(dx).plus_spec(dy.times_spec(dy)).root_spec()
}

/// How far two points are apart.
pub fn distance(a: Point, b: Point) -> (r: Real32)
    ensures
        r == apart(a, b),
{
    let dx = a.x.minus(b.x);
    let dy = a.y.minus(b.y);
    dx.times(dx).plus(dy.times(dy)).sqrt()
}

/// The point nearest to `p` among those within `radius` of it, the first of
/// equally near ones.
pub open spec fn nearest_within(points: Seq<Point>, p: Point, radius: Real32) -> Option<int>
    decreases points.len(),
{
    if points.len() == 0 {
        None
    } else {
        let best = nearest_within(points.drop_last(), p, radius);
        let d = apart(points.last(), p);
        if d.at_most(radius) && match best {
            Some(i) => d.below(apart(points[i], p)),
            None => true,
        } {
            Some(points.len() - 1)
        } else {
            best
        }
    }
}

/// What [`nearest_within`] finds is within the radius; nothing within it is
/// nearer, and nothing before it as near. It finds something exactly when a
/// point is within the radius.
pub proof fn the_nearest_handle_is_found(points: Seq<Point>, p: Point, radius: Real32)
    ensures
        match nearest_within(points, p, radius) {
            Some(i) => {
                &&& 0 <= i < points.len()
                &&& apart(points[i], p).at_most(radius)
                &&& forall|j: int|
                    0 <= j < points.len() && apart(#[trigger] points[j], p).at_most(radius)
                        ==> apart(points[i], p).at_most(apart(points[j], p)) && (j < i ==> apart(
                        points[i],
                        p,
                    ).below(apart(points[j], p)))
            },
            None => forall|j: int|
                0 <= j < points.len() ==> !apart(#[trigger] points[j], p).at_most(radius),
        },
    decreases points.len(),
{
    if points.len() > 0 {
        let front = points.drop_last();
        the_nearest_handle_is_found(front, p, radius);
        assert forall|j: int| 0 <= j < front.len() implies #[trigger] points[j] == front[j] by {}
    }
}

/// The point nearest to `p` among those within `radius` of it.
pub fn find_nearest(points: &Vec<Point>, p: Point, radius: Real32) -> (r: Option<usize>)
    ensures
        match r {
            Some(i) => i < points@.len() && nearest_within(points@, p, radius) == Some(i as int),
            None => nearest_within(points@, p, radius) is None,
        },
{
    let mut best: Option<usize> = None;
    let mut i: usize = 0;
    while i < points.len()
        invariant
            i <= points@.len(),
            match best {
                Some(k) => k < i && nearest_within(points@.take(i as int), p, radius) == Some(
                    k as int,
                ),
                None => nearest_within(points@.take(i as int), p, radius) is None,
            },
        decreases points@.len() - i,
    {
        let ghost next = points@.take(i + 1);
        assert(next.drop_last() == points@.take(i as int));
        assert(next.last() == points@[i as int]);
        let d = distance(points[i], p);
        let nearer = match best {
            Some(k) => {
                assert(next[k as int] == points@[k as int]);
                d.is_below(distance(points[k], p))
            },
            None => true,
        };
        if d.is_at_most(radius) && nearer {
            best = Some(i);
        }
        i = i + 1;
    }
    assert(points@.take(i as int) == points@);
    best
}

/// Four corners, in order round the quad.
#[derive(Clone, Copy, PartialEq, Structural, Debug)]
pub struct Quad {
    pub top_left: Point,
    pub top_right: Point,
    pub bottom_right: Point,
    pub bottom_left: Point,
}

impl Quad {
    /// The corners in order.
    pub open spec fn corners(self) -> Seq<Point> {
        seq![self.top_left, self.top_right, self.bottom_right, self.bottom_left]
    }

    /// One corner moved; there are four.
    pub open spec fn with(self, index: int, p: Point) -> Quad {
        if index == 0 {
            Quad { top_left: p, ..self }
        } else if index == 1 {
            Quad { top_right: p, ..self }
        } else if index == 2 {
            Quad { bottom_right: p, ..self }
        } else if index == 3 {
            Quad { bottom_left: p, ..self }
        } else {
            self
        }
    }

    /// The corners in order.
    pub fn points(&self) -> (r: Vec<Point>)
        ensures
            r@ == self.corners(),
    {
        let mut out: Vec<Point> = Vec::new();
        out.push(self.top_left);
        out.push(self.top_right);
        out.push(self.bottom_right);
        out.push(self.bottom_left);
        assert(out@ == self.corners());
        out
    }

    /// Move one corner.
    pub fn set(&mut self, index: usize, p: Point)
        ensures
            *final(self) == old(self).with(index as int, p),
    {
        if index == 0 {
            self.top_left = p;
        } else if index == 1 {
            self.top_right = p;
        } else if index == 2 {
            self.bottom_right = p;
        } else if index == 3 {
            self.bottom_left = p;
        }
    }

    /// The rectangle two opposite corners span.
    pub open spec fn spanned(a: Point, b: Point) -> Quad {
        Quad {
            top_left: a,
            top_right: Point { x: b.x, y: a.y },
            bottom_right: b,
            bottom_left: Point { x: a.x, y: b.y },
        }
    }

    pub fn rect(a: Point, b: Point) -> (r: Quad)
        ensures
            r == Quad::spanned(a, b),
    {
        Quad {
            top_left: a,
            top_right: Point { x: b.x, y: a.y },
            bottom_right: b,
            bottom_left: Point { x: a.x, y: b.y },
        }
    }

    /// Equal corner for corner.
    pub open spec fn same(self, other: Quad) -> bool {
        self.top_left.same(other.top_left) && self.top_right.same(other.top_right)
            && self.bottom_right.same(other.bottom_right) && self.bottom_left.same(
            other.bottom_left,
        )
    }

    pub fn same_as(self, other: Quad) -> (r: bool)
        ensures
            r == self.same(other),
    {
        self.top_left.same_as(other.top_left) && self.top_right.same_as(other.top_right)
            && self.bottom_right.same_as(other.bottom_right) && self.bottom_left.same_as(
            other.bottom_left,
        )
    }
}

} // verus!

//! The preview canvas of a warp dialog: how large the picture is drawn, and what
//! document point lies under a point of the screen.

use crate::geometry::Point;
use crate::ieee::Real32;
use vstd::prelude::*;

verus! {

/// The larger of two sides, and never nothing.
pub open spec fn long_side(width: u32, height: u32) -> u32 {
    if width >= height && width >= 1 {
        width
    } else if height >= 1 {
        height
    } else {
        1
    }
}

/// The size a picture is drawn at when its longer side is `long`, aspect kept.
pub open spec fn fitted(width: u32, height: u32, long: Real32) -> (Real32, Real32) {
    let scale = long.over_spec(Real32::of_whole(long_side(width, height) as nat));
    (
        Real32::of_whole(width as nat).times_spec(scale),
        Real32::of_whole(height as nat).times_spec(scale),
    )
}

/// The size a picture is drawn at when its longer side is `long`, aspect kept.
pub fn fit(width: u32, height: u32, long: Real32) -> (r: (Real32, Real32))
    ensures
        r == fitted(width, height, long),
{
    let side: u32 = if width >= height && width >= 1 {
        width
    } else if height >= 1 {
        height
    } else {
        1
    };
    let scale = long.over(Real32::from_u64(side as u64));
    (Real32::from_u64(width as u64).times(scale), Real32::from_u64(height as u64).times(scale))
}

/// Where a picture is drawn: the screen point of its corner, and how many points
/// of the screen a document pixel takes.
#[derive(Clone, Copy, PartialEq, Structural, Debug)]
pub struct Viewfinder {
    pub origin: Point,
    pub per_px: Real32,
}

impl Viewfinder {
    /// A picture of `columns` document pixels across `width` points.
    pub open spec fn over(origin: Point, width: Real32, columns: u32) -> Viewfinder {
        Viewfinder {
            origin,
            per_px: width.over_spec(
                Real32::of_whole(
                    (if columns >= 1 {
                        columns
                    } else {
                        1
                    }) as nat,
                ),
            ),
        }
    }

    /// A picture of `columns` document pixels across `width` points.
    pub fn new(origin: Point, width: Real32, columns: u32) -> (r: Viewfinder)
        ensures
            r == Viewfinder::over(origin, width, columns),
    {
        let across: u32 = if columns >= 1 {
            columns
        } else {
            1
        };
        Viewfinder { origin, per_px: width.over(Real32::from_u64(across as u64)) }
    }

    /// The document point under a point of the screen.
    pub open spec fn doc(self, at: Point) -> Point {
        Point {
            x: at.x.minus_spec(self.origin.x).over_spec(self.per_px),
            y: at.y.minus_spec(self.origin.y).over_spec(self.per_px),
        }
    }

    pub fn to_doc(self, at: Point) -> (r: Point)
        ensures
            r == self.doc(at),
    {
        Point {
            x: at.x.minus(self.origin.x).over(self.per_px),
            y: at.y.minus(self.origin.y).over(self.per_px),
        }
    }

    /// Where a document point is drawn.
    pub open spec fn screen(self, p: Point) -> Point {
        Point {
            x: self.origin.x.plus_spec(p.x.times_spec(self.per_px)),
            y: self.origin.y.plus_spec(p.y.times_spec(self.per_px)),
        }
    }

    pub fn to_screen(self, p: Point) -> (r: Point)
        ensures
            r == self.screen(p),
    {
        Point {
            x: self.origin.x.plus(p.x.times(self.per_px)),
            y: self.origin.y.plus(p.y.times(self.per_px)),
        }
    }

    /// How near a handle a press takes it, in document pixels: twice its drawn
    /// radius.
    pub open spec fn reach(self, handle: Real32) -> Real32 {
        handle.times_spec(Real32 { bits: 0x4000_0000 }).over_spec(self.per_px)
    }

    pub fn pick(self, handle: Real32) -> (r: Real32)
        ensures
            r == self.reach(handle),
    {
        handle.times(Real32 { bits: 0x4000_0000 }).over(self.per_px)
    }
}

} // verus!

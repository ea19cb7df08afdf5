//! Where the canvas looks.

use crate::geometry::Point;
use crate::ieee::Real32;
use vstd::prelude::*;

verus! {

/// The one camera: where the canvas looks.
#[derive(Clone, Copy, PartialEq, Structural, Debug)]
pub struct Camera {
    pub zoom: Real32,
    pub center: Point,
    /// Clockwise, in radians.
    pub rotation: Real32,
    pub flip_x: bool,
    pub flip_y: bool,
}

impl Camera {
    /// Equal number for number.
    pub open spec fn same(self, other: Camera) -> bool {
        self.zoom.equals(other.zoom) && self.center.same(other.center) && self.rotation.equals(
            other.rotation,
        ) && self.flip_x == other.flip_x && self.flip_y == other.flip_y
    }

    /// The same view, turned upright.
    pub open spec fn upright(self) -> Camera {
        Camera { rotation: Real32 { bits: 0 }, ..self }
    }

    pub fn same_as(self, other: Camera) -> (r: bool)
        ensures
            r == self.same(other),
    {
        self.zoom.is_equal(other.zoom) && self.center.same_as(other.center)
            && self.rotation.is_equal(other.rotation) && self.flip_x == other.flip_x && self.flip_y
            == other.flip_y
    }
}

} // verus!

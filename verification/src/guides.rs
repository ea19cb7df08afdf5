//! A document's guides.

use crate::ieee::Real32;
use vstd::prelude::*;

verus! {

/// Which way a guide runs.
#[derive(Clone, Copy, PartialEq, Eq, Structural, Hash, Debug)]
pub enum GuideAxis {
    Horizontal,
    Vertical,
}

/// One guide, at a document coordinate.
#[derive(Clone, Copy, PartialEq, Structural, Debug)]
pub struct Guide {
    pub axis: GuideAxis,
    pub doc: Real32,
    pub locked: bool,
}

/// A document's guides, and whether they are shown and locked.
#[derive(PartialEq, Debug)]
pub struct Guides {
    pub list: Vec<Guide>,
    pub visible: bool,
    pub locked: bool,
}

/// What a [`Guides`] stands for.
#[verifier::ext_equal]
pub struct GuideSet {
    pub list: Seq<Guide>,
    pub visible: bool,
    pub locked: bool,
}

impl View for Guides {
    type V = GuideSet;

    open spec fn view(&self) -> GuideSet {
        GuideSet { list: self.list@, visible: self.visible, locked: self.locked }
    }
}

impl GuideSet {
    /// The set with guides added behind those it has.
    pub open spec fn with(self, more: Seq<Guide>) -> GuideSet {
        GuideSet { list: self.list + more, ..self }
    }
}

impl Clone for Guides {
    fn clone(&self) -> (r: Self)
        ensures
            r@ == self@,
    {
        let mut list: Vec<Guide> = Vec::new();
        let mut i: usize = 0;
        while i < self.list.len()
            invariant
                i <= self.list@.len(),
                list@ == self.list@.take(i as int),
            decreases self.list@.len() - i,
        {
            list.push(self.list[i]);
            i = i + 1;
        }
        assert(self.list@.take(i as int) == self.list@);
        Guides { list, visible: self.visible, locked: self.locked }
    }
}

} // verus!

//! The two appearances.

use vstd::prelude::*;

verus! {

#[derive(Clone, Copy, PartialEq, Eq, Structural, Hash, Debug)]
pub enum Theme {
    Light,
    Dark,
}

impl Theme {
    /// The other appearance.
    pub open spec fn opposite(self) -> Theme {
        match self {
            Theme::Light => Theme::Dark,
            Theme::Dark => Theme::Light,
        }
    }

    pub fn toggled(self) -> (r: Theme)
        ensures
            r == self.opposite(),
    {
        match self {
            Theme::Light => Theme::Dark,
            Theme::Dark => Theme::Light,
        }
    }
}

} // verus!

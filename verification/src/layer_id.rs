//! The identity of a layer.

use vstd::prelude::*;

verus! {

/// A layer, by the number the document knows it under.
#[derive(Clone, Copy, PartialEq, Eq, Structural, Hash, Debug, PartialOrd, Ord)]
pub struct LayerId {
    pub number: u128,
}

} // verus!

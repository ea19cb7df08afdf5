//! The identity of a tool.

use vstd::prelude::*;

verus! {

/// A tool, by the number its registry lists it under.
#[derive(Clone, Copy, PartialEq, Eq, Structural, Hash, Debug, PartialOrd, Ord)]
pub struct ToolId {
    pub number: u32,
}

} // verus!

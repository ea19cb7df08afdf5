//! Choices the folder jobs share with the batch commands.

use vstd::prelude::*;

verus! {

/// Which of a job's two folders a field names.
#[derive(Clone, Copy, PartialEq, Eq, Structural, Hash, Debug)]
pub enum BatchFolder {
    Source,
    Destination,
}

/// The format a job writes.
#[derive(Clone, Copy, PartialEq, Eq, Structural, Hash, Debug)]
pub enum BatchFormat {
    Png,
    /// Another of the host's formats, by its place in the host's list.
    Other(u8),
}

} // verus!

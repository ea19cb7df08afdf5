//! A straight-alpha colour in single precision, each component from zero to
//! one.

use crate::ieee::Real32;
use vstd::prelude::*;

verus! {

#[derive(Clone, Copy, PartialEq, Structural, Debug)]
pub struct Rgba {
    pub red: Real32,
    pub green: Real32,
    pub blue: Real32,
    pub alpha: Real32,
}

impl Rgba {
    /// Opaque white.
    pub open spec fn white_spec() -> Rgba {
        Rgba {
            red: Real32 { bits: 0x3f80_0000 },
            green: Real32 { bits: 0x3f80_0000 },
            blue: Real32 { bits: 0x3f80_0000 },
            alpha: Real32 { bits: 0x3f80_0000 },
        }
    }

    /// Opaque black.
    pub open spec fn black_spec() -> Rgba {
        Rgba {
            red: Real32 { bits: 0 },
            green: Real32 { bits: 0 },
            blue: Real32 { bits: 0 },
            alpha: Real32 { bits: 0x3f80_0000 },
        }
    }

    pub fn white() -> (r: Rgba)
        ensures
            r == Rgba::white_spec(),
    {
        Rgba {
            red: Real32 { bits: 0x3f80_0000 },
            green: Real32 { bits: 0x3f80_0000 },
            blue: Real32 { bits: 0x3f80_0000 },
            alpha: Real32 { bits: 0x3f80_0000 },
        }
    }

    pub fn black() -> (r: Rgba)
        ensures
            r == Rgba::black_spec(),
    {
        Rgba {
            red: Real32 { bits: 0 },
            green: Real32 { bits: 0 },
            blue: Real32 { bits: 0 },
            alpha: Real32 { bits: 0x3f80_0000 },
        }
    }
}

} // verus!

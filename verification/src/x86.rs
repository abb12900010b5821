//! The real-mode address space and the instruction machinery over it.

pub mod dec;
pub mod fetch;
pub mod step;

use vstd::prelude::*;

verus! {

/// A location in the real-mode address space: a 16-bit segment together with
/// an offset, widened to 32 bits for headroom above the 16-bit wrap point.
#[derive(Copy, Clone, PartialEq, Eq, Structural, Debug)]
pub struct Address {
    pub segment: u16,
    pub offset: u32,
}

impl From<(u16, u32)> for Address {
    fn from(pair: (u16, u32)) -> (r: Self) {
        Address { segment: pair.0, offset: pair.1 }
    }
}

impl vstd::std_specs::convert::FromSpecImpl<(u16, u32)> for Address {
    open spec fn obeys_from_spec() -> bool {
        true
    }

    open spec fn from_spec(pair: (u16, u32)) -> Address {
        Address { segment: pair.0, offset: pair.1 }
    }
}

} // verus!

//! Accesses to memory-mapped device registers, computed by the drivers and
//! performed by the caller.
use vstd::prelude::*;

verus! {

/// A write to a memory-mapped register.
#[allow(inconsistent_fields)]
#[derive(Clone, Copy, PartialEq, Eq, Structural, Debug)]
pub enum RegisterWrite {
    /// An 8-bit write.
    Byte { address: usize, value: u8 },
    /// A 32-bit write.
    Word { address: usize, value: u32 },
}

} // verus!

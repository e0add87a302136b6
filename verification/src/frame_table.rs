//! What an address of a sample becomes once it was looked up.

use vstd::prelude::*;
use crate::global_lib_table::GlobalLibIndex;

verus! {

/// The address of a frame, resolved or not.
#[derive(Clone, Copy, Debug, PartialEq, Eq, Structural)]
pub enum InternalFrameAddress {
    /// No library was mapped at the address. The absolute address is kept, so
    /// that the frame can still be shown.
    Unknown(u64),
    /// The address lay in a library: its relative address there, and the number
    /// of the library among the used libraries.
    InLib(u32, GlobalLibIndex),
}

} // verus!

//! Identifier values handed across the module boundary as bare integers.

use vstd::prelude::*;

verus! {

/// The identifier of a swap chain, carried as one 64-bit integer.
#[derive(Clone, Copy, Debug, PartialEq, Eq, Hash, Structural)]
pub struct SwapChainId(pub u64);

} // verus!

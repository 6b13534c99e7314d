//! Sealing trait that keeps the set of identity lifecycle markers closed.
use vstd::prelude::*;

verus! {

/// Implemented only by the lifecycle markers of this crate.
pub trait Sealed {}

} // verus!

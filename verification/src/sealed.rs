//! Seal for the mode tag set: the trait lives in a private module, so no
//! code outside this crate can implement it, which keeps the set of mode
//! tags closed.

use vstd::prelude::*;

verus! {

/// Implemented only by the three mode tags of this crate.
pub trait Sealed {

}

} // verus!

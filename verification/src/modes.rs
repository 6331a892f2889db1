//! The compile-time mode tags: zero-information types used only to select
//! which operations the driver exposes.

use vstd::prelude::*;
use crate::sealed::Sealed;

verus! {

/// Tag of a driver whose sensor has not been put in a mode yet.
pub struct UnInitialized;

/// Tag of a driver whose sensor broadcasts frames continuously.
pub struct Active;

/// Tag of a driver whose sensor only answers explicit read commands.
pub struct Passive;

impl Sealed for Active {

}

impl Sealed for Passive {

}

impl Sealed for UnInitialized {

}

/// A mode tag. The trait is sealed: exactly `UnInitialized`, `Active` and
/// `Passive` implement it, so the mode set is closed at compile time.
pub trait Mode: Sealed {

}

impl Mode for Active {

}

impl Mode for Passive {

}

impl Mode for UnInitialized {

}

} // verus!

//! The boundary to the serial channel: a tri-state outcome type and the
//! byte-oriented, non-blocking transport contract the driver is given.

use vstd::prelude::*;

verus! {

/// Outcome of one non-blocking step: the operation finished, made no
/// progress and must be retried, or failed with a transport error.
pub enum Step<T, E> {
    /// The operation finished and produced its value.
    Complete(T),
    /// No progress could be made right now; retry later.
    Pending,
    /// The transport reported an error, passed through verbatim.
    Failed(E),
}

/// A byte-oriented, non-blocking serial channel. The driver does not open or
/// configure the port; callers implement this trait for their serial handle
/// and hand it over. Nothing is assumed about what the channel carries: the
/// driver's contracts state what holds of its own state for every outcome.
pub trait Transport<E> {
    /// Try to take one received byte from the channel.
    fn read(&mut self) -> Step<u8, E>;

    /// Try to hand one byte to the channel.
    fn write(&mut self, byte: u8) -> Step<(), E>;

    /// Try to push buffered output out onto the wire.
    fn flush(&mut self) -> Step<(), E>;
}

} // verus!

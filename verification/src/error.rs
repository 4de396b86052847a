//! Error taxonomy of the panel controller.

use vstd::prelude::*;

verus! {

/// A failed write on the serial bus.  The device's state is unknown after a
/// partial write, so callers treat this as fatal and never retry.
#[derive(Clone, Copy, Debug, PartialEq, Eq, Structural)]
pub struct TransportError;

/// Everything a controller operation can fail with.
#[derive(Clone, Copy, Debug, PartialEq, Eq, Structural)]
pub enum PaperError {
    /// A bus write failed; the operation was aborted and the panel must be
    /// powered on again before further use.
    Transport,
    /// A bounded busy wait ran past its deadline.  Only surfaces when the
    /// caller opted into a timeout.
    BusyTimeout,
    /// The caller supplied an image whose dimensions are not the panel's
    /// fixed width and height.
    SizeMismatch,
}

} // verus!

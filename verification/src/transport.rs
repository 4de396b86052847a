//! The electrical collaborator interface the controller drives.
//!
//! The panel is reached through four digital pins and a synchronous serial
//! bus.  [`Transport`] abstracts exactly the primitives the controller
//! needs: drive an output pin, write a byte buffer, read the busy pin,
//! pause, and read a clock.  Its ghost history records every externally
//! visible operation, so the controller's contracts can pin down the exact
//! ordered byte sequences it emits.

use vstd::prelude::*;

use crate::error::TransportError;

verus! {

/// The output pins the controller drives.  The busy pin is read-only and
/// reached through [`Transport::read_busy`].
#[derive(Clone, Copy, Debug, PartialEq, Eq, Structural)]
pub enum PinId {
    /// The reset line, pulsed when the panel powers on.
    Reset,
    /// The data/command select line: low marks the next bus write as a
    /// command opcode, high as data payload.
    DataCommand,
    /// The power-enable line.
    Power,
}

/// An electrical level of a digital pin.
#[derive(Clone, Copy, Debug, PartialEq, Eq, Structural)]
pub enum PinLevel {
    Low,
    High,
}

/// One externally visible transport operation, as recorded in the ghost
/// history.
#[verifier::ext_equal]
pub enum BusOp {
    /// An output pin was driven to a level.
    SetPin(PinId, PinLevel),
    /// A byte buffer was written on the serial bus.
    Write(Seq<u8>),
    /// The busy pin was read and showed the given level.
    ReadBusy(PinLevel),
    /// The calling thread paused for the given number of milliseconds.
    SleepMs(u64),
}

/// The platform layer under the controller: pin control, a blocking serial
/// write, the busy input, and time.  Every call is synchronous.
///
/// `history` is the ghost log of operations performed, oldest first; each
/// method appends exactly its own operation, so a caller's contract can
/// state the exact sequence it caused.
///
/// `busy_budget` bounds how many more busy reads may still come back low.
/// It models the hardware guarantee that a running refresh always
/// completes: the panel releases the busy line after finitely many polls.
/// The unbounded busy wait of the controller terminates because of it.
pub trait Transport: Sized {
    /// The operations performed so far, oldest first.
    ///
    /// The body below is only a default so that platform implementations
    /// outside the verifier need not name the ghost state; a verified
    /// implementation overrides it with its real log.
    open spec fn history(&self) -> Seq<BusOp> {
        Seq::empty()
    }

    /// An upper bound on how many further busy reads report low.
    ///
    /// As with `history`, the default only spares unverified platform
    /// implementations from naming the ghost state.
    open spec fn busy_budget(&self) -> nat {
        0
    }

    /// Whether the serial bus is healthy: writes on a healthy bus succeed
    /// and leave it healthy, so callers know when success is owed.  As
    /// with `history`, the default only serves unverified platform
    /// implementations.
    open spec fn bus_ok(&self) -> bool {
        true
    }

    /// Drives an output pin to the given level, returning once the level
    /// has settled.
    fn set_pin(&mut self, pin: PinId, level: PinLevel)
        ensures
            final(self).history() == old(self).history().push(BusOp::SetPin(pin, level)),
            final(self).busy_budget() <= old(self).busy_budget(),
            final(self).bus_ok() == old(self).bus_ok(),
    ;

    /// Writes the bytes synchronously on the serial bus.  The attempt is
    /// recorded whether or not it succeeds; on an error the device's state
    /// is unknown and the caller treats the fault as fatal.
    fn spi_write(&mut self, data: &[u8]) -> (r: Result<usize, TransportError>)
        ensures
            final(self).history() == old(self).history().push(BusOp::Write(data@)),
            final(self).busy_budget() <= old(self).busy_budget(),
            final(self).bus_ok() == old(self).bus_ok(),
            old(self).bus_ok() ==> r is Ok,
    ;

    /// Reads the busy pin.  Low means the panel is still busy; high means
    /// it is ready.  The mapping is fixed by the hardware.
    fn read_busy(&mut self) -> (r: PinLevel)
        ensures
            final(self).history() == old(self).history().push(BusOp::ReadBusy(r)),
            final(self).busy_budget() <= old(self).busy_budget(),
            final(self).bus_ok() == old(self).bus_ok(),
            r == PinLevel::Low ==> final(self).busy_budget() < old(self).busy_budget(),
    ;

    /// Pauses the calling thread for `ms` milliseconds.
    fn sleep_ms(&mut self, ms: u64)
        ensures
            final(self).history() == old(self).history().push(BusOp::SleepMs(ms)),
            final(self).busy_budget() <= old(self).busy_budget(),
            final(self).bus_ok() == old(self).bus_ok(),
    ;

    /// The current time in milliseconds from an arbitrary origin.  Reading
    /// the clock is not an externally visible operation and promises
    /// nothing; the controller states what holds of every reading.
    fn now_ms(&self) -> u64;
}

} // verus!

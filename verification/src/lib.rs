//! Driver core for a 1-bit electrophoretic display panel on a command/data
//! serial bus.
//!
//! The crate converts a logical pixel bitmap into the panel's rotated,
//! bit-packed scanline buffer, and sequences the panel through power-on,
//! display, clear and power-off phases.  All electrical work (pin levels,
//! bus writes, sleeps) goes through the [`transport::Transport`] trait, so
//! every byte the controller emits is pinned down by its contracts; a
//! recording [`mock::MockTransport`] exercises them without hardware.

pub mod bytes;
pub mod error;
pub mod mock;
pub mod packer;
pub mod paper;
pub mod transport;

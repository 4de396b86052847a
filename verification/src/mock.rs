//! A recording transport double.
//!
//! [`MockTransport`] implements [`Transport`] entirely in memory: it logs
//! every operation, reports the busy pin low for a configured number of
//! reads, advances a simulated clock by every sleep, and can be told to
//! fail bus writes.  It is the verified witness that the transport
//! contracts are implementable, and the instrument the scenario tests use
//! to compare the controller's emitted operation sequences byte for byte.

use vstd::prelude::*;

use crate::error::TransportError;
use crate::transport::{BusOp, PinId, PinLevel, Transport};

verus! {

/// One recorded transport operation, the executable mirror of [`BusOp`].
#[derive(Clone, Debug, PartialEq, Eq)]
pub enum RecordedOp {
    /// An output pin was driven to a level.
    SetPin(PinId, PinLevel),
    /// A byte buffer was written on the serial bus.
    Write(Vec<u8>),
    /// The busy pin was read and showed the given level.
    ReadBusy(PinLevel),
    /// The calling thread paused for the given number of milliseconds.
    SleepMs(u64),
}

impl View for RecordedOp {
    type V = BusOp;

    open spec fn view(&self) -> BusOp {
        match self {
            RecordedOp::SetPin(pin, level) => BusOp::SetPin(*pin, *level),
            RecordedOp::Write(data) => BusOp::Write(data@),
            RecordedOp::ReadBusy(level) => BusOp::ReadBusy(*level),
            RecordedOp::SleepMs(ms) => BusOp::SleepMs(*ms),
        }
    }
}

/// The ghost views of a recorded log, oldest first.
pub open spec fn op_views(log: Seq<RecordedOp>) -> Seq<BusOp>
    decreases log.len(),
{
    if log.len() == 0 {
        Seq::empty()
    } else {
        op_views(log.drop_last()).push(log.last()@)
    }
}

/// Appending one recorded operation appends exactly its view.
proof fn lemma_op_views_push(log: Seq<RecordedOp>, op: RecordedOp)
    ensures
        op_views(log.push(op)) == op_views(log).push(op@),
{
    assert(log.push(op).drop_last() =~= log);
    assert(log.push(op).last() == op);
}

/// A transport double that records every operation in memory.
pub struct MockTransport {
    /// Every operation performed, oldest first.
    pub log: Vec<RecordedOp>,
    /// How many further busy reads still report low.
    lows_remaining: usize,
    /// A simulated clock, advanced by exactly the slept time.
    clock_ms: u64,
    /// When set, every bus write is recorded and then reported failed.
    fail_writes: bool,
}

impl MockTransport {
    /// A fresh mock whose busy pin reports low for the next `busy_lows`
    /// reads and high afterwards, with an empty log and a clock at zero.
    pub fn new(busy_lows: usize) -> (r: MockTransport)
        ensures
            r.history() == Seq::<BusOp>::empty(),
            r.busy_budget() == busy_lows,
            r.bus_ok(),
    {
        MockTransport { log: Vec::new(), lows_remaining: busy_lows, clock_ms: 0, fail_writes: false }
    }

    /// Makes every later bus write fail (or succeed again), leaving the
    /// log, the busy pin and the clock alone.
    pub fn set_fail_writes(&mut self, fail: bool)
        ensures
            final(self).history() == old(self).history(),
            final(self).busy_budget() == old(self).busy_budget(),
            final(self).bus_ok() == !fail,
    {
        self.fail_writes = fail;
    }
}

impl Transport for MockTransport {
    closed spec fn history(&self) -> Seq<BusOp> {
        op_views(self.log@)
    }

    closed spec fn busy_budget(&self) -> nat {
        self.lows_remaining as nat
    }

    closed spec fn bus_ok(&self) -> bool {
        !self.fail_writes
    }

    fn set_pin(&mut self, pin: PinId, level: PinLevel) {
        self.log.push(RecordedOp::SetPin(pin, level));
        proof {
            lemma_op_views_push(old(self).log@, RecordedOp::SetPin(pin, level));
        }
    }

    fn spi_write(&mut self, data: &[u8]) -> (r: Result<usize, TransportError>) {
        let n = data.len();
        let copy = vstd::slice::slice_to_vec(data);
        self.log.push(RecordedOp::Write(copy));
        proof {
            lemma_op_views_push(old(self).log@, self.log@.last());
        }
        if self.fail_writes {
            Err(TransportError)
        } else {
            Ok(n)
        }
    }

    fn read_busy(&mut self) -> (r: PinLevel) {
        let level: PinLevel = if self.lows_remaining > 0 {
            self.lows_remaining = self.lows_remaining - 1;
            PinLevel::Low
        } else {
            PinLevel::High
        };
        self.log.push(RecordedOp::ReadBusy(level));
        proof {
            lemma_op_views_push(old(self).log@, RecordedOp::ReadBusy(level));
        }
        level
    }

    fn sleep_ms(&mut self, ms: u64) {
        self.clock_ms = if self.clock_ms <= u64::MAX - ms {
            self.clock_ms + ms
        } else {
            u64::MAX
        };
        self.log.push(RecordedOp::SleepMs(ms));
        proof {
            lemma_op_views_push(old(self).log@, RecordedOp::SleepMs(ms));
        }
    }

    fn now_ms(&self) -> u64 {
        self.clock_ms
    }
}

} // verus!

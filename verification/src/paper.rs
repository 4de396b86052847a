//! The panel controller: a state machine over an abstract transport.
//!
//! Every public operation states, over the transport's ghost history, the
//! exact ordered sequence of pin levels, byte buffers and pauses it emits
//! — the initialization script, the frame writes, the busy polls and the
//! shutdown sequence, byte for byte.

use vstd::prelude::*;

use crate::bytes::Bytes;
use crate::error::PaperError;
use crate::packer::{img_2_display_buf, lemma_pack_spec_is, pack_spec, LogicalImage};
use crate::transport::{BusOp, PinId, PinLevel, Transport};

verus! {

/// The externally visible states of the controller.  The transient phases
/// of an operation (powering on, waiting on the busy pin) are internal to
/// the call that performs them.
#[derive(Clone, Copy, Debug, PartialEq, Eq, Structural)]
pub enum PanelState {
    /// Powered down; only `on` may run.
    Off,
    /// Initialized and ready; display and clear requests may begin.
    Idle,
}

/// The interval between two busy polls, in milliseconds.
pub const AWAIT_BUSY_INTERVAL_MS: u64 = 50;

/// The operations of one command frame: data/command select low, then the
/// opcode bytes on the bus.
pub open spec fn cmd_ops(bytes: Seq<u8>) -> Seq<BusOp> {
    seq![
        BusOp::SetPin(PinId::DataCommand, PinLevel::Low),
        BusOp::Write(bytes),
    ]
}

/// The operations of one data frame: data/command select high, then the
/// payload bytes on the bus.
pub open spec fn data_ops(bytes: Seq<u8>) -> Seq<BusOp> {
    seq![
        BusOp::SetPin(PinId::DataCommand, PinLevel::High),
        BusOp::Write(bytes),
    ]
}

/// The reset pulse: high 200 ms, low 2 ms, high 200 ms.
pub open spec fn reset_ops() -> Seq<BusOp> {
    seq![
        BusOp::SetPin(PinId::Reset, PinLevel::High),
        BusOp::SleepMs(200),
        BusOp::SetPin(PinId::Reset, PinLevel::Low),
        BusOp::SleepMs(2),
        BusOp::SetPin(PinId::Reset, PinLevel::High),
        BusOp::SleepMs(200),
    ]
}

/// One busy poll: the busy-query command, then a read of the busy pin
/// showing `level`.
pub open spec fn busy_poll_ops(level: PinLevel) -> Seq<BusOp> {
    cmd_ops(seq![0x71u8]) + seq![BusOp::ReadBusy(level)]
}

/// `n` busy polls that all came back busy, each followed by one
/// poll-interval pause.
pub open spec fn busy_partial_ops(n: nat) -> Seq<BusOp>
    decreases n,
{
    if n == 0 {
        Seq::empty()
    } else {
        busy_partial_ops((n - 1) as nat) + busy_poll_ops(PinLevel::Low) + seq![
            BusOp::SleepMs(AWAIT_BUSY_INTERVAL_MS),
        ]
    }
}

/// A completed busy wait: `n` busy polls with pauses, then a poll showing
/// ready.
pub open spec fn busy_wait_ok_ops(n: nat) -> Seq<BusOp> {
    busy_partial_ops(n) + busy_poll_ops(PinLevel::High)
}

/// A timed-out busy wait: `n` busy polls with pauses, then one more poll
/// still busy past the deadline.
pub open spec fn busy_wait_timeout_ops(n: nat) -> Seq<BusOp> {
    busy_partial_ops(n) + busy_poll_ops(PinLevel::Low)
}

/// The full-refresh waveform table for the W polarity, a fixed vendor
/// register payload.
pub open spec fn full_lut_w_data() -> Seq<u8> {
    seq![
        0x60u8, 0x5A, 0x5A, 0x00, 0x00, 0x01, 0x00, 0x00, 0x00, 0x00, 0x00, 0x00, 0x00, 0x00,
        0x00, 0x00, 0x00, 0x00, 0x00, 0x00, 0x00, 0x00, 0x00, 0x00, 0x00, 0x00, 0x00, 0x00,
        0x00, 0x00, 0x00, 0x00, 0x00, 0x00, 0x00, 0x00, 0x00, 0x00, 0x00, 0x00, 0x00, 0x00,
    ]
}

/// The full-refresh waveform table for the B polarity.
pub open spec fn full_lut_b_data() -> Seq<u8> {
    seq![
        0x90u8, 0x5A, 0x5A, 0x00, 0x00, 0x01, 0x00, 0x00, 0x00, 0x00, 0x00, 0x00, 0x00, 0x00,
        0x00, 0x00, 0x00, 0x00, 0x00, 0x00, 0x00, 0x00, 0x00, 0x00, 0x00, 0x00, 0x00, 0x00,
        0x00, 0x00, 0x00, 0x00, 0x00, 0x00, 0x00, 0x00, 0x00, 0x00, 0x00, 0x00, 0x00, 0x00,
    ]
}

/// The partial-refresh waveform table for the W polarity.  Defined by the
/// vendor map; the exposed operations select the full-refresh tables.
pub open spec fn part_lut_w_data() -> Seq<u8> {
    seq![
        0x60u8, 0x01, 0x01, 0x00, 0x00, 0x01, 0x80, 0x1f, 0x00, 0x00, 0x00, 0x01, 0x00, 0x00,
        0x00, 0x00, 0x00, 0x00, 0x00, 0x00, 0x00, 0x00, 0x00, 0x00, 0x00, 0x00, 0x00, 0x00,
        0x00, 0x00, 0x00, 0x00, 0x00, 0x00, 0x00, 0x00, 0x00, 0x00, 0x00, 0x00, 0x00, 0x00,
    ]
}

/// The partial-refresh waveform table for the B polarity.
pub open spec fn part_lut_b_data() -> Seq<u8> {
    seq![
        0x90u8, 0x01, 0x01, 0x00, 0x00, 0x01, 0x40, 0x1f, 0x00, 0x00, 0x00, 0x01, 0x00, 0x00,
        0x00, 0x00, 0x00, 0x00, 0x00, 0x00, 0x00, 0x00, 0x00, 0x00, 0x00, 0x00, 0x00, 0x00,
        0x00, 0x00, 0x00, 0x00, 0x00, 0x00, 0x00, 0x00, 0x00, 0x00, 0x00, 0x00, 0x00, 0x00,
    ]
}

/// The writes that select the full-refresh waveform: both polarity tables.
pub open spec fn full_reg_ops() -> Seq<BusOp> {
    cmd_ops(seq![0x23u8]) + data_ops(full_lut_w_data()) + cmd_ops(seq![0x24u8]) + data_ops(
        full_lut_b_data(),
    )
}

/// The writes that select the partial-refresh waveform.
pub open spec fn part_reg_ops() -> Seq<BusOp> {
    cmd_ops(seq![0x23u8]) + data_ops(part_lut_w_data()) + cmd_ops(seq![0x24u8]) + data_ops(
        part_lut_b_data(),
    )
}

/// The first half of the fixed initialization script: panel setting,
/// power rails and charge pump, reproduced byte for byte from the vendor
/// register map.
pub open spec fn init_reg_ops_a() -> Seq<BusOp> {
    cmd_ops(seq![0xD2u8]) + data_ops(seq![0x3Fu8]) + cmd_ops(seq![0x00u8]) + data_ops(
        seq![0x6Fu8],
    ) + cmd_ops(seq![0x01u8]) + data_ops(seq![0x03u8]) + data_ops(seq![0x00u8]) + data_ops(
        seq![0x2bu8],
    ) + data_ops(seq![0x2bu8]) + cmd_ops(seq![0x06u8]) + data_ops(seq![0x3fu8])
}

/// The second half of the fixed initialization script: LUT options, clock,
/// VCOM, gate/source timing, resolution and power saving.
pub open spec fn init_reg_ops_b() -> Seq<BusOp> {
    cmd_ops(seq![0x2Au8]) + data_ops(seq![0x00u8]) + data_ops(seq![0x00u8]) + cmd_ops(
        seq![0x30u8],
    ) + data_ops(seq![0x17u8]) + cmd_ops(seq![0x50u8]) + data_ops(seq![0x57u8]) + cmd_ops(
        seq![0x60u8],
    ) + data_ops(seq![0x22u8]) + cmd_ops(seq![0x61u8]) + data_ops(seq![0x50u8]) + data_ops(
        seq![0x80u8],
    ) + cmd_ops(seq![0x82u8]) + data_ops(seq![0x12u8]) + cmd_ops(seq![0xE3u8]) + data_ops(
        seq![0x33u8],
    )
}

/// The whole register-configuration part of the initialization script.
pub open spec fn init_reg_ops() -> Seq<BusOp> {
    init_reg_ops_a() + init_reg_ops_b()
}

/// Everything a successful power-on emits: power high, the reset pulse,
/// the register script, the full-refresh waveform tables, the power-on
/// command, then a completed busy wait of `n` busy polls.
pub open spec fn on_ops(n: nat) -> Seq<BusOp> {
    seq![BusOp::SetPin(PinId::Power, PinLevel::High)] + reset_ops() + init_reg_ops()
        + full_reg_ops() + cmd_ops(seq![0x04u8]) + busy_wait_ok_ops(n)
}

/// A solid full-frame buffer: `BUF_LEN` copies of `v`.
pub open spec fn solid_frame(v: u8) -> Seq<u8> {
    Seq::new(1280 as nat, |i: int| v)
}

/// The two full-frame writes of a display or clear request: command 0x10
/// with the first buffer, command 0x13 with the second.
pub open spec fn frame_write_ops(first: Seq<u8>, second: Seq<u8>) -> Seq<BusOp> {
    cmd_ops(seq![0x10u8]) + data_ops(first) + cmd_ops(seq![0x13u8]) + data_ops(second)
}

/// The refresh trigger: command 0x12, a 10 ms pause, then a completed busy
/// wait of `n` busy polls.
pub open spec fn turn_on_ops(n: nat) -> Seq<BusOp> {
    cmd_ops(seq![0x12u8]) + seq![BusOp::SleepMs(10)] + busy_wait_ok_ops(n)
}

/// Everything a successful display of image `img` emits.
pub open spec fn display_ops(img: Seq<u8>, n: nat) -> Seq<BusOp> {
    frame_write_ops(solid_frame(0xff), pack_spec(img)) + turn_on_ops(n)
}

/// Everything a successful clear emits: two solid frames, then the
/// refresh trigger.
pub open spec fn clear_ops(n: nat) -> Seq<BusOp> {
    frame_write_ops(solid_frame(0x00), solid_frame(0xff)) + turn_on_ops(n)
}

/// Everything a successful power-off emits: VCOM interval, the power-off
/// command, a completed busy wait of `n` busy polls, deep sleep, a 2 s
/// pause, then power low.
pub open spec fn off_ops(n: nat) -> Seq<BusOp> {
    cmd_ops(seq![0x50u8]) + data_ops(seq![0xf7u8]) + cmd_ops(seq![0x02u8]) + busy_wait_ok_ops(n)
        + cmd_ops(seq![0x07u8]) + data_ops(seq![0xA5u8]) + seq![
        BusOp::SleepMs(2000),
        BusOp::SetPin(PinId::Power, PinLevel::Low),
    ]
}

/// The hardware-session entity: exclusive owner of its transport (the four
/// pins and the bus handle) for its whole lifetime.
pub struct Paper<T: Transport> {
    transport: T,
    state: PanelState,
}

impl<T: Transport> Paper<T> {
    /// The operations the controller has caused, oldest first.
    pub closed spec fn history(&self) -> Seq<BusOp> {
        self.transport.history()
    }

    /// The controller's current state.
    pub closed spec fn state(&self) -> PanelState {
        self.state
    }

    /// See [`Transport::busy_budget`]; bounds the remaining busy polls.
    spec fn budget(&self) -> nat {
        self.transport.busy_budget()
    }

    /// Whether the underlying bus is healthy.  Operations on a healthy
    /// bus are owed success; see [`Transport::bus_ok`].
    pub closed spec fn bus_ok(&self) -> bool {
        self.transport.bus_ok()
    }

    /// Wraps an already acquired transport.  The panel starts off.
    pub fn new(transport: T) -> (r: Paper<T>)
        ensures
            r.state() == PanelState::Off,
            r.history() == transport.history(),
            r.bus_ok() == transport.bus_ok(),
    {
        Paper { transport, state: PanelState::Off }
    }

    /// Borrows the underlying transport, for instance to inspect a
    /// recording mock after a sequence of operations.
    pub fn transport(&self) -> (t: &T)
        ensures
            t.history() == self.history(),
    {
        &self.transport
    }

    /// The controller's current state, for callers that must check it
    /// before requesting an operation.
    pub fn current_state(&self) -> (s: PanelState)
        ensures
            s == self.state(),
    {
        self.state
    }

    /// Writes one buffer on the bus, mapping a transport fault to the
    /// controller's error type.
    fn spi_send(&mut self, buf: &[u8]) -> (r: Result<(), PaperError>)
        ensures
            final(self).state() == old(self).state(),
            final(self).budget() <= old(self).budget(),
            final(self).bus_ok() == old(self).bus_ok(),
            final(self).history() == old(self).history().push(BusOp::Write(buf@)),
            old(self).bus_ok() ==> r is Ok,
            (r matches Err(e) ==> e == PaperError::Transport),
    {
        match self.transport.spi_write(buf) {
            Ok(_) => Ok(()),
            Err(_) => Err(PaperError::Transport),
        }
    }

    /// Sends one command frame: select low, then the opcode bytes.
    fn send_cmd<B: Bytes>(&mut self, cmd: B) -> (r: Result<(), PaperError>)
        ensures
            final(self).state() == old(self).state(),
            final(self).budget() <= old(self).budget(),
            final(self).bus_ok() == old(self).bus_ok(),
            final(self).history() == old(self).history() + cmd_ops(cmd.byte_view()),
            old(self).bus_ok() ==> r is Ok,
            (r matches Err(e) ==> e == PaperError::Transport),
    {
        self.transport.set_pin(PinId::DataCommand, PinLevel::Low);
        let r = self.spi_send(cmd.bytes());
        proof {
            assert(self.history() =~= old(self).history() + cmd_ops(cmd.byte_view()));
        }
        r
    }

    /// Sends one data frame: select high, then the payload bytes.
    fn send_data<B: Bytes>(&mut self, data: B) -> (r: Result<(), PaperError>)
        ensures
            final(self).state() == old(self).state(),
            final(self).budget() <= old(self).budget(),
            final(self).bus_ok() == old(self).bus_ok(),
            final(self).history() == old(self).history() + data_ops(data.byte_view()),
            old(self).bus_ok() ==> r is Ok,
            (r matches Err(e) ==> e == PaperError::Transport),
    {
        self.transport.set_pin(PinId::DataCommand, PinLevel::High);
        let r = self.spi_send(data.bytes());
        proof {
            assert(self.history() =~= old(self).history() + data_ops(data.byte_view()));
        }
        r
    }

    /// Performs the reset pulse that precedes initialization.
    fn reset(&mut self)
        ensures
            final(self).state() == old(self).state(),
            final(self).budget() <= old(self).budget(),
            final(self).bus_ok() == old(self).bus_ok(),
            final(self).history() == old(self).history() + reset_ops(),
    {
        self.transport.set_pin(PinId::Reset, PinLevel::High);
        self.transport.sleep_ms(200);
        self.transport.set_pin(PinId::Reset, PinLevel::Low);
        self.transport.sleep_ms(2);
        self.transport.set_pin(PinId::Reset, PinLevel::High);
        self.transport.sleep_ms(200);
        proof {
            assert(self.history() =~= old(self).history() + reset_ops());
        }
    }

    /// Issues the busy-query command and reads the busy pin.  Returns true
    /// while the panel is busy (pin low).
    fn on_busy(&mut self) -> (r: Result<bool, PaperError>)
        ensures
            final(self).state() == old(self).state(),
            final(self).budget() <= old(self).budget(),
            final(self).bus_ok() == old(self).bus_ok(),
            old(self).bus_ok() ==> r is Ok,
            (r matches Ok(b) ==> {
                &&& final(self).history() == old(self).history() + busy_poll_ops(
                    if b {
                        PinLevel::Low
                    } else {
                        PinLevel::High
                    },
                )
                &&& (b ==> final(self).budget() < old(self).budget())
            }),
            (r matches Err(e) ==> e == PaperError::Transport && final(self).history() == old(
                self,
            ).history() + cmd_ops(seq![0x71u8])),
    {
        match self.send_cmd(0x71u8) {
            Ok(()) => {}
            Err(e) => {
                return Err(e);
            }
        }
        let level = self.transport.read_busy();
        proof {
            assert(self.history() =~= old(self).history() + busy_poll_ops(level));
        }
        match level {
            PinLevel::High => Ok(false),
            PinLevel::Low => Ok(true),
        }
    }

    /// Blocks until the panel reports ready, polling the busy pin every
    /// 50 ms.
    ///
    /// With `None` the wait is unbounded by design: it is used for the
    /// state-changing sequences, whose completion the hardware guarantees,
    /// so no timeout error can come back.  With `Some(ms)` the wait fails
    /// with a timeout once a poll happens past the deadline `now + ms`,
    /// overrunning the deadline by at most one poll interval.
    pub fn await_busy(&mut self, timeout_ms: Option<u64>) -> (r: Result<(), PaperError>)
        ensures
            final(self).state() == old(self).state(),
            final(self).bus_ok() == old(self).bus_ok(),
            (old(self).bus_ok() && timeout_ms is None ==> r is Ok),
            (old(self).bus_ok() ==> r != Result::<(), PaperError>::Err(PaperError::Transport)),
            (r matches Ok(()) ==> exists|n: nat|
                final(self).history() == old(self).history() + busy_wait_ok_ops(n)),
            (r matches Err(e) ==> {
                &&& e != PaperError::SizeMismatch
                &&& (e == PaperError::BusyTimeout ==> timeout_ms is Some && exists|n: nat|
                    final(self).history() == old(self).history() + busy_wait_timeout_ops(n))
                &&& (e == PaperError::Transport ==> old(self).history().is_prefix_of(
                    final(self).history(),
                ))
            }),
            (timeout_ms is None ==> r != Result::<(), PaperError>::Err(PaperError::BusyTimeout)),
    {
        let ghost h0 = old(self).history();
        let first_busy = match self.on_busy() {
            Ok(b) => b,
            Err(e) => {
                proof {
                    assert(h0 =~= self.history().subrange(0, h0.len() as int));
                }
                return Err(e);
            }
        };
        if !first_busy {
            proof {
                assert(busy_wait_ok_ops(0) =~= busy_poll_ops(PinLevel::High));
                assert(self.history() == h0 + busy_wait_ok_ops(0));
            }
            return Ok(());
        }
        let has_deadline: bool;
        let mut deadline: u64 = 0;
        match timeout_ms {
            Some(ms) => {
                has_deadline = true;
                let start = self.transport.now_ms();
                deadline = if start <= u64::MAX - ms {
                    start + ms
                } else {
                    u64::MAX
                };
            }
            None => {
                has_deadline = false;
            }
        }
        let ghost mut polls: nat = 0;
        proof {
            assert(busy_partial_ops(0) + busy_poll_ops(PinLevel::Low) =~= busy_poll_ops(
                PinLevel::Low,
            ));
            assert(self.history() == h0 + busy_partial_ops(0) + busy_poll_ops(PinLevel::Low));
        }
        loop
            invariant
                h0 == old(self).history(),
                self.state() == old(self).state(),
                self.bus_ok() == old(self).bus_ok(),
                has_deadline <==> timeout_ms is Some,
                self.history() == h0 + busy_partial_ops(polls) + busy_poll_ops(PinLevel::Low),
            decreases self.budget(),
        {
            if has_deadline {
                let now = self.transport.now_ms();
                if now > deadline {
                    proof {
                        assert(self.history() == h0 + busy_wait_timeout_ops(polls));
                    }
                    return Err(PaperError::BusyTimeout);
                }
            }
            self.transport.sleep_ms(AWAIT_BUSY_INTERVAL_MS);
            proof {
                polls = polls + 1;
                assert(busy_partial_ops(polls) == busy_partial_ops((polls - 1) as nat)
                    + busy_poll_ops(PinLevel::Low) + seq![BusOp::SleepMs(AWAIT_BUSY_INTERVAL_MS)]);
                assert(self.history() =~= h0 + busy_partial_ops(polls));
            }
            let busy = match self.on_busy() {
                Ok(b) => b,
                Err(e) => {
                    proof {
                        assert(h0 =~= self.history().subrange(0, h0.len() as int));
                    }
                    return Err(e);
                }
            };
            if !busy {
                proof {
                    assert(self.history() =~= h0 + busy_wait_ok_ops(polls));
                }
                return Ok(());
            }
            proof {
                assert(self.history() == h0 + busy_partial_ops(polls) + busy_poll_ops(
                    PinLevel::Low,
                ));
            }
        }
    }

    /// Writes both full-refresh waveform tables.
    fn set_full_reg(&mut self) -> (r: Result<(), PaperError>)
        ensures
            final(self).state() == old(self).state(),
            final(self).budget() <= old(self).budget(),
            final(self).bus_ok() == old(self).bus_ok(),
            old(self).bus_ok() ==> r is Ok,
            (r matches Ok(()) ==> final(self).history() == old(self).history() + full_reg_ops()),
            (r matches Err(e) ==> e == PaperError::Transport && old(self).history().is_prefix_of(
                final(self).history(),
            )),
    {
        let lut_w: [u8; 42] = [
            0x60, 0x5A, 0x5A, 0x00, 0x00, 0x01, 0x00, 0x00, 0x00, 0x00, 0x00, 0x00, 0x00, 0x00,
            0x00, 0x00, 0x00, 0x00, 0x00, 0x00, 0x00, 0x00, 0x00, 0x00, 0x00, 0x00, 0x00, 0x00,
            0x00, 0x00, 0x00, 0x00, 0x00, 0x00, 0x00, 0x00, 0x00, 0x00, 0x00, 0x00, 0x00, 0x00,
        ];
        let lut_b: [u8; 42] = [
            0x90, 0x5A, 0x5A, 0x00, 0x00, 0x01, 0x00, 0x00, 0x00, 0x00, 0x00, 0x00, 0x00, 0x00,
            0x00, 0x00, 0x00, 0x00, 0x00, 0x00, 0x00, 0x00, 0x00, 0x00, 0x00, 0x00, 0x00, 0x00,
            0x00, 0x00, 0x00, 0x00, 0x00, 0x00, 0x00, 0x00, 0x00, 0x00, 0x00, 0x00, 0x00, 0x00,
        ];
        proof {
            assert(lut_w@ =~= full_lut_w_data());
            assert(lut_b@ =~= full_lut_b_data());
        }
        self.send_cmd(0x23u8)?;
        self.send_data(lut_w.as_slice())?;
        self.send_cmd(0x24u8)?;
        self.send_data(lut_b.as_slice())?;
        proof {
            assert(self.history() =~= old(self).history() + full_reg_ops());
        }
        Ok(())
    }

    /// Writes both partial-refresh waveform tables.  Defined for the
    /// faster waveform; the exposed operations select the full one.
    #[allow(dead_code)]
    fn set_part_reg(&mut self) -> (r: Result<(), PaperError>)
        ensures
            final(self).state() == old(self).state(),
            final(self).budget() <= old(self).budget(),
            final(self).bus_ok() == old(self).bus_ok(),
            old(self).bus_ok() ==> r is Ok,
            (r matches Ok(()) ==> final(self).history() == old(self).history() + part_reg_ops()),
            (r matches Err(e) ==> e == PaperError::Transport && old(self).history().is_prefix_of(
                final(self).history(),
            )),
    {
        let lut_w: [u8; 42] = [
            0x60, 0x01, 0x01, 0x00, 0x00, 0x01, 0x80, 0x1f, 0x00, 0x00, 0x00, 0x01, 0x00, 0x00,
            0x00, 0x00, 0x00, 0x00, 0x00, 0x00, 0x00, 0x00, 0x00, 0x00, 0x00, 0x00, 0x00, 0x00,
            0x00, 0x00, 0x00, 0x00, 0x00, 0x00, 0x00, 0x00, 0x00, 0x00, 0x00, 0x00, 0x00, 0x00,
        ];
        let lut_b: [u8; 42] = [
            0x90, 0x01, 0x01, 0x00, 0x00, 0x01, 0x40, 0x1f, 0x00, 0x00, 0x00, 0x01, 0x00, 0x00,
            0x00, 0x00, 0x00, 0x00, 0x00, 0x00, 0x00, 0x00, 0x00, 0x00, 0x00, 0x00, 0x00, 0x00,
            0x00, 0x00, 0x00, 0x00, 0x00, 0x00, 0x00, 0x00, 0x00, 0x00, 0x00, 0x00, 0x00, 0x00,
        ];
        proof {
            assert(lut_w@ =~= part_lut_w_data());
            assert(lut_b@ =~= part_lut_b_data());
        }
        self.send_cmd(0x23u8)?;
        self.send_data(lut_w.as_slice())?;
        self.send_cmd(0x24u8)?;
        self.send_data(lut_b.as_slice())?;
        proof {
            assert(self.history() =~= old(self).history() + part_reg_ops());
        }
        Ok(())
    }

    /// Sends the first half of the register-configuration script.
    fn send_init_regs_a(&mut self) -> (r: Result<(), PaperError>)
        ensures
            final(self).state() == old(self).state(),
            final(self).budget() <= old(self).budget(),
            final(self).bus_ok() == old(self).bus_ok(),
            old(self).bus_ok() ==> r is Ok,
            (r matches Ok(()) ==> final(self).history() == old(self).history() + init_reg_ops_a()),
            (r matches Err(e) ==> e == PaperError::Transport && old(self).history().is_prefix_of(
                final(self).history(),
            )),
    {
        self.send_cmd(0xD2u8)?;
        self.send_data(0x3Fu8)?;
        self.send_cmd(0x00u8)?;
        self.send_data(0x6Fu8)?;
        self.send_cmd(0x01u8)?;
        self.send_data(0x03u8)?;
        self.send_data(0x00u8)?;
        self.send_data(0x2bu8)?;
        self.send_data(0x2bu8)?;
        self.send_cmd(0x06u8)?;
        self.send_data(0x3fu8)?;
        proof {
            assert(self.history() =~= old(self).history() + init_reg_ops_a());
        }
        Ok(())
    }

    /// Sends the second half of the register-configuration script.
    #[verifier::rlimit(60)]
    fn send_init_regs_b(&mut self) -> (r: Result<(), PaperError>)
        ensures
            final(self).state() == old(self).state(),
            final(self).budget() <= old(self).budget(),
            final(self).bus_ok() == old(self).bus_ok(),
            old(self).bus_ok() ==> r is Ok,
            (r matches Ok(()) ==> final(self).history() == old(self).history() + init_reg_ops_b()),
            (r matches Err(e) ==> e == PaperError::Transport && old(self).history().is_prefix_of(
                final(self).history(),
            )),
    {
        self.send_cmd(0x2Au8)?;
        self.send_data(0x00u8)?;
        self.send_data(0x00u8)?;
        self.send_cmd(0x30u8)?;
        self.send_data(0x17u8)?;
        self.send_cmd(0x50u8)?;
        self.send_data(0x57u8)?;
        self.send_cmd(0x60u8)?;
        self.send_data(0x22u8)?;
        proof {
            assert(self.history() =~= old(self).history() + (cmd_ops(seq![0x2Au8]) + data_ops(
                seq![0x00u8],
            ) + data_ops(seq![0x00u8]) + cmd_ops(seq![0x30u8]) + data_ops(seq![0x17u8]) + cmd_ops(
                seq![0x50u8],
            ) + data_ops(seq![0x57u8]) + cmd_ops(seq![0x60u8]) + data_ops(seq![0x22u8])));
        }
        self.send_cmd(0x61u8)?;
        self.send_data(0x50u8)?;
        self.send_data(0x80u8)?;
        self.send_cmd(0x82u8)?;
        self.send_data(0x12u8)?;
        self.send_cmd(0xE3u8)?;
        self.send_data(0x33u8)?;
        proof {
            assert(self.history() =~= old(self).history() + init_reg_ops_b());
        }
        Ok(())
    }

    /// Triggers the display refresh and waits, unbounded, for the panel to
    /// finish it.
    fn turn_on_display(&mut self) -> (r: Result<(), PaperError>)
        ensures
            final(self).state() == old(self).state(),
            final(self).bus_ok() == old(self).bus_ok(),
            old(self).bus_ok() ==> r is Ok,
            (r matches Ok(()) ==> exists|n: nat|
                final(self).history() == old(self).history() + turn_on_ops(n)),
            (r matches Err(e) ==> e == PaperError::Transport && old(self).history().is_prefix_of(
                final(self).history(),
            )),
    {
        self.send_cmd(0x12u8)?;
        self.transport.sleep_ms(10);
        let ghost h1 = self.history();
        match self.await_busy(None) {
            Ok(()) => {
                proof {
                    let n = choose|n: nat| self.history() == h1 + busy_wait_ok_ops(n);
                    assert(self.history() =~= old(self).history() + turn_on_ops(n));
                }
                Ok(())
            }
            Err(e) => {
                proof {
                    assert(old(self).history() =~= self.history().subrange(
                        0,
                        old(self).history().len() as int,
                    ));
                }
                Err(e)
            }
        }
    }

    /// Powers the panel on: drives power high, performs the reset pulse,
    /// transmits the fixed register script and the full-refresh waveform
    /// tables, issues the power-on command and waits, unbounded, until the
    /// panel reports ready.  On success the panel is idle.
    pub fn on(&mut self) -> (r: Result<(), PaperError>)
        requires
            old(self).state() == PanelState::Off,
        ensures
            final(self).bus_ok() == old(self).bus_ok(),
            old(self).bus_ok() ==> r is Ok,
            (r matches Ok(()) ==> final(self).state() == PanelState::Idle && exists|n: nat|
                final(self).history() == old(self).history() + on_ops(n)),
            (r matches Err(e) ==> e == PaperError::Transport && final(self).state()
                == PanelState::Off && old(self).history().is_prefix_of(final(self).history())),
    {
        self.transport.set_pin(PinId::Power, PinLevel::High);
        self.reset();
        match self.send_init_regs_a() {
            Ok(()) => {}
            Err(e) => {
                proof {
                    assert(old(self).history() =~= self.history().subrange(
                        0,
                        old(self).history().len() as int,
                    ));
                }
                return Err(e);
            }
        }
        match self.send_init_regs_b() {
            Ok(()) => {}
            Err(e) => {
                proof {
                    assert(old(self).history() =~= self.history().subrange(
                        0,
                        old(self).history().len() as int,
                    ));
                }
                return Err(e);
            }
        }
        match self.set_full_reg() {
            Ok(()) => {}
            Err(e) => {
                proof {
                    assert(old(self).history() =~= self.history().subrange(
                        0,
                        old(self).history().len() as int,
                    ));
                }
                return Err(e);
            }
        }
        match self.send_cmd(0x04u8) {
            Ok(()) => {}
            Err(e) => {
                proof {
                    assert(old(self).history() =~= self.history().subrange(
                        0,
                        old(self).history().len() as int,
                    ));
                }
                return Err(e);
            }
        }
        let ghost h1 = self.history();
        match self.await_busy(None) {
            Ok(()) => {
                self.state = PanelState::Idle;
                proof {
                    let n = choose|n: nat| self.history() == h1 + busy_wait_ok_ops(n);
                    assert(self.history() =~= old(self).history() + on_ops(n));
                }
                Ok(())
            }
            Err(e) => {
                proof {
                    assert(old(self).history() =~= self.history().subrange(
                        0,
                        old(self).history().len() as int,
                    ));
                }
                Err(e)
            }
        }
    }

    /// Displays a logical image: writes the solid reference frame under
    /// command 0x10, the packed image under command 0x13, then triggers
    /// the refresh and waits for it.  Valid only while idle.  A transport
    /// fault aborts the operation and leaves the panel off.
    pub fn display(&mut self, img: LogicalImage) -> (r: Result<(), PaperError>)
        requires
            old(self).state() == PanelState::Idle,
            img.wf(),
        ensures
            final(self).bus_ok() == old(self).bus_ok(),
            old(self).bus_ok() ==> r is Ok,
            (r matches Ok(()) ==> final(self).state() == PanelState::Idle && exists|n: nat|
                final(self).history() == old(self).history() + display_ops(img@, n)),
            (r matches Err(e) ==> e == PaperError::Transport && final(self).state()
                == PanelState::Off && old(self).history().is_prefix_of(final(self).history())),
    {
        let buf = img_2_display_buf(&img);
        proof {
            lemma_pack_spec_is(img@, buf@);
        }
        let reference = solid_buf(0xff);
        match self.send_cmd(0x10u8) {
            Ok(()) => {}
            Err(e) => {
                self.state = PanelState::Off;
                return Err(e);
            }
        }
        match self.send_data(reference) {
            Ok(()) => {}
            Err(e) => {
                self.state = PanelState::Off;
                proof {
                    assert(old(self).history() =~= self.history().subrange(
                        0,
                        old(self).history().len() as int,
                    ));
                }
                return Err(e);
            }
        }
        match self.send_cmd(0x13u8) {
            Ok(()) => {}
            Err(e) => {
                self.state = PanelState::Off;
                proof {
                    assert(old(self).history() =~= self.history().subrange(
                        0,
                        old(self).history().len() as int,
                    ));
                }
                return Err(e);
            }
        }
        match self.send_data(buf) {
            Ok(()) => {}
            Err(e) => {
                self.state = PanelState::Off;
                proof {
                    assert(old(self).history() =~= self.history().subrange(
                        0,
                        old(self).history().len() as int,
                    ));
                }
                return Err(e);
            }
        }
        let ghost h1 = self.history();
        match self.turn_on_display() {
            Ok(()) => {
                proof {
                    let n = choose|n: nat| self.history() == h1 + turn_on_ops(n);
                    assert(self.history() =~= old(self).history() + display_ops(img@, n));
                }
                Ok(())
            }
            Err(e) => {
                self.state = PanelState::Off;
                proof {
                    assert(old(self).history() =~= self.history().subrange(
                        0,
                        old(self).history().len() as int,
                    ));
                }
                Err(e)
            }
        }
    }

    /// Clears the screen with two solid full frames, then triggers the
    /// refresh and waits for it.  Valid only while idle.  A transport
    /// fault aborts the operation and leaves the panel off.
    pub fn clear_screen(&mut self) -> (r: Result<(), PaperError>)
        requires
            old(self).state() == PanelState::Idle,
        ensures
            final(self).bus_ok() == old(self).bus_ok(),
            old(self).bus_ok() ==> r is Ok,
            (r matches Ok(()) ==> final(self).state() == PanelState::Idle && exists|n: nat|
                final(self).history() == old(self).history() + clear_ops(n)),
            (r matches Err(e) ==> e == PaperError::Transport && final(self).state()
                == PanelState::Off && old(self).history().is_prefix_of(final(self).history())),
    {
        let first = solid_buf(0x00);
        let second = solid_buf(0xff);
        match self.send_cmd(0x10u8) {
            Ok(()) => {}
            Err(e) => {
                self.state = PanelState::Off;
                return Err(e);
            }
        }
        match self.send_data(first) {
            Ok(()) => {}
            Err(e) => {
                self.state = PanelState::Off;
                proof {
                    assert(old(self).history() =~= self.history().subrange(
                        0,
                        old(self).history().len() as int,
                    ));
                }
                return Err(e);
            }
        }
        match self.send_cmd(0x13u8) {
            Ok(()) => {}
            Err(e) => {
                self.state = PanelState::Off;
                proof {
                    assert(old(self).history() =~= self.history().subrange(
                        0,
                        old(self).history().len() as int,
                    ));
                }
                return Err(e);
            }
        }
        match self.send_data(second) {
            Ok(()) => {}
            Err(e) => {
                self.state = PanelState::Off;
                proof {
                    assert(old(self).history() =~= self.history().subrange(
                        0,
                        old(self).history().len() as int,
                    ));
                }
                return Err(e);
            }
        }
        let ghost h1 = self.history();
        match self.turn_on_display() {
            Ok(()) => {
                proof {
                    let n = choose|n: nat| self.history() == h1 + turn_on_ops(n);
                    assert(self.history() =~= old(self).history() + clear_ops(n));
                }
                Ok(())
            }
            Err(e) => {
                self.state = PanelState::Off;
                proof {
                    assert(old(self).history() =~= self.history().subrange(
                        0,
                        old(self).history().len() as int,
                    ));
                }
                Err(e)
            }
        }
    }

    /// Sends the shutdown sequence — VCOM interval, power-off, an
    /// unbounded busy wait, deep sleep — pauses 2 s, and drives power low.
    /// Runs from any state; afterwards the panel is off whatever happened.
    pub fn off(&mut self) -> (r: Result<(), PaperError>)
        ensures
            final(self).state() == PanelState::Off,
            final(self).bus_ok() == old(self).bus_ok(),
            old(self).bus_ok() ==> r is Ok,
            (r matches Ok(()) ==> exists|n: nat|
                final(self).history() == old(self).history() + off_ops(n)),
            (r matches Err(e) ==> e == PaperError::Transport && old(self).history().is_prefix_of(
                final(self).history(),
            )),
    {
        self.state = PanelState::Off;
        match self.send_cmd(0x50u8) {
            Ok(()) => {}
            Err(e) => {
                return Err(e);
            }
        }
        match self.send_data(0xf7u8) {
            Ok(()) => {}
            Err(e) => {
                proof {
                    assert(old(self).history() =~= self.history().subrange(
                        0,
                        old(self).history().len() as int,
                    ));
                }
                return Err(e);
            }
        }
        match self.send_cmd(0x02u8) {
            Ok(()) => {}
            Err(e) => {
                proof {
                    assert(old(self).history() =~= self.history().subrange(
                        0,
                        old(self).history().len() as int,
                    ));
                }
                return Err(e);
            }
        }
        let ghost h1 = self.history();
        match self.await_busy(None) {
            Ok(()) => {}
            Err(e) => {
                proof {
                    assert(old(self).history() =~= self.history().subrange(
                        0,
                        old(self).history().len() as int,
                    ));
                }
                return Err(e);
            }
        }
        let ghost n_polls: nat = choose|n: nat| self.history() == h1 + busy_wait_ok_ops(n);
        match self.send_cmd(0x07u8) {
            Ok(()) => {}
            Err(e) => {
                proof {
                    assert(old(self).history() =~= self.history().subrange(
                        0,
                        old(self).history().len() as int,
                    ));
                }
                return Err(e);
            }
        }
        match self.send_data(0xA5u8) {
            Ok(()) => {}
            Err(e) => {
                proof {
                    assert(old(self).history() =~= self.history().subrange(
                        0,
                        old(self).history().len() as int,
                    ));
                }
                return Err(e);
            }
        }
        self.transport.sleep_ms(2000);
        self.transport.set_pin(PinId::Power, PinLevel::Low);
        proof {
            assert(self.history() =~= old(self).history() + off_ops(n_polls));
        }
        Ok(())
    }
}

/// Builds a solid full-frame buffer of `BUF_LEN` copies of `v`.
pub fn solid_buf(v: u8) -> (r: Vec<u8>)
    ensures
        r@ == solid_frame(v),
{
    let mut buf: Vec<u8> = Vec::new();
    let mut k: usize = 0;
    while k < 1280
        invariant
            k <= 1280,
            buf@.len() == k,
            forall|j: int| 0 <= j < k ==> buf@[j] == v,
        decreases 1280 - k,
    {
        buf.push(v);
        k += 1;
    }
    assert(buf@ =~= solid_frame(v));
    buf
}

} // verus!

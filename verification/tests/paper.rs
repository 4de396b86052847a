//! Scenario tests of the panel controller against the recording mock
//! transport: exact operation sequences, busy waiting, timeouts, and the
//! shutdown-on-scope-exit contract.

use std::cell::RefCell;
use std::rc::Rc;

use epaper::error::PaperError;
use epaper::mock::{MockTransport, RecordedOp};
use epaper::packer::{LogicalImage, BLACK_PIXEL, HEIGHT, WHITE_PIXEL, WIDTH};
use epaper::paper::{PanelState, Paper};
use epaper::transport::{PinId, PinLevel};

fn set(pin: PinId, level: PinLevel) -> Vec<RecordedOp> {
    vec![RecordedOp::SetPin(pin, level)]
}

fn sleep(ms: u64) -> Vec<RecordedOp> {
    vec![RecordedOp::SleepMs(ms)]
}

fn cmd(bytes: Vec<u8>) -> Vec<RecordedOp> {
    vec![
        RecordedOp::SetPin(PinId::DataCommand, PinLevel::Low),
        RecordedOp::Write(bytes),
    ]
}

fn data(bytes: Vec<u8>) -> Vec<RecordedOp> {
    vec![
        RecordedOp::SetPin(PinId::DataCommand, PinLevel::High),
        RecordedOp::Write(bytes),
    ]
}

fn poll(level: PinLevel) -> Vec<RecordedOp> {
    let mut ops = cmd(vec![0x71]);
    ops.push(RecordedOp::ReadBusy(level));
    ops
}

fn join(parts: Vec<Vec<RecordedOp>>) -> Vec<RecordedOp> {
    parts.into_iter().flatten().collect()
}

fn full_lut_w() -> Vec<u8> {
    let mut t = vec![0x60, 0x5A, 0x5A, 0x00, 0x00, 0x01];
    t.resize(42, 0x00);
    t
}

fn full_lut_b() -> Vec<u8> {
    let mut t = vec![0x90, 0x5A, 0x5A, 0x00, 0x00, 0x01];
    t.resize(42, 0x00);
    t
}

/// The whole fixed power-on script for a panel whose busy pin is already
/// high at the first poll.
fn on_script() -> Vec<RecordedOp> {
    join(vec![
        set(PinId::Power, PinLevel::High),
        set(PinId::Reset, PinLevel::High),
        sleep(200),
        set(PinId::Reset, PinLevel::Low),
        sleep(2),
        set(PinId::Reset, PinLevel::High),
        sleep(200),
        cmd(vec![0xD2]),
        data(vec![0x3F]),
        cmd(vec![0x00]),
        data(vec![0x6F]),
        cmd(vec![0x01]),
        data(vec![0x03]),
        data(vec![0x00]),
        data(vec![0x2b]),
        data(vec![0x2b]),
        cmd(vec![0x06]),
        data(vec![0x3f]),
        cmd(vec![0x2A]),
        data(vec![0x00]),
        data(vec![0x00]),
        cmd(vec![0x30]),
        data(vec![0x17]),
        cmd(vec![0x50]),
        data(vec![0x57]),
        cmd(vec![0x60]),
        data(vec![0x22]),
        cmd(vec![0x61]),
        data(vec![0x50]),
        data(vec![0x80]),
        cmd(vec![0x82]),
        data(vec![0x12]),
        cmd(vec![0xE3]),
        data(vec![0x33]),
        cmd(vec![0x23]),
        data(full_lut_w()),
        cmd(vec![0x24]),
        data(full_lut_b()),
        cmd(vec![0x04]),
        poll(PinLevel::High),
    ])
}

/// The shutdown script for a panel whose busy pin is already high.
fn off_script() -> Vec<RecordedOp> {
    join(vec![
        cmd(vec![0x50]),
        data(vec![0xf7]),
        cmd(vec![0x02]),
        poll(PinLevel::High),
        cmd(vec![0x07]),
        data(vec![0xA5]),
        sleep(2000),
        set(PinId::Power, PinLevel::Low),
    ])
}

#[test]
fn on_emits_the_exact_init_script() {
    let mut paper = Paper::new(MockTransport::new(0));
    assert_eq!(paper.current_state(), PanelState::Off);
    paper.on().unwrap();
    assert_eq!(paper.current_state(), PanelState::Idle);
    assert_eq!(paper.transport().log, on_script());
}

#[test]
fn clear_screen_writes_two_full_frames_then_refreshes() {
    let mut paper = Paper::new(MockTransport::new(0));
    paper.on().unwrap();
    let before = paper.transport().log.len();
    paper.clear_screen().unwrap();
    assert_eq!(paper.current_state(), PanelState::Idle);

    let tail = paper.transport().log[before..].to_vec();
    let expected = join(vec![
        cmd(vec![0x10]),
        data(vec![0x00; 1280]),
        cmd(vec![0x13]),
        data(vec![0xff; 1280]),
        cmd(vec![0x12]),
        sleep(10),
        poll(PinLevel::High),
    ]);
    assert_eq!(tail, expected);

    let frame_lengths: Vec<usize> = tail
        .iter()
        .filter_map(|op| match op {
            RecordedOp::Write(b) if b.len() > 1 => Some(b.len()),
            _ => None,
        })
        .collect();
    assert_eq!(frame_lengths, vec![1280, 1280]);
}

#[test]
fn display_sends_reference_frame_then_packed_image() {
    let mut paper = Paper::new(MockTransport::new(0));
    paper.on().unwrap();
    let before = paper.transport().log.len();

    let mut img = LogicalImage::new(WIDTH, HEIGHT, WHITE_PIXEL).unwrap();
    img.set_pixel(5, 3, BLACK_PIXEL);
    paper.display(img).unwrap();
    assert_eq!(paper.current_state(), PanelState::Idle);

    let mut packed = vec![0xffu8; 1280];
    packed[1220] = 0xEF;
    let expected = join(vec![
        cmd(vec![0x10]),
        data(vec![0xff; 1280]),
        cmd(vec![0x13]),
        data(packed),
        cmd(vec![0x12]),
        sleep(10),
        poll(PinLevel::High),
    ]);
    assert_eq!(paper.transport().log[before..].to_vec(), expected);
}

#[test]
fn await_busy_unbounded_returns_ok_once_pin_reports_ready() {
    let mut paper = Paper::new(MockTransport::new(3));
    assert_eq!(paper.await_busy(None), Ok(()));
    let expected = join(vec![
        poll(PinLevel::Low),
        sleep(50),
        poll(PinLevel::Low),
        sleep(50),
        poll(PinLevel::Low),
        sleep(50),
        poll(PinLevel::High),
    ]);
    assert_eq!(paper.transport().log, expected);
}

#[test]
fn await_busy_returns_immediately_when_not_busy() {
    let mut paper = Paper::new(MockTransport::new(0));
    assert_eq!(paper.await_busy(None), Ok(()));
    assert_eq!(paper.transport().log, poll(PinLevel::High));
}

#[test]
fn await_busy_bounded_succeeds_within_the_deadline() {
    let mut paper = Paper::new(MockTransport::new(2));
    assert_eq!(paper.await_busy(Some(10_000)), Ok(()));
    let expected = join(vec![
        poll(PinLevel::Low),
        sleep(50),
        poll(PinLevel::Low),
        sleep(50),
        poll(PinLevel::High),
    ]);
    assert_eq!(paper.transport().log, expected);
}

#[test]
fn await_busy_bounded_times_out_within_one_poll_interval() {
    // The simulated pin stays busy far longer than the deadline; the
    // simulated clock advances only by the 50 ms pauses between polls.
    let mut paper = Paper::new(MockTransport::new(1_000_000));
    let duration: u64 = 200;
    assert_eq!(
        paper.await_busy(Some(duration)),
        Err(PaperError::BusyTimeout)
    );

    let log = paper.transport().log.clone();
    let slept: u64 = log
        .iter()
        .map(|op| match op {
            RecordedOp::SleepMs(ms) => *ms,
            _ => 0,
        })
        .sum();
    // Past the deadline, but by no more than one poll interval.
    assert!(slept > duration);
    assert!(slept <= duration + 50);
    // The last operation is the busy poll that ran past the deadline; no
    // further waiting follows it.
    assert_eq!(log.last(), Some(&RecordedOp::ReadBusy(PinLevel::Low)));

    let expected = join(vec![
        poll(PinLevel::Low),
        sleep(50),
        poll(PinLevel::Low),
        sleep(50),
        poll(PinLevel::Low),
        sleep(50),
        poll(PinLevel::Low),
        sleep(50),
        poll(PinLevel::Low),
        sleep(50),
        poll(PinLevel::Low),
    ]);
    assert_eq!(log, expected);
}

#[test]
fn off_emits_the_shutdown_sequence_and_powers_down() {
    let mut paper = Paper::new(MockTransport::new(0));
    paper.on().unwrap();
    let before = paper.transport().log.len();
    paper.off().unwrap();
    assert_eq!(paper.current_state(), PanelState::Off);
    assert_eq!(paper.transport().log[before..].to_vec(), off_script());
}

#[test]
fn transport_failure_is_fatal_and_leaves_the_panel_off() {
    let mut mock = MockTransport::new(0);
    mock.set_fail_writes(true);
    let mut paper = Paper::new(mock);
    assert_eq!(paper.on(), Err(PaperError::Transport));
    assert_eq!(paper.current_state(), PanelState::Off);
}

/// A scope guard over a panel, as the surrounding application uses one:
/// the shutdown sequence runs when the guard is dropped, on every exit
/// path, and the recorded log is handed out for inspection afterwards.
struct PanelGuard {
    paper: Option<Paper<MockTransport>>,
    sink: Rc<RefCell<Vec<RecordedOp>>>,
}

impl Drop for PanelGuard {
    fn drop(&mut self) {
        if let Some(mut paper) = self.paper.take() {
            let _ = paper.off();
            self.sink.replace(paper.transport().log.clone());
        }
    }
}

#[test]
fn dropping_a_panel_mid_idle_runs_shutdown_exactly_once_before_release() {
    let sink: Rc<RefCell<Vec<RecordedOp>>> = Rc::new(RefCell::new(Vec::new()));
    {
        let mut paper = Paper::new(MockTransport::new(0));
        paper.on().unwrap();
        assert_eq!(paper.current_state(), PanelState::Idle);
        let _guard = PanelGuard {
            paper: Some(paper),
            sink: sink.clone(),
        };
        // The guard goes out of scope here, mid-idle.
    }
    let log = sink.borrow().clone();
    let shutdown = off_script();

    // The shutdown sequence ran exactly once, as the tail of the log ...
    let occurrences = log
        .windows(shutdown.len())
        .filter(|w| *w == &shutdown[..])
        .count();
    assert_eq!(occurrences, 1);
    assert_eq!(log[log.len() - shutdown.len()..].to_vec(), shutdown);
    // ... and powering down was the very last act before release.
    assert_eq!(
        log.last(),
        Some(&RecordedOp::SetPin(PinId::Power, PinLevel::Low))
    );
}

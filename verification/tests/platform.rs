use midair::esplink::{EspLink, RX_LEN};
use midair::leds::{note_rx, note_tx, Activity, LedChange, Leds, PULSE_MS};
use midair::link::{cmd, msg, resp, FrameBuf, LOG_MAX};
use midair::platform::{is_due, Millis, Random, TICKS_PER_MS};
use midair::watchdog::{self, reload_ticks, WatchdogStep};

#[test]
fn deadlines_wrap() {
    assert!(is_due(100, 100) && is_due(101, 100) && !is_due(99, 100));
    assert!(is_due(5, u32::MAX - 5) && !is_due(u32::MAX - 5, 5));
}

#[test]
fn the_clock_loses_nothing() {
    let mut clock = Millis::new();
    assert_eq!(clock.millis(TICKS_PER_MS - 1), 0);
    assert_eq!(clock.millis(TICKS_PER_MS), 1);
    assert_eq!(clock.millis(5 * TICKS_PER_MS / 2), 2);
    assert_eq!(clock.millis(3 * TICKS_PER_MS), 3);
    // The counter rolls over.
    let mut clock = Millis::new();
    clock.millis(u32::MAX);
    let before = clock.millis(u32::MAX);
    assert_eq!(clock.millis(10 * TICKS_PER_MS), before + 10);
}

#[test]
fn random_stays_in_range() {
    let mut rng = Random::new();
    // xorshift32 from 1: 270369, 67634689, 2647435461.
    assert_eq!(rng.random(1, 0, i32::MAX), 270_369);
    assert_eq!(rng.random(9, 0, i32::MAX), 67_634_689);
    // The third word is negative as a signed number; its magnitude counts.
    assert_eq!(rng.random(9, 0, 1_000_000_000), (4_294_967_296u64 - 2_647_435_461) as i32 % 1_000_000_000);
    for _ in 0..1000 {
        let r = rng.random(9, -3, 4);
        assert!((-3..4).contains(&r));
    }
    assert_eq!(rng.random(9, 7, 7), 7);
    assert_eq!(rng.random(9, 7, 3), 7);
    // A counter that stands at zero seeds it as well.
    assert_eq!(Random::new().random(0, 0, i32::MAX), 270_369);
}

#[test]
fn watchdog_timeouts_are_clamped() {
    assert_eq!(reload_ticks(5000), 2500);
    assert_eq!(reload_ticks(8000), 4000);
    assert_eq!(reload_ticks(60_000), 4095);
    assert_eq!(reload_ticks(u32::MAX), 4095);
    assert_eq!(reload_ticks(0), 0);
}

#[test]
fn the_watchdog_is_started_in_order() {
    assert_eq!(
        watchdog::start(6_000),
        [
            WatchdogStep::Key(0xCCCC),
            WatchdogStep::Key(0x5555),
            WatchdogStep::Prescaler(4),
            WatchdogStep::Reload(3000),
            WatchdogStep::AwaitUpdates,
            WatchdogStep::Key(0xAAAA),
        ]
    );
    assert_eq!(watchdog::feed(), WatchdogStep::Key(0xAAAA));
}

#[test]
fn activity_pulses_are_retired() {
    let mut activity = Activity { tx: false, rx: false };
    let mut leds = Leds::new();
    note_tx(&mut activity);
    assert_eq!(leds.update(&mut activity, 100), (LedChange::On, LedChange::Keep));
    assert_eq!(activity, Activity { tx: false, rx: false });
    note_rx(&mut activity);
    assert_eq!(leds.update(&mut activity, 110), (LedChange::Keep, LedChange::On));
    assert_eq!(
        leds.update(&mut activity, 100 + PULSE_MS),
        (LedChange::Off, LedChange::Keep)
    );
    assert_eq!(
        leds.update(&mut activity, 110 + PULSE_MS),
        (LedChange::Keep, LedChange::Off)
    );
    assert_eq!(leds.update(&mut activity, 1000), (LedChange::Keep, LedChange::Keep));
    // A pulse that ends as the clock rolls over is retired like any other.
    note_tx(&mut activity);
    let lit_at = 0u32.wrapping_sub(PULSE_MS);
    assert_eq!(leds.update(&mut activity, lit_at), (LedChange::On, LedChange::Keep));
    assert_eq!(leds.update(&mut activity, u32::MAX), (LedChange::Keep, LedChange::Keep));
    assert_eq!(leds.update(&mut activity, 0), (LedChange::Off, LedChange::Keep));
}

#[test]
fn a_frame_stays_through_its_answer() {
    let mut link = EspLink::new();
    for b in frame(cmd::CFG_BEGIN, &[1, 2]) {
        link.receive(b);
    }
    assert_eq!(link.poll(), Some((cmd::CFG_BEGIN, 2)));
    link.send_ack(cmd::CFG_BEGIN, 0);
    link.send_nak(cmd::CFG_BEGIN, 1);
    link.send_status(b"line");
    link.set_peer_busy(true, 3);
    link.receive(0xAA);
    assert_eq!(link.payload(), [1, 2]);
}

fn frame(cmd: u8, payload: &[u8]) -> Vec<u8> {
    FrameBuf::new().build(cmd, payload).to_vec()
}

#[test]
fn queued_frames_are_polled_in_order() {
    let mut link = EspLink::new();
    let mut bytes = vec![0x55];
    bytes.extend(frame(cmd::PING, &[]));
    bytes.extend(frame(cmd::RADIO_BUSY, &[1]));
    for b in bytes {
        assert!(link.receive(b));
    }
    assert_eq!(link.poll(), Some((cmd::PING, 0)));
    assert_eq!(link.payload(), &[] as &[u8]);
    assert_eq!(link.poll(), Some((cmd::RADIO_BUSY, 1)));
    assert_eq!(link.payload(), &[1]);
    assert_eq!(link.poll(), None);
}

#[test]
fn a_full_queue_drops_bytes() {
    let mut link = EspLink::new();
    for _ in 0..RX_LEN - 1 {
        assert!(link.receive(0));
    }
    assert!(!link.receive(0));
    assert_eq!(link.poll(), None);
    assert!(link.receive(0));
}

#[test]
fn answers_and_status_lines_are_framed() {
    let mut link = EspLink::new();
    assert_eq!(link.send(msg::RADIO_BUSY, &[1]), frame(msg::RADIO_BUSY, &[1]));
    assert_eq!(link.send_ack(cmd::PING, 0x0102), frame(resp::ACK, &[cmd::PING, 2, 1]));
    assert_eq!(link.send_nak(cmd::FW_END, 4), frame(resp::NAK, &[cmd::FW_END, 4]));
    assert_eq!(link.send_status(b"hello"), frame(msg::LOG, b"hello"));
    assert_eq!(link.send_status(&[b'x'; 100]), frame(msg::LOG, &[b'x'; LOG_MAX]));
}

#[test]
fn the_busy_flag_expires() {
    let mut link = EspLink::new();
    assert!(!link.peer_busy(0));
    link.set_peer_busy(true, 1000);
    assert!(link.peer_busy(1000) && link.peer_busy(3999) && !link.peer_busy(4000));
    link.set_peer_busy(true, u32::MAX);
    assert!(link.peer_busy(5));
    link.set_peer_busy(false, 6);
    assert!(!link.peer_busy(6));
}

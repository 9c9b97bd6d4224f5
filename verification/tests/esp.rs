use midair::ble::{
    ACK_ID_BULK, CFG_ESP_ADV_WINDOW_S, CFG_ESP_SLEEP_S, CFG_GPS_SLEEP, CFG_PWR_EN, CFG_WIO_SLEEP,
    DEVICE_NAME, ESP_ADV_DEFAULT_S, KIND_FIRMWARE, KIND_TOML, OP_ABORT, OP_BEGIN, OP_DATA, OP_END,
    REMOTE_LEN, SERVICE_UUID,
};
use midair::esp::ack::{Ack, AckStatus};
use midair::esp::address::{
    ble_address, check_override, fmt_ble_address, parse_ble_address, AddressError,
};
use midair::esp::bulk::{Bulk, BulkEffect};
use midair::esp::config::{
    apply_config, config_answered, ConfigEffect, Switching, CFG_UPDATE_INTERVAL_MS,
};
use midair::esp::heartbeat::{Beat, Heartbeat};
use midair::esp::led::{blink_plan, Blink, LedStep};
use midair::esp::persist::{
    boot_rail_on, nvs_decode, nvs_encode, nvs_load, nvs_save, Persist, RtcCopy, NVS_RECORD_LEN,
    PERSIST_MAGIC, PFLAG_GPS_SLEEP, PFLAG_PWR_OFF, PFLAG_WIO_SLEEP,
};
use midair::esp::requests::{OutFrame, Reply, Request, Step, OUT_MAX};
use midair::esp::serve::{adv_data, scan_data, Next, Serve, ServeAction, ServeEvent};
use midair::esp::session::{notification, write_target, Notifier, WriteTarget};
use midair::esp::state::{console_text, LinkEvent, LinkState};
use midair::esp::usb::{idle_limit_ms, reply_cmd, usb_request, UsbRequest};
use midair::link::{
    cmd, crc32, msg, resp, usb, FrameBuf, Telemetry, TELEM_FLAG_GPS_FIX, TELEM_FLAG_VERBOSE,
};
use midair::position::Position;

const UNSET: Persist = Persist { sleep_interval_s: 0, flags: 0, adv_window_s: 0 };

// -- Settings -----------------------------------------------------------------

#[test]
fn saved_settings_come_back() {
    let p = Persist { sleep_interval_s: 60, flags: 5, adv_window_s: 20 };
    let rec = nvs_encode(&p);
    assert_eq!(rec[..20], [
        0x41, 0x64, 0x69, 0x6D, 3, 0, 0, 0, 60, 0, 0, 0, 5, 0, 0, 0, 20, 0, 0, 0
    ]);
    assert_eq!(rec[20..], crc32(&rec[..20]).to_le_bytes());
    assert_eq!(nvs_decode(&rec), Some(p));
    assert_eq!(nvs_load(0x9000, Some(rec)), Some(p));
    assert_eq!(nvs_load(0, Some(rec)), None);
    assert_eq!(nvs_load(0x9000, None), None);
}

#[test]
fn an_old_record_is_still_read() {
    let mut rec = [0xFFu8; NVS_RECORD_LEN];
    rec[..16].copy_from_slice(&[0x41, 0x64, 0x69, 0x6D, 2, 0, 0, 0, 90, 0, 0, 0, 1, 0, 0, 0]);
    let crc = crc32(&rec[..16]).to_le_bytes();
    rec[16..20].copy_from_slice(&crc);
    let p = nvs_decode(&rec).unwrap();
    assert_eq!(p, Persist { sleep_interval_s: 90, flags: 1, adv_window_s: 0 });
    assert_eq!(p.adv_window_s(), ESP_ADV_DEFAULT_S);
}

#[test]
fn damaged_and_unknown_records_are_ignored() {
    let rec = nvs_encode(&Persist { sleep_interval_s: 60, flags: 5, adv_window_s: 20 });
    for k in 0..NVS_RECORD_LEN {
        let mut bad = rec;
        bad[k] ^= 0x40;
        assert_eq!(nvs_decode(&bad), None);
    }
    let mut first = rec;
    first[4] = 1;
    let crc = crc32(&first[..20]).to_le_bytes();
    first[20..].copy_from_slice(&crc);
    assert_eq!(nvs_decode(&first), None);
    assert_eq!(nvs_decode(&[0xFF; NVS_RECORD_LEN]), None);
}

#[test]
fn a_save_erases_its_sector_first() {
    let p = Persist { sleep_interval_s: 60, ..UNSET };
    let w = nvs_save(0x9000, 0x1000, &p).unwrap();
    assert_eq!((w.erase_from, w.erase_to, w.at), (0x9000, 0xA000, 0x9000));
    assert_eq!(w.record, nvs_encode(&p));
    assert_eq!(nvs_save(0, 0x1000, &p), None);
}

#[test]
fn rtc_ram_is_gated_by_its_magic() {
    let mut copy = RtcCopy { magic: 7, sleep_interval_s: 9, flags: 9, adv_window_s: 9 };
    assert_eq!(copy.get(), UNSET);
    assert!(copy.lost());
    assert!(!copy.restore(None));
    let saved = Persist { sleep_interval_s: 30, ..UNSET };
    assert!(copy.restore(Some(saved)));
    assert_eq!((copy.get(), copy.magic), (saved, PERSIST_MAGIC));
    // A deep-sleep wake keeps its copy.
    assert!(!copy.restore(Some(UNSET)));
    assert_eq!(copy.get(), saved);
    copy.update(UNSET);
    assert_eq!(copy.get(), UNSET);
}

#[test]
fn settings_are_shown_as_configured() {
    let mut p = Persist { sleep_interval_s: 30, flags: 0, adv_window_s: 0 };
    p.set_flag(PFLAG_PWR_OFF, true);
    p.set_flag(PFLAG_GPS_SLEEP, true);
    p.set_flag(PFLAG_WIO_SLEEP, true);
    p.set_flag(PFLAG_WIO_SLEEP, false);
    assert_eq!(p.flags, PFLAG_PWR_OFF | PFLAG_GPS_SLEEP);
    let s = p.current_settings(500);
    assert!(!s.pwr_en && !s.wio_sleep && s.gps_sleep);
    assert_eq!((s.sleep_interval_s, s.notify_interval_ms, s.adv_window_s), (30, 500, 15));
    assert_eq!(p.next_sleep_interval_s(), 30);
    assert!(!boot_rail_on(false, &p));
    p.set_flag(PFLAG_PWR_OFF, false);
    assert!(boot_rail_on(false, &p) && !boot_rail_on(true, &p));
}

// -- Address ------------------------------------------------------------------

#[test]
fn an_address_is_derived_from_the_chip() {
    let mac = [0x34, 0x85, 0x18, 0xAA, 0xBB, 0xCC];
    assert_eq!(ble_address(None, &mac), [0xCC, 0xBB, 0xAA, 0x18, 0x85, 0xF4]);
    let other = [0x34, 0x85, 0x18, 0xAA, 0xBB, 0xCD];
    assert_ne!(ble_address(None, &mac), ble_address(None, &other));
    assert_eq!(
        ble_address(Some("FF:C6:A1:53:50:47"), &mac),
        [0x47, 0x50, 0x53, 0xA1, 0xC6, 0xFF]
    );
}

#[test]
fn addresses_read_back_from_text() {
    let a = [0x47, 0x50, 0x53, 0xA1, 0x06, 0xFF];
    assert_eq!(&fmt_ble_address(&a), b"FF:06:A1:53:50:47");
    assert_eq!(parse_ble_address("FF:06:A1:53:50:47"), a);
    assert_eq!(parse_ble_address("ff:6:+a1:053:zz"), [0, 0, 0x53, 0xA1, 0x06, 0xFF]);
    assert_eq!(parse_ble_address("1:2:3:4:5:6:7"), [6, 5, 4, 3, 2, 1]);
    assert_eq!(parse_ble_address(""), [0; 6]);
}

#[test]
fn overrides_are_checked() {
    assert_eq!(check_override("c6:a1:53:50:47:1"), Ok(*b"C6:A1:53:50:47:01"));
    assert_eq!(check_override("C6:A1:5G:50:47:01"), Err(AddressError::BadOctet(2)));
    assert_eq!(check_override("C6:A1:100:50:47:01"), Err(AddressError::BadOctet(2)));
    assert_eq!(check_override("C6:A1:53:50:47:"), Err(AddressError::BadOctet(5)));
    assert_eq!(check_override("C6:A1:53:50:47"), Err(AddressError::OctetCount(5)));
    assert_eq!(check_override("C6:A1:53:50:47:01:02"), Err(AddressError::OctetCount(7)));
    assert_eq!(check_override("BF:A1:53:50:47:01"), Err(AddressError::NotStaticRandom));
    assert_eq!(check_override("+:A1"), Err(AddressError::BadOctet(0)));
}

// -- Requests -----------------------------------------------------------------

fn reply(is_ack: bool, cmd: u8, value: u16) -> Option<Reply> {
    Some(Reply { is_ack, cmd, value })
}

#[test]
fn a_request_waits_for_its_own_answer() {
    let (q, frame) = Request::begin(cmd::PING, &[1, 2], 100, 500).ok().unwrap();
    assert_eq!((frame.cmd, &frame.payload[..]), (cmd::PING, &[1u8, 2][..]));
    assert_eq!(q.left(100), Ok(500));
    assert_eq!(q.left(599), Ok(1));
    assert_eq!(q.left(600), Err(AckStatus::WioTimeout));
    assert_eq!(q.take(reply(true, cmd::FW_END, 9)), None);
    assert_eq!(q.take(reply(false, cmd::FW_END, 9)), None);
    assert_eq!(q.take(reply(true, cmd::PING, 9)), Some(Ok(9)));
    assert_eq!(q.take(reply(false, cmd::PING, 9)), Some(Err(AckStatus::WioError)));
    assert_eq!(q.take(None), Some(Err(AckStatus::WioTimeout)));
}

#[test]
fn a_payload_that_fits_no_frame_fails() {
    assert!(matches!(
        Request::begin(cmd::PING, &[0; OUT_MAX + 1], 0, 1),
        Err(AckStatus::BadState)
    ));
    assert!(OutFrame::new(cmd::PING, &[0; OUT_MAX + 1]).is_none());
    let frame = OutFrame::new(cmd::FW_DATA, &[7; OUT_MAX]).unwrap();
    let mut out = FrameBuf::new();
    let mut plain = FrameBuf::new();
    assert_eq!(frame.build(&mut out), plain.build(cmd::FW_DATA, &[7; OUT_MAX]));
}

#[test]
fn only_changes_of_the_link_are_announced() {
    assert!(Heartbeat::should_ping(false, true));
    assert!(!Heartbeat::should_ping(true, true) && !Heartbeat::should_ping(false, false));
    let mut h = Heartbeat::new();
    let down = Err(AckStatus::WioTimeout);
    assert_eq!(h.note(down), Beat { up: false, announce: true });
    assert_eq!(h.note(down), Beat { up: false, announce: false });
    assert_eq!(h.note(Ok(3)), Beat { up: true, announce: true });
    assert_eq!(h.note(Ok(3)), Beat { up: true, announce: false });
}

#[test]
fn signals_end_dark() {
    assert_eq!(
        blink_plan(Blink::Wake),
        vec![LedStep::High, LedStep::WaitMs(500), LedStep::Low]
    );
    let info = blink_plan(Blink::Info);
    assert_eq!(info.len(), 12);
    assert_eq!(
        info[8..],
        [LedStep::High, LedStep::WaitMs(25), LedStep::Low, LedStep::WaitMs(25)]
    );
    assert_eq!(blink_plan(Blink::FwToggle), vec![LedStep::Toggle]);
    assert_eq!(blink_plan(Blink::Off), vec![LedStep::Low]);
}

// -- What the WIO reports -----------------------------------------------------

#[test]
fn positions_are_cached() {
    let mut s = LinkState::new();
    let mut p = vec![0u8, 0, 0];
    p.extend_from_slice(&[9; 20]);
    assert_eq!(LinkState::position_packet(msg::POSITION, &p), Some(&[9u8; 20][..]));
    assert_eq!(LinkState::position_packet(msg::POSITION, &p[..22]), None);
    assert_eq!(LinkState::position_packet(msg::STATUS, &p), None);
    let here = Position { lat_e7: 5, fix: true, other_flags: 0x40, ..Position::default() };
    s.handle_link_frame(msg::POSITION, &p, Some(here), 0);
    assert_eq!((s.gps(), s.remote()), (here, [0; REMOTE_LEN]));
    // One that cannot be read changes nothing.
    s.handle_link_frame(msg::POSITION, &p, None, 0);
    assert_eq!(s.gps(), here);
    p[0] = 4;
    p[1..3].copy_from_slice(&(-97i16).to_le_bytes());
    let e = s.handle_link_frame(msg::POSITION, &p, None, 0);
    assert!(matches!(e, LinkEvent::Position { src: 4, rssi: -97, position: None }));
    assert_eq!((s.gps(), &s.remote()[..]), (here, &p[..]));
    assert!(matches!(
        s.handle_link_frame(msg::POSITION, &p[..22], Some(here), 0),
        LinkEvent::Nothing
    ));
}

#[test]
fn telemetry_sets_the_verbosity() {
    let mut s = LinkState::new();
    assert_eq!(s.telemetry().secs_since_rx, 0xFFFF);
    assert!(s.verbose_enabled(false) && !s.verbose_enabled(true));
    let t = Telemetry { flags: TELEM_FLAG_GPS_FIX, sats: 8, ..Telemetry::default() };
    s.handle_link_frame(msg::STATUS, &t.encode(), None, 0);
    assert_eq!(s.telemetry(), t);
    assert!(!s.verbose_enabled(false));
    let t = Telemetry { flags: TELEM_FLAG_VERBOSE, ..t };
    s.handle_link_frame(msg::STATUS, &t.encode(), None, 0);
    assert!(s.verbose_enabled(false));
    assert!(matches!(s.handle_link_frame(msg::STATUS, &[1], None, 0), LinkEvent::Nothing));
}

#[test]
fn the_wio_s_busy_flag_expires() {
    let mut s = LinkState::new();
    assert!(!s.wio_busy(0));
    s.handle_link_frame(msg::RADIO_BUSY, &[1], None, 1000);
    assert!(s.wio_busy(3999) && !s.wio_busy(4000));
    s.handle_link_frame(msg::RADIO_BUSY, &[0], None, 1001);
    assert!(!s.wio_busy(1001));
}

#[test]
fn answers_and_lines_are_handed_on() {
    let mut s = LinkState::new();
    let e = s.handle_link_frame(resp::ACK, &[cmd::PING, 2, 1], None, 0);
    assert!(matches!(
        e,
        LinkEvent::Reply(Reply { is_ack: true, cmd: cmd::PING, value: 0x0102 })
    ));
    let e = s.handle_link_frame(resp::NAK, &[cmd::FW_END, 4], None, 0);
    assert!(matches!(e, LinkEvent::Reply(Reply { is_ack: false, cmd: cmd::FW_END, value: 4 })));
    assert!(matches!(s.handle_link_frame(resp::ACK, &[1, 2], None, 0), LinkEvent::Nothing));
    assert!(matches!(s.handle_link_frame(resp::NAK, &[1], None, 0), LinkEvent::Nothing));
    let e = s.handle_link_frame(msg::LORA_RX, &[7, 0, 0, 1, 2], None, 0);
    assert!(matches!(e, LinkEvent::LoraRx { src: 7, len: 2 }));
    let e = s.handle_link_frame(msg::LORA_RX, &[], None, 0);
    assert!(matches!(e, LinkEvent::LoraRx { src: 0, len: 0 }));
    match s.handle_link_frame(msg::LOG, &[b'x'; 70], None, 0) {
        LinkEvent::Log(line) => assert_eq!(&line[..], &[b'x'; 64]),
        other => panic!("{other:?}"),
    }
    match s.handle_link_frame(msg::LOG, b"fix", None, 0) {
        LinkEvent::Log(line) => assert_eq!(&line[..], b"fix"),
        other => panic!("{other:?}"),
    }
    assert!(matches!(s.handle_link_frame(0x99, &[], None, 0), LinkEvent::Nothing));
    // An echo of what this side sends means nothing.
    for id in 0..=cmd::LAST {
        assert!(matches!(s.handle_link_frame(id, &[1; 24], None, 0), LinkEvent::Nothing));
    }
    assert_eq!(console_text(b"gps fix"), "gps fix");
    assert_eq!(console_text(&[0xFF]), "<non-utf8 status>");
}

#[test]
fn a_central_is_sent_what_is_cached() {
    let mut s = LinkState::new();
    let mut n = Notifier::new();
    assert_eq!((n.delay_ms(1000), n.delay_ms(1000)), (200, 1000));
    let t = Telemetry { sats: 8, ..Telemetry::default() };
    s.handle_link_frame(msg::STATUS, &t.encode(), None, 0);
    let sent = notification(&s, 0).unwrap();
    assert_eq!(Telemetry::decode(&sent.telemetry), Some(t));
    assert_eq!(sent.remote, None);
    let remote = [4u8; REMOTE_LEN];
    s.handle_link_frame(msg::POSITION, &remote, None, 0);
    assert_eq!(notification(&s, 0).unwrap().remote, Some(remote));
    s.handle_link_frame(msg::RADIO_BUSY, &[1], None, 0);
    assert!(notification(&s, 2999).is_none() && notification(&s, 3000).is_some());
    assert_eq!(write_target(7, 7, 9), WriteTarget::Config);
    assert_eq!(write_target(9, 7, 9), WriteTarget::Bulk);
    assert_eq!(write_target(8, 7, 9), WriteTarget::Other);
}

// -- Bulk transfers -----------------------------------------------------------

fn bulk_ack(value: &[u8]) -> Ack {
    Ack { id: ACK_ID_BULK, status: AckStatus::Applied, value: value.to_vec() }
}

fn bulk_nak(status: AckStatus) -> Ack {
    Ack { id: ACK_ID_BULK, status, value: vec![] }
}

fn begin_op(kind: u8, total: u32, crc: u32, version: u16) -> Vec<u8> {
    let mut d = vec![OP_BEGIN, kind];
    d.extend_from_slice(&total.to_le_bytes());
    d.extend_from_slice(&crc.to_le_bytes());
    d.extend_from_slice(&version.to_le_bytes());
    d
}

fn data_op(seq: u16, bytes: &[u8]) -> Vec<u8> {
    let mut d = vec![OP_DATA];
    d.extend_from_slice(&seq.to_le_bytes());
    d.extend_from_slice(bytes);
    d
}

fn ask(cmd: u8, payload: &[u8], timeout_ms: u64) -> Step {
    Step::Ask { cmd, payload: payload.to_vec(), timeout_ms }
}

const CLOSING: [BulkEffect; 2] = [BulkEffect::RadioBusy(false), BulkEffect::Blink(Blink::Off)];

fn firmware(total: u32) -> (Bulk, bool) {
    let mut b = Bulk::new();
    let mut claimed = false;
    let (effects, step) = b.handle(&mut claimed, &begin_op(KIND_FIRMWARE, total, 0x0403_0201, 5));
    assert!(effects.is_empty() && claimed && !b.is_active());
    let mut p = total.to_le_bytes().to_vec();
    p.extend_from_slice(&[1, 2, 3, 4, 5, 0]);
    assert_eq!(step, ask(cmd::FW_BEGIN, &p, 1000));
    let (effects, ack) = b.answered(&mut claimed, Ok(0));
    assert_eq!(effects, vec![BulkEffect::RadioBusy(true)]);
    assert_eq!(ack, bulk_ack(&[0; 4]));
    assert!(b.is_active());
    (b, claimed)
}

#[test]
fn a_firmware_image_is_forwarded() {
    let (mut b, mut claimed) = firmware(3);
    let (effects, step) = b.handle(&mut claimed, &data_op(0, &[7, 8, 9]));
    assert_eq!(
        effects,
        vec![BulkEffect::Blink(Blink::FwToggle), BulkEffect::RadioBusy(true)]
    );
    assert_eq!(step, ask(cmd::FW_DATA, &[0, 0, 7, 8, 9], 2000));
    assert_eq!(b.answered(&mut claimed, Ok(1)), (vec![], bulk_ack(&[1, 0, 0, 0])));
    assert_eq!(b.received(), 3);
    // A repeated chunk is acknowledged, and the WIO hears nothing of it.
    assert_eq!(
        b.handle(&mut claimed, &data_op(0, &[7, 8, 9])),
        (vec![], Step::Reply(bulk_ack(&[1, 0, 0, 0])))
    );
    // An end that the WIO does not confirm can be tried again.
    let end = (vec![], ask(cmd::FW_END, &[], 5000));
    assert_eq!(b.handle(&mut claimed, &[OP_END]), end);
    assert_eq!(
        b.answered(&mut claimed, Err(AckStatus::WioTimeout)),
        (vec![], bulk_nak(AckStatus::WioTimeout))
    );
    assert!(b.is_active() && claimed);
    assert_eq!(b.handle(&mut claimed, &[OP_END]), end);
    assert_eq!(b.answered(&mut claimed, Ok(0)), (CLOSING.to_vec(), bulk_ack(&[])));
    assert!(!b.is_active() && !claimed);
}

#[test]
fn a_config_file_is_forwarded() {
    let mut b = Bulk::new();
    let mut claimed = false;
    let (_, step) = b.handle(&mut claimed, &begin_op(KIND_TOML, 2, 0x0403_0201, 0));
    assert_eq!(step, ask(cmd::CFG_BEGIN, &[2, 0], 1000));
    b.answered(&mut claimed, Ok(0));
    let (effects, step) = b.handle(&mut claimed, &data_op(0, &[7, 8]));
    assert_eq!(effects, vec![BulkEffect::RadioBusy(true)]);
    assert_eq!(step, ask(cmd::CFG_DATA, &[0, 0, 7, 8], 2000));
    b.answered(&mut claimed, Ok(1));
    assert_eq!(
        b.handle(&mut claimed, &[OP_END]).1,
        ask(cmd::CFG_END, &[1, 2, 3, 4], 2000)
    );
}

#[test]
fn a_vanished_writer_frees_the_link() {
    let dropping = vec![
        BulkEffect::FwAbort,
        BulkEffect::RadioBusy(false),
        BulkEffect::Blink(Blink::Off),
    ];
    let (mut b, mut claimed) = firmware(100);
    assert_eq!(b.abandon(&mut claimed), dropping);
    assert!(!claimed && !b.is_active());
    assert_eq!(b.abandon(&mut claimed), vec![]);
    // A transfer that the WIO was only asked to take counts too.
    b.handle(&mut claimed, &begin_op(KIND_FIRMWARE, 100, 0, 1));
    assert!(claimed);
    assert_eq!(b.abandon(&mut claimed), dropping);
    assert!(!claimed);
}

#[test]
fn one_transfer_at_a_time() {
    let (mut phone, mut claimed) = firmware(3);
    let mut host = Bulk::new();
    let busy = (vec![], Step::Reply(bulk_nak(AckStatus::BadState)));
    assert_eq!(host.handle(&mut claimed, &begin_op(KIND_TOML, 2, 0, 0)), busy);
    assert_eq!(host.handle(&mut claimed, &data_op(0, &[1])), busy);
    assert_eq!(host.handle(&mut claimed, &[OP_END]), busy);
    assert_eq!(host.handle(&mut claimed, &[OP_ABORT]), (vec![], Step::Reply(bulk_ack(&[]))));
    assert!(host.abandon(&mut claimed).is_empty() && claimed);
    assert_eq!(phone.handle(&mut claimed, &begin_op(KIND_TOML, 2, 0, 0)), busy);
    let effects = phone.abandon(&mut claimed);
    assert_eq!(
        effects,
        vec![
            BulkEffect::FwAbort,
            BulkEffect::RadioBusy(false),
            BulkEffect::Blink(Blink::Off)
        ]
    );
    assert!(!claimed);
    let f = effects[0].frame().unwrap();
    assert_eq!((f.cmd, &f.payload[..]), (cmd::FW_ABORT, &[] as &[u8]));
    let f = effects[1].frame().unwrap();
    assert_eq!((f.cmd, &f.payload[..]), (cmd::RADIO_BUSY, &[0u8][..]));
    assert!(effects[2].frame().is_none());
    assert_eq!(&BulkEffect::RadioBusy(true).frame().unwrap().payload[..], &[1]);
}

#[test]
fn bulk_ops_are_checked() {
    let mut b = Bulk::new();
    let mut claimed = false;
    let bad = (vec![], Step::Reply(bulk_nak(AckStatus::BadValue)));
    assert_eq!(b.handle(&mut claimed, &[]), bad);
    assert_eq!(b.handle(&mut claimed, &[9]), bad);
    assert_eq!(b.handle(&mut claimed, &begin_op(KIND_TOML, 2, 0, 0)[..11]), bad);
    assert_eq!(b.handle(&mut claimed, &begin_op(KIND_TOML, 0, 0, 0)), bad);
    assert_eq!(b.handle(&mut claimed, &begin_op(KIND_TOML, 1025, 0, 0)), bad);
    assert_eq!(b.handle(&mut claimed, &begin_op(9, 2, 0, 0)), bad);
    assert!(!claimed);
    b.handle(&mut claimed, &begin_op(KIND_FIRMWARE, 2, 0, 0));
    assert_eq!(
        b.answered(&mut claimed, Err(AckStatus::WioError)),
        (vec![], bulk_nak(AckStatus::WioError))
    );
    assert!(!claimed);
    let (mut b, mut claimed) = firmware(3);
    assert_eq!(b.handle(&mut claimed, &data_op(0, &[])), bad);
    assert_eq!(b.handle(&mut claimed, &data_op(0, &[0; 193])), bad);
    assert_eq!(b.handle(&mut claimed, &data_op(2, &[1])), bad);
    assert!(b.is_active());
    // An end before every byte has come closes the transfer.
    assert_eq!(
        b.handle(&mut claimed, &[OP_END]),
        (CLOSING.to_vec(), Step::Reply(bulk_nak(AckStatus::BadValue)))
    );
    assert!(!claimed);
    let (mut b, mut claimed) = firmware(3);
    b.handle(&mut claimed, &data_op(0, &[1]));
    assert_eq!(
        b.answered(&mut claimed, Err(AckStatus::WioError)),
        (CLOSING.to_vec(), bulk_nak(AckStatus::WioError))
    );
    assert!(!claimed && !b.is_active());
}

// -- Config writes ------------------------------------------------------------

const NO: Result<u32, AckStatus> = Err(AckStatus::Other(1));

fn word(id: u8, secs: u32) -> Vec<u8> {
    let mut d = vec![id, 4];
    d.extend_from_slice(&secs.to_le_bytes());
    d
}

fn applied(id: u8, value: &[u8]) -> Step {
    Step::Reply(Ack { id, status: AckStatus::Applied, value: value.to_vec() })
}

#[test]
fn intervals_are_clamped() {
    let mut p = UNSET;
    let mut ms = 1000;
    for (asked, got) in [(0u32, 0u32), (1, 5), (5, 5), (60, 60), (301, 300), (u32::MAX, 300)] {
        let r = apply_config(&mut p, &mut ms, &word(CFG_ESP_SLEEP_S, asked), NO);
        assert_eq!(p.sleep_interval_s, got);
        assert_eq!(
            r,
            (vec![ConfigEffect::Save], applied(CFG_ESP_SLEEP_S, &got.to_le_bytes()), None)
        );
    }
    for (asked, got) in [(0u32, 3u32), (3, 3), (20, 20), (61, 60)] {
        let r = apply_config(&mut p, &mut ms, &word(CFG_ESP_ADV_WINDOW_S, asked), NO);
        assert_eq!(p.adv_window_s, got);
        assert_eq!(r.1, applied(CFG_ESP_ADV_WINDOW_S, &got.to_le_bytes()));
    }
    let before = p;
    for id in [CFG_ESP_SLEEP_S, CFG_ESP_ADV_WINDOW_S] {
        let r = apply_config(&mut p, &mut ms, &[id, 2, 1, 1], NO);
        let bad = Ack { id, status: AckStatus::BadValue, value: vec![] };
        assert_eq!(r, (vec![], Step::Reply(bad), None));
    }
    assert_eq!((p, ms), (before, 1000));
}

#[test]
fn the_rail_is_switched_and_saved() {
    let mut p = UNSET;
    let mut ms = 0;
    let r = apply_config(&mut p, &mut ms, &[CFG_PWR_EN, 1, 0], NO);
    let effects = vec![ConfigEffect::DriveRail(false), ConfigEffect::Save];
    assert_eq!(r, (effects, applied(CFG_PWR_EN, &[0]), None));
    assert_eq!(p.flags, PFLAG_PWR_OFF);
    // A missing value switches it on.
    let r = apply_config(&mut p, &mut ms, &[CFG_PWR_EN, 1], NO);
    assert_eq!(r.1, applied(CFG_PWR_EN, &[1]));
    assert_eq!(p.flags, 0);
}

#[test]
fn sleep_switches_ask_the_wio() {
    let mut p = UNSET;
    let mut ms = 0;
    let r = apply_config(&mut p, &mut ms, &[CFG_WIO_SLEEP, 1, 1], NO);
    assert_eq!(r, (vec![], ask(cmd::WIO_SLEEP, &[1], 500), Some(Switching::WioSleep(true))));
    let r = apply_config(&mut p, &mut ms, &[CFG_GPS_SLEEP, 1, 1], NO);
    assert_eq!(r, (vec![], ask(cmd::GPS_SLEEP, &[1], 500), Some(Switching::GpsSleep(true))));
    assert_eq!(p.flags, PFLAG_WIO_SLEEP | PFLAG_GPS_SLEEP);
    let r = apply_config(&mut p, &mut ms, &[CFG_WIO_SLEEP, 0], NO);
    assert_eq!(r.2, Some(Switching::WioSleep(false)));
    assert_eq!(p.flags, PFLAG_GPS_SLEEP);
    let ok = |id: u8, v: u8| Ack { id, status: AckStatus::Applied, value: vec![v] };
    let lost = Err(AckStatus::WioTimeout);
    let no = |id: u8| Ack { id, status: AckStatus::WioTimeout, value: vec![] };
    assert_eq!(
        config_answered(Switching::WioSleep(true), Ok(1)),
        (vec![], ok(CFG_WIO_SLEEP, 1))
    );
    assert_eq!(config_answered(Switching::WioSleep(true), lost), (vec![], no(CFG_WIO_SLEEP)));
    // One that does not answer to being woken is reset.
    assert_eq!(
        config_answered(Switching::WioSleep(false), lost),
        (vec![ConfigEffect::PulseReset], ok(CFG_WIO_SLEEP, 0))
    );
    assert_eq!(
        config_answered(Switching::GpsSleep(false), Ok(0)),
        (vec![], ok(CFG_GPS_SLEEP, 0))
    );
    assert_eq!(config_answered(Switching::GpsSleep(false), lost), (vec![], no(CFG_GPS_SLEEP)));
}

#[test]
fn other_writes_go_to_the_service() {
    let mut p = UNSET;
    let mut ms = 1000;
    let r = apply_config(&mut p, &mut ms, &word(1, 250), Ok(250));
    assert_eq!(r, (vec![], applied(CFG_UPDATE_INTERVAL_MS, &250u32.to_le_bytes()), None));
    assert_eq!(ms, 250);
    let refused = |id: u8| {
        Step::Reply(Ack { id, status: AckStatus::Other(1), value: vec![] })
    };
    assert_eq!(apply_config(&mut p, &mut ms, &[0x77, 0], NO).1, refused(0x77));
    assert_eq!(apply_config(&mut p, &mut ms, &[], NO).1, refused(0));
    // Too short for one of the board's own ids.
    assert_eq!(apply_config(&mut p, &mut ms, &[CFG_PWR_EN], NO).1, refused(CFG_PWR_EN));
    assert_eq!((p, ms), (UNSET, 250));
}

// -- Advertising, sleep and USB -----------------------------------------------

#[test]
fn retries_never_extend_the_window() {
    let mut s = Serve::start(1000, 15);
    assert_eq!(s.next(1000, 60), Next::Advertise);
    assert_eq!(s.accept_limit_ms(1000, 60), Some(15_000));
    for e in [ServeEvent::AdvertiseFailed, ServeEvent::ConnectFailed, ServeEvent::AttachFailed] {
        assert!(matches!(s.event(e, 60, false, true), ServeAction::Retry(_)));
    }
    assert_eq!(s.accept_limit_ms(15_999, 60), Some(1));
    assert_eq!(s.accept_limit_ms(17_000, 60), Some(0));
    assert_eq!(s.next(15_999, 60), Next::Advertise);
    assert_eq!(s.next(16_000, 60), Next::Sleep(60));
    assert_eq!(s.event(ServeEvent::WindowOver, 60, false, true), ServeAction::Sleep(60));
    assert_eq!(
        s.event(ServeEvent::AdvertiseFailed, 60, false, true),
        ServeAction::Retry(1000)
    );
    assert_eq!(s.event(ServeEvent::ConnectFailed, 60, false, true), ServeAction::Retry(200));
}

#[test]
fn an_awake_board_stays_awake() {
    let mut s = Serve::start(0, 15);
    assert_eq!(s.next(1_000_000, 0), Next::Advertise);
    assert_eq!(s.accept_limit_ms(1_000_000, 0), None);
    assert_eq!(s.event(ServeEvent::WindowOver, 0, false, true), ServeAction::Retry(0));
}

#[test]
fn a_session_raises_the_rail_and_lingers() {
    let mut s = Serve::start(0, 15);
    let raise = |raise_rail: bool| ServeAction::Session { raise_rail };
    assert_eq!(s.event(ServeEvent::Connected, 60, false, true), raise(true));
    assert_eq!(s.event(ServeEvent::Connected, 60, true, true), raise(false));
    assert_eq!(s.event(ServeEvent::Connected, 60, false, false), raise(false));
    s.event(ServeEvent::SessionOver { now_ms: 100_000 }, 60, true, true);
    assert_eq!(s.next(104_999, 60), Next::Advertise);
    assert_eq!(s.next(105_000, 60), Next::Sleep(60));
}

#[test]
fn advertising_names_the_service() {
    let mut uuid: Vec<u8> = SERVICE_UUID
        .bytes()
        .filter(|&b| b != b'-')
        .map(|b| (b as char).to_digit(16).unwrap() as u8)
        .collect::<Vec<u8>>()
        .chunks(2)
        .map(|d| d[0] * 16 + d[1])
        .collect();
    uuid.reverse();
    let mut adv = vec![2, 1, 6, 17, 7];
    adv.extend(uuid);
    assert_eq!(adv_data(), adv);
    let mut scan = vec![DEVICE_NAME.len() as u8 + 1, 9];
    scan.extend(DEVICE_NAME.bytes());
    assert_eq!(scan_data(), scan);
}

#[test]
fn usb_requests_are_answered() {
    let address = [1, 2, 3, 4, 5, 6];
    let ping = usb_request(usb::PING, &address);
    assert!(matches!(ping, UsbRequest::Ack { len: 3, payload: [usb::PING, 1, 0, ..] }));
    assert_eq!(reply_cmd(&ping), Some(resp::ACK));
    assert_eq!(
        usb_request(usb::INFO, &address),
        UsbRequest::Ack { payload: [usb::INFO, 6, 5, 4, 3, 2, 1], len: 7 }
    );
    assert_eq!(usb_request(usb::BULK, &address), UsbRequest::Bulk);
    assert_eq!(reply_cmd(&UsbRequest::Bulk), Some(usb::BULK_ACK));
    assert_eq!(usb_request(0, &address), UsbRequest::Unknown);
    assert_eq!(reply_cmd(&UsbRequest::Unknown), None);
    assert_eq!((idle_limit_ms(true), idle_limit_ms(false)), (Some(5000), None));
}

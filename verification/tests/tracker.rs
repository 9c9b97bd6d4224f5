use midair::fwupdate::DFU_PAGE_START;
use midair::link::{
    cmd, crc32, err, msg, resp, Telemetry, TELEM_FLAG_CFG_LOADED, TELEM_FLAG_GPS_FIX,
    TELEM_FLAG_SD_OK,
};
use midair::lora::encode_position;
use midair::platform::Random;
use midair::position::Position;
use midair::radiocfg::{RadioConfig, Role};
use midair::tracker::{firmware_version, Action, Health, Pace, Tracker, FIRMWARE_VERSION};

fn start(cfg: RadioConfig) -> Tracker {
    Tracker::start(3, cfg, false, 0).0
}

fn send(cmd: u8, payload: &[u8]) -> Action {
    Action::Send { cmd, payload: payload.to_vec() }
}

fn ack(cmd: u8, value: u16) -> Action {
    let v = value.to_le_bytes();
    send(resp::ACK, &[cmd, v[0], v[1]])
}

fn nak(cmd: u8, e: u8) -> Action {
    send(resp::NAK, &[cmd, e])
}

fn line(text: &str) -> Action {
    send(msg::LOG, text.as_bytes())
}

fn here() -> Position {
    Position { lat_e7: 1, lon_e7: 2, fix: true, sats: 7, ..Position::default() }
}

const PACKET: [u8; 20] = [9; 20];

fn report(src: u8, rssi: i16) -> Action {
    let mut p = vec![src];
    p.extend_from_slice(&rssi.to_le_bytes());
    p.extend_from_slice(&PACKET);
    send(msg::POSITION, &p)
}

#[test]
fn the_loop_announces_itself() {
    let cfg = RadioConfig { address: 12, ..RadioConfig::default() };
    let (mut t, actions) = Tracker::start(3, cfg, false, 100);
    assert_eq!(actions, vec![line("wio v3 up, node 12")]);
    assert_eq!(t.handle_frame(cmd::PING, &[]), vec![ack(cmd::PING, 3)]);
    assert_eq!(t.handle_frame(0x77, &[]), vec![]);
    assert_eq!(t.config(), cfg);
}

#[test]
fn the_wio_ignores_its_echo() {
    let mut t = start(RadioConfig::default());
    for id in [msg::POSITION, msg::STATUS, msg::RADIO_BUSY, msg::LORA_RX, msg::LOG, resp::ACK] {
        assert_eq!(t.handle_frame(id, &[1, 1, 1, 1]), vec![]);
    }
}

#[test]
fn versions_are_read_from_the_build() {
    assert_eq!(firmware_version(None), Some(FIRMWARE_VERSION));
    assert_eq!(firmware_version(Some(b"42")), Some(42));
    assert_eq!(firmware_version(Some(b"065535")), Some(65535));
    assert_eq!(firmware_version(Some(b"65536")), None);
    assert_eq!(firmware_version(Some(b"99999999999999999999")), None);
    assert_eq!(firmware_version(Some(b"")), None);
    assert_eq!(firmware_version(Some(b"1a")), None);
}

#[test]
fn soft_sleep_stops_and_starts_the_radio() {
    let mut t = start(RadioConfig::default());
    assert_eq!(t.pace(), Pace::Work);
    assert_eq!(
        t.handle_frame(cmd::WIO_SLEEP, &[1]),
        vec![Action::RadioStandby, line("soft sleep"), ack(cmd::WIO_SLEEP, 1)]
    );
    assert_eq!(t.pace(), Pace::Asleep);
    assert_eq!(t.handle_frame(cmd::WIO_SLEEP, &[1]), vec![ack(cmd::WIO_SLEEP, 1)]);
    assert_eq!(
        t.handle_frame(cmd::WIO_SLEEP, &[0]),
        vec![Action::RadioInit, line("woke from soft sleep"), ack(cmd::WIO_SLEEP, 0)]
    );
    assert_eq!(t.handle_frame(cmd::WIO_SLEEP, &[]), vec![ack(cmd::WIO_SLEEP, 0)]);
    assert_eq!(
        t.handle_frame(cmd::GPS_SLEEP, &[1]),
        vec![Action::GpsSleep, ack(cmd::GPS_SLEEP, 1)]
    );
    assert_eq!(
        t.handle_frame(cmd::GPS_SLEEP, &[0]),
        vec![Action::GpsWake, ack(cmd::GPS_SLEEP, 0)]
    );
    assert_eq!(t.handle_frame(cmd::RADIO_BUSY, &[1]), vec![Action::PeerBusy { busy: true }]);
    assert_eq!(t.handle_frame(cmd::RADIO_BUSY, &[2]), vec![Action::PeerBusy { busy: false }]);
}

fn push_config(t: &mut Tracker, text: &[u8], crc: u32) -> Vec<Action> {
    let len = (text.len() as u16).to_le_bytes();
    assert_eq!(t.handle_frame(cmd::CFG_BEGIN, &len), vec![ack(cmd::CFG_BEGIN, 0)]);
    let mut p = vec![0, 0];
    p.extend_from_slice(text);
    assert_eq!(t.handle_frame(cmd::CFG_DATA, &p), vec![ack(cmd::CFG_DATA, 1)]);
    t.handle_frame(cmd::CFG_END, &crc.to_le_bytes())
}

#[test]
fn a_pushed_config_is_applied_and_saved() {
    let mut t = start(RadioConfig::default());
    let text = b"[mesh]\naddress = 42\n";
    assert_eq!(
        push_config(&mut t, text, crc32(text)),
        vec![
            Action::RadioInit,
            Action::NodeReconfigure,
            Action::GpsConfigure,
            Action::SaveConfig,
            line("config applied, node 42"),
            ack(cmd::CFG_END, 0),
        ]
    );
    assert_eq!(t.config().address, 42);
    assert_eq!(t.config_text(), text);
    // A text that does not parse is refused and changes nothing.
    let bad = b"[mesh]\naddress = 0\n";
    assert_eq!(push_config(&mut t, bad, crc32(bad)), vec![nak(cmd::CFG_END, err::BAD_CONFIG)]);
    assert_eq!(t.config().address, 42);
    assert_eq!(push_config(&mut t, text, 1), vec![nak(cmd::CFG_END, err::CRC_MISMATCH)]);
}

#[test]
fn only_a_changed_node_is_set_up_anew() {
    let mut t = start(RadioConfig::default());
    let anew = |t: &mut Tracker, text: &str| {
        let done = push_config(t, text.as_bytes(), crc32(text.as_bytes()));
        assert!(done.contains(&Action::SaveConfig));
        done.contains(&Action::NodeReconfigure)
    };
    assert!(anew(&mut t, "address = 42"));
    assert!(!anew(&mut t, "address = 42"));
    assert!(!anew(&mut t, "address = 42\npower_dbm = 3\nbeacon_interval_s = 9"));
    assert!(anew(&mut t, "address = 42\nrole = repeater"));
    assert!(anew(&mut t, "address = 42\nrole = repeater\nmax_hops = 5"));
    // The repeat jitter goes with the air time.
    assert!(anew(&mut t, "address = 42\nrole = repeater\nmax_hops = 5\nspreading_factor = 11"));
    assert!(!anew(&mut t, "address = 42\nrole = repeater\nmax_hops = 5\nspreading_factor = 11"));
}

#[test]
fn turning_the_card_off_is_saved_too() {
    let mut t = start(RadioConfig::default());
    let text = b"sd_enabled = false\n";
    assert!(push_config(&mut t, text, crc32(text)).contains(&Action::SaveConfig));
    let health = Health {
        last_rssi: 0,
        last_snr_cb: 0,
        last_rx_ms: None,
        sd_ok: true,
        fix: false,
        sats: 0,
    };
    // A card that is mounted but not logged to does not count.
    let telem = Telemetry {
        secs_since_rx: 0xFFFF,
        flags: TELEM_FLAG_CFG_LOADED,
        ..Telemetry::default()
    };
    assert_eq!(t.status_step(3000, 3000, &health), vec![send(msg::STATUS, &telem.encode())]);
}

#[test]
fn an_update_owns_the_loop() {
    let mut t = start(RadioConfig::default());
    let image = [5u8; 10];
    let mut p = 10u32.to_le_bytes().to_vec();
    p.extend_from_slice(&crc32(&image).to_le_bytes());
    p.extend_from_slice(&[1, 0]);
    assert_eq!(
        t.handle_frame(cmd::FW_BEGIN, &p),
        vec![line("fw update: receiving image"), ack(cmd::FW_BEGIN, 0)]
    );
    assert_eq!(t.pace(), Pace::Transfer);
    let mut data = vec![0, 0];
    data.extend_from_slice(&image);
    assert_eq!(
        t.handle_frame(cmd::FW_DATA, &data),
        vec![Action::FeedWatchdog, ack(cmd::FW_DATA, 1)]
    );
    assert_eq!(
        t.handle_frame(cmd::FW_END, &[]),
        vec![Action::FeedWatchdog, Action::WritePage { page: DFU_PAGE_START }]
    );
    let page = t.firmware_page();
    assert_eq!(&page[..12], &[5, 5, 5, 5, 5, 5, 5, 5, 5, 5, 0xFF, 0xFF]);
    assert_eq!(t.page_written(true), vec![Action::VerifyImage { len: 10 }]);
    assert_eq!(
        t.verify(&page[..10]),
        vec![Action::RequestSwap, ack(cmd::FW_END, 0), Action::Reboot]
    );
    assert_eq!(t.pace(), Pace::Work);
    assert_eq!(t.handle_frame(cmd::FW_BEGIN, &[]), vec![nak(cmd::FW_BEGIN, err::BAD_FRAME)]);
    assert_eq!(t.handle_frame(cmd::FW_ABORT, &[]), vec![ack(cmd::FW_ABORT, 0)]);
}

#[test]
fn positions_are_reported_once_a_second() {
    let mut t = start(RadioConfig::default());
    let p = here();
    let log = Action::LogPosition { src: 0, rssi: 0, position: p };
    assert_eq!(
        t.gps_step(10, true, &p, &PACKET),
        vec![line("gps fix acquired (7 sats)"), report(0, 0), log]
    );
    assert_eq!(t.gps_step(1009, true, &p, &PACKET), vec![]);
    assert_eq!(t.gps_step(1010, false, &p, &PACKET), vec![]);
    let lost = Position { fix: false, ..p };
    assert_eq!(
        t.gps_step(1010, true, &lost, &PACKET),
        vec![line("gps fix lost"), report(0, 0)]
    );
}

#[test]
fn a_disabled_card_logs_nothing() {
    let mut t = start(RadioConfig { sd_enabled: false, ..RadioConfig::default() });
    assert_eq!(
        t.gps_step(10, true, &here(), &PACKET),
        vec![line("gps fix acquired (7 sats)"), report(0, 0)]
    );
    assert_eq!(t.heard(4, -90, &[], Some((here(), PACKET))), vec![report(4, -90)]);
}

#[test]
fn beacons_keep_their_interval() {
    let cfg = RadioConfig { address: 1, beacon_interval_s: 30, ..RadioConfig::default() };
    let mut t = start(cfg);
    let mut rng = Random::new();
    assert_eq!(t.beacon_step(2999, true, false, &PACKET, &mut rng, 1), vec![]);
    // Without a fix, or with the ESP on the air, it tries again shortly.
    assert_eq!(t.beacon_step(3000, false, false, &PACKET, &mut rng, 1), vec![]);
    assert_eq!(t.beacon_step(3499, true, false, &PACKET, &mut rng, 1), vec![]);
    assert_eq!(t.beacon_step(3500, true, true, &PACKET, &mut rng, 1), vec![]);
    assert_eq!(
        t.beacon_step(4000, true, false, &PACKET, &mut rng, 1),
        vec![
            send(msg::RADIO_BUSY, &[1]),
            Action::Broadcast { payload: encode_position(&PACKET).to_vec() }
        ]
    );
    t.transmitted(true);
    assert_eq!(t.beacon_step(33_999, true, false, &PACKET, &mut rng, 1), vec![]);
    assert_eq!(t.beacon_step(36_000, true, false, &PACKET, &mut rng, 1).len(), 2);
    // The busy flag is taken back.
    let window = cfg.tx_chip_timeout_ms();
    assert_eq!(t.clear_step(36_000 + window - 1), vec![]);
    assert_eq!(t.clear_step(36_000 + window), vec![send(msg::RADIO_BUSY, &[0])]);
    assert_eq!(t.clear_step(36_000 + window), vec![]);
}

#[test]
fn a_receive_only_board_never_beacons() {
    let mut rng = Random::new();
    let mut t = start(RadioConfig { role: Role::RxOnly, ..RadioConfig::default() });
    assert_eq!(t.beacon_step(1_000_000, true, false, &PACKET, &mut rng, 1), vec![]);
    let mut t = start(RadioConfig { beacon_interval_s: 0, ..RadioConfig::default() });
    assert_eq!(t.beacon_step(1_000_000, true, false, &PACKET, &mut rng, 1), vec![]);
}

#[test]
fn repeats_wait_for_the_esp() {
    let mut t = start(RadioConfig::default());
    assert_eq!(t.relay_step(5, true, true), vec![]);
    assert_eq!(t.relay_step(5, false, false), vec![]);
    assert_eq!(
        t.relay_step(5, true, false),
        vec![send(msg::RADIO_BUSY, &[1]), Action::Relay]
    );
}

#[test]
fn receptions_are_reported() {
    let mut t = start(RadioConfig::default());
    assert_eq!(
        t.heard(4, -90, &[0x50], Some((here(), PACKET))),
        vec![report(4, -90), Action::LogPosition { src: 4, rssi: -90, position: here() }]
    );
    let mut p = vec![4];
    p.extend_from_slice(&(-1i16).to_le_bytes());
    p.extend_from_slice(b"hello");
    assert_eq!(t.heard(4, -1, b"hello", None), vec![send(msg::LORA_RX, &p)]);
}

#[test]
fn the_status_tells_the_board_s_health() {
    let mut t = Tracker::start(3, RadioConfig::default(), true, 0).0;
    t.transmitted(true);
    t.transmitted(false);
    t.heard(4, -1, b"x", None);
    assert_eq!((t.tx_count(), t.rx_count()), (1, 1));
    let health = Health {
        last_rssi: -97,
        last_snr_cb: -250,
        last_rx_ms: Some(1000),
        sd_ok: true,
        fix: true,
        sats: 9,
    };
    assert_eq!(t.status_step(2999, 2999, &health), vec![]);
    let telem = Telemetry {
        last_rssi: -97,
        last_snr_cb: -250,
        secs_since_rx: 2,
        rx_count: 1,
        tx_count: 1,
        flags: TELEM_FLAG_SD_OK | TELEM_FLAG_GPS_FIX | TELEM_FLAG_CFG_LOADED,
        sats: 9,
    };
    assert_eq!(t.status_step(3000, 3100, &health), vec![send(msg::STATUS, &telem.encode())]);
    assert_eq!(t.status_step(7999, 7999, &health), vec![]);
    let never = Health { last_rx_ms: None, sd_ok: false, fix: false, ..health };
    let telem = Telemetry { secs_since_rx: 0xFFFF, flags: TELEM_FLAG_CFG_LOADED, ..telem };
    assert_eq!(t.status_step(8000, 8000, &never), vec![send(msg::STATUS, &telem.encode())]);
    let long = Health { last_rx_ms: Some(u32::MAX), ..never };
    let telem = Telemetry { secs_since_rx: 0xFFFE, ..telem };
    assert_eq!(
        t.status_step(13_000, 80_000_000, &long),
        vec![send(msg::STATUS, &telem.encode())]
    );
}

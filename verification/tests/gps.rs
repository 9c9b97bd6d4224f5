use midair::gps::{ubx, Gga, Gps, Rmc, Sentence, NMEA_MAX, UBX_MAX_PAYLOAD};
use midair::position::Position;
use midair::radiocfg::{DynModel, GpsConfig, PowerMode};

fn feed(gps: &mut Gps, bytes: &[u8]) -> Vec<Vec<u8>> {
    bytes.iter().filter_map(|&b| gps.poll(b)).collect()
}

fn fix() -> Sentence {
    Sentence::Rmc(Rmc {
        valid: true,
        lat_e7: Some(481_173_000),
        lon_e7: Some(-1_226_760_000),
        speed_cms: Some(150),
        course_cdeg: Some(9000),
        tod_ms: Some(1000),
    })
}

#[test]
fn lines_are_assembled() {
    let mut gps = Gps::new();
    assert_eq!(feed(&mut gps, b"noise$GPRMC,1\r\n$GP"), vec![b"$GPRMC,1".to_vec()]);
    // A new start throws the unfinished line away.
    assert_eq!(feed(&mut gps, b"$GPGGA,2\n"), vec![b"$GPGGA,2".to_vec()]);
    assert_eq!(gps.rx_bytes(), 18 + 9);
    // Lost bytes throw the unfinished line away too.
    feed(&mut gps, b"$GPRMC");
    gps.lost_bytes();
    assert!(feed(&mut gps, b",1\r").is_empty());
}

#[test]
fn overlong_and_garbled_lines_are_dropped() {
    let mut gps = Gps::new();
    let mut long = vec![b'$'];
    long.extend_from_slice(&[b'A'; NMEA_MAX]);
    long.push(b'\r');
    assert!(feed(&mut gps, &long).is_empty());
    let mut full = vec![b'$'];
    full.extend_from_slice(&[b'A'; NMEA_MAX - 1]);
    assert!(feed(&mut gps, &full).is_empty());
    assert_eq!(gps.poll(b'\r'), Some(full));
    assert!(feed(&mut gps, &[b'$', 0xC3, 0x28, b'\r']).is_empty());
}

#[test]
fn sentences_fold_into_the_position() {
    let mut gps = Gps::new();
    assert!(!gps.present());
    gps.accept(None);
    assert!(!gps.take_updated());
    gps.accept(Some(fix()));
    gps.accept(Some(Sentence::Gga(Gga { alt_dm: Some(1234), sats: Some(7) })));
    assert!(gps.has_fix() && gps.present() && gps.take_updated() && !gps.take_updated());
    assert_eq!(gps.rx_sentences(), 2);
    let p = Position {
        lat_e7: 481_173_000,
        lon_e7: -1_226_760_000,
        alt_dm: 1234,
        speed_cms: 150,
        course_cdeg: 9000,
        fix: true,
        other_flags: 0,
        sats: 7,
        tod_ms: 1000,
    };
    assert_eq!(gps.packet(), p);
    // A valid sentence without a position leaves the old one.
    let blank = Rmc {
        valid: true,
        lat_e7: Some(1),
        lon_e7: None,
        speed_cms: None,
        course_cdeg: None,
        tod_ms: Some(2000),
    };
    gps.accept(Some(Sentence::Rmc(blank)));
    assert_eq!(gps.packet(), Position { tod_ms: 2000, ..p });
}

#[test]
fn a_lost_fix_clears_the_position() {
    let mut gps = Gps::new();
    gps.accept(Some(fix()));
    gps.accept(Some(Sentence::Rmc(Rmc {
        valid: false,
        lat_e7: None,
        lon_e7: None,
        speed_cms: None,
        course_cdeg: None,
        tod_ms: Some(3000),
    })));
    assert_eq!(gps.packet(), Position { tod_ms: 3000, ..Position::default() });
}

#[test]
fn ubx_frames_carry_their_checksum() {
    // UBX-MON-VER poll.
    assert_eq!(ubx(0x0A, 0x04, &[]), Some(vec![0xB5, 0x62, 0x0A, 0x04, 0, 0, 0x0E, 0x34]));
    assert!(ubx(1, 2, &[0; UBX_MAX_PAYLOAD]).is_some());
    assert_eq!(ubx(1, 2, &[0; UBX_MAX_PAYLOAD + 1]), None);
}

#[test]
fn the_module_is_configured_in_one_message() {
    let cfg = GpsConfig {
        gps_enabled: true,
        sbas_enabled: false,
        galileo_enabled: true,
        beidou_enabled: false,
        qzss_enabled: false,
        glonass_enabled: true,
        power_mode: PowerMode::Full,
        meas_rate_ms: 1000,
        dyn_model: DynModel::Portable,
        ..GpsConfig::default()
    };
    let gps = Gps::new();
    let frame = gps.configure(&cfg).unwrap();
    assert_eq!(frame[..10], [0xB5, 0x62, 0x06, 0x8A, 50, 0, 0, 1, 0, 0]);
    assert_eq!(frame.len(), 58);
    // Constellations, operate mode, measurement rate, dynamic model.
    assert_eq!(frame[10..15], [0x1F, 0x00, 0x31, 0x10, 1]);
    assert_eq!(frame[15..20], [0x20, 0x00, 0x31, 0x10, 0]);
    assert_eq!(frame[45..51], [0x01, 0x00, 0x21, 0x30, 0xE8, 0x03]);
    let a = frame[2..56].iter().fold(0u8, |a, &b| a.wrapping_add(b));
    assert_eq!(frame[56], a);
}

#[test]
fn the_module_sleeps_and_wakes() {
    let mut gps = Gps::new();
    gps.accept(Some(fix()));
    let frame = gps.sleep().unwrap();
    assert_eq!(frame[..6], [0xB5, 0x62, 0x02, 0x41, 16, 0]);
    assert_eq!(frame[14..22], [2, 0, 0, 0, 0x28, 0, 0, 0]);
    assert!(gps.is_sleeping() && !gps.has_fix());
    assert_eq!(gps.packet(), Position { tod_ms: 1000, ..Position::default() });
    assert_eq!(gps.configure(&GpsConfig::default()), None);
    assert_eq!(gps.wake(), [0xFF, 0xFF]);
    assert!(gps.configure(&GpsConfig::default()).is_some());
}

use midair::link::{cmd, crc32, crc8, msg, FrameBuf, FrameParser, SYNC};
use midair::lora::{
    position_msg_len, FIELD_ALT, FIELD_COURSE, FIELD_LAT, FIELD_LON, FIELD_SATS, FIELD_SPEED,
    FIELD_TIME,
};
use midair::radiocfg::{parse, parse_bytes, ConfigError, GpsConfig, RadioConfig, Role};

// -- Link ---------------------------------------------------------------------

fn frame(cmd: u8, payload: &[u8]) -> Vec<u8> {
    let mut out = FrameBuf::new();
    out.build(cmd, payload).to_vec()
}

/// The frames that a stream of bytes completes.
fn heard(parser: &mut FrameParser, bytes: &[u8]) -> Vec<(u8, Vec<u8>)> {
    let mut frames = Vec::new();
    for &b in bytes {
        if parser.feed(b) {
            let f = parser.frame();
            frames.push((f.cmd, f.payload.to_vec()));
        }
    }
    frames
}

#[test]
fn frames_have_their_layout() {
    let bytes = frame(cmd::PING, &[7, 8]);
    assert_eq!(bytes[..6], [SYNC, 2, 0, cmd::PING, 7, 8]);
    assert_eq!(bytes[6], crc8(&[cmd::PING, 7, 8]));
    // The check value of CRC-8 with polynomial 0x07.
    assert_eq!(crc8(b"123456789"), 0xF4);
}

#[test]
fn checksums_detect_a_damaged_byte() {
    let data: Vec<u8> = (0..40).map(|i| i * 7).collect();
    for k in 0..data.len() {
        for flip in [1u8, 0x80, 0xFF] {
            let mut bad = data.clone();
            bad[k] ^= flip;
            assert_ne!(crc8(&bad), crc8(&data));
            assert_ne!(crc32(&bad), crc32(&data));
        }
    }
}

#[test]
fn a_damaged_frame_is_dropped() {
    let good = frame(msg::POSITION, &[9; 23]);
    for k in 3..good.len() {
        let mut bad = good.clone();
        bad[k] ^= 0x10;
        assert_eq!(heard(&mut FrameParser::new(), &bad), vec![]);
    }
}

#[test]
fn a_frame_is_heard_after_noise() {
    let mut stream = vec![0x00, 0x55, 0xFF, 0x13];
    stream.extend_from_slice(&frame(cmd::FW_ABORT, &[]));
    assert_eq!(heard(&mut FrameParser::new(), &stream), vec![(cmd::FW_ABORT, vec![])]);
}

/// Whatever a parser was in the middle of, enough frames bring it back.
#[test]
fn a_parser_resyncs() {
    let mut parser = FrameParser::new();
    // A header that announces a long payload which never comes.
    heard(&mut parser, &[SYNC, 0xFF, 0x00, cmd::FW_DATA]);
    let good = frame(msg::STATUS, &[1; 16]);
    let mut frames = Vec::new();
    for _ in 0..20 {
        frames.extend(heard(&mut parser, &good));
    }
    assert!(frames.contains(&(msg::STATUS, vec![1; 16])));
    assert_eq!(heard(&mut parser, &good), vec![(msg::STATUS, vec![1; 16])]);
}

// -- Radio configuration ------------------------------------------------------

#[test]
fn comments_and_headers_configure_the_defaults() {
    let text = "\n# comment\n[radio]\n   \n[mesh] # more\n";
    assert_eq!(parse(text), Ok(RadioConfig::default()));
}

#[test]
fn unknown_keys_change_nothing() {
    let plain = parse("address = 9\n").unwrap();
    assert_eq!(parse("address = 9\nnew_key = \"anything\"\n"), Ok(plain));
}

#[test]
fn the_last_setting_of_a_key_counts() {
    assert_eq!(parse("address = 3\naddress = 4").unwrap().address, 4);
    assert_eq!(parse("role = 'tx_only'\n").unwrap().role, Role::TxOnly);
}

#[test]
fn a_file_without_gps_settings_leaves_the_factory_set() {
    let cfg = parse("[gps]\naddress = 3\nrole = repeater").unwrap();
    assert_eq!(cfg.gps, GpsConfig::default());
}

#[test]
fn the_first_error_decides() {
    assert_eq!(parse("address = 1\nmax_hops = 9\nbad"), Err(ConfigError::OutOfRange(2)));
    assert_eq!(parse("[open\n"), Err(ConfigError::Syntax(1)));
    assert_eq!(parse("key =\n"), Err(ConfigError::Syntax(1)));
    assert_eq!(parse_bytes(b"address = 2\r\n").unwrap().address, 2);
}

#[test]
fn an_error_names_the_first_bad_line() {
    let lines = ["# comment", "", "address = 7", "address = 300", "nonsense"];
    let bad = Err(ConfigError::OutOfRange(4));
    assert!(parse(&lines[..3].join("\n")).is_ok());
    assert_eq!(parse(&lines[..4].join("\n")), bad);
    assert_eq!(parse(&lines.join("\n")), bad);
    assert_eq!(parse("\n\nrx_boost = maybe\n\n"), Err(ConfigError::BadValue(3)));
}

#[test]
fn numbers_are_read_as_numbers() {
    assert_eq!(parse("power_dbm = -9").unwrap().power_dbm, -9);
    assert_eq!(parse("power_dbm = -10"), Err(ConfigError::OutOfRange(1)));
    // Far beyond any signed word, so not a small negative power.
    assert_eq!(
        parse("power_dbm = 18446744073709551615"),
        Err(ConfigError::OutOfRange(1))
    );
    assert_eq!(
        parse("power_dbm = 18446744073709551616"),
        Err(ConfigError::BadValue(1))
    );
    assert_eq!(parse("address = _1"), Err(ConfigError::BadValue(1)));
}

#[test]
fn slower_modulation_never_takes_less_air() {
    for bandwidth_khz in [62, 125, 250, 500] {
        let mut last = 0;
        for spreading_factor in 5..=12 {
            let cfg = RadioConfig { spreading_factor, bandwidth_khz, ..RadioConfig::default() };
            assert!(cfg.airtime_scale() >= last);
            last = cfg.airtime_scale();
        }
    }
}

#[test]
fn beacon_fields_have_their_widths() {
    let position = FIELD_LAT | FIELD_LON;
    assert_eq!(position_msg_len(0), 2);
    assert_eq!(position_msg_len(position | FIELD_ALT), 12);
    assert_eq!(position_msg_len(position | FIELD_SPEED | FIELD_COURSE), 14);
    assert_eq!(position_msg_len(position | FIELD_SATS), 11);
    assert_eq!(position_msg_len(position | FIELD_TIME), 14);
}

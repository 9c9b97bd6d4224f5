use midair::link::{
    cmd, crc32, msg, FrameBuf, FrameParser, Telemetry, SYNC, TELEMETRY_LEN, TELEM_FLAG_GPS_FIX,
    TELEM_FLAG_SD_OK,
};


#[test]
fn link_frame_roundtrip() {
    let mut out = FrameBuf::new();
    let bytes = out.build(cmd::FW_DATA, &[1, 2, 3, 4]);

    let mut parser = FrameParser::new();
    let mut got = None;
    for &b in bytes {
        if parser.feed(b) {
            let f = parser.frame();
            got = Some((f.cmd, f.payload.to_vec()));
        }
    }
    assert_eq!(got, Some((cmd::FW_DATA, vec![1, 2, 3, 4])));
}

#[test]
fn frame_resync_after_garbage() {
    let mut out = FrameBuf::new();
    let bytes = out.build(msg::POSITION, &[9; 23]);

    let mut parser = FrameParser::new();
    let mut hits = 0;
    // Garbage, then a complete corrupted frame (bad crc), then a good
    // frame. The corrupted frame is fully consumed (including its bad
    // CRC byte) before the good frame's sync arrives.
    for &b in [0x00, 0xAA, 0x02, 0x00, 0x55, 0x66, 0x77, 0x00].iter().chain(bytes) {
        if parser.feed(b) {
            hits += 1;
            assert_eq!(parser.frame().cmd, msg::POSITION);
            assert_eq!(parser.frame().payload.len(), 23);
        }
    }
    assert_eq!(hits, 1);
}

#[test]
fn oversized_len_rejected() {
    let mut parser = FrameParser::new();
    // LEN = 0x0FFF > MAX_PAYLOAD: parser must fall back to Sync and
    // then accept a valid frame.
    for b in [SYNC, 0xFF, 0x0F] {
        assert!(!parser.feed(b));
    }
    let mut out = FrameBuf::new();
    let bytes = out.build(cmd::PING, &[]);
    let mut ok = false;
    for &b in bytes {
        ok |= parser.feed(b);
    }
    assert!(ok);
    assert_eq!(parser.frame().cmd, cmd::PING);
    assert!(parser.frame().payload.is_empty());
}

#[test]
fn telemetry_roundtrip() {
    let t = Telemetry {
        last_rssi: -97,
        last_snr_cb: -25,
        secs_since_rx: 12,
        rx_count: 100_000,
        tx_count: 42,
        flags: TELEM_FLAG_SD_OK | TELEM_FLAG_GPS_FIX,
        sats: 11,
    };
    let b = t.encode();
    assert_eq!(Telemetry::decode(&b), Some(t));
    assert_eq!(Telemetry::decode(&b[..TELEMETRY_LEN - 1]), None);
    let mut longer = b.to_vec();
    longer.push(0xAB);
    assert_eq!(Telemetry::decode(&longer), Some(t));
}

#[test]
fn crc32_known_value() {
    // Standard IEEE CRC-32 of "123456789".
    assert_eq!(crc32(b"123456789"), 0xCBF4_3926);
}

use midair::ble;


/// The GATT server needs the UUIDs as numbers; the string forms must not
/// drift from them.
#[test]
fn uuid_strings_match_u128() {
    fn to_u128(s: &str) -> u128 {
        s.bytes()
            .filter(|&b| b != b'-')
            .fold(0u128, |v, b| v << 4 | (b as char).to_digit(16).unwrap() as u128)
    }
    assert_eq!(to_u128(ble::TELEMETRY_UUID), ble::TELEMETRY_UUID_U128);
    assert_eq!(to_u128(ble::BULK_UUID), ble::BULK_UUID_U128);
    assert_eq!(to_u128(ble::REMOTE_UUID), ble::REMOTE_UUID_U128);
    assert_eq!(to_u128(ble::LOG_UUID), ble::LOG_UUID_U128);
    assert_eq!(to_u128(ble::SETTINGS_UUID), ble::SETTINGS_UUID_U128);
    assert_eq!(ble::SERVICE_UUID, "c3a10001-9f6e-4b2c-8f5a-2e32c3b1e5d0");
}

#[test]
fn settings_roundtrip() {
    let s = ble::Settings {
        pwr_en: true,
        wio_sleep: false,
        gps_sleep: true,
        sleep_interval_s: 300,
        notify_interval_ms: 1000,
        adv_window_s: 15,
    };
    let bytes = s.encode();
    assert_eq!(bytes.len(), ble::SETTINGS_LEN);
    assert_eq!(ble::Settings::decode(&bytes), Some(s));
}

#[test]
fn settings_defaults_roundtrip() {
    let s = ble::Settings::default();
    assert_eq!(ble::Settings::decode(&s.encode()), Some(s));
}

#[test]
fn settings_rejects_short_and_wrong_version() {
    let good = ble::Settings::default().encode();
    assert!(ble::Settings::decode(&good[..ble::SETTINGS_LEN - 1]).is_none());
    let mut bad = good;
    bad[0] = ble::SETTINGS_VERSION + 1;
    assert!(ble::Settings::decode(&bad).is_none());
}

/// A longer buffer must still decode: a future layout can only grow,
/// and byte 0 is what gates compatibility.
#[test]
fn settings_tolerates_trailing_bytes() {
    let good = ble::Settings::default().encode();
    let mut longer = [0u8; ble::SETTINGS_LEN + 4];
    longer[..ble::SETTINGS_LEN].copy_from_slice(&good);
    assert!(ble::Settings::decode(&longer).is_some());
}

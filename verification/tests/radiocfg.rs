use midair::lora;
use midair::radiocfg::{
    parse, parse_bytes, ConfigError, DynModel, GpsConfig, PowerMode, RadioConfig, Role, TcxoVolts,
    MAX_HOPS_LIMIT,
};

const EXAMPLE: &str = r#"
[radio]
frequency_hz = 915000000
spreading_factor = 7      # 5-12
bandwidth_khz = 125       # 62, 125, 250, 500
coding_rate = 5           # 4/5 .. 4/8
power_dbm = 22            # -9 .. 22
rx_boost = false          # boosted RX gain, ~+2 dB for more RX current

[mesh]
address = 1               # 1-255
role = "leaf"             # leaf | repeater | tx_only | rx_only
max_hops = 1              # retransmissions allowed per broadcast

[beacon]
interval_s = 10           # position broadcast period
"#;


#[test]
fn defaults_when_empty() {
    assert_eq!(parse("").unwrap(), RadioConfig::default());
    assert_eq!(parse("# just a comment\n\n").unwrap(), RadioConfig::default());
}

/// The example file in the module's documentation shows the defaults.
#[test]
fn example_file_documents_the_real_defaults() {
    assert_eq!(parse(EXAMPLE).unwrap(), RadioConfig::default());
}

#[test]
fn full_file() {
    let toml = r#"
        # radio config
        [radio]
        frequency_hz = 915_000_000
        spreading_factor = 10
        bandwidth_khz = 125
        coding_rate = 8
        power_dbm = 14
        rx_boost = true

        [mesh]
        address = 3
        role = "repeater"
        max_hops = 2

        [beacon]
        interval_s = 30
    "#;
    let cfg = parse(toml).unwrap();
    assert_eq!(cfg.frequency_hz, 915_000_000);
    assert_eq!(cfg.spreading_factor, 10);
    assert_eq!(cfg.coding_rate, 8);
    assert_eq!(cfg.power_dbm, 14);
    assert!(cfg.rx_boost);
    assert_eq!(cfg.address, 3);
    assert_eq!(cfg.role, Role::Repeater);
    assert_eq!(cfg.max_hops, 2);
    assert_eq!(cfg.beacon_interval_s, 30);
    assert!(!cfg.ldro());
}

#[test]
fn role_defaults_to_leaf_with_one_repeat_allowed() {
    let cfg = RadioConfig::default();
    assert_eq!(cfg.role, Role::Leaf);
    assert_eq!(cfg.max_hops, 1);
    assert_eq!(parse("role = \"leaf\"").unwrap().role, Role::Leaf);
    assert_eq!(parse("max_hops = 0").unwrap().max_hops, 0);
    assert_eq!(parse("role = repeater").unwrap().role, Role::Repeater);
    assert_eq!(parse("role = \"gateway\""), Err(ConfigError::BadValue(1)));
    assert_eq!(parse("max_hops = 9"), Err(ConfigError::OutOfRange(1)));
}

#[test]
fn one_way_roles_parse() {
    assert_eq!(parse("role = \"tx_only\"").unwrap().role, Role::TxOnly);
    assert_eq!(parse("role = \"rx_only\"").unwrap().role, Role::RxOnly);
    // Near misses are typos, not a mode to guess at.
    assert_eq!(parse("role = \"tx\""), Err(ConfigError::BadValue(1)));
    assert_eq!(parse("role = \"txonly\""), Err(ConfigError::BadValue(1)));
}

/// Each role uses exactly the halves of the air interface it names, and
/// only a repeater forwards. These drive the radio's idle state and the
/// beacon gate, so getting one wrong is a node that is silently deaf or
/// silently mute.
#[test]
fn roles_use_the_halves_they_name() {
    for (role, tx, rx, repeats) in [
        (Role::Leaf, true, true, false),
        (Role::Repeater, true, true, true),
        (Role::TxOnly, true, false, false),
        (Role::RxOnly, false, true, false),
    ] {
        assert_eq!(role.transmits(), tx);
        assert_eq!(role.receives(), rx);
        assert_eq!(role.repeats(), repeats);
    }
}

/// A repeater has to hear a frame before it can forward one, so no role
/// may repeat without receiving.
#[test]
fn repeating_implies_receiving() {
    for role in [Role::Leaf, Role::Repeater, Role::TxOnly, Role::RxOnly] {
        assert!(!role.repeats() || role.receives());
    }
}

#[test]
fn legacy_lifetime_maps_to_hop_count() {
    // The old key counted transmissions; 2 meant "one repeat".
    assert_eq!(parse("lifetime = 2").unwrap().max_hops, 1);
    assert_eq!(parse("lifetime = 1").unwrap().max_hops, 0);
    assert_eq!(parse("lifetime = 16").unwrap().max_hops, MAX_HOPS_LIMIT);
    assert_eq!(parse("lifetime = 0"), Err(ConfigError::OutOfRange(1)));
    // listen_ms is gone; an old card carrying it still parses.
    assert_eq!(parse("listen_ms = 900").unwrap(), RadioConfig::default());
}

#[test]
fn repeat_jitter_tracks_air_time() {
    let mut cfg = RadioConfig::default();
    let fast = cfg.repeat_jitter_ms();
    cfg.spreading_factor = 12;
    assert!(cfg.repeat_jitter_ms() > fast);
}

#[test]
fn ldro_and_timeouts_scale() {
    let mut cfg = RadioConfig::default();
    assert!(!cfg.ldro());
    assert_eq!(cfg.airtime_scale(), 1);

    cfg.spreading_factor = 12;
    assert!(cfg.ldro());
    assert_eq!(cfg.airtime_scale(), 32);
    assert!(cfg.tx_poll_timeout_ms() > 4_000);
    assert!(cfg.tx_chip_timeout_ms() > cfg.tx_poll_timeout_ms());

    cfg.bandwidth_khz = 62;
    assert!(cfg.ldro());
    assert_eq!(cfg.airtime_scale(), 64);

    cfg.spreading_factor = 11;
    cfg.bandwidth_khz = 125;
    assert!(cfg.ldro());
    cfg.spreading_factor = 10;
    assert!(!cfg.ldro());
}

#[test]
fn beacon_fields_default_to_position_only() {
    let cfg = RadioConfig::default();
    assert_eq!(cfg.beacon_fields, lora::FIELD_LAT | lora::FIELD_LON);
    assert_eq!(lora::position_msg_len(cfg.beacon_fields), 10);
}

#[test]
fn beacon_fields_parse() {
    let mask = parse("fields = \"lat,lon,altitude,time\"").unwrap().beacon_fields;
    assert_eq!(
        mask,
        lora::FIELD_LAT | lora::FIELD_LON | lora::FIELD_ALT | lora::FIELD_TIME
    );
    // Whitespace, the short spellings and the aliased key all work.
    assert_eq!(
        parse("beacon_fields = \"lat, lon, alt\"").unwrap().beacon_fields,
        lora::FIELD_LAT | lora::FIELD_LON | lora::FIELD_ALT
    );
    assert_eq!(parse("fields = \"lat,lon\"").unwrap(), RadioConfig::default());
}

#[test]
fn beacon_fields_reject_nonsense() {
    // Unknown field name.
    assert_eq!(parse("fields = \"lat,lon,heading\""), Err(ConfigError::BadValue(1)));
    // A broadcast without a position is not a position broadcast.
    assert_eq!(parse("fields = \"altitude\""), Err(ConfigError::OutOfRange(1)));
    assert_eq!(parse("fields = \"lat\""), Err(ConfigError::OutOfRange(1)));
    assert_eq!(parse("fields = \"\""), Err(ConfigError::BadValue(1)));
}

#[test]
fn tcxo_and_regulator_defaults_match_the_wio_e5() {
    let cfg = RadioConfig::default();
    assert!(cfg.dcdc_enabled);
    assert_eq!(cfg.tcxo_volts, TcxoVolts::V1_8);
    assert_eq!(cfg.tcxo_volts.trim(), 0x2);
    assert_eq!(cfg.tcxo_startup_ms, 10);
}

#[test]
fn tcxo_and_regulator_parse() {
    assert!(!parse("dcdc_enabled = false").unwrap().dcdc_enabled);
    assert_eq!(parse("tcxo_volts = \"3.3\"").unwrap().tcxo_volts, TcxoVolts::V3_3);
    assert_eq!(parse("tcxo_volts = \"1.6\"").unwrap().tcxo_volts.trim(), 0x0);
    assert_eq!(parse("tcxo_startup_ms = 50").unwrap().tcxo_startup_ms, 50);
    // A voltage the chip has no trim setting for is a typo, not a
    // value to round to the nearest one.
    assert_eq!(parse("tcxo_volts = \"3.0V\""), Err(ConfigError::BadValue(1)));
    assert_eq!(parse("tcxo_volts = \"5.0\""), Err(ConfigError::BadValue(1)));
    assert_eq!(parse("tcxo_startup_ms = 0"), Err(ConfigError::OutOfRange(1)));
    assert_eq!(parse("tcxo_startup_ms = 2000"), Err(ConfigError::OutOfRange(1)));
}

#[test]
fn sd_can_be_disabled() {
    assert!(RadioConfig::default().sd_enabled);
    assert!(!parse("sd_enabled = false").unwrap().sd_enabled);
    assert_eq!(parse("sd_enabled = yes"), Err(ConfigError::BadValue(1)));
}

#[test]
fn gps_defaults_when_section_absent() {
    assert_eq!(parse("frequency_hz = 915000000").unwrap().gps, GpsConfig::default());
}

#[test]
fn gps_section() {
    let toml = r#"
        [gps]
        gps_enabled = true
        glonass_enabled = true
        galileo_enabled = false
        beidou_enabled = false
        qzss_enabled = false
        sbas_enabled = false
        power_mode = "psmoo"
        meas_rate_ms = 500
        dynamic_model = "airborne2g"
    "#;
    let g = parse(toml).unwrap().gps;
    assert!(g.gps_enabled);
    assert!(g.glonass_enabled);
    assert!(!g.galileo_enabled);
    assert!(!g.sbas_enabled);
    assert_eq!(g.power_mode, PowerMode::PsmOnOff);
    assert_eq!(g.power_mode.operate_mode(), 1);
    assert_eq!(g.meas_rate_ms, 500);
    assert_eq!(g.dyn_model, DynModel::Airborne2g);
    assert_eq!(g.dyn_model.dynmodel(), 7);
}

#[test]
fn rejects_bad_gps_input() {
    assert_eq!(parse("gps_enabled = maybe"), Err(ConfigError::BadValue(1)));
    assert_eq!(parse("power_mode = \"turbo\""), Err(ConfigError::BadValue(1)));
    assert_eq!(parse("dynamic_model = spaceship"), Err(ConfigError::BadValue(1)));
    assert_eq!(parse("meas_rate_ms = 10"), Err(ConfigError::OutOfRange(1)));
    assert_eq!(parse("meas_rate_ms = 20000"), Err(ConfigError::OutOfRange(1)));
}

#[test]
fn rejects_bad_input() {
    assert_eq!(parse("frequency_hz = maybe"), Err(ConfigError::BadValue(1)));
    assert_eq!(parse("spreading_factor = 13"), Err(ConfigError::OutOfRange(1)));
    assert_eq!(parse("bandwidth_khz = 100"), Err(ConfigError::OutOfRange(1)));
    assert_eq!(parse("power_dbm = 23"), Err(ConfigError::OutOfRange(1)));
    assert_eq!(parse("address = 0"), Err(ConfigError::OutOfRange(1)));
    assert_eq!(parse("rx_boost = 1"), Err(ConfigError::BadValue(1)));
    assert_eq!(parse("\nnot a kv line"), Err(ConfigError::Syntax(2)));
    assert_eq!(parse_bytes(&[0xFF, 0xFE]), Err(ConfigError::Utf8));
    // Unknown keys pass through untouched.
    assert!(parse("future_knob = 42").is_ok());
}

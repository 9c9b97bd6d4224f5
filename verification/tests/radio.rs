use midair::radio::{
    ImageBand, IrqFlags, RadioCommand, RecvEvent, RecvStep, SendEvent, SendStep, SetupStep,
    Sx1262Driver, Sx1262Error,
};
use midair::radiocfg::{RadioConfig, Role, TcxoVolts};

fn quiet() -> IrqFlags {
    IrqFlags { tx_done: false, rx_done: false, err: false, timeout: false }
}

fn command(steps: &[SetupStep], i: usize) -> RadioCommand {
    steps[i].command
}

#[test]
fn setup_follows_the_config() {
    let cfg = RadioConfig {
        frequency_hz: 915_000_000,
        spreading_factor: 7,
        bandwidth_khz: 125,
        coding_rate: 5,
        power_dbm: 22,
        rx_boost: true,
        dcdc_enabled: true,
        tcxo_volts: TcxoVolts::V1_7,
        tcxo_startup_ms: 10,
        ..RadioConfig::default()
    };
    let mut radio = Sx1262Driver::new();
    let steps = radio.init(&cfg);
    assert_eq!(steps.len(), 16);
    assert_eq!(command(&steps, 0), RadioCommand::Standby);
    assert_eq!(command(&steps, 1), RadioCommand::Regulator { smps: true });
    // 10 ms in steps of 15.625 us.
    assert_eq!(command(&steps, 2), RadioCommand::Tcxo { trim: 1, timeout: 640 });
    assert_eq!(command(&steps, 3), RadioCommand::CalibrateImage { band: ImageBand::Ism902 });
    assert_eq!(command(&steps, 4), RadioCommand::LoraPackets);
    // 915 MHz in steps of 32 MHz / 2^25.
    assert_eq!(command(&steps, 5), RadioCommand::Frequency { steps: 0x3930_0000 });
    assert_eq!(command(&steps, 6), RadioCommand::PowerAmp { duty_cycle: 4, hp_max: 7 });
    assert_eq!(command(&steps, 7), RadioCommand::TxPower { power: 22 });
    assert_eq!(command(&steps, 8), RadioCommand::RxGain { boost: true });
    assert_eq!(
        command(&steps, 9),
        RadioCommand::Modulation {
            spreading_factor: 7,
            bandwidth_khz: 125,
            coding_rate: 5,
            ldro: false
        }
    );
    assert_eq!(command(&steps, 10), RadioCommand::Packets { payload_len: 255 });
    assert_eq!(command(&steps, 15), RadioCommand::OverCurrent140);
    // Only the regulator, the fallback mode and the current limit may fail.
    let optional: Vec<usize> =
        steps.iter().enumerate().filter(|(_, s)| !s.required).map(|(i, _)| i).collect();
    assert_eq!(optional, vec![1, 14, 15]);
    assert!(radio.listen);
    assert_eq!(radio.tx_poll_timeout_ms, cfg.tx_poll_timeout_ms());
}

#[test]
fn setup_picks_band_and_slow_symbols() {
    let mut radio = Sx1262Driver::new();
    let cfg = RadioConfig {
        frequency_hz: 433_000_000,
        spreading_factor: 12,
        bandwidth_khz: 125,
        coding_rate: 8,
        power_dbm: -9,
        ..RadioConfig::default()
    };
    let steps = radio.init(&cfg);
    assert_eq!(command(&steps, 3), RadioCommand::CalibrateImage { band: ImageBand::Ism430 });
    assert_eq!(command(&steps, 7), RadioCommand::TxPower { power: 0xF7 });
    assert_eq!(
        command(&steps, 9),
        RadioCommand::Modulation {
            spreading_factor: 12,
            bandwidth_khz: 125,
            coding_rate: 8,
            ldro: true
        }
    );
    let cfg = RadioConfig { frequency_hz: 868_000_000, ..cfg };
    let steps = radio.init(&cfg);
    assert_eq!(command(&steps, 3), RadioCommand::CalibrateImage { band: ImageBand::Ism863 });
}

#[test]
fn a_good_packet_is_received() {
    let mut radio = Sx1262Driver::new();
    assert_eq!(radio.poll_recv(64, RecvEvent::Start), RecvStep::SetRx);
    assert_eq!(radio.poll_recv(64, RecvEvent::RxSet { ok: true }), RecvStep::ReadIrq);
    assert!(radio.rx_active);
    assert_eq!(radio.poll_recv(64, RecvEvent::Start), RecvStep::ReadIrq);
    assert_eq!(radio.poll_recv(64, RecvEvent::Irq { flags: Some(quiet()) }), RecvStep::Nothing);
    let done = IrqFlags { rx_done: true, ..quiet() };
    assert_eq!(
        radio.poll_recv(64, RecvEvent::Irq { flags: Some(done) }),
        RecvStep::ClearIrqReadStatus
    );
    assert_eq!(
        radio.poll_recv(64, RecvEvent::BufferStatus { reported: Some(24) }),
        RecvStep::ReadBuffer { len: 24 }
    );
    assert_eq!(
        radio.poll_recv(64, RecvEvent::BufferRead { len: 24, ok: true }),
        RecvStep::ReadPacketStatus { len: 24 }
    );
    assert_eq!(
        radio.poll_recv(64, RecvEvent::PacketStatus { len: 24, status: Some((-97, -10)) }),
        RecvStep::Packet { len: 24, rssi: -97 }
    );
    // A quarter of a decibel is 25 centibels.
    assert_eq!(radio.last_snr_cb(), -250);
}

#[test]
fn bad_and_oversized_packets_are_dropped() {
    let mut radio = Sx1262Driver::new();
    radio.poll_recv(64, RecvEvent::RxSet { ok: true });
    let bad = IrqFlags { rx_done: true, err: true, ..quiet() };
    assert_eq!(radio.poll_recv(64, RecvEvent::Irq { flags: Some(bad) }), RecvStep::ClearIrq);
    assert_eq!(radio.rx_crc_errors(), 1);
    assert_eq!(
        radio.poll_recv(64, RecvEvent::BufferStatus { reported: Some(65) }),
        RecvStep::Nothing
    );
    assert_eq!(radio.rx_oversize(), 1);
    // The receiver is armed again on the next poll.
    assert_eq!(radio.poll_recv(64, RecvEvent::Start), RecvStep::SetRx);
    radio.crc_errors = u32::MAX;
    radio.poll_recv(64, RecvEvent::Irq { flags: Some(bad) });
    assert_eq!(radio.rx_crc_errors(), u32::MAX);
}

#[test]
fn a_radio_that_does_not_answer_fails_the_poll() {
    let mut radio = Sx1262Driver::new();
    assert_eq!(radio.poll_recv(64, RecvEvent::RxSet { ok: false }), RecvStep::Fail);
    assert!(!radio.rx_active);
    assert_eq!(radio.poll_recv(64, RecvEvent::Irq { flags: None }), RecvStep::Fail);
    assert_eq!(radio.poll_recv(64, RecvEvent::BufferStatus { reported: None }), RecvStep::Fail);
    assert_eq!(radio.poll_recv(64, RecvEvent::BufferRead { len: 3, ok: false }), RecvStep::Fail);
    assert_eq!(
        radio.poll_recv(64, RecvEvent::PacketStatus { len: 3, status: None }),
        RecvStep::Fail
    );
}

#[test]
fn a_packet_is_sent() {
    let mut radio = Sx1262Driver::new();
    radio.poll_recv(64, RecvEvent::RxSet { ok: true });
    assert_eq!(radio.send(24, SendEvent::Start), SendStep::Standby);
    assert!(!radio.rx_active);
    assert_eq!(radio.send(24, SendEvent::StandbySet { ok: true }), SendStep::ClearIrqWriteBuffer);
    assert_eq!(
        radio.send(24, SendEvent::BufferWritten { ok: true }),
        SendStep::SetParams { payload_len: 24 }
    );
    // 750 ms in steps of 15.625 us.
    assert_eq!(
        radio.send(24, SendEvent::ParamsSet { ok: true }),
        SendStep::SetTx { timeout: 48_000 }
    );
    assert_eq!(radio.send(24, SendEvent::TxSet { ok: true }), SendStep::Poll);
    assert_eq!(
        radio.send(24, SendEvent::Poll { elapsed_ms: 1, flags: Some(quiet()) }),
        SendStep::Poll
    );
    let done = IrqFlags { tx_done: true, ..quiet() };
    assert_eq!(
        radio.send(24, SendEvent::Poll { elapsed_ms: 30, flags: Some(done) }),
        SendStep::ClearIrqRearm { listen: true, outcome: Ok(()) }
    );
    assert_eq!(
        radio.send(24, SendEvent::Rearmed { ok: true, outcome: Ok(()) }),
        SendStep::Done { outcome: Ok(()) }
    );
    assert!(radio.rx_active);
}

#[test]
fn a_send_ends_by_its_deadline() {
    let mut radio = Sx1262Driver::new();
    let late = SendEvent::Poll { elapsed_ms: 251, flags: Some(quiet()) };
    assert_eq!(
        radio.send(24, late),
        SendStep::ClearIrqRearm { listen: true, outcome: Err(Sx1262Error::Timeout) }
    );
    let chip = IrqFlags { timeout: true, ..quiet() };
    assert_eq!(
        radio.send(24, SendEvent::Poll { elapsed_ms: 5, flags: Some(chip) }),
        SendStep::ClearIrqRearm { listen: true, outcome: Err(Sx1262Error::Timeout) }
    );
    // A status that cannot be read is read again.
    assert_eq!(
        radio.send(24, SendEvent::Poll { elapsed_ms: 250, flags: None }),
        SendStep::Poll
    );
    let failed = SendStep::Done { outcome: Err(Sx1262Error::Radio) };
    assert_eq!(radio.send(24, SendEvent::StandbySet { ok: false }), failed);
    assert_eq!(radio.send(24, SendEvent::TxSet { ok: false }), failed);
}

#[test]
fn a_transmit_only_node_never_listens() {
    let mut radio = Sx1262Driver::new();
    radio.init(&RadioConfig { role: Role::TxOnly, ..RadioConfig::default() });
    assert_eq!(radio.poll_recv(64, RecvEvent::Start), RecvStep::Nothing);
    let done = IrqFlags { tx_done: true, ..quiet() };
    assert_eq!(
        radio.send(24, SendEvent::Poll { elapsed_ms: 30, flags: Some(done) }),
        SendStep::ClearIrqRearm { listen: false, outcome: Ok(()) }
    );
    radio.send(24, SendEvent::Rearmed { ok: true, outcome: Ok(()) });
    assert!(!radio.rx_active);
    radio.rx_active = true;
    radio.standby();
    assert!(!radio.rx_active);
    radio.rx_active = true;
    radio.sleep();
    assert!(!radio.rx_active);
    assert_eq!(radio.max_packet_len(), 255);
}

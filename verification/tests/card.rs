use midair::position::Position;
use midair::sdcard::{
    accepted, command_frame, csd_capacity_blocks, data_response, not_busy, response, start_token,
    InitEvent, InitStep, SdCard, SdError, SdKind, Wait, R1_TRIES,
};
use midair::sdlog::{
    format_line, ConfigEvent, ConfigStep, FlushEvent, FlushStep, MountEvent, MountStep, ReadEvent,
    ReadStep, SdLog, SdStep, CONFIG_FILE, FLUSH_MS, LOG_FILE, LOG_HEADER, PENDING_LEN, RETRY_MS,
};

#[test]
fn commands_are_framed() {
    assert_eq!(command_frame(0, 0), [0x40, 0, 0, 0, 0, 0x95]);
    assert_eq!(command_frame(8, 0x1AA), [0x48, 0, 0, 1, 0xAA, 0x87]);
    assert_eq!(command_frame(17, 0x0102_0304), [0x51, 1, 2, 3, 4, 0x01]);
}

#[test]
fn waits_end() {
    assert_eq!(response(0xFF, 0), Wait::Again);
    assert_eq!(response(0x01, 3), Wait::Ready(0x01));
    assert_eq!(response(0xFF, R1_TRIES - 1), Wait::Failed(SdError::Timeout));
    assert_eq!(start_token(0xFE, 500, 200), Wait::Ready(0xFE));
    assert_eq!(start_token(0xFF, 200, 200), Wait::Again);
    assert_eq!(start_token(0xFF, 201, 200), Wait::Failed(SdError::Timeout));
    assert_eq!(start_token(0x08, 0, 200), Wait::Failed(SdError::Response(0x08)));
    assert_eq!(not_busy(0xFF, 900, 500), Wait::Ready(0xFF));
    assert_eq!(not_busy(0x00, 500, 500), Wait::Again);
    assert_eq!(not_busy(0x00, 501, 500), Wait::Failed(SdError::Timeout));
    assert_eq!(data_response(0xE5), Ok(()));
    assert_eq!(data_response(0xEB), Err(SdError::Response(0x0B)));
    assert_eq!(accepted(0), Ok(()));
    assert_eq!(accepted(4), Err(SdError::Response(4)));
}

/// C_SIZE 15159: an 8 GB card.
fn csd_v2() -> [u8; 16] {
    let mut csd = [0u8; 16];
    csd[0] = 0x40;
    csd[8] = 0x3B;
    csd[9] = 0x37;
    csd
}

#[test]
fn capacity_is_read() {
    assert_eq!(csd_capacity_blocks(&csd_v2()), 15160 * 1024);
    // READ_BL_LEN 10, C_SIZE 3751, C_SIZE_MULT 7: a 2 GB card.
    let mut csd = [0u8; 16];
    csd[5] = 0x0A;
    csd[6] = 0x03;
    csd[7] = 0xA9;
    csd[8] = 0xC0;
    csd[9] = 0x03;
    csd[10] = 0x80;
    assert_eq!(csd_capacity_blocks(&csd), 3752 * 512 * 2);
}

fn r1(value: u8) -> InitEvent {
    InitEvent::R1 { r1: value, elapsed_ms: 0 }
}

#[test]
fn a_high_capacity_card_comes_up() {
    let mut sd = SdCard::new();
    sd.begin_init();
    assert_eq!(sd.init(InitEvent::Clocked), InitStep::Select { cmd: 0, arg: 0 });
    assert_eq!(sd.init(r1(0xFE)), InitStep::Command { cmd: 0, arg: 0 });
    assert_eq!(sd.init(r1(0x01)), InitStep::Command { cmd: 8, arg: 0x1AA });
    assert_eq!(sd.init(r1(0x01)), InitStep::ReadWord);
    assert_eq!(
        sd.init(InitEvent::Word([0, 0, 1, 0xAA])),
        InitStep::Command { cmd: 55, arg: 0 }
    );
    assert_eq!(sd.init(r1(0x01)), InitStep::Command { cmd: 41, arg: 0x4000_0000 });
    assert_eq!(sd.init(r1(0x01)), InitStep::Command { cmd: 55, arg: 0 });
    assert_eq!(sd.init(r1(0x01)), InitStep::Command { cmd: 41, arg: 0x4000_0000 });
    assert_eq!(sd.init(r1(0x00)), InitStep::Command { cmd: 58, arg: 0 });
    assert_eq!(sd.init(r1(0x00)), InitStep::ReadWord);
    assert_eq!(
        sd.init(InitEvent::Word([0xC0, 0xFF, 0x80, 0])),
        InitStep::Select { cmd: 9, arg: 0 }
    );
    assert_eq!(sd.init(r1(0x00)), InitStep::ReadRegister);
    assert_eq!(
        sd.init(InitEvent::Register(csd_v2())),
        InitStep::Done { kind: SdKind::Sdhc, blocks: 15160 * 1024 }
    );
    assert!(sd.ready());
    assert_eq!((sd.kind(), sd.num_blocks()), (Some(SdKind::Sdhc), 15160 * 1024));
    assert_eq!(sd.block_addr(7), Ok(7));
    assert_eq!(sd.read_block(7), Ok((17, 7)));
    sd.deinit();
    assert_eq!(sd.write_block(7), Err(SdError::NotInitialized));
}

#[test]
fn an_old_card_comes_up() {
    let mut sd = SdCard::new();
    sd.begin_init();
    sd.init(InitEvent::Clocked);
    sd.init(r1(0x01));
    // CMD8 is unknown to it.
    assert_eq!(sd.init(r1(0x05)), InitStep::Command { cmd: 55, arg: 0 });
    assert_eq!(sd.init(r1(0x01)), InitStep::Command { cmd: 41, arg: 0 });
    assert_eq!(sd.init(r1(0x00)), InitStep::Command { cmd: 16, arg: 512 });
    assert_eq!(sd.init(r1(0x00)), InitStep::Select { cmd: 9, arg: 0 });
    sd.init(r1(0x00));
    assert!(matches!(
        sd.init(InitEvent::Register([0; 16])),
        InitStep::Done { kind: SdKind::Sd1, .. }
    ));
    assert_eq!(sd.block_addr(7), Ok(7 * 512));
    assert_eq!(sd.write_block(2), Ok((24, 1024)));
}

#[test]
fn a_card_that_does_not_come_up_is_given_up() {
    let mut sd = SdCard::new();
    sd.begin_init();
    sd.init(InitEvent::Clocked);
    let mut last = InitStep::ReadWord;
    for _ in 0..32 {
        last = sd.init(r1(0x3F));
    }
    assert_eq!(last, InitStep::Fail(SdError::Response(0x3F)));
    sd.begin_init();
    sd.init(InitEvent::Clocked);
    sd.init(r1(0x01));
    sd.init(r1(0x05));
    sd.init(r1(0x01));
    assert_eq!(
        sd.init(InitEvent::R1 { r1: 0x01, elapsed_ms: 1001 }),
        InitStep::Fail(SdError::Timeout)
    );
    sd.begin_init();
    assert_eq!(sd.init(InitEvent::Failed(SdError::Spi)), InitStep::Fail(SdError::Spi));
    sd.begin_init();
    sd.init(InitEvent::Clocked);
    sd.init(r1(0x01));
    sd.init(r1(0x01));
    assert_eq!(
        sd.init(InitEvent::Word([0, 0, 1, 0x55])),
        InitStep::Fail(SdError::Response(0x55))
    );
    assert!(!sd.ready());
}

fn here() -> Position {
    Position {
        lat_e7: 481_173_000,
        lon_e7: -1_226_760_000,
        alt_dm: -12,
        speed_cms: 3,
        course_cdeg: 35999,
        fix: true,
        other_flags: 0,
        sats: 7,
        tod_ms: 0,
    }
}

#[test]
fn log_lines_are_written_as_csv() {
    let line = format_line(4_294_967_295, 3, -97, &here());
    assert_eq!(
        String::from_utf8(line).unwrap(),
        "4294967295,3,481173000,-1226760000,-12,3,35999,7,1,-97\n"
    );
    assert_eq!(format_line(0, 0, 0, &Position::default()), b"0,0,0,0,0,0,0,0,0,0\n");
    assert!(LOG_HEADER.starts_with("ms,src,lat_e7") && LOG_HEADER.ends_with(",rssi\n"));
    assert_eq!((LOG_FILE, CONFIG_FILE), ("GPSLOG.CSV", "RADIO.CFG"));
}

fn mounted(found: bool) -> SdLog {
    let mut log = SdLog::new();
    assert_eq!(log.poll(5), SdStep::Mount);
    assert_eq!(log.mount(MountEvent::CardInit { ok: true }), MountStep::OpenVolume);
    assert_eq!(log.mount(MountEvent::VolumeOpened { ok: true }), MountStep::OpenRoot);
    assert_eq!(log.mount(MountEvent::RootOpened { ok: true }), MountStep::LookUpLog);
    assert_eq!(log.mount(MountEvent::LogLookedUp { found }), MountStep::Mounted);
    assert!(log.ready());
    log
}

#[test]
fn a_new_log_starts_with_its_header() {
    let mut log = mounted(false);
    assert_eq!(log.poll(10), SdStep::Nothing);
    log.log_position(10, 0, 0, &here());
    assert_eq!(log.poll(10), SdStep::Flush);
    assert_eq!(log.flush(10, FlushEvent::Opened { ok: true }), FlushStep::WriteHeader);
    assert_eq!(log.flush(10, FlushEvent::HeaderWritten { ok: true }), FlushStep::WriteLines);
    assert_eq!(log.flush(10, FlushEvent::LinesWritten { ok: true }), FlushStep::Close);
    assert_eq!(log.flush(10, FlushEvent::Closed { ok: true }), FlushStep::Done);
    assert!(log.pending().is_empty());
    // The next flush waits its turn and has no header.
    log.log_position(11, 0, 0, &here());
    assert_eq!(log.poll(10 + FLUSH_MS - 1), SdStep::Nothing);
    assert_eq!(log.poll(10 + FLUSH_MS), SdStep::Flush);
    assert_eq!(log.flush(20_000, FlushEvent::Opened { ok: true }), FlushStep::WriteLines);
}

#[test]
fn a_failed_flush_keeps_its_lines() {
    let mut log = mounted(true);
    log.log_position(10, 0, 0, &here());
    let lines = log.pending().to_vec();
    log.poll(10);
    assert_eq!(log.flush(10, FlushEvent::Opened { ok: true }), FlushStep::WriteLines);
    assert_eq!(log.flush(10, FlushEvent::LinesWritten { ok: false }), FlushStep::Close);
    assert_eq!(log.flush(10, FlushEvent::Closed { ok: true }), FlushStep::Unmount);
    assert_eq!(log.pending(), &lines[..]);
    assert!(!log.ready());
    assert_eq!(log.poll(10 + RETRY_MS - 1), SdStep::Nothing);
    assert_eq!(log.poll(10 + RETRY_MS), SdStep::Mount);
}

#[test]
fn a_config_is_saved_or_the_card_dropped() {
    let steps = [
        ConfigEvent::Start,
        ConfigEvent::Opened { ok: true },
        ConfigEvent::Written { ok: true },
        ConfigEvent::Closed { ok: true },
    ];
    let mut log = mounted(true);
    let taken: Vec<ConfigStep> = steps.iter().map(|e| log.write_config(7, *e)).collect();
    assert_eq!(
        taken,
        [ConfigStep::Open, ConfigStep::Write, ConfigStep::Close, ConfigStep::Saved]
    );
    assert!(log.ready());
    // A failed write still closes the file, then gives the card up.
    log.write_config(7, ConfigEvent::Opened { ok: true });
    assert_eq!(log.write_config(7, ConfigEvent::Written { ok: false }), ConfigStep::Close);
    assert_eq!(log.write_config(7, ConfigEvent::Closed { ok: true }), ConfigStep::Unmount);
    assert!(!log.ready());
    assert_eq!(log.write_config(8, ConfigEvent::Start), ConfigStep::NoCard);
    assert_eq!(log.poll(7 + RETRY_MS - 1), SdStep::Nothing);
    assert_eq!(log.poll(7 + RETRY_MS), SdStep::Mount);
    let mut log = mounted(true);
    assert_eq!(log.write_config(7, ConfigEvent::Opened { ok: false }), ConfigStep::Unmount);
    assert!(!log.ready());
}

#[test]
fn a_config_is_read_where_there_is_one() {
    let log = mounted(true);
    assert_eq!(log.read_config(ReadEvent::Start), ReadStep::Open);
    assert_eq!(log.read_config(ReadEvent::Opened { ok: true }), ReadStep::Read);
    assert_eq!(
        log.read_config(ReadEvent::Read { len: Some(12) }),
        ReadStep::Close { len: Some(12) }
    );
    assert_eq!(log.read_config(ReadEvent::Read { len: None }), ReadStep::Close { len: None });
    assert_eq!(log.read_config(ReadEvent::Opened { ok: false }), ReadStep::Absent);
    assert!(log.ready());
    assert_eq!(SdLog::new().read_config(ReadEvent::Start), ReadStep::Absent);
}

#[test]
fn a_card_without_a_volume_is_forgotten() {
    let mut log = SdLog::new();
    assert_eq!(log.mount(MountEvent::CardInit { ok: false }), MountStep::GiveUp);
    assert_eq!(log.mount(MountEvent::VolumeOpened { ok: false }), MountStep::Forget);
    assert_eq!(log.mount(MountEvent::RootOpened { ok: false }), MountStep::CloseVolume);
    assert!(!log.ready());
}

#[test]
fn a_full_buffer_drops_its_oldest_half() {
    let mut log = mounted(true);
    let line = format_line(1, 2, -3, &here());
    for _ in 0..PENDING_LEN / line.len() + 1 {
        log.log_position(1, 2, -3, &here());
    }
    assert!(log.pending().len() <= PENDING_LEN);
    assert!(log.pending().ends_with(&line));
    assert!(log.pending().len() < PENDING_LEN * 3 / 4);
    // Half full already calls for a flush.
    assert_eq!(log.poll(1), SdStep::Flush);
}

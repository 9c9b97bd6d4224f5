use midair::cfgstore::{
    boot_config, next_step, read, CfgWrite, StoreStep, HEADER_LEN, MAX_LEN, PAGE_LEN,
};
use midair::cfgxfer::{CfgEvent, CfgTransfer, CONFIG_MAX};
use midair::link::{crc32, err};
use midair::radiocfg::RadioConfig;

const ERASED: [u8; PAGE_LEN] = [0xFF; PAGE_LEN];

fn stored(text: &[u8]) -> [u8; PAGE_LEN] {
    let mut page = ERASED;
    match midair::cfgstore::write(&page, text) {
        CfgWrite::Program { header } => {
            page[..HEADER_LEN].copy_from_slice(&header);
            page[HEADER_LEN..HEADER_LEN + text.len()].copy_from_slice(text);
        }
        other => panic!("{other:?}"),
    }
    page
}

#[test]
fn a_stored_config_reads_back() {
    let text = b"address = 7\n";
    let page = stored(text);
    assert_eq!(page[..8], [0x31, 0x43, 0x46, 0x47, 12, 0, 0, 0]);
    assert_eq!(page[8..12], crc32(text).to_le_bytes());
    let mut buf = [0u8; 64];
    assert_eq!(read(&page, &mut buf), Some(text.len()));
    assert_eq!(&buf[..text.len()], text);
    assert!(midair::cfgstore::matches(&page, text));
    assert!(!midair::cfgstore::matches(&page, b"address = 8\n"));
    assert_eq!(read(&page, &mut buf[..5]), None);
    // The same text again is not rewritten.
    assert_eq!(midair::cfgstore::write(&page, text), CfgWrite::Unchanged);
    assert!(matches!(midair::cfgstore::write(&page, b"x"), CfgWrite::Program { .. }));
    assert_eq!(midair::cfgstore::write(&page, b""), CfgWrite::Refused);
    assert_eq!(midair::cfgstore::write(&page, &[0; MAX_LEN + 1]), CfgWrite::Refused);
}

#[test]
fn a_config_is_programmed_text_first() {
    let mut step = StoreStep::Erase;
    let mut taken = Vec::new();
    while !matches!(step, StoreStep::Finished { .. }) {
        taken.push(step);
        step = next_step(step, true);
    }
    assert_eq!(taken, [StoreStep::Erase, StoreStep::ProgramText, StoreStep::ProgramHeader]);
    assert_eq!(step, StoreStep::Finished { stored: true });
    for failed in taken {
        assert_eq!(next_step(failed, false), StoreStep::Finished { stored: false });
    }
    assert_eq!(next_step(step, false), step);
}

#[test]
fn a_half_written_page_reads_as_nothing() {
    let mut buf = [0u8; 64];
    assert_eq!(read(&ERASED, &mut buf), None);
    let mut page = stored(b"address = 7\n");
    page[..HEADER_LEN].fill(0xFF);
    assert_eq!(read(&page, &mut buf), None);
}

#[test]
fn a_damaged_text_reads_as_nothing() {
    let page = stored(b"address = 7\n");
    let mut buf = [0u8; 64];
    for k in 0..12 {
        let mut bad = page;
        bad[HEADER_LEN + k] ^= 0x10;
        assert_eq!(read(&bad, &mut buf), None);
    }
}

#[test]
fn the_card_wins_over_flash() {
    let page = stored(b"[mesh]\naddress = 7\n");
    let (cfg, loaded) = boot_config(Some(b"[mesh]\naddress = 9\n"), &page);
    assert_eq!((cfg.address, loaded), (9, true));
    let (cfg, loaded) = boot_config(None, &page);
    assert_eq!((cfg.address, loaded), (7, true));
    let (cfg, loaded) = boot_config(Some(b"address = "), &page);
    assert_eq!((cfg.address, loaded), (7, true));
    // One that turns the card off comes back too, from either place.
    let off = b"sd_enabled = false\n";
    let (cfg, loaded) = boot_config(Some(off), &page);
    assert!(!cfg.sd_enabled && loaded);
    let (cfg, loaded) = boot_config(None, &stored(off));
    assert!(!cfg.sd_enabled && loaded);
    assert_eq!(boot_config(None, &ERASED), (RadioConfig::default(), false));
    let junk = stored(b"address = ");
    assert_eq!(boot_config(None, &junk), (RadioConfig::default(), false));
}

fn part(seq: u16, bytes: &[u8]) -> Vec<u8> {
    let mut p = seq.to_le_bytes().to_vec();
    p.extend_from_slice(bytes);
    p
}

#[test]
fn a_config_transfer_completes() {
    let text = b"address = 7\nrole = \"leaf\"\n";
    let mut t = CfgTransfer::new();
    assert_eq!(t.begin(&(text.len() as u16).to_le_bytes()), CfgEvent::Ack(0));
    assert_eq!(t.data(&part(0, &text[..10])), CfgEvent::Ack(1));
    // A repeated chunk is acknowledged again and counts once.
    assert_eq!(t.data(&part(0, &text[..10])), CfgEvent::Ack(1));
    assert_eq!(t.data(&part(1, &text[10..])), CfgEvent::Ack(2));
    assert_eq!(t.end(&crc32(text).to_le_bytes()), CfgEvent::Complete);
    assert_eq!(t.bytes(), text);
}

#[test]
fn config_transfers_are_checked() {
    let mut t = CfgTransfer::new();
    assert_eq!(t.data(&part(0, &[1])), CfgEvent::Error(err::INVALID_STATE));
    assert_eq!(t.end(&[0; 4]), CfgEvent::Error(err::INVALID_STATE));
    assert_eq!(t.begin(&[1]), CfgEvent::Error(err::BAD_FRAME));
    assert_eq!(t.begin(&[0, 0]), CfgEvent::Error(err::BAD_SIZE));
    assert_eq!(
        t.begin(&(CONFIG_MAX as u16 + 1).to_le_bytes()),
        CfgEvent::Error(err::BAD_SIZE)
    );
    assert_eq!(t.begin(&[2, 0]), CfgEvent::Ack(0));
    assert_eq!(t.data(&part(5, &[1])), CfgEvent::Error(err::BAD_SEQ));
    assert_eq!(t.data(&part(0, &[1, 2])), CfgEvent::Ack(1));
    assert_eq!(t.end(&[1, 2, 3, 4]), CfgEvent::Error(err::CRC_MISMATCH));
}

use midair::boot_state::{
    self, confirm_boot, read_progress, record, request_swap, BOOT_OK, NO_PROGRESS, PAGE_COPIED,
    PAGE_SAVED, REVERT_PENDING, SWAP_COMPLETE, SWAP_PENDING,
};
use midair::bootloader::{
    boot, erase_control, page_of, program_words, resume_swap, revert_partitions, swap_partitions,
    FlashOp, ACTIVE_BASE, ACTIVE_PAGE, ACTIVE_PAGES, DFU_BASE, DFU_PAGE, SCRATCH_PAGE,
};
use midair::fwupdate::{FwEvent, FwUpdate, DFU_PAGE_START, MAX_FW_SIZE, PAGE_SIZE};
use midair::link::{crc32, err};

/// Flash pages, one number each, and the boot state.
#[derive(Clone, PartialEq, Debug)]
struct Flash {
    pages: Vec<u32>,
    state: u32,
    progress: u32,
}

impl Flash {
    fn new(state: u32, progress: u32) -> Self {
        Flash { pages: (0..128).collect(), state, progress }
    }

    fn apply(&mut self, op: &FlashOp) {
        match *op {
            FlashOp::CopyPage { from, to } => self.pages[to as usize] = self.pages[from as usize],
            FlashOp::WriteState { state, progress } => {
                self.state = state;
                self.progress = progress;
            }
        }
    }

    fn boot(&mut self) {
        for op in boot(self.state, self.progress) {
            self.apply(&op);
        }
    }

    fn active(&self) -> &[u32] {
        &self.pages[ACTIVE_PAGE as usize..(ACTIVE_PAGE + ACTIVE_PAGES) as usize]
    }

    fn dfu(&self) -> &[u32] {
        &self.pages[DFU_PAGE as usize..(DFU_PAGE + ACTIVE_PAGES) as usize]
    }
}

fn numbers(from: u32) -> Vec<u32> {
    (from..from + ACTIVE_PAGES).collect()
}

#[test]
fn partitions_lie_where_they_should() {
    assert_eq!(page_of(ACTIVE_BASE), ACTIVE_PAGE);
    assert_eq!(page_of(DFU_BASE), DFU_PAGE);
    assert_eq!(page_of(DFU_BASE + 56 * 2048), SCRATCH_PAGE);
    assert_eq!(page_of(DFU_BASE + 1), DFU_PAGE);
}

#[test]
fn a_pending_swap_exchanges_the_partitions() {
    let mut f = Flash::new(SWAP_PENDING, NO_PROGRESS);
    f.boot();
    assert_eq!(f.state, SWAP_COMPLETE);
    assert_eq!(f.active(), numbers(DFU_PAGE));
    assert_eq!(f.dfu(), numbers(ACTIVE_PAGE));
    assert_eq!(swap_partitions(ACTIVE_PAGES), vec![]);
    assert_eq!(swap_partitions(0).len(), 6 * ACTIVE_PAGES as usize);
    assert_eq!(
        swap_partitions(ACTIVE_PAGES - 1),
        [
            FlashOp::CopyPage { from: 63, to: 120 },
            FlashOp::WriteState { state: PAGE_SAVED, progress: 55 },
            FlashOp::CopyPage { from: 119, to: 63 },
            FlashOp::WriteState { state: PAGE_COPIED, progress: 55 },
            FlashOp::CopyPage { from: 120, to: 119 },
            FlashOp::WriteState { state: SWAP_PENDING, progress: 56 },
        ]
    );
}

#[test]
fn a_swap_resumes_at_the_recorded_step() {
    let whole = swap_partitions(7);
    assert_eq!(resume_swap(SWAP_PENDING, 7), whole);
    assert_eq!(resume_swap(PAGE_SAVED, 7), whole[2..]);
    assert_eq!(resume_swap(PAGE_COPIED, 7), whole[4..]);
    assert_eq!(resume_swap(PAGE_COPIED, ACTIVE_PAGES), vec![]);
    assert_eq!(boot(PAGE_SAVED, 7).len(), whole.len() - 1);
}

/// Power lost after any operation, or in the midst of a copy.
#[test]
fn a_swap_survives_a_power_loss() {
    let ops = boot(SWAP_PENDING, NO_PROGRESS);
    for cut in 0..ops.len() {
        for torn in [false, true] {
            let mut f = Flash::new(SWAP_PENDING, NO_PROGRESS);
            for op in &ops[..cut] {
                f.apply(op);
            }
            if let (true, FlashOp::CopyPage { to, .. }) = (torn, ops[cut]) {
                f.pages[to as usize] = 9999;
            }
            f.boot();
            assert_eq!(f.state, SWAP_COMPLETE);
            assert_eq!(f.active(), numbers(DFU_PAGE));
            assert_eq!(f.dfu(), numbers(ACTIVE_PAGE));
        }
    }
}

#[test]
fn a_swap_survives_one_power_loss_after_another() {
    let mut f = Flash::new(SWAP_PENDING, NO_PROGRESS);
    let mut boots = 0;
    while f.state != SWAP_COMPLETE {
        // Enough for one copy and its record, and a copy that goes for nothing.
        for op in boot(f.state, f.progress).iter().take(3) {
            f.apply(op);
        }
        boots += 1;
    }
    assert_eq!(boots, 3 * ACTIVE_PAGES as usize);
    assert_eq!(f.active(), numbers(DFU_PAGE));
    assert_eq!(f.dfu(), numbers(ACTIVE_PAGE));
}

#[test]
fn an_unconfirmed_update_is_undone() {
    let mut f = Flash::new(SWAP_PENDING, NO_PROGRESS);
    f.boot();
    f.boot();
    assert_eq!(f.state, BOOT_OK);
    assert_eq!(f.active(), numbers(ACTIVE_PAGE));
    assert_eq!(boot(f.state, f.progress), vec![]);
    assert_eq!(revert_partitions(0).len(), 2 * ACTIVE_PAGES as usize);
}

#[test]
fn a_revert_resumes_where_it_stopped() {
    let mut swapped = Flash::new(SWAP_PENDING, NO_PROGRESS);
    swapped.boot();
    let ops = boot(swapped.state, swapped.progress);
    for cut in 0..=2 * ACTIVE_PAGES as usize {
        let mut f = swapped.clone();
        for op in &ops[..cut] {
            f.apply(op);
        }
        f.boot();
        assert_eq!(f.state, BOOT_OK);
        assert_eq!(f.active(), numbers(ACTIVE_PAGE));
    }
    assert_eq!(boot(REVERT_PENDING, 3), ops[2 * 3..]);
}

#[test]
fn a_confirmed_boot_changes_nothing() {
    assert_eq!(boot(BOOT_OK, NO_PROGRESS), vec![]);
    assert_eq!(boot(0xFFFF_FFFF, NO_PROGRESS), vec![]);
    assert_eq!(boot(0, 7), vec![]);
}

#[test]
fn boot_state_records_read_back() {
    let b = record(SWAP_PENDING, 7);
    assert_eq!(b, [0x50, 0x41, 0x57, 0x53, 7, 0, 0, 0]);
    assert_eq!((boot_state::read(&b), read_progress(&b)), (SWAP_PENDING, 7));
    assert_eq!(confirm_boot(BOOT_OK), None);
    assert_eq!(confirm_boot(SWAP_COMPLETE), Some(record(BOOT_OK, NO_PROGRESS)));
    assert_eq!(boot_state::write(BOOT_OK), [0x4B, 0x4F, 0x4B, 0x4F, 0xFF, 0xFF, 0xFF, 0xFF]);
    assert_eq!(request_swap(), record(SWAP_PENDING, NO_PROGRESS));
}

fn begin(fw: &mut FwUpdate, size: u32, crc: u32) -> FwEvent {
    let mut p = Vec::new();
    p.extend_from_slice(&size.to_le_bytes());
    p.extend_from_slice(&crc.to_le_bytes());
    p.extend_from_slice(&2u16.to_le_bytes());
    fw.begin(&p)
}

fn chunk(seq: u16, bytes: &[u8]) -> Vec<u8> {
    let mut p = seq.to_le_bytes().to_vec();
    p.extend_from_slice(bytes);
    p
}

/// Run a whole update, and give the staged bytes and the last event.
fn update(image: &[u8], crc: u32) -> (Vec<u8>, FwEvent) {
    let mut fw = FwUpdate::new();
    let mut staged = vec![0u8; MAX_FW_SIZE as usize];
    let mut write = |fw: &mut FwUpdate, page: u8| {
        let at = (page - DFU_PAGE_START) as usize * PAGE_SIZE;
        staged[at..at + PAGE_SIZE].copy_from_slice(&fw.page());
    };
    assert_eq!(begin(&mut fw, image.len() as u32, crc), FwEvent::Ack(0));
    for (i, part) in image.chunks(192).enumerate() {
        let mut event = fw.data(&chunk(i as u16, part));
        while let FwEvent::WritePage(page) = event {
            write(&mut fw, page);
            event = fw.page_written(true);
        }
        assert_eq!(event, FwEvent::Ack(i as u16 + 1));
        assert_eq!(
            fw.progress(),
            Some(((i * 192 + part.len()) as u32, image.len() as u32))
        );
    }
    let mut event = fw.end();
    while let FwEvent::WritePage(page) = event {
        write(&mut fw, page);
        event = fw.page_written(true);
    }
    assert_eq!(event, FwEvent::Verify(image.len() as u32));
    let event = fw.verify(&staged[..image.len()]);
    assert!(!fw.is_active());
    (staged, event)
}

#[test]
fn an_image_is_staged_and_verified() {
    for len in [1usize, 191, 192, 2047, 2048, 2049, 5000, 4096] {
        let image: Vec<u8> = (0..len).map(|i| (i * 7 % 251) as u8).collect();
        let (staged, event) = update(&image, crc32(&image));
        assert_eq!(event, FwEvent::Complete);
        assert_eq!(&staged[..len], &image[..]);
        // The rest of the last page is as erased.
        let end = len.div_ceil(PAGE_SIZE) * PAGE_SIZE;
        assert!(staged[len..end].iter().all(|&b| b == 0xFF));
    }
}

#[test]
fn a_wrong_checksum_is_refused() {
    let image = [1, 2, 3, 4];
    let (_, event) = update(&image, crc32(&image) ^ 1);
    assert_eq!(event, FwEvent::Error(err::CRC_MISMATCH));
}

#[test]
fn update_requests_are_checked() {
    let mut fw = FwUpdate::new();
    assert_eq!(fw.begin(&[0; 9]), FwEvent::Error(err::BAD_FRAME));
    assert_eq!(begin(&mut fw, 0, 0), FwEvent::Error(err::BAD_SIZE));
    assert_eq!(begin(&mut fw, MAX_FW_SIZE + 1, 0), FwEvent::Error(err::BAD_SIZE));
    assert_eq!(fw.data(&chunk(0, &[1])), FwEvent::Error(err::INVALID_STATE));
    assert_eq!(fw.end(), FwEvent::Error(err::INVALID_STATE));
    assert_eq!(begin(&mut fw, MAX_FW_SIZE, 0), FwEvent::Ack(0));
    assert_eq!(fw.data(&[0, 0]), FwEvent::Error(err::BAD_FRAME));
    assert_eq!(fw.data(&chunk(1, &[1])), FwEvent::Error(err::BAD_SEQ));
    assert_eq!(fw.data(&chunk(0, &[1])), FwEvent::Ack(1));
    // A repeated chunk is acknowledged again and counts once.
    assert_eq!(fw.data(&chunk(0, &[1])), FwEvent::Ack(1));
    assert_eq!(fw.progress(), Some((1, MAX_FW_SIZE)));
    assert_eq!(fw.end(), FwEvent::Error(err::BAD_SIZE));
    assert!(!fw.is_active());
    assert_eq!(begin(&mut fw, 2, 0), FwEvent::Ack(0));
    assert_eq!(fw.data(&chunk(0, &[1, 2, 3])), FwEvent::Error(err::BAD_SIZE));
    assert!(!fw.is_active());
    assert_eq!(begin(&mut fw, 2, 0), FwEvent::Ack(0));
    fw.abort();
    assert_eq!(fw.progress(), None);
}

#[test]
fn a_flash_error_ends_the_update() {
    let mut fw = FwUpdate::new();
    assert_eq!(begin(&mut fw, 1, 0), FwEvent::Ack(0));
    assert_eq!(fw.data(&chunk(0, &[9])), FwEvent::Ack(1));
    assert_eq!(fw.end(), FwEvent::WritePage(DFU_PAGE_START));
    assert_eq!(fw.page_written(false), FwEvent::Error(err::FLASH_ERROR));
    assert!(!fw.is_active());
}

#[test]
fn flash_is_erased_by_page_and_programmed_by_double_word() {
    assert_eq!(erase_control(0), (1 << 1) | (1 << 16));
    assert_eq!(erase_control(127), (1 << 1) | (127 << 3) | (1 << 16));
    let bytes: Vec<u8> = (1..=16).collect();
    assert_eq!(
        program_words(&bytes),
        [(0x0403_0201, 0x0807_0605), (0x0c0b_0a09, 0x100f_0e0d)]
    );
    assert!(program_words(&[]).is_empty());
}

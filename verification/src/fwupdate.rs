//! Firmware-update receiver: UART-fed DFU staging.
//!
//! The ESP32-C6 streams a new application image over the link
//! (FW_BEGIN / FW_DATA / FW_END). Chunks are buffered into a 2 KB page
//! and written into the DFU partition; on a CRC-verified FW_END
//! the boot state is set to SWAP_PENDING and the caller reboots into the
//! swap bootloader, which installs the image power-fail-safely. If the new
//! firmware never confirms boot, the bootloader reverts.
//!
//! The receiver does not touch the flash itself. Where it needs a page
//! written or the staged image read back, it says so in its event and goes on
//! when it is told the outcome.

use vstd::prelude::*;
use crate::link::{crc32, err};
use crate::wire::{get_u16, get_u32};

verus! {

/// Flash page size.
pub const PAGE_SIZE: usize = 2048;

/// First page of the DFU staging partition: pages 64-119 (56 data pages,
/// matching ACTIVE).
pub const DFU_PAGE_START: u8 = 64;

/// Maximum firmware size (ACTIVE partition = 112 KB = 56 pages).
pub const MAX_FW_SIZE: u32 = 56 * 2048;

/// What a step of a firmware update asks of the caller.
#[derive(Clone, Copy, Debug, PartialEq, Eq, Structural)]
pub enum FwEvent {
    /// Nothing special; ack with the next expected seq.
    Ack(u16),
    /// Transfer failed; NAK with this error code.
    Error(u8),
    /// Image verified - request the swap, ack, then reboot.
    Complete,
    /// Write [`FwUpdate::page`] to this flash page, then report with
    /// [`FwUpdate::page_written`].
    WritePage(u8),
    /// Hand this many staged bytes to [`FwUpdate::verify`].
    Verify(u32),
}

/// What an update under way waits for.
#[verifier::ext_equal]
pub enum Phase {
    /// The next command.
    Idle,
    /// A full page of the chunk `seq` to be written; `rest` of the chunk is
    /// still to go.
    Flushing { seq: u16, rest: Seq<u8> },
    /// The last page to be written.
    Finishing,
    /// The staged image to be verified.
    Verifying,
}

/// An update under way.
#[verifier::ext_equal]
pub struct Transfer {
    /// Announced size of the image.
    pub size: u32,
    /// Announced CRC-32 of the image.
    pub crc32: u32,
    pub next_seq: u16,
    /// Full pages that have been written.
    pub pages: nat,
    /// What has come in of the page after those.
    pub page: Seq<u8>,
    pub phase: Phase,
}

impl Transfer {
    /// Bytes of the image that have come in.
    pub open spec fn received(self) -> nat {
        self.pages * PAGE_SIZE as nat + self.page.len()
    }

    /// The bookkeeping of an update that can go on.
    pub open spec fn valid(self) -> bool {
        &&& 0 < self.size <= MAX_FW_SIZE
        &&& match self.phase {
            Phase::Idle => self.page.len() < PAGE_SIZE && self.received() <= self.size,
            Phase::Flushing { rest, .. } => self.page.len() == PAGE_SIZE && self.received()
                + rest.len() <= self.size,
            Phase::Finishing => 0 < self.page.len() < PAGE_SIZE && self.received() == self.size,
            Phase::Verifying => self.page.len() < PAGE_SIZE && self.received() == self.size,
        }
    }

    /// Take in the bytes `data` of chunk `seq`: a page that they fill has to
    /// be written before the rest.
    pub open spec fn absorb(self, seq: u16, data: Seq<u8>) -> (Transfer, FwEvent) {
        let all = self.page + data;
        if all.len() >= PAGE_SIZE {
            (
                Transfer {
                    page: all.take(PAGE_SIZE as int),
                    phase: Phase::Flushing { seq, rest: all.skip(PAGE_SIZE as int) },
                    ..self
                },
                FwEvent::WritePage((DFU_PAGE_START + self.pages) as u8),
            )
        } else {
            (
                Transfer {
                    page: all,
                    phase: Phase::Idle,
                    next_seq: seq.wrapping_add(1),
                    ..self
                },
                FwEvent::Ack(seq.wrapping_add(1)),
            )
        }
    }
}

/// The page that an update is at, as it is written: what has come in of it,
/// then erased flash.
pub open spec fn page_bytes(t: Transfer) -> Seq<u8> {
    Seq::new(
        PAGE_SIZE as nat,
        |i: int|
            if i < t.page.len() {
                t.page[i]
            } else {
                0xFF
            },
    )
}

/// What FW_BEGIN makes of an update.
pub open spec fn on_begin(t: Option<Transfer>, payload: Seq<u8>) -> (Option<Transfer>, FwEvent) {
    let size = crate::wire::u32_at(payload, 0);
    if payload.len() < 10 {
        (t, FwEvent::Error(err::BAD_FRAME))
    } else if size == 0 || size > MAX_FW_SIZE {
        (t, FwEvent::Error(err::BAD_SIZE))
    } else {
        (
            Some(
                Transfer {
                    size,
                    crc32: crate::wire::u32_at(payload, 4),
                    next_seq: 0,
                    pages: 0,
                    page: Seq::empty(),
                    phase: Phase::Idle,
                },
            ),
            FwEvent::Ack(0),
        )
    }
}

/// How far an update has come: the bytes received, out of those announced.
pub open spec fn progress_of(t: Option<Transfer>) -> Option<(u32, u32)> {
    match t {
        Some(u) => Some((u.received() as u32, u.size)),
        None => None,
    }
}

/// What FW_DATA makes of an update.
pub open spec fn on_data(t: Option<Transfer>, payload: Seq<u8>) -> (Option<Transfer>, FwEvent) {
    match t {
        None => (t, FwEvent::Error(err::INVALID_STATE)),
        Some(rx) => {
            let seq = crate::wire::u16_at(payload, 0);
            let data = payload.skip(2);
            if payload.len() < 3 {
                (t, FwEvent::Error(err::BAD_FRAME))
            } else if seq.wrapping_add(1) == rx.next_seq {
                // Duplicate (retransmit after a lost ack): re-ack, don't
                // rewrite.
                (t, FwEvent::Ack(rx.next_seq))
            } else if seq != rx.next_seq {
                (t, FwEvent::Error(err::BAD_SEQ))
            } else if rx.received() + data.len() > rx.size {
                (None, FwEvent::Error(err::BAD_SIZE))
            } else {
                (Some(rx.absorb(seq, data).0), rx.absorb(seq, data).1)
            }
        },
    }
}

/// What FW_END makes of an update.
pub open spec fn on_end(t: Option<Transfer>) -> (Option<Transfer>, FwEvent) {
    match t {
        None => (t, FwEvent::Error(err::INVALID_STATE)),
        Some(rx) => if rx.received() != rx.size {
            (None, FwEvent::Error(err::BAD_SIZE))
        } else if rx.page.len() > 0 {
            (
                Some(Transfer { phase: Phase::Finishing, ..rx }),
                FwEvent::WritePage((DFU_PAGE_START + rx.pages) as u8),
            )
        } else {
            (Some(Transfer { phase: Phase::Verifying, ..rx }), FwEvent::Verify(rx.size))
        },
    }
}

/// What the outcome of a page write makes of an update.
pub open spec fn on_page_written(t: Option<Transfer>, ok: bool) -> (Option<Transfer>, FwEvent) {
    match t {
        None => (t, FwEvent::Error(err::INVALID_STATE)),
        Some(rx) => if !ok {
            (None, FwEvent::Error(err::FLASH_ERROR))
        } else {
            match rx.phase {
                Phase::Flushing { seq, rest } => {
                    let next = Transfer { pages: rx.pages + 1, page: Seq::empty(), ..rx };
                    (Some(next.absorb(seq, rest).0), next.absorb(seq, rest).1)
                },
                _ => (Some(Transfer { phase: Phase::Verifying, ..rx }), FwEvent::Verify(rx.size)),
            }
        },
    }
}

/// What the check of the staged image makes of an update: it ends, completed
/// exactly if the image has the announced CRC-32.
pub open spec fn on_verify(t: Transfer, staged: Seq<u8>) -> FwEvent {
    if crate::link::crc32_of(staged) == t.crc32 {
        FwEvent::Complete
    } else {
        FwEvent::Error(err::CRC_MISMATCH)
    }
}

enum Waiting {
    Command,
    Page,
    LastPage,
    Check,
}

struct Receiving {
    size: u32,
    crc32: u32,
    next_seq: u16,
    current_page: u16,
    page: Vec<u8>,
    waiting: Waiting,
    seq: u16,
    rest: Vec<u8>,
}

impl View for Receiving {
    type V = Transfer;

    closed spec fn view(&self) -> Transfer {
        Transfer {
            size: self.size,
            crc32: self.crc32,
            next_seq: self.next_seq,
            pages: self.current_page as nat,
            page: self.page@,
            phase: match self.waiting {
                Waiting::Command => Phase::Idle,
                Waiting::Page => Phase::Flushing { seq: self.seq, rest: self.rest@ },
                Waiting::LastPage => Phase::Finishing,
                Waiting::Check => Phase::Verifying,
            },
        }
    }
}

impl Receiving {
    /// Take in more bytes of chunk `seq`.
    fn absorb(&mut self, seq: u16, data: &[u8]) -> (event: FwEvent)
        requires
            old(self)@.page.len() < PAGE_SIZE,
            old(self)@.received() + data@.len() <= old(self)@.size <= MAX_FW_SIZE,
            old(self)@.size > 0,
        ensures
            (final(self)@, event) == old(self)@.absorb(seq, data@),
            final(self)@.valid(),
    {
        let ghost before = self@;
        let ghost all = self.page@ + data@;
        let space: usize = PAGE_SIZE - self.page.len();
        if data.len() < space {
            self.page.extend_from_slice(data);
            self.waiting = Waiting::Command;
            self.next_seq = seq.wrapping_add(1);
            assert(self@ =~= before.absorb(seq, data@).0);
            return FwEvent::Ack(self.next_seq);
        }
        let head = &data[0..space];
        let tail = &data[space..data.len()];
        self.page.extend_from_slice(head);
        let mut rest: Vec<u8> = Vec::new();
        rest.extend_from_slice(tail);
        self.rest = rest;
        self.seq = seq;
        self.waiting = Waiting::Page;
        assert(self.page@ =~= all.take(PAGE_SIZE as int));
        assert(self.rest@ =~= all.skip(PAGE_SIZE as int));
        FwEvent::WritePage(DFU_PAGE_START + self.current_page as u8)
    }
}

/// UART firmware-update receiver state machine.
pub struct FwUpdate {
    state: Option<Receiving>,
}

impl View for FwUpdate {
    type V = Option<Transfer>;

    closed spec fn view(&self) -> Option<Transfer> {
        match self.state {
            Some(rx) => Some(rx@),
            None => None,
        }
    }
}

impl FwUpdate {
    /// The bookkeeping is in order.
    pub open spec fn wf(&self) -> bool {
        self@ matches Some(t) ==> t.valid()
    }

    /// No page write or check is outstanding.
    pub open spec fn settled(&self) -> bool {
        self@ matches Some(t) ==> t.phase is Idle
    }

    pub fn new() -> (u: Self)
        ensures
            u@ is None,
    {
        FwUpdate { state: None }
    }

    pub fn is_active(&self) -> (r: bool)
        ensures
            r == (self@ is Some),
    {
        self.state.is_some()
    }

    /// Progress as (received_bytes, total_bytes).
    pub fn progress(&self) -> (r: Option<(u32, u32)>)
        requires
            self.wf(),
        ensures
            r == progress_of(self@),
    {
        match &self.state {
            Some(rx) => Some(
                (rx.current_page as u32 * (PAGE_SIZE as u32) + rx.page.len() as u32, rx.size),
            ),
            None => None,
        }
    }

    pub fn abort(&mut self)
        ensures
            final(self)@ is None,
    {
        self.state = None;
    }

    /// FW_BEGIN: `[size u32le, crc32 u32le, version u16le]`.
    pub fn begin(&mut self, payload: &[u8]) -> (event: FwEvent)
        requires
            old(self).wf(),
            old(self).settled(),
        ensures
            (final(self)@, event) == on_begin(old(self)@, payload@),
            final(self).wf(),
            final(self).settled(),
    {
        if payload.len() < 10 {
            return FwEvent::Error(err::BAD_FRAME);
        }
        let size: u32 = get_u32(payload, 0);
        let crc: u32 = get_u32(payload, 4);
        if size == 0 || size > MAX_FW_SIZE {
            return FwEvent::Error(err::BAD_SIZE);
        }
        self.state = Some(
            Receiving {
                size,
                crc32: crc,
                next_seq: 0,
                current_page: 0,
                page: Vec::new(),
                waiting: Waiting::Command,
                seq: 0,
                rest: Vec::new(),
            },
        );
        FwEvent::Ack(0)
    }

    /// FW_DATA: `[seq u16le, bytes...]`.
    pub fn data(&mut self, payload: &[u8]) -> (event: FwEvent)
        requires
            old(self).wf(),
            old(self).settled(),
        ensures
            (final(self)@, event) == on_data(old(self)@, payload@),
            final(self).wf(),
    {
        let mut rx = match self.state.take() {
            None => {
                return FwEvent::Error(err::INVALID_STATE);
            },
            Some(rx) => rx,
        };
        if payload.len() < 3 {
            self.state = Some(rx);
            return FwEvent::Error(err::BAD_FRAME);
        }
        let seq: u16 = get_u16(payload, 0);
        let data = &payload[2..payload.len()];
        assert(data@ =~= payload@.skip(2));
        // Duplicate (retransmit after a lost ack): re-ack, don't rewrite.
        if seq.wrapping_add(1) == rx.next_seq {
            let again: u16 = rx.next_seq;
            self.state = Some(rx);
            return FwEvent::Ack(again);
        }
        if seq != rx.next_seq {
            self.state = Some(rx);
            return FwEvent::Error(err::BAD_SEQ);
        }
        let received: usize = rx.current_page as usize * PAGE_SIZE + rx.page.len();
        if data.len() > rx.size as usize - received {
            return FwEvent::Error(err::BAD_SIZE);
        }
        let event: FwEvent = rx.absorb(seq, data);
        self.state = Some(rx);
        event
    }

    /// FW_END: flush the last page, then verify the CRC32.
    pub fn end(&mut self) -> (event: FwEvent)
        requires
            old(self).wf(),
            old(self).settled(),
        ensures
            (final(self)@, event) == on_end(old(self)@),
            final(self).wf(),
    {
        let mut rx = match self.state.take() {
            None => {
                return FwEvent::Error(err::INVALID_STATE);
            },
            Some(rx) => rx,
        };
        let received: usize = rx.current_page as usize * PAGE_SIZE + rx.page.len();
        if received != rx.size as usize {
            return FwEvent::Error(err::BAD_SIZE);
        }
        let event: FwEvent = if rx.page.len() > 0 {
            rx.waiting = Waiting::LastPage;
            FwEvent::WritePage(DFU_PAGE_START + rx.current_page as u8)
        } else {
            rx.waiting = Waiting::Check;
            FwEvent::Verify(rx.size)
        };
        self.state = Some(rx);
        event
    }

    /// The page to write: what has come in of it, then erased flash.
    pub fn page(&self) -> (page: [u8; PAGE_SIZE])
        requires
            self.wf(),
            self@ is Some,
        ensures
            page@ == page_bytes(self@->0),
    {
        let mut page: [u8; PAGE_SIZE] = [0xFFu8;PAGE_SIZE];
        if let Some(rx) = &self.state {
            let mut i: usize = 0;
            while i < rx.page.len()
                invariant
                    i <= rx.page@.len() <= PAGE_SIZE,
                    self@ == Some(rx@),
                    forall|j: int|
                        0 <= j < PAGE_SIZE ==> #[trigger] page@[j] == if j < i {
                            rx.page@[j]
                        } else {
                            0xFF
                        },
                decreases rx.page@.len() - i,
            {
                page[i] = rx.page[i];
                i = i + 1;
            }
        }
        assert(page@ =~= page_bytes(self@->0));
        page
    }

    /// Go on after the page that an event asked for was written, or not.
    pub fn page_written(&mut self, ok: bool) -> (event: FwEvent)
        requires
            old(self).wf(),
            old(self)@ matches Some(t) ==> t.phase is Flushing || t.phase is Finishing,
        ensures
            (final(self)@, event) == on_page_written(old(self)@, ok),
            final(self).wf(),
    {
        let mut rx = match self.state.take() {
            None => {
                return FwEvent::Error(err::INVALID_STATE);
            },
            Some(rx) => rx,
        };
        if !ok {
            return FwEvent::Error(err::FLASH_ERROR);
        }
        let event: FwEvent = match rx.waiting {
            Waiting::Page => {
                let ghost before = rx@;
                let mut rest: Vec<u8> = Vec::new();
                rest.append(&mut rx.rest);
                let seq: u16 = rx.seq;
                rx.current_page = rx.current_page + 1;
                rx.page = Vec::new();
                rx.waiting = Waiting::Command;
                assert(rx@.absorb(seq, rest@) == (Transfer {
                    pages: before.pages + 1,
                    page: Seq::empty(),
                    ..before
                }).absorb(seq, rest@)) by {
                    assert(rx@.page =~= Seq::<u8>::empty());
                    assert(rx@.absorb(seq, rest@).0 =~= (Transfer {
                        pages: before.pages + 1,
                        page: Seq::empty(),
                        ..before
                    }).absorb(seq, rest@).0);
                }
                rx.absorb(seq, &rest)
            },
            _ => {
                rx.waiting = Waiting::Check;
                FwEvent::Verify(rx.size)
            },
        };
        self.state = Some(rx);
        event
    }

    /// Check the staged image against the announced CRC32, which ends the
    /// update either way.
    pub fn verify(&mut self, staged: &[u8]) -> (event: FwEvent)
        requires
            old(self).wf(),
            old(self)@ matches Some(t) && t.phase is Verifying && staged@.len() == t.size,
        ensures
            final(self)@ is None,
            event == on_verify(old(self)@->0, staged@),
    {
        match self.state.take() {
            None => FwEvent::Error(err::INVALID_STATE),
            Some(rx) => {
                if crc32(staged) == rx.crc32 {
                    FwEvent::Complete
                } else {
                    FwEvent::Error(err::CRC_MISMATCH)
                }
            },
        }
    }
}

// -- Laws ---------------------------------------------------------------------

/// The staging area holds the pages of the image written so far, and the
/// update holds the rest of what came in.
pub open spec fn stages(t: Transfer, staged: Seq<u8>, image: Seq<u8>) -> bool {
    let done = (t.pages * PAGE_SIZE) as int;
    &&& staged.len() == MAX_FW_SIZE
    &&& image.len() == t.received() <= MAX_FW_SIZE
    &&& staged.take(done) == image.take(done)
    &&& t.page == image.skip(done)
}

/// The staging area after the page of an update was written to its place.
pub open spec fn with_page(t: Transfer, staged: Seq<u8>) -> Seq<u8> {
    let at = (t.pages * PAGE_SIZE) as int;
    Seq::new(
        staged.len(),
        |i: int|
            if at <= i < at + PAGE_SIZE {
                if i - at < t.page.len() {
                    t.page[i - at]
                } else {
                    0xFF
                }
            } else {
                staged[i]
            },
    )
}

/// Taking in a chunk keeps the staging area and the update together in step
/// with the image: what came in is the image so far with the chunk's bytes
/// after it, up to the page that has to be written first.
pub proof fn law_chunk_extends_image(
    t: Transfer,
    staged: Seq<u8>,
    image: Seq<u8>,
    seq: u16,
    data: Seq<u8>,
)
    requires
        t.valid(),
        t.phase is Idle,
        stages(t, staged, image),
        t.received() + data.len() <= t.size,
    ensures
        ({
            let next = t.absorb(seq, data).0;
            let taken = data.len() - (match next.phase {
                Phase::Flushing { rest, .. } => rest.len() as int,
                _ => 0int,
            });
            &&& stages(next, staged, image + data.take(taken))
            &&& next.phase matches Phase::Flushing { rest, .. } ==> rest == data.skip(taken)
        }),
{
    let done = (t.pages * PAGE_SIZE) as int;
    let all = t.page + data;
    let next = t.absorb(seq, data).0;
    let taken = data.len() - (match next.phase {
        Phase::Flushing { rest, .. } => rest.len() as int,
        _ => 0int,
    });
    let grown = image + data.take(taken);
    assert(staged.take(done) =~= grown.take(done));
    assert(next.page =~= grown.skip(done));
    if all.len() >= PAGE_SIZE {
        assert(all.skip(PAGE_SIZE as int) =~= data.skip(taken));
    }
}

/// Writing the page that an update asks for puts the image's own bytes in
/// place: page k of the staging area is page k of the image, with erased
/// flash behind its last byte.
pub proof fn law_page_is_the_images(t: Transfer, staged: Seq<u8>, image: Seq<u8>)
    requires
        t.valid(),
        stages(t, staged, image),
        t.pages < 56,
    ensures
        with_page(t, staged).len() == MAX_FW_SIZE,
        with_page(t, staged).take(image.len() as int) == image,
        t.phase is Flushing ==> stages(
            Transfer { pages: t.pages + 1, page: Seq::empty(), ..t },
            with_page(t, staged),
            image,
        ),
{
    let done = (t.pages * PAGE_SIZE) as int;
    let after = with_page(t, staged);
    assert forall|i: int| 0 <= i < image.len() implies after[i] == image[i] by {
        if i < done {
            assert(staged.take(done)[i] == image.take(done)[i]);
        } else {
            assert(t.page[i - done] == image[i]);
        }
    }
    assert(after.take(image.len() as int) =~= image);
    if t.phase is Flushing {
        let next = Transfer { pages: t.pages + 1, page: Seq::empty(), ..t };
        assert(after.take(done + PAGE_SIZE) =~= image.take(done + PAGE_SIZE));
        assert(image.skip(done + PAGE_SIZE) =~= Seq::<u8>::empty());
    }
}

/// An update that is asked to verify has the whole image staged, so the CRC
/// runs over exactly the bytes that came in.
pub proof fn law_verified_is_what_came_in(t: Transfer, staged: Seq<u8>, image: Seq<u8>)
    requires
        t.valid(),
        stages(t, staged, image),
        t.phase is Idle,
    ensures
        on_end(Some(t)).1 matches FwEvent::Verify(n) ==> staged.take(n as int) == image,
        on_end(Some(t)).1 matches FwEvent::WritePage(p) ==> {
            &&& p == DFU_PAGE_START + t.pages
            &&& with_page(t, staged).take(t.size as int) == image
            &&& on_page_written(on_end(Some(t)).0, true).1 == FwEvent::Verify(t.size)
        },
{
    if t.received() == t.size {
        if t.page.len() > 0 {
            law_page_is_the_images(t, staged, image);
        } else {
            assert(image.take((t.pages * PAGE_SIZE) as int) =~= image);
        }
    }
}

/// A chunk sent again after its ack was lost is acknowledged again and
/// changes nothing.
pub proof fn law_repeated_chunk_changes_nothing(t: Transfer, payload: Seq<u8>)
    requires
        payload.len() >= 3,
        crate::wire::u16_at(payload, 0).wrapping_add(1) == t.next_seq,
    ensures
        on_data(Some(t), payload) == (Some(t), FwEvent::Ack(t.next_seq)),
{
}

/// An update and its staging area after every page that it waits for has been
/// written.
pub open spec fn settle(t: Transfer, staged: Seq<u8>) -> (Transfer, Seq<u8>)
    decreases
            match t.phase {
                Phase::Flushing { rest, .. } => rest.len() + 1,
                _ => 0,
            },
{
    match t.phase {
        Phase::Flushing { seq, rest } => {
            let next = Transfer { pages: t.pages + 1, page: Seq::empty(), ..t };
            settle(next.absorb(seq, rest).0, with_page(t, staged))
        },
        _ => (t, staged),
    }
}

/// An update and its staging area after the next chunk has come in.
pub open spec fn with_chunk(t: Transfer, staged: Seq<u8>, data: Seq<u8>) -> (
    Transfer,
    Seq<u8>,
) {
    match on_data(Some(t), crate::wire::u16_bytes(t.next_seq) + data).0 {
        Some(next) => settle(next, staged),
        None => (t, staged),
    }
}

/// An update and its staging area after some chunks have come in, in order.
pub open spec fn streamed(t: Transfer, staged: Seq<u8>, chunks: Seq<Seq<u8>>) -> (
    Transfer,
    Seq<u8>,
)
    decreases chunks.len(),
{
    if chunks.len() == 0 {
        (t, staged)
    } else {
        let (before, area) = streamed(t, staged, chunks.drop_last());
        with_chunk(before, area, chunks.last())
    }
}

proof fn lemma_settle(t: Transfer, staged: Seq<u8>, image: Seq<u8>)
    requires
        t.valid(),
        t.phase is Idle || t.phase is Flushing,
        stages(t, staged, image),
    ensures
        ({
            let (u, area) = settle(t, staged);
            let rest = match t.phase {
                Phase::Flushing { rest, .. } => rest,
                _ => Seq::empty(),
            };
            &&& u.valid()
            &&& u.phase is Idle
            &&& u.size == t.size
            &&& u.crc32 == t.crc32
            &&& stages(u, area, image + rest)
        }),
    decreases
            match t.phase {
                Phase::Flushing { rest, .. } => rest.len() + 1,
                _ => 0,
            },
{
    match t.phase {
        Phase::Flushing { seq, rest } => {
            assert(t.pages < 56);
            law_page_is_the_images(t, staged, image);
            let area = with_page(t, staged);
            let next = Transfer { pages: t.pages + 1, page: Seq::empty(), ..t };
            let idle = Transfer { phase: Phase::Idle, ..next };
            assert(stages(idle, area, image));
            law_chunk_extends_image(idle, area, image, seq, rest);
            assert(idle.absorb(seq, rest) == next.absorb(seq, rest));
            let after = next.absorb(seq, rest).0;
            let left = match after.phase {
                Phase::Flushing { rest: left, .. } => left,
                _ => Seq::empty(),
            };
            let taken = rest.len() - left.len();
            lemma_settle(after, area, image + rest.take(taken));
            assert(image + rest.take(taken) + left =~= image + rest);
        },
        _ => {
            assert(image + Seq::<u8>::empty() =~= image);
        },
    }
}

proof fn lemma_with_chunk(t: Transfer, staged: Seq<u8>, image: Seq<u8>, data: Seq<u8>)
    requires
        t.valid(),
        t.phase is Idle,
        stages(t, staged, image),
        data.len() > 0,
        t.received() + data.len() <= t.size,
    ensures
        ({
            let (u, area) = with_chunk(t, staged, data);
            &&& u.valid()
            &&& u.phase is Idle
            &&& u.size == t.size
            &&& u.crc32 == t.crc32
            &&& stages(u, area, image + data)
        }),
{
    let payload = crate::wire::u16_bytes(t.next_seq) + data;
    assert(payload.subrange(0, 2) =~= crate::wire::u16_bytes(t.next_seq));
    crate::wire::lemma_u16_at(payload, 0, t.next_seq);
    assert(payload.skip(2) =~= data);
    law_chunk_extends_image(t, staged, image, t.next_seq, data);
    let next = t.absorb(t.next_seq, data).0;
    let rest = match next.phase {
        Phase::Flushing { rest, .. } => rest,
        _ => Seq::empty(),
    };
    let taken = data.len() - rest.len();
    lemma_settle(next, staged, image + data.take(taken));
    assert(image + data.take(taken) + rest =~= image + data);
}

proof fn lemma_streamed(t: Transfer, staged: Seq<u8>, chunks: Seq<Seq<u8>>)
    requires
        t.valid(),
        t.phase is Idle,
        t.received() == 0,
        staged.len() == MAX_FW_SIZE,
        forall|i: int| 0 <= i < chunks.len() ==> (#[trigger] chunks[i]).len() > 0,
        crate::wire::joined(chunks).len() <= t.size,
    ensures
        ({
            let (u, area) = streamed(t, staged, chunks);
            &&& u.valid()
            &&& u.phase is Idle
            &&& u.size == t.size
            &&& u.crc32 == t.crc32
            &&& stages(u, area, crate::wire::joined(chunks))
        }),
    decreases chunks.len(),
{
    if chunks.len() == 0 {
        assert(staged.take(0) =~= crate::wire::joined(chunks).take(0));
        assert(t.page =~= crate::wire::joined(chunks).skip(0));
    } else {
        let head = chunks.drop_last();
        assert forall|i: int| 0 <= i < head.len() implies (#[trigger] head[i]).len() > 0 by {
            assert(head[i] == chunks[i]);
        }
        lemma_streamed(t, staged, head);
        let (u, area) = streamed(t, staged, head);
        assert(chunks[chunks.len() - 1].len() > 0);
        lemma_with_chunk(u, area, crate::wire::joined(head), chunks.last());
    }
}

/// An image sent in order arrives whole, however it is cut into chunks and
/// whatever the staging area held before: when the update asks to verify, the
/// image stands in the staging area, so the update completes exactly if the
/// announced CRC is the image's.
pub proof fn law_streamed_image_is_staged(
    announcement: Seq<u8>,
    staged: Seq<u8>,
    chunks: Seq<Seq<u8>>,
)
    requires
        announcement.len() >= 10,
        0 < crate::wire::joined(chunks).len() <= MAX_FW_SIZE,
        crate::wire::u32_at(announcement, 0) == crate::wire::joined(chunks).len(),
        staged.len() == MAX_FW_SIZE,
        forall|i: int| 0 <= i < chunks.len() ==> (#[trigger] chunks[i]).len() > 0,
    ensures
        ({
            let image = crate::wire::joined(chunks);
            let begun = on_begin(None, announcement);
            let (t, area) = streamed(begun.0->0, staged, chunks);
            let ended = on_end(Some(t));
            &&& begun.1 == FwEvent::Ack(0)
            &&& match ended.1 {
                FwEvent::Verify(n) => n == image.len() && area.take(n as int) == image,
                FwEvent::WritePage(_) => {
                    &&& with_page(t, area).take(image.len() as int) == image
                    &&& on_page_written(ended.0, true).1 == FwEvent::Verify(image.len() as u32)
                },
                _ => false,
            }
            &&& on_verify(t, image) == FwEvent::Complete <==> crate::link::crc32_of(image)
                == crate::wire::u32_at(announcement, 4)
        }),
{
    let t0 = on_begin(None, announcement).0->0;
    assert(t0.page.len() == 0);
    lemma_streamed(t0, staged, chunks);
    let (t, area) = streamed(t0, staged, chunks);
    law_verified_is_what_came_in(t, area, crate::wire::joined(chunks));
}

/// An update starts for an image from 1 byte to what the staging area holds,
/// with nothing received and chunk 0 expected, whatever was under way. Any
/// other announcement is refused and changes nothing.
pub proof fn law_announcements_are_checked(t: Option<Transfer>, payload: Seq<u8>)
    ensures
        ({
            let (after, event) = on_begin(t, payload);
            let size = payload[0] + 256 * payload[1] + 65536 * payload[2] + 16777216 * payload[3];
            let crc = payload[4] + 256 * payload[5] + 65536 * payload[6] + 16777216 * payload[7];
            &&& payload.len() < 10 ==> after == t && event == FwEvent::Error(0x01)
            &&& payload.len() >= 10 && (size == 0 || size > 114_688) ==> after == t && event
                == FwEvent::Error(0x02)
            &&& payload.len() >= 10 && 0 < size <= 114_688 ==> {
                &&& event == FwEvent::Ack(0)
                &&& after matches Some(u) && {
                    &&& u.size == size
                    &&& u.crc32 == crc
                    &&& u.next_seq == 0
                    &&& u.received() == 0
                    &&& u.phase is Idle
                }
            }
        }),
{
}

/// What a chunk comes to. Without an update, too short, or out of order it is
/// refused and changes nothing; one sent again is acknowledged again; one that
/// says more than was announced ends the update. The one expected is taken:
/// where it does not fill the page it is acknowledged with the number of the
/// next, and where it does, the full page is to be written first.
pub proof fn law_chunks_are_checked(t: Option<Transfer>, u: Transfer, payload: Seq<u8>)
    requires
        t == Some(u),
    ensures
        on_data(None, payload) == (None::<Transfer>, FwEvent::Error(0x06)),
        ({
            let (after, event) = on_data(t, payload);
            let seq = payload[0] + 256 * payload[1];
            let next = (seq + 1) % 65536;
            let data = payload.skip(2);
            let fits = u.pages * 2048 + u.page.len() + payload.len() - 2 <= u.size;
            &&& payload.len() < 3 ==> after == t && event == FwEvent::Error(0x01)
            &&& payload.len() >= 3 && next == u.next_seq ==> after == t && event == FwEvent::Ack(
                u.next_seq,
            )
            &&& payload.len() >= 3 && next != u.next_seq && seq != u.next_seq ==> after == t
                && event == FwEvent::Error(0x03)
            &&& payload.len() >= 3 && seq == u.next_seq && !fits ==> after is None && event
                == FwEvent::Error(0x02)
            &&& payload.len() >= 3 && seq == u.next_seq && fits && u.page.len() + data.len() < 2048
                ==> {
                &&& event matches FwEvent::Ack(n) && n == next
                &&& after matches Some(v) && {
                    &&& v.page == u.page + data
                    &&& v.pages == u.pages
                    &&& v.next_seq == next
                    &&& v.phase is Idle
                    &&& v.size == u.size && v.crc32 == u.crc32
                }
            }
            &&& payload.len() >= 3 && seq == u.next_seq && fits && u.page.len() + data.len() >= 2048
                && u.pages < 56 ==> {
                &&& event matches FwEvent::WritePage(page) && page == 64 + u.pages
                &&& after matches Some(v) && {
                    &&& v.page.len() == 2048
                    &&& v.pages == u.pages
                    &&& v.phase matches Phase::Flushing { seq: n, rest } && n == seq && v.page
                        + rest == u.page + data
                    &&& v.size == u.size && v.crc32 == u.crc32
                }
            }
        }),
{
    let data = payload.skip(2);
    let all = u.page + data;
    if all.len() >= 2048 {
        assert(all.take(2048) + all.skip(2048) =~= all);
    }
}

/// After a full page is written the update goes on with the rest of the chunk
/// on the next page, and acknowledges the chunk where the rest fits. After the
/// last page it asks for the check of the whole image. A failed write ends the
/// update.
pub proof fn law_written_pages_go_on(t: Option<Transfer>, u: Transfer)
    requires
        t == Some(u),
    ensures
        on_page_written(t, false) == (None::<Transfer>, FwEvent::Error(0x05)),
        on_page_written(None, true) == (None::<Transfer>, FwEvent::Error(0x06)),
        ({
            let (after, event) = on_page_written(t, true);
            &&& u.phase is Finishing ==> event == FwEvent::Verify(u.size) && after == Some(
                Transfer { phase: Phase::Verifying, ..u },
            )
            &&& u.phase matches Phase::Flushing { seq, rest } ==> {
                &&& rest.len() < 2048 ==> {
                    &&& event matches FwEvent::Ack(n) && n == (seq as int + 1) % 65536
                    &&& after matches Some(v) && {
                        &&& v.pages == u.pages + 1
                        &&& v.page == rest
                        &&& v.next_seq == (seq as int + 1) % 65536
                        &&& v.phase is Idle
                        &&& v.size == u.size && v.crc32 == u.crc32
                    }
                }
                &&& rest.len() >= 2048 && u.pages < 55 ==> {
                    &&& event matches FwEvent::WritePage(page) && page == 65 + u.pages
                    &&& after matches Some(v) && {
                        &&& v.pages == u.pages + 1
                        &&& v.page == rest.take(2048)
                        &&& v.phase == (Phase::Flushing { seq, rest: rest.skip(2048) })
                        &&& v.size == u.size && v.crc32 == u.crc32
                    }
                }
            }
        }),
{
    if let Phase::Flushing { seq, rest } = u.phase {
        assert(Seq::<u8>::empty() + rest =~= rest);
    }
}

/// The end of an update is refused where the image is not complete, which ends
/// it too. Otherwise the page begun is written, or, where there is none, the
/// whole image is checked; the check passes exactly for the announced CRC-32.
pub proof fn law_ends_are_checked(t: Option<Transfer>, u: Transfer, staged: Seq<u8>)
    requires
        t == Some(u),
        u.pages < 56 || u.page.len() == 0,
    ensures
        on_end(None) == (None::<Transfer>, FwEvent::Error(0x06)),
        ({
            let (after, event) = on_end(t);
            let whole = u.pages * 2048 + u.page.len() == u.size;
            &&& !whole ==> after is None && event == FwEvent::Error(0x02)
            &&& whole && u.page.len() > 0 ==> {
                &&& event matches FwEvent::WritePage(page) && page == 64 + u.pages
                &&& after == Some(Transfer { phase: Phase::Finishing, ..u })
            }
            &&& whole && u.page.len() == 0 ==> {
                &&& event == FwEvent::Verify(u.size)
                &&& after == Some(Transfer { phase: Phase::Verifying, ..u })
            }
        }),
        crate::link::crc32_of(staged) == u.crc32 ==> on_verify(u, staged) == FwEvent::Complete,
        crate::link::crc32_of(staged) != u.crc32 ==> on_verify(u, staged) == FwEvent::Error(0x04),
{
}

/// The page that is written is what came in of it with erased flash behind,
/// and stands in the staging area at its own place, where nothing else
/// changes.
pub proof fn law_page_is_written_whole(t: Transfer, staged: Seq<u8>)
    requires
        t.page.len() <= 2048,
        staged.len() == 114_688,
        t.pages < 56,
    ensures
        ({
            let page = page_bytes(t);
            let at = (2048 * t.pages) as int;
            let after = with_page(t, staged);
            &&& page.len() == 2048
            &&& page.take(t.page.len() as int) == t.page
            &&& forall|i: int| t.page.len() <= i < 2048 ==> #[trigger] page[i] == 0xFF
            &&& after.subrange(at, at + 2048) == page
            &&& after.take(at) == staged.take(at)
            &&& after.skip(at + 2048) == staged.skip(at + 2048)
        }),
{
    let page = page_bytes(t);
    let at = (2048 * t.pages) as int;
    let after = with_page(t, staged);
    assert(page.take(t.page.len() as int) =~= t.page);
    assert(after.subrange(at, at + 2048) =~= page);
    assert(after.take(at) =~= staged.take(at));
    assert(after.skip(at + 2048) =~= staged.skip(at + 2048));
}

/// Progress counts every byte that came in, pages and the page begun, against
/// the announced size; without an update there is none.
pub proof fn law_progress_counts_bytes(t: Transfer)
    requires
        t.valid(),
    ensures
        progress_of(None) is None,
        progress_of(Some(t)) matches Some((received, size)) && received == 2048 * t.pages
            + t.page.len() && size == t.size && received <= size,
{
}

} // verus!

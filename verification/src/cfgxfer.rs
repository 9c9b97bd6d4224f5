//! Radio config transfer over the link: CFG_BEGIN, CFG_DATA, CFG_END.
//!
//! The text is collected in RAM, in order; CFG_END checks it against its
//! CRC-32 before anyone acts on it.

use vstd::prelude::*;
use crate::link::{crc32, err};
use crate::wire::{get_u16, get_u32};

verus! {

/// Largest config file that can be transferred.
pub const CONFIG_MAX: usize = 1024;

/// What a step of a config transfer asks of the caller.
#[derive(Clone, Copy, Debug, PartialEq, Eq, Structural)]
pub enum CfgEvent {
    /// Ack with the next expected seq.
    Ack(u16),
    /// Transfer failed; NAK with this error code.
    Error(u8),
    /// The text is complete and intact.
    Complete,
}

/// A transfer, under way or just completed.
#[verifier::ext_equal]
pub struct CfgView {
    /// Whether data is still expected.
    pub open: bool,
    /// Announced length of the text.
    pub total: nat,
    pub next_seq: u16,
    /// The text so far.
    pub text: Seq<u8>,
}

/// What CFG_BEGIN makes of a transfer.
pub open spec fn on_begin(t: CfgView, payload: Seq<u8>) -> (CfgView, CfgEvent) {
    let total = crate::wire::u16_at(payload, 0);
    if payload.len() < 2 {
        (t, CfgEvent::Error(err::BAD_FRAME))
    } else if total == 0 || total > CONFIG_MAX {
        (t, CfgEvent::Error(err::BAD_SIZE))
    } else {
        (
            CfgView { open: true, total: total as nat, next_seq: 0, text: Seq::empty() },
            CfgEvent::Ack(0),
        )
    }
}

/// What CFG_DATA makes of a transfer.
pub open spec fn on_data(t: CfgView, payload: Seq<u8>) -> (CfgView, CfgEvent) {
    let seq = crate::wire::u16_at(payload, 0);
    let data = payload.skip(2);
    if !t.open {
        (t, CfgEvent::Error(err::INVALID_STATE))
    } else if payload.len() < 3 {
        (t, CfgEvent::Error(err::BAD_FRAME))
    } else if seq.wrapping_add(1) == t.next_seq {
        // Duplicate (retransmit after a lost ack): re-ack, don't append.
        (t, CfgEvent::Ack(t.next_seq))
    } else if seq != t.next_seq {
        (t, CfgEvent::Error(err::BAD_SEQ))
    } else if t.text.len() + data.len() > t.total {
        (CfgView { open: false, ..t }, CfgEvent::Error(err::BAD_SIZE))
    } else {
        (
            CfgView { text: t.text + data, next_seq: seq.wrapping_add(1), ..t },
            CfgEvent::Ack(seq.wrapping_add(1)),
        )
    }
}

/// What CFG_END makes of a transfer.
pub open spec fn on_end(t: CfgView, payload: Seq<u8>) -> (CfgView, CfgEvent) {
    let closed_view = CfgView { open: false, ..t };
    if !t.open {
        (t, CfgEvent::Error(err::INVALID_STATE))
    } else if payload.len() < 4 {
        (t, CfgEvent::Error(err::BAD_FRAME))
    } else if t.text.len() != t.total {
        (closed_view, CfgEvent::Error(err::BAD_SIZE))
    } else if crate::link::crc32_of(t.text) != crate::wire::u32_at(payload, 0) {
        (closed_view, CfgEvent::Error(err::CRC_MISMATCH))
    } else {
        (closed_view, CfgEvent::Complete)
    }
}

/// Config transfer state machine.
pub struct CfgTransfer {
    open: bool,
    total: usize,
    next_seq: u16,
    text: Vec<u8>,
}

impl View for CfgTransfer {
    type V = CfgView;

    closed spec fn view(&self) -> CfgView {
        CfgView {
            open: self.open,
            total: self.total as nat,
            next_seq: self.next_seq,
            text: self.text@,
        }
    }
}

impl CfgTransfer {
    /// No more text than was announced, and no more announced than fits.
    pub open spec fn wf(&self) -> bool {
        self@.text.len() <= self@.total <= CONFIG_MAX
    }

    pub fn new() -> (t: Self)
        ensures
            t.wf(),
            t@ == (CfgView { open: false, total: 0, next_seq: 0, text: Seq::empty() }),
    {
        CfgTransfer { open: false, total: 0, next_seq: 0, text: Vec::new() }
    }

    /// CFG_BEGIN: `[total_len u16le]`.
    pub fn begin(&mut self, payload: &[u8]) -> (event: CfgEvent)
        requires
            old(self).wf(),
        ensures
            final(self).wf(),
            (final(self)@, event) == on_begin(old(self)@, payload@),
            !(event is Complete),
    {
        if payload.len() < 2 {
            return CfgEvent::Error(err::BAD_FRAME);
        }
        let total: u16 = get_u16(payload, 0);
        if total == 0 || total as usize > CONFIG_MAX {
            return CfgEvent::Error(err::BAD_SIZE);
        }
        self.open = true;
        self.total = total as usize;
        self.next_seq = 0;
        self.text = Vec::new();
        CfgEvent::Ack(0)
    }

    /// CFG_DATA: `[seq u16le, bytes...]`.
    pub fn data(&mut self, payload: &[u8]) -> (event: CfgEvent)
        requires
            old(self).wf(),
        ensures
            final(self).wf(),
            (final(self)@, event) == on_data(old(self)@, payload@),
            !(event is Complete),
    {
        if !self.open {
            return CfgEvent::Error(err::INVALID_STATE);
        }
        if payload.len() < 3 {
            return CfgEvent::Error(err::BAD_FRAME);
        }
        let seq: u16 = get_u16(payload, 0);
        let data = &payload[2..payload.len()];
        assert(data@ =~= payload@.skip(2));
        if seq.wrapping_add(1) == self.next_seq {
            return CfgEvent::Ack(self.next_seq);
        }
        if seq != self.next_seq {
            return CfgEvent::Error(err::BAD_SEQ);
        }
        if data.len() > self.total - self.text.len() {
            self.open = false;
            return CfgEvent::Error(err::BAD_SIZE);
        }
        self.text.extend_from_slice(data);
        self.next_seq = seq.wrapping_add(1);
        CfgEvent::Ack(self.next_seq)
    }

    /// CFG_END: `[crc32 u32le]`.
    pub fn end(&mut self, payload: &[u8]) -> (event: CfgEvent)
        requires
            old(self).wf(),
        ensures
            final(self).wf(),
            (final(self)@, event) == on_end(old(self)@, payload@),
            !(event is Ack),
    {
        if !self.open {
            return CfgEvent::Error(err::INVALID_STATE);
        }
        if payload.len() < 4 {
            return CfgEvent::Error(err::BAD_FRAME);
        }
        self.open = false;
        if self.text.len() != self.total {
            return CfgEvent::Error(err::BAD_SIZE);
        }
        if crc32(&self.text) != get_u32(payload, 0) {
            return CfgEvent::Error(err::CRC_MISMATCH);
        }
        CfgEvent::Complete
    }

    /// The text that came in.
    pub fn bytes(&self) -> (text: &[u8])
        ensures
            text@ == self@.text,
    {
        &self.text
    }
}

/// A transfer completes only with a text of the announced length whose CRC is
/// the announced one.
pub proof fn law_complete_means_intact(t: CfgView, payload: Seq<u8>)
    requires
        on_end(t, payload).1 is Complete,
    ensures
        on_end(t, payload).0.text.len() == t.total,
        crate::link::crc32_of(on_end(t, payload).0.text) == crate::wire::u32_at(payload, 0),
{
}

/// A chunk that comes twice in a row (its ack was lost) counts once and gets
/// the same answer.
pub proof fn law_duplicate_chunk_counts_once(t: CfgView, payload: Seq<u8>)
    requires
        on_data(t, payload).1 is Ack,
    ensures
        on_data(on_data(t, payload).0, payload) == on_data(t, payload),
{
}

/// A transfer after some chunks have come in, in order.
pub open spec fn streamed(t: CfgView, chunks: Seq<Seq<u8>>) -> CfgView
    decreases chunks.len(),
{
    if chunks.len() == 0 {
        t
    } else {
        let before = streamed(t, chunks.drop_last());
        on_data(before, crate::wire::u16_bytes(before.next_seq) + chunks.last()).0
    }
}

proof fn lemma_streamed(t: CfgView, chunks: Seq<Seq<u8>>)
    requires
        t.open,
        t.text.len() == 0,
        forall|i: int| 0 <= i < chunks.len() ==> (#[trigger] chunks[i]).len() > 0,
        crate::wire::joined(chunks).len() <= t.total,
    ensures
        streamed(t, chunks).open,
        streamed(t, chunks).total == t.total,
        streamed(t, chunks).text == crate::wire::joined(chunks),
    decreases chunks.len(),
{
    if chunks.len() == 0 {
        assert(t.text =~= crate::wire::joined(chunks));
    } else {
        let head = chunks.drop_last();
        assert forall|i: int| 0 <= i < head.len() implies (#[trigger] head[i]).len() > 0 by {
            assert(head[i] == chunks[i]);
        }
        lemma_streamed(t, head);
        let before = streamed(t, head);
        assert(chunks[chunks.len() - 1].len() > 0);
        let payload = crate::wire::u16_bytes(before.next_seq) + chunks.last();
        assert(payload.subrange(0, 2) =~= crate::wire::u16_bytes(before.next_seq));
        crate::wire::lemma_u16_at(payload, 0, before.next_seq);
        assert(payload.skip(2) =~= chunks.last());
    }
}

/// A text sent in order arrives whole, however it is cut into chunks: the
/// transfer completes with that text if the closing CRC is the text's.
pub proof fn law_streamed_text_arrives(
    t: CfgView,
    announcement: Seq<u8>,
    chunks: Seq<Seq<u8>>,
    closing: Seq<u8>,
)
    requires
        announcement.len() >= 2,
        0 < crate::wire::joined(chunks).len() <= CONFIG_MAX,
        crate::wire::u16_at(announcement, 0) == crate::wire::joined(chunks).len(),
        forall|i: int| 0 <= i < chunks.len() ==> (#[trigger] chunks[i]).len() > 0,
        closing.len() >= 4,
        crate::wire::u32_at(closing, 0) == crate::link::crc32_of(crate::wire::joined(chunks)),
    ensures
        ({
            let begun = on_begin(t, announcement);
            let ended = on_end(streamed(begun.0, chunks), closing);
            &&& begun.1 == CfgEvent::Ack(0)
            &&& ended.1 == CfgEvent::Complete
            &&& ended.0.text == crate::wire::joined(chunks)
        }),
{
    lemma_streamed(on_begin(t, announcement).0, chunks);
}

/// A transfer opens for an announced length from 1 to 1024 bytes, empty and
/// expecting chunk 0, whatever came before. Any other announcement is refused
/// and leaves the transfer as it was.
pub proof fn law_announcements_are_checked(t: CfgView, payload: Seq<u8>)
    ensures
        ({
            let (after, event) = on_begin(t, payload);
            let total = payload[0] + 256 * payload[1];
            &&& payload.len() < 2 ==> after == t && event == CfgEvent::Error(0x01)
            &&& payload.len() >= 2 && (total == 0 || total > 1024) ==> after == t && event
                == CfgEvent::Error(0x02)
            &&& payload.len() >= 2 && 0 < total <= 1024 ==> {
                &&& event == CfgEvent::Ack(0)
                &&& after.open
                &&& after.total == total
                &&& after.next_seq == 0
                &&& after.text.len() == 0
            }
        }),
{
}

/// The chunk that is expected is appended while the text keeps to its
/// announced length, and acknowledged with the number of the one after it.
/// What is out of place is refused and changes nothing; one that says too
/// much ends the transfer.
pub proof fn law_chunks_are_checked(t: CfgView, payload: Seq<u8>)
    ensures
        ({
            let (after, event) = on_data(t, payload);
            let seq = payload[0] + 256 * payload[1];
            let next = (seq + 1) % 65536;
            let fits = t.text.len() + payload.len() - 2 <= t.total;
            &&& !t.open ==> after == t && event == CfgEvent::Error(0x06)
            &&& t.open && payload.len() < 3 ==> after == t && event == CfgEvent::Error(0x01)
            &&& t.open && payload.len() >= 3 && next == t.next_seq ==> after == t && event
                == CfgEvent::Ack(t.next_seq)
            &&& t.open && payload.len() >= 3 && next != t.next_seq && seq != t.next_seq ==> after
                == t && event == CfgEvent::Error(0x03)
            &&& t.open && payload.len() >= 3 && seq == t.next_seq && !fits ==> !after.open && event
                == CfgEvent::Error(0x02)
            &&& t.open && payload.len() >= 3 && seq == t.next_seq && fits ==> {
                &&& event matches CfgEvent::Ack(n) && n == next
                &&& after.open
                &&& after.total == t.total
                &&& after.next_seq == next
                &&& after.text == t.text + payload.skip(2)
            }
        }),
{
}

/// The end is accepted exactly for a text of the announced length whose CRC-32
/// is the one that the end carries, low byte first. Whatever it says, the
/// text stays; an end too short for a CRC leaves the transfer open, and any
/// other closes it.
pub proof fn law_ends_are_checked(t: CfgView, payload: Seq<u8>)
    ensures
        ({
            let (after, event) = on_end(t, payload);
            let crc = payload[0] + 256 * payload[1] + 65536 * payload[2] + 16777216 * payload[3];
            let whole = t.text.len() == t.total;
            let intact = crate::link::crc32_of(t.text) == crc;
            &&& !t.open ==> after == t && event == CfgEvent::Error(0x06)
            &&& t.open && payload.len() < 4 ==> after == t && event == CfgEvent::Error(0x01)
            &&& t.open && payload.len() >= 4 ==> {
                &&& !after.open
                &&& after.text == t.text
                &&& event == CfgEvent::Complete <==> whole && intact
                &&& !whole ==> event == CfgEvent::Error(0x02)
                &&& whole && !intact ==> event == CfgEvent::Error(0x04)
            }
        }),
{
}

} // verus!

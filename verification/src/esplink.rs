//! UART link to the ESP32-C6: the receive queue, frame assembly, and the
//! peer's radio-busy flag. Frames use the [`crate::link`] format.
//!
//! RX is interrupt-driven: the 8-byte hardware FIFO overruns in <0.7 ms at
//! 115200, shorter than one main-loop iteration (the 1 ms tick plus GPS/SD
//! work), so polling the UART directly would drop bytes and corrupt any
//! frame larger than the FIFO. The interrupt handler empties the FIFO into a
//! ring buffer that the loop drains at its leisure.

use vstd::prelude::*;
use crate::link::{self, FrameBuf, FrameParser};
use crate::wire::put_u16;

verus! {

/// RX ring-buffer size (bytes); it holds one less. Comfortably larger than
/// the largest frame so a burst cannot outrun the main loop's drain.
pub const RX_LEN: usize = 512;

/// The receive queue.
pub type RxQueue = heapless::spsc::Queue<u8, RX_LEN>;

// -- The queue ----------------------------------------------------------------

#[verifier::external_type_specification]
#[verifier::external_body]
#[verifier::reject_recursive_types(T)]
pub struct ExQueue<T, const N: usize>(heapless::spsc::Queue<T, N>);

/// The bytes in a receive queue, oldest first.
pub uninterp spec fn queued_bytes(q: heapless::spsc::Queue<u8, RX_LEN>) -> Seq<u8>;

/// An empty receive queue.
///
/// Calls `heapless::spsc::Queue::new`, which gives a queue with nothing in it.
#[verifier::external_body]
pub(crate) fn rx_queue() -> (q: RxQueue)
    ensures
        queued_bytes(q) == Seq::<u8>::empty(),
{
    heapless::spsc::Queue::new()
}

/// Put a byte at the end of a receive queue.
///
/// Calls `heapless::spsc::Queue::enqueue`: the queue takes the byte while it
/// holds fewer than its size less one; full, it stays as it is and hands the
/// byte back.
#[verifier::external_body]
pub(crate) fn rx_enqueue(q: &mut RxQueue, byte: u8) -> (r: Result<(), u8>)
    ensures
        if queued_bytes(*old(q)).len() < RX_LEN - 1 {
            r is Ok && queued_bytes(*final(q)) == queued_bytes(*old(q)).push(byte)
        } else {
            r == Err::<(), u8>(byte) && queued_bytes(*final(q)) == queued_bytes(*old(q))
        },
{
    q.enqueue(byte)
}

/// Take the byte at the front of a receive queue.
///
/// Calls `heapless::spsc::Queue::dequeue`: the oldest byte leaves the queue,
/// or nothing happens where it is empty.
#[verifier::external_body]
pub(crate) fn rx_dequeue(q: &mut RxQueue) -> (r: Option<u8>)
    ensures
        if queued_bytes(*old(q)).len() == 0 {
            r is None && queued_bytes(*final(q)) == queued_bytes(*old(q))
        } else {
            r == Some(queued_bytes(*old(q))[0]) && queued_bytes(*final(q)) == queued_bytes(
                *old(q),
            ).drop_first()
        },
{
    q.dequeue()
}

// -- The link -----------------------------------------------------------------

/// Feeding queued bytes to a parser up to the end of the first frame: the
/// parser's state, the frame's body if there is one, and the bytes left.
pub open spec fn drained(s: link::Receiving, queue: Seq<u8>) -> (
    link::Receiving,
    Option<Seq<u8>>,
    Seq<u8>,
)
    decreases queue.len(),
{
    if queue.len() == 0 {
        (s, None, queue)
    } else {
        let (next, done) = link::receive(s, queue[0]);
        if done is Some {
            (next, done, queue.drop_first())
        } else {
            drained(next, queue.drop_first())
        }
    }
}

/// What the link knows.
#[verifier::ext_equal]
pub struct LinkView {
    /// Received bytes that have not been parsed yet.
    pub queue: Seq<u8>,
    pub parser: link::Receiving,
    /// When the ESP last flagged its radio busy, unless it cleared the flag.
    pub busy_since_ms: Option<u32>,
}

/// Whether the ESP radio counts as busy, given when it was last flagged.
pub open spec fn busy_at(busy_since_ms: Option<u32>, now_ms: u32) -> bool {
    busy_since_ms matches Some(t) && now_ms.wrapping_sub(t) < link::RADIO_BUSY_TIMEOUT_MS
}

/// What a byte from the UART makes of the link, and whether it was taken.
pub open spec fn queued(v: LinkView, byte: u8) -> (LinkView, bool) {
    if v.queue.len() < RX_LEN - 1 {
        (LinkView { queue: v.queue.push(byte), ..v }, true)
    } else {
        (v, false)
    }
}

/// What a busy flag from the ESP makes of the link.
pub open spec fn flagged(v: LinkView, busy: bool, now_ms: u32) -> LinkView {
    LinkView {
        busy_since_ms: if busy {
            Some(now_ms)
        } else {
            None
        },
        ..v
    }
}

/// A status line cut down to what one line can carry.
pub open spec fn clip_line(text: Seq<u8>) -> Seq<u8> {
    if text.len() > link::LOG_MAX {
        text.take(link::LOG_MAX as int)
    } else {
        text
    }
}

pub struct EspLink {
    rx: RxQueue,
    parser: FrameParser,
    out: FrameBuf,
    busy_since_ms: Option<u32>,
}

impl View for EspLink {
    type V = LinkView;

    closed spec fn view(&self) -> LinkView {
        LinkView {
            queue: queued_bytes(self.rx),
            parser: self.parser@,
            busy_since_ms: self.busy_since_ms,
        }
    }
}

impl EspLink {
    pub closed spec fn wf(&self) -> bool {
        self.parser.wf()
    }

    /// Whether [`payload`](Self::payload) has a frame to speak of.
    pub closed spec fn holds_frame(&self) -> bool {
        self.parser.holds_frame()
    }

    /// The body of the frame that the last poll gave.
    pub closed spec fn body(&self) -> Seq<u8> {
        self.parser.body()
    }

    pub fn new() -> (l: Self)
        ensures
            l.wf(),
            !l.holds_frame(),
            l@ == (LinkView {
                queue: Seq::empty(),
                parser: link::Receiving::Sync,
                busy_since_ms: None,
            }),
    {
        EspLink {
            rx: rx_queue(),
            parser: FrameParser::new(),
            out: FrameBuf::new(),
            busy_since_ms: None,
        }
    }

    /// Take in a byte from the UART. A full queue means the loop is lagging;
    /// dropping the byte is no worse than a FIFO overrun and the frame parser
    /// resyncs by CRC. Says whether it was taken.
    pub fn receive(&mut self, byte: u8) -> (taken: bool)
        requires
            old(self).wf(),
        ensures
            final(self).wf(),
            final(self).holds_frame() == old(self).holds_frame(),
            final(self).body() == old(self).body(),
            (final(self)@, taken) == queued(old(self)@, byte),
    {
        rx_enqueue(&mut self.rx, byte).is_ok()
    }

    /// Pump the receiver from the ring buffer. Returns
    /// `Some((cmd, payload_len))` when a complete frame arrived; fetch it
    /// with [`payload`](Self::payload) before the next poll.
    pub fn poll(&mut self) -> (r: Option<(u8, usize)>)
        requires
            old(self).wf(),
        ensures
            final(self).wf(),
            ({
                let (parser, frame, queue) = drained(old(self)@.parser, old(self)@.queue);
                &&& final(self)@ == (LinkView { queue, parser, ..old(self)@ })
                &&& match frame {
                    Some(body) => {
                        &&& r == Some((body[0], (body.len() - 1) as usize))
                        &&& final(self).holds_frame()
                        &&& final(self).body() == body
                        &&& body.len() >= 1
                    },
                    None => r is None,
                }
            }),
    {
        let ghost goal = drained(self@.parser, self@.queue);
        loop
            invariant
                self.wf(),
                self.busy_since_ms == old(self).busy_since_ms,
                goal == drained(old(self)@.parser, old(self)@.queue),
                goal == drained(self@.parser, self@.queue),
            decreases self@.queue.len(),
        {
            match rx_dequeue(&mut self.rx) {
                None => {
                    return None;
                },
                Some(byte) => {
                    if self.parser.feed(byte) {
                        let f = self.parser.frame();
                        let r = Some((f.cmd, f.payload.len()));
                        assert(self.parser.body()[0] == f.cmd);
                        return r;
                    }
                },
            }
        }
    }

    /// Payload of the frame returned by the last [`poll`](Self::poll).
    pub fn payload(&self) -> (p: &[u8])
        requires
            self.holds_frame(),
        ensures
            self.body().len() >= 1,
            p@ == self.body().skip(1),
    {
        let p = self.parser.frame().payload;
        assert(p@ =~= self.body().skip(1));
        p
    }

    /// The bytes of a frame to write (a full 197-byte data frame takes ~17 ms
    /// at 115200 baud).
    pub fn send(&mut self, cmd: u8, payload: &[u8]) -> (bytes: &[u8])
        requires
            old(self).wf(),
        ensures
            final(self).wf(),
            final(self).holds_frame() == old(self).holds_frame(),
            final(self).body() == old(self).body(),
            final(self)@ == old(self)@,
            bytes@ == link::frame_wire(cmd, link::clip_payload(payload@)),
    {
        self.out.build(cmd, payload)
    }

    /// The bytes of an acknowledgement.
    pub fn send_ack(&mut self, cmd: u8, value: u16) -> (bytes: &[u8])
        requires
            old(self).wf(),
        ensures
            final(self).wf(),
            final(self).holds_frame() == old(self).holds_frame(),
            final(self).body() == old(self).body(),
            final(self)@ == old(self)@,
            bytes@ == link::frame_wire(link::resp::ACK, ack_payload(cmd, value)),
    {
        let v: [u8; 2] = put_u16(value);
        let p: [u8; 3] = [cmd, v[0], v[1]];
        assert(p@ =~= ack_payload(cmd, value));
        self.send(link::resp::ACK, &p)
    }

    /// The bytes of a refusal.
    pub fn send_nak(&mut self, cmd: u8, err: u8) -> (bytes: &[u8])
        requires
            old(self).wf(),
        ensures
            final(self).wf(),
            final(self).holds_frame() == old(self).holds_frame(),
            final(self).body() == old(self).body(),
            final(self)@ == old(self)@,
            bytes@ == link::frame_wire(link::resp::NAK, nak_payload(cmd, err)),
    {
        let p: [u8; 2] = [cmd, err];
        assert(p@ =~= nak_payload(cmd, err));
        self.send(link::resp::NAK, &p)
    }

    /// The bytes of a human-readable status line ([`link::msg::LOG`]),
    /// truncated to [`link::LOG_MAX`] bytes; the ESP prints it and notifies it
    /// over BLE.
    pub fn send_status(&mut self, text: &[u8]) -> (bytes: &[u8])
        requires
            old(self).wf(),
        ensures
            final(self).wf(),
            final(self).holds_frame() == old(self).holds_frame(),
            final(self).body() == old(self).body(),
            final(self)@ == old(self)@,
            bytes@ == link::frame_wire(link::msg::LOG, clip_line(text@)),
    {
        let n: usize = if text.len() > link::LOG_MAX {
            link::LOG_MAX
        } else {
            text.len()
        };
        let line = &text[0..n];
        assert(line@ =~= clip_line(text@));
        self.send(link::msg::LOG, line)
    }

    /// Record a RADIO_BUSY flag from the ESP.
    pub fn set_peer_busy(&mut self, busy: bool, now_ms: u32)
        requires
            old(self).wf(),
        ensures
            final(self).wf(),
            final(self).holds_frame() == old(self).holds_frame(),
            final(self).body() == old(self).body(),
            final(self)@ == flagged(old(self)@, busy, now_ms),
    {
        self.busy_since_ms = if busy {
            Some(now_ms)
        } else {
            None
        };
    }

    /// Whether the ESP radio is currently flagged busy (with staleness
    /// timeout, so a lost clear frame cannot wedge LoRa TX forever).
    pub fn peer_busy(&self, now_ms: u32) -> (r: bool)
        ensures
            r == busy_at(self@.busy_since_ms, now_ms),
    {
        match self.busy_since_ms {
            Some(t) => now_ms.wrapping_sub(t) < link::RADIO_BUSY_TIMEOUT_MS,
            None => false,
        }
    }
}

/// The payload of an acknowledgement.
pub open spec fn ack_payload(cmd: u8, value: u16) -> Seq<u8> {
    seq![cmd] + crate::wire::u16_bytes(value)
}

/// The payload of a refusal.
pub open spec fn nak_payload(cmd: u8, err: u8) -> Seq<u8> {
    seq![cmd, err]
}

// -- Laws ---------------------------------------------------------------------

/// Polling gives exactly the frames in the queued bytes, in order: the first
/// poll takes the first frame and leaves the rest, and a poll that gives
/// nothing leaves no frame behind.
pub proof fn law_polls_give_every_frame(s: link::Receiving, queue: Seq<u8>)
    ensures
        ({
            let (next, frame, rest) = drained(s, queue);
            let all = link::receive_all(s, queue);
            &&& frame matches Some(body) ==> all.0 == link::receive_all(next, rest).0 && all.1
                == seq![body] + link::receive_all(next, rest).1
            &&& frame is None ==> all.0 == next && all.1 == Seq::<Seq<u8>>::empty() && rest.len()
                == 0
        }),
    decreases queue.len(),
{
    if queue.len() > 0 {
        let byte = queue[0];
        let tail = queue.drop_first();
        let (next, done) = link::receive(s, byte);
        link::lemma_receive_one(s, byte);
        link::lemma_receive_all_append(s, seq![byte], tail);
        assert(seq![byte] + tail =~= queue);
        if done is None {
            law_polls_give_every_frame(next, tail);
            let (last, frame, rest) = drained(next, tail);
            assert(Seq::<Seq<u8>>::empty() + link::receive_all(next, tail).1
                =~= link::receive_all(next, tail).1);
        }
    }
}

/// A busy flag whose clear frame was lost does not last: without a refresh it
/// is over after [`link::RADIO_BUSY_TIMEOUT_MS`].
pub proof fn law_busy_flag_expires(flagged_at: u32, waited: u32)
    ensures
        busy_at(Some(flagged_at), flagged_at.wrapping_add(waited)) <==> waited
            < link::RADIO_BUSY_TIMEOUT_MS,
        !busy_at(None, flagged_at),
{
}

/// A byte goes behind those that wait while there are fewer than 511 of them,
/// and is dropped otherwise; nothing else changes.
pub proof fn law_bytes_queue_up(v: LinkView, byte: u8)
    ensures
        v.queue.len() < 511 ==> queued(v, byte) == (
            LinkView { queue: v.queue.push(byte), ..v },
            true,
        ),
        v.queue.len() >= 511 ==> queued(v, byte) == (v, false),
{
}

/// The ESP counts as busy from its flag on for three seconds, unless it takes
/// the flag back; each flag starts the time anew, whatever was flagged before.
pub proof fn law_flag_is_followed(v: LinkView, at_ms: u32, waited: u32)
    ensures
        busy_at(flagged(v, true, at_ms).busy_since_ms, at_ms.wrapping_add(waited)) <==> waited
            < 3_000,
        !busy_at(flagged(v, false, at_ms).busy_since_ms, at_ms.wrapping_add(waited)),
        flagged(v, true, at_ms).queue == v.queue && flagged(v, false, at_ms).queue == v.queue,
        flagged(v, true, at_ms).parser == v.parser && flagged(v, false, at_ms).parser == v.parser,
{
}

} // verus!

//! A bench tool's view of the WIO-E5: which firmware answers on its UART.
//!
//! The factory AT firmware answers `AT` at 9600 baud; the tracker firmware
//! acknowledges a link PING at 115200. Any response at all proves that the
//! module has power and is executing firmware; which probe answers tells
//! which firmware is on it.

use vstd::prelude::*;
use crate::link::{self, cmd, resp, FrameParser, Receiving};
use crate::wire::get_u16;

verus! {

/// How much of a response is kept.
pub const RESPONSE_MAX: usize = 256;

/// Bytes per line of a dump.
pub const DUMP_WIDTH: usize = 16;

// -- Responses ----------------------------------------------------------------

/// A response, as far as it was kept.
pub type Response = heapless::Vec<u8, RESPONSE_MAX>;

/// The bytes of a response.
pub uninterp spec fn response_held(v: heapless::Vec<u8, RESPONSE_MAX>) -> Seq<u8>;

/// An empty response.
///
/// Calls `heapless::Vec::new`, which gives a vector with nothing in it.
#[verifier::external_body]
pub(crate) fn response_new() -> (v: Response)
    ensures
        response_held(v) == Seq::<u8>::empty(),
{
    heapless::Vec::new()
}

/// Put a byte at the end of a response.
///
/// Calls `heapless::Vec::push`: the vector takes the byte while it holds
/// fewer than its capacity; full, it stays as it is and hands the byte back.
#[verifier::external_body]
pub(crate) fn response_push(v: &mut Response, byte: u8) -> (r: Result<(), u8>)
    ensures
        if response_held(*old(v)).len() < RESPONSE_MAX {
            r is Ok && response_held(*final(v)) == response_held(*old(v)).push(byte)
        } else {
            r == Err::<(), u8>(byte) && response_held(*final(v)) == response_held(*old(v))
        },
{
    v.push(byte)
}

/// The bytes of a response.
///
/// Calls `heapless::Vec::as_slice`, which borrows what the vector holds.
#[verifier::external_body]
pub(crate) fn response_bytes(v: &Response) -> (b: &[u8])
    ensures
        b@ == response_held(*v),
{
    v.as_slice()
}

/// `kept` with as much of `more` as there is room for.
pub open spec fn kept_of(kept: Seq<u8>, more: Seq<u8>) -> Seq<u8>
    decreases more.len(),
{
    if more.len() == 0 {
        kept
    } else {
        let before = kept_of(kept, more.drop_last());
        if before.len() < RESPONSE_MAX {
            before.push(more.last())
        } else {
            before
        }
    }
}

/// How long a window that ends then stays open, if it still is.
pub open spec fn window_left(ends_ms: u64, now_ms: u64) -> Option<u64> {
    if now_ms < ends_ms {
        Some((ends_ms - now_ms) as u64)
    } else {
        None
    }
}

/// Collects what the WIO sends within a window.
pub struct Listening {
    kept: Response,
    ends_ms: u64,
}

impl View for Listening {
    type V = Seq<u8>;

    closed spec fn view(&self) -> Seq<u8> {
        response_held(self.kept)
    }
}

impl Listening {
    /// When the window closes.
    pub closed spec fn ends(&self) -> u64 {
        self.ends_ms
    }

    pub fn new(now_ms: u64, window_ms: u64) -> (l: Listening)
        requires
            now_ms + window_ms <= u64::MAX,
        ensures
            l@ == Seq::<u8>::empty(),
            l.ends() == now_ms + window_ms,
    {
        Listening { kept: response_new(), ends_ms: now_ms + window_ms }
    }

    /// How long the window stays open, if it still is.
    pub fn left_ms(&self, now_ms: u64) -> (left: Option<u64>)
        ensures
            left == window_left(self.ends(), now_ms),
    {
        if now_ms < self.ends_ms {
            Some(self.ends_ms - now_ms)
        } else {
            None
        }
    }

    /// Keep what a read brought; what no longer fits is dropped.
    pub fn hear(&mut self, bytes: &[u8])
        ensures
            final(self)@ == kept_of(old(self)@, bytes@),
            final(self).ends() == old(self).ends(),
    {
        let mut i: usize = 0;
        assert(bytes@.take(0) =~= Seq::<u8>::empty());
        while i < bytes.len()
            invariant
                i <= bytes@.len(),
                self@ == kept_of(old(self)@, bytes@.take(i as int)),
                self.ends() == old(self).ends(),
            decreases bytes@.len() - i,
        {
            assert(bytes@.take(i + 1).drop_last() =~= bytes@.take(i as int));
            let _ = response_push(&mut self.kept, bytes[i]);
            i = i + 1;
        }
        assert(bytes@.take(i as int) =~= bytes@);
    }

    /// What was kept.
    pub fn response(&self) -> (b: &[u8])
        ensures
            b@ == self@,
    {
        response_bytes(&self.kept)
    }
}

// -- Verdicts -----------------------------------------------------------------

/// What the response to `AT` shows.
#[derive(Clone, Copy, Debug, PartialEq, Eq, Structural)]
pub enum AtVerdict {
    /// Nothing.
    Silent,
    /// The factory AT firmware.
    Factory,
    /// Something that is alive, but not which firmware it is.
    Unidentified,
}

/// Whether "OK" stands in a response.
pub open spec fn says_ok(r: Seq<u8>) -> bool {
    exists|i: int| 0 <= i < r.len() - 1 && #[trigger] r[i] == 0x4F && r[i + 1] == 0x4B
}

/// What a response to `AT` shows.
pub open spec fn verdict_on(response: Seq<u8>) -> AtVerdict {
    if response.len() == 0 {
        AtVerdict::Silent
    } else if says_ok(response) {
        AtVerdict::Factory
    } else {
        AtVerdict::Unidentified
    }
}

pub fn at_verdict(response: &[u8]) -> (v: AtVerdict)
    ensures
        v == verdict_on(response@),
{
    if response.len() == 0 {
        return AtVerdict::Silent;
    }
    let mut i: usize = 0;
    while i < response.len() - 1
        invariant
            i < response@.len(),
            forall|j: int|
                0 <= j < i ==> !(#[trigger] response@[j] == 0x4F && response@[j + 1] == 0x4B),
        decreases response@.len() - i,
    {
        if response[i] == 0x4F && response[i + 1] == 0x4B {
            return AtVerdict::Factory;
        }
        i = i + 1;
    }
    AtVerdict::Unidentified
}

/// The firmware version that a frame acknowledges a PING with, if it does.
pub open spec fn version_acked(body: Seq<u8>) -> Option<u16> {
    if body.len() >= 4 && body[0] == resp::ACK && body[1] == cmd::PING {
        Some(crate::wire::u16_at(body, 2))
    } else {
        None
    }
}

/// The versions that some frames acknowledge a PING with.
pub open spec fn versions_acked(bodies: Seq<Seq<u8>>) -> Seq<u16>
    decreases bodies.len(),
{
    if bodies.len() == 0 {
        Seq::empty()
    } else {
        let before = versions_acked(bodies.drop_last());
        match version_acked(bodies.last()) {
            Some(v) => before.push(v),
            None => before,
        }
    }
}

/// The versions that the response to a PING reports.
pub fn ping_versions(response: &[u8]) -> (versions: Vec<u16>)
    ensures
        versions@ == versions_acked(link::receive_all(Receiving::Sync, response@).1),
{
    let mut parser = FrameParser::new();
    let mut versions: Vec<u16> = Vec::new();
    let mut i: usize = 0;
    assert(response@.take(0) =~= Seq::<u8>::empty());
    while i < response.len()
        invariant
            i <= response@.len(),
            parser.wf(),
            parser@ == link::receive_all(Receiving::Sync, response@.take(i as int)).0,
            versions@ == versions_acked(
                link::receive_all(Receiving::Sync, response@.take(i as int)).1,
            ),
        decreases response@.len() - i,
    {
        let ghost heard = response@.take(i as int);
        let ghost bodies = link::receive_all(Receiving::Sync, heard).1;
        assert(response@.take(i + 1).drop_last() =~= heard);
        assert(response@.take(i + 1).last() == response@[i as int]);
        if parser.feed(response[i]) {
            let f = parser.frame();
            let ghost body = parser.body();
            assert(body == link::frame_body(f.cmd, f.payload@));
            assert(bodies.push(body).drop_last() =~= bodies);
            if f.cmd == resp::ACK && f.payload.len() >= 3 && f.payload[0] == cmd::PING {
                let v: u16 = get_u16(f.payload, 1);
                assert(body[2] == f.payload@[1] && body[3] == f.payload@[2]);
                versions.push(v);
            }
        }
        i = i + 1;
    }
    assert(response@.take(i as int) =~= response@);
    versions
}

/// Whether a round heard anything at all.
pub fn any_response(at: &[u8], ping: &[u8]) -> (r: bool)
    ensures
        r == (at@.len() > 0 || ping@.len() > 0),
{
    at.len() > 0 || ping.len() > 0
}

// -- Dumps --------------------------------------------------------------------

/// The lower-case hexadecimal digit of a value below 16.
pub open spec fn hex_lower(n: u8) -> u8 {
    if n < 10 {
        (0x30 + n) as u8
    } else {
        (0x57 + n) as u8
    }
}

/// A byte as text: itself where it is printable, else a dot.
pub open spec fn printable(b: u8) -> u8 {
    if 0x20 <= b < 0x7F {
        b
    } else {
        0x2E
    }
}

/// Bytes in hexadecimal, separated by commas.
pub open spec fn hex_list(bytes: Seq<u8>) -> Seq<u8>
    decreases bytes.len(),
{
    if bytes.len() == 0 {
        Seq::empty()
    } else {
        let b = bytes.last();
        let pair = seq![hex_lower((b / 16) as u8), hex_lower((b % 16) as u8)];
        let before = hex_list(bytes.drop_last());
        if bytes.len() == 1 {
            pair
        } else {
            before + seq![0x2Cu8, 0x20] + pair
        }
    }
}

/// One line of a dump: the bytes in hexadecimal, and as text.
pub open spec fn dump_line(bytes: Seq<u8>) -> Seq<u8> {
    seq![0x20u8, 0x20, 0x5B] + hex_list(bytes) + seq![0x5Du8, 0x20, 0x20, 0x7C] + Seq::new(
        bytes.len(),
        |i: int| printable(bytes[i]),
    ) + seq![0x7Cu8]
}

fn put_hex_lower(n: u8) -> (c: u8)
    requires
        n < 16,
    ensures
        c == hex_lower(n),
{
    if n < 10 {
        0x30 + n
    } else {
        0x57 + n
    }
}

fn push_hex_list(out: &mut Vec<u8>, bytes: &[u8])
    ensures
        final(out)@ == old(out)@ + hex_list(bytes@),
{
    let mut i: usize = 0;
    assert(bytes@.take(0) =~= Seq::<u8>::empty());
    assert(out@ =~= old(out)@ + hex_list(bytes@.take(0)));
    while i < bytes.len()
        invariant
            i <= bytes@.len(),
            out@ == old(out)@ + hex_list(bytes@.take(i as int)),
        decreases bytes@.len() - i,
    {
        let b: u8 = bytes[i];
        assert(bytes@.take(i + 1).drop_last() =~= bytes@.take(i as int));
        if i > 0 {
            out.push(0x2C);
            out.push(0x20);
        }
        out.push(put_hex_lower(b / 16));
        out.push(put_hex_lower(b % 16));
        i = i + 1;
        assert(out@ =~= old(out)@ + hex_list(bytes@.take(i as int)));
    }
    assert(bytes@.take(i as int) =~= bytes@);
}

fn format_line(bytes: &[u8]) -> (line: Vec<u8>)
    ensures
        line@ == dump_line(bytes@),
{
    let mut line: Vec<u8> = Vec::new();
    line.push(0x20);
    line.push(0x20);
    line.push(0x5B);
    push_hex_list(&mut line, bytes);
    line.push(0x5D);
    line.push(0x20);
    line.push(0x20);
    line.push(0x7C);
    let ghost head = line@;
    let mut i: usize = 0;
    while i < bytes.len()
        invariant
            i <= bytes@.len(),
            line@ == head + Seq::new(i as nat, |j: int| printable(bytes@[j])),
        decreases bytes@.len() - i,
    {
        let b: u8 = bytes[i];
        line.push(
            if 0x20 <= b && b < 0x7F {
                b
            } else {
                0x2E
            },
        );
        i = i + 1;
        assert(line@ =~= head + Seq::new(i as nat, |j: int| printable(bytes@[j])));
    }
    line.push(0x7C);
    assert(line@ =~= dump_line(bytes@));
    line
}

/// Where line `i` of a dump of `len` bytes ends.
pub open spec fn line_end(i: int, len: int) -> int {
    if DUMP_WIDTH * (i + 1) < len {
        DUMP_WIDTH * (i + 1)
    } else {
        len
    }
}

/// A response as a dump, [`DUMP_WIDTH`] bytes to a line.
pub fn dump(bytes: &[u8]) -> (lines: Vec<Vec<u8>>)
    ensures
        lines@.len() == (bytes@.len() + DUMP_WIDTH - 1) / DUMP_WIDTH as int,
        forall|i: int|
            0 <= i < lines@.len() ==> (#[trigger] lines@[i])@ == dump_line(
                bytes@.subrange(DUMP_WIDTH * i, line_end(i, bytes@.len() as int)),
            ),
{
    let mut lines: Vec<Vec<u8>> = Vec::new();
    let mut at: usize = 0;
    while at < bytes.len()
        invariant
            at <= bytes@.len(),
            at == DUMP_WIDTH * lines@.len() || at == bytes@.len(),
            lines@.len() == (at + DUMP_WIDTH - 1) / DUMP_WIDTH as int,
            forall|i: int|
                0 <= i < lines@.len() ==> (#[trigger] lines@[i])@ == dump_line(
                    bytes@.subrange(DUMP_WIDTH * i, line_end(i, bytes@.len() as int)),
                ),
        decreases bytes@.len() - at,
    {
        let end: usize = if bytes.len() - at > DUMP_WIDTH {
            at + DUMP_WIDTH
        } else {
            bytes.len()
        };
        let line = format_line(&bytes[at..end]);
        lines.push(line);
        at = end;
    }
    lines
}

// -- Laws ---------------------------------------------------------------------

proof fn lemma_noise_is_nothing(noise: Seq<u8>)
    requires
        forall|i: int| 0 <= i < noise.len() ==> #[trigger] noise[i] != link::SYNC,
    ensures
        link::receive_all(Receiving::Sync, noise) == (Receiving::Sync, Seq::<Seq<u8>>::empty()),
    decreases noise.len(),
{
    if noise.len() > 0 {
        let t = noise.drop_last();
        assert forall|i: int| 0 <= i < t.len() implies #[trigger] t[i] != link::SYNC by {
            assert(noise[i] != link::SYNC);
        }
        lemma_noise_is_nothing(t);
        assert(noise[noise.len() - 1] != link::SYNC);
    }
}

/// The tracker firmware is recognized by its answer, with its version, even
/// behind the noise of a baud rate change.
pub proof fn law_tracker_firmware_is_recognized(noise: Seq<u8>, version: u16)
    requires
        forall|i: int| 0 <= i < noise.len() ==> #[trigger] noise[i] != link::SYNC,
    ensures
        ({
            let frame = link::frame_wire(
                resp::ACK,
                crate::esplink::ack_payload(cmd::PING, version),
            );
            versions_acked(link::receive_all(Receiving::Sync, noise + frame).1) == seq![version]
        }),
{
    let payload = crate::esplink::ack_payload(cmd::PING, version);
    lemma_noise_is_nothing(noise);
    link::law_frame_received_after_noise(noise, resp::ACK, payload);
    let body = link::frame_body(resp::ACK, payload);
    assert(link::receive_all(Receiving::Sync, noise).1.push(body) =~= seq![body]);
    assert(body.subrange(2, 4) =~= crate::wire::u16_bytes(version));
    crate::wire::lemma_u16_at(body, 2, version);
    reveal_with_fuel(versions_acked, 2);
    assert(seq![body].drop_last() =~= Seq::<Seq<u8>>::empty());
    assert(versions_acked(seq![body]) =~= seq![version]);
}

/// A response never grows past what is kept, and its beginning stays.
pub proof fn law_response_keeps_its_beginning(kept: Seq<u8>, more: Seq<u8>)
    requires
        kept.len() <= RESPONSE_MAX,
    ensures
        kept_of(kept, more).len() <= RESPONSE_MAX,
        kept_of(kept, more) == (kept + more).take(kept_of(kept, more).len() as int),
        kept.len() + more.len() <= RESPONSE_MAX ==> kept_of(kept, more) == kept + more,
    decreases more.len(),
{
    if more.len() == 0 {
        assert((kept + more).take(kept.len() as int) =~= kept);
        assert(kept + more =~= kept);
    } else {
        law_response_keeps_its_beginning(kept, more.drop_last());
        let before = kept_of(kept, more.drop_last());
        assert((kept + more).take(before.len() as int) =~= (kept + more.drop_last()).take(
            before.len() as int,
        ));
        if before.len() < RESPONSE_MAX {
            lemma_not_full_keeps_all(kept, more.drop_last());
            assert(before =~= kept + more.drop_last());
            assert(before.push(more.last()) =~= kept + more);
            assert((kept + more).take((kept + more).len() as int) =~= kept + more);
        }
    }
}

proof fn lemma_not_full_keeps_all(kept: Seq<u8>, more: Seq<u8>)
    requires
        kept_of(kept, more).len() < RESPONSE_MAX,
    ensures
        kept_of(kept, more) == kept + more,
    decreases more.len(),
{
    if more.len() == 0 {
        assert(kept + more =~= kept);
    } else {
        lemma_not_full_keeps_all(kept, more.drop_last());
        assert((kept + more.drop_last()).push(more.last()) =~= kept + more);
    }
}

/// A window is open until it ends, for what is left of it.
pub proof fn law_window_closes(ends_ms: u64, now_ms: u64)
    ensures
        window_left(ends_ms, now_ms) is None <==> now_ms >= ends_ms,
        window_left(ends_ms, now_ms) matches Some(ms) ==> now_ms + ms == ends_ms,
{
}

/// The factory firmware is told by an "OK" anywhere in its response, whatever
/// stands around it; a response without one is somebody, and none is nobody.
pub proof fn law_ok_tells_the_factory(before: Seq<u8>, after: Seq<u8>, other: Seq<u8>)
    requires
        forall|i: int| 0 <= i < other.len() - 1 ==> !(#[trigger] other[i] == 0x4F && other[i + 1]
            == 0x4B),
    ensures
        verdict_on(before + seq![0x4Fu8, 0x4B] + after) == AtVerdict::Factory,
        other.len() > 0 ==> verdict_on(other) == AtVerdict::Unidentified,
        verdict_on(Seq::empty()) == AtVerdict::Silent,
{
    let r = before + seq![0x4Fu8, 0x4B] + after;
    let k = before.len() as int;
    assert(r[k] == 0x4F && r[k + 1] == 0x4B);
}

/// A frame names a version exactly where it acknowledges a ping; the versions
/// of several come in their order.
pub proof fn law_versions_are_read(body: Seq<u8>, earlier: Seq<Seq<u8>>)
    ensures
        version_acked(body) is Some <==> body.len() >= 4 && body[0] == 0x81 && body[1] == 0x01,
        version_acked(body) matches Some(v) ==> v == body[2] + 256 * body[3],
        version_acked(body) matches Some(v) ==> versions_acked(earlier.push(body))
            == versions_acked(earlier).push(v),
        version_acked(body) is None ==> versions_acked(earlier.push(body)) == versions_acked(
            earlier,
        ),
{
    assert(earlier.push(body).drop_last() =~= earlier);
}

/// A dump shows every byte twice: as two hexadecimal digits, four places after
/// those of the byte before, and as text where it is printable.
pub proof fn law_dump_shows_every_byte(bytes: Seq<u8>, i: int)
    requires
        0 <= i < bytes.len(),
    ensures
        hex_list(bytes).len() == 4 * bytes.len() - 2,
        hex_list(bytes)[4 * i] == hex_lower((bytes[i] / 16) as u8),
        hex_list(bytes)[4 * i + 1] == hex_lower((bytes[i] % 16) as u8),
        dump_line(bytes).len() == 5 * bytes.len() + 6,
        dump_line(bytes).subrange(3, 4 * bytes.len() as int + 1) == hex_list(bytes),
        dump_line(bytes)[4 * bytes.len() as int + 5 + i] == if 0x20 <= bytes[i] <= 0x7E {
            bytes[i]
        } else {
            0x2E
        },
{
    lemma_hex_list(bytes, i);
    let n = bytes.len() as int;
    assert(dump_line(bytes).subrange(3, 4 * n + 1) =~= hex_list(bytes));
}

proof fn lemma_hex_list(bytes: Seq<u8>, i: int)
    requires
        0 <= i < bytes.len(),
    ensures
        hex_list(bytes).len() == 4 * bytes.len() - 2,
        hex_list(bytes)[4 * i] == hex_lower((bytes[i] / 16) as u8),
        hex_list(bytes)[4 * i + 1] == hex_lower((bytes[i] % 16) as u8),
    decreases bytes.len(),
{
    let fewer = bytes.drop_last();
    if bytes.len() > 1 {
        if i < fewer.len() {
            lemma_hex_list(fewer, i);
        } else {
            lemma_hex_list(fewer, 0);
        }
    }
}

/// The hexadecimal digits are 0 to 9 and a to f.
pub proof fn law_hex_digits(n: u8)
    requires
        n < 16,
    ensures
        n < 10 ==> hex_lower(n) == 0x30 + n,
        n >= 10 ==> hex_lower(n) == 0x61 + (n - 10),
{
}

/// A dump gives 16 bytes to a line, and the last line what is left.
pub proof fn law_dump_lines(i: int, len: int)
    requires
        0 <= 16 * i < len,
    ensures
        16 * i + 16 <= len ==> line_end(i, len) == 16 * i + 16,
        16 * i + 16 > len ==> line_end(i, len) == len,
{
}

} // verus!

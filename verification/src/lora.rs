//! The LoRa over-air frame and the payload formats it carries.
//!
//! Every transmission is a broadcast: one 3-byte header followed by an
//! application payload. There is no addressing beyond the originator and
//! no routing state - a node either repeats a frame or it does not, which
//! is all a leaf/repeater topology needs.
//!
//! ```text
//! [0] src        originating node address, 1-255
//! [1] id         originator's sequence number, wraps at 256
//! [2] hops_left  remaining retransmissions; 0 = nobody repeats this
//! [3..] payload  1..=PAYLOAD_MAX application bytes
//! ```
//!
//! `(src, id)` identifies a frame for as long as it is in flight, which is
//! what lets a receiver drop duplicates and a repeater avoid looping.
//!
//! There is no checksum here: the SX126x transmits LoRa packets with its
//! hardware CRC enabled and the driver discards frames that fail it, so a
//! software check would only repeat work already done in the radio.
//!
//! Payloads are sent at their true length - nothing is padded - so shrinking
//! a payload format shortens the air time it costs.

use vstd::prelude::*;
use crate::position::POSITION_PACKET_LEN;

verus! {

/// Frame header length: `[src, id, hops_left]`.
pub const HEADER_LEN: usize = 3;

/// Largest application payload carried in one frame. Matches the payload
/// space the ESP link reserves for a forwarded frame.
pub const PAYLOAD_MAX: usize = 32;

/// Largest encoded frame.
pub const FRAME_MAX: usize = HEADER_LEN + PAYLOAD_MAX;

/// A decoded over-air frame borrowing its payload from the receive buffer.
#[derive(Clone, Copy, Debug, PartialEq, Eq)]
pub struct Frame<'a> {
    /// Address of the node that originated the frame (never a repeater's).
    pub src: u8,
    /// Originator's sequence number.
    pub id: u8,
    /// Retransmissions still permitted. A repeater forwards only when this
    /// is non-zero, and decrements it on the way out.
    pub hops_left: u8,
    /// Application payload.
    pub payload: &'a [u8],
}

/// The bytes of a frame on the air.
pub open spec fn frame_bytes(src: u8, id: u8, hops_left: u8, payload: Seq<u8>) -> Seq<u8> {
    seq![src, id, hops_left] + payload
}

/// Whether a payload has a length that a frame can carry.
pub open spec fn payload_fits(payload: Seq<u8>) -> bool {
    0 < payload.len() <= PAYLOAD_MAX
}

/// Whether a received packet is a frame: longer than a header and from a
/// legal address.
pub open spec fn is_frame(bytes: Seq<u8>) -> bool {
    bytes.len() > HEADER_LEN && bytes[0] != 0
}

impl<'a> Frame<'a> {
    /// The bytes of this frame on the air.
    pub open spec fn wire(self) -> Seq<u8> {
        frame_bytes(self.src, self.id, self.hops_left, self.payload@)
    }

    /// Encoded length of this frame.
    pub fn encoded_len(&self) -> (n: usize)
        requires
            HEADER_LEN + self.payload@.len() <= usize::MAX,
        ensures
            n == self.wire().len(),
    {
        HEADER_LEN + self.payload.len()
    }

    /// Write the frame into `out`, returning the number of bytes written.
    ///
    /// Returns `None` if the payload is empty, longer than [`PAYLOAD_MAX`],
    /// or `out` is too small.
    pub fn encode(&self, out: &mut [u8]) -> (r: Option<usize>)
        ensures
            final(out)@.len() == old(out)@.len(),
            r is Some <==> payload_fits(self.payload@) && old(out)@.len() >= self.wire().len(),
            r is None ==> final(out)@ == old(out)@,
            r matches Some(n) ==> n == self.wire().len() && final(out)@ == self.wire() + old(
                out,
            )@.skip(n as int),
    {
        if self.payload.len() == 0 || self.payload.len() > PAYLOAD_MAX {
            return None;
        }
        let n: usize = self.encoded_len();
        if out.len() < n {
            return None;
        }
        let ghost before = out@;
        out[0] = self.src;
        out[1] = self.id;
        out[2] = self.hops_left;
        let mut i: usize = 0;
        while i < self.payload.len()
            invariant
                i <= self.payload@.len() <= PAYLOAD_MAX,
                n == HEADER_LEN + self.payload@.len(),
                n <= before.len() == out@.len(),
                out@[0] == self.src,
                out@[1] == self.id,
                out@[2] == self.hops_left,
                forall|j: int| 0 <= j < i ==> out@[HEADER_LEN + j] == self.payload@[j],
                forall|j: int| n <= j < out@.len() ==> out@[j] == before[j],
            decreases self.payload@.len() - i,
        {
            out[HEADER_LEN + i] = self.payload[i];
            i = i + 1;
        }
        assert(out@ =~= self.wire() + before.skip(n as int));
        Some(n)
    }

    /// Decode a received packet.
    ///
    /// Returns `None` for a runt, an empty payload, or a source address of
    /// 0 - the last of which is not a legal address and so marks the packet
    /// as something other than one of ours.
    pub fn decode(bytes: &'a [u8]) -> (r: Option<Frame<'a>>)
        ensures
            r is Some <==> is_frame(bytes@),
            r matches Some(f) ==> f.wire() == bytes@ && f.src != 0,
    {
        if bytes.len() <= HEADER_LEN || bytes[0] == 0 {
            return None;
        }
        let f = Frame {
            src: bytes[0],
            id: bytes[1],
            hops_left: bytes[2],
            payload: &bytes[HEADER_LEN..bytes.len()],
        };
        assert(f.wire() =~= bytes@);
        Some(f)
    }
}

/// The bytes of a frame tell its header fields and its payload.
pub proof fn law_frame_fields(f: Frame, g: Frame)
    requires
        f.wire() == g.wire(),
    ensures
        f.src == g.src,
        f.id == g.id,
        f.hops_left == g.hops_left,
        f.payload@ == g.payload@,
{
    let a = f.wire();
    let b = g.wire();
    assert(a[0] == f.src && a[1] == f.id && a[2] == f.hops_left);
    assert(b[0] == g.src && b[1] == g.id && b[2] == g.hops_left);
    assert(f.payload@ =~= a.skip(3));
    assert(g.payload@ =~= b.skip(3));
}

/// A frame from a legal address whose payload fits is a frame to the
/// receiver, and what it decodes to is what was encoded.
pub proof fn law_frame_roundtrip(sent: Frame, received: Frame)
    requires
        sent.src != 0,
        payload_fits(sent.payload@),
        received.wire() == sent.wire(),
    ensures
        is_frame(sent.wire()),
        sent.wire().len() <= FRAME_MAX,
        received.src == sent.src,
        received.id == sent.id,
        received.hops_left == sent.hops_left,
        received.payload@ == sent.payload@,
{
    assert(sent.wire()[0] == sent.src);
    law_frame_fields(sent, received);
}

/// Spending a hop of a frame changes nothing else of it: the originator's
/// address and id survive a repeat, so the next hop still tells duplicates.
pub proof fn law_hops_survive_a_repeat(f: Frame, hops_left: u8)
    ensures
        f.wire().update(2, hops_left) == frame_bytes(f.src, f.id, hops_left, f.payload@),
{
    assert(f.wire().update(2, hops_left) =~= frame_bytes(f.src, f.id, hops_left, f.payload@));
}

// -- Position broadcasts ------------------------------------------------------

/// Position broadcast: `[POSITION tag] [position packet 20B]`.
pub const MSG_POSITION: u8 = 0x50;

/// Encoded position message length.
pub const POSITION_MSG_LEN: usize = 1 + POSITION_PACKET_LEN;

/// The bytes of a position broadcast that carries `packet`.
pub open spec fn position_msg(packet: Seq<u8>) -> Seq<u8> {
    seq![MSG_POSITION] + packet
}

/// The position packet that a payload carries, if it is a position
/// broadcast.
pub open spec fn position_in(data: Seq<u8>) -> Option<Seq<u8>> {
    if data.len() >= POSITION_MSG_LEN && data[0] == MSG_POSITION {
        Some(data.subrange(1, POSITION_MSG_LEN as int))
    } else {
        None
    }
}

/// Encode a position broadcast around an encoded position packet.
pub fn encode_position(packet: &[u8; POSITION_PACKET_LEN]) -> (b: [u8; POSITION_MSG_LEN])
    ensures
        b@ == position_msg(packet@),
{
    let mut b: [u8; POSITION_MSG_LEN] = [0u8;POSITION_MSG_LEN];
    b[0] = MSG_POSITION;
    let mut i: usize = 0;
    while i < POSITION_PACKET_LEN
        invariant
            i <= POSITION_PACKET_LEN,
            b@[0] == MSG_POSITION,
            forall|j: int| 0 <= j < i ==> b@[1 + j] == packet@[j],
        decreases POSITION_PACKET_LEN - i,
    {
        b[1 + i] = packet[i];
        i = i + 1;
    }
    assert(b@ =~= position_msg(packet@));
    b
}

/// The encoded position packet of a position broadcast, or `None` if the
/// payload is something else.
pub fn decode_position(data: &[u8]) -> (r: Option<[u8; POSITION_PACKET_LEN]>)
    ensures
        match r {
            Some(p) => position_in(data@) == Some(p@),
            None => position_in(data@) is None,
        },
{
    if data.len() < POSITION_MSG_LEN || data[0] != MSG_POSITION {
        return None;
    }
    let mut p: [u8; POSITION_PACKET_LEN] = [0u8;POSITION_PACKET_LEN];
    let mut i: usize = 0;
    while i < POSITION_PACKET_LEN
        invariant
            i <= POSITION_PACKET_LEN,
            POSITION_MSG_LEN <= data@.len(),
            forall|j: int| 0 <= j < i ==> p@[j] == data@[1 + j],
        decreases POSITION_PACKET_LEN - i,
    {
        p[i] = data[1 + i];
        i = i + 1;
    }
    assert(p@ =~= data@.subrange(1, POSITION_MSG_LEN as int));
    Some(p)
}

/// A position broadcast carries the packet that went into it.
pub proof fn law_position_roundtrip(packet: Seq<u8>)
    requires
        packet.len() == POSITION_PACKET_LEN,
    ensures
        position_msg(packet).len() == POSITION_MSG_LEN,
        payload_fits(position_msg(packet)),
        position_in(position_msg(packet)) == Some(packet),
{
    assert(position_msg(packet).subrange(1, POSITION_MSG_LEN as int) =~= packet);
}

// -- Beacon fields ------------------------------------------------------------

/// Latitude.
pub const FIELD_LAT: u8 = 1 << 0;

/// Longitude.
pub const FIELD_LON: u8 = 1 << 1;

/// Altitude.
pub const FIELD_ALT: u8 = 1 << 2;

/// Ground speed.
pub const FIELD_SPEED: u8 = 1 << 3;

/// Course over ground.
pub const FIELD_COURSE: u8 = 1 << 4;

/// Satellites used.
pub const FIELD_SATS: u8 = 1 << 5;

/// Time of day.
pub const FIELD_TIME: u8 = 1 << 6;

/// What a beacon carries unless it is configured otherwise: position only.
pub const FIELDS_DEFAULT: u8 = FIELD_LAT | FIELD_LON;

/// What a beacon cannot leave out.
pub const FIELDS_REQUIRED: u8 = FIELD_LAT | FIELD_LON;

/// The bytes that one field adds to a message whose mask is `mask`.
pub open spec fn field_len(mask: u8, field: u8, width: nat) -> nat {
    if mask & field != 0 {
        width
    } else {
        0
    }
}

/// Length of a masked position message: tag, mask, then the fields that the
/// mask names, each at its own width.
pub open spec fn masked_len(mask: u8) -> nat {
    2 + field_len(mask, FIELD_LAT, 4) + field_len(mask, FIELD_LON, 4) + field_len(
        mask,
        FIELD_ALT,
        2,
    ) + field_len(mask, FIELD_SPEED, 2) + field_len(mask, FIELD_COURSE, 2) + field_len(
        mask,
        FIELD_SATS,
        1,
    ) + field_len(mask, FIELD_TIME, 4)
}

fn width_if(mask: u8, field: u8, width: usize) -> (n: usize)
    ensures
        n == field_len(mask, field, width as nat),
{
    if mask & field != 0 {
        width
    } else {
        0
    }
}

/// Length of a position message that carries the fields in `mask`.
pub fn position_msg_len(mask: u8) -> (n: usize)
    ensures
        n == masked_len(mask),
        n <= PAYLOAD_MAX,
{
    2 + width_if(mask, FIELD_LAT, 4) + width_if(mask, FIELD_LON, 4) + width_if(mask, FIELD_ALT, 2)
        + width_if(mask, FIELD_SPEED, 2) + width_if(mask, FIELD_COURSE, 2) + width_if(
        mask,
        FIELD_SATS,
        1,
    ) + width_if(mask, FIELD_TIME, 4)
}

/// A frame on the air: who sent it, under which id, with how many hops left,
/// and the payload behind. A packet of another length or from address 0 is
/// no frame.
pub proof fn law_frame_layout(src: u8, id: u8, hops_left: u8, payload: Seq<u8>, packet: Seq<u8>)
    ensures
        ({
            let b = frame_bytes(src, id, hops_left, payload);
            &&& b.len() == payload.len() + 3
            &&& b[0] == src && b[1] == id && b[2] == hops_left
            &&& b.skip(3) == payload
        }),
        payload_fits(payload) <==> 1 <= payload.len() <= 32,
        is_frame(packet) <==> packet.len() >= 4 && packet[0] != 0,
{
    assert(frame_bytes(src, id, hops_left, payload).skip(3) =~= payload);
}

/// A position broadcast is its tag and the packet; what a payload carries is
/// read from there, exactly where the tag is right and 20 bytes follow.
pub proof fn law_position_layout(packet: Seq<u8>, data: Seq<u8>)
    ensures
        position_msg(packet).len() == packet.len() + 1,
        position_msg(packet)[0] == 0x50,
        position_msg(packet).skip(1) == packet,
        position_in(data) is Some <==> data.len() >= 21 && data[0] == 0x50,
        position_in(data) matches Some(p) ==> p.len() == 20 && forall|i: int|
            0 <= i < 20 ==> #[trigger] p[i] == data[1 + i],
{
    assert(position_msg(packet).skip(1) =~= packet);
}

/// A masked message without fields is two bytes long, and every field adds its
/// own width, whatever other fields there are: 4 bytes for a coordinate and
/// the time, 2 for altitude, speed and course, 1 for the satellites.
pub proof fn law_fields_add_up(mask: u8)
    ensures
        masked_len(0) == 2,
        masked_len(mask | 1) == masked_len(mask & 0xFE) + 4,
        masked_len(mask | 2) == masked_len(mask & 0xFD) + 4,
        masked_len(mask | 4) == masked_len(mask & 0xFB) + 2,
        masked_len(mask | 8) == masked_len(mask & 0xF7) + 2,
        masked_len(mask | 16) == masked_len(mask & 0xEF) + 2,
        masked_len(mask | 32) == masked_len(mask & 0xDF) + 1,
        masked_len(mask | 64) == masked_len(mask & 0xBF) + 4,
        masked_len(mask | 128) == masked_len(mask & 0x7F),
{
    assert(0u8 & FIELD_LAT == 0 && 0u8 & FIELD_LON == 0 && 0u8 & FIELD_ALT == 0 && 0u8
        & FIELD_SPEED == 0 && 0u8 & FIELD_COURSE == 0 && 0u8 & FIELD_SATS == 0 && 0u8 & FIELD_TIME
        == 0) by (bit_vector);
    assert(!1u8 == 0xFE && !2u8 == 0xFD && !4u8 == 0xFB && !8u8 == 0xF7 && !16u8 == 0xEF && !32u8
        == 0xDF && !64u8 == 0xBF && !128u8 == 0x7F) by (bit_vector);
    lemma_field_alone(mask, 1, 0xFE);
    lemma_field_alone(mask, 2, 0xFD);
    lemma_field_alone(mask, 4, 0xFB);
    lemma_field_alone(mask, 8, 0xF7);
    lemma_field_alone(mask, 16, 0xEF);
    lemma_field_alone(mask, 32, 0xDF);
    lemma_field_alone(mask, 64, 0xBF);
    lemma_field_alone(mask, 128, 0x7F);
}

proof fn lemma_field_alone(mask: u8, bit: u8, rest: u8)
    by (bit_vector)
    requires
        rest == !bit,
        bit == 1 || bit == 2 || bit == 4 || bit == 8 || bit == 16 || bit == 32 || bit == 64 || bit
            == 128,
    ensures
        (mask | bit) & FIELD_LAT != 0 <==> bit == 1 || (mask & rest) & FIELD_LAT != 0,
        (mask | bit) & FIELD_LON != 0 <==> bit == 2 || (mask & rest) & FIELD_LON != 0,
        (mask | bit) & FIELD_ALT != 0 <==> bit == 4 || (mask & rest) & FIELD_ALT != 0,
        (mask | bit) & FIELD_SPEED != 0 <==> bit == 8 || (mask & rest) & FIELD_SPEED != 0,
        (mask | bit) & FIELD_COURSE != 0 <==> bit == 16 || (mask & rest) & FIELD_COURSE != 0,
        (mask | bit) & FIELD_SATS != 0 <==> bit == 32 || (mask & rest) & FIELD_SATS != 0,
        (mask | bit) & FIELD_TIME != 0 <==> bit == 64 || (mask & rest) & FIELD_TIME != 0,
        bit == 1 ==> (mask & rest) & FIELD_LAT == 0,
        bit == 2 ==> (mask & rest) & FIELD_LON == 0,
        bit == 4 ==> (mask & rest) & FIELD_ALT == 0,
        bit == 8 ==> (mask & rest) & FIELD_SPEED == 0,
        bit == 16 ==> (mask & rest) & FIELD_COURSE == 0,
        bit == 32 ==> (mask & rest) & FIELD_SATS == 0,
        bit == 64 ==> (mask & rest) & FIELD_TIME == 0,
{
}

} // verus!

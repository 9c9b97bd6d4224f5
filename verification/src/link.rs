//! Framed UART protocol between the ESP32-C6 and the WIO-E5.
//!
//! Frame format:
//!   `[SYNC 0xAA] [LEN_LO] [LEN_HI] [CMD] [PAYLOAD: LEN bytes] [CRC8]`
//!
//! LEN is the payload length only (0-256). CRC8 covers CMD + PAYLOAD.
//! Both directions use the same framing; command ids are split by
//! direction so a device never confuses an echo for a request.

use vstd::prelude::*;
use crate::wire::{get_i16, get_u16, get_u32, put_i16, put_u16, put_u32};

pub mod cmd;
pub mod err;
pub mod msg;
pub mod resp;
pub mod usb;

verus! {

/// Frame sync byte.
pub const SYNC: u8 = 0xAA;

/// Maximum payload size per frame.
pub const MAX_PAYLOAD: usize = 256;

/// UART baud rate on the ESP <-> WIO link.
pub const BAUD: u32 = 115_200;

/// A radio-busy flag from the peer expires after this long without a
/// refresh, so a lost "clear" frame cannot wedge the other side.
pub const RADIO_BUSY_TIMEOUT_MS: u32 = 3_000;

/// Data bytes per FW_DATA/CFG_DATA frame. Sized well below [`MAX_PAYLOAD`]
/// so a frame plus response turnaround stays short at 115200 baud.
pub const DATA_CHUNK: usize = 192;

/// Maximum bytes in a [`msg::LOG`] status line (and the matching BLE
/// characteristic value). Longer lines are truncated at the source.
pub const LOG_MAX: usize = 64;

// -- Telemetry (WIO -> ESP -> BLE) ------------------------------------------

/// Set in [`Telemetry::flags`] when the SD card is initialized and logging.
pub const TELEM_FLAG_SD_OK: u8 = 0x01;

/// Set when the GPS currently has a fix.
pub const TELEM_FLAG_GPS_FIX: u8 = 0x02;

/// Set when the radio config was loaded from SD/UART (not defaults).
pub const TELEM_FLAG_CFG_LOADED: u8 = 0x04;

/// The WIO's config asks for verbose console logging.
pub const TELEM_FLAG_VERBOSE: u8 = 0x08;

pub const TELEMETRY_LEN: usize = 16;

/// Periodic WIO status, also served over BLE.
///
/// Layout (little-endian): `last_rssi: i16, last_snr_cb: i16,
/// secs_since_rx: u16, rx_count: u32, tx_count: u32, flags: u8, sats: u8`.
#[derive(Clone, Copy, Debug, PartialEq, Eq, Structural)]
pub struct Telemetry {
    /// RSSI of the last received LoRa packet (dBm), 0 if none yet.
    pub last_rssi: i16,
    /// SNR of the last received LoRa packet in centibels (quarter-dB * 25).
    pub last_snr_cb: i16,
    /// Seconds since the last LoRa RX; 0xFFFF = never.
    pub secs_since_rx: u16,
    /// LoRa packets received since boot.
    pub rx_count: u32,
    /// LoRa packets transmitted since boot.
    pub tx_count: u32,
    /// TELEM_FLAG_* bits.
    pub flags: u8,
    /// Satellites used in the current GPS fix.
    pub sats: u8,
}

impl Default for Telemetry {
    fn default() -> (t: Self)
        ensures
            t == (Telemetry {
                last_rssi: 0,
                last_snr_cb: 0,
                secs_since_rx: 0,
                rx_count: 0,
                tx_count: 0,
                flags: 0,
                sats: 0,
            }),
    {
        Telemetry {
            last_rssi: 0,
            last_snr_cb: 0,
            secs_since_rx: 0,
            rx_count: 0,
            tx_count: 0,
            flags: 0,
            sats: 0,
        }
    }
}

impl Telemetry {
    /// The 16 bytes on the wire.
    pub open spec fn wire(self) -> Seq<u8> {
        crate::wire::i16_bytes(self.last_rssi) + crate::wire::i16_bytes(self.last_snr_cb)
            + crate::wire::u16_bytes(self.secs_since_rx) + crate::wire::u32_bytes(self.rx_count)
            + crate::wire::u32_bytes(self.tx_count) + seq![self.flags, self.sats]
    }

    /// What a byte string holds, read as telemetry.
    pub open spec fn read(b: Seq<u8>) -> Option<Telemetry> {
        if b.len() < TELEMETRY_LEN {
            None
        } else {
            Some(
                Telemetry {
                    last_rssi: crate::wire::i16_at(b, 0),
                    last_snr_cb: crate::wire::i16_at(b, 2),
                    secs_since_rx: crate::wire::u16_at(b, 4),
                    rx_count: crate::wire::u32_at(b, 6),
                    tx_count: crate::wire::u32_at(b, 10),
                    flags: b[14],
                    sats: b[15],
                },
            )
        }
    }

    pub fn encode(&self) -> (b: [u8; TELEMETRY_LEN])
        ensures
            b@ == self.wire(),
    {
        let rssi: [u8; 2] = put_i16(self.last_rssi);
        let snr: [u8; 2] = put_i16(self.last_snr_cb);
        let secs: [u8; 2] = put_u16(self.secs_since_rx);
        let rx: [u8; 4] = put_u32(self.rx_count);
        let tx: [u8; 4] = put_u32(self.tx_count);
        let b: [u8; TELEMETRY_LEN] = [
            rssi[0],
            rssi[1],
            snr[0],
            snr[1],
            secs[0],
            secs[1],
            rx[0],
            rx[1],
            rx[2],
            rx[3],
            tx[0],
            tx[1],
            tx[2],
            tx[3],
            self.flags,
            self.sats,
        ];
        assert(b@ =~= self.wire());
        b
    }

    /// Extra trailing bytes are tolerated; short input is rejected.
    pub fn decode(b: &[u8]) -> (t: Option<Self>)
        ensures
            t == Telemetry::read(b@),
    {
        if b.len() < TELEMETRY_LEN {
            return None;
        }
        Some(
            Telemetry {
                last_rssi: get_i16(b, 0),
                last_snr_cb: get_i16(b, 2),
                secs_since_rx: get_u16(b, 4),
                rx_count: get_u32(b, 6),
                tx_count: get_u32(b, 10),
                flags: b[14],
                sats: b[15],
            },
        )
    }
}

/// Encoded telemetry reads back as itself, whatever bytes follow it.
pub proof fn law_telemetry_roundtrip(t: Telemetry, trailing: Seq<u8>)
    ensures
        Telemetry::read(t.wire() + trailing) == Some(t),
{
    let b = t.wire() + trailing;
    assert(b.subrange(0, 2) =~= crate::wire::i16_bytes(t.last_rssi));
    assert(b.subrange(2, 4) =~= crate::wire::i16_bytes(t.last_snr_cb));
    assert(b.subrange(4, 6) =~= crate::wire::u16_bytes(t.secs_since_rx));
    assert(b.subrange(6, 10) =~= crate::wire::u32_bytes(t.rx_count));
    assert(b.subrange(10, 14) =~= crate::wire::u32_bytes(t.tx_count));
    crate::wire::lemma_i16_at(b, 0, t.last_rssi);
    crate::wire::lemma_i16_at(b, 2, t.last_snr_cb);
    crate::wire::lemma_u16_at(b, 4, t.secs_since_rx);
    crate::wire::lemma_u32_at(b, 6, t.rx_count);
    crate::wire::lemma_u32_at(b, 10, t.tx_count);
}

// -- CRC-8 and CRC-32 ---------------------------------------------------------

/// One shift of the CRC-8 register: multiply by x modulo x^8 + x^2 + x + 1.
pub open spec fn crc8_shift(c: u8) -> u8 {
    if c & 0x80 != 0 {
        (c << 1) ^ 0x07
    } else {
        c << 1
    }
}

/// `n` shifts of the CRC-8 register.
pub open spec fn crc8_shifts(c: u8, n: nat) -> u8
    decreases n,
{
    if n == 0 {
        c
    } else {
        crc8_shift(crc8_shifts(c, (n - 1) as nat))
    }
}

/// CRC-8 (polynomial 0x07, initial value 0, most significant bit first).
pub open spec fn crc8_of(data: Seq<u8>) -> u8
    decreases data.len(),
{
    if data.len() == 0 {
        0
    } else {
        crc8_shifts(crc8_of(data.drop_last()) ^ data.last(), 8)
    }
}

/// One shift of the reflected CRC-32 register.
pub open spec fn crc32_shift(c: u32) -> u32 {
    if c & 1 != 0 {
        (c >> 1) ^ 0xEDB8_8320
    } else {
        c >> 1
    }
}

/// `n` shifts of the CRC-32 register.
pub open spec fn crc32_shifts(c: u32, n: nat) -> u32
    decreases n,
{
    if n == 0 {
        c
    } else {
        crc32_shift(crc32_shifts(c, (n - 1) as nat))
    }
}

/// The CRC-32 register after `data`, before the final inversion.
pub open spec fn crc32_register(data: Seq<u8>) -> u32
    decreases data.len(),
{
    if data.len() == 0 {
        0xFFFF_FFFF
    } else {
        crc32_shifts(crc32_register(data.drop_last()) ^ (data.last() as u32), 8)
    }
}

/// CRC-32 (IEEE, reflected): the zlib value.
pub open spec fn crc32_of(data: Seq<u8>) -> u32 {
    !crc32_register(data)
}

/// CRC-8 with polynomial 0x07 over CMD + PAYLOAD.
pub fn crc8(data: &[u8]) -> (crc: u8)
    ensures
        crc == crc8_of(data@),
{
    let mut crc: u8 = 0;
    let mut i: usize = 0;
    while i < data.len()
        invariant
            i <= data@.len(),
            crc == crc8_of(data@.take(i as int)),
        decreases data@.len() - i,
    {
        let ghost before = crc;
        crc = crc ^ data[i];
        let ghost mixed = crc;
        let mut bit: u8 = 0;
        while bit < 8
            invariant
                bit <= 8,
                crc == crc8_shifts(mixed, bit as nat),
            decreases 8 - bit,
        {
            if crc & 0x80 != 0 {
                crc = (crc << 1) ^ 0x07;
            } else {
                crc = crc << 1;
            }
            bit = bit + 1;
        }
        assert(data@.take(i + 1).drop_last() =~= data@.take(i as int));
        i = i + 1;
    }
    assert(data@.take(i as int) =~= data@);
    crc
}

/// CRC-32 (IEEE, reflected) used for config and firmware transfer
/// integrity. Matches the standard zlib value.
pub fn crc32(data: &[u8]) -> (crc: u32)
    ensures
        crc == crc32_of(data@),
{
    let mut crc: u32 = 0xFFFF_FFFF;
    let mut i: usize = 0;
    while i < data.len()
        invariant
            i <= data@.len(),
            crc == crc32_register(data@.take(i as int)),
        decreases data@.len() - i,
    {
        crc = crc ^ (data[i] as u32);
        let ghost mixed = crc;
        let mut bit: u8 = 0;
        while bit < 8
            invariant
                bit <= 8,
                crc == crc32_shifts(mixed, bit as nat),
            decreases 8 - bit,
        {
            if crc & 1 != 0 {
                crc = (crc >> 1) ^ 0xEDB8_8320;
            } else {
                crc = crc >> 1;
            }
            bit = bit + 1;
        }
        assert(data@.take(i + 1).drop_last() =~= data@.take(i as int));
        i = i + 1;
    }
    assert(data@.take(i as int) =~= data@);
    !crc
}

proof fn lemma_crc8_shifts_injective(a: u8, b: u8, n: nat)
    ensures
        crc8_shifts(a, n) == crc8_shifts(b, n) ==> a == b,
    decreases n,
{
    if n > 0 {
        lemma_crc8_shifts_injective(a, b, (n - 1) as nat);
        let x = crc8_shifts(a, (n - 1) as nat);
        let y = crc8_shifts(b, (n - 1) as nat);
        assert(crc8_shift(x) == crc8_shift(y) ==> x == y) by (bit_vector);
    }
}

proof fn lemma_crc32_shifts_injective(a: u32, b: u32, n: nat)
    ensures
        crc32_shifts(a, n) == crc32_shifts(b, n) ==> a == b,
    decreases n,
{
    if n > 0 {
        lemma_crc32_shifts_injective(a, b, (n - 1) as nat);
        let x = crc32_shifts(a, (n - 1) as nat);
        let y = crc32_shifts(b, (n - 1) as nat);
        assert(crc32_shift(x) == crc32_shift(y) ==> x == y) by (bit_vector);
    }
}

/// CRC-8 tells apart any two byte strings of one length that differ in
/// exactly one byte.
pub proof fn law_crc8_detects_byte_error(a: Seq<u8>, b: Seq<u8>, k: int)
    requires
        a.len() == b.len(),
        0 <= k < a.len(),
        a[k] != b[k],
        forall|i: int| 0 <= i < a.len() && i != k ==> a[i] == b[i],
    ensures
        crc8_of(a) != crc8_of(b),
    decreases a.len(),
{
    let ca = crc8_of(a.drop_last());
    let cb = crc8_of(b.drop_last());
    let x = a.last();
    let y = b.last();
    lemma_crc8_shifts_injective(ca ^ x, cb ^ y, 8);
    if k == a.len() - 1 {
        assert(a.drop_last() =~= b.drop_last());
        assert(ca == cb && x != y ==> ca ^ x != cb ^ y) by (bit_vector);
    } else {
        law_crc8_detects_byte_error(a.drop_last(), b.drop_last(), k);
        assert(ca != cb && x == y ==> ca ^ x != cb ^ y) by (bit_vector);
    }
}

/// CRC-32 tells apart any two byte strings of one length that differ in
/// exactly one byte.
pub proof fn law_crc32_detects_byte_error(a: Seq<u8>, b: Seq<u8>, k: int)
    requires
        a.len() == b.len(),
        0 <= k < a.len(),
        a[k] != b[k],
        forall|i: int| 0 <= i < a.len() && i != k ==> a[i] == b[i],
    ensures
        crc32_of(a) != crc32_of(b),
{
    lemma_crc32_register_differs(a, b, k);
    let ra = crc32_register(a);
    let rb = crc32_register(b);
    assert(ra != rb ==> !ra != !rb) by (bit_vector);
}

proof fn lemma_crc32_register_differs(a: Seq<u8>, b: Seq<u8>, k: int)
    requires
        a.len() == b.len(),
        0 <= k < a.len(),
        a[k] != b[k],
        forall|i: int| 0 <= i < a.len() && i != k ==> a[i] == b[i],
    ensures
        crc32_register(a) != crc32_register(b),
    decreases a.len(),
{
    let ca = crc32_register(a.drop_last());
    let cb = crc32_register(b.drop_last());
    let x = a.last() as u32;
    let y = b.last() as u32;
    lemma_crc32_shifts_injective(ca ^ x, cb ^ y, 8);
    if k == a.len() - 1 {
        assert(a.drop_last() =~= b.drop_last());
        assert(ca == cb && x != y ==> ca ^ x != cb ^ y) by (bit_vector);
    } else {
        lemma_crc32_register_differs(a.drop_last(), b.drop_last(), k);
        assert(ca != cb && x == y ==> ca ^ x != cb ^ y) by (bit_vector);
    }
}

// -- Frames -------------------------------------------------------------------

/// The bytes of a frame on the wire.
pub open spec fn frame_wire(cmd: u8, payload: Seq<u8>) -> Seq<u8> {
    seq![SYNC] + crate::wire::u16_bytes(payload.len() as u16) + frame_body(cmd, payload) + seq![
        crc8_of(frame_body(cmd, payload)),
    ]
}

/// The part of a frame that the CRC covers.
pub open spec fn frame_body(cmd: u8, payload: Seq<u8>) -> Seq<u8> {
    seq![cmd] + payload
}

/// A payload cut down to what one frame can carry.
pub open spec fn clip_payload(payload: Seq<u8>) -> Seq<u8> {
    if payload.len() > MAX_PAYLOAD {
        payload.take(MAX_PAYLOAD as int)
    } else {
        payload
    }
}

/// Where the receiver stands inside a frame.
#[verifier::ext_equal]
pub enum Receiving {
    /// Looking for the sync byte.
    Sync,
    /// The next byte is the low half of the length.
    LenLo,
    /// The next byte is the high half of the length.
    LenHi { lo: u8 },
    /// `got` are the command and payload bytes so far, out of `expected`.
    Data { expected: nat, got: Seq<u8> },
    /// The next byte is the CRC of `body`.
    Crc { body: Seq<u8> },
}

/// What one received byte does: the state it leads to and, where it
/// completes a frame whose CRC is right, that frame's body.
pub open spec fn receive(s: Receiving, byte: u8) -> (Receiving, Option<Seq<u8>>) {
    match s {
        Receiving::Sync => (
            if byte == SYNC {
                Receiving::LenLo
            } else {
                Receiving::Sync
            },
            None,
        ),
        Receiving::LenLo => (Receiving::LenHi { lo: byte }, None),
        Receiving::LenHi { lo } => (
            if lo + 256 * byte > MAX_PAYLOAD {
                Receiving::Sync
            } else {
                Receiving::Data { expected: (lo + 256 * byte + 1) as nat, got: Seq::empty() }
            },
            None,
        ),
        Receiving::Data { expected, got } => (
            if got.len() + 1 >= expected {
                Receiving::Crc { body: got.push(byte) }
            } else {
                Receiving::Data { expected, got: got.push(byte) }
            },
            None,
        ),
        Receiving::Crc { body } => (
            Receiving::Sync,
            if crc8_of(body) == byte {
                Some(body)
            } else {
                None
            },
        ),
    }
}

/// What a run of received bytes does: the state it leads to and the bodies
/// of the frames it completes, in order.
pub open spec fn receive_all(s: Receiving, bytes: Seq<u8>) -> (Receiving, Seq<Seq<u8>>)
    decreases bytes.len(),
{
    if bytes.len() == 0 {
        (s, Seq::empty())
    } else {
        let (s1, done) = receive_all(s, bytes.drop_last());
        let (s2, one) = receive(s1, bytes.last());
        (
            s2,
            match one {
                Some(body) => done.push(body),
                None => done,
            },
        )
    }
}

const BODY_MAX: usize = MAX_PAYLOAD + 1;

#[derive(Clone, Copy)]
enum ParseState {
    Sync,
    LenLo,
    LenHi,
    Data,
    Crc,
}

/// A parsed frame ready for processing.
pub struct Frame<'a> {
    pub cmd: u8,
    pub payload: &'a [u8],
}

/// Incremental frame parser. Feed bytes one at a time via
/// [`feed`](FrameParser::feed); when it returns `true`, read the frame with
/// [`frame`](FrameParser::frame).
pub struct FrameParser {
    state: ParseState,
    /// Buffer holding CMD + PAYLOAD.
    buf: [u8; BODY_MAX],
    /// Total expected bytes in buf (1 cmd + len payload).
    expected: usize,
    /// Current write position in buf.
    pos: usize,
}

impl View for FrameParser {
    type V = Receiving;

    closed spec fn view(&self) -> Receiving {
        match self.state {
            ParseState::Sync => Receiving::Sync,
            ParseState::LenLo => Receiving::LenLo,
            ParseState::LenHi => Receiving::LenHi { lo: self.expected as u8 },
            ParseState::Data => Receiving::Data {
                expected: self.expected as nat,
                got: self.buf@.take(self.pos as int),
            },
            ParseState::Crc => Receiving::Crc { body: self.buf@.take(self.pos as int) },
        }
    }
}

impl Default for FrameParser {
    fn default() -> (p: Self)
        ensures
            p.wf(),
            p@ == Receiving::Sync,
            !p.holds_frame(),
    {
        Self::new()
    }
}

impl FrameParser {
    /// The fields agree with the state.
    pub closed spec fn wf(&self) -> bool {
        match self.state {
            ParseState::Sync => true,
            ParseState::LenLo => true,
            ParseState::LenHi => self.expected < 256,
            ParseState::Data => 1 <= self.expected <= BODY_MAX && self.pos < self.expected,
            ParseState::Crc => 1 <= self.expected <= BODY_MAX && self.pos == self.expected,
        }
    }

    /// The body of the frame that [`frame`](Self::frame) would hand out.
    pub closed spec fn body(&self) -> Seq<u8> {
        self.buf@.take(self.expected as int)
    }

    /// Whether the parser holds a frame to hand out.
    pub closed spec fn holds_frame(&self) -> bool {
        1 <= self.expected <= BODY_MAX
    }

    /// A parser that looks for a sync byte and has no frame to hand out.
    pub fn new() -> (p: Self)
        ensures
            p.wf(),
            p@ == Receiving::Sync,
            !p.holds_frame(),
    {
        FrameParser { state: ParseState::Sync, buf: [0u8;BODY_MAX], expected: 0, pos: 0 }
    }

    /// Feed a single byte. Returns `true` when a complete frame with a
    /// valid CRC has been received.
    pub fn feed(&mut self, byte: u8) -> (complete: bool)
        requires
            old(self).wf(),
        ensures
            final(self).wf(),
            final(self)@ == receive(old(self)@, byte).0,
            complete == (receive(old(self)@, byte).1 is Some),
            complete ==> final(self).holds_frame() && receive(old(self)@, byte).1 == Some(
                final(self).body(),
            ),
    {
        match self.state {
            ParseState::Sync => {
                if byte == SYNC {
                    self.state = ParseState::LenLo;
                }
                false
            },
            ParseState::LenLo => {
                self.expected = byte as usize;
                self.state = ParseState::LenHi;
                false
            },
            ParseState::LenHi => {
                self.expected = self.expected + 256 * (byte as usize);
                if self.expected > MAX_PAYLOAD {
                    self.state = ParseState::Sync;
                } else {
                    self.expected = self.expected + 1;
                    self.pos = 0;
                    self.state = ParseState::Data;
                    assert(self.buf@.take(0) =~= Seq::<u8>::empty());
                }
                false
            },
            ParseState::Data => {
                let ghost got = self.buf@.take(self.pos as int);
                self.buf[self.pos] = byte;
                self.pos = self.pos + 1;
                assert(self.buf@.take(self.pos as int) =~= got.push(byte));
                if self.pos >= self.expected {
                    self.state = ParseState::Crc;
                }
                false
            },
            ParseState::Crc => {
                let computed: u8 = crc8(&self.buf[0..self.expected]);
                self.state = ParseState::Sync;
                assert(self.buf@.subrange(0, self.expected as int) =~= self.body());
                computed == byte
            },
        }
    }

    /// The last parsed frame. Only valid after [`feed`](Self::feed)
    /// returned `true`.
    pub fn frame(&self) -> (f: Frame<'_>)
        requires
            self.holds_frame(),
        ensures
            self.body() == frame_body(f.cmd, f.payload@),
    {
        let f = Frame { cmd: self.buf[0], payload: &self.buf[1..self.expected] };
        assert(self.body() =~= frame_body(f.cmd, f.payload@));
        f
    }
}

/// Max on-wire frame size: 1 sync + 2 len + 1 cmd + payload + 1 crc.
pub const MAX_FRAME: usize = 5 + MAX_PAYLOAD;

/// Scratch buffer for building outgoing frames.
pub struct FrameBuf {
    pub buf: [u8; MAX_FRAME],
    pub len: usize,
}

impl View for FrameBuf {
    type V = Seq<u8>;

    open spec fn view(&self) -> Seq<u8> {
        self.buf@.take(self.len as int)
    }
}

impl Default for FrameBuf {
    fn default() -> (f: Self)
        ensures
            f@ == Seq::<u8>::empty(),
            f.len == 0,
            f.buf@ == Seq::new(MAX_FRAME as nat, |i: int| 0u8),
    {
        Self::new()
    }
}

impl FrameBuf {
    /// A buffer of zeros with no frame in it.
    pub fn new() -> (f: Self)
        ensures
            f@ == Seq::<u8>::empty(),
            f.len == 0,
            f.buf@ == Seq::new(MAX_FRAME as nat, |i: int| 0u8),
    {
        let f = FrameBuf { buf: [0u8;MAX_FRAME], len: 0 };
        assert(f@ =~= Seq::<u8>::empty());
        f
    }

    /// Build a frame with the given command and payload. Payload bytes past
    /// [`MAX_PAYLOAD`] are left out.
    pub fn build(&mut self, cmd: u8, payload: &[u8]) -> (bytes: &[u8])
        ensures
            bytes@ == frame_wire(cmd, clip_payload(payload@)),
            final(self)@ == frame_wire(cmd, clip_payload(payload@)),
            final(self).len <= MAX_FRAME,
    {
        let plen: usize = if payload.len() > MAX_PAYLOAD {
            MAX_PAYLOAD
        } else {
            payload.len()
        };
        let ghost clipped = clip_payload(payload@);
        assert(clipped =~= payload@.take(plen as int));
        self.buf[0] = SYNC;
        self.buf[1] = (plen % 256) as u8;
        self.buf[2] = (plen / 256) as u8;
        self.buf[3] = cmd;
        let mut i: usize = 0;
        while i < plen
            invariant
                i <= plen <= MAX_PAYLOAD,
                plen <= payload@.len(),
                self.buf@.len() == MAX_FRAME,
                self.buf@[0] == SYNC,
                self.buf@[1] == (plen % 256) as u8,
                self.buf@[2] == (plen / 256) as u8,
                self.buf@[3] == cmd,
                forall|j: int| 0 <= j < i ==> self.buf@[4 + j] == payload@[j],
            decreases plen - i,
        {
            self.buf[4 + i] = payload[i];
            i = i + 1;
        }
        let crc_end: usize = 4 + plen;
        let crc: u8 = crc8(&self.buf[3..crc_end]);
        assert(self.buf@.subrange(3, crc_end as int) =~= frame_body(cmd, clipped));
        self.buf[crc_end] = crc;
        self.len = crc_end + 1;
        assert(self@ =~= frame_wire(cmd, clipped));
        self.as_bytes()
    }

    pub fn as_bytes(&self) -> (bytes: &[u8])
        requires
            self.len <= MAX_FRAME,
        ensures
            bytes@ == self@,
    {
        let bytes = &self.buf[0..self.len];
        assert(self.buf@.subrange(0, self.len as int) =~= self@);
        bytes
    }
}

// -- Laws of the framing ------------------------------------------------------

pub proof fn lemma_receive_all_append(s: Receiving, a: Seq<u8>, b: Seq<u8>)
    ensures
        receive_all(s, a + b).0 == receive_all(receive_all(s, a).0, b).0,
        receive_all(s, a + b).1 == receive_all(s, a).1 + receive_all(receive_all(s, a).0, b).1,
    decreases b.len(),
{
    if b.len() == 0 {
        assert(a + b =~= a);
        assert(receive_all(s, a).1 + Seq::<Seq<u8>>::empty() =~= receive_all(s, a).1);
    } else {
        lemma_receive_all_append(s, a, b.drop_last());
        assert((a + b).drop_last() =~= a + b.drop_last());
        let mid = receive_all(s, a).0;
        let done = receive_all(mid, b.drop_last()).1;
        let one = receive(receive_all(mid, b.drop_last()).0, b.last()).1;
        if one is Some {
            assert(receive_all(s, a).1 + done.push(one->0) =~= (receive_all(s, a).1 + done).push(
                one->0,
            ));
        }
    }
}

pub proof fn lemma_receive_one(s: Receiving, byte: u8)
    ensures
        receive_all(s, seq![byte]).0 == receive(s, byte).0,
        receive_all(s, seq![byte]).1 == (match receive(s, byte).1 {
            Some(body) => seq![body],
            None => Seq::empty(),
        }),
{
    reveal_with_fuel(receive_all, 2);
    assert(seq![byte].drop_last() =~= Seq::<u8>::empty());
    match receive(s, byte).1 {
        Some(body) => {
            assert(Seq::<Seq<u8>>::empty().push(body) =~= seq![body]);
        },
        None => {},
    }
}

proof fn lemma_receive_body(expected: nat, bytes: Seq<u8>)
    requires
        1 <= expected,
        bytes.len() <= expected,
    ensures
        ({
            let start = Receiving::Data { expected, got: Seq::empty() };
            let (end, done) = receive_all(start, bytes);
            &&& done == Seq::<Seq<u8>>::empty()
            &&& end == if bytes.len() == expected {
                Receiving::Crc { body: bytes }
            } else {
                Receiving::Data { expected, got: bytes }
            }
        }),
    decreases bytes.len(),
{
    if bytes.len() > 0 {
        lemma_receive_body(expected, bytes.drop_last());
        assert(bytes.drop_last().push(bytes.last()) =~= bytes);
    } else {
        assert(bytes =~= Seq::<u8>::empty());
    }
}

/// A frame that goes into the builder comes out of a parser that was looking
/// for one: exactly once, with its command and payload, and the parser is
/// looking for the next one afterwards.
pub proof fn law_frame_roundtrip(cmd: u8, payload: Seq<u8>)
    requires
        payload.len() <= MAX_PAYLOAD,
    ensures
        receive_all(Receiving::Sync, frame_wire(cmd, payload)) == (
            Receiving::Sync,
            seq![frame_body(cmd, payload)],
        ),
{
    let body = frame_body(cmd, payload);
    let len = crate::wire::u16_bytes(payload.len() as u16);
    let s0 = Receiving::Sync;
    let p1 = seq![SYNC];
    let p2 = p1 + seq![len[0]];
    let p3 = p2 + seq![len[1]];
    let p4 = p3 + body;
    let p5 = p4 + seq![crc8_of(body)];
    assert(p5 =~= frame_wire(cmd, payload));
    lemma_receive_one(s0, SYNC);
    lemma_receive_all_append(s0, p1, seq![len[0]]);
    lemma_receive_one(Receiving::LenLo, len[0]);
    lemma_receive_all_append(s0, p2, seq![len[1]]);
    lemma_receive_one(Receiving::LenHi { lo: len[0] }, len[1]);
    lemma_receive_all_append(s0, p3, body);
    lemma_receive_body(body.len(), body);
    lemma_receive_all_append(s0, p4, seq![crc8_of(body)]);
    lemma_receive_one(Receiving::Crc { body }, crc8_of(body));
    assert(receive_all(s0, p5).1 =~= seq![body]);
}

/// Frames sent back to back after bytes that left the parser looking for a
/// sync byte are all received: whatever was lost before has no effect on
/// them.
pub proof fn law_frame_received_after_noise(noise: Seq<u8>, cmd: u8, payload: Seq<u8>)
    requires
        payload.len() <= MAX_PAYLOAD,
        receive_all(Receiving::Sync, noise).0 is Sync,
    ensures
        receive_all(Receiving::Sync, noise + frame_wire(cmd, payload)).0 is Sync,
        receive_all(Receiving::Sync, noise + frame_wire(cmd, payload)).1 == receive_all(
            Receiving::Sync,
            noise,
        ).1.push(frame_body(cmd, payload)),
{
    law_frame_roundtrip(cmd, payload);
    lemma_receive_all_append(Receiving::Sync, noise, frame_wire(cmd, payload));
    let before = receive_all(Receiving::Sync, noise).1;
    assert(before + seq![frame_body(cmd, payload)] =~= before.push(frame_body(cmd, payload)));
}

/// Bytes that the parser still takes at most before it looks for a sync byte
/// again.
pub open spec fn bytes_to_sync(s: Receiving) -> int {
    match s {
        Receiving::Sync => 0,
        Receiving::LenLo => MAX_PAYLOAD + 4,
        Receiving::LenHi { .. } => MAX_PAYLOAD + 3,
        Receiving::Data { expected, got } => expected - got.len() + 1,
        Receiving::Crc { .. } => 1,
    }
}

/// The states that [`receive`] leads to from `Sync`.
pub open spec fn reachable(s: Receiving) -> bool {
    match s {
        Receiving::Data { expected, got } => got.len() < expected <= MAX_PAYLOAD + 1,
        _ => true,
    }
}

/// A corrupted length cannot hold the parser for long: from any state it is
/// looking for a sync byte again within [`MAX_FRAME`] bytes.
pub proof fn law_parser_resyncs(s: Receiving, bytes: Seq<u8>)
    requires
        reachable(s),
        bytes.len() >= bytes_to_sync(s),
    ensures
        bytes_to_sync(s) < MAX_FRAME,
        exists|k: int|
            0 <= k <= bytes_to_sync(s) && #[trigger] receive_all(s, bytes.take(k)).0 is Sync,
    decreases bytes_to_sync(s),
{
    assert(bytes.take(0) =~= Seq::<u8>::empty());
    if s is Sync {
        assert(receive_all(s, bytes.take(0)).0 is Sync);
    } else {
        let next = receive(s, bytes[0]).0;
        let rest = bytes.drop_first();
        law_parser_resyncs(next, rest);
        let k = choose|k: int|
            0 <= k <= bytes_to_sync(next) && #[trigger] receive_all(next, rest.take(k)).0 is Sync;
        lemma_receive_one(s, bytes[0]);
        lemma_receive_all_append(s, seq![bytes[0]], rest.take(k));
        assert(seq![bytes[0]] + rest.take(k) =~= bytes.take(k + 1));
        assert(receive_all(s, bytes.take(k + 1)).0 is Sync);
    }
}

/// A frame whose command or payload lost one byte to corruption is not
/// received.
pub proof fn law_corrupted_frame_is_dropped(cmd: u8, payload: Seq<u8>, k: int, bad: u8)
    requires
        payload.len() <= MAX_PAYLOAD,
        0 <= k <= payload.len(),
        bad != frame_body(cmd, payload)[k],
    ensures
        receive_all(Receiving::Sync, frame_wire(cmd, payload).update(3 + k, bad)) == (
            Receiving::Sync,
            Seq::<Seq<u8>>::empty(),
        ),
{
    let body = frame_body(cmd, payload);
    let hurt = body.update(k, bad);
    let len = crate::wire::u16_bytes(payload.len() as u16);
    let s0 = Receiving::Sync;
    let p1 = seq![SYNC];
    let p2 = p1 + seq![len[0]];
    let p3 = p2 + seq![len[1]];
    let p4 = p3 + hurt;
    let p5 = p4 + seq![crc8_of(body)];
    assert(p5 =~= frame_wire(cmd, payload).update(3 + k, bad));
    law_crc8_detects_byte_error(body, hurt, k);
    lemma_receive_one(s0, SYNC);
    lemma_receive_all_append(s0, p1, seq![len[0]]);
    lemma_receive_one(Receiving::LenLo, len[0]);
    lemma_receive_all_append(s0, p2, seq![len[1]]);
    lemma_receive_one(Receiving::LenHi { lo: len[0] }, len[1]);
    lemma_receive_all_append(s0, p3, hurt);
    lemma_receive_body(hurt.len(), hurt);
    lemma_receive_all_append(s0, p4, seq![crc8_of(body)]);
    lemma_receive_one(Receiving::Crc { body: hurt }, crc8_of(body));
    assert(receive_all(s0, p5).1 =~= Seq::<Seq<u8>>::empty());
}

/// A frame on the wire: the sync byte, the length of the payload low byte
/// first, the command, the payload whole, and the CRC-8 over command and
/// payload.
pub proof fn law_frame_layout(cmd: u8, payload: Seq<u8>)
    requires
        payload.len() <= 256,
    ensures
        ({
            let w = frame_wire(cmd, payload);
            let n = payload.len() as int;
            &&& w.len() == n + 5
            &&& w[0] == 0xAA
            &&& w[1] + 256 * w[2] == n
            &&& w[3] == cmd
            &&& w.subrange(4, 4 + n) == payload
            &&& w[4 + n] == crc8_of(w.subrange(3, 4 + n))
        }),
{
    let w = frame_wire(cmd, payload);
    let n = payload.len() as int;
    assert(w.subrange(4, 4 + n) =~= payload);
    assert(w.subrange(3, 4 + n) =~= frame_body(cmd, payload));
}

/// A payload goes into a frame whole up to 256 bytes, and cut there.
pub proof fn law_payloads_are_cut(payload: Seq<u8>)
    ensures
        payload.len() <= 256 ==> clip_payload(payload) == payload,
        payload.len() > 256 ==> clip_payload(payload) == payload.take(256),
{
}

/// What a receiver does with a byte: it waits for the sync byte, takes a
/// length of at most 256, collects the command and that many bytes, and hands
/// them up where the CRC behind them is right. Whatever it was, it then waits
/// for the next sync byte.
pub proof fn law_receiver_steps(byte: u8, lo: u8, expected: nat, got: Seq<u8>)
    ensures
        receive(Receiving::Sync, byte) == (
            if byte == 0xAA {
                Receiving::LenLo
            } else {
                Receiving::Sync
            },
            None::<Seq<u8>>,
        ),
        receive(Receiving::LenLo, byte) == (Receiving::LenHi { lo: byte }, None::<Seq<u8>>),
        lo + 256 * byte <= 256 ==> receive(Receiving::LenHi { lo }, byte) == (
            Receiving::Data { expected: (lo + 256 * byte + 1) as nat, got: Seq::empty() },
            None::<Seq<u8>>,
        ),
        lo + 256 * byte > 256 ==> receive(Receiving::LenHi { lo }, byte) == (
            Receiving::Sync,
            None::<Seq<u8>>,
        ),
        got.len() + 1 < expected ==> receive(Receiving::Data { expected, got }, byte) == (
            Receiving::Data { expected, got: got.push(byte) },
            None::<Seq<u8>>,
        ),
        got.len() + 1 == expected ==> receive(Receiving::Data { expected, got }, byte) == (
            Receiving::Crc { body: got.push(byte) },
            None::<Seq<u8>>,
        ),
        byte == crc8_of(got) ==> receive(Receiving::Crc { body: got }, byte) == (
            Receiving::Sync,
            Some(got),
        ),
        byte != crc8_of(got) ==> receive(Receiving::Crc { body: got }, byte) == (
            Receiving::Sync,
            None::<Seq<u8>>,
        ),
{
}

/// Telemetry has every value at its own place, low byte first.
pub proof fn law_telemetry_layout(t: Telemetry)
    ensures
        ({
            let b = t.wire();
            &&& b.len() == 16
            &&& crate::wire::i16_at(b, 0) == t.last_rssi
            &&& crate::wire::i16_at(b, 2) == t.last_snr_cb
            &&& b[4] + 256 * b[5] == t.secs_since_rx
            &&& b[6] + 256 * b[7] + 65536 * b[8] + 16777216 * b[9] == t.rx_count
            &&& b[10] + 256 * b[11] + 65536 * b[12] + 16777216 * b[13] == t.tx_count
            &&& b[14] == t.flags
            &&& b[15] == t.sats
        }),
{
    let b = t.wire();
    assert(b.subrange(0, 2) =~= crate::wire::i16_bytes(t.last_rssi));
    assert(b.subrange(2, 4) =~= crate::wire::i16_bytes(t.last_snr_cb));
    crate::wire::lemma_i16_at(b, 0, t.last_rssi);
    crate::wire::lemma_i16_at(b, 2, t.last_snr_cb);
}

/// Bytes with their own CRC-8 behind them have the CRC 0.
pub proof fn law_crc8_cancels(data: Seq<u8>)
    ensures
        crc8_of(data.push(crc8_of(data))) == 0,
        crc8_of(Seq::empty()) == 0,
{
    let c = crc8_of(data);
    assert(data.push(c).drop_last() =~= data);
    assert(c ^ c == 0u8) by (bit_vector);
    assert(crc8_shift(0u8) == 0) by (bit_vector);
    reveal_with_fuel(crc8_shifts, 9);
}

proof fn lemma_crc32_shift_apart(y: u32, h: u32)
    requires
        h < 0x8000_0000,
    ensures
        crc32_shift(y ^ (h << 1)) == crc32_shift(y) ^ h,
{
    assert(crc32_shift(y ^ (h << 1)) == crc32_shift(y) ^ h) by (bit_vector)
        requires
            h < 0x8000_0000,
    ;
}

/// Shifting a byte out of the CRC-32 register moves the other bytes down and
/// folds in what the byte alone comes to.
proof fn lemma_crc32_byte(x: u32)
    ensures
        crc32_shifts(x, 8) == crc32_shifts(x & 0xFF, 8) ^ (x >> 8),
{
    let h: u32 = x >> 8;
    let y: u32 = x & 0xFF;
    reveal_with_fuel(crc32_shifts, 9);
    assert(x == (x & 0xFF) ^ ((x >> 8) << 8)) by (bit_vector);
    assert((h << 8) == (h << 7) << 1 && (h << 7) == (h << 6) << 1 && (h << 6) == (h << 5) << 1 && (h
        << 5) == (h << 4) << 1 && (h << 4) == (h << 3) << 1 && (h << 3) == (h << 2) << 1 && (h << 2)
        == (h << 1) << 1 && h << 7 < 0x8000_0000 && h << 6 < 0x8000_0000 && h << 5 < 0x8000_0000
        && h << 4 < 0x8000_0000 && h << 3 < 0x8000_0000 && h << 2 < 0x8000_0000 && h << 1
        < 0x8000_0000 && h < 0x8000_0000) by (bit_vector)
        requires
            h == x >> 8,
    ;
    lemma_crc32_shift_apart(y, h << 7);
    lemma_crc32_shift_apart(crc32_shifts(y, 1), h << 6);
    lemma_crc32_shift_apart(crc32_shifts(y, 2), h << 5);
    lemma_crc32_shift_apart(crc32_shifts(y, 3), h << 4);
    lemma_crc32_shift_apart(crc32_shifts(y, 4), h << 3);
    lemma_crc32_shift_apart(crc32_shifts(y, 5), h << 2);
    lemma_crc32_shift_apart(crc32_shifts(y, 6), h << 1);
    lemma_crc32_shift_apart(crc32_shifts(y, 7), h);
}

/// One more byte moves the CRC-32 down by a byte and folds in what the byte
/// that falls out, taken with the new one, comes to alone - whatever came
/// before, and however much.
pub proof fn law_crc32_takes_bytes_in_turn(data: Seq<u8>, byte: u8)
    ensures
        ({
            let before = !crc32_of(data);
            let after = !crc32_of(data.push(byte));
            let out = (before ^ (byte as u32)) & 0xFF;
            after == (before >> 8) ^ crc32_shifts(out, 8)
        }),
        crc32_of(Seq::empty()) == 0,
{
    let r: u32 = crc32_register(data);
    let b: u32 = byte as u32;
    let next: u32 = crc32_register(data.push(byte));
    assert(data.push(byte).drop_last() =~= data);
    lemma_crc32_byte(r ^ b);
    assert(!!r == r && !!next == next && !0xFFFF_FFFFu32 == 0 && (r ^ b) >> 8 == r >> 8)
        by (bit_vector)
        requires
            b < 256,
    ;
    let alone: u32 = crc32_shifts((r ^ b) & 0xFF, 8);
    assert(alone ^ (r >> 8) == (r >> 8) ^ alone) by (bit_vector);
}

} // verus!

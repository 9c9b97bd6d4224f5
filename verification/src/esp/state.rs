//! What the ESP knows of the WIO: the latest position, telemetry and remote
//! position, cached so that a freshly connected central immediately receives
//! them, and the WIO's radio-busy window.

use vstd::prelude::*;
use crate::ble::REMOTE_LEN;
use crate::esp::requests::Reply;
use crate::link::{self, msg, resp, Telemetry};
use crate::position::{Position, POSITION_PACKET_LEN};
use crate::text::utf8_text;
use crate::wire::{get_i16, get_u16};

verus! {

/// Cached state. The link task writes it, the BLE session samples it.
#[derive(Clone, Copy, Debug)]
pub struct LinkState {
    gps: Position,
    remote: [u8; REMOTE_LEN],
    telem: Telemetry,
    verbose: bool,
    busy_until_ms: u64,
}

/// Cached state as values.
#[verifier::ext_equal]
pub struct LinkStateView {
    /// The board's own position.
    pub gps: Position,
    /// The last position heard over LoRa, `[src, rssi, packet]`; all zero
    /// before there is one.
    pub remote: Seq<u8>,
    /// The WIO's latest telemetry.
    pub telem: Telemetry,
    /// Whether the WIO's config asks for verbose console logging.
    pub verbose: bool,
    /// Until when the WIO's radio is busy; 0 = not busy.
    pub busy_until_ms: u64,
}

impl View for LinkState {
    type V = LinkStateView;

    closed spec fn view(&self) -> LinkStateView {
        LinkStateView {
            gps: self.gps,
            remote: self.remote@,
            telem: self.telem,
            verbose: self.verbose,
            busy_until_ms: self.busy_until_ms,
        }
    }
}

/// What a frame of the WIO means to the rest of the firmware.
#[derive(Debug)]
pub enum LinkEvent {
    /// Nothing.
    Nothing,
    /// A position: the board's own (`src` 0) or one heard over LoRa, where
    /// its packet could be read.
    Position { src: u8, rssi: i16, position: Option<Position> },
    /// New telemetry.
    Telemetry(Telemetry),
    /// Other mesh traffic.
    LoraRx { src: u8, len: usize },
    /// A status line for the connected central.
    Log(heapless::Vec<u8, 64>),
    /// The answer to a request.
    Reply(Reply),
}

/// What a frame means, as values.
#[verifier::ext_equal]
pub enum Heard {
    Nothing,
    Position { src: u8, rssi: i16, position: Option<Position> },
    Telemetry(Telemetry),
    LoraRx { src: u8, len: nat },
    Log(Seq<u8>),
    Reply(Reply),
}

/// The bytes of a status line.
pub uninterp spec fn line_held(v: heapless::Vec<u8, 64>) -> Seq<u8>;

/// A status line with a copy of `bytes`.
///
/// Calls `heapless::Vec::from_slice`, which gives a vector of the same bytes,
/// or an error where they are more than its capacity.
#[verifier::external_body]
pub(crate) fn line_from(bytes: &[u8]) -> (r: Option<heapless::Vec<u8, 64>>)
    ensures
        match r {
            Some(v) => bytes@.len() <= 64 && line_held(v) == bytes@,
            None => bytes@.len() > 64,
        },
{
    heapless::Vec::from_slice(bytes).ok()
}

impl View for LinkEvent {
    type V = Heard;

    open spec fn view(&self) -> Heard {
        match *self {
            LinkEvent::Nothing => Heard::Nothing,
            LinkEvent::Position { src, rssi, position } => Heard::Position {
                src,
                rssi,
                position,
            },
            LinkEvent::Telemetry(t) => Heard::Telemetry(t),
            LinkEvent::LoraRx { src, len } => Heard::LoraRx { src, len: len as nat },
            LinkEvent::Log(line) => Heard::Log(line_held(line)),
            LinkEvent::Reply(r) => Heard::Reply(r),
        }
    }
}

/// The state before the WIO has said anything.
pub open spec fn unheard() -> LinkStateView {
    LinkStateView {
        gps: Position {
            lat_e7: 0,
            lon_e7: 0,
            alt_dm: 0,
            speed_cms: 0,
            course_cdeg: 0,
            fix: false,
            other_flags: 0,
            sats: 0,
            tod_ms: 0,
        },
        remote: Seq::new(REMOTE_LEN as nat, |i: int| 0u8),
        telem: Telemetry {
            last_rssi: 0,
            last_snr_cb: 0,
            secs_since_rx: 0xFFFF,
            rx_count: 0,
            tx_count: 0,
            flags: 0,
            sats: 0,
        },
        verbose: true,
        busy_until_ms: 0,
    }
}

/// Whether the WIO's radio is on the air.
pub open spec fn on_air(s: LinkStateView, now_ms: u64) -> bool {
    s.busy_until_ms > now_ms
}

/// Whether per-frame detail goes to the console.
pub open spec fn talks(s: LinkStateView, transferring: bool) -> bool {
    s.verbose && !transferring
}

/// A position frame: `[src, rssi, packet]`. `read` is what the packet says,
/// where it could be read. The board's own position is cached as read, one
/// heard over LoRa as the bytes that carried it.
pub open spec fn on_position(s: LinkStateView, payload: Seq<u8>, read: Option<Position>) -> (
    LinkStateView,
    Heard,
) {
    if payload.len() < 3 + POSITION_PACKET_LEN {
        (s, Heard::Nothing)
    } else {
        let heard = Heard::Position {
            src: payload[0],
            rssi: crate::wire::i16_at(payload, 1),
            position: read,
        };
        if payload[0] != 0 {
            (LinkStateView { remote: payload.take(REMOTE_LEN as int), ..s }, heard)
        } else {
            match read {
                Some(p) => (LinkStateView { gps: p, ..s }, heard),
                None => (s, heard),
            }
        }
    }
}

/// What a frame changes and means.
pub open spec fn on_link_frame(
    s: LinkStateView,
    cmd: u8,
    payload: Seq<u8>,
    read: Option<Position>,
    now_ms: u64,
) -> (LinkStateView, Heard) {
    if cmd == msg::POSITION {
        on_position(s, payload, read)
    } else if cmd == msg::STATUS {
        match Telemetry::read(payload) {
            Some(t) => (
                LinkStateView { telem: t, verbose: t.flags & link::TELEM_FLAG_VERBOSE != 0, ..s },
                Heard::Telemetry(t),
            ),
            None => (s, Heard::Nothing),
        }
    } else if cmd == msg::RADIO_BUSY {
        let until = if payload.len() > 0 && payload[0] == 1 {
            (now_ms + link::RADIO_BUSY_TIMEOUT_MS) as u64
        } else {
            0
        };
        (LinkStateView { busy_until_ms: until, ..s }, Heard::Nothing)
    } else if cmd == msg::LORA_RX {
        let src = if payload.len() > 0 {
            payload[0]
        } else {
            0
        };
        let len = if payload.len() >= 3 {
            (payload.len() - 3) as nat
        } else {
            0
        };
        (s, Heard::LoraRx { src, len })
    } else if cmd == msg::LOG {
        (s, Heard::Log(crate::esplink::clip_line(payload)))
    } else if cmd == resp::ACK && payload.len() >= 3 {
        let value = crate::wire::u16_at(payload, 1);
        (s, Heard::Reply(Reply { is_ack: true, cmd: payload[0], value }))
    } else if cmd == resp::NAK && payload.len() >= 2 {
        (s, Heard::Reply(Reply { is_ack: false, cmd: payload[0], value: payload[1] as u16 }))
    } else {
        (s, Heard::Nothing)
    }
}

impl LinkState {
    pub fn new() -> (s: LinkState)
        ensures
            s@ == unheard(),
    {
        let s = LinkState {
            gps: Position {
                lat_e7: 0,
                lon_e7: 0,
                alt_dm: 0,
                speed_cms: 0,
                course_cdeg: 0,
                fix: false,
                other_flags: 0,
                sats: 0,
                tod_ms: 0,
            },
            remote: [0u8; REMOTE_LEN],
            telem: Telemetry {
                last_rssi: 0,
                last_snr_cb: 0,
                secs_since_rx: 0xFFFF,
                rx_count: 0,
                tx_count: 0,
                flags: 0,
                sats: 0,
            },
            verbose: true,
            busy_until_ms: 0,
        };
        assert(s@ =~= unheard());
        s
    }

    /// The packet that a frame carries for the position reader, if it is a
    /// position frame long enough to hold one.
    pub fn position_packet(cmd: u8, payload: &[u8]) -> (p: Option<&[u8]>)
        ensures
            p is Some <==> cmd == msg::POSITION && payload@.len() >= 3 + POSITION_PACKET_LEN,
            p matches Some(p) ==> p@ == payload@.skip(3),
    {
        if cmd != msg::POSITION || payload.len() < 3 + POSITION_PACKET_LEN {
            return None;
        }
        let p: &[u8] = &payload[3..payload.len()];
        assert(p@ =~= payload@.skip(3));
        Some(p)
    }

    /// Handle one complete frame from the WIO. `read` is what the frame's
    /// position packet says, where it has one that could be read.
    pub fn handle_link_frame(
        &mut self,
        cmd: u8,
        payload: &[u8],
        read: Option<Position>,
        now_ms: u64,
    ) -> (e: LinkEvent)
        requires
            now_ms + link::RADIO_BUSY_TIMEOUT_MS <= u64::MAX,
        ensures
            (final(self)@, e@) == on_link_frame(old(self)@, cmd, payload@, read, now_ms),
    {
        let ghost goal = on_link_frame(self@, cmd, payload@, read, now_ms);
        let mut e = LinkEvent::Nothing;
        if cmd == msg::POSITION {
            if payload.len() >= 3 + POSITION_PACKET_LEN {
                let src: u8 = payload[0];
                if src == 0 {
                    if let Some(p) = read {
                        self.gps = p;
                    }
                } else {
                    let mut i: usize = 0;
                    while i < REMOTE_LEN
                        invariant
                            i <= REMOTE_LEN,
                            payload@.len() >= 3 + POSITION_PACKET_LEN,
                            forall|j: int| 0 <= j < i ==> self.remote@[j] == payload@[j],
                            self.gps == old(self).gps,
                            self.telem == old(self).telem,
                            self.verbose == old(self).verbose,
                            self.busy_until_ms == old(self).busy_until_ms,
                        decreases REMOTE_LEN - i,
                    {
                        self.remote[i] = payload[i];
                        i = i + 1;
                    }
                    assert(self.remote@ =~= payload@.take(REMOTE_LEN as int));
                }
                e = LinkEvent::Position { src, rssi: get_i16(payload, 1), position: read };
            }
        } else if cmd == msg::STATUS {
            if let Some(t) = Telemetry::decode(payload) {
                // Adopt the console verbosity the WIO's config asks for.
                self.verbose = t.flags & link::TELEM_FLAG_VERBOSE != 0;
                self.telem = t;
                e = LinkEvent::Telemetry(t);
            }
        } else if cmd == msg::RADIO_BUSY {
            let busy: bool = payload.len() > 0 && payload[0] == 1;
            self.busy_until_ms = if busy {
                now_ms + link::RADIO_BUSY_TIMEOUT_MS as u64
            } else {
                0
            };
        } else if cmd == msg::LORA_RX {
            let src: u8 = if payload.len() > 0 {
                payload[0]
            } else {
                0
            };
            let len: usize = if payload.len() >= 3 {
                payload.len() - 3
            } else {
                0
            };
            e = LinkEvent::LoraRx { src, len };
        } else if cmd == msg::LOG {
            let n: usize = if payload.len() < link::LOG_MAX {
                payload.len()
            } else {
                link::LOG_MAX
            };
            let text: &[u8] = &payload[0..n];
            assert(text@ =~= crate::esplink::clip_line(payload@));
            if let Some(line) = line_from(text) {
                e = LinkEvent::Log(line);
            }
        } else if cmd == resp::ACK {
            if payload.len() >= 3 {
                e = LinkEvent::Reply(
                    Reply { is_ack: true, cmd: payload[0], value: get_u16(payload, 1) },
                );
            }
        } else if cmd == resp::NAK {
            if payload.len() >= 2 {
                e = LinkEvent::Reply(
                    Reply { is_ack: false, cmd: payload[0], value: payload[1] as u16 },
                );
            }
        }
        assert(self@ =~= goal.0);
        e
    }

    /// Whether the WIO's radio is on the air. The BLE notifier defers its
    /// ticks meanwhile: both radios share the power budget.
    pub fn wio_busy(&self, now_ms: u64) -> (r: bool)
        ensures
            r == on_air(self@, now_ms),
    {
        self.busy_until_ms > now_ms
    }

    /// Whether per-frame detail goes to the console. A bulk transfer's ack
    /// frames share the USB port with the console, so while one runs
    /// everything discretionary goes silent.
    pub fn verbose_enabled(&self, transferring: bool) -> (r: bool)
        ensures
            r == talks(self@, transferring),
    {
        self.verbose && !transferring
    }

    /// The board's own position.
    pub fn gps(&self) -> (p: Position)
        ensures
            p == self@.gps,
    {
        self.gps
    }

    /// The WIO's latest telemetry.
    pub fn telemetry(&self) -> (t: Telemetry)
        ensures
            t == self@.telem,
    {
        self.telem
    }

    /// The last position heard over LoRa.
    pub fn remote(&self) -> (r: [u8; REMOTE_LEN])
        ensures
            r@ == self@.remote,
    {
        self.remote
    }
}

/// A status line of the WIO as console text.
pub fn console_text(payload: &[u8]) -> (s: &str)
    ensures
        vstd::utf8::valid_utf8(payload@) ==> vstd::utf8::encode_utf8(s@) == payload@,
        !vstd::utf8::valid_utf8(payload@) ==> s@ == "<non-utf8 status>"@,
{
    match utf8_text(payload) {
        Some(s) => s,
        None => "<non-utf8 status>",
    }
}

// -- Laws ---------------------------------------------------------------------

/// The WIO's busy flag cannot wedge the notifier: a lost "done" message
/// leaves it set for no longer than the timeout.
pub proof fn law_wio_busy_expires(
    s: LinkStateView,
    payload: Seq<u8>,
    read: Option<Position>,
    at_ms: u64,
    now_ms: u64,
)
    requires
        at_ms + link::RADIO_BUSY_TIMEOUT_MS <= now_ms,
    ensures
        !(on_link_frame(s, msg::RADIO_BUSY, payload, read, at_ms).0.busy_until_ms > now_ms),
{
}

/// The answers that the WIO's link sends are heard as such: an ack with its
/// value, a refusal with its error code.
pub proof fn law_answers_are_heard(
    s: LinkStateView,
    cmd: u8,
    value: u16,
    err: u8,
    read: Option<Position>,
    now_ms: u64,
)
    ensures
        on_link_frame(s, resp::ACK, crate::esplink::ack_payload(cmd, value), read, now_ms) == (
            s,
            Heard::Reply(Reply { is_ack: true, cmd, value }),
        ),
        on_link_frame(s, resp::NAK, crate::esplink::nak_payload(cmd, err), read, now_ms) == (
            s,
            Heard::Reply(Reply { is_ack: false, cmd, value: err as u16 }),
        ),
{
    let p = crate::esplink::ack_payload(cmd, value);
    assert(p.subrange(1, 3) =~= crate::wire::u16_bytes(value));
    crate::wire::lemma_u16_at(p, 1, value);
}

/// Telemetry that the WIO sends is what the central reads.
pub proof fn law_telemetry_is_cached(
    s: LinkStateView,
    t: Telemetry,
    read: Option<Position>,
    now_ms: u64,
)
    ensures
        on_link_frame(s, msg::STATUS, t.wire(), read, now_ms).0.telem == t,
        on_link_frame(s, msg::STATUS, t.wire(), read, now_ms).1 == Heard::Telemetry(t),
{
    link::law_telemetry_roundtrip(t, Seq::empty());
    assert(t.wire() + Seq::<u8>::empty() =~= t.wire());
}

/// A board's own position never shows up as a remote one, nor the other way
/// round.
pub proof fn law_own_and_remote_stay_apart(
    s: LinkStateView,
    payload: Seq<u8>,
    read: Option<Position>,
)
    ensures
        payload.len() > 0 && payload[0] == 0 ==> on_position(s, payload, read).0.remote == s.remote,
        payload.len() > 0 && payload[0] != 0 ==> on_position(s, payload, read).0.gps == s.gps,
{
}

/// An echo is never taken for a message: the ids of what the ESP itself sends
/// mean nothing to it.
pub proof fn law_esp_ignores_its_echo(
    s: LinkStateView,
    cmd: u8,
    payload: Seq<u8>,
    read: Option<Position>,
    now_ms: u64,
)
    requires
        cmd <= link::cmd::LAST,
    ensures
        on_link_frame(s, cmd, payload, read, now_ms) == (s, Heard::Nothing),
{
}

/// The WIO counts as on the air for exactly three seconds from its busy
/// message, and not from any other message on; any other value of that
/// message takes it off.
pub proof fn law_busy_lasts_three_seconds(
    s: LinkStateView,
    payload: Seq<u8>,
    read: Option<Position>,
    at_ms: u64,
    now_ms: u64,
)
    requires
        at_ms + 3_000 <= u64::MAX,
    ensures
        ({
            let (after, heard) = on_link_frame(s, 0x42, payload, read, at_ms);
            let set = payload.len() > 0 && payload[0] == 1;
            &&& set ==> (on_air(after, now_ms) <==> now_ms < at_ms + 3_000)
            &&& !set ==> !on_air(after, now_ms)
            &&& after == (LinkStateView { busy_until_ms: after.busy_until_ms, ..s })
            &&& heard == Heard::Nothing
        }),
        forall|cmd: u8|
            cmd != 0x42 ==> on_air(
                (#[trigger] on_link_frame(s, cmd, payload, read, at_ms)).0,
                now_ms,
            ) == on_air(s, now_ms),
{
}

/// A position frame of at least 23 bytes is heard with its source and RSSI,
/// whatever the packet says. The board's own becomes its position where it
/// could be read; one of another node is kept as it came. A shorter frame is
/// nothing.
pub proof fn law_positions_are_heard(
    s: LinkStateView,
    payload: Seq<u8>,
    read: Option<Position>,
    now_ms: u64,
)
    ensures
        ({
            let (after, heard) = on_link_frame(s, 0x40, payload, read, now_ms);
            &&& payload.len() < 23 ==> after == s && heard == Heard::Nothing
            &&& payload.len() >= 23 ==> {
                &&& heard == (Heard::Position {
                    src: payload[0],
                    rssi: crate::wire::i16_at(payload, 1),
                    position: read,
                })
                &&& payload[0] == 0 && read is Some ==> after == (LinkStateView {
                    gps: read->0,
                    ..s
                })
                &&& payload[0] == 0 && read is None ==> after == s
                &&& payload[0] != 0 ==> after == (LinkStateView { remote: payload.take(23), ..s })
            }
        }),
{
}

/// Telemetry replaces what was known, and the console follows the verbosity
/// that it carries; a frame that is none changes nothing.
pub proof fn law_console_follows_the_wio(
    s: LinkStateView,
    payload: Seq<u8>,
    read: Option<Position>,
    now_ms: u64,
    transferring: bool,
)
    ensures
        ({
            let (after, heard) = on_link_frame(s, 0x41, payload, read, now_ms);
            &&& Telemetry::read(payload) is None ==> after == s && heard == Heard::Nothing
            &&& Telemetry::read(payload) matches Some(t) ==> {
                &&& after.telem == t
                &&& heard == Heard::Telemetry(t)
                &&& talks(after, transferring) <==> !transferring && t.flags & 0x08 != 0
                &&& after == (LinkStateView { telem: t, verbose: after.verbose, ..s })
            }
        }),
{
}

/// Other mesh traffic is heard with its source and the length of what it
/// carries, a status line with its first 64 bytes. Neither changes what is
/// known, nor does an answer, which is heard only where it is long enough;
/// any other frame is nothing.
pub proof fn law_other_frames_change_nothing(
    s: LinkStateView,
    cmd: u8,
    payload: Seq<u8>,
    read: Option<Position>,
    now_ms: u64,
)
    requires
        cmd != 0x40 && cmd != 0x41 && cmd != 0x42,
    ensures
        ({
            let (after, heard) = on_link_frame(s, cmd, payload, read, now_ms);
            &&& after == s
            &&& cmd == 0x43 && payload.len() >= 3 ==> heard == (Heard::LoraRx {
                src: payload[0],
                len: (payload.len() - 3) as nat,
            })
            &&& cmd == 0x43 && 0 < payload.len() < 3 ==> heard == (Heard::LoraRx {
                src: payload[0],
                len: 0,
            })
            &&& cmd == 0x43 && payload.len() == 0 ==> heard == (Heard::LoraRx { src: 0, len: 0 })
            &&& cmd == 0x44 && payload.len() <= 64 ==> heard == Heard::Log(payload)
            &&& cmd == 0x44 && payload.len() > 64 ==> heard == Heard::Log(payload.take(64))
            &&& cmd == 0x81 && payload.len() >= 3 ==> {
                &&& heard matches Heard::Reply(r) && r.is_ack && r.cmd == payload[0] && r.value
                    == payload[1] + 256 * payload[2]
            }
            &&& cmd == 0x82 && payload.len() >= 2 ==> {
                &&& heard matches Heard::Reply(r) && !r.is_ack && r.cmd == payload[0] && r.value
                    == payload[1]
            }
            &&& cmd == 0x81 && payload.len() < 3 ==> heard == Heard::Nothing
            &&& cmd == 0x82 && payload.len() < 2 ==> heard == Heard::Nothing
            &&& cmd != 0x43 && cmd != 0x44 && cmd != 0x81 && cmd != 0x82 ==> heard == Heard::Nothing
        }),
{
}

/// Before the WIO has said anything it is off the air, no position of another
/// node is known, and the time since the last reception is that of never.
pub proof fn law_nothing_is_known_at_first(now_ms: u64)
    ensures
        !on_air(unheard(), now_ms),
        unheard().remote.len() == 23,
        forall|i: int| 0 <= i < 23 ==> #[trigger] unheard().remote[i] == 0,
        !unheard().gps.fix,
        unheard().telem.secs_since_rx == 0xFFFF,
        unheard().telem.rx_count == 0 && unheard().telem.tx_count == 0,
        talks(unheard(), false),
{
}

} // verus!

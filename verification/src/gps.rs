//! MAX-M10 GPS receiver: assembling its NMEA lines, folding its sentences
//! into a position, and the UBX frames that configure it and put it to sleep.
//!
//! RMC owns the fix flag, position, motion and time; GGA contributes altitude
//! and satellite count. The fix-derived fields of the folded position are
//! zeroed when the fix drops rather than left holding their last values.

use vstd::prelude::*;
use crate::position::Position;
use crate::radiocfg::{DynModel, GpsConfig, PowerMode};
use crate::text::utf8_text;
use crate::wire::{append, put_u16, put_u32};

verus! {

/// NMEA line rate - the u-blox M10 factory default.
pub const BAUD: u32 = 9_600;

/// Longest NMEA sentence: 82 characters with "$" and CRLF.
pub const NMEA_MAX: usize = 82;

/// Largest UBX payload this driver builds. The CFG-VALSET frame it emits
/// (4-byte header + nine key/value pairs) is well under this.
pub const UBX_MAX_PAYLOAD: usize = 64;

/// How long EXTINT is held high to wake the module, in core clock cycles
/// (5 ms).
pub const WAKE_HOLD_CYCLES: u32 = 80_000;

// UBX-CFG-VALSET configuration keys (u-blox M10, protocol 34.x). The high
// nibble region encodes the value size: 0x10.. = L (1 byte), 0x20.. = U1/E1
// (1 byte), 0x30.. = U2 (2 bytes).

pub const CFG_SIGNAL_GPS_ENA: u32 = 0x1031_001F;

pub const CFG_SIGNAL_SBAS_ENA: u32 = 0x1031_0020;

pub const CFG_SIGNAL_GAL_ENA: u32 = 0x1031_0021;

pub const CFG_SIGNAL_BDS_ENA: u32 = 0x1031_0022;

pub const CFG_SIGNAL_QZSS_ENA: u32 = 0x1031_0024;

pub const CFG_SIGNAL_GLO_ENA: u32 = 0x1031_0025;

pub const CFG_PM_OPERATEMODE: u32 = 0x20D0_0001;

pub const CFG_RATE_MEAS: u32 = 0x3021_0001;

pub const CFG_NAVSPG_DYNMODEL: u32 = 0x2011_0021;

// -- Sentences ----------------------------------------------------------------

/// What an RMC sentence says; fields the module left empty are `None`.
#[derive(Clone, Copy, Debug, PartialEq, Eq, Structural)]
pub struct Rmc {
    pub valid: bool,
    pub lat_e7: Option<i32>,
    pub lon_e7: Option<i32>,
    pub speed_cms: Option<u16>,
    pub course_cdeg: Option<u16>,
    pub tod_ms: Option<u32>,
}

/// What a GGA sentence says; fields the module left empty are `None`.
#[derive(Clone, Copy, Debug, PartialEq, Eq, Structural)]
pub struct Gga {
    pub alt_dm: Option<i16>,
    pub sats: Option<u8>,
}

/// A sentence that the position is folded from.
#[derive(Clone, Copy, Debug, PartialEq, Eq, Structural)]
pub enum Sentence {
    Rmc(Rmc),
    Gga(Gga),
}

/// A position without the fields that only mean anything while a fix holds.
///
/// The module leaves those fields empty once the fix drops, so without this
/// the last good values would stay indefinitely, and anything that reads the
/// position without checking the fix sees an altitude from minutes or hours
/// ago as if it were current. The time is kept: the receiver keeps decoding
/// it from the satellites it still tracks.
pub open spec fn cleared(p: Position) -> Position {
    Position {
        lat_e7: 0,
        lon_e7: 0,
        alt_dm: 0,
        speed_cms: 0,
        course_cdeg: 0,
        sats: 0,
        ..p
    }
}

/// The value that a field carries, or the one it had before.
pub open spec fn carried<T>(field: Option<T>, before: T) -> T {
    match field {
        Some(v) => v,
        None => before,
    }
}

/// A position with a sentence folded in.
pub open spec fn folded(p: Position, s: Sentence) -> Position {
    match s {
        Sentence::Rmc(rmc) => {
            let base = if !rmc.valid {
                cleared(Position { fix: false, ..p })
            } else if rmc.lat_e7 is Some && rmc.lon_e7 is Some {
                Position { lat_e7: rmc.lat_e7->0, lon_e7: rmc.lon_e7->0, fix: true, ..p }
            } else {
                p
            };
            Position {
                speed_cms: carried(rmc.speed_cms, base.speed_cms),
                course_cdeg: carried(rmc.course_cdeg, base.course_cdeg),
                tod_ms: carried(rmc.tod_ms, base.tod_ms),
                ..base
            }
        },
        Sentence::Gga(gga) => Position {
            alt_dm: carried(gga.alt_dm, p.alt_dm),
            sats: carried(gga.sats, p.sats),
            ..p
        },
    }
}

/// Zero the fields that only mean anything while a fix holds.
fn clear_fix_fields(p: &mut Position)
    ensures
        *final(p) == cleared(*old(p)),
{
    p.lat_e7 = 0;
    p.lon_e7 = 0;
    p.alt_dm = 0;
    p.speed_cms = 0;
    p.course_cdeg = 0;
    p.sats = 0;
}

// -- Lines --------------------------------------------------------------------

/// A received byte in the midst of line assembly: the line so far afterwards
/// (`None` outside a line), and the line that it completes.
pub open spec fn line_step(line: Option<Seq<u8>>, byte: u8) -> (
    Option<Seq<u8>>,
    Option<Seq<u8>>,
) {
    if byte == 0x24 {
        // '$' starts a line, whatever came before.
        (Some(seq![byte]), None)
    } else if byte == 0x0D || byte == 0x0A {
        (None, line)
    } else {
        match line {
            None => (None, None),
            Some(text) => if text.len() < NMEA_MAX {
                (Some(text.push(byte)), None)
            } else {
                // Overlong garbage: resync on the next '$'.
                (None, None)
            },
        }
    }
}

// -- UBX frames ---------------------------------------------------------------

/// The 8-bit Fletcher checksum of a byte string: the sum of its bytes, and the
/// sum of the sums so far, both modulo 256.
pub open spec fn fletcher(data: Seq<u8>) -> (u8, u8)
    decreases data.len(),
{
    if data.len() == 0 {
        (0, 0)
    } else {
        let (a, b) = fletcher(data.drop_last());
        let sum = a.wrapping_add(data.last());
        (sum, b.wrapping_add(sum))
    }
}

/// Class, id, length and payload of a UBX message.
pub open spec fn ubx_body(class: u8, id: u8, payload: Seq<u8>) -> Seq<u8> {
    seq![class, id] + crate::wire::u16_bytes(payload.len() as u16) + payload
}

/// A UBX message on the wire: two sync bytes, the body and its checksum.
pub open spec fn ubx_frame(class: u8, id: u8, payload: Seq<u8>) -> Seq<u8> {
    let body = ubx_body(class, id, payload);
    seq![0xB5u8, 0x62] + body + seq![fletcher(body).0, fletcher(body).1]
}

/// A key/value pair of CFG-VALSET with a one-byte value.
pub open spec fn pair1(key: u32, value: u8) -> Seq<u8> {
    crate::wire::u32_bytes(key) + seq![value]
}

/// A truth value in one byte.
pub open spec fn flag(b: bool) -> u8 {
    if b {
        1
    } else {
        0
    }
}

/// The CFG-VALSET payload that applies a configuration to the RAM layer.
pub open spec fn valset(cfg: GpsConfig) -> Seq<u8> {
    seq![0u8, 0x01, 0, 0] + pair1(CFG_SIGNAL_GPS_ENA, flag(cfg.gps_enabled)) + pair1(
        CFG_SIGNAL_SBAS_ENA,
        flag(cfg.sbas_enabled),
    ) + pair1(CFG_SIGNAL_GAL_ENA, flag(cfg.galileo_enabled)) + pair1(
        CFG_SIGNAL_BDS_ENA,
        flag(cfg.beidou_enabled),
    ) + pair1(CFG_SIGNAL_QZSS_ENA, flag(cfg.qzss_enabled)) + pair1(
        CFG_SIGNAL_GLO_ENA,
        flag(cfg.glonass_enabled),
    ) + pair1(CFG_PM_OPERATEMODE, cfg.power_mode.mode_value()) + (crate::wire::u32_bytes(
        CFG_RATE_MEAS,
    ) + crate::wire::u16_bytes(cfg.meas_rate_ms)) + pair1(
        CFG_NAVSPG_DYNMODEL,
        cfg.dyn_model.model_value(),
    )
}

/// The RXM-PMREQ payload for backup mode until EXTINT or UART activity:
/// version, reserved, no duration, flags (bit 1 = backup), wakeup sources
/// (bit 3 = uartrx, bit 5 = extint0).
pub open spec fn pmreq() -> Seq<u8> {
    seq![0u8, 0, 0, 0, 0, 0, 0, 0, 2, 0, 0, 0, 0x28, 0, 0, 0]
}

/// Frame a UBX message: `B5 62 class id len_lo len_hi payload ck_a ck_b`,
/// with the 8-bit Fletcher checksum over class..payload. A payload longer
/// than [`UBX_MAX_PAYLOAD`] is dropped.
pub fn ubx(class: u8, id: u8, payload: &[u8]) -> (r: Option<Vec<u8>>)
    ensures
        match r {
            Some(frame) => payload@.len() <= UBX_MAX_PAYLOAD && frame@ == ubx_frame(
                class,
                id,
                payload@,
            ),
            None => payload@.len() > UBX_MAX_PAYLOAD,
        },
{
    if payload.len() > UBX_MAX_PAYLOAD {
        return None;
    }
    let mut frame: Vec<u8> = Vec::new();
    frame.push(0xB5);
    frame.push(0x62);
    frame.push(class);
    frame.push(id);
    let len: [u8; 2] = put_u16(payload.len() as u16);
    frame.push(len[0]);
    frame.push(len[1]);
    append(&mut frame, payload);
    let ghost body = ubx_body(class, id, payload@);
    assert(frame@.skip(2) =~= body);
    let mut ck_a: u8 = 0;
    let mut ck_b: u8 = 0;
    let mut i: usize = 2;
    while i < frame.len()
        invariant
            2 <= i <= frame@.len(),
            frame@.skip(2) == body,
            (ck_a, ck_b) == fletcher(body.take(i - 2)),
        decreases frame@.len() - i,
    {
        ck_a = ck_a.wrapping_add(frame[i]);
        ck_b = ck_b.wrapping_add(ck_a);
        assert(body.take(i - 1).drop_last() =~= body.take(i - 2));
        assert(body.take(i - 1).last() == frame@.skip(2)[i - 2]);
        i = i + 1;
    }
    assert(body.take(i - 2) =~= body);
    frame.push(ck_a);
    frame.push(ck_b);
    assert(frame@ =~= ubx_frame(class, id, payload@));
    Some(frame)
}

fn put_pair(p: &mut Vec<u8>, key: u32, value: u8)
    ensures
        final(p)@ == old(p)@ + pair1(key, value),
{
    let ghost before = p@;
    let k: [u8; 4] = put_u32(key);
    append(p, &k);
    p.push(value);
    assert(p@ =~= before + pair1(key, value));
}

fn flag_byte(b: bool) -> (r: u8)
    ensures
        r == flag(b),
{
    if b {
        1
    } else {
        0
    }
}

// -- Receiver state -----------------------------------------------------------

/// What the driver knows.
#[verifier::ext_equal]
pub struct GpsView {
    /// The line so far, inside one.
    pub line: Option<Seq<u8>>,
    /// Folded position.
    pub position: Position,
    /// Whether an accepted sentence updated the position since it was last
    /// asked.
    pub updated: bool,
    /// Whether the module was put into backup mode.
    pub sleeping: bool,
    /// Bytes received since boot (saturating).
    pub rx_bytes: u32,
    /// Sentences parsed since boot (saturating).
    pub rx_sentences: u32,
}

/// What a byte from the module makes of the driver, and the line that it
/// completes.
pub open spec fn on_byte(g: GpsView, byte: u8) -> (GpsView, Option<Seq<u8>>) {
    let (line, done) = line_step(g.line, byte);
    (GpsView { line, rx_bytes: crate::platform::count_up(g.rx_bytes), ..g }, done)
}

/// What a line, as parsed, makes of the driver.
pub open spec fn on_parsed(g: GpsView, parsed: Option<Sentence>) -> GpsView {
    match parsed {
        Some(s) => GpsView {
            position: folded(g.position, s),
            updated: true,
            rx_sentences: crate::platform::count_up(g.rx_sentences),
            ..g
        },
        None => g,
    }
}

/// The driver of a module put into backup mode.
pub open spec fn slept(g: GpsView) -> GpsView {
    GpsView {
        sleeping: true,
        position: cleared(Position { fix: false, ..g.position }),
        ..g
    }
}

/// The driver of a module that was woken.
pub open spec fn woken(g: GpsView) -> GpsView {
    GpsView { sleeping: false, ..g }
}

/// The driver after a look at its position, and whether there was news.
pub open spec fn looked_at(g: GpsView) -> (GpsView, bool) {
    (GpsView { updated: false, ..g }, g.updated)
}

/// The driver after bytes were lost.
pub open spec fn resynced(g: GpsView) -> GpsView {
    GpsView { line: None, ..g }
}

/// The frame that applies a configuration, unless the module sleeps.
pub open spec fn config_frame(g: GpsView, cfg: GpsConfig) -> Option<Seq<u8>> {
    if g.sleeping {
        None
    } else {
        Some(ubx_frame(0x06, 0x8A, valset(cfg)))
    }
}

/// The frame that puts the module into backup mode.
pub open spec fn sleep_frame() -> Seq<u8> {
    ubx_frame(0x02, 0x41, pmreq())
}

/// GPS receiver state.
pub struct Gps {
    line: [u8; NMEA_MAX],
    len: usize,
    in_line: bool,
    position: Position,
    updated: bool,
    sleeping: bool,
    rx_bytes: u32,
    rx_sentences: u32,
}

impl View for Gps {
    type V = GpsView;

    closed spec fn view(&self) -> GpsView {
        GpsView {
            line: if self.in_line {
                Some(self.line@.take(self.len as int))
            } else {
                None
            },
            position: self.position,
            updated: self.updated,
            sleeping: self.sleeping,
            rx_bytes: self.rx_bytes,
            rx_sentences: self.rx_sentences,
        }
    }
}

impl Gps {
    pub closed spec fn wf(&self) -> bool {
        self.len <= NMEA_MAX
    }

    pub fn new() -> (g: Self)
        ensures
            g.wf(),
            g@ == (GpsView {
                line: None,
                position: Position {
                    lat_e7: 0,
                    lon_e7: 0,
                    alt_dm: 0,
                    speed_cms: 0,
                    course_cdeg: 0,
                    fix: false,
                    other_flags: 0,
                    sats: 0,
                    tod_ms: 0,
                },
                updated: false,
                sleeping: false,
                rx_bytes: 0,
                rx_sentences: 0,
            }),
    {
        Gps {
            line: [0u8;NMEA_MAX],
            len: 0,
            in_line: false,
            position: Position::default(),
            updated: false,
            sleeping: false,
            rx_bytes: 0,
            rx_sentences: 0,
        }
    }

    /// Latest folded position snapshot.
    pub fn packet(&self) -> (p: Position)
        ensures
            p == self@.position,
    {
        self.position
    }

    /// Bytes read from the module since boot. 0 = nothing on the wire.
    pub fn rx_bytes(&self) -> (n: u32)
        ensures
            n == self@.rx_bytes,
    {
        self.rx_bytes
    }

    /// Valid NMEA sentences parsed since boot.
    pub fn rx_sentences(&self) -> (n: u32)
        ensures
            n == self@.rx_sentences,
    {
        self.rx_sentences
    }

    /// Whether the module has produced at least one valid NMEA sentence,
    /// i.e. it is powered, wired and talking at the expected baud. A fix is
    /// a separate question ([`has_fix`](Self::has_fix)).
    pub fn present(&self) -> (r: bool)
        ensures
            r == (self@.rx_sentences > 0),
    {
        self.rx_sentences > 0
    }

    /// Whether the module was put into backup mode.
    pub fn is_sleeping(&self) -> (r: bool)
        ensures
            r == self@.sleeping,
    {
        self.sleeping
    }

    /// Whether the position state changed since the last call.
    pub fn take_updated(&mut self) -> (r: bool)
        requires
            old(self).wf(),
        ensures
            final(self).wf(),
            (final(self)@, r) == looked_at(old(self)@),
    {
        let r: bool = self.updated;
        self.updated = false;
        r
    }

    pub fn has_fix(&self) -> (r: bool)
        ensures
            r == self@.position.fix,
    {
        self.position.fix
    }

    /// Bytes were lost: drop the partial line and resync.
    pub fn lost_bytes(&mut self)
        requires
            old(self).wf(),
        ensures
            final(self).wf(),
            final(self)@ == resynced(old(self)@),
    {
        self.in_line = false;
        self.len = 0;
    }

    /// Take in a byte from the module. Gives a line that it completes, where
    /// that is text, to be parsed and handed to [`accept`](Self::accept).
    pub fn poll(&mut self, byte: u8) -> (r: Option<Vec<u8>>)
        requires
            old(self).wf(),
        ensures
            final(self).wf(),
            final(self)@ == on_byte(old(self)@, byte).0,
            match on_byte(old(self)@, byte).1 {
                Some(line) => if vstd::utf8::valid_utf8(line) {
                    r matches Some(text) && text@ == line
                } else {
                    r is None
                },
                None => r is None,
            },
    {
        let ghost before = self@;
        self.rx_bytes = self.rx_bytes.saturating_add(1);
        if byte == 0x24 {
            self.line[0] = byte;
            self.len = 1;
            self.in_line = true;
            assert(self.line@.take(1) =~= seq![byte]);
            None
        } else if byte == 0x0D || byte == 0x0A {
            let mut r: Option<Vec<u8>> = None;
            if self.in_line {
                let line = &self.line[0..self.len];
                assert(line@ =~= self.line@.take(self.len as int));
                if utf8_text(line).is_some() {
                    let mut text: Vec<u8> = Vec::new();
                    append(&mut text, line);
                    assert(text@ =~= line@);
                    r = Some(text);
                }
            }
            self.in_line = false;
            self.len = 0;
            r
        } else {
            if self.in_line {
                if self.len < NMEA_MAX {
                    self.line[self.len] = byte;
                    self.len = self.len + 1;
                    assert(self.line@.take(self.len as int) =~= before.line->0.push(byte));
                } else {
                    self.in_line = false;
                    self.len = 0;
                }
            }
            None
        }
    }

    /// Fold what a line was parsed to into the position; `None` stands for a
    /// line that is no sentence of use.
    pub fn accept(&mut self, parsed: Option<Sentence>)
        requires
            old(self).wf(),
        ensures
            final(self).wf(),
            final(self)@ == on_parsed(old(self)@, parsed),
    {
        if let Some(s) = parsed {
            self.rx_sentences = self.rx_sentences.saturating_add(1);
            self.fold(s);
            self.updated = true;
        }
    }

    fn fold(&mut self, s: Sentence)
        requires
            old(self).wf(),
        ensures
            final(self).wf(),
            final(self)@ == (GpsView {
                position: folded(old(self)@.position, s),
                ..old(self)@
            }),
    {
        match s {
            Sentence::Rmc(rmc) => {
                if rmc.valid {
                    if let (Some(lat), Some(lon)) = (rmc.lat_e7, rmc.lon_e7) {
                        self.position.lat_e7 = lat;
                        self.position.lon_e7 = lon;
                        self.position.fix = true;
                    }
                } else {
                    self.position.fix = false;
                    clear_fix_fields(&mut self.position);
                }
                if let Some(v) = rmc.speed_cms {
                    self.position.speed_cms = v;
                }
                if let Some(v) = rmc.course_cdeg {
                    self.position.course_cdeg = v;
                }
                if let Some(v) = rmc.tod_ms {
                    self.position.tod_ms = v;
                }
            },
            Sentence::Gga(gga) => {
                if let Some(v) = gga.alt_dm {
                    self.position.alt_dm = v;
                }
                if let Some(v) = gga.sats {
                    self.position.sats = v;
                }
            },
        }
    }

    /// The frame that applies a [`GpsConfig`] with a single UBX-CFG-VALSET
    /// (RAM layer). The WIO controls the module's power rail, so it re-runs
    /// at every boot; the RAM layer is enough and avoids wearing
    /// battery-backed storage. None while the module is in backup mode.
    pub fn configure(&self, cfg: &GpsConfig) -> (r: Option<Vec<u8>>)
        ensures
            match r {
                Some(frame) => config_frame(self@, *cfg) == Some(frame@),
                None => config_frame(self@, *cfg) is None,
            },
    {
        if self.sleeping {
            return None;
        }
        // Version 0, layers (bit 0 = RAM), two reserved bytes, then key/value
        // pairs.
        let mut p: Vec<u8> = Vec::new();
        p.push(0);
        p.push(0x01);
        p.push(0);
        p.push(0);
        assert(p@ =~= seq![0u8, 0x01, 0, 0]);
        put_pair(&mut p, CFG_SIGNAL_GPS_ENA, flag_byte(cfg.gps_enabled));
        put_pair(&mut p, CFG_SIGNAL_SBAS_ENA, flag_byte(cfg.sbas_enabled));
        put_pair(&mut p, CFG_SIGNAL_GAL_ENA, flag_byte(cfg.galileo_enabled));
        put_pair(&mut p, CFG_SIGNAL_BDS_ENA, flag_byte(cfg.beidou_enabled));
        put_pair(&mut p, CFG_SIGNAL_QZSS_ENA, flag_byte(cfg.qzss_enabled));
        put_pair(&mut p, CFG_SIGNAL_GLO_ENA, flag_byte(cfg.glonass_enabled));
        put_pair(&mut p, CFG_PM_OPERATEMODE, cfg.power_mode.operate_mode());
        let ghost so_far = p@;
        let key: [u8; 4] = put_u32(CFG_RATE_MEAS);
        append(&mut p, &key);
        let rate: [u8; 2] = put_u16(cfg.meas_rate_ms);
        append(&mut p, &rate);
        assert(p@ =~= so_far + (crate::wire::u32_bytes(CFG_RATE_MEAS) + crate::wire::u16_bytes(
            cfg.meas_rate_ms,
        )));
        put_pair(&mut p, CFG_NAVSPG_DYNMODEL, cfg.dyn_model.dynmodel());
        assert(p@ =~= valset(*cfg));
        ubx(0x06, 0x8A, &p)
    }

    /// Put the module into backup mode (indefinite, wake on EXTINT or UART RX
    /// activity): the UBX-RXM-PMREQ frame to send. EXTINT goes low with it.
    pub fn sleep(&mut self) -> (r: Option<Vec<u8>>)
        requires
            old(self).wf(),
        ensures
            final(self).wf(),
            r matches Some(frame) && frame@ == sleep_frame(),
            final(self)@ == slept(old(self)@),
    {
        let payload: [u8; 16] = [0, 0, 0, 0, 0, 0, 0, 0, 2, 0, 0, 0, 0x28, 0, 0, 0];
        assert(payload@ =~= pmreq());
        let frame = ubx(0x02, 0x41, &payload);
        self.sleeping = true;
        self.position.fix = false;
        clear_fix_fields(&mut self.position);
        frame
    }

    /// Wake the module from backup: an EXTINT pulse of [`WAKE_HOLD_CYCLES`],
    /// then these bytes as UART traffic.
    pub fn wake(&mut self) -> (bytes: [u8; 2])
        requires
            old(self).wf(),
        ensures
            final(self).wf(),
            bytes@ == seq![0xFFu8, 0xFF],
            final(self)@ == woken(old(self)@),
    {
        self.sleeping = false;
        let bytes: [u8; 2] = [0xFF, 0xFF];
        assert(bytes@ =~= seq![0xFFu8, 0xFF]);
        bytes
    }
}

// -- Laws ---------------------------------------------------------------------

/// A run of bytes in the midst of line assembly: the line so far afterwards.
pub open spec fn line_after(line: Option<Seq<u8>>, bytes: Seq<u8>) -> Option<Seq<u8>>
    decreases bytes.len(),
{
    if bytes.len() == 0 {
        line
    } else {
        line_step(line_after(line, bytes.drop_last()), bytes.last()).0
    }
}

/// Whether a byte can stand inside a sentence.
pub open spec fn inside_line(byte: u8) -> bool {
    byte != 0x24 && byte != 0x0D && byte != 0x0A
}

/// A sentence of legal length is assembled whole, whatever came before it: a
/// '$' always starts over, and the line end after the body completes exactly
/// what was received since.
pub proof fn law_line_is_assembled(before: Option<Seq<u8>>, body: Seq<u8>)
    requires
        body.len() < NMEA_MAX,
        forall|i: int| 0 <= i < body.len() ==> inside_line(#[trigger] body[i]),
    ensures
        line_after(before, seq![0x24u8] + body) == Some(seq![0x24u8] + body),
        line_step(line_after(before, seq![0x24u8] + body), 0x0D) == (
            None::<Seq<u8>>,
            Some(seq![0x24u8] + body),
        ),
    decreases body.len(),
{
    let all = seq![0x24u8] + body;
    if body.len() == 0 {
        assert(all =~= seq![0x24u8]);
        assert(line_after(before, all) == Some(seq![0x24u8]));
    } else {
        law_line_is_assembled(before, body.drop_last());
        assert(all.drop_last() =~= seq![0x24u8] + body.drop_last());
        assert(inside_line(body[body.len() - 1]));
        assert((seq![0x24u8] + body.drop_last()).push(body.last()) =~= all);
    }
}

/// When the fix drops, nothing derived from it stays: a sentence that says
/// there is no fix leaves only what it carries itself, and the time.
pub proof fn law_fix_loss_clears(p: Position, rmc: Rmc)
    requires
        !rmc.valid,
    ensures
        ({
            let q = folded(p, Sentence::Rmc(rmc));
            &&& !q.fix
            &&& q.lat_e7 == 0
            &&& q.lon_e7 == 0
            &&& q.alt_dm == 0
            &&& q.sats == 0
            &&& rmc.speed_cms is None ==> q.speed_cms == 0
            &&& rmc.course_cdeg is None ==> q.course_cdeg == 0
            &&& rmc.tod_ms is None ==> q.tod_ms == p.tod_ms
        }),
{
}

/// A valid sentence that carries both coordinates is a fix at exactly those
/// coordinates, whatever the position was before.
pub proof fn law_fix_is_taken(p: Position, rmc: Rmc, lat_e7: i32, lon_e7: i32)
    requires
        rmc.valid,
        rmc.lat_e7 == Some(lat_e7),
        rmc.lon_e7 == Some(lon_e7),
    ensures
        ({
            let q = folded(p, Sentence::Rmc(rmc));
            &&& q.fix
            &&& q.lat_e7 == lat_e7
            &&& q.lon_e7 == lon_e7
            &&& q.alt_dm == p.alt_dm
            &&& q.sats == p.sats
        }),
{
}

/// A valid sentence with a coordinate missing leaves place and fix as they
/// are. Speed, course and time are what the sentence carries, and stay where
/// it carries none.
pub proof fn law_missing_fields_stay(p: Position, rmc: Rmc)
    requires
        rmc.valid,
    ensures
        ({
            let q = folded(p, Sentence::Rmc(rmc));
            &&& rmc.lat_e7 is None || rmc.lon_e7 is None ==> q.lat_e7 == p.lat_e7 && q.lon_e7
                == p.lon_e7 && q.fix == p.fix
            &&& rmc.speed_cms is None ==> q.speed_cms == p.speed_cms
            &&& rmc.course_cdeg is None ==> q.course_cdeg == p.course_cdeg
            &&& rmc.tod_ms is None ==> q.tod_ms == p.tod_ms
            &&& q.alt_dm == p.alt_dm
            &&& q.sats == p.sats
        }),
{
}

/// Speed, course and time that a sentence carries are taken, fix or no fix;
/// the other flags are no sentence's business.
pub proof fn law_carried_fields_are_taken(p: Position, rmc: Rmc)
    ensures
        ({
            let q = folded(p, Sentence::Rmc(rmc));
            &&& rmc.speed_cms matches Some(v) ==> q.speed_cms == v
            &&& rmc.course_cdeg matches Some(v) ==> q.course_cdeg == v
            &&& rmc.tod_ms matches Some(v) ==> q.tod_ms == v
            &&& q.other_flags == p.other_flags
        }),
{
}

/// Altitude and satellites come from GGA sentences, which change nothing else.
pub proof fn law_gga_gives_altitude(p: Position, gga: Gga)
    ensures
        ({
            let q = folded(p, Sentence::Gga(gga));
            &&& gga.alt_dm matches Some(v) ==> q.alt_dm == v
            &&& gga.alt_dm is None ==> q.alt_dm == p.alt_dm
            &&& gga.sats matches Some(v) ==> q.sats == v
            &&& gga.sats is None ==> q.sats == p.sats
            &&& q.lat_e7 == p.lat_e7
            &&& q.lon_e7 == p.lon_e7
            &&& q.speed_cms == p.speed_cms
            &&& q.course_cdeg == p.course_cdeg
            &&& q.fix == p.fix
            &&& q.other_flags == p.other_flags
            &&& q.tod_ms == p.tod_ms
        }),
{
}

/// Every sentence of use counts and marks the position as updated; a line that
/// is none changes nothing. Neither touches the line being assembled.
pub proof fn law_sentences_count(g: GpsView, s: Sentence)
    ensures
        ({
            let h = on_parsed(g, Some(s));
            &&& h.updated
            &&& h.rx_sentences == if g.rx_sentences < u32::MAX {
                (g.rx_sentences + 1) as u32
            } else {
                u32::MAX
            }
            &&& h.position == folded(g.position, s)
            &&& h.line == g.line && h.sleeping == g.sleeping && h.rx_bytes == g.rx_bytes
            &&& on_parsed(g, None) == g
        }),
{
}

/// Every byte counts, and only the line being assembled moves with it.
pub proof fn law_bytes_count(g: GpsView, byte: u8)
    ensures
        ({
            let (h, done) = on_byte(g, byte);
            &&& h.rx_bytes == if g.rx_bytes < u32::MAX {
                (g.rx_bytes + 1) as u32
            } else {
                u32::MAX
            }
            &&& (h.line, done) == line_step(g.line, byte)
            &&& h.position == g.position && h.updated == g.updated && h.sleeping == g.sleeping
            &&& h.rx_sentences == g.rx_sentences
        }),
{
}

/// A module put to sleep has no fix and no position left of it; the time
/// stays.
pub proof fn law_sleep_clears_the_fix(g: GpsView)
    ensures
        ({
            let h = slept(g);
            let q = h.position;
            &&& h.sleeping
            &&& !q.fix && q.lat_e7 == 0 && q.lon_e7 == 0 && q.alt_dm == 0 && q.speed_cms == 0
            &&& q.course_cdeg == 0 && q.sats == 0
            &&& q.tod_ms == g.position.tod_ms && q.other_flags == g.position.other_flags
            &&& h.line == g.line && h.updated == g.updated && h.rx_bytes == g.rx_bytes
            &&& h.rx_sentences == g.rx_sentences
        }),
{
}

/// Nothing comes of bytes outside a line, and of a line that is too long.
pub proof fn law_garbage_gives_no_line(before: Option<Seq<u8>>, noise: Seq<u8>, end: u8)
    requires
        forall|i: int| 0 <= i < noise.len() ==> inside_line(#[trigger] noise[i]),
        end == 0x0D || end == 0x0A,
    ensures
        line_after(None, noise) is None,
        line_step(None, end) == (None::<Seq<u8>>, None::<Seq<u8>>),
        noise.len() >= NMEA_MAX ==> line_after(before, seq![0x24u8] + noise) is None,
        line_step(line_after(before, seq![0x24u8] + noise), end).0 is None,
    decreases noise.len(),
{
    if noise.len() > 0 {
        let shorter = noise.drop_last();
        assert forall|i: int| 0 <= i < shorter.len() implies inside_line(#[trigger] shorter[i]) by {
            assert(shorter[i] == noise[i]);
        }
        law_garbage_gives_no_line(before, shorter, end);
        assert(inside_line(noise[noise.len() - 1]));
        let all = seq![0x24u8] + noise;
        assert(all.drop_last() =~= seq![0x24u8] + shorter);
        if shorter.len() < NMEA_MAX {
            law_line_is_assembled(before, shorter);
        }
    }
}

/// The sum of some bytes.
pub open spec fn byte_sum(data: Seq<u8>) -> int
    decreases data.len(),
{
    if data.len() == 0 {
        0
    } else {
        byte_sum(data.drop_last()) + data.last()
    }
}

/// The sum of the sums of all beginnings of some bytes.
pub open spec fn sum_of_sums(data: Seq<u8>) -> int
    decreases data.len(),
{
    if data.len() == 0 {
        0
    } else {
        sum_of_sums(data.drop_last()) + byte_sum(data)
    }
}

/// The checksum is the sum of the bytes and the sum of the running sums, each
/// modulo 256.
pub proof fn law_checksum_sums(data: Seq<u8>)
    ensures
        fletcher(data).0 == byte_sum(data) % 256,
        fletcher(data).1 == sum_of_sums(data) % 256,
    decreases data.len(),
{
    if data.len() > 0 {
        law_checksum_sums(data.drop_last());
    }
}

/// A UBX frame has its sync bytes, class, id and length in front, the payload
/// whole, and the checksum of everything between sync and checksum behind.
#[verifier::spinoff_prover]
#[verifier::rlimit(40)]
pub proof fn law_ubx_layout(class: u8, id: u8, payload: Seq<u8>)
    requires
        payload.len() <= UBX_MAX_PAYLOAD,
    ensures
        ({
            let f = ubx_frame(class, id, payload);
            let n = payload.len() as int;
            &&& f.len() == n + 8
            &&& f[0] == 0xB5 && f[1] == 0x62 && f[2] == class && f[3] == id
            &&& f[4] + 256 * f[5] == n
            &&& f.subrange(6, 6 + n) == payload
            &&& f[6 + n] == byte_sum(f.subrange(2, 6 + n)) % 256
            &&& f[7 + n] == sum_of_sums(f.subrange(2, 6 + n)) % 256
        }),
{
    let f = ubx_frame(class, id, payload);
    let n = payload.len() as int;
    assert(f.subrange(2, 6 + n) =~= ubx_body(class, id, payload));
    assert(f.subrange(6, 6 + n) =~= payload);
    law_checksum_sums(ubx_body(class, id, payload));
}

/// What starts with `front` and more starts with `front`.
proof fn lemma_front(p: Seq<u8>, front: Seq<u8>, more: Seq<u8>)
    requires
        front.len() + more.len() <= p.len(),
        p.take((front.len() + more.len()) as int) == front + more,
    ensures
        p.take(front.len() as int) == front,
{
    let whole = front + more;
    assert(p.take(front.len() as int) =~= whole.take(front.len() as int));
    assert(whole.take(front.len() as int) =~= front);
}

/// A key and its value stand behind what is in front of them.
proof fn lemma_pair_at(p: Seq<u8>, front: Seq<u8>, key: u32, value: u8)
    requires
        front.len() + 5 <= p.len(),
        p.take((front.len() + 5) as int) == front + pair1(key, value),
    ensures
        crate::wire::u32_at(p, front.len() as int) == key,
        p[front.len() as int + 4] == value,
{
    let n = front.len() as int;
    let whole = front + pair1(key, value);
    assert(p.subrange(n, n + 4) =~= whole.subrange(n, n + 4));
    assert(whole.subrange(n, n + 4) =~= crate::wire::u32_bytes(key));
    crate::wire::lemma_u32_at(p, n, key);
    assert(p.take(n + 5)[n + 4] == whole[n + 4]);
}

/// A key and a two-byte value stand behind what is in front of them.
proof fn lemma_wide_pair_at(p: Seq<u8>, front: Seq<u8>, key: u32, value: u16)
    requires
        front.len() + 6 <= p.len(),
        p.take((front.len() + 6) as int) == front + (crate::wire::u32_bytes(key)
            + crate::wire::u16_bytes(value)),
    ensures
        crate::wire::u32_at(p, front.len() as int) == key,
        crate::wire::u16_at(p, front.len() as int + 4) == value,
{
    let n = front.len() as int;
    let whole = front + (crate::wire::u32_bytes(key) + crate::wire::u16_bytes(value));
    assert(p.subrange(n, n + 4) =~= whole.subrange(n, n + 4));
    assert(whole.subrange(n, n + 4) =~= crate::wire::u32_bytes(key));
    crate::wire::lemma_u32_at(p, n, key);
    assert(p.subrange(n + 4, n + 6) =~= whole.subrange(n + 4, n + 6));
    assert(whole.subrange(n + 4, n + 6) =~= crate::wire::u16_bytes(value));
    crate::wire::lemma_u16_at(p, n + 4, value);
}

/// Every part of a receiver configuration stands behind its own key: the
/// constellations as they are switched, the power mode, the measurement
/// period and the dynamic model.
#[verifier::spinoff_prover]
#[verifier::rlimit(40)]
pub proof fn law_config_is_carried(cfg: GpsConfig)
    ensures
        ({
            let p = valset(cfg);
            &&& p[0] == 0 && p[1] == 1 && p[2] == 0 && p[3] == 0
            &&& crate::wire::u32_at(p, 4) == 0x1031_001F
            &&& p[8] == 1 <==> cfg.gps_enabled
            &&& p[8] <= 1
            &&& crate::wire::u32_at(p, 9) == 0x1031_0020
            &&& p[13] == 1 <==> cfg.sbas_enabled
            &&& p[13] <= 1
            &&& crate::wire::u32_at(p, 14) == 0x1031_0021
            &&& p[18] == 1 <==> cfg.galileo_enabled
            &&& p[18] <= 1
            &&& crate::wire::u32_at(p, 19) == 0x1031_0022
            &&& p[23] == 1 <==> cfg.beidou_enabled
            &&& p[23] <= 1
            &&& crate::wire::u32_at(p, 24) == 0x1031_0024
            &&& p[28] == 1 <==> cfg.qzss_enabled
            &&& p[28] <= 1
            &&& crate::wire::u32_at(p, 29) == 0x1031_0025
            &&& p[33] == 1 <==> cfg.glonass_enabled
            &&& p[33] <= 1
            &&& crate::wire::u32_at(p, 34) == 0x20D0_0001
            &&& p[38] == match cfg.power_mode {
                PowerMode::Full => 0u8,
                PowerMode::PsmOnOff => 1,
                PowerMode::PsmCyclic => 2,
            }
            &&& crate::wire::u32_at(p, 39) == 0x3021_0001
            &&& crate::wire::u16_at(p, 43) == cfg.meas_rate_ms
            &&& crate::wire::u32_at(p, 45) == 0x2011_0021
            &&& p[49] == match cfg.dyn_model {
                DynModel::Portable => 0u8,
                DynModel::Stationary => 2,
                DynModel::Pedestrian => 3,
                DynModel::Automotive => 4,
                DynModel::Sea => 5,
                DynModel::Airborne1g => 6,
                DynModel::Airborne2g => 7,
                DynModel::Airborne4g => 8,
            }
            &&& p.len() == 50
        }),
{
    let p = valset(cfg);
    let a: Seq<u8> = seq![0u8, 0x01, 0, 0];
    let s0: Seq<u8> = a + pair1(CFG_SIGNAL_GPS_ENA, flag(cfg.gps_enabled));
    let s1: Seq<u8> = s0 + pair1(CFG_SIGNAL_SBAS_ENA, flag(cfg.sbas_enabled));
    let s2: Seq<u8> = s1 + pair1(CFG_SIGNAL_GAL_ENA, flag(cfg.galileo_enabled));
    let s3: Seq<u8> = s2 + pair1(CFG_SIGNAL_BDS_ENA, flag(cfg.beidou_enabled));
    let s4: Seq<u8> = s3 + pair1(CFG_SIGNAL_QZSS_ENA, flag(cfg.qzss_enabled));
    let s5: Seq<u8> = s4 + pair1(CFG_SIGNAL_GLO_ENA, flag(cfg.glonass_enabled));
    let s6: Seq<u8> = s5 + pair1(CFG_PM_OPERATEMODE, cfg.power_mode.mode_value());
    let wide: Seq<u8> = crate::wire::u32_bytes(CFG_RATE_MEAS) + crate::wire::u16_bytes(
        cfg.meas_rate_ms,
    );
    let s7: Seq<u8> = s6 + wide;
    let last: Seq<u8> = pair1(CFG_NAVSPG_DYNMODEL, cfg.dyn_model.model_value());
    assert(p == s7 + last);
    assert(p.take(50) =~= s7 + last);
    lemma_pair_at(p, s7, CFG_NAVSPG_DYNMODEL, cfg.dyn_model.model_value());
    lemma_front(p, s7, last);
    lemma_wide_pair_at(p, s6, CFG_RATE_MEAS, cfg.meas_rate_ms);
    lemma_front(p, s6, wide);
    lemma_pair_at(p, s5, CFG_PM_OPERATEMODE, cfg.power_mode.mode_value());
    lemma_front(p, s5, pair1(CFG_PM_OPERATEMODE, cfg.power_mode.mode_value()));
    lemma_pair_at(p, s4, CFG_SIGNAL_GLO_ENA, flag(cfg.glonass_enabled));
    lemma_front(p, s4, pair1(CFG_SIGNAL_GLO_ENA, flag(cfg.glonass_enabled)));
    lemma_pair_at(p, s3, CFG_SIGNAL_QZSS_ENA, flag(cfg.qzss_enabled));
    lemma_front(p, s3, pair1(CFG_SIGNAL_QZSS_ENA, flag(cfg.qzss_enabled)));
    lemma_pair_at(p, s2, CFG_SIGNAL_BDS_ENA, flag(cfg.beidou_enabled));
    lemma_front(p, s2, pair1(CFG_SIGNAL_BDS_ENA, flag(cfg.beidou_enabled)));
    lemma_pair_at(p, s1, CFG_SIGNAL_GAL_ENA, flag(cfg.galileo_enabled));
    lemma_front(p, s1, pair1(CFG_SIGNAL_GAL_ENA, flag(cfg.galileo_enabled)));
    lemma_pair_at(p, s0, CFG_SIGNAL_SBAS_ENA, flag(cfg.sbas_enabled));
    lemma_front(p, s0, pair1(CFG_SIGNAL_SBAS_ENA, flag(cfg.sbas_enabled)));
    lemma_pair_at(p, a, CFG_SIGNAL_GPS_ENA, flag(cfg.gps_enabled));
    lemma_front(p, a, pair1(CFG_SIGNAL_GPS_ENA, flag(cfg.gps_enabled)));
    assert(p.take(4)[0] == p[0] && p.take(4)[1] == p[1] && p.take(4)[2] == p[2] && p.take(4)[3] == p[3]);
}

/// What a byte makes of the line being assembled: a dollar sign starts one
/// anew, the end of a line hands it up, and any other byte goes behind it
/// while it has fewer than 82 bytes; past that it is dropped, and outside of a
/// line nothing happens.
pub proof fn law_line_steps(text: Seq<u8>, line: Option<Seq<u8>>, byte: u8)
    ensures
        byte == 0x24 ==> line_step(line, byte) == (Some(seq![0x24u8]), None::<Seq<u8>>),
        byte == 0x0D || byte == 0x0A ==> line_step(line, byte) == (None::<Seq<u8>>, line),
        byte != 0x24 && byte != 0x0D && byte != 0x0A ==> {
            &&& line_step(None, byte) == (None::<Seq<u8>>, None::<Seq<u8>>)
            &&& text.len() < 82 ==> line_step(Some(text), byte) == (
                Some(text.push(byte)),
                None::<Seq<u8>>,
            )
            &&& text.len() >= 82 ==> line_step(Some(text), byte) == (
                None::<Seq<u8>>,
                None::<Seq<u8>>,
            )
        },
{
}

proof fn lemma_valset_len(cfg: GpsConfig)
    ensures
        valset(cfg).len() == 50,
{
    law_config_is_carried(cfg);
}

/// A module that is awake is configured with a CFG-VALSET frame around the
/// configuration, a sleeping one is left alone; an RXM-PMREQ frame puts it to
/// sleep.
#[verifier::spinoff_prover]
#[verifier::rlimit(40)]
pub proof fn law_module_commands(g: GpsView, cfg: GpsConfig)
    ensures
        g.sleeping <==> config_frame(g, cfg) is None,
        config_frame(g, cfg) matches Some(f) ==> f.len() == 58 && f[2] == 0x06 && f[3] == 0x8A
            && f.subrange(6, 56) == valset(cfg),
        sleep_frame().len() == 24,
        sleep_frame()[2] == 0x02 && sleep_frame()[3] == 0x41,
        sleep_frame().subrange(6, 22) == pmreq(),
{
    let v = valset(cfg);
    lemma_valset_len(cfg);
    law_ubx_layout(0x06, 0x8A, v);
    let q = pmreq();
    assert(q.len() == 16);
    law_ubx_layout(0x02, 0x41, q);
}

/// Sleeping and waking undo each other, a look at the position uses up its
/// news, and lost bytes cost the line being assembled; none of these does
/// anything else.
pub proof fn law_driver_steps(g: GpsView)
    ensures
        !woken(slept(g)).sleeping,
        woken(g) == (GpsView { sleeping: false, ..g }),
        looked_at(g) == (GpsView { updated: false, ..g }, g.updated),
        !looked_at(looked_at(g).0).1,
        resynced(g) == (GpsView { line: None, ..g }),
{
}

} // verus!

//! Settings that survive deep sleep and power loss.
//!
//! Deep sleep keeps RTC RAM, so the settings live there behind a magic word
//! that gates cold-boot garbage. RTC RAM is lost when the cell goes flat, so
//! a sleeping board would come back with nothing configured and advertise
//! until it died again. The same words are therefore mirrored into flash as
//! one fixed record, which RTC RAM caches: only a cold boot reads flash.

use vstd::prelude::*;
use crate::ble;
use crate::link::crc32;
use crate::wire::{get_u32, put_u32};

verus! {

/// "mida": marks valid settings in RTC RAM.
pub const PERSIST_MAGIC: u32 = 0x6D69_6461;

/// The app switched the GPS/LoRa rail off.
pub const PFLAG_PWR_OFF: u32 = 1;

/// The app put the WIO to sleep.
pub const PFLAG_WIO_SLEEP: u32 = 2;

/// The app put the GPS into backup mode.
pub const PFLAG_GPS_SLEEP: u32 = 4;

/// "midA": marks the flash record.
pub const NVS_MAGIC: u32 = 0x6D69_6441;

/// Layout version of the flash record.
///
/// Version 2 dropped the stow interval; a version 1 record is ignored, which
/// leaves the board awake rather than reading the old stow word as something
/// else. Version 3 appended the advertising window. That is a pure append,
/// so a version 2 record is still read: a board updated in the field keeps
/// the cadence it was left on.
pub const NVS_VERSION: u32 = 3;

/// Magic, version, sleep, flags, advertising window and CRC-32, four bytes
/// each.
pub const NVS_RECORD_LEN: usize = 24;

/// Where the CRC-32 sits in a version 2 record, which is the version 3
/// layout minus its last word.
pub const NVS_V2_CRC_AT: usize = 16;

/// The settings.
#[derive(Clone, Copy, Debug, PartialEq, Eq, Structural)]
pub struct Persist {
    /// Wake-check interval in seconds; 0 = stay awake.
    pub sleep_interval_s: u32,
    /// PFLAG_* bits.
    pub flags: u32,
    /// 0 = never configured; read it through [`Persist::adv_window_s`],
    /// which substitutes the default.
    pub adv_window_s: u32,
}

/// `flags` with `bit` set or cleared.
pub open spec fn with_flag(flags: u32, bit: u32, on: bool) -> u32 {
    if on {
        flags | bit
    } else {
        flags & !bit
    }
}

impl Persist {
    /// What an unconfigured board has.
    pub open spec fn unset() -> Persist {
        Persist { sleep_interval_s: 0, flags: 0, adv_window_s: 0 }
    }

    /// How long a wake check advertises for.
    pub open spec fn window(self) -> u32 {
        if self.adv_window_s == 0 {
            ble::ESP_ADV_DEFAULT_S
        } else {
            self.adv_window_s
        }
    }

    /// Whether the app wants the rail powered.
    pub open spec fn rail(self) -> bool {
        self.flags & PFLAG_PWR_OFF == 0
    }

    /// What an app reads of these settings.
    pub open spec fn shown(self, notify_interval_ms: u32) -> ble::Settings {
        ble::Settings {
            pwr_en: self.rail(),
            wio_sleep: self.flags & PFLAG_WIO_SLEEP != 0,
            gps_sleep: self.flags & PFLAG_GPS_SLEEP != 0,
            sleep_interval_s: self.sleep_interval_s,
            notify_interval_ms,
            adv_window_s: self.window(),
        }
    }

    /// How long a wake check advertises for. A stored 0 means never
    /// configured, not "do not advertise": a zero window would leave a
    /// sleeping board unreachable by anything but a physical reset, so it
    /// resolves to the default instead.
    pub fn adv_window_s(&self) -> (s: u32)
        ensures
            s == self.window(),
    {
        if self.adv_window_s == 0 {
            ble::ESP_ADV_DEFAULT_S
        } else {
            self.adv_window_s
        }
    }

    /// Interval for the next deep sleep, 0 = stay awake and keep
    /// advertising.
    pub fn next_sleep_interval_s(&self) -> (s: u32)
        ensures
            s == self.sleep_interval_s,
    {
        self.sleep_interval_s
    }

    /// Rail state the app asked for, which is what to restore on a connect.
    pub fn pwr_configured_on(&self) -> (on: bool)
        ensures
            on == self.rail(),
    {
        self.flags & PFLAG_PWR_OFF == 0
    }

    /// Snapshot of everything the config characteristic can change, for the
    /// readable settings characteristic. There is no other way for an app to
    /// learn the device's state on connect.
    pub fn current_settings(&self, notify_interval_ms: u32) -> (s: ble::Settings)
        ensures
            s == self.shown(notify_interval_ms),
    {
        ble::Settings {
            pwr_en: self.pwr_configured_on(),
            wio_sleep: self.flags & PFLAG_WIO_SLEEP != 0,
            gps_sleep: self.flags & PFLAG_GPS_SLEEP != 0,
            sleep_interval_s: self.sleep_interval_s,
            notify_interval_ms,
            adv_window_s: self.adv_window_s(),
        }
    }

    /// Set or clear one flag.
    pub fn set_flag(&mut self, bit: u32, on: bool)
        ensures
            *final(self) == (Persist { flags: with_flag(old(self).flags, bit, on), ..*old(self) }),
    {
        if on {
            self.flags = self.flags | bit;
        } else {
            self.flags = self.flags & !bit;
        }
    }
}

/// Whether the rail is on after a boot.
pub open spec fn rail_at_boot(woke_from_sleep: bool, p: Persist) -> bool {
    !woke_from_sleep && p.rail()
}

/// Whether the GPS/LoRa rail comes up at boot. A wake check comes up dark:
/// the point of the interval is to ask whether the app wants the board back,
/// which needs BLE only. A cold boot follows whatever the app last
/// configured.
pub fn boot_rail_on(woke_from_sleep: bool, p: &Persist) -> (on: bool)
    ensures
        on == rail_at_boot(woke_from_sleep, *p),
{
    !woke_from_sleep && p.pwr_configured_on()
}

// -- RTC RAM ------------------------------------------------------------------

/// The words in RTC RAM. They are not reinitialized on a deep-sleep wake, so
/// after a cold boot they hold anything.
#[derive(Clone, Copy, Debug, PartialEq, Eq, Structural)]
pub struct RtcCopy {
    pub magic: u32,
    pub sleep_interval_s: u32,
    pub flags: u32,
    pub adv_window_s: u32,
}

impl RtcCopy {
    /// The settings that the words hold.
    pub open spec fn settings(self) -> Persist {
        if self.magic == PERSIST_MAGIC {
            Persist {
                sleep_interval_s: self.sleep_interval_s,
                flags: self.flags,
                adv_window_s: self.adv_window_s,
            }
        } else {
            Persist::unset()
        }
    }

    pub fn get(&self) -> (p: Persist)
        ensures
            p == self.settings(),
    {
        if self.magic == PERSIST_MAGIC {
            Persist {
                sleep_interval_s: self.sleep_interval_s,
                flags: self.flags,
                adv_window_s: self.adv_window_s,
            }
        } else {
            Persist { sleep_interval_s: 0, flags: 0, adv_window_s: 0 }
        }
    }

    pub fn update(&mut self, p: Persist)
        ensures
            final(self).magic == PERSIST_MAGIC,
            final(self).settings() == p,
    {
        self.sleep_interval_s = p.sleep_interval_s;
        self.flags = p.flags;
        self.adv_window_s = p.adv_window_s;
        self.magic = PERSIST_MAGIC;
    }

    /// Whether flash has to be read: a deep-sleep wake still holds its copy,
    /// so only a cold boot (or a lost copy) pays for it.
    pub fn lost(&self) -> (r: bool)
        ensures
            r == (self.magic != PERSIST_MAGIC),
    {
        self.magic != PERSIST_MAGIC
    }

    /// Adopt what a cold boot found in flash. A valid copy is kept.
    pub fn restore(&mut self, saved: Option<Persist>) -> (adopted: bool)
        ensures
            adopted == (old(self).magic != PERSIST_MAGIC && saved is Some),
            !adopted ==> *final(self) == *old(self),
            adopted ==> final(self).magic == PERSIST_MAGIC && Some(final(self).settings()) == saved,
            final(self).settings() == after_boot(*old(self), saved),
    {
        if self.lost() {
            if let Some(p) = saved {
                self.update(p);
                return true;
            }
        }
        false
    }
}

/// The settings that a board goes on with, given its words in RTC RAM and what
/// was saved.
pub open spec fn after_boot(c: RtcCopy, saved: Option<Persist>) -> Persist {
    match saved {
        Some(p) if c.magic != PERSIST_MAGIC => p,
        _ => c.settings(),
    }
}

// -- Flash --------------------------------------------------------------------

/// The flash record up to its CRC.
pub open spec fn record_body(p: Persist) -> Seq<u8> {
    crate::wire::u32_bytes(NVS_MAGIC) + crate::wire::u32_bytes(NVS_VERSION)
        + crate::wire::u32_bytes(p.sleep_interval_s) + crate::wire::u32_bytes(p.flags)
        + crate::wire::u32_bytes(p.adv_window_s)
}

/// The flash record.
pub open spec fn record(p: Persist) -> Seq<u8> {
    record_body(p) + crate::wire::u32_bytes(crate::link::crc32_of(record_body(p)))
}

/// A version 2 record, as earlier firmware left it in flash.
pub open spec fn old_record(sleep_interval_s: u32, flags: u32) -> Seq<u8> {
    let body = crate::wire::u32_bytes(NVS_MAGIC) + crate::wire::u32_bytes(2)
        + crate::wire::u32_bytes(sleep_interval_s) + crate::wire::u32_bytes(flags);
    body + crate::wire::u32_bytes(crate::link::crc32_of(body))
}

/// Whether the CRC at `at` matches the bytes before it.
pub open spec fn sealed(rec: Seq<u8>, at: int) -> bool {
    crate::wire::u32_at(rec, at) == crate::link::crc32_of(rec.take(at))
}

/// What a record says: nothing unless it carries the magic, a known version,
/// and the CRC where that version puts it.
pub open spec fn record_read(rec: Seq<u8>) -> Option<Persist> {
    let sleep_interval_s = crate::wire::u32_at(rec, 8);
    let flags = crate::wire::u32_at(rec, 12);
    let version = crate::wire::u32_at(rec, 4);
    if crate::wire::u32_at(rec, 0) != NVS_MAGIC {
        None
    } else if version == 2 && sealed(rec, NVS_V2_CRC_AT as int) {
        Some(Persist { sleep_interval_s, flags, adv_window_s: 0 })
    } else if version == NVS_VERSION && sealed(rec, NVS_RECORD_LEN - 4) {
        Some(
            Persist {
                sleep_interval_s,
                flags,
                adv_window_s: crate::wire::u32_at(rec, NVS_RECORD_LEN - 8),
            },
        )
    } else {
        None
    }
}

pub fn nvs_encode(p: &Persist) -> (rec: [u8; NVS_RECORD_LEN])
    ensures
        rec@ == record(*p),
{
    let mut rec: [u8; NVS_RECORD_LEN] = [0u8; NVS_RECORD_LEN];
    let magic: [u8; 4] = put_u32(NVS_MAGIC);
    let version: [u8; 4] = put_u32(NVS_VERSION);
    let sleep: [u8; 4] = put_u32(p.sleep_interval_s);
    let flags: [u8; 4] = put_u32(p.flags);
    let window: [u8; 4] = put_u32(p.adv_window_s);
    let mut i: usize = 0;
    while i < 4
        invariant
            i <= 4,
            forall|j: int| 0 <= j < i ==> rec@[j] == magic@[j],
            forall|j: int| 0 <= j < i ==> rec@[4 + j] == version@[j],
            forall|j: int| 0 <= j < i ==> rec@[8 + j] == sleep@[j],
            forall|j: int| 0 <= j < i ==> rec@[12 + j] == flags@[j],
            forall|j: int| 0 <= j < i ==> rec@[16 + j] == window@[j],
        decreases 4 - i,
    {
        rec[i] = magic[i];
        rec[4 + i] = version[i];
        rec[8 + i] = sleep[i];
        rec[12 + i] = flags[i];
        rec[16 + i] = window[i];
        i = i + 1;
    }
    assert(rec@.take(20) =~= record_body(*p)) by {
        let body = record_body(*p);
        assert forall|j: int| 0 <= j < 20 implies rec@[j] == body[j] by {
            if j >= 4 && j < 8 {
                assert(rec@[4 + (j - 4)] == version@[j - 4]);
            } else if j >= 8 && j < 12 {
                assert(rec@[8 + (j - 8)] == sleep@[j - 8]);
            } else if j >= 12 && j < 16 {
                assert(rec@[12 + (j - 12)] == flags@[j - 12]);
            } else if j >= 16 {
                assert(rec@[16 + (j - 16)] == window@[j - 16]);
            }
        }
    }
    let crc: [u8; 4] = put_u32(crc32(&rec[0..20]));
    rec[20] = crc[0];
    rec[21] = crc[1];
    rec[22] = crc[2];
    rec[23] = crc[3];
    assert(rec@.take(20) =~= record_body(*p));
    assert(rec@ =~= record(*p)) by {
        assert forall|j: int| 0 <= j < 24 implies rec@[j] == record(*p)[j] by {
            if j < 20 {
                assert(rec@.take(20)[j] == rec@[j]);
            }
        }
    }
    rec
}

pub fn nvs_decode(rec: &[u8; NVS_RECORD_LEN]) -> (p: Option<Persist>)
    ensures
        p == record_read(rec@),
{
    let b: &[u8] = rec.as_slice();
    if get_u32(b, 0) != NVS_MAGIC {
        return None;
    }
    // A version 2 record stops one word short and carries no window, which
    // reads back as the default. Its trailing bytes are erased flash, so
    // the crc has to be checked where that version put it.
    let version: u32 = get_u32(b, 4);
    let crc_at: usize;
    let adv_window_s: u32;
    if version == 2 {
        crc_at = NVS_V2_CRC_AT;
        adv_window_s = 0;
    } else if version == NVS_VERSION {
        crc_at = NVS_RECORD_LEN - 4;
        adv_window_s = get_u32(b, NVS_RECORD_LEN - 8);
    } else {
        return None;
    }
    let body: &[u8] = &b[0..crc_at];
    assert(body@ =~= rec@.take(crc_at as int));
    if get_u32(b, crc_at) != crc32(body) {
        return None;
    }
    Some(Persist { sleep_interval_s: get_u32(b, 8), flags: get_u32(b, 12), adv_window_s })
}

/// The settings that a cold boot takes from flash.
pub open spec fn loaded(offset: u32, read: Option<Seq<u8>>) -> Option<Persist> {
    match read {
        Some(rec) if offset != 0 => record_read(rec),
        _ => None,
    }
}

/// What a cold boot takes from flash: nothing without an `nvs` partition
/// (`offset` 0) or where the read failed.
pub fn nvs_load(offset: u32, read: Option<[u8; NVS_RECORD_LEN]>) -> (p: Option<Persist>)
    ensures
        p == loaded(
            offset,
            match read {
                Some(rec) => Some(rec@),
                None => None,
            },
        ),
{
    if offset == 0 {
        return None;
    }
    match read {
        Some(rec) => nvs_decode(&rec),
        None => None,
    }
}

/// One save: erase the record's sector, since NOR flash only clears bits on
/// write, and write the record at its start.
#[derive(Clone, Copy, Debug, PartialEq, Eq)]
pub struct NvsWrite {
    pub erase_from: u32,
    pub erase_to: u32,
    pub at: u32,
    pub record: [u8; NVS_RECORD_LEN],
}

/// What to write to save `p`: nothing without an `nvs` partition (`offset`
/// 0), where the settings degrade to RTC RAM only.
pub fn nvs_save(offset: u32, sector: u32, p: &Persist) -> (w: Option<NvsWrite>)
    requires
        offset + sector <= u32::MAX,
    ensures
        w is None <==> offset == 0,
        w matches Some(w) ==> {
            &&& w.at == offset
            &&& w.erase_from == offset
            &&& w.erase_to == offset + sector
            &&& w.record@ == record(*p)
        },
{
    if offset == 0 {
        return None;
    }
    Some(
        NvsWrite {
            erase_from: offset,
            erase_to: offset + sector,
            at: offset,
            record: nvs_encode(p),
        },
    )
}

// -- Laws ---------------------------------------------------------------------

proof fn lemma_words(rec: Seq<u8>, a: u32, b: u32, c: u32, d: u32)
    requires
        rec.len() >= 16,
        rec.take(16) == crate::wire::u32_bytes(a) + crate::wire::u32_bytes(b)
            + crate::wire::u32_bytes(c) + crate::wire::u32_bytes(d),
    ensures
        crate::wire::u32_at(rec, 0) == a,
        crate::wire::u32_at(rec, 4) == b,
        crate::wire::u32_at(rec, 8) == c,
        crate::wire::u32_at(rec, 12) == d,
{
    let s = rec.take(16);
    assert(rec.subrange(0, 4) =~= s.subrange(0, 4));
    assert(s.subrange(0, 4) =~= crate::wire::u32_bytes(a));
    assert(rec.subrange(4, 8) =~= s.subrange(4, 8));
    assert(s.subrange(4, 8) =~= crate::wire::u32_bytes(b));
    assert(rec.subrange(8, 12) =~= s.subrange(8, 12));
    assert(s.subrange(8, 12) =~= crate::wire::u32_bytes(c));
    assert(rec.subrange(12, 16) =~= s.subrange(12, 16));
    assert(s.subrange(12, 16) =~= crate::wire::u32_bytes(d));
    crate::wire::lemma_u32_at(rec, 0, a);
    crate::wire::lemma_u32_at(rec, 4, b);
    crate::wire::lemma_u32_at(rec, 8, c);
    crate::wire::lemma_u32_at(rec, 12, d);
}

proof fn lemma_record_words(p: Persist)
    ensures
        record(p).len() == NVS_RECORD_LEN,
        record(p).take(20) == record_body(p),
        crate::wire::u32_at(record(p), 0) == NVS_MAGIC,
        crate::wire::u32_at(record(p), 4) == NVS_VERSION,
        crate::wire::u32_at(record(p), 8) == p.sleep_interval_s,
        crate::wire::u32_at(record(p), 12) == p.flags,
        crate::wire::u32_at(record(p), 16) == p.adv_window_s,
        crate::wire::u32_at(record(p), 20) == crate::link::crc32_of(record_body(p)),
{
    let rec = record(p);
    assert(rec.take(20) =~= record_body(p));
    assert(rec.take(16) =~= crate::wire::u32_bytes(NVS_MAGIC) + crate::wire::u32_bytes(NVS_VERSION)
        + crate::wire::u32_bytes(p.sleep_interval_s) + crate::wire::u32_bytes(p.flags));
    lemma_words(rec, NVS_MAGIC, NVS_VERSION, p.sleep_interval_s, p.flags);
    assert(rec.subrange(16, 20) =~= crate::wire::u32_bytes(p.adv_window_s));
    crate::wire::lemma_u32_at(rec, 16, p.adv_window_s);
    assert(rec.subrange(20, 24) =~= crate::wire::u32_bytes(
        crate::link::crc32_of(record_body(p)),
    ));
    crate::wire::lemma_u32_at(rec, 20, crate::link::crc32_of(record_body(p)));
}

/// Saved settings come back from flash as they were.
pub proof fn law_saved_settings_come_back(p: Persist)
    ensures
        record_read(record(p)) == Some(p),
{
    lemma_record_words(p);
}

/// A record of the layout before the advertising window is still read,
/// whatever follows it in flash; its window is the default.
pub proof fn law_old_record_is_read(sleep_interval_s: u32, flags: u32, trailing: Seq<u8>)
    ensures
        record_read(old_record(sleep_interval_s, flags) + trailing) == Some(
            Persist { sleep_interval_s, flags, adv_window_s: 0 },
        ),
        (Persist { sleep_interval_s, flags, adv_window_s: 0 }).window() == ble::ESP_ADV_DEFAULT_S,
{
    let body = crate::wire::u32_bytes(NVS_MAGIC) + crate::wire::u32_bytes(2)
        + crate::wire::u32_bytes(sleep_interval_s) + crate::wire::u32_bytes(flags);
    let rec = old_record(sleep_interval_s, flags) + trailing;
    assert(rec.take(16) =~= body);
    lemma_words(rec, NVS_MAGIC, 2, sleep_interval_s, flags);
    assert(rec.subrange(16, 20) =~= crate::wire::u32_bytes(crate::link::crc32_of(body)));
    crate::wire::lemma_u32_at(rec, 16, crate::link::crc32_of(body));
}

/// Any other layout version is ignored, the first one among them.
pub proof fn law_unknown_version_is_ignored(rec: Seq<u8>)
    requires
        rec.len() == NVS_RECORD_LEN,
        crate::wire::u32_at(rec, 4) != 2,
        crate::wire::u32_at(rec, 4) != NVS_VERSION,
    ensures
        record_read(rec) is None,
{
}

/// A record with one damaged byte is ignored, unless the damage turns its
/// version into the older one, whose CRC sits elsewhere.
pub proof fn law_damaged_record_is_ignored(p: Persist, k: int, bad: u8)
    requires
        0 <= k < NVS_RECORD_LEN,
        bad != record(p)[k],
        !(k == 4 && bad == 2),
    ensures
        record_read(record(p).update(k, bad)) is None,
{
    let good = record(p);
    let rec = good.update(k, bad);
    lemma_record_words(p);
    assert(forall|i: int| 0 <= i < 24 && i != k ==> rec[i] == good[i]);
    if k < 4 {
        assert(crate::wire::u32_at(rec, 0) != NVS_MAGIC);
    } else if k < 8 {
        assert(crate::wire::u32_at(rec, 4) != NVS_VERSION);
        assert(good.subrange(4, 8) =~= crate::wire::u32_bytes(NVS_VERSION));
        assert(good.subrange(4, 8)[0] == good[4]);
        assert(good.subrange(4, 8)[1] == good[5]);
        assert(good.subrange(4, 8)[2] == good[6]);
        assert(good.subrange(4, 8)[3] == good[7]);
        assert(crate::wire::u32_at(rec, 4) != 2);
    } else if k < 20 {
        assert(crate::wire::u32_at(rec, 4) == NVS_VERSION);
        assert(crate::wire::u32_at(rec, 20) == crate::wire::u32_at(good, 20));
        crate::link::law_crc32_detects_byte_error(good.take(20), rec.take(20), k);
    } else {
        assert(crate::wire::u32_at(rec, 4) == NVS_VERSION);
        assert(rec.take(20) =~= good.take(20));
        assert(crate::wire::u32_at(rec, 20) != crate::wire::u32_at(good, 20));
    }
}

/// A flag reads back as it was set, and setting one leaves the others alone.
pub proof fn law_flags_are_independent(flags: u32, bit: u32, other: u32, on: bool)
    requires
        bit & other == 0,
        bit != 0,
    ensures
        (with_flag(flags, bit, on) & bit != 0) == on,
        with_flag(flags, bit, on) & other == flags & other,
{
    assert((flags | bit) & bit != 0) by (bit_vector)
        requires
            bit != 0,
    ;
    assert((flags & !bit) & bit == 0) by (bit_vector);
    assert(((flags | bit) & other) == (flags & other) && ((flags & !bit) & other) == (flags
        & other)) by (bit_vector)
        requires
            bit & other == 0,
    ;
}

/// An app reads every setting as it is stored: each switch from its own flag,
/// both intervals, and the window, which reads as the default where none was
/// set. The rail comes up at a cold boot as it was left, and never on a wake
/// check.
pub proof fn law_settings_are_shown(p: Persist, notify_interval_ms: u32)
    ensures
        ({
            let s = p.shown(notify_interval_ms);
            &&& s.pwr_en <==> p.flags & 1 == 0
            &&& s.wio_sleep <==> p.flags & 2 != 0
            &&& s.gps_sleep <==> p.flags & 4 != 0
            &&& s.sleep_interval_s == p.sleep_interval_s
            &&& s.notify_interval_ms == notify_interval_ms
            &&& p.adv_window_s > 0 ==> s.adv_window_s == p.adv_window_s
            &&& p.adv_window_s == 0 ==> s.adv_window_s == 15
        }),
        rail_at_boot(false, p) <==> p.flags & 1 == 0,
        !rail_at_boot(true, p),
{
}

/// The words in RTC RAM are the settings exactly where they carry their mark,
/// and a board without them is unconfigured: awake, powered, at its defaults.
pub proof fn law_marked_words_are_kept(c: RtcCopy)
    ensures
        c.magic == PERSIST_MAGIC ==> c.settings() == (Persist {
            sleep_interval_s: c.sleep_interval_s,
            flags: c.flags,
            adv_window_s: c.adv_window_s,
        }),
        c.magic != PERSIST_MAGIC ==> c.settings().sleep_interval_s == 0 && c.settings().rail()
            && c.settings().window() == 15 && c.settings().flags == 0,
{
    assert(0u32 & 1u32 == 0) by (bit_vector);
}

/// Settings survive: after a deep sleep they are those in RTC RAM, whatever
/// flash holds; after a cold boot those that were saved, where there is a
/// partition that could be read; else the board is unconfigured.
pub proof fn law_settings_survive(c: RtcCopy, p: Persist, offset: u32)
    ensures
        offset != 0 ==> loaded(offset, Some(record(p))) == Some(p),
        loaded(0, Some(record(p))) is None,
        loaded(offset, None) is None,
        c.magic == PERSIST_MAGIC ==> after_boot(c, Some(p)) == (Persist {
            sleep_interval_s: c.sleep_interval_s,
            flags: c.flags,
            adv_window_s: c.adv_window_s,
        }),
        c.magic != PERSIST_MAGIC ==> after_boot(c, Some(p)) == p,
        c.magic != PERSIST_MAGIC ==> after_boot(c, None) == (Persist {
            sleep_interval_s: 0,
            flags: 0,
            adv_window_s: 0,
        }),
{
    law_saved_settings_come_back(p);
}

/// The flash record has every word at its own place, low byte first: the mark,
/// the version, the sleep interval, the flags and the window, and the CRC-32
/// of those.
pub proof fn law_record_layout(p: Persist)
    ensures
        ({
            let r = record(p);
            &&& r.len() == 24
            &&& crate::wire::u32_at(r, 0) == 0x6D69_6441
            &&& crate::wire::u32_at(r, 4) == 3
            &&& crate::wire::u32_at(r, 8) == p.sleep_interval_s
            &&& crate::wire::u32_at(r, 12) == p.flags
            &&& crate::wire::u32_at(r, 16) == p.adv_window_s
            &&& crate::wire::u32_at(r, 20) == crate::link::crc32_of(r.take(20))
        }),
{
    lemma_record_words(p);
}

} // verus!

//! SD card logging and config storage: what to write, and when.
//!
//! The card carries a normal FAT16/FAT32 filesystem (as formatted by a
//! phone or computer), with two files in the root directory:
//!
//! - `GPSLOG.CSV` - appended position log, one line per own/remote fix:
//!   `ms,src,lat_e7,lon_e7,alt_dm,speed_cms,course_cdeg,sats,fix,rssi`
//! - `RADIO.CFG` - the radio configuration (see [`crate::radiocfg`]),
//!   read at boot and rewritten when a new config arrives over the link.
//!
//! The card is fully optional: the logger buffers lines in RAM and drops
//! the oldest data when no card is present, and a card inserted after
//! boot (or an SPI error) is picked up by the retry path. Log lines are
//! appended in batches with an open/append/close cycle per flush, so the
//! FAT directory entry stays consistent on power loss (at most one flush
//! interval of data is lost).

use vstd::prelude::*;
use crate::platform::is_due;
use crate::position::Position;
use crate::text::{push_number, push_signed};

verus! {

pub const LOG_FILE: &'static str = "GPSLOG.CSV";

pub const CONFIG_FILE: &'static str = "RADIO.CFG";

/// First line of a new log.
pub const LOG_HEADER: &'static str = "ms,src,lat_e7,lon_e7,alt_dm,speed_cms,course_cdeg,sats,fix,rssi\n";

/// Flush the pending buffer to the card this often.
pub const FLUSH_MS: u32 = 5_000;

/// Retry card init this often while absent/failing.
pub const RETRY_MS: u32 = 10_000;

/// Pending line buffer; ~8 lines of headroom between flushes.
pub const PENDING_LEN: usize = 1024;

/// Longest log line.
pub const LINE_MAX: usize = 96;

/// Largest config file we handle.
pub const CONFIG_MAX: usize = 1024;

// -- Lines --------------------------------------------------------------------

/// A comma.
pub open spec fn comma() -> Seq<u8> {
    seq![0x2Cu8]
}

/// The log line of a position.
pub open spec fn log_line(now_ms: u32, src: u8, rssi: i16, p: Position) -> Seq<u8> {
    crate::text::digits(now_ms as nat) + comma() + crate::text::digits(src as nat) + comma()
        + crate::text::signed_digits(p.lat_e7 as int) + comma() + crate::text::signed_digits(
        p.lon_e7 as int,
    ) + comma() + crate::text::signed_digits(p.alt_dm as int) + comma() + crate::text::digits(
        p.speed_cms as nat,
    ) + comma() + crate::text::digits(p.course_cdeg as nat) + comma() + crate::text::digits(
        p.sats as nat,
    ) + comma() + crate::text::digits(
        if p.fix {
            1nat
        } else {
            0nat
        },
    ) + comma() + crate::text::signed_digits(rssi as int) + seq![0x0Au8]
}

/// Pending bytes with a line added. Where they would not fit, the oldest half
/// of the buffer goes, so recent history survives until a card shows up.
pub open spec fn with_line(pending: Seq<u8>, line: Seq<u8>) -> Seq<u8> {
    if pending.len() + line.len() > PENDING_LEN {
        pending.skip(PENDING_LEN as int / 2) + line
    } else {
        pending + line
    }
}

/// A log line is never empty, ends in a newline, and fits.
pub proof fn lemma_line_len(now_ms: u32, src: u8, rssi: i16, p: Position)
    ensures
        20 <= log_line(now_ms, src, rssi, p).len() <= 71,
        log_line(now_ms, src, rssi, p).last() == 0x0A,
{
    reveal_with_fuel(crate::text::pow10, 11);
    crate::text::lemma_digits_len(now_ms as nat, 10);
    crate::text::lemma_digits_len(src as nat, 3);
    crate::text::lemma_digits_len(
        if p.lat_e7 < 0 {
            (-(p.lat_e7 as int)) as nat
        } else {
            p.lat_e7 as nat
        },
        10,
    );
    crate::text::lemma_digits_len(
        if p.lon_e7 < 0 {
            (-(p.lon_e7 as int)) as nat
        } else {
            p.lon_e7 as nat
        },
        10,
    );
    crate::text::lemma_digits_len(
        if p.alt_dm < 0 {
            (-(p.alt_dm as int)) as nat
        } else {
            p.alt_dm as nat
        },
        5,
    );
    crate::text::lemma_digits_len(p.speed_cms as nat, 5);
    crate::text::lemma_digits_len(p.course_cdeg as nat, 5);
    crate::text::lemma_digits_len(p.sats as nat, 3);
    crate::text::lemma_digits_len(
        if p.fix {
            1nat
        } else {
            0nat
        },
        1,
    );
    crate::text::lemma_digits_len(
        if rssi < 0 {
            (-(rssi as int)) as nat
        } else {
            rssi as nat
        },
        5,
    );
}

fn push_comma(out: &mut Vec<u8>)
    ensures
        final(out)@ == old(out)@ + comma(),
{
    let ghost before = out@;
    out.push(0x2C);
    assert(out@ =~= before + comma());
}

/// Write the log line of a position.
pub fn format_line(now_ms: u32, src: u8, rssi: i16, p: &Position) -> (line: Vec<u8>)
    ensures
        line@ == log_line(now_ms, src, rssi, *p),
        line@.len() <= LINE_MAX,
{
    let mut line: Vec<u8> = Vec::new();
    push_number(&mut line, now_ms);
    assert(line@ =~= crate::text::digits(now_ms as nat));
    push_comma(&mut line);
    push_number(&mut line, src as u32);
    push_comma(&mut line);
    push_signed(&mut line, p.lat_e7);
    push_comma(&mut line);
    push_signed(&mut line, p.lon_e7);
    push_comma(&mut line);
    push_signed(&mut line, p.alt_dm as i32);
    push_comma(&mut line);
    push_number(&mut line, p.speed_cms as u32);
    push_comma(&mut line);
    push_number(&mut line, p.course_cdeg as u32);
    push_comma(&mut line);
    push_number(&mut line, p.sats as u32);
    push_comma(&mut line);
    push_number(
        &mut line,
        if p.fix {
            1
        } else {
            0
        },
    );
    push_comma(&mut line);
    push_signed(&mut line, rssi as i32);
    let ghost before = line@;
    line.push(0x0A);
    assert(line@ =~= before + seq![0x0Au8]);
    proof {
        lemma_line_len(now_ms, src, rssi, *p);
    }
    line
}

// -- The logger ---------------------------------------------------------------

/// What the logger knows.
#[verifier::ext_equal]
pub struct LogView {
    /// Whether a card is mounted.
    pub mounted: bool,
    /// Lines that have not been written yet.
    pub pending: Seq<u8>,
    /// Whether the log does not exist on the card yet.
    pub header_needed: bool,
    pub next_flush_ms: u32,
    pub next_retry_ms: u32,
    /// Whether every write of the flush under way has succeeded.
    pub flush_ok: bool,
    /// Whether the config file under way was written.
    pub config_ok: bool,
}

/// What the logger wants done.
#[derive(Clone, Copy, Debug, PartialEq, Eq, Structural)]
pub enum SdStep {
    Nothing,
    /// Initialize the card, then go on with [`SdLog::mount`].
    Mount,
    /// Open the log for appending, then go on with [`SdLog::flush`].
    Flush,
}

/// How far mounting a card has come.
#[derive(Clone, Copy, Debug, PartialEq, Eq, Structural)]
pub enum MountEvent {
    CardInit { ok: bool },
    VolumeOpened { ok: bool },
    RootOpened { ok: bool },
    LogLookedUp { found: bool },
}

/// What mounting a card takes next.
#[derive(Clone, Copy, Debug, PartialEq, Eq, Structural)]
pub enum MountStep {
    OpenVolume,
    OpenRoot,
    LookUpLog,
    /// Give up until the next retry.
    GiveUp,
    /// Forget the card, and give up until the next retry.
    Forget,
    /// Close the volume, forget the card, and give up until the next retry.
    CloseVolume,
    Mounted,
}

/// How far a flush has come.
#[derive(Clone, Copy, Debug, PartialEq, Eq, Structural)]
pub enum FlushEvent {
    Opened { ok: bool },
    HeaderWritten { ok: bool },
    LinesWritten { ok: bool },
    Closed { ok: bool },
}

/// What a flush takes next.
#[derive(Clone, Copy, Debug, PartialEq, Eq, Structural)]
pub enum FlushStep {
    /// Write [`LOG_HEADER`].
    WriteHeader,
    /// Write [`SdLog::pending`].
    WriteLines,
    /// Close the log, even if a write failed.
    Close,
    Done,
    /// Close everything and forget the card; the retry path starts over.
    Unmount,
}

/// How far writing the config file has come.
#[derive(Clone, Copy, Debug, PartialEq, Eq, Structural)]
pub enum ConfigEvent {
    Start,
    Opened { ok: bool },
    Written { ok: bool },
    Closed { ok: bool },
}

/// What writing the config file takes next.
#[derive(Clone, Copy, Debug, PartialEq, Eq, Structural)]
pub enum ConfigStep {
    /// Open [`CONFIG_FILE`], created or emptied.
    Open,
    /// Write the text.
    Write,
    /// Close the file, even if the write failed.
    Close,
    Saved,
    /// There is no card to save to.
    NoCard,
    /// It was not saved: close everything and forget the card; the retry path
    /// starts over.
    Unmount,
}

/// How far reading the config file has come.
#[derive(Clone, Copy, Debug, PartialEq, Eq, Structural)]
pub enum ReadEvent {
    Start,
    Opened { ok: bool },
    /// The file was read, where it could be: this many bytes.
    Read { len: Option<usize> },
}

/// What reading the config file takes next.
#[derive(Clone, Copy, Debug, PartialEq, Eq, Structural)]
pub enum ReadStep {
    /// Open [`CONFIG_FILE`] for reading.
    Open,
    /// Read it.
    Read,
    /// Close it; this many bytes were read, where they could be.
    Close { len: Option<usize> },
    /// There is no config file.
    Absent,
}

/// What a position makes of a logger: its line waits with the others.
pub open spec fn on_log(s: LogView, now_ms: u32, src: u8, rssi: i16, p: Position) -> LogView {
    LogView { pending: with_line(s.pending, log_line(now_ms, src, rssi, p)), ..s }
}

/// What the passage of time makes of a logger.
pub open spec fn on_poll(s: LogView, now_ms: u32) -> (LogView, SdStep) {
    if !s.mounted {
        if crate::platform::reached(now_ms, s.next_retry_ms) {
            (LogView { next_retry_ms: now_ms.wrapping_add(RETRY_MS), ..s }, SdStep::Mount)
        } else {
            (s, SdStep::Nothing)
        }
    } else if s.pending.len() > 0 && (s.pending.len() > PENDING_LEN / 2 || crate::platform::reached(
        now_ms,
        s.next_flush_ms,
    )) {
        (LogView { next_flush_ms: now_ms.wrapping_add(FLUSH_MS), ..s }, SdStep::Flush)
    } else {
        (s, SdStep::Nothing)
    }
}

/// What a step of mounting a card makes of a logger.
pub open spec fn on_mount(s: LogView, event: MountEvent) -> (LogView, MountStep) {
    match event {
        MountEvent::CardInit { ok } => (
            s,
            if ok {
                MountStep::OpenVolume
            } else {
                MountStep::GiveUp
            },
        ),
        MountEvent::VolumeOpened { ok } => (
            s,
            if ok {
                MountStep::OpenRoot
            } else {
                MountStep::Forget
            },
        ),
        MountEvent::RootOpened { ok } => (
            s,
            if ok {
                MountStep::LookUpLog
            } else {
                MountStep::CloseVolume
            },
        ),
        MountEvent::LogLookedUp { found } => (
            LogView { header_needed: !found, mounted: true, ..s },
            MountStep::Mounted,
        ),
    }
}

/// A logger whose card was dropped.
pub open spec fn unmounted(s: LogView, now_ms: u32) -> LogView {
    LogView { mounted: false, next_retry_ms: now_ms.wrapping_add(RETRY_MS), ..s }
}

/// What a step of a flush makes of a logger.
pub open spec fn on_flush(s: LogView, now_ms: u32, event: FlushEvent) -> (LogView, FlushStep) {
    match event {
        FlushEvent::Opened { ok } => if !ok {
            (unmounted(s, now_ms), FlushStep::Unmount)
        } else {
            (
                LogView { flush_ok: true, ..s },
                if s.header_needed {
                    FlushStep::WriteHeader
                } else {
                    FlushStep::WriteLines
                },
            )
        },
        FlushEvent::HeaderWritten { ok } => (
            LogView { flush_ok: s.flush_ok && ok, ..s },
            FlushStep::WriteLines,
        ),
        FlushEvent::LinesWritten { ok } => (
            LogView { flush_ok: s.flush_ok && ok, ..s },
            FlushStep::Close,
        ),
        FlushEvent::Closed { ok } => if s.flush_ok && ok {
            (LogView { header_needed: false, pending: Seq::empty(), ..s }, FlushStep::Done)
        } else {
            (unmounted(s, now_ms), FlushStep::Unmount)
        },
    }
}

/// What a step of writing the config file makes of a logger.
pub open spec fn on_write_config(s: LogView, now_ms: u32, event: ConfigEvent) -> (
    LogView,
    ConfigStep,
) {
    match event {
        ConfigEvent::Start => (
            s,
            if s.mounted {
                ConfigStep::Open
            } else {
                ConfigStep::NoCard
            },
        ),
        ConfigEvent::Opened { ok } => if ok {
            (s, ConfigStep::Write)
        } else {
            (unmounted(s, now_ms), ConfigStep::Unmount)
        },
        ConfigEvent::Written { ok } => (LogView { config_ok: ok, ..s }, ConfigStep::Close),
        ConfigEvent::Closed { ok } => if s.config_ok && ok {
            (s, ConfigStep::Saved)
        } else {
            (unmounted(s, now_ms), ConfigStep::Unmount)
        },
    }
}

/// What reading the config file takes after a step.
pub open spec fn on_read_config(s: LogView, event: ReadEvent) -> ReadStep {
    match event {
        ReadEvent::Start => if s.mounted {
            ReadStep::Open
        } else {
            ReadStep::Absent
        },
        ReadEvent::Opened { ok } => if ok {
            ReadStep::Read
        } else {
            ReadStep::Absent
        },
        ReadEvent::Read { len } => ReadStep::Close { len },
    }
}

pub struct SdLog {
    mounted: bool,
    pending: Vec<u8>,
    header_needed: bool,
    next_flush_ms: u32,
    next_retry_ms: u32,
    flush_ok: bool,
    config_ok: bool,
}

impl View for SdLog {
    type V = LogView;

    closed spec fn view(&self) -> LogView {
        LogView {
            mounted: self.mounted,
            pending: self.pending@,
            header_needed: self.header_needed,
            next_flush_ms: self.next_flush_ms,
            next_retry_ms: self.next_retry_ms,
            flush_ok: self.flush_ok,
            config_ok: self.config_ok,
        }
    }
}

impl SdLog {
    /// The pending lines fit their buffer.
    pub open spec fn wf(&self) -> bool {
        self@.pending.len() <= PENDING_LEN
    }

    pub fn new() -> (s: Self)
        ensures
            s.wf(),
            s@ == (LogView {
                mounted: false,
                pending: Seq::empty(),
                header_needed: false,
                next_flush_ms: 0,
                next_retry_ms: 0,
                flush_ok: false,
                config_ok: false,
            }),
    {
        SdLog {
            mounted: false,
            pending: Vec::new(),
            header_needed: false,
            next_flush_ms: 0,
            next_retry_ms: 0,
            flush_ok: false,
            config_ok: false,
        }
    }

    /// Whether a card is mounted and logging.
    pub fn ready(&self) -> (r: bool)
        ensures
            r == self@.mounted,
    {
        self.mounted
    }

    /// The lines to write.
    pub fn pending(&self) -> (lines: &[u8])
        ensures
            lines@ == self@.pending,
    {
        &self.pending
    }

    /// Drop the mount so the retry path starts over.
    pub fn unmount(&mut self, now_ms: u32)
        requires
            old(self).wf(),
        ensures
            final(self).wf(),
            final(self)@ == unmounted(old(self)@, now_ms),
    {
        self.mounted = false;
        self.next_retry_ms = now_ms.wrapping_add(RETRY_MS);
    }

    /// Go on mounting the first FAT volume of the card.
    pub fn mount(&mut self, event: MountEvent) -> (next: MountStep)
        requires
            old(self).wf(),
        ensures
            final(self).wf(),
            (final(self)@, next) == on_mount(old(self)@, event),
    {
        match event {
            MountEvent::CardInit { ok } => {
                if ok {
                    MountStep::OpenVolume
                } else {
                    MountStep::GiveUp
                }
            },
            MountEvent::VolumeOpened { ok } => {
                if ok {
                    MountStep::OpenRoot
                } else {
                    MountStep::Forget
                }
            },
            MountEvent::RootOpened { ok } => {
                if ok {
                    MountStep::LookUpLog
                } else {
                    MountStep::CloseVolume
                }
            },
            MountEvent::LogLookedUp { found } => {
                // The CSV header is written if the log does not exist yet.
                self.header_needed = !found;
                self.mounted = true;
                MountStep::Mounted
            },
        }
    }

    /// Periodic driver: mounts/retries the card and flushes the pending
    /// buffer. Call from the main loop.
    pub fn poll(&mut self, now_ms: u32) -> (step: SdStep)
        requires
            old(self).wf(),
        ensures
            final(self).wf(),
            (final(self)@, step) == on_poll(old(self)@, now_ms),
    {
        if !self.mounted {
            if is_due(now_ms, self.next_retry_ms) {
                self.next_retry_ms = now_ms.wrapping_add(RETRY_MS);
                return SdStep::Mount;
            }
            return SdStep::Nothing;
        }
        if self.pending.len() > 0 && (self.pending.len() > PENDING_LEN / 2 || is_due(
            now_ms,
            self.next_flush_ms,
        )) {
            self.next_flush_ms = now_ms.wrapping_add(FLUSH_MS);
            return SdStep::Flush;
        }
        SdStep::Nothing
    }

    /// Go on with a flush.
    pub fn flush(&mut self, now_ms: u32, event: FlushEvent) -> (next: FlushStep)
        requires
            old(self).wf(),
        ensures
            final(self).wf(),
            (final(self)@, next) == on_flush(old(self)@, now_ms, event),
    {
        match event {
            FlushEvent::Opened { ok } => {
                if !ok {
                    self.unmount(now_ms);
                    return FlushStep::Unmount;
                }
                self.flush_ok = true;
                if self.header_needed {
                    FlushStep::WriteHeader
                } else {
                    FlushStep::WriteLines
                }
            },
            FlushEvent::HeaderWritten { ok } => {
                self.flush_ok = self.flush_ok && ok;
                FlushStep::WriteLines
            },
            FlushEvent::LinesWritten { ok } => {
                self.flush_ok = self.flush_ok && ok;
                FlushStep::Close
            },
            FlushEvent::Closed { ok } => {
                if self.flush_ok && ok {
                    self.header_needed = false;
                    self.pending = Vec::new();
                    FlushStep::Done
                } else {
                    self.unmount(now_ms);
                    FlushStep::Unmount
                }
            },
        }
    }

    /// Queue a position line. `src` 0 = local GPS; `rssi` is the LoRa RSSI
    /// for remote positions (0 for local).
    pub fn log_position(&mut self, now_ms: u32, src: u8, rssi: i16, p: &Position)
        requires
            old(self).wf(),
        ensures
            final(self).wf(),
            final(self)@ == on_log(old(self)@, now_ms, src, rssi, *p),
    {
        let line: Vec<u8> = format_line(now_ms, src, rssi, p);
        let ghost before = self.pending@;
        if self.pending.len() + line.len() > PENDING_LEN {
            // Buffer full (no card for a while): drop the oldest half so
            // recent history survives until a card shows up.
            let mut kept: Vec<u8> = Vec::new();
            kept.extend_from_slice(&self.pending[PENDING_LEN / 2..self.pending.len()]);
            self.pending = kept;
            assert(self.pending@ =~= before.skip(PENDING_LEN as int / 2));
        }
        self.pending.extend_from_slice(&line);
        assert(self.pending@ =~= with_line(before, line@));
    }

    /// Go on reading the config file.
    pub fn read_config(&self, event: ReadEvent) -> (next: ReadStep)
        ensures
            next == on_read_config(self@, event),
    {
        match event {
            ReadEvent::Start => {
                if self.mounted {
                    ReadStep::Open
                } else {
                    ReadStep::Absent
                }
            },
            ReadEvent::Opened { ok } => {
                if ok {
                    ReadStep::Read
                } else {
                    ReadStep::Absent
                }
            },
            ReadEvent::Read { len } => ReadStep::Close { len },
        }
    }

    /// Go on writing (replacing) the config file. A failure drops the card.
    pub fn write_config(&mut self, now_ms: u32, event: ConfigEvent) -> (next: ConfigStep)
        requires
            old(self).wf(),
        ensures
            final(self).wf(),
            (final(self)@, next) == on_write_config(old(self)@, now_ms, event),
    {
        match event {
            ConfigEvent::Start => {
                if self.mounted {
                    ConfigStep::Open
                } else {
                    ConfigStep::NoCard
                }
            },
            ConfigEvent::Opened { ok } => {
                if !ok {
                    self.unmount(now_ms);
                    return ConfigStep::Unmount;
                }
                ConfigStep::Write
            },
            ConfigEvent::Written { ok } => {
                self.config_ok = ok;
                ConfigStep::Close
            },
            ConfigEvent::Closed { ok } => {
                if self.config_ok && ok {
                    ConfigStep::Saved
                } else {
                    self.unmount(now_ms);
                    ConfigStep::Unmount
                }
            },
        }
    }
}

// -- Laws ---------------------------------------------------------------------

/// However long no card shows up, the buffer stays within its size and holds
/// the newest line whole at its end.
pub proof fn law_newest_line_survives(pending: Seq<u8>, line: Seq<u8>)
    requires
        pending.len() <= PENDING_LEN,
        line.len() <= LINE_MAX,
    ensures
        with_line(pending, line).len() <= PENDING_LEN,
        with_line(pending, line).skip(with_line(pending, line).len() - line.len()) == line,
{
    let all = with_line(pending, line);
    assert(all.skip(all.len() - line.len()) =~= line);
}

/// Lines leave the buffer only once they are on the card: a flush that fails
/// anywhere keeps them.
pub proof fn law_failed_flush_keeps_lines(s: LogView, now_ms: u32, event: FlushEvent)
    ensures
        on_flush(s, now_ms, event).1 != FlushStep::Done ==> on_flush(s, now_ms, event).0.pending
            == s.pending,
        on_flush(s, now_ms, event).1 == FlushStep::Done ==> s.flush_ok && event == (
        FlushEvent::Closed { ok: true }),
        on_flush(s, now_ms, event).1 == FlushStep::Unmount ==> !on_flush(
            s,
            now_ms,
            event,
        ).0.mounted,
{
}

/// A config counts as saved exactly if the file was opened, written and
/// closed; a failure anywhere drops the card. The pending lines stay either
/// way.
pub proof fn law_config_is_saved_or_card_dropped(
    s: LogView,
    now_ms: u32,
    opened: bool,
    written: bool,
    closed_ok: bool,
)
    requires
        s.mounted,
    ensures
        ({
            let first = on_write_config(s, now_ms, ConfigEvent::Opened { ok: opened });
            let second = on_write_config(first.0, now_ms, ConfigEvent::Written { ok: written });
            let third = on_write_config(second.0, now_ms, ConfigEvent::Closed { ok: closed_ok });
            let (after, last) = if opened {
                third
            } else {
                first
            };
            &&& on_write_config(s, now_ms, ConfigEvent::Start) == (s, ConfigStep::Open)
            &&& opened ==> first.1 == ConfigStep::Write && second.1 == ConfigStep::Close
            &&& last == if opened && written && closed_ok {
                ConfigStep::Saved
            } else {
                ConfigStep::Unmount
            }
            &&& after.mounted <==> last == ConfigStep::Saved
            &&& after.pending == s.pending
        }),
{
}

/// A flush from opening the log to closing it succeeds exactly if every write
/// and the closing do: then the buffer is empty and the log has its header.
/// Otherwise the lines stay, and the card is tried again later.
pub proof fn law_flush_is_all_or_nothing(
    s: LogView,
    now_ms: u32,
    header_ok: bool,
    lines_ok: bool,
    close_ok: bool,
)
    ensures
        ({
            let opened = on_flush(s, now_ms, FlushEvent::Opened { ok: true });
            let headed = if s.header_needed {
                on_flush(opened.0, now_ms, FlushEvent::HeaderWritten { ok: header_ok })
            } else {
                opened
            };
            let lined = on_flush(headed.0, now_ms, FlushEvent::LinesWritten { ok: lines_ok });
            let (after, last) = on_flush(lined.0, now_ms, FlushEvent::Closed { ok: close_ok });
            &&& s.header_needed ==> opened.1 == FlushStep::WriteHeader
            &&& headed.1 == FlushStep::WriteLines
            &&& lined.1 == FlushStep::Close
            &&& if (s.header_needed ==> header_ok) && lines_ok && close_ok {
                &&& last == FlushStep::Done
                &&& after.pending == Seq::<u8>::empty()
                &&& !after.header_needed
                &&& after.mounted == s.mounted
            } else {
                &&& last == FlushStep::Unmount
                &&& after.pending == s.pending
                &&& after.header_needed == s.header_needed
                &&& !after.mounted
                &&& after.next_retry_ms == now_ms.wrapping_add(RETRY_MS)
            }
        }),
{
}

/// The number of columns that commas separate.
pub open spec fn commas_in(line: Seq<u8>) -> nat
    decreases line.len(),
{
    if line.len() == 0 {
        0
    } else {
        commas_in(line.drop_last()) + if line.last() == 0x2C {
            1nat
        } else {
            0nat
        }
    }
}

/// Column `k` of a line without its newline.
pub open spec fn column(line: Seq<u8>, k: nat) -> Seq<u8>
    decreases line.len(),
{
    if line.len() == 0 {
        Seq::empty()
    } else if line.last() == 0x2C || commas_in(line) != k {
        column(line.drop_last(), k)
    } else {
        column(line.drop_last(), k).push(line.last())
    }
}

proof fn lemma_column_added(front: Seq<u8>, more: Seq<u8>, k: nat)
    requires
        forall|i: int| 0 <= i < more.len() ==> #[trigger] more[i] != 0x2C,
    ensures
        commas_in(front + more) == commas_in(front),
        column(front + more, k) == if k == commas_in(front) {
            column(front, k) + more
        } else {
            column(front, k)
        },
    decreases more.len(),
{
    let all = front + more;
    if more.len() == 0 {
        assert(all =~= front);
        assert(column(front, k) + more =~= column(front, k));
    } else {
        let fewer = more.drop_last();
        assert forall|i: int| 0 <= i < fewer.len() implies #[trigger] fewer[i] != 0x2C by {
            assert(fewer[i] == more[i]);
        }
        assert(more[more.len() - 1] != 0x2C);
        lemma_column_added(front, fewer, k);
        assert(all.drop_last() =~= front + fewer);
        assert(all.last() == more.last());
        assert(column(front, k) + fewer.push(more.last()) =~= (column(front, k) + fewer).push(
            more.last(),
        ));
        assert(fewer.push(more.last()) =~= more);
    }
}

proof fn lemma_comma_added(front: Seq<u8>, k: nat)
    ensures
        commas_in(front + comma()) == commas_in(front) + 1,
        column(front + comma(), k) == column(front, k),
{
    assert((front + comma()).drop_last() =~= front);
}

proof fn lemma_nothing_beyond(front: Seq<u8>, k: nat)
    requires
        k > commas_in(front),
    ensures
        column(front, k) == Seq::<u8>::empty(),
    decreases front.len(),
{
    if front.len() > 0 {
        lemma_nothing_beyond(front.drop_last(), k);
    }
}

/// A column and the comma in front of it, appended to a line, are that line's
/// next column; the others stay.
proof fn lemma_next_column(front: Seq<u8>, text: Seq<u8>)
    requires
        forall|i: int| 0 <= i < text.len() ==> #[trigger] text[i] != 0x2C,
    ensures
        ({
            let all = front + comma() + text;
            &&& commas_in(all) == commas_in(front) + 1
            &&& column(all, commas_in(all)) == text
            &&& forall|k: nat| k <= commas_in(front) ==> #[trigger] column(all, k) == column(
                front,
                k,
            )
        }),
{
    let mid = front + comma();
    let all = mid + text;
    lemma_comma_added(front, 0);
    let n = commas_in(mid);
    lemma_column_added(mid, text, n);
    lemma_comma_added(front, n);
    lemma_nothing_beyond(front, n);
    assert(Seq::<u8>::empty() + text =~= text);
    assert forall|k: nat| k <= commas_in(front) implies #[trigger] column(all, k) == column(
        front,
        k,
    ) by {
        lemma_column_added(mid, text, k);
        lemma_comma_added(front, k);
    }
}

proof fn lemma_digits_no_comma(n: nat)
    ensures
        forall|i: int|
            0 <= i < crate::text::digits(n).len() ==> #[trigger] crate::text::digits(n)[i] != 0x2C,
    decreases n,
{
    let d = crate::text::digits(n);
    if n >= 10 {
        lemma_digits_no_comma(n / 10);
        let head = crate::text::digits(n / 10);
        assert forall|i: int| 0 <= i < d.len() implies #[trigger] d[i] != 0x2C by {
            if i < head.len() {
                assert(d[i] == head[i]);
            }
        }
    }
}

proof fn lemma_signed_no_comma(n: int)
    ensures
        forall|i: int|
            0 <= i < crate::text::signed_digits(n).len() ==> #[trigger] crate::text::signed_digits(
                n,
            )[i] != 0x2C,
{
    lemma_digits_no_comma(
        if n < 0 {
            (-n) as nat
        } else {
            n as nat
        },
    );
}

/// A log line has ten columns, in the order of the header: when, who, where,
/// how high, how fast, which way, how many satellites, whether a fix, and how
/// strong. Each holds its own value in decimal, whatever the others are.
pub proof fn law_log_columns(now_ms: u32, src: u8, rssi: i16, p: Position)
    ensures
        ({
            let whole = log_line(now_ms, src, rssi, p);
            let line = whole.drop_last();
            &&& whole.last() == 0x0A
            &&& commas_in(line) == 9
            &&& column(line, 0) == crate::text::digits(now_ms as nat)
            &&& column(line, 1) == crate::text::digits(src as nat)
            &&& column(line, 2) == crate::text::signed_digits(p.lat_e7 as int)
            &&& column(line, 3) == crate::text::signed_digits(p.lon_e7 as int)
            &&& column(line, 4) == crate::text::signed_digits(p.alt_dm as int)
            &&& column(line, 5) == crate::text::digits(p.speed_cms as nat)
            &&& column(line, 6) == crate::text::digits(p.course_cdeg as nat)
            &&& column(line, 7) == crate::text::digits(p.sats as nat)
            &&& column(line, 8) == seq![
                if p.fix {
                    0x31u8
                } else {
                    0x30u8
                },
            ]
            &&& column(line, 9) == crate::text::signed_digits(rssi as int)
        }),
{
    let f = if p.fix {
        1nat
    } else {
        0nat
    };
    let c0 = crate::text::digits(now_ms as nat);
    let c1 = crate::text::digits(src as nat);
    let c2 = crate::text::signed_digits(p.lat_e7 as int);
    let c3 = crate::text::signed_digits(p.lon_e7 as int);
    let c4 = crate::text::signed_digits(p.alt_dm as int);
    let c5 = crate::text::digits(p.speed_cms as nat);
    let c6 = crate::text::digits(p.course_cdeg as nat);
    let c7 = crate::text::digits(p.sats as nat);
    let c8 = crate::text::digits(f);
    let c9 = crate::text::signed_digits(rssi as int);
    lemma_digits_no_comma(now_ms as nat);
    lemma_digits_no_comma(src as nat);
    lemma_signed_no_comma(p.lat_e7 as int);
    lemma_signed_no_comma(p.lon_e7 as int);
    lemma_signed_no_comma(p.alt_dm as int);
    lemma_digits_no_comma(p.speed_cms as nat);
    lemma_digits_no_comma(p.course_cdeg as nat);
    lemma_digits_no_comma(p.sats as nat);
    lemma_digits_no_comma(f);
    lemma_signed_no_comma(rssi as int);
    lemma_column_added(Seq::empty(), c0, 0);
    assert(Seq::<u8>::empty() + c0 =~= c0);
    let l1 = c0 + comma() + c1;
    lemma_next_column(c0, c1);
    let l2 = l1 + comma() + c2;
    lemma_next_column(l1, c2);
    let l3 = l2 + comma() + c3;
    lemma_next_column(l2, c3);
    let l4 = l3 + comma() + c4;
    lemma_next_column(l3, c4);
    let l5 = l4 + comma() + c5;
    lemma_next_column(l4, c5);
    let l6 = l5 + comma() + c6;
    lemma_next_column(l5, c6);
    let l7 = l6 + comma() + c7;
    lemma_next_column(l6, c7);
    let l8 = l7 + comma() + c8;
    lemma_next_column(l7, c8);
    let l9 = l8 + comma() + c9;
    lemma_next_column(l8, c9);
    assert(log_line(now_ms, src, rssi, p) == l9 + seq![0x0Au8]);
    assert(log_line(now_ms, src, rssi, p).drop_last() =~= l9);
    assert(c8 =~= seq![
        if p.fix {
            0x31u8
        } else {
            0x30u8
        },
    ]);
}

/// Positions are logged in order: a line goes behind those that wait, and
/// while there is room none of those is touched. Where there is no room the
/// oldest 512 bytes go and the rest stays.
pub proof fn law_lines_wait_in_order(
    s: LogView,
    now_ms: u32,
    src: u8,
    rssi: i16,
    p: Position,
)
    requires
        s.pending.len() <= 1024,
    ensures
        ({
            let after = on_log(s, now_ms, src, rssi, p);
            let line = log_line(now_ms, src, rssi, p);
            &&& s.pending.len() + line.len() <= 1024 ==> after.pending == s.pending + line
            &&& s.pending.len() + line.len() > 1024 ==> after.pending == s.pending.skip(512) + line
            &&& after == (LogView { pending: after.pending, ..s })
        }),
{
}

/// Without a card, mounting is tried when its time has come and then every ten
/// seconds. With one, waiting lines are written every five seconds, and at
/// once where they fill more than half of the buffer; with none nothing is
/// done.
pub proof fn law_card_work_comes_in_time(s: LogView, now_ms: u32)
    ensures
        ({
            let (after, step) = on_poll(s, now_ms);
            let retry = now_ms.wrapping_sub(s.next_retry_ms) < 0x8000_0000;
            let flush = now_ms.wrapping_sub(s.next_flush_ms) < 0x8000_0000;
            let waiting = s.pending.len();
            &&& step == SdStep::Mount <==> !s.mounted && retry
            &&& step == SdStep::Flush <==> s.mounted && waiting > 0 && (waiting > 512 || flush)
            &&& step == SdStep::Mount ==> after == (LogView {
                next_retry_ms: now_ms.wrapping_add(10_000),
                ..s
            })
            &&& step == SdStep::Flush ==> after == (LogView {
                next_flush_ms: now_ms.wrapping_add(5_000),
                ..s
            })
            &&& step == SdStep::Nothing ==> after == s
        }),
{
}

/// Mounting goes from the card to its volume, the root directory and the log.
/// It fails at the first of these that does, leaving the logger as it was;
/// otherwise the card is mounted, and a header is due exactly where there was
/// no log yet. The lines that wait are kept.
pub proof fn law_mounting(s: LogView, found: bool)
    ensures
        on_mount(s, MountEvent::CardInit { ok: true }) == (s, MountStep::OpenVolume),
        on_mount(s, MountEvent::CardInit { ok: false }) == (s, MountStep::GiveUp),
        on_mount(s, MountEvent::VolumeOpened { ok: true }) == (s, MountStep::OpenRoot),
        on_mount(s, MountEvent::VolumeOpened { ok: false }) == (s, MountStep::Forget),
        on_mount(s, MountEvent::RootOpened { ok: true }) == (s, MountStep::LookUpLog),
        on_mount(s, MountEvent::RootOpened { ok: false }) == (s, MountStep::CloseVolume),
        ({
            let (after, step) = on_mount(s, MountEvent::LogLookedUp { found });
            &&& step == MountStep::Mounted
            &&& after.mounted
            &&& after.header_needed == !found
            &&& after == (LogView { mounted: true, header_needed: !found, ..s })
        }),
{
}

/// The config file is read from a mounted card where it can be opened, and
/// what was read is handed on after closing it.
pub proof fn law_reading_the_config(s: LogView, len: Option<usize>)
    ensures
        s.mounted ==> on_read_config(s, ReadEvent::Start) == ReadStep::Open,
        !s.mounted ==> on_read_config(s, ReadEvent::Start) == ReadStep::Absent,
        on_read_config(s, ReadEvent::Opened { ok: true }) == ReadStep::Read,
        on_read_config(s, ReadEvent::Opened { ok: false }) == ReadStep::Absent,
        on_read_config(s, ReadEvent::Read { len }) == (ReadStep::Close { len }),
{
}

/// Without a card a config is not saved, and nothing changes. A log that
/// cannot be opened drops the card, which is tried again ten seconds later.
pub proof fn law_dropped_cards_are_tried_again(s: LogView, now_ms: u32)
    ensures
        !s.mounted ==> on_write_config(s, now_ms, ConfigEvent::Start) == (s, ConfigStep::NoCard),
        ({
            let dropped = LogView {
                mounted: false,
                next_retry_ms: now_ms.wrapping_add(10_000),
                ..s
            };
            &&& unmounted(s, now_ms) == dropped
            &&& on_flush(s, now_ms, FlushEvent::Opened { ok: false }) == (
                dropped,
                FlushStep::Unmount,
            )
            &&& on_write_config(s, now_ms, ConfigEvent::Opened { ok: false }) == (
                dropped,
                ConfigStep::Unmount,
            )
        }),
{
}

} // verus!

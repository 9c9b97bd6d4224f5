//! What the WIO-E5's main loop decides: how it answers the ESP, when it
//! reports and beacons, and what it does with what it hears.
//!
//! The loop itself only carries decisions out. It hands over what happened -
//! a frame from the ESP, a GPS update, a received payload, the clock - and
//! gets back the actions to take, in order.

use vstd::prelude::*;
use crate::cfgxfer::{CfgEvent, CfgTransfer};
use crate::fwupdate::{FwEvent, FwUpdate, PAGE_SIZE};
use crate::link::{self, cmd, err, msg, resp, Telemetry};
use crate::lora;
use crate::platform::{is_due, Random};
use crate::position::{Position, POSITION_PACKET_LEN};
use crate::radiocfg::{parse_bytes, RadioConfig};
use crate::text::push_number;
use crate::wire::{append, put_i16, put_u16};

verus! {

/// Firmware version reported over the link unless the build sets another.
pub const FIRMWARE_VERSION: u16 = 1;

/// Position reports to the ESP come at most this often (the GPS fix rate).
pub const REPORT_MS: u32 = 1_000;

/// The beacon looks again after this long while there is no fix or the ESP is
/// on the air.
pub const BEACON_RETRY_MS: u32 = 500;

/// Bound of the random addition to the beacon interval.
pub const BEACON_JITTER_MS: i32 = 2_000;

/// Status goes to the ESP this often.
pub const STATUS_MS: u32 = 5_000;

/// Idle time of the loop while a firmware transfer owns it, and between
/// rounds otherwise.
pub const ROUND_MS: u32 = 1;

/// Idle time of the loop in soft sleep.
pub const SLEEP_ROUND_MS: u32 = 50;

// -- Actions ------------------------------------------------------------------

/// Something for the loop to do.
#[derive(Debug, PartialEq, Eq)]
pub enum Action {
    /// Send a frame to the ESP.
    Send { cmd: u8, payload: Vec<u8> },
    /// Record the ESP's radio-busy flag.
    PeerBusy { busy: bool },
    /// Put the radio into standby.
    RadioStandby,
    /// Set the radio up from the configuration.
    RadioInit,
    /// Apply the configuration to the node.
    NodeReconfigure,
    /// Apply the configuration to the GPS receiver.
    GpsConfigure,
    /// Put the GPS receiver to sleep.
    GpsSleep,
    /// Wake the GPS receiver.
    GpsWake,
    /// Save [`Tracker::config_text`], to the card and to flash.
    SaveConfig,
    /// Feed the watchdog.
    FeedWatchdog,
    /// Write [`Tracker::firmware_page`] to this flash page, then report with
    /// [`Tracker::page_written`].
    WritePage { page: u8 },
    /// Hand this many staged bytes to [`Tracker::verify`].
    VerifyImage { len: u32 },
    /// Have the bootloader install the staged image.
    RequestSwap,
    /// Reboot.
    Reboot,
    /// Log a position to the card.
    LogPosition { src: u8, rssi: i16, position: Position },
    /// Broadcast a payload, then report with [`Tracker::transmitted`].
    Broadcast { payload: Vec<u8> },
    /// Send the repeat that is due, then report with
    /// [`Tracker::transmitted`].
    Relay,
}

/// What an action amounts to.
#[verifier::ext_equal]
pub enum Act {
    Send { cmd: u8, payload: Seq<u8> },
    PeerBusy { busy: bool },
    RadioStandby,
    RadioInit,
    NodeReconfigure,
    GpsConfigure,
    GpsSleep,
    GpsWake,
    SaveConfig,
    FeedWatchdog,
    WritePage { page: u8 },
    VerifyImage { len: u32 },
    RequestSwap,
    Reboot,
    LogPosition { src: u8, rssi: i16, position: Position },
    Broadcast { payload: Seq<u8> },
    Relay,
}

impl View for Action {
    type V = Act;

    open spec fn view(&self) -> Act {
        match *self {
            Action::Send { cmd, payload } => Act::Send { cmd, payload: payload@ },
            Action::PeerBusy { busy } => Act::PeerBusy { busy },
            Action::RadioStandby => Act::RadioStandby,
            Action::RadioInit => Act::RadioInit,
            Action::NodeReconfigure => Act::NodeReconfigure,
            Action::GpsConfigure => Act::GpsConfigure,
            Action::GpsSleep => Act::GpsSleep,
            Action::GpsWake => Act::GpsWake,
            Action::SaveConfig => Act::SaveConfig,
            Action::FeedWatchdog => Act::FeedWatchdog,
            Action::WritePage { page } => Act::WritePage { page },
            Action::VerifyImage { len } => Act::VerifyImage { len },
            Action::RequestSwap => Act::RequestSwap,
            Action::Reboot => Act::Reboot,
            Action::LogPosition { src, rssi, position } => Act::LogPosition {
                src,
                rssi,
                position,
            },
            Action::Broadcast { payload } => Act::Broadcast { payload: payload@ },
            Action::Relay => Act::Relay,
        }
    }
}

/// What a list of actions amounts to.
pub open spec fn acts(actions: Seq<Action>) -> Seq<Act> {
    Seq::new(actions.len(), |i: int| actions[i]@)
}

fn push(out: &mut Vec<Action>, action: Action)
    ensures
        acts(final(out)@) == acts(old(out)@).push(action@),
{
    let ghost before = out@;
    out.push(action);
    assert(acts(out@) =~= acts(before).push(action@));
}

/// Sending an acknowledgement.
pub open spec fn ack(cmd: u8, value: u16) -> Act {
    Act::Send { cmd: resp::ACK, payload: crate::esplink::ack_payload(cmd, value) }
}

/// Sending a refusal.
pub open spec fn nak(cmd: u8, err: u8) -> Act {
    Act::Send { cmd: resp::NAK, payload: crate::esplink::nak_payload(cmd, err) }
}

/// Sending a status line.
pub open spec fn status(text: Seq<u8>) -> Act {
    Act::Send { cmd: msg::LOG, payload: crate::esplink::clip_line(text) }
}

/// Telling the ESP whether the LoRa radio is on the air.
pub open spec fn on_air(busy: bool) -> Act {
    Act::Send {
        cmd: msg::RADIO_BUSY,
        payload: seq![
            if busy {
                1u8
            } else {
                0u8
            },
        ],
    }
}

/// The bytes of a piece of text.
pub open spec fn ascii(s: &str) -> Seq<u8> {
    vstd::utf8::encode_utf8(s@)
}

/// A number in two bytes: 1 for true.
pub open spec fn bit(b: bool) -> u16 {
    if b {
        1
    } else {
        0
    }
}

fn push_send(out: &mut Vec<Action>, cmd: u8, payload: &[u8])
    ensures
        acts(final(out)@) == acts(old(out)@).push(Act::Send { cmd, payload: payload@ }),
{
    let mut bytes: Vec<u8> = Vec::new();
    append(&mut bytes, payload);
    assert(bytes@ =~= payload@);
    push(out, Action::Send { cmd, payload: bytes });
}

fn push_ack(out: &mut Vec<Action>, cmd: u8, value: u16)
    ensures
        acts(final(out)@) == acts(old(out)@).push(ack(cmd, value)),
{
    let v: [u8; 2] = put_u16(value);
    let p: [u8; 3] = [cmd, v[0], v[1]];
    assert(p@ =~= crate::esplink::ack_payload(cmd, value));
    push_send(out, resp::ACK, &p);
}

fn push_nak(out: &mut Vec<Action>, cmd: u8, err: u8)
    ensures
        acts(final(out)@) == acts(old(out)@).push(nak(cmd, err)),
{
    let p: [u8; 2] = [cmd, err];
    assert(p@ =~= crate::esplink::nak_payload(cmd, err));
    push_send(out, resp::NAK, &p);
}

fn push_status(out: &mut Vec<Action>, text: &[u8])
    ensures
        acts(final(out)@) == acts(old(out)@).push(status(text@)),
{
    let n: usize = if text.len() > link::LOG_MAX {
        link::LOG_MAX
    } else {
        text.len()
    };
    let line = &text[0..n];
    assert(line@ =~= crate::esplink::clip_line(text@));
    push_send(out, msg::LOG, line);
}

fn push_on_air(out: &mut Vec<Action>, busy: bool)
    ensures
        acts(final(out)@) == acts(old(out)@).push(on_air(busy)),
{
    let p: [u8; 1] = [
        if busy {
            1u8
        } else {
            0u8
        },
    ];
    assert(p@ =~= seq![
        if busy {
            1u8
        } else {
            0u8
        },
    ]);
    push_send(out, msg::RADIO_BUSY, &p);
}

fn text_of(s: &str) -> (t: Vec<u8>)
    ensures
        t@ == ascii(s),
{
    let mut t: Vec<u8> = Vec::new();
    append(&mut t, s.as_bytes());
    assert(t@ =~= ascii(s));
    t
}

// -- State --------------------------------------------------------------------

/// What the loop remembers.
#[verifier::ext_equal]
pub struct TrackerView {
    pub version: u16,
    pub cfg: RadioConfig,
    /// Whether the configuration was loaded rather than defaulted.
    pub cfg_loaded: bool,
    /// Whether the board is in soft sleep.
    pub sleeping: bool,
    /// LoRa packets transmitted since boot.
    pub tx_count: u32,
    /// LoRa payloads received since boot.
    pub rx_count: u32,
    /// The fix state that was announced last.
    pub had_fix: bool,
    pub next_report: u32,
    pub next_beacon: u32,
    pub next_status: u32,
    /// While set, our radio is flagged busy to the ESP; clear at this time.
    pub busy_clear_at: Option<u32>,
    pub update: Option<crate::fwupdate::Transfer>,
    /// The command that the firmware update answers.
    pub update_cmd: u8,
    pub transfer: crate::cfgxfer::CfgView,
}

/// What the loop does in a round.
#[derive(Clone, Copy, Debug, PartialEq, Eq, Structural)]
pub enum Pace {
    /// A firmware transfer owns the loop: GPS, SD and radio work is skipped
    /// so the link stays responsive and nothing else erases flash.
    Transfer,
    /// Soft sleep: only the ESP link stays alive.
    Asleep,
    /// Everything.
    Work,
}

/// Main loop state.
pub struct Tracker {
    version: u16,
    cfg: RadioConfig,
    cfg_loaded: bool,
    sleeping: bool,
    tx_count: u32,
    rx_count: u32,
    had_fix: bool,
    next_report: u32,
    next_beacon: u32,
    next_status: u32,
    busy_clear_at: Option<u32>,
    fw: FwUpdate,
    fw_cmd: u8,
    cfgxfer: CfgTransfer,
}

impl View for Tracker {
    type V = TrackerView;

    closed spec fn view(&self) -> TrackerView {
        TrackerView {
            version: self.version,
            cfg: self.cfg,
            cfg_loaded: self.cfg_loaded,
            sleeping: self.sleeping,
            tx_count: self.tx_count,
            rx_count: self.rx_count,
            had_fix: self.had_fix,
            next_report: self.next_report,
            next_beacon: self.next_beacon,
            next_status: self.next_status,
            busy_clear_at: self.busy_clear_at,
            update: self.fw@,
            update_cmd: self.fw_cmd,
            transfer: self.cfgxfer@,
        }
    }
}

/// How long the ESP is kept off the air for a transmission: until the radio
/// itself would have given it up.
pub open spec fn busy_window(cfg: RadioConfig) -> u32 {
    cfg.chip_timeout() as u32
}

// -- Commands from the ESP ----------------------------------------------------

/// Whether a flag command sets its flag.
pub open spec fn flag_set(payload: Seq<u8>) -> bool {
    payload.len() > 0 && payload[0] == 1
}

/// What an event of a firmware update has the loop do.
pub open spec fn update_acts(cmd: u8, event: FwEvent) -> Seq<Act> {
    match event {
        FwEvent::Ack(seq) => seq![ack(cmd, seq)],
        FwEvent::Error(e) => seq![nak(cmd, e)],
        FwEvent::Complete => seq![Act::RequestSwap, ack(cmd, 0), Act::Reboot],
        FwEvent::WritePage(page) => seq![Act::WritePage { page }],
        FwEvent::Verify(len) => seq![Act::VerifyImage { len }],
    }
}

/// What an event of a config transfer short of its end has the loop do.
pub open spec fn transfer_acts(cmd: u8, event: CfgEvent) -> Seq<Act> {
    match event {
        CfgEvent::Ack(seq) => seq![ack(cmd, seq)],
        CfgEvent::Error(e) => seq![nak(cmd, e)],
        CfgEvent::Complete => Seq::empty(),
    }
}

/// The status line after a configuration was applied.
pub open spec fn applied_line(address: u8) -> Seq<u8> {
    ascii("config applied, node ") + crate::text::digits(address as nat)
}

/// What a soft sleep command makes of the loop.
pub open spec fn on_sleep(t: TrackerView, sleep: bool) -> (TrackerView, Seq<Act>) {
    let answer = ack(cmd::WIO_SLEEP, bit(sleep));
    if sleep && !t.sleeping {
        (
            TrackerView { sleeping: true, ..t },
            seq![Act::RadioStandby, status(ascii("soft sleep")), answer],
        )
    } else if !sleep && t.sleeping {
        (
            TrackerView { sleeping: false, ..t },
            seq![Act::RadioInit, status(ascii("woke from soft sleep")), answer],
        )
    } else {
        (t, seq![answer])
    }
}

/// Whether two configurations make different nodes on the air.
pub open spec fn node_differs(a: RadioConfig, b: RadioConfig) -> bool {
    ||| a.address != b.address
    ||| a.role != b.role
    ||| a.max_hops != b.max_hops
    ||| crate::radiocfg::airtime_ratio(a.spreading_factor, a.bandwidth_khz)
        != crate::radiocfg::airtime_ratio(b.spreading_factor, b.bandwidth_khz)
}

/// What putting the configuration `cfg` in force in place of `before` takes.
/// The node, with its history and its queue, stays as it is where nothing of
/// it changes.
pub open spec fn apply_acts(before: RadioConfig, cfg: RadioConfig) -> Seq<Act> {
    seq![Act::RadioInit] + (if node_differs(before, cfg) {
        seq![Act::NodeReconfigure]
    } else {
        Seq::empty()
    }) + seq![
        Act::GpsConfigure,
        Act::SaveConfig,
        status(applied_line(cfg.address)),
        ack(cmd::CFG_END, 0),
    ]
}

/// What the end of a config transfer makes of the loop: a text that came
/// through intact and parses is applied, saved and acknowledged.
pub open spec fn on_config_end(t: TrackerView, payload: Seq<u8>) -> (TrackerView, Seq<Act>) {
    let (transfer, event) = crate::cfgxfer::on_end(t.transfer, payload);
    let moved = TrackerView { transfer, ..t };
    match event {
        CfgEvent::Complete => match crate::radiocfg::file_meaning(transfer.text) {
            Ok(cfg) => (
                TrackerView { cfg, cfg_loaded: true, ..moved },
                apply_acts(t.cfg, cfg),
            ),
            Err(_) => (moved, seq![nak(cmd::CFG_END, err::BAD_CONFIG)]),
        },
        _ => (moved, transfer_acts(cmd::CFG_END, event)),
    }
}

/// What a frame from the ESP makes of the loop.
pub open spec fn on_frame(t: TrackerView, id: u8, payload: Seq<u8>) -> (TrackerView, Seq<Act>) {
    if id == cmd::PING {
        (t, seq![ack(cmd::PING, t.version)])
    } else if id == cmd::RADIO_BUSY {
        (t, seq![Act::PeerBusy { busy: flag_set(payload) }])
    } else if id == cmd::WIO_SLEEP {
        on_sleep(t, flag_set(payload))
    } else if id == cmd::GPS_SLEEP {
        (
            t,
            seq![
                if flag_set(payload) {
                    Act::GpsSleep
                } else {
                    Act::GpsWake
                },
                ack(cmd::GPS_SLEEP, bit(flag_set(payload))),
            ],
        )
    } else if id == cmd::CFG_BEGIN {
        let (transfer, event) = crate::cfgxfer::on_begin(t.transfer, payload);
        (TrackerView { transfer, ..t }, transfer_acts(id, event))
    } else if id == cmd::CFG_DATA {
        let (transfer, event) = crate::cfgxfer::on_data(t.transfer, payload);
        (TrackerView { transfer, ..t }, transfer_acts(id, event))
    } else if id == cmd::CFG_END {
        on_config_end(t, payload)
    } else if id == cmd::FW_BEGIN {
        let (update, event) = crate::fwupdate::on_begin(t.update, payload);
        (
            TrackerView { update, update_cmd: id, ..t },
            match event {
                FwEvent::Ack(seq) => seq![
                    status(ascii("fw update: receiving image")),
                    ack(cmd::FW_BEGIN, seq),
                ],
                _ => update_acts(id, event),
            },
        )
    } else if id == cmd::FW_DATA {
        let (update, event) = crate::fwupdate::on_data(t.update, payload);
        (
            TrackerView { update, update_cmd: id, ..t },
            seq![Act::FeedWatchdog] + update_acts(id, event),
        )
    } else if id == cmd::FW_END {
        let (update, event) = crate::fwupdate::on_end(t.update);
        (
            TrackerView { update, update_cmd: id, ..t },
            seq![Act::FeedWatchdog] + update_acts(id, event),
        )
    } else if id == cmd::FW_ABORT {
        (TrackerView { update: None, ..t }, seq![ack(cmd::FW_ABORT, 0)])
    } else {
        (t, Seq::empty())
    }
}

fn push_transfer(out: &mut Vec<Action>, id: u8, event: CfgEvent)
    ensures
        acts(final(out)@) == acts(old(out)@) + transfer_acts(id, event),
{
    let ghost before = acts(out@);
    match event {
        CfgEvent::Ack(seq) => push_ack(out, id, seq),
        CfgEvent::Error(e) => push_nak(out, id, e),
        CfgEvent::Complete => {},
    }
    assert(acts(out@) =~= before + transfer_acts(id, event));
}

fn push_update(out: &mut Vec<Action>, id: u8, event: FwEvent)
    ensures
        acts(final(out)@) == acts(old(out)@) + update_acts(id, event),
{
    let ghost before = acts(out@);
    match event {
        FwEvent::Ack(seq) => push_ack(out, id, seq),
        FwEvent::Error(e) => push_nak(out, id, e),
        FwEvent::Complete => {
            push(out, Action::RequestSwap);
            push_ack(out, id, 0);
            push(out, Action::Reboot);
        },
        FwEvent::WritePage(page) => push(out, Action::WritePage { page }),
        FwEvent::Verify(len) => push(out, Action::VerifyImage { len }),
    }
    assert(acts(out@) =~= before + update_acts(id, event));
}

// -- Reports, beacons and receptions ------------------------------------------

/// A position report: who sent it, how strong it was heard, and the encoded
/// packet.
pub open spec fn report(src: u8, rssi: i16, packet: Seq<u8>) -> Seq<u8> {
    seq![src] + crate::wire::i16_bytes(rssi) + packet
}

/// The status line for a change of the fix.
pub open spec fn fix_line(fix: bool, sats: u8) -> Seq<u8> {
    if fix {
        ascii("gps fix acquired (") + crate::text::digits(sats as nat) + ascii(" sats)")
    } else {
        ascii("gps fix lost")
    }
}

/// What the GPS state makes of the loop: a change of the fix is announced, and
/// an update is reported to the ESP and logged, at most once per
/// [`REPORT_MS`].
pub open spec fn on_gps(
    t: TrackerView,
    now: u32,
    updated: bool,
    p: Position,
    packet: Seq<u8>,
) -> (TrackerView, Seq<Act>) {
    let announce = if p.fix != t.had_fix {
        seq![status(fix_line(p.fix, p.sats))]
    } else {
        Seq::empty()
    };
    let seen = TrackerView { had_fix: p.fix, ..t };
    if updated && crate::platform::reached(now, t.next_report) {
        (
            TrackerView { next_report: now.wrapping_add(REPORT_MS), ..seen },
            announce + seq![Act::Send { cmd: msg::POSITION, payload: report(0, 0, packet) }]
                + if p.fix && t.cfg.sd_enabled {
                seq![Act::LogPosition { src: 0, rssi: 0, position: p }]
            } else {
                Seq::empty()
            },
        )
    } else {
        (seen, announce)
    }
}

/// Whether a beacon is due: only a node that transmits has one.
pub open spec fn beacon_due(t: TrackerView, now: u32) -> bool {
    &&& t.cfg.role != crate::radiocfg::Role::RxOnly
    &&& t.cfg.beacon_interval_s != 0
    &&& crate::platform::reached(now, t.next_beacon)
}

/// What the beacon makes of the loop. `jitter_ms` is the random addition to
/// its interval.
pub open spec fn on_beacon(
    t: TrackerView,
    now: u32,
    fix: bool,
    peer_busy: bool,
    packet: Seq<u8>,
    jitter_ms: u32,
) -> (TrackerView, Seq<Act>) {
    if !beacon_due(t, now) {
        (t, Seq::empty())
    } else if fix && !peer_busy {
        (
            TrackerView {
                busy_clear_at: Some(now.wrapping_add(busy_window(t.cfg))),
                next_beacon: now.wrapping_add(
                    (t.cfg.beacon_interval_s * 1_000) as u32,
                ).wrapping_add(jitter_ms),
                ..t
            },
            // Warn the ESP off the air while the radio transmits.
            seq![on_air(true), Act::Broadcast { payload: lora::position_msg(packet) }],
        )
    } else {
        (TrackerView { next_beacon: now.wrapping_add(BEACON_RETRY_MS), ..t }, Seq::empty())
    }
}

/// What a due repeat makes of the loop: it goes out unless the ESP is on the
/// air.
pub open spec fn on_relay(t: TrackerView, now: u32, due: bool, peer_busy: bool) -> (
    TrackerView,
    Seq<Act>,
) {
    if due && !peer_busy {
        (
            TrackerView { busy_clear_at: Some(now.wrapping_add(busy_window(t.cfg))), ..t },
            seq![on_air(true), Act::Relay],
        )
    } else {
        (t, Seq::empty())
    }
}

/// What the clock makes of the busy flag that the ESP holds for us.
pub open spec fn on_clear(t: TrackerView, now: u32) -> (TrackerView, Seq<Act>) {
    match t.busy_clear_at {
        Some(at) => if crate::platform::reached(now, at) {
            (TrackerView { busy_clear_at: None, ..t }, seq![on_air(false)])
        } else {
            (t, Seq::empty())
        },
        None => (t, Seq::empty()),
    }
}

/// A payload cut down to what one forwarded frame carries.
pub open spec fn clip_forward(payload: Seq<u8>) -> Seq<u8> {
    if payload.len() > lora::PAYLOAD_MAX {
        payload.take(lora::PAYLOAD_MAX as int)
    } else {
        payload
    }
}

/// What a received payload makes of the loop. `position` is the position that
/// the payload carries, and its packet, where it carries one; such a payload
/// is reported and logged, and any other is forwarded verbatim.
pub open spec fn on_heard(
    t: TrackerView,
    src: u8,
    rssi: i16,
    payload: Seq<u8>,
    position: Option<(Position, Seq<u8>)>,
) -> (TrackerView, Seq<Act>) {
    let counted = TrackerView { rx_count: (t.rx_count + 1) as u32, ..t };
    match position {
        Some((p, packet)) => (
            counted,
            seq![Act::Send { cmd: msg::POSITION, payload: report(src, rssi, packet) }]
                + if t.cfg.sd_enabled {
                seq![Act::LogPosition { src, rssi, position: p }]
            } else {
                Seq::empty()
            },
        ),
        None => (
            counted,
            seq![
                Act::Send {
                    cmd: msg::LORA_RX,
                    payload: report(src, rssi, clip_forward(payload)),
                },
            ],
        ),
    }
}

/// Seconds since the last reception; 0xFFFF stands for never.
pub open spec fn secs_since(last_rx_ms: Option<u32>, now_ms: u32) -> u16 {
    match last_rx_ms {
        Some(t) => if now_ms.wrapping_sub(t) / 1000 > 0xFFFE {
            0xFFFE
        } else {
            (now_ms.wrapping_sub(t) / 1000) as u16
        },
        None => 0xFFFF,
    }
}

/// The flags of a status report.
pub open spec fn telemetry_flags(sd_ok: bool, fix: bool, cfg_loaded: bool) -> u8 {
    (if sd_ok {
        link::TELEM_FLAG_SD_OK
    } else {
        0
    }) | (if fix {
        link::TELEM_FLAG_GPS_FIX
    } else {
        0
    }) | (if cfg_loaded {
        link::TELEM_FLAG_CFG_LOADED
    } else {
        0
    })
}

/// What the radio, the card and the receiver say of themselves.
#[derive(Clone, Copy, Debug, PartialEq, Eq, Structural)]
pub struct Health {
    pub last_rssi: i16,
    pub last_snr_cb: i16,
    /// When the last packet was received, if any was.
    pub last_rx_ms: Option<u32>,
    /// Whether a card is mounted.
    pub sd_ok: bool,
    pub fix: bool,
    pub sats: u8,
}

/// The status report of a loop.
pub open spec fn telemetry(t: TrackerView, h: Health, now_ms: u32) -> Telemetry {
    Telemetry {
        last_rssi: h.last_rssi,
        last_snr_cb: h.last_snr_cb,
        secs_since_rx: secs_since(h.last_rx_ms, now_ms),
        rx_count: t.rx_count,
        tx_count: t.tx_count,
        flags: telemetry_flags(h.sd_ok && t.cfg.sd_enabled, h.fix, t.cfg_loaded),
        sats: h.sats,
    }
}

/// What the clock makes of the periodic status. `clock_ms` is the time at
/// which the report is put together.
pub open spec fn on_status(t: TrackerView, now: u32, clock_ms: u32, h: Health) -> (
    TrackerView,
    Seq<Act>,
) {
    if crate::platform::reached(now, t.next_status) {
        (
            TrackerView { next_status: now.wrapping_add(STATUS_MS), ..t },
            seq![Act::Send { cmd: msg::STATUS, payload: telemetry(t, h, clock_ms).wire() }],
        )
    } else {
        (t, Seq::empty())
    }
}

fn push_report(out: &mut Vec<Action>, cmd: u8, src: u8, rssi: i16, packet: &[u8])
    ensures
        acts(final(out)@) == acts(old(out)@).push(
            Act::Send { cmd, payload: report(src, rssi, packet@) },
        ),
{
    let mut payload: Vec<u8> = Vec::new();
    payload.push(src);
    let r: [u8; 2] = put_i16(rssi);
    append(&mut payload, &r);
    append(&mut payload, packet);
    assert(payload@ =~= report(src, rssi, packet@));
    push(out, Action::Send { cmd, payload });
}

/// The status line at boot.
pub open spec fn up_line(version: u16, address: u8) -> Seq<u8> {
    ascii("wio v") + crate::text::digits(version as nat) + ascii(" up, node ")
        + crate::text::digits(address as nat)
}

/// A loop as it starts at `now` with a configuration.
pub open spec fn started(
    version: u16,
    cfg: RadioConfig,
    cfg_loaded: bool,
    now: u32,
) -> TrackerView {
    TrackerView {
        version,
        cfg,
        cfg_loaded,
        sleeping: false,
        tx_count: 0,
        rx_count: 0,
        had_fix: false,
        next_report: 0,
        next_beacon: now.wrapping_add((cfg.address * 1_000) as u32).wrapping_add(2_000),
        next_status: now.wrapping_add(3_000),
        busy_clear_at: None,
        update: None,
        update_cmd: cmd::FW_BEGIN,
        transfer: crate::cfgxfer::CfgView {
            open: false,
            total: 0,
            next_seq: 0,
            text: Seq::empty(),
        },
    }
}

/// What a loop does in a round: a firmware transfer comes before soft sleep.
pub open spec fn pace_of(t: TrackerView) -> Pace {
    if t.update is Some {
        Pace::Transfer
    } else if t.sleeping {
        Pace::Asleep
    } else {
        Pace::Work
    }
}

/// What the report on a page makes of the loop.
pub open spec fn on_page(t: TrackerView, ok: bool) -> (TrackerView, Seq<Act>) {
    let (update, event) = crate::fwupdate::on_page_written(t.update, ok);
    (TrackerView { update, ..t }, update_acts(t.update_cmd, event))
}

/// What the image as it was staged makes of the loop.
pub open spec fn on_staged(t: TrackerView, staged: Seq<u8>) -> (TrackerView, Seq<Act>) {
    (
        TrackerView { update: None, ..t },
        update_acts(t.update_cmd, crate::fwupdate::on_verify(t.update->0, staged)),
    )
}

/// What the outcome of a transmission makes of the loop.
pub open spec fn on_transmitted(t: TrackerView, ok: bool) -> TrackerView {
    if ok {
        TrackerView { tx_count: (t.tx_count + 1) as u32, ..t }
    } else {
        t
    }
}

impl Tracker {
    /// The transfers are in order, and the configuration is one that a file
    /// can give.
    pub closed spec fn wf(&self) -> bool {
        &&& self.fw.wf()
        &&& self.cfgxfer.wf()
        &&& self.cfg.valid()
    }

    /// No page write or image check is outstanding.
    pub open spec fn settled(&self) -> bool {
        self@.update matches Some(u) ==> u.phase is Idle
    }

    /// A loop that starts at `now` with a configuration; the first action
    /// tells the ESP.
    ///
    /// The first beacon waits a second per address, so that boards switched
    /// on together do not beacon together.
    pub fn start(version: u16, cfg: RadioConfig, cfg_loaded: bool, now: u32) -> (r: (
        Self,
        Vec<Action>,
    ))
        requires
            cfg.valid(),
        ensures
            r.0.wf(),
            r.0.settled(),
            r.0@ == started(version, cfg, cfg_loaded, now),
            acts(r.1@) == seq![status(up_line(version, cfg.address))],
    {
        let mut line: Vec<u8> = text_of("wio v");
        push_number(&mut line, version as u32);
        append(&mut line, " up, node ".as_bytes());
        push_number(&mut line, cfg.address as u32);
        assert(line@ =~= up_line(version, cfg.address));
        let mut out: Vec<Action> = Vec::new();
        push_status(&mut out, &line);
        assert(acts(out@) =~= seq![status(up_line(version, cfg.address))]);
        let t = Tracker {
            version,
            cfg,
            cfg_loaded,
            sleeping: false,
            tx_count: 0,
            rx_count: 0,
            had_fix: false,
            next_report: 0,
            next_beacon: now.wrapping_add(cfg.address as u32 * 1_000).wrapping_add(2_000),
            next_status: now.wrapping_add(3_000),
            busy_clear_at: None,
            fw: FwUpdate::new(),
            fw_cmd: cmd::FW_BEGIN,
            cfgxfer: CfgTransfer::new(),
        };
        (t, out)
    }

    /// The configuration in use.
    pub fn config(&self) -> (c: RadioConfig)
        ensures
            c == self@.cfg,
            self.wf() ==> c.valid(),
    {
        self.cfg
    }

    /// The text of the configuration that came over the link last.
    pub fn config_text(&self) -> (text: &[u8])
        ensures
            text@ == self@.transfer.text,
    {
        self.cfgxfer.bytes()
    }

    /// LoRa packets transmitted since boot.
    pub fn tx_count(&self) -> (n: u32)
        ensures
            n == self@.tx_count,
    {
        self.tx_count
    }

    /// LoRa payloads received since boot.
    pub fn rx_count(&self) -> (n: u32)
        ensures
            n == self@.rx_count,
    {
        self.rx_count
    }

    /// What the loop does this round.
    pub fn pace(&self) -> (p: Pace)
        ensures
            p == pace_of(self@),
    {
        if self.fw.is_active() {
            Pace::Transfer
        } else if self.sleeping {
            Pace::Asleep
        } else {
            Pace::Work
        }
    }

    /// Handle a frame from the ESP.
    pub fn handle_frame(&mut self, id: u8, payload: &[u8]) -> (actions: Vec<Action>)
        requires
            old(self).wf(),
            old(self).settled(),
        ensures
            final(self).wf(),
            (final(self)@, acts(actions@)) == on_frame(old(self)@, id, payload@),
    {
        let ghost before = self@;
        let ghost goal = on_frame(self@, id, payload@);
        let mut out: Vec<Action> = Vec::new();
        assert(acts(out@) =~= Seq::<Act>::empty());
        let flag: bool = payload.len() > 0 && payload[0] == 1;
        if id == cmd::PING {
            push_ack(&mut out, cmd::PING, self.version);
        } else if id == cmd::RADIO_BUSY {
            push(&mut out, Action::PeerBusy { busy: flag });
        } else if id == cmd::WIO_SLEEP {
            if flag && !self.sleeping {
                self.sleeping = true;
                push(&mut out, Action::RadioStandby);
                push_status(&mut out, "soft sleep".as_bytes());
            } else if !flag && self.sleeping {
                self.sleeping = false;
                push(&mut out, Action::RadioInit);
                push_status(&mut out, "woke from soft sleep".as_bytes());
            }
            push_ack(
                &mut out,
                cmd::WIO_SLEEP,
                if flag {
                    1
                } else {
                    0
                },
            );
        } else if id == cmd::GPS_SLEEP {
            if flag {
                push(&mut out, Action::GpsSleep);
            } else {
                push(&mut out, Action::GpsWake);
            }
            push_ack(
                &mut out,
                cmd::GPS_SLEEP,
                if flag {
                    1
                } else {
                    0
                },
            );
        } else if id == cmd::CFG_BEGIN {
            let event: CfgEvent = self.cfgxfer.begin(payload);
            push_transfer(&mut out, id, event);
        } else if id == cmd::CFG_DATA {
            let event: CfgEvent = self.cfgxfer.data(payload);
            push_transfer(&mut out, id, event);
        } else if id == cmd::CFG_END {
            let event: CfgEvent = self.cfgxfer.end(payload);
            match event {
                CfgEvent::Complete => {
                    self.apply_config(&mut out);
                },
                _ => push_transfer(&mut out, id, event),
            }
        } else if id == cmd::FW_BEGIN {
            self.fw_cmd = id;
            let event: FwEvent = self.fw.begin(payload);
            if let FwEvent::Ack(_) = event {
                push_status(&mut out, "fw update: receiving image".as_bytes());
            }
            push_update(&mut out, id, event);
        } else if id == cmd::FW_DATA {
            self.fw_cmd = id;
            push(&mut out, Action::FeedWatchdog);
            let event: FwEvent = self.fw.data(payload);
            push_update(&mut out, id, event);
        } else if id == cmd::FW_END {
            self.fw_cmd = id;
            push(&mut out, Action::FeedWatchdog);
            let event: FwEvent = self.fw.end();
            push_update(&mut out, id, event);
        } else if id == cmd::FW_ABORT {
            self.fw.abort();
            push_ack(&mut out, cmd::FW_ABORT, 0);
        }
        assert(self@ =~= goal.0);
        assert(acts(out@) =~= goal.1);
        out
    }

    /// Apply the configuration text that came in, if it parses.
    fn apply_config(&mut self, out: &mut Vec<Action>)
        requires
            old(self).wf(),
        ensures
            final(self).wf(),
            match crate::radiocfg::file_meaning(old(self)@.transfer.text) {
                Ok(cfg) => {
                    &&& final(self)@ == (TrackerView { cfg, cfg_loaded: true, ..old(self)@ })
                    &&& acts(final(out)@) == acts(old(out)@) + apply_acts(old(self)@.cfg, cfg)
                },
                Err(_) => {
                    &&& final(self)@ == old(self)@
                    &&& acts(final(out)@) == acts(old(out)@).push(
                        nak(cmd::CFG_END, err::BAD_CONFIG),
                    )
                },
            },
    {
        let ghost before = acts(out@);
        proof {
            let text = self@.transfer.text;
            if vstd::utf8::valid_utf8(text) {
                crate::radiocfg::lemma_small_file_lines(text);
            }
        }
        match parse_bytes(self.cfgxfer.bytes()) {
            Ok(cfg) => {
                let differs: bool = self.cfg.address != cfg.address || self.cfg.role != cfg.role
                    || self.cfg.max_hops != cfg.max_hops || self.cfg.repeat_jitter_ms()
                    != cfg.repeat_jitter_ms();
                let ghost before_cfg = self.cfg;
                self.cfg = cfg;
                self.cfg_loaded = true;
                push(out, Action::RadioInit);
                if differs {
                    push(out, Action::NodeReconfigure);
                }
                push(out, Action::GpsConfigure);
                push(out, Action::SaveConfig);
                let mut line: Vec<u8> = text_of("config applied, node ");
                push_number(&mut line, cfg.address as u32);
                push_status(out, &line);
                push_ack(out, cmd::CFG_END, 0);
                assert(differs == node_differs(before_cfg, cfg));
                assert(acts(out@) =~= before + apply_acts(before_cfg, cfg));
            },
            Err(_) => push_nak(out, cmd::CFG_END, err::BAD_CONFIG),
        }
    }

    /// The firmware page to write.
    pub fn firmware_page(&self) -> (page: [u8; PAGE_SIZE])
        requires
            self.wf(),
            self@.update is Some,
        ensures
            page@ == crate::fwupdate::page_bytes(self@.update->0),
    {
        self.fw.page()
    }

    /// Go on with a firmware update after its page was written, or not.
    pub fn page_written(&mut self, ok: bool) -> (actions: Vec<Action>)
        requires
            old(self).wf(),
            old(self)@.update matches Some(u) ==> u.phase is Flushing || u.phase is Finishing,
        ensures
            final(self).wf(),
            (final(self)@, acts(actions@)) == on_page(old(self)@, ok),
    {
        let mut out: Vec<Action> = Vec::new();
        assert(acts(out@) =~= Seq::<Act>::empty());
        let event: FwEvent = self.fw.page_written(ok);
        push_update(&mut out, self.fw_cmd, event);
        assert(acts(out@) =~= update_acts(old(self)@.update_cmd, event));
        out
    }

    /// Finish a firmware update with the image as it was staged.
    pub fn verify(&mut self, staged: &[u8]) -> (actions: Vec<Action>)
        requires
            old(self).wf(),
            old(self)@.update matches Some(u) && u.phase is Verifying && staged@.len() == u.size,
        ensures
            final(self).wf(),
            (final(self)@, acts(actions@)) == on_staged(old(self)@, staged@),
    {
        let mut out: Vec<Action> = Vec::new();
        assert(acts(out@) =~= Seq::<Act>::empty());
        let event: FwEvent = self.fw.verify(staged);
        push_update(&mut out, self.fw_cmd, event);
        assert(acts(out@) =~= update_acts(old(self)@.update_cmd, event));
        out
    }

    /// Look at the GPS state: `updated` says whether it changed since the last
    /// look, `packet` is the position as an encoded packet.
    pub fn gps_step(
        &mut self,
        now: u32,
        updated: bool,
        position: &Position,
        packet: &[u8; POSITION_PACKET_LEN],
    ) -> (actions: Vec<Action>)
        requires
            old(self).wf(),
        ensures
            final(self).wf(),
            (final(self)@, acts(actions@)) == on_gps(
                old(self)@,
                now,
                updated,
                *position,
                packet@,
            ),
    {
        let ghost goal = on_gps(self@, now, updated, *position, packet@);
        let mut out: Vec<Action> = Vec::new();
        assert(acts(out@) =~= Seq::<Act>::empty());
        let fix: bool = position.fix;
        if fix != self.had_fix {
            self.had_fix = fix;
            if fix {
                let mut line: Vec<u8> = text_of("gps fix acquired (");
                push_number(&mut line, position.sats as u32);
                append(&mut line, " sats)".as_bytes());
                push_status(&mut out, &line);
            } else {
                push_status(&mut out, "gps fix lost".as_bytes());
            }
        }
        if updated && is_due(now, self.next_report) {
            self.next_report = now.wrapping_add(REPORT_MS);
            push_report(&mut out, msg::POSITION, 0, 0, packet);
            if fix && self.cfg.sd_enabled {
                push(&mut out, Action::LogPosition { src: 0, rssi: 0, position: *position });
            }
        }
        assert(self@ =~= goal.0);
        assert(acts(out@) =~= goal.1);
        out
    }

    /// Look at the beacon. `rng` and `cycles` feed the random addition to its
    /// interval.
    pub fn beacon_step(
        &mut self,
        now: u32,
        fix: bool,
        peer_busy: bool,
        packet: &[u8; POSITION_PACKET_LEN],
        rng: &mut Random,
        cycles: u32,
    ) -> (actions: Vec<Action>)
        requires
            old(self).wf(),
        ensures
            final(self).wf(),
            (final(self)@, acts(actions@)) == on_beacon(
                old(self)@,
                now,
                fix,
                peer_busy,
                packet@,
                crate::platform::pick(final(rng)@, 0, BEACON_JITTER_MS) as u32,
            ),
            final(rng)@ == if beacon_due(old(self)@, now) && fix && !peer_busy {
                crate::platform::xorshift32(crate::platform::seeded(old(rng)@, cycles))
            } else {
                old(rng)@
            },
    {
        let mut out: Vec<Action> = Vec::new();
        assert(acts(out@) =~= Seq::<Act>::empty());
        if self.cfg.role.transmits() && self.cfg.beacon_interval_s != 0 && is_due(
            now,
            self.next_beacon,
        ) {
            if fix && !peer_busy {
                push_on_air(&mut out, true);
                self.busy_clear_at = Some(now.wrapping_add(self.cfg.tx_chip_timeout_ms()));
                let data = lora::encode_position(packet);
                let mut payload: Vec<u8> = Vec::new();
                append(&mut payload, &data);
                assert(payload@ =~= lora::position_msg(packet@));
                push(&mut out, Action::Broadcast { payload });
                let jitter: i32 = rng.random(cycles, 0, BEACON_JITTER_MS);
                self.next_beacon = now.wrapping_add(
                    self.cfg.beacon_interval_s as u32 * 1_000,
                ).wrapping_add(jitter as u32);
            } else {
                // No fix or ESP busy: check again shortly.
                self.next_beacon = now.wrapping_add(BEACON_RETRY_MS);
            }
        }
        let ghost goal = on_beacon(
            old(self)@,
            now,
            fix,
            peer_busy,
            packet@,
            crate::platform::pick(rng@, 0, BEACON_JITTER_MS) as u32,
        );
        assert(self@ =~= goal.0);
        assert(acts(out@) =~= goal.1);
        out
    }

    /// Look at the repeat queue: `due` says whether a repeat is ready.
    pub fn relay_step(&mut self, now: u32, due: bool, peer_busy: bool) -> (actions: Vec<Action>)
        requires
            old(self).wf(),
        ensures
            final(self).wf(),
            (final(self)@, acts(actions@)) == on_relay(old(self)@, now, due, peer_busy),
    {
        let ghost goal = on_relay(self@, now, due, peer_busy);
        let mut out: Vec<Action> = Vec::new();
        assert(acts(out@) =~= Seq::<Act>::empty());
        if due && !peer_busy {
            push_on_air(&mut out, true);
            self.busy_clear_at = Some(now.wrapping_add(self.cfg.tx_chip_timeout_ms()));
            push(&mut out, Action::Relay);
        }
        assert(self@ =~= goal.0);
        assert(acts(out@) =~= goal.1);
        out
    }

    /// Take the outcome of a transmission.
    pub fn transmitted(&mut self, ok: bool)
        requires
            old(self).wf(),
            ok ==> old(self)@.tx_count < u32::MAX,
        ensures
            final(self).wf(),
            final(self)@ == on_transmitted(old(self)@, ok),
    {
        if ok {
            self.tx_count = self.tx_count + 1;
        }
    }

    /// Clear the busy flag that the ESP holds for us, once its time has come.
    pub fn clear_step(&mut self, now: u32) -> (actions: Vec<Action>)
        requires
            old(self).wf(),
        ensures
            final(self).wf(),
            (final(self)@, acts(actions@)) == on_clear(old(self)@, now),
    {
        let ghost goal = on_clear(self@, now);
        let mut out: Vec<Action> = Vec::new();
        assert(acts(out@) =~= Seq::<Act>::empty());
        if let Some(at) = self.busy_clear_at {
            if is_due(now, at) {
                push_on_air(&mut out, false);
                self.busy_clear_at = None;
            }
        }
        assert(self@ =~= goal.0);
        assert(acts(out@) =~= goal.1);
        out
    }

    /// Handle a payload received over the air. `position` is what the payload
    /// was decoded to, with its packet, where it is a position broadcast.
    pub fn heard(
        &mut self,
        src: u8,
        rssi: i16,
        payload: &[u8],
        position: Option<(Position, [u8; POSITION_PACKET_LEN])>,
    ) -> (actions: Vec<Action>)
        requires
            old(self).wf(),
            old(self)@.rx_count < u32::MAX,
        ensures
            final(self).wf(),
            (final(self)@, acts(actions@)) == on_heard(
                old(self)@,
                src,
                rssi,
                payload@,
                match position {
                    Some((p, packet)) => Some((p, packet@)),
                    None => None,
                },
            ),
    {
        let ghost goal = on_heard(
            self@,
            src,
            rssi,
            payload@,
            match position {
                Some((p, packet)) => Some((p, packet@)),
                None => None,
            },
        );
        let mut out: Vec<Action> = Vec::new();
        assert(acts(out@) =~= Seq::<Act>::empty());
        self.rx_count = self.rx_count + 1;
        match position {
            Some((p, packet)) => {
                push_report(&mut out, msg::POSITION, src, rssi, &packet);
                if self.cfg.sd_enabled {
                    push(&mut out, Action::LogPosition { src, rssi, position: p });
                }
            },
            None => {
                let n: usize = if payload.len() > lora::PAYLOAD_MAX {
                    lora::PAYLOAD_MAX
                } else {
                    payload.len()
                };
                let clipped = &payload[0..n];
                assert(clipped@ =~= clip_forward(payload@));
                push_report(&mut out, msg::LORA_RX, src, rssi, clipped);
            },
        }
        assert(self@ =~= goal.0);
        assert(acts(out@) =~= goal.1);
        out
    }

    /// Report status to the ESP, once its time has come.
    pub fn status_step(&mut self, now: u32, clock_ms: u32, health: &Health) -> (actions: Vec<
        Action,
    >)
        requires
            old(self).wf(),
        ensures
            final(self).wf(),
            (final(self)@, acts(actions@)) == on_status(old(self)@, now, clock_ms, *health),
    {
        let ghost goal = on_status(self@, now, clock_ms, *health);
        let mut out: Vec<Action> = Vec::new();
        assert(acts(out@) =~= Seq::<Act>::empty());
        if is_due(now, self.next_status) {
            self.next_status = now.wrapping_add(STATUS_MS);
            let secs_since_rx: u16 = match health.last_rx_ms {
                Some(t) => {
                    let s: u32 = clock_ms.wrapping_sub(t) / 1000;
                    if s > 0xFFFE {
                        0xFFFE
                    } else {
                        s as u16
                    }
                },
                None => 0xFFFF,
            };
            let sd: u8 = if health.sd_ok && self.cfg.sd_enabled {
                link::TELEM_FLAG_SD_OK
            } else {
                0
            };
            let fix: u8 = if health.fix {
                link::TELEM_FLAG_GPS_FIX
            } else {
                0
            };
            let loaded: u8 = if self.cfg_loaded {
                link::TELEM_FLAG_CFG_LOADED
            } else {
                0
            };
            let telem = Telemetry {
                last_rssi: health.last_rssi,
                last_snr_cb: health.last_snr_cb,
                secs_since_rx,
                rx_count: self.rx_count,
                tx_count: self.tx_count,
                flags: sd | fix | loaded,
                sats: health.sats,
            };
            let bytes = telem.encode();
            push_send(&mut out, msg::STATUS, &bytes);
        }
        assert(self@ =~= goal.0);
        assert(acts(out@) =~= goal.1);
        out
    }
}

/// The firmware version that a build setting writes: decimal digits, at most
/// 65535. Without a setting it is [`FIRMWARE_VERSION`]; anything else is no
/// version.
pub open spec fn version_named(setting: Option<Seq<u8>>) -> Option<u16> {
    match setting {
        None => Some(FIRMWARE_VERSION),
        Some(text) => if text.len() > 0 && (forall|i: int|
            0 <= i < text.len() ==> 0x30 <= #[trigger] text[i] <= 0x39) && value_of(text)
            <= 65535 {
            Some(value_of(text) as u16)
        } else {
            None
        },
    }
}

/// The number that ASCII digits write in base ten.
pub open spec fn value_of(text: Seq<u8>) -> int
    decreases text.len(),
{
    if text.len() == 0 {
        0
    } else {
        10 * value_of(text.drop_last()) + (text.last() - 0x30)
    }
}

/// Read the firmware version from the build's setting, where it has one.
pub fn firmware_version(setting: Option<&[u8]>) -> (r: Option<u16>)
    ensures
        r == version_named(
            match setting {
                Some(text) => Some(text@),
                None => None,
            },
        ),
{
    match setting {
        None => Some(FIRMWARE_VERSION),
        Some(text) => {
            if text.len() == 0 {
                return None;
            }
            let mut n: u32 = 0;
            let mut over: bool = false;
            let mut i: usize = 0;
            assert(text@.take(0) =~= Seq::<u8>::empty());
            while i < text.len()
                invariant
                    setting == Some(text),
                    i <= text@.len(),
                    n <= 65535,
                    forall|j: int| 0 <= j < i ==> 0x30 <= #[trigger] text@[j] <= 0x39,
                    over ==> value_of(text@.take(i as int)) > 65535,
                    !over ==> n == value_of(text@.take(i as int)),
                decreases text@.len() - i,
            {
                let d: u8 = text[i];
                if d < 0x30 || d > 0x39 {
                    return None;
                }
                assert(text@.take(i + 1).drop_last() =~= text@.take(i as int));
                let next: u32 = n * 10 + (d - 0x30) as u32;
                if over || next > 65535 {
                    over = true;
                } else {
                    n = next;
                }
                i = i + 1;
            }
            assert(text@.take(i as int) =~= text@);
            if over {
                None
            } else {
                Some(n as u16)
            }
        },
    }
}

// -- Laws ---------------------------------------------------------------------

/// A receive-only board never beacons, whatever its beacon interval says.
pub proof fn law_receive_only_never_beacons(
    t: TrackerView,
    now: u32,
    fix: bool,
    peer_busy: bool,
    packet: Seq<u8>,
    jitter_ms: u32,
)
    requires
        t.cfg.role == crate::radiocfg::Role::RxOnly,
    ensures
        on_beacon(t, now, fix, peer_busy, packet, jitter_ms) == (t, Seq::<Act>::empty()),
{
}

/// The two radios take turns: nothing is transmitted while the ESP is on the
/// air, a transmission is announced to the ESP first, and the announcement is
/// taken back once its time has come.
pub proof fn law_radios_take_turns(
    t: TrackerView,
    now: u32,
    fix: bool,
    peer_busy: bool,
    packet: Seq<u8>,
    jitter_ms: u32,
    due: bool,
)
    ensures
        peer_busy ==> on_beacon(t, now, fix, peer_busy, packet, jitter_ms).1.len() == 0 && on_relay(
            t,
            now,
            due,
            peer_busy,
        ).1.len() == 0,
        ({
            let (after, done) = on_beacon(t, now, fix, peer_busy, packet, jitter_ms);
            done.len() > 0 ==> done[0] == on_air(true) && on_clear(
                after,
                now.wrapping_add(busy_window(t.cfg)),
            ).1 == seq![on_air(false)]
        }),
        ({
            let (after, done) = on_relay(t, now, due, peer_busy);
            done.len() > 0 ==> done[0] == on_air(true) && on_clear(
                after,
                now.wrapping_add(busy_window(t.cfg)),
            ).1 == seq![on_air(false)]
        }),
{
}

/// Beacons are at least the configured interval apart.
pub proof fn law_beacons_keep_their_interval(
    t: TrackerView,
    now: u32,
    packet: Seq<u8>,
    jitter_ms: u32,
    waited: u32,
)
    requires
        t.cfg.valid(),
        jitter_ms < BEACON_JITTER_MS,
        beacon_due(t, now),
        waited < t.cfg.beacon_interval_s * 1_000,
    ensures
        !beacon_due(
            on_beacon(t, now, true, false, packet, jitter_ms).0,
            now.wrapping_add(waited),
        ),
{
    let delay = (t.cfg.beacon_interval_s * 1_000 + jitter_ms) as u32;
    crate::platform::law_deadline_comes_on_time(now, delay, waited);
    assert(now.wrapping_add((t.cfg.beacon_interval_s * 1_000) as u32).wrapping_add(jitter_ms)
        == now.wrapping_add(delay));
}

/// The flags of a status report say what they stand for, each on its own.
pub proof fn law_telemetry_flags(sd_ok: bool, fix: bool, cfg_loaded: bool)
    ensures
        telemetry_flags(sd_ok, fix, cfg_loaded) & link::TELEM_FLAG_SD_OK != 0 <==> sd_ok,
        telemetry_flags(sd_ok, fix, cfg_loaded) & link::TELEM_FLAG_GPS_FIX != 0 <==> fix,
        telemetry_flags(sd_ok, fix, cfg_loaded) & link::TELEM_FLAG_CFG_LOADED != 0 <==> cfg_loaded,
{
    assert((telemetry_flags(sd_ok, fix, cfg_loaded) & link::TELEM_FLAG_SD_OK != 0) == sd_ok)
        by (bit_vector);
    assert((telemetry_flags(sd_ok, fix, cfg_loaded) & link::TELEM_FLAG_GPS_FIX != 0) == fix)
        by (bit_vector);
    assert((telemetry_flags(sd_ok, fix, cfg_loaded) & link::TELEM_FLAG_CFG_LOADED != 0)
        == cfg_loaded) by (bit_vector);
}

/// Whether an action answers the ESP.
pub open spec fn is_answer(a: Act) -> bool {
    a matches Act::Send { cmd, .. } && (cmd == resp::ACK || cmd == resp::NAK)
}

/// Whether a command is one that the ESP waits for an answer to.
pub open spec fn is_request(id: u8) -> bool {
    ||| id == cmd::PING
    ||| id == cmd::WIO_SLEEP
    ||| id == cmd::GPS_SLEEP
    ||| id == cmd::CFG_BEGIN
    ||| id == cmd::CFG_DATA
    ||| id == cmd::CFG_END
    ||| id == cmd::FW_BEGIN
    ||| id == cmd::FW_DATA
    ||| id == cmd::FW_END
    ||| id == cmd::FW_ABORT
}

/// Every request is answered, unless it first takes flash work - a page to
/// write or an image to check - whose report is answered instead; and nothing
/// but a request is.
pub proof fn law_requests_are_answered(t: TrackerView, id: u8, payload: Seq<u8>)
    requires
        t.update matches Some(u) ==> u.valid() && u.phase is Idle,
    ensures
        ({
            let done = on_frame(t, id, payload).1;
            &&& is_request(id) ==> exists|i: int|
                0 <= i < done.len() && (is_answer(#[trigger] done[i]) || done[i] is WritePage
                    || done[i] is VerifyImage)
            &&& !is_request(id) ==> forall|i: int|
                0 <= i < done.len() ==> !is_answer(#[trigger] done[i])
        }),
{
    let done = on_frame(t, id, payload).1;
    if is_request(id) {
        let last = done[done.len() - 1];
        assert(is_answer(last) || last is WritePage || last is VerifyImage);
    }
}

/// An echo is never taken for a request: the ids of what the WIO itself sends
/// mean nothing to it.
pub proof fn law_wio_ignores_its_echo(t: TrackerView, id: u8, payload: Seq<u8>)
    requires
        id > cmd::LAST,
    ensures
        on_frame(t, id, payload) == (t, Seq::<Act>::empty()),
{
}

/// A configuration pushed over the link is applied: once its text has come
/// through and the closing CRC is right, a text that parses becomes the
/// configuration in force and is saved, and one that does not leaves it as it
/// was. The node is set up anew exactly where something of it changes.
pub proof fn law_pushed_config_is_applied(t: TrackerView, closing: Seq<u8>)
    requires
        t.transfer.open,
        t.transfer.text.len() == t.transfer.total,
        closing.len() >= 4,
        crate::wire::u32_at(closing, 0) == crate::link::crc32_of(t.transfer.text),
    ensures
        ({
            let (after, done) = on_frame(t, cmd::CFG_END, closing);
            match crate::radiocfg::file_meaning(t.transfer.text) {
                Ok(cfg) => {
                    &&& after.cfg == cfg
                    &&& after.cfg_loaded
                    &&& done.contains(Act::SaveConfig)
                    &&& done.contains(Act::NodeReconfigure) <==> node_differs(t.cfg, cfg)
                    &&& done.last() == ack(cmd::CFG_END, 0)
                },
                Err(_) => {
                    &&& after.cfg == t.cfg
                    &&& after.cfg_loaded == t.cfg_loaded
                    &&& done == seq![nak(cmd::CFG_END, err::BAD_CONFIG)]
                },
            }
        }),
{
    if let Ok(cfg) = crate::radiocfg::file_meaning(t.transfer.text) {
        let done = apply_acts(t.cfg, cfg);
        if node_differs(t.cfg, cfg) {
            assert(done[1] is NodeReconfigure);
            assert(done[3] is SaveConfig);
        } else {
            assert(done[2] is SaveConfig);
        }
    }
}

/// The answers on the link: an acknowledgement names its command and carries
/// its value low byte first, a refusal names its command and the error.
pub proof fn law_answers_name_their_command(id: u8, value: u16, error: u8)
    ensures
        ack(id, value) == (Act::Send {
            cmd: 0x81,
            payload: seq![id, (value % 256) as u8, (value / 256) as u8],
        }),
        nak(id, error) == (Act::Send { cmd: 0x82, payload: seq![id, error] }),
        on_air(true) == (Act::Send { cmd: 0x42, payload: seq![1u8] }),
        on_air(false) == (Act::Send { cmd: 0x42, payload: seq![0u8] }),
{
    assert(crate::esplink::ack_payload(id, value) =~= seq![
        id,
        (value % 256) as u8,
        (value / 256) as u8,
    ]);
}

/// A status line goes out whole up to 64 bytes, and cut there.
pub proof fn law_status_lines_are_cut(text: Seq<u8>)
    ensures
        status(text) matches Act::Send { cmd, payload } && {
            &&& cmd == 0x44
            &&& text.len() <= 64 ==> payload == text
            &&& text.len() > 64 ==> payload == text.take(64)
        },
{
}

/// Whenever a pushed configuration came through intact and parses, it reaches
/// the radio and the GPS receiver, whatever configuration was in force before,
/// and is saved; the ESP hears of it last, when all of that is done.
pub proof fn law_config_reaches_the_hardware(t: TrackerView, closing: Seq<u8>, cfg: RadioConfig)
    requires
        t.transfer.open,
        t.transfer.text.len() == t.transfer.total,
        closing.len() >= 4,
        crate::wire::u32_at(closing, 0) == crate::link::crc32_of(t.transfer.text),
        crate::radiocfg::file_meaning(t.transfer.text) matches Ok(parsed) && parsed == cfg,
    ensures
        ({
            let (after, done) = on_frame(t, 0x12, closing);
            let last = done.len() - 1;
            &&& after.cfg == cfg
            &&& after.cfg_loaded
            &&& exists|i: int| 0 <= i < last && #[trigger] done[i] == Act::RadioInit
            &&& exists|i: int| 0 <= i < last && #[trigger] done[i] == Act::GpsConfigure
            &&& exists|i: int| 0 <= i < last && #[trigger] done[i] == Act::SaveConfig
            &&& t.cfg.address != cfg.address || t.cfg.role != cfg.role || t.cfg.max_hops
                != cfg.max_hops ==> exists|i: int|
                0 <= i < last && #[trigger] done[i] == Act::NodeReconfigure
            &&& exists|i: int|
                0 <= i < last && #[trigger] done[i] == status(applied_line(cfg.address))
            &&& done[last] == (Act::Send { cmd: 0x81, payload: seq![0x12u8, 0, 0] })
            &&& forall|i: int| 0 <= i < last ==> !is_answer(#[trigger] done[i])
            &&& after == (TrackerView {
                cfg,
                cfg_loaded: true,
                transfer: crate::cfgxfer::CfgView { open: false, ..t.transfer },
                ..t
            })
        }),
{
    law_answers_name_their_command(0x12, 0, 0);
    let (after, done) = on_frame(t, 0x12, closing);
    let last = done.len() - 1;
    assert(done == apply_acts(t.cfg, cfg));
    assert(done[0] == Act::RadioInit);
    if node_differs(t.cfg, cfg) {
        assert(done.len() == 6);
        assert(done[1] == Act::NodeReconfigure);
        assert(done[2] == Act::GpsConfigure);
        assert(done[3] == Act::SaveConfig);
        assert(done[4] == status(applied_line(cfg.address)));
        assert(done[5] == ack(cmd::CFG_END, 0));
    } else {
        assert(done.len() == 5);
        assert(done[1] == Act::GpsConfigure);
        assert(done[2] == Act::SaveConfig);
        assert(done[3] == status(applied_line(cfg.address)));
        assert(done[4] == ack(cmd::CFG_END, 0));
    }
}

/// A configuration that came through intact but does not parse is refused, and
/// nothing is touched.
pub proof fn law_bad_config_touches_nothing(t: TrackerView, closing: Seq<u8>)
    requires
        t.transfer.open,
        t.transfer.text.len() == t.transfer.total,
        closing.len() >= 4,
        crate::wire::u32_at(closing, 0) == crate::link::crc32_of(t.transfer.text),
        crate::radiocfg::file_meaning(t.transfer.text) is Err,
    ensures
        ({
            let (after, done) = on_frame(t, 0x12, closing);
            &&& after.cfg == t.cfg && after.cfg_loaded == t.cfg_loaded
            &&& done == seq![Act::Send { cmd: 0x82, payload: seq![0x12u8, 0x07] }]
        }),
{
    law_answers_name_their_command(0x12, 0, 0x07);
}

/// A ping is answered with the firmware version and changes nothing.
pub proof fn law_ping_tells_the_version(t: TrackerView, payload: Seq<u8>)
    ensures
        on_frame(t, 0x01, payload) == (
            t,
            seq![
                Act::Send {
                    cmd: 0x81,
                    payload: seq![0x01u8, (t.version % 256) as u8, (t.version / 256) as u8],
                },
            ],
        ),
{
    law_answers_name_their_command(0x01, t.version, 0);
}

/// The ESP's busy flag is passed on as it stands: set by a 1, cleared by
/// anything else.
pub proof fn law_busy_flag_is_passed_on(t: TrackerView, payload: Seq<u8>)
    ensures
        on_frame(t, 0x02, payload) == (
            t,
            seq![Act::PeerBusy { busy: payload.len() > 0 && payload[0] == 1 }],
        ),
{
}

/// Soft sleep puts the radio into standby, waking sets it up again; either is
/// acknowledged with the state asked for, and asking for the state that holds
/// already does nothing else.
pub proof fn law_soft_sleep(t: TrackerView, payload: Seq<u8>)
    ensures
        ({
            let asked = payload.len() > 0 && payload[0] == 1;
            let (after, done) = on_frame(t, 0x03, payload);
            &&& after == (TrackerView { sleeping: asked, ..t })
            &&& done[done.len() - 1] == (Act::Send {
                cmd: 0x81,
                payload: seq![
                    0x03u8,
                    if asked {
                        1u8
                    } else {
                        0u8
                    },
                    0,
                ],
            })
            &&& asked == t.sleeping ==> done.len() == 1
            &&& asked && !t.sleeping ==> done.len() == 3 && done[0] == Act::RadioStandby && done[1]
                == status(ascii("soft sleep"))
            &&& !asked && t.sleeping ==> done.len() == 3 && done[0] == Act::RadioInit && done[1]
                == status(ascii("woke from soft sleep"))
        }),
{
    law_answers_name_their_command(0x03, 0, 0);
    law_answers_name_their_command(0x03, 1, 0);
}

/// The GPS receiver is put to sleep or woken as asked, and the answer says
/// which.
pub proof fn law_gps_sleep(t: TrackerView, payload: Seq<u8>)
    ensures
        ({
            let asked = payload.len() > 0 && payload[0] == 1;
            let (after, done) = on_frame(t, 0x04, payload);
            &&& after == t
            &&& done.len() == 2
            &&& asked ==> done[0] == Act::GpsSleep && done[1] == (Act::Send {
                cmd: 0x81,
                payload: seq![0x04u8, 1, 0],
            })
            &&& !asked ==> done[0] == Act::GpsWake && done[1] == (Act::Send {
                cmd: 0x81,
                payload: seq![0x04u8, 0, 0],
            })
        }),
{
    law_answers_name_their_command(0x04, 0, 0);
    law_answers_name_their_command(0x04, 1, 0);
}

/// The steps of a config transfer move the transfer and nothing else, and what
/// it says goes back under the command that came: its sequence number, or its
/// error.
pub proof fn law_config_steps_are_answered(t: TrackerView, id: u8, payload: Seq<u8>)
    requires
        id == 0x10 || id == 0x11 || id == 0x12,
    ensures
        ({
            let (after, done) = on_frame(t, id, payload);
            let (transfer, event) = if id == 0x10 {
                crate::cfgxfer::on_begin(t.transfer, payload)
            } else if id == 0x11 {
                crate::cfgxfer::on_data(t.transfer, payload)
            } else {
                crate::cfgxfer::on_end(t.transfer, payload)
            };
            &&& after.transfer == transfer
            &&& event matches CfgEvent::Ack(n) ==> done == seq![ack(id, n)] && after
                == (TrackerView { transfer, ..t })
            &&& event matches CfgEvent::Error(e) ==> done == seq![nak(id, e)] && after
                == (TrackerView { transfer, ..t })
        }),
{
}

/// The steps of a firmware update move the update and nothing else. What it
/// says goes back under the command that came: its sequence number or its
/// error, or the flash work to do first. Data and the end feed the watchdog,
/// and a transfer that starts is announced.
pub proof fn law_update_steps_are_answered(t: TrackerView, id: u8, payload: Seq<u8>)
    requires
        id == 0x20 || id == 0x21 || id == 0x22,
    ensures
        ({
            let (after, done) = on_frame(t, id, payload);
            let (update, event) = if id == 0x20 {
                crate::fwupdate::on_begin(t.update, payload)
            } else if id == 0x21 {
                crate::fwupdate::on_data(t.update, payload)
            } else {
                crate::fwupdate::on_end(t.update)
            };
            let last = done[done.len() - 1];
            &&& after == (TrackerView { update, update_cmd: id, ..t })
            &&& id != 0x20 ==> done[0] == Act::FeedWatchdog
            &&& id == 0x20 && event is Ack ==> done.len() == 2 && done[0] == status(
                ascii("fw update: receiving image"),
            )
            &&& event matches FwEvent::Ack(n) ==> done.len() == 2 && last == ack(id, n)
            &&& event matches FwEvent::Error(e) ==> last == nak(id, e)
            &&& event matches FwEvent::WritePage(page) ==> last == (Act::WritePage { page })
            &&& event matches FwEvent::Verify(len) ==> last == (Act::VerifyImage { len })
            &&& id != 0x20 && !(event is Complete) ==> done.len() == 2
            &&& id == 0x20 && event is Error ==> done.len() == 1
        }),
{
}

/// The reports on flash work go on with the update, and are answered under the
/// command that started the work. A verified image is handed to the
/// bootloader first, acknowledged then, and the reboot comes last.
pub proof fn law_flash_reports_are_answered(t: TrackerView, ok: bool, staged: Seq<u8>)
    ensures
        ({
            let (after, done) = on_page(t, ok);
            let (update, event) = crate::fwupdate::on_page_written(t.update, ok);
            &&& after == (TrackerView { update, ..t })
            &&& event matches FwEvent::Ack(n) ==> done == seq![ack(t.update_cmd, n)]
            &&& event matches FwEvent::Error(e) ==> done == seq![nak(t.update_cmd, e)]
            &&& event matches FwEvent::WritePage(page) ==> done == seq![Act::WritePage { page }]
            &&& event matches FwEvent::Verify(len) ==> done == seq![Act::VerifyImage { len }]
        }),
        ({
            let (after, done) = on_staged(t, staged);
            let event = crate::fwupdate::on_verify(t.update->0, staged);
            &&& after == (TrackerView { update: None, ..t })
            &&& event is Complete ==> done == seq![
                Act::RequestSwap,
                ack(t.update_cmd, 0),
                Act::Reboot,
            ]
            &&& event matches FwEvent::Error(e) ==> done == seq![nak(t.update_cmd, e)]
        }),
{
}

/// An abort drops the update, whatever its state, and is acknowledged.
pub proof fn law_abort_drops_the_update(t: TrackerView, payload: Seq<u8>)
    ensures
        on_frame(t, 0x23, payload) == (
            TrackerView { update: None, ..t },
            seq![Act::Send { cmd: 0x81, payload: seq![0x23u8, 0, 0] }],
        ),
{
    law_answers_name_their_command(0x23, 0, 0);
}

/// A report carries the source, the RSSI low byte first, and the packet
/// whole.
pub proof fn law_reports_carry_the_packet(src: u8, rssi: i16, packet: Seq<u8>)
    ensures
        ({
            let r = report(src, rssi, packet);
            &&& r.len() == packet.len() + 3
            &&& r[0] == src
            &&& crate::wire::i16_at(r, 1) == rssi
            &&& r.skip(3) == packet
        }),
{
    let r = report(src, rssi, packet);
    assert(r.subrange(1, 3) =~= crate::wire::i16_bytes(rssi));
    crate::wire::lemma_i16_at(r, 1, rssi);
    assert(r.skip(3) =~= packet);
}

/// An update of the position is reported to the ESP when its time has come,
/// fix or not, and the next report waits a second. A fix goes to the card too,
/// where it is enabled. A change of the fix is announced at once, once.
pub proof fn law_own_position_is_reported(
    t: TrackerView,
    now: u32,
    updated: bool,
    p: Position,
    packet: Seq<u8>,
)
    ensures
        ({
            let (after, done) = on_gps(t, now, updated, p, packet);
            let due = updated && now.wrapping_sub(t.next_report) < 0x8000_0000;
            let sent = Act::Send { cmd: 0x40, payload: report(0, 0, packet) };
            let logged = Act::LogPosition { src: 0, rssi: 0, position: p };
            let said = status(fix_line(p.fix, p.sats));
            let at: int = if p.fix != t.had_fix {
                1
            } else {
                0
            };
            &&& after.had_fix == p.fix
            &&& after.next_report == if due {
                now.wrapping_add(1_000)
            } else {
                t.next_report
            }
            &&& after == (TrackerView {
                had_fix: after.had_fix,
                next_report: after.next_report,
                ..t
            })
            &&& p.fix != t.had_fix ==> done.len() > 0 && done[0] == said
            &&& !due ==> done.len() == at
            &&& due ==> done.len() > at && done[at] == sent
            &&& due && p.fix && t.cfg.sd_enabled ==> done.len() == at + 2 && done[at + 1] == logged
            &&& due && !(p.fix && t.cfg.sd_enabled) ==> done.len() == at + 1
        }),
{
}

/// A beacon goes out exactly where the node transmits, has an interval, its
/// time has come, there is a fix and the ESP is off the air. It carries the
/// position packet behind its tag, and the next one waits the interval and the
/// jitter. Without a fix or the air it is tried again half a second later.
pub proof fn law_beacon_carries_the_position(
    t: TrackerView,
    now: u32,
    fix: bool,
    peer_busy: bool,
    packet: Seq<u8>,
    jitter_ms: u32,
)
    requires
        t.cfg.valid(),
    ensures
        ({
            let (after, done) = on_beacon(t, now, fix, peer_busy, packet, jitter_ms);
            let due = t.cfg.role != crate::radiocfg::Role::RxOnly && t.cfg.beacon_interval_s > 0
                && now.wrapping_sub(t.next_beacon) < 0x8000_0000;
            &&& !due ==> after == t && done.len() == 0
            &&& due && (!fix || peer_busy) ==> done.len() == 0 && after == (TrackerView {
                next_beacon: now.wrapping_add(500),
                ..t
            })
            &&& due && fix && !peer_busy ==> {
                &&& done == seq![
                    Act::Send { cmd: 0x42, payload: seq![1u8] },
                    Act::Broadcast { payload: seq![0x50u8] + packet },
                ]
                &&& after.next_beacon == now.wrapping_add(
                    (t.cfg.beacon_interval_s * 1_000) as u32,
                ).wrapping_add(jitter_ms)
                &&& after.busy_clear_at == Some(now.wrapping_add(t.cfg.chip_timeout() as u32))
                &&& after == (TrackerView {
                    next_beacon: after.next_beacon,
                    busy_clear_at: after.busy_clear_at,
                    ..t
                })
            }
        }),
{
    law_answers_name_their_command(0, 0, 0);
}

/// A due repeat goes out exactly where the ESP is off the air; the ESP is
/// warned first, and the warning is taken back at its time, not before.
pub proof fn law_repeats_wait_for_the_air(t: TrackerView, now: u32, due: bool, peer_busy: bool)
    ensures
        ({
            let (after, done) = on_relay(t, now, due, peer_busy);
            &&& !due || peer_busy ==> after == t && done.len() == 0
            &&& due && !peer_busy ==> {
                &&& done == seq![Act::Send { cmd: 0x42, payload: seq![1u8] }, Act::Relay]
                &&& after == (TrackerView {
                    busy_clear_at: Some(now.wrapping_add(t.cfg.chip_timeout() as u32)),
                    ..t
                })
            }
        }),
        ({
            let (after, done) = on_clear(t, now);
            let over = t.busy_clear_at matches Some(at) && now.wrapping_sub(at) < 0x8000_0000;
            &&& over ==> done == seq![Act::Send { cmd: 0x42, payload: seq![0u8] }] && after
                == (TrackerView { busy_clear_at: None, ..t })
            &&& !over ==> after == t && done.len() == 0
        }),
{
    law_answers_name_their_command(0, 0, 0);
}

/// What is heard over the air counts and reaches the ESP with its source and
/// RSSI: a position as a position, logged too where the card is enabled, and
/// anything else as it came, cut after 32 bytes.
pub proof fn law_receptions_reach_the_esp(
    t: TrackerView,
    src: u8,
    rssi: i16,
    payload: Seq<u8>,
    p: Position,
    packet: Seq<u8>,
)
    requires
        t.rx_count < u32::MAX,
    ensures
        ({
            let (after, done) = on_heard(t, src, rssi, payload, Some((p, packet)));
            &&& after.rx_count == t.rx_count + 1
            &&& after == (TrackerView { rx_count: after.rx_count, ..t })
            &&& done[0] == (Act::Send { cmd: 0x40, payload: report(src, rssi, packet) })
            &&& t.cfg.sd_enabled ==> done.len() == 2 && done[1] == (Act::LogPosition {
                src,
                rssi,
                position: p,
            })
            &&& !t.cfg.sd_enabled ==> done.len() == 1
        }),
        ({
            let (after, done) = on_heard(t, src, rssi, payload, None);
            &&& after.rx_count == t.rx_count + 1
            &&& after == (TrackerView { rx_count: after.rx_count, ..t })
            &&& done.len() == 1
            &&& payload.len() <= 32 ==> done[0] == (Act::Send {
                cmd: 0x43,
                payload: report(src, rssi, payload),
            })
            &&& payload.len() > 32 ==> done[0] == (Act::Send {
                cmd: 0x43,
                payload: report(src, rssi, payload.take(32)),
            })
        }),
{
}

/// Status goes to the ESP when its time has come, and the next one waits five
/// seconds. It tells the last RSSI and SNR, both counters, the satellites, and
/// how many seconds ago the last packet came - at most 0xFFFE, and 0xFFFF
/// where none did.
pub proof fn law_status_tells_the_state(t: TrackerView, now: u32, clock_ms: u32, h: Health)
    ensures
        ({
            let (after, done) = on_status(t, now, clock_ms, h);
            let due = now.wrapping_sub(t.next_status) < 0x8000_0000;
            &&& !due ==> after == t && done.len() == 0
            &&& due ==> after == (TrackerView { next_status: now.wrapping_add(5_000), ..t })
            &&& due ==> done == seq![
                Act::Send { cmd: 0x41, payload: telemetry(t, h, clock_ms).wire() },
            ]
        }),
        ({
            let m = telemetry(t, h, clock_ms);
            &&& m.last_rssi == h.last_rssi
            &&& m.last_snr_cb == h.last_snr_cb
            &&& m.rx_count == t.rx_count
            &&& m.tx_count == t.tx_count
            &&& m.sats == h.sats
            &&& m.flags == telemetry_flags(h.sd_ok && t.cfg.sd_enabled, h.fix, t.cfg_loaded)
            &&& h.last_rx_ms is None ==> m.secs_since_rx == 0xFFFF
            &&& h.last_rx_ms matches Some(at) ==> {
                let ago = clock_ms.wrapping_sub(at) as int;
                &&& m.secs_since_rx <= 0xFFFE
                &&& ago < 65_535_000 ==> m.secs_since_rx * 1_000 <= ago < m.secs_since_rx * 1_000
                    + 1_000
                &&& ago >= 65_535_000 ==> m.secs_since_rx == 0xFFFE
            }
        }),
{
}

/// A loop starts awake and at work, with its counters at zero and nothing
/// under way. Its first beacon waits two seconds and one per address, its
/// first status three.
pub proof fn law_start(version: u16, cfg: RadioConfig, cfg_loaded: bool, now: u32)
    ensures
        ({
            let t = started(version, cfg, cfg_loaded, now);
            &&& t.version == version && t.cfg == cfg && t.cfg_loaded == cfg_loaded
            &&& pace_of(t) == Pace::Work
            &&& t.tx_count == 0 && t.rx_count == 0
            &&& !t.had_fix
            &&& t.busy_clear_at is None
            &&& !t.transfer.open
            &&& t.next_beacon == now.wrapping_add((1_000 * cfg.address + 2_000) as u32)
            &&& t.next_status == now.wrapping_add(3_000)
        }),
{
}

/// A firmware transfer owns the loop, asleep or not; otherwise soft sleep
/// does, and only what is neither works.
pub proof fn law_pace(t: TrackerView)
    ensures
        pace_of(t) == Pace::Transfer <==> t.update is Some,
        pace_of(t) == Pace::Asleep <==> t.update is None && t.sleeping,
        pace_of(t) == Pace::Work <==> t.update is None && !t.sleeping,
{
}

/// Transmissions that went out are counted, failed ones are not.
pub proof fn law_transmissions_count(t: TrackerView)
    requires
        t.tx_count < u32::MAX,
    ensures
        on_transmitted(t, true).tx_count == t.tx_count + 1,
        on_transmitted(t, false) == t,
        on_transmitted(t, true) == (TrackerView {
            tx_count: on_transmitted(t, true).tx_count,
            ..t
        }),
{
}

/// The status lines say what they are about: the satellites of a new fix, the
/// address of a configuration put in force, the version and the address at
/// boot, each number in decimal.
pub proof fn law_status_lines(sats: u8, address: u8, version: u16)
    ensures
        fix_line(true, sats) == ascii("gps fix acquired (") + crate::text::digits(sats as nat)
            + ascii(" sats)"),
        fix_line(false, sats) == ascii("gps fix lost"),
        applied_line(address) == ascii("config applied, node ") + crate::text::digits(
            address as nat,
        ),
        up_line(version, address) == ascii("wio v") + crate::text::digits(version as nat) + ascii(
            " up, node ",
        ) + crate::text::digits(address as nat),
{
}

/// A configuration that makes the same node - the same address, role, hop
/// limit and modulation - leaves the node's history and queue alone, whatever
/// else it changes.
pub proof fn law_same_node_is_left_alone(t: TrackerView, closing: Seq<u8>, cfg: RadioConfig)
    requires
        t.transfer.open,
        t.transfer.text.len() == t.transfer.total,
        closing.len() >= 4,
        crate::wire::u32_at(closing, 0) == crate::link::crc32_of(t.transfer.text),
        crate::radiocfg::file_meaning(t.transfer.text) matches Ok(parsed) && parsed == cfg,
        t.cfg.address == cfg.address,
        t.cfg.role == cfg.role,
        t.cfg.max_hops == cfg.max_hops,
        t.cfg.spreading_factor == cfg.spreading_factor,
        t.cfg.bandwidth_khz == cfg.bandwidth_khz,
    ensures
        !on_frame(t, 0x12, closing).1.contains(Act::NodeReconfigure),
{
    let done = on_frame(t, 0x12, closing).1;
    assert(done == apply_acts(t.cfg, cfg));
    assert(done =~= seq![
        Act::RadioInit,
        Act::GpsConfigure,
        Act::SaveConfig,
        status(applied_line(cfg.address)),
        ack(cmd::CFG_END, 0),
    ]);
    assert forall|i: int| 0 <= i < done.len() implies done[i] != Act::NodeReconfigure by {
        assert(done.len() == 5);
    }
}

proof fn lemma_value_of_digits(n: nat)
    ensures
        value_of(crate::text::digits(n)) == n,
        crate::text::digits(n).len() > 0,
        forall|i: int|
            0 <= i < crate::text::digits(n).len() ==> 0x30 <= #[trigger] crate::text::digits(n)[i]
                <= 0x39,
    decreases n,
{
    let d = crate::text::digits(n);
    reveal_with_fuel(value_of, 2);
    if n < 10 {
        assert(d.drop_last() =~= Seq::<u8>::empty());
    } else {
        lemma_value_of_digits(n / 10);
        let head = crate::text::digits(n / 10);
        assert(d.drop_last() =~= head);
        assert forall|i: int| 0 <= i < d.len() implies 0x30 <= #[trigger] d[i] <= 0x39 by {
            if i < head.len() {
                assert(d[i] == head[i]);
            }
        }
    }
}

/// A version written in decimal is read as that version where it fits 16 bits,
/// and is none where it does not; nor is a text with anything but digits.
/// Without a setting the version is 1.
pub proof fn law_version_is_read(n: nat, text: Seq<u8>, k: int)
    requires
        0 <= k < text.len(),
        !(0x30 <= text[k] <= 0x39),
    ensures
        n <= 65535 ==> version_named(Some(crate::text::digits(n))) == Some(n as u16),
        n > 65535 ==> version_named(Some(crate::text::digits(n))) is None,
        version_named(Some(text)) is None,
        version_named(Some(Seq::empty())) is None,
        version_named(None) == Some(1u16),
{
    lemma_value_of_digits(n);
}

/// Every action amounts to what it says.
pub proof fn law_actions_say_what_they_do(a: Action)
    ensures
        a matches Action::Send { cmd, payload } ==> a@ == (Act::Send { cmd, payload: payload@ }),
        a matches Action::PeerBusy { busy } ==> a@ == (Act::PeerBusy { busy }),
        a is RadioStandby <==> a@ is RadioStandby,
        a is RadioInit <==> a@ is RadioInit,
        a is NodeReconfigure <==> a@ is NodeReconfigure,
        a is GpsConfigure <==> a@ is GpsConfigure,
        a is GpsSleep <==> a@ is GpsSleep,
        a is GpsWake <==> a@ is GpsWake,
        a is SaveConfig <==> a@ is SaveConfig,
        a is FeedWatchdog <==> a@ is FeedWatchdog,
        a matches Action::WritePage { page } ==> a@ == (Act::WritePage { page }),
        a matches Action::VerifyImage { len } ==> a@ == (Act::VerifyImage { len }),
        a is RequestSwap <==> a@ is RequestSwap,
        a is Reboot <==> a@ is Reboot,
        a matches Action::LogPosition { src, rssi, position } ==> a@ == (Act::LogPosition {
            src,
            rssi,
            position,
        }),
        a matches Action::Broadcast { payload } ==> a@ == (Act::Broadcast { payload: payload@ }),
        a is Relay <==> a@ is Relay,
{
}

} // verus!

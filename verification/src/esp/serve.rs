//! Advertising, connecting and deep sleep.
//!
//! The board advertises, serves one central at a time until it disconnects,
//! and advertises again. With sleep mode active, a bounded advertising window
//! ends in deep sleep instead of advertising forever.
//!
//! The window is held as a deadline rather than a per-attempt timeout. Every
//! failure that restarts advertising comes out of the same budget: a central
//! that kept failing to connect would otherwise keep the board awake at full
//! advertising current for good. A deadline cannot be restarted by a retry.

use vstd::prelude::*;

verus! {

/// How long to keep advertising after a disconnect (sleep mode active) so
/// the phone can come straight back before the board vanishes.
pub const SLEEP_LINGER_S: u64 = 5;

/// Pause after advertising could not be started.
pub const ADVERTISE_RETRY_MS: u64 = 1000;

/// Pause after a connection attempt that did not complete. It keeps a
/// repeated failure off a hot spin, and comes out of the wake budget like
/// everything else.
pub const CONNECT_RETRY_MS: u64 = 200;

/// Room in an advertising packet.
pub const ADV_MAX: usize = 31;

// -- Sleep or advertise -------------------------------------------------------

/// The wake budget.
#[derive(Clone, Copy, Debug, PartialEq, Eq)]
pub struct Serve {
    wake_ends_ms: u64,
}

impl View for Serve {
    type V = u64;

    closed spec fn view(&self) -> u64 {
        self.wake_ends_ms
    }
}

/// What to do next.
#[derive(Clone, Copy, Debug, PartialEq, Eq, Structural)]
pub enum Next {
    /// Deep sleep for this many seconds, with the GPS/LoRa rail dark.
    Sleep(u32),
    /// Advertise.
    Advertise,
}

/// What happened while advertising.
#[derive(Clone, Copy, Debug, PartialEq, Eq, Structural)]
pub enum ServeEvent {
    /// Advertising could not be started.
    AdvertiseFailed,
    /// A central started a connection and it did not complete.
    ConnectFailed,
    /// The connection has no attribute server.
    AttachFailed,
    /// The window closed with nobody interested.
    WindowOver,
    /// A central connected.
    Connected,
    /// The central disconnected.
    SessionOver { now_ms: u64 },
}

/// What an event has the firmware do.
#[derive(Clone, Copy, Debug, PartialEq, Eq, Structural)]
pub enum ServeAction {
    /// Pause for this many milliseconds, and look again.
    Retry(u64),
    /// Deep sleep for this many seconds.
    Sleep(u32),
    /// Serve the central, raising the rail first where it says so.
    Session { raise_rail: bool },
}

/// When a window ends.
pub open spec fn window_end(now_ms: u64, window_s: int) -> int {
    now_ms + 1000 * window_s
}

/// Whether the budget is spent: only with sleep mode active is there one.
pub open spec fn spent(wake_ends_ms: u64, now_ms: u64, sleep_interval_s: u32) -> bool {
    sleep_interval_s > 0 && now_ms >= wake_ends_ms
}

/// Whether a board advertises or sleeps.
pub open spec fn next_at(wake_ends_ms: u64, now_ms: u64, sleep_interval_s: u32) -> Next {
    if spent(wake_ends_ms, now_ms, sleep_interval_s) {
        Next::Sleep(sleep_interval_s)
    } else {
        Next::Advertise
    }
}

/// How long a board waits for a central, where it does not wait forever.
pub open spec fn limit_at(wake_ends_ms: u64, now_ms: u64, sleep_interval_s: u32) -> Option<u64> {
    if sleep_interval_s == 0 {
        None
    } else if now_ms < wake_ends_ms {
        Some((wake_ends_ms - now_ms) as u64)
    } else {
        Some(0)
    }
}

/// What an event does to the budget, and what follows.
pub open spec fn on_serve_event(
    wake_ends_ms: u64,
    e: ServeEvent,
    sleep_interval_s: u32,
    rail_on: bool,
    rail_configured: bool,
) -> (u64, ServeAction) {
    match e {
        ServeEvent::AdvertiseFailed => (wake_ends_ms, ServeAction::Retry(ADVERTISE_RETRY_MS)),
        ServeEvent::ConnectFailed => (wake_ends_ms, ServeAction::Retry(CONNECT_RETRY_MS)),
        ServeEvent::AttachFailed => (wake_ends_ms, ServeAction::Retry(0)),
        ServeEvent::WindowOver => (
            wake_ends_ms,
            if sleep_interval_s > 0 {
                ServeAction::Sleep(sleep_interval_s)
            } else {
                ServeAction::Retry(0)
            },
        ),
        ServeEvent::Connected => (
            wake_ends_ms,
            ServeAction::Session { raise_rail: !rail_on && rail_configured },
        ),
        ServeEvent::SessionOver { now_ms } => (
            window_end(now_ms, SLEEP_LINGER_S as int) as u64,
            ServeAction::Retry(0),
        ),
    }
}

impl Serve {
    /// Start the budget of this wake. The window is sampled once: one
    /// shortened over BLE takes effect on the next wake, so it cannot
    /// strand a board mid-window with its budget already spent.
    pub fn start(now_ms: u64, window_s: u32) -> (s: Serve)
        requires
            window_end(now_ms, window_s as int) <= u64::MAX,
        ensures
            s@ == window_end(now_ms, window_s as int),
    {
        Serve { wake_ends_ms: now_ms + 1000 * (window_s as u64) }
    }

    /// Whether to advertise or to sleep.
    pub fn next(&self, now_ms: u64, sleep_interval_s: u32) -> (n: Next)
        ensures
            n == next_at(self@, now_ms, sleep_interval_s),
    {
        if sleep_interval_s > 0 && now_ms >= self.wake_ends_ms {
            Next::Sleep(sleep_interval_s)
        } else {
            Next::Advertise
        }
    }

    /// How long to wait for a central: what is left of the budget, or
    /// forever without sleep mode.
    pub fn accept_limit_ms(&self, now_ms: u64, sleep_interval_s: u32) -> (limit: Option<u64>)
        ensures
            limit == limit_at(self@, now_ms, sleep_interval_s),
    {
        if sleep_interval_s == 0 {
            None
        } else if now_ms < self.wake_ends_ms {
            Some(self.wake_ends_ms - now_ms)
        } else {
            Some(0)
        }
    }

    /// Take what happened. The rail is dark on every wake check; a central
    /// that connects has it raised if that is what the app configured. After
    /// a session the board lingers by advertising, not by idling, so the
    /// phone can come straight back.
    pub fn event(
        &mut self,
        e: ServeEvent,
        sleep_interval_s: u32,
        rail_on: bool,
        rail_configured: bool,
    ) -> (a: ServeAction)
        requires
            e matches ServeEvent::SessionOver { now_ms } ==> window_end(
                now_ms,
                SLEEP_LINGER_S as int,
            ) <= u64::MAX,
        ensures
            (final(self)@, a) == on_serve_event(
                old(self)@,
                e,
                sleep_interval_s,
                rail_on,
                rail_configured,
            ),
    {
        match e {
            ServeEvent::AdvertiseFailed => ServeAction::Retry(ADVERTISE_RETRY_MS),
            ServeEvent::ConnectFailed => ServeAction::Retry(CONNECT_RETRY_MS),
            ServeEvent::AttachFailed => ServeAction::Retry(0),
            ServeEvent::WindowOver => {
                if sleep_interval_s > 0 {
                    ServeAction::Sleep(sleep_interval_s)
                } else {
                    ServeAction::Retry(0)
                }
            },
            ServeEvent::Connected => ServeAction::Session {
                raise_rail: !rail_on && rail_configured,
            },
            ServeEvent::SessionOver { now_ms } => {
                self.wake_ends_ms = now_ms + 1000 * SLEEP_LINGER_S;
                ServeAction::Retry(0)
            },
        }
    }
}

// -- Advertising data ---------------------------------------------------------

/// Discoverable, and no classic Bluetooth.
pub const ADV_FLAGS: u8 = 0x06;

/// [`crate::ble::SERVICE_UUID`], low byte first as it goes on the air.
pub const SERVICE_UUID_LE: [u8; 16] = [
    0xd0,
    0xe5,
    0xb1,
    0xc3,
    0x32,
    0x2e,
    0x5a,
    0x8f,
    0x2c,
    0x4b,
    0x6e,
    0x9f,
    0x01,
    0x00,
    0xa1,
    0xc3,
];

/// [`crate::ble::DEVICE_NAME`] in ASCII.
pub const DEVICE_NAME_ASCII: [u8; 6] = [0x47, 0x50, 0x53, 0x2d, 0x43, 0x36];

/// One structure of an advertising packet.
#[derive(Clone, Copy, Debug, PartialEq, Eq)]
pub enum Ad<'a> {
    /// What the device can do.
    Flags(u8),
    /// A service it offers.
    ServiceUuid([u8; 16]),
    /// Its name.
    Name(&'a [u8]),
}

/// A structure on the air: its length, its type, and what it says.
pub open spec fn ad_bytes(ad: Ad<'_>) -> Seq<u8> {
    match ad {
        Ad::Flags(flags) => seq![0x02u8, 0x01, flags],
        Ad::ServiceUuid(uuid) => seq![0x11u8, 0x07] + uuid@,
        Ad::Name(name) => seq![(name@.len() + 1) as u8, 0x09u8] + name@,
    }
}

/// An advertising packet.
pub open spec fn packet_bytes(ads: Seq<Ad<'_>>) -> Seq<u8>
    decreases ads.len(),
{
    if ads.len() == 0 {
        Seq::empty()
    } else {
        packet_bytes(ads.drop_last()) + ad_bytes(ads.last())
    }
}

/// An advertising packet, unless it is longer than `room`.
///
/// Calls `trouble_host::advertise::AdStructure::encode_slice`, which writes
/// one structure after the other, flags under type 1, a complete list of one
/// 128-bit service UUID under type 7 and the complete local name under type
/// 9, and fails where they do not fit.
#[verifier::external_body]
pub(crate) fn encode_packet(ads: &[Ad<'_>], room: usize) -> (r: Option<Vec<u8>>)
    ensures
        match r {
            Some(v) => v@ == packet_bytes(ads@) && v@.len() <= room,
            None => packet_bytes(ads@).len() > room,
        },
{
    let structures: Vec<trouble_host::advertise::AdStructure<'_>> = ads.iter().map(|ad| match ad {
        Ad::Flags(f) => trouble_host::advertise::AdStructure::Flags(*f),
        Ad::ServiceUuid(u) => trouble_host::advertise::AdStructure::CompleteServiceUuids128(
            core::slice::from_ref(u),
        ),
        Ad::Name(n) => trouble_host::advertise::AdStructure::CompleteLocalName(n),
    }).collect();
    let mut dest = vec![0u8; room];
    match trouble_host::advertise::AdStructure::encode_slice(&structures, &mut dest) {
        Ok(n) => Some(dest[..n].to_vec()),
        Err(_) => None,
    }
}

/// The advertising packet: the flags, and the service that the app filters
/// scans by.
pub fn adv_data() -> (v: Vec<u8>)
    ensures
        v@ == seq![0x02u8, 0x01, ADV_FLAGS, 0x11, 0x07] + SERVICE_UUID_LE@,
        v@.len() <= ADV_MAX,
{
    let ads: [Ad<'_>; 2] = [Ad::Flags(ADV_FLAGS), Ad::ServiceUuid(SERVICE_UUID_LE)];
    let ghost whole = seq![0x02u8, 0x01, ADV_FLAGS, 0x11, 0x07] + SERVICE_UUID_LE@;
    proof {
        reveal_with_fuel(packet_bytes, 3);
        assert(ads@.drop_last().drop_last() =~= Seq::<Ad<'_>>::empty());
        assert(packet_bytes(ads@) =~= whole);
    }
    match encode_packet(ads.as_slice(), ADV_MAX) {
        Some(v) => v,
        None => Vec::new(),
    }
}

/// The scan response: the device's name.
pub fn scan_data() -> (v: Vec<u8>)
    ensures
        v@ == seq![0x07u8, 0x09] + DEVICE_NAME_ASCII@,
        v@.len() <= ADV_MAX,
{
    let name: [u8; 6] = DEVICE_NAME_ASCII;
    let ads: [Ad<'_>; 1] = [Ad::Name(name.as_slice())];
    proof {
        reveal_with_fuel(packet_bytes, 2);
        assert(ads@.drop_last() =~= Seq::<Ad<'_>>::empty());
        assert(packet_bytes(ads@) =~= seq![0x07u8, 0x09] + DEVICE_NAME_ASCII@);
    }
    match encode_packet(ads.as_slice(), ADV_MAX) {
        Some(v) => v,
        None => Vec::new(),
    }
}

// -- Laws ---------------------------------------------------------------------

/// The budget after a run of events.
pub open spec fn budget_after(wake_ends_ms: u64, events: Seq<ServeEvent>) -> u64
    decreases events.len(),
{
    if events.len() == 0 {
        wake_ends_ms
    } else {
        on_serve_event(
            budget_after(wake_ends_ms, events.drop_last()),
            events.last(),
            0,
            false,
            false,
        ).0
    }
}

/// Retries never extend the window: however many attempts fail, the budget
/// ends when it would have ended, and only a session that took place starts
/// another.
pub proof fn law_retries_never_extend_the_window(wake_ends_ms: u64, events: Seq<ServeEvent>)
    requires
        forall|i: int| 0 <= i < events.len() ==> !(#[trigger] events[i] is SessionOver),
    ensures
        budget_after(wake_ends_ms, events) == wake_ends_ms,
    decreases events.len(),
{
    if events.len() > 0 {
        assert forall|i: int| 0 <= i < events.drop_last().len() implies !(
        #[trigger] events.drop_last()[i] is SessionOver) by {
            assert(events.drop_last()[i] == events[i]);
        }
        law_retries_never_extend_the_window(wake_ends_ms, events.drop_last());
        assert(!(events[events.len() - 1] is SessionOver));
    }
}

/// Once the budget is spent the board goes to sleep, be it that it looks
/// again or that the wait for a central ran out.
pub proof fn law_spent_budget_sleeps(wake_ends_ms: u64, now_ms: u64, sleep_interval_s: u32)
    requires
        sleep_interval_s > 0,
        now_ms >= wake_ends_ms,
    ensures
        spent(wake_ends_ms, now_ms, sleep_interval_s),
        on_serve_event(
            wake_ends_ms,
            ServeEvent::WindowOver,
            sleep_interval_s,
            true,
            true,
        ).1 == ServeAction::Sleep(sleep_interval_s),
{
}

/// Without sleep mode the board never sleeps, whatever happens.
pub proof fn law_awake_board_stays_awake(
    wake_ends_ms: u64,
    now_ms: u64,
    e: ServeEvent,
    rail_on: bool,
    rail_configured: bool,
)
    ensures
        !spent(wake_ends_ms, now_ms, 0),
        !(on_serve_event(wake_ends_ms, e, 0, rail_on, rail_configured).1 is Sleep),
{
}

/// A wake that nobody answers never pays for the rail: only a session raises
/// it, and only where the app configured it on.
pub proof fn law_only_a_session_raises_the_rail(
    wake_ends_ms: u64,
    e: ServeEvent,
    sleep_interval_s: u32,
    rail_on: bool,
    rail_configured: bool,
)
    ensures
        on_serve_event(wake_ends_ms, e, sleep_interval_s, rail_on, rail_configured).1 == (
        ServeAction::Session { raise_rail: true }) ==> e == ServeEvent::Connected
            && rail_configured && !rail_on,
{
}

/// With sleep mode a board advertises until its budget ends and sleeps for its
/// interval from then on; without, it always advertises. It waits for a
/// central for what is left of the budget, which is nothing exactly when it is
/// to sleep.
pub proof fn law_budget_decides(wake_ends_ms: u64, now_ms: u64, sleep_interval_s: u32)
    ensures
        next_at(wake_ends_ms, now_ms, sleep_interval_s) == Next::Sleep(sleep_interval_s)
            <==> sleep_interval_s > 0 && now_ms >= wake_ends_ms,
        next_at(wake_ends_ms, now_ms, sleep_interval_s) == Next::Advertise <==> sleep_interval_s
            == 0 || now_ms < wake_ends_ms,
        limit_at(wake_ends_ms, now_ms, sleep_interval_s) is None <==> sleep_interval_s == 0,
        limit_at(wake_ends_ms, now_ms, sleep_interval_s) matches Some(ms) ==> {
            &&& now_ms < wake_ends_ms ==> now_ms + ms == wake_ends_ms
            &&& ms == 0 <==> next_at(wake_ends_ms, now_ms, sleep_interval_s) is Sleep
        },
{
}

/// What each event leads to: a failed attempt is tried again after its pause,
/// a window that closed puts the board to sleep where it sleeps at all, a
/// central that connects is served, and one that is gone leaves five seconds
/// to come back. Only that last moves the budget.
pub proof fn law_events_lead_on(
    wake_ends_ms: u64,
    sleep_interval_s: u32,
    rail_on: bool,
    rail_configured: bool,
    now_ms: u64,
)
    requires
        now_ms + 5_000 <= u64::MAX,
    ensures
        on_serve_event(
            wake_ends_ms,
            ServeEvent::AdvertiseFailed,
            sleep_interval_s,
            rail_on,
            rail_configured,
        ) == (wake_ends_ms, ServeAction::Retry(1_000)),
        on_serve_event(
            wake_ends_ms,
            ServeEvent::ConnectFailed,
            sleep_interval_s,
            rail_on,
            rail_configured,
        ) == (wake_ends_ms, ServeAction::Retry(200)),
        on_serve_event(
            wake_ends_ms,
            ServeEvent::AttachFailed,
            sleep_interval_s,
            rail_on,
            rail_configured,
        ) == (wake_ends_ms, ServeAction::Retry(0)),
        on_serve_event(
            wake_ends_ms,
            ServeEvent::WindowOver,
            sleep_interval_s,
            rail_on,
            rail_configured,
        ) == (
            wake_ends_ms,
            if sleep_interval_s > 0 {
                ServeAction::Sleep(sleep_interval_s)
            } else {
                ServeAction::Retry(0)
            },
        ),
        on_serve_event(
            wake_ends_ms,
            ServeEvent::Connected,
            sleep_interval_s,
            rail_on,
            rail_configured,
        ) == (
            wake_ends_ms,
            ServeAction::Session { raise_rail: !rail_on && rail_configured },
        ),
        on_serve_event(
            wake_ends_ms,
            ServeEvent::SessionOver { now_ms },
            sleep_interval_s,
            rail_on,
            rail_configured,
        ) == ((now_ms + 5_000) as u64, ServeAction::Retry(0)),
{
}

/// A window of so many seconds ends that many seconds later.
pub proof fn law_window_lasts_its_seconds(now_ms: u64, window_s: int)
    ensures
        window_end(now_ms, window_s) - now_ms == window_s * 1_000,
{
}

} // verus!

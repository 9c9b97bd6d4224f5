//! What a connected central is sent.

use vstd::prelude::*;
use crate::ble::REMOTE_LEN;
use crate::esp::state::{LinkState, LinkStateView};
use crate::link::{Telemetry, TELEMETRY_LEN};
use crate::position::Position;

verus! {

/// Delay before the first notification of a session.
pub const FIRST_NOTIFY_MS: u64 = 200;

/// How long to wait before looking again whether the WIO's radio is quiet.
pub const BUSY_RECHECK_MS: u64 = 100;

/// Paces the notifications of one session.
#[derive(Clone, Copy, Debug, PartialEq, Eq)]
pub struct Notifier {
    first: bool,
}

impl View for Notifier {
    type V = bool;

    closed spec fn view(&self) -> bool {
        self.first
    }
}

/// One round of notifications.
#[derive(Clone, Copy, Debug, PartialEq, Eq)]
pub struct Notification {
    pub position: Position,
    pub telemetry: [u8; TELEMETRY_LEN],
    /// Nothing before a remote position was heard.
    pub remote: Option<[u8; REMOTE_LEN]>,
}

/// The pause before a round.
pub open spec fn pause_ms(first: bool, interval_ms: u32) -> u64 {
    if first {
        FIRST_NOTIFY_MS
    } else {
        interval_ms as u64
    }
}

/// What a write to `handle` is for, where the two characteristics have these
/// handles.
pub open spec fn target_of(handle: u16, config: u16, bulk: u16) -> WriteTarget {
    if handle == config {
        WriteTarget::Config
    } else if handle == bulk {
        WriteTarget::Bulk
    } else {
        WriteTarget::Other
    }
}

impl Notifier {
    pub fn new() -> (n: Notifier)
        ensures
            n@,
    {
        Notifier { first: true }
    }

    /// How long to wait before the next round. The cached data goes out right
    /// away first, so a fresh central sees the latest fix and telemetry
    /// without waiting an interval.
    pub fn delay_ms(&mut self, interval_ms: u32) -> (ms: u64)
        ensures
            ms == pause_ms(old(self)@, interval_ms),
            !final(self)@,
    {
        if self.first {
            self.first = false;
            FIRST_NOTIFY_MS
        } else {
            interval_ms as u64
        }
    }
}

/// What a central wrote to.
#[derive(Clone, Copy, Debug, PartialEq, Eq, Structural)]
pub enum WriteTarget {
    /// The config characteristic: apply the write, publish the settings (a
    /// value may have been clamped) and show a burst on the LED.
    Config,
    /// The bulk characteristic: run the op.
    Bulk,
    /// Nothing that is acknowledged.
    Other,
}

/// What a write to `handle` is for.
pub fn write_target(handle: u16, config: u16, bulk: u16) -> (t: WriteTarget)
    ensures
        t == target_of(handle, config, bulk),
{
    if handle == config {
        WriteTarget::Config
    } else if handle == bulk {
        WriteTarget::Bulk
    } else {
        WriteTarget::Other
    }
}

/// What to send now: nothing while the WIO's radio is on the air, since both
/// radios share the power budget.
pub fn notification(state: &LinkState, now_ms: u64) -> (n: Option<Notification>)
    ensures
        n is None <==> crate::esp::state::on_air(state@, now_ms),
        n matches Some(n) ==> sends(state@, n),
{
    if state.wio_busy(now_ms) {
        return None;
    }
    let remote: [u8; REMOTE_LEN] = state.remote();
    let telemetry: [u8; TELEMETRY_LEN] = state.telemetry().encode();
    Some(
        Notification {
            position: state.gps(),
            telemetry,
            // Source 0 means nothing heard yet.
            remote: if remote[0] != 0 {
                Some(remote)
            } else {
                None
            },
        },
    )
}

/// A round sends what is cached, and a remote position only once there is
/// one.
pub open spec fn sends(s: LinkStateView, n: Notification) -> bool {
    &&& n.position == s.gps
    &&& n.telemetry@ == s.telem.wire()
    &&& n.remote is Some <==> s.remote[0] != 0
    &&& n.remote matches Some(r) ==> r@ == s.remote
}

/// What a central reads of the telemetry is what the WIO sent.
pub proof fn law_central_reads_what_the_wio_sent(
    s: LinkStateView,
    t: Telemetry,
    read: Option<Position>,
    now_ms: u64,
    n: Notification,
)
    requires
        sends(
            crate::esp::state::on_link_frame(
                s,
                crate::link::msg::STATUS,
                t.wire(),
                read,
                now_ms,
            ).0,
            n,
        ),
    ensures
        Telemetry::read(n.telemetry@) == Some(t),
{
    crate::esp::state::law_telemetry_is_cached(s, t, read, now_ms);
    crate::link::law_telemetry_roundtrip(t, Seq::empty());
    assert(t.wire() + Seq::<u8>::empty() =~= t.wire());
}

/// The first round comes after a fifth of a second, every later one after the
/// interval, whatever that is.
pub proof fn law_rounds_keep_the_interval(interval_ms: u32)
    ensures
        pause_ms(true, interval_ms) == 200,
        pause_ms(false, interval_ms) == interval_ms,
{
}

/// Writes go where their handle belongs.
pub proof fn law_writes_find_their_target(handle: u16, config: u16, bulk: u16)
    requires
        config != bulk,
    ensures
        target_of(handle, config, bulk) == WriteTarget::Config <==> handle == config,
        target_of(handle, config, bulk) == WriteTarget::Bulk <==> handle == bulk,
        target_of(handle, config, bulk) == WriteTarget::Other <==> handle != config && handle
            != bulk,
{
}

/// A central reads the last position of the board and the last one that came
/// in over the air, as the WIO sent them.
pub proof fn law_central_reads_the_positions(
    s: LinkStateView,
    payload: Seq<u8>,
    p: Position,
    read: Option<Position>,
    now_ms: u64,
    n: Notification,
)
    requires
        payload.len() >= 23,
        payload[0] == 0 ==> read == Some(p),
        sends(crate::esp::state::on_link_frame(s, 0x40, payload, read, now_ms).0, n),
    ensures
        payload[0] == 0 ==> n.position == p,
        payload[0] != 0 ==> (n.remote matches Some(r) && r@ == payload.take(23)),
{
}

} // verus!

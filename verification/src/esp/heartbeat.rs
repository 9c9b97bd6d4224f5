//! The heartbeat: pings the WIO so a dead or crashed link is visible on the
//! console instead of just silence.

use vstd::prelude::*;
use crate::esp::ack::AckStatus;

verus! {

/// Period between pings.
pub const HEARTBEAT_INTERVAL_S: u64 = 3;

/// How long to wait for the ping's ack before treating the link as down.
pub const HEARTBEAT_TIMEOUT_MS: u64 = 500;

/// What was last announced of the link.
#[derive(Clone, Copy, Debug, PartialEq, Eq)]
pub struct Heartbeat {
    announced: Option<bool>,
}

impl View for Heartbeat {
    type V = Option<bool>;

    closed spec fn view(&self) -> Option<bool> {
        self.announced
    }
}

/// What one ping showed.
#[derive(Clone, Copy, Debug, PartialEq, Eq, Structural)]
pub struct Beat {
    /// The WIO answered.
    pub up: bool,
    /// Say so on the console: the link came up or went down.
    pub announce: bool,
}

/// Whether it is time to ping.
pub open spec fn pings(transferring: bool, rail_on: bool) -> bool {
    !transferring && rail_on
}

/// What a ping's outcome makes of what was announced last.
pub open spec fn noted(last: Option<bool>, pinged: Result<u16, AckStatus>) -> (
    Option<bool>,
    Beat,
) {
    let up = pinged is Ok;
    (Some(up), Beat { up, announce: last != Some(up) })
}

impl Heartbeat {
    pub fn new() -> (h: Heartbeat)
        ensures
            h@ is None,
    {
        Heartbeat { announced: None }
    }

    /// Whether to ping now. A bulk transfer owns the link and itself proves
    /// that it is alive; without power a ping could only time out, and
    /// reporting that as a dead link would be misleading.
    pub fn should_ping(transferring: bool, rail_on: bool) -> (r: bool)
        ensures
            r == pings(transferring, rail_on),
    {
        !transferring && rail_on
    }

    /// Take a ping's outcome. Only changes are announced.
    pub fn note(&mut self, pinged: Result<u16, AckStatus>) -> (b: Beat)
        ensures
            (final(self)@, b) == noted(old(self)@, pinged),
    {
        let up: bool = match pinged {
            Ok(_) => true,
            Err(_) => false,
        };
        let announce: bool = match self.announced {
            Some(last) => last != up,
            None => true,
        };
        self.announced = Some(up);
        Beat { up, announce }
    }
}

/// The announcements that a run of pings makes, given the last one before.
pub open spec fn announcements(last: Option<bool>, ups: Seq<bool>) -> Seq<bool>
    decreases ups.len(),
{
    if ups.len() == 0 {
        Seq::empty()
    } else {
        let rest = announcements(Some(ups[0]), ups.drop_first());
        if last != Some(ups[0]) {
            seq![ups[0]] + rest
        } else {
            rest
        }
    }
}

/// Announcements alternate: the console never says the same thing twice in a
/// row, and the first one differs from what was said before.
pub proof fn law_announcements_alternate(last: Option<bool>, ups: Seq<bool>)
    ensures
        announcements(last, ups).len() > 0 ==> last != Some(announcements(last, ups)[0]),
        forall|i: int|
            0 <= i < announcements(last, ups).len() - 1 ==> #[trigger] announcements(last, ups)[i]
                != announcements(last, ups)[i + 1],
    decreases ups.len(),
{
    if ups.len() > 0 {
        let rest = announcements(Some(ups[0]), ups.drop_first());
        law_announcements_alternate(Some(ups[0]), ups.drop_first());
        if last != Some(ups[0]) {
            let all = seq![ups[0]] + rest;
            assert forall|i: int| 0 <= i < all.len() - 1 implies #[trigger] all[i] != all[i + 1] by {
                if i > 0 {
                    assert(rest[i - 1] != rest[i]);
                }
            }
        }
    }
}

/// The WIO counts as up exactly where it answered, whatever version it named
/// and however it failed; a change is announced, the first outcome too, and
/// nothing else. It is pinged exactly while it has power and no transfer runs.
pub proof fn law_changes_are_announced(
    last: Option<bool>,
    version: u16,
    status: AckStatus,
    transferring: bool,
    rail_on: bool,
)
    ensures
        noted(last, Ok(version)) == (
            Some(true),
            Beat { up: true, announce: last is None || last == Some(false) },
        ),
        noted(last, Err(status)) == (
            Some(false),
            Beat { up: false, announce: last is None || last == Some(true) },
        ),
        pings(transferring, rail_on) <==> rail_on && !transferring,
{
    match last {
        None => {},
        Some(up) => {
            assert(last == Some(true) <==> up);
            assert(last == Some(false) <==> !up);
        },
    }
}

} // verus!

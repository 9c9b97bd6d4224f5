//! Frames to the WIO, and requests that wait for its answer.

use vstd::prelude::*;
use crate::esp::ack::{Ack, AckStatus, AckView};
use crate::link::FrameBuf;

verus! {

/// Longest payload of a frame to the WIO: a sequence number and one data
/// chunk, with room to spare.
pub const OUT_MAX: usize = 200;

// -- Payloads -----------------------------------------------------------------

#[verifier::external_type_specification]
#[verifier::external_body]
#[verifier::reject_recursive_types(T)]
pub struct ExFixedVec<T, const N: usize>(heapless::Vec<T, N>);

/// The bytes of an outgoing payload.
pub uninterp spec fn payload_held(v: heapless::Vec<u8, OUT_MAX>) -> Seq<u8>;

/// A payload with a copy of `bytes`.
///
/// Calls `heapless::Vec::from_slice`, which gives a vector of the same bytes,
/// or an error where they are more than its capacity.
#[verifier::external_body]
pub(crate) fn payload_from(bytes: &[u8]) -> (r: Option<heapless::Vec<u8, OUT_MAX>>)
    ensures
        match r {
            Some(v) => bytes@.len() <= OUT_MAX && payload_held(v) == bytes@,
            None => bytes@.len() > OUT_MAX,
        },
{
    heapless::Vec::from_slice(bytes).ok()
}

/// The bytes of a payload.
///
/// Calls `heapless::Vec::as_slice`, which borrows what the vector holds.
#[verifier::external_body]
pub(crate) fn payload_bytes(v: &heapless::Vec<u8, OUT_MAX>) -> (b: &[u8])
    ensures
        b@ == payload_held(*v),
{
    v.as_slice()
}

/// A frame waiting to be sent to the WIO.
pub struct OutFrame {
    pub cmd: u8,
    pub payload: heapless::Vec<u8, OUT_MAX>,
}

impl OutFrame {
    /// What the frame carries.
    pub open spec fn carries(self) -> Seq<u8> {
        payload_held(self.payload)
    }

    /// A frame, unless the payload is too long for one.
    pub fn new(cmd: u8, payload: &[u8]) -> (f: Option<OutFrame>)
        ensures
            match f {
                Some(f) => payload@.len() <= OUT_MAX && f.cmd == cmd && f.carries() == payload@,
                None => payload@.len() > OUT_MAX,
            },
    {
        match payload_from(payload) {
            Some(payload) => Some(OutFrame { cmd, payload }),
            None => None,
        }
    }

    /// The frame on the wire.
    pub fn build<'a>(&self, out: &'a mut FrameBuf) -> (bytes: &'a [u8])
        ensures
            bytes@ == crate::link::frame_wire(
                self.cmd,
                crate::link::clip_payload(self.carries()),
            ),
    {
        out.build(self.cmd, payload_bytes(&self.payload))
    }
}

// -- Steps ---------------------------------------------------------------------

/// What follows a write at once.
#[derive(Debug, PartialEq, Eq)]
pub enum Step {
    /// Acknowledge it.
    Reply(Ack),
    /// Ask the WIO first: its answer decides the ack.
    Ask { cmd: u8, payload: Vec<u8>, timeout_ms: u64 },
}

/// What follows a write at once, as values.
#[verifier::ext_equal]
pub enum StepView {
    Reply(AckView),
    Ask { cmd: u8, payload: Seq<u8>, timeout_ms: u64 },
}

impl View for Step {
    type V = StepView;

    open spec fn view(&self) -> StepView {
        match *self {
            Step::Reply(a) => StepView::Reply(a@),
            Step::Ask { cmd, payload, timeout_ms } => StepView::Ask {
                cmd,
                payload: payload@,
                timeout_ms,
            },
        }
    }
}

// -- Requests -----------------------------------------------------------------

/// An ACK or NAK frame of the WIO: the command it answers, and the value or
/// the error code.
#[derive(Clone, Copy, Debug, PartialEq, Eq, Structural)]
pub struct Reply {
    pub is_ack: bool,
    pub cmd: u8,
    pub value: u16,
}

/// A request in flight.
#[derive(Clone, Copy, Debug, PartialEq, Eq, Structural)]
pub struct Request {
    pub cmd: u8,
    pub deadline_ms: u64,
}

/// What a reply means to a request for `cmd`: its end, or nothing where it
/// answers another command.
pub open spec fn judged(cmd: u8, r: Reply) -> Option<Result<u16, AckStatus>> {
    if r.cmd != cmd {
        None
    } else if r.is_ack {
        Some(Ok(r.value))
    } else {
        Some(Err(AckStatus::WioError))
    }
}

/// What the wait brought to a request for `cmd`.
pub open spec fn taken(cmd: u8, heard: Option<Reply>) -> Option<Result<u16, AckStatus>> {
    match heard {
        Some(reply) => judged(cmd, reply),
        None => Some(Err(AckStatus::WioTimeout)),
    }
}

impl Request {
    /// How long a request may still wait.
    pub open spec fn remaining(self, now_ms: u64) -> Result<u64, AckStatus> {
        if now_ms < self.deadline_ms {
            Ok((self.deadline_ms - now_ms) as u64)
        } else {
            Err(AckStatus::WioTimeout)
        }
    }

    /// Start a request: the frame to send, and how long to wait for its
    /// answer. A payload that fits no frame fails at once.
    pub fn begin(cmd: u8, payload: &[u8], now_ms: u64, timeout_ms: u64) -> (r: Result<
        (Request, OutFrame),
        AckStatus,
    >)
        requires
            now_ms + timeout_ms <= u64::MAX,
        ensures
            match r {
                Ok((q, f)) => {
                    &&& payload@.len() <= OUT_MAX
                    &&& q == (Request { cmd, deadline_ms: (now_ms + timeout_ms) as u64 })
                    &&& f.cmd == cmd
                    &&& f.carries() == payload@
                },
                Err(e) => payload@.len() > OUT_MAX && e == AckStatus::BadState,
            },
    {
        match OutFrame::new(cmd, payload) {
            Some(f) => Ok((Request { cmd, deadline_ms: now_ms + timeout_ms }, f)),
            None => Err(AckStatus::BadState),
        }
    }

    /// How long the request may still wait, or the timeout.
    pub fn left(&self, now_ms: u64) -> (r: Result<u64, AckStatus>)
        ensures
            r == self.remaining(now_ms),
    {
        if now_ms < self.deadline_ms {
            Ok(self.deadline_ms - now_ms)
        } else {
            Err(AckStatus::WioTimeout)
        }
    }

    /// Take what the wait brought: a reply, or nothing where it ran out.
    /// `None` = the reply answers something else, keep waiting.
    pub fn take(&self, heard: Option<Reply>) -> (r: Option<Result<u16, AckStatus>>)
        ensures
            r == taken(self.cmd, heard),
    {
        match heard {
            Some(reply) => {
                if reply.cmd != self.cmd {
                    None
                } else if reply.is_ack {
                    Some(Ok(reply.value))
                } else {
                    Some(Err(AckStatus::WioError))
                }
            },
            None => Some(Err(AckStatus::WioTimeout)),
        }
    }
}

// -- Laws ---------------------------------------------------------------------

/// What a request for `cmd` ends with once it has heard `replies`: the first
/// one that answers it decides.
pub open spec fn outcome(cmd: u8, replies: Seq<Reply>) -> Option<Result<u16, AckStatus>>
    decreases replies.len(),
{
    if replies.len() == 0 {
        None
    } else {
        match judged(cmd, replies[0]) {
            Some(r) => Some(r),
            None => outcome(cmd, replies.drop_first()),
        }
    }
}

/// Replies to other commands make no difference, wherever they fall.
pub proof fn law_other_replies_are_ignored(
    cmd: u8,
    before: Seq<Reply>,
    stray: Reply,
    after: Seq<Reply>,
)
    requires
        stray.cmd != cmd,
    ensures
        outcome(cmd, before + seq![stray] + after) == outcome(cmd, before + after),
    decreases before.len(),
{
    let s = before + seq![stray] + after;
    if before.len() == 0 {
        assert(s.drop_first() =~= before + after);
    } else {
        law_other_replies_are_ignored(cmd, before.drop_first(), stray, after);
        assert(s.drop_first() =~= before.drop_first() + seq![stray] + after);
        assert((before + after).drop_first() =~= before.drop_first() + after);
    }
}

/// A request ends with the first reply that answers its own command, whatever
/// other replies come before: an ack gives its value, a refusal the WIO's
/// error. With no such reply it goes on waiting.
pub proof fn law_first_own_reply_decides(cmd: u8, strays: Seq<Reply>, own: Reply, after: Seq<Reply>)
    requires
        forall|i: int| 0 <= i < strays.len() ==> (#[trigger] strays[i]).cmd != cmd,
        own.cmd == cmd,
    ensures
        outcome(cmd, strays) is None,
        own.is_ack ==> outcome(cmd, strays.push(own) + after) == Some(
            Ok::<u16, AckStatus>(own.value),
        ),
        !own.is_ack ==> outcome(cmd, strays.push(own) + after) == Some(
            Err::<u16, AckStatus>(AckStatus::WioError),
        ),
    decreases strays.len(),
{
    let s = strays.push(own) + after;
    if strays.len() > 0 {
        let rest = strays.drop_first();
        assert forall|i: int| 0 <= i < rest.len() implies (#[trigger] rest[i]).cmd != cmd by {
            assert(rest[i] == strays[i + 1]);
        }
        law_first_own_reply_decides(cmd, rest, own, after);
        assert(s.drop_first() =~= rest.push(own) + after);
        assert(strays[0].cmd != cmd);
    }
}

/// A request waits up to its deadline and no longer: what is left and the time
/// add up to it, and from then on it has timed out. So it has where nothing is
/// heard in time; a reply decides it only where it answers its command.
pub proof fn law_requests_time_out(q: Request, now_ms: u64, reply: Reply)
    ensures
        now_ms < q.deadline_ms ==> (q.remaining(now_ms) matches Ok(ms) && now_ms + ms
            == q.deadline_ms),
        now_ms >= q.deadline_ms ==> q.remaining(now_ms) == Err::<u64, AckStatus>(
            AckStatus::WioTimeout,
        ),
        taken(q.cmd, None) == Some(Err::<u16, AckStatus>(AckStatus::WioTimeout)),
        taken(q.cmd, Some(reply)) is None <==> reply.cmd != q.cmd,
        reply.cmd == q.cmd && reply.is_ack ==> taken(q.cmd, Some(reply)) == Some(
            Ok::<u16, AckStatus>(reply.value),
        ),
        reply.cmd == q.cmd && !reply.is_ack ==> taken(q.cmd, Some(reply)) == Some(
            Err::<u16, AckStatus>(AckStatus::WioError),
        ),
{
}

} // verus!

//! Broadcast LoRa node: originates frames, receives everyone else's, and
//! optionally repeats them.
//!
//! The network has no routing and no join procedure. Every node transmits
//! [`crate::lora::Frame`] broadcasts and listens continuously, so a
//! fleet of nothing but [`Role::Leaf`] nodes already works - each hears
//! whichever others are in direct range. A [`Role::Repeater`] is a node
//! placed to extend that range: it retransmits frames that still carry
//! hops, and is the only thing that has to be configured differently.
//!
//! [`Role::TxOnly`] and [`Role::RxOnly`] drop one half of that. Position
//! reporting is one-way, so a node that is only ever tracked can keep its
//! receiver off and a node that only collects can stay off the air - each
//! saving the power the unused half would cost.
//!
//! Two mechanisms keep repeating from turning into a broadcast storm:
//!
//! - **Deduplication.** A frame is identified by `(src, id)`. One that has
//!   been seen recently is neither delivered again nor repeated again, so a
//!   frame that reaches a node by two paths is handled once and a repeater
//!   pair cannot bounce a frame between themselves.
//! - **Jittered forwarding.** A repeat is queued with a random delay rather
//!   than sent from inside the receive path. Two repeaters that heard the
//!   same broadcast would otherwise transmit simultaneously and collide
//!   every single time; the delay also keeps the radio out of a blocking
//!   transmit while more of the same burst is still arriving.

use vstd::prelude::*;
use crate::lora::{Frame, FRAME_MAX, HEADER_LEN};
use crate::platform::{is_due, Random};
use crate::radio::PacketRadio;
use crate::radiocfg::{RadioConfig, Role};

verus! {

/// How long a `(src, id)` pair is remembered.
///
/// Ids wrap every 256 broadcasts, so this must stay well under the time
/// that takes at any usable beacon interval or a node's own sequence would
/// eventually collide with its remembered history and be dropped as a
/// duplicate.
pub const SEEN_TTL_MS: u32 = 60_000;

/// Recently seen frames tracked for deduplication. Sized for more nodes
/// than a shared 915 MHz channel can carry beacons for.
pub const SEEN_SLOTS: usize = 16;

/// Frames that can be waiting to be repeated at once. A burst deeper than
/// this means the channel is already saturated, so dropping is the honest
/// response.
pub const REPEAT_SLOTS: usize = 4;

/// A frame received from another node.
pub struct Received<'a> {
    /// Address of the node that originated it (not the repeater that may
    /// have forwarded it).
    pub src: u8,
    /// RSSI of the transmission actually heard, in dBm.
    pub rssi: i16,
    /// Application payload.
    pub payload: &'a [u8],
}

/// Transmit failures.
#[derive(Debug)]
pub enum TxError<E> {
    /// Payload is empty or longer than [`crate::lora::PAYLOAD_MAX`].
    Payload,
    /// This node's role does not transmit.
    Muted,
    /// The radio rejected the transmission.
    Radio(E),
}

// -- Duplicate history --------------------------------------------------------

/// A remembered frame: who sent it, under which id, and when it was last
/// heard.
pub struct Heard {
    pub src: u8,
    pub id: u8,
    pub at_ms: u32,
}

/// Whether a slot of the history still counts at `now`.
pub open spec fn fresh(slot: Option<Heard>, now: u32) -> bool {
    slot matches Some(h) && now.wrapping_sub(h.at_ms) < SEEN_TTL_MS
}

/// Whether a slot remembers the frame `(src, id)` at `now`.
pub open spec fn remembers(slot: Option<Heard>, src: u8, id: u8, now: u32) -> bool {
    fresh(slot, now) && slot->0.src == src && slot->0.id == id
}

/// Whether a history remembers the frame `(src, id)` at `now`.
pub open spec fn seen_before(seen: Seq<Option<Heard>>, src: u8, id: u8, now: u32) -> bool {
    exists|i: int| 0 <= i < seen.len() && remembers(#[trigger] seen[i], src, id, now)
}

/// `seen` with the slots below `n` that no longer count emptied.
pub open spec fn expired_below(seen: Seq<Option<Heard>>, n: int, now: u32) -> Seq<Option<Heard>> {
    Seq::new(
        seen.len(),
        |i: int|
            if i < n && !fresh(seen[i], now) {
                None
            } else {
                seen[i]
            },
    )
}

/// Whether slot `k` is the first empty one.
pub open spec fn first_free(seen: Seq<Option<Heard>>, k: int) -> bool {
    &&& 0 <= k < seen.len()
    &&& seen[k] is None
    &&& forall|i: int| 0 <= i < k ==> #[trigger] seen[i] is Some
}

/// Whether slot `k` is the first of those heard longest ago, where every slot
/// is taken.
pub open spec fn oldest(seen: Seq<Option<Heard>>, k: int, now: u32) -> bool {
    &&& 0 <= k < seen.len()
    &&& forall|i: int| 0 <= i < seen.len() ==> #[trigger] seen[i] is Some
    &&& forall|i: int|
        0 <= i < seen.len() ==> now.wrapping_sub((#[trigger] seen[i])->0.at_ms)
            <= now.wrapping_sub(seen[k]->0.at_ms)
    &&& forall|i: int|
        0 <= i < k ==> now.wrapping_sub((#[trigger] seen[i])->0.at_ms) < now.wrapping_sub(
            seen[k]->0.at_ms,
        )
}

/// Whether slot `k` is the one that a new entry takes.
pub open spec fn takes(seen: Seq<Option<Heard>>, k: int, now: u32) -> bool {
    first_free(seen, k) || oldest(seen, k, now)
}

/// What hearing the frame `(src, id)` at `now` makes of a history: where it
/// is remembered, its time is brought up to `now`; otherwise it takes a free
/// slot, or else the one heard longest ago.
pub open spec fn marked(
    before: Seq<Option<Heard>>,
    src: u8,
    id: u8,
    now: u32,
    after: Seq<Option<Heard>>,
) -> bool {
    let entry = Some(Heard { src, id, at_ms: now });
    if seen_before(before, src, id, now) {
        exists|k: int|
            {
                &&& 0 <= k < before.len()
                &&& remembers(#[trigger] before[k], src, id, now)
                &&& forall|i: int| 0 <= i < k ==> !remembers(#[trigger] before[i], src, id, now)
                &&& after == expired_below(before, k, now).update(k, entry)
            }
    } else {
        let kept = expired_below(before, before.len() as int, now);
        exists|k: int| #[trigger] takes(kept, k, now) && after == kept.update(k, entry)
    }
}

#[derive(Clone, Copy)]
struct Seen {
    src: u8,
    id: u8,
    at_ms: u32,
    valid: bool,
}

impl Seen {
    closed spec fn slot(self) -> Option<Heard> {
        if self.valid {
            Some(Heard { src: self.src, id: self.id, at_ms: self.at_ms })
        } else {
            None
        }
    }
}

#[derive(Clone, Copy)]
struct Repeat {
    buf: [u8; FRAME_MAX],
    len: usize,
    due_ms: u32,
    valid: bool,
}

/// A frame waiting to be repeated.
pub struct Waiting {
    pub frame: Seq<u8>,
    pub due_ms: u32,
}

impl Repeat {
    closed spec fn slot(self) -> Option<Waiting> {
        if self.valid {
            Some(Waiting { frame: self.buf@.take(self.len as int), due_ms: self.due_ms })
        } else {
            None
        }
    }
}

/// Whether a repeat slot is ready to transmit at `now`.
pub open spec fn ready(slot: Option<Waiting>, now: u32) -> bool {
    slot matches Some(w) && crate::platform::reached(now, w.due_ms)
}

/// Whether a repeat is ready to transmit at `now`.
pub open spec fn some_ready(repeats: Seq<Option<Waiting>>, now: u32) -> bool {
    exists|k: int| 0 <= k < repeats.len() && ready(#[trigger] repeats[k], now)
}

/// Whether slot `k` is the first one ready at `now`.
pub open spec fn first_ready(repeats: Seq<Option<Waiting>>, k: int, now: u32) -> bool {
    &&& 0 <= k < repeats.len()
    &&& ready(repeats[k], now)
    &&& forall|i: int| 0 <= i < k ==> !ready(#[trigger] repeats[i], now)
}

/// What queueing a frame makes of the repeat slots: it takes the first free
/// one, and is dropped where there is none - overwriting one already waiting
/// would starve whichever node's frame it belonged to.
pub open spec fn queued(
    before: Seq<Option<Waiting>>,
    entry: Waiting,
    after: Seq<Option<Waiting>>,
) -> bool {
    if forall|i: int| 0 <= i < before.len() ==> #[trigger] before[i] is Some {
        after == before
    } else {
        exists|k: int|
            {
                &&& 0 <= k < before.len()
                &&& #[trigger] before[k] is None
                &&& forall|i: int| 0 <= i < k ==> #[trigger] before[i] is Some
                &&& after == before.update(k, Some(entry))
            }
    }
}

/// What sending on a due repeat makes of a node: the first that is ready goes
/// out, `sent`, and leaves the queue; with none ready nothing happens.
pub open spec fn relayed(n: NodeView, now: u32, sent: Option<Seq<u8>>, after: NodeView) -> bool {
    match sent {
        Some(frame) => exists|k: int|
            {
                &&& #[trigger] first_ready(n.repeats, k, now)
                &&& frame == n.repeats[k]->0.frame
                &&& after == released(n, k)
            },
        None => !some_ready(n.repeats, now) && after == n,
    }
}

/// What a node knows apart from its radio.
#[verifier::ext_equal]
pub struct NodeView {
    pub address: u8,
    pub role: Role,
    pub max_hops: u8,
    pub jitter_ms: u32,
    /// Sequence number for the next frame this node originates.
    pub next_id: u8,
    pub seen: Seq<Option<Heard>>,
    pub repeats: Seq<Option<Waiting>>,
    pub last_rssi: i16,
    /// When the last packet was received, if any was.
    pub last_rx_ms: Option<u32>,
}

/// The longest wait before a repeat that any configuration leads to.
pub const JITTER_MAX_MS: u32 = 400_000;

impl NodeView {
    /// The history and the repeat queue have their size, and the wait for a
    /// repeat is one that a configuration leads to.
    pub open spec fn sized(self) -> bool {
        &&& self.seen.len() == SEEN_SLOTS
        &&& self.repeats.len() == REPEAT_SLOTS
        &&& self.jitter_ms <= JITTER_MAX_MS
    }
}

/// Whether a node puts a payload on the air: one that transmits, and a payload
/// that fits.
pub open spec fn originates(n: NodeView, payload: Seq<u8>) -> bool {
    n.role != Role::RxOnly && crate::lora::payload_fits(payload)
}

/// The frame that carries a payload of this node.
pub open spec fn own_frame(n: NodeView, payload: Seq<u8>) -> Seq<u8> {
    crate::lora::frame_bytes(n.address, n.next_id, n.max_hops, payload)
}

/// What broadcasting a payload makes of a node, whatever the radio says: the
/// id is used up where there was a frame to send.
pub open spec fn after_broadcast(n: NodeView, payload: Seq<u8>) -> NodeView {
    if originates(n, payload) {
        NodeView { next_id: n.next_id.wrapping_add(1), ..n }
    } else {
        n
    }
}

/// Whether a packet is a frame that this node has not handled yet: one that
/// is not its own echo and that its history does not remember.
///
/// Only a node that transmits can hear itself. One that does not has nothing
/// of its own on the air, so a frame carrying its address really did come
/// from someone else and dropping it would blind a receive-only base station
/// to exactly one node.
pub open spec fn is_news(n: NodeView, packet: Seq<u8>, now: u32) -> bool {
    &&& crate::lora::is_frame(packet)
    &&& !(n.role != Role::RxOnly && packet[0] == n.address)
    &&& !seen_before(n.seen, packet[0], packet[1], now)
}

/// Whether a packet is one that this node passes on: news with hops left, at a
/// repeater.
pub open spec fn forwards(n: NodeView, packet: Seq<u8>, now: u32) -> bool {
    is_news(n, packet, now) && n.role == Role::Repeater && packet[2] > 0
}

/// What receiving a packet makes of a node. `delay_ms` is the wait drawn for
/// a repeat.
pub open spec fn received(
    n: NodeView,
    packet: Seq<u8>,
    rssi: i16,
    now: u32,
    heard_ms: u32,
    delay_ms: u32,
    after: NodeView,
) -> bool {
    // Radio liveness is recorded for any packet, whether or not it turns out
    // to be one of ours.
    let noted = NodeView { last_rssi: rssi, last_rx_ms: Some(heard_ms), ..n };
    let own = n.role != Role::RxOnly && packet[0] == n.address;
    if !crate::lora::is_frame(packet) || own {
        after == noted
    } else {
        &&& after == (NodeView { seen: after.seen, repeats: after.repeats, ..noted })
        &&& marked(n.seen, packet[0], packet[1], now, after.seen)
        &&& if forwards(n, packet, now) && packet.len() <= FRAME_MAX {
            queued(
                n.repeats,
                Waiting {
                    frame: packet.update(2, (packet[2] - 1) as u8),
                    due_ms: now.wrapping_add(delay_ms),
                },
                after.repeats,
            )
        } else {
            after.repeats == n.repeats
        }
    }
}

/// What polling the radio makes of a node, and what it delivers (source, RSSI
/// and payload): nothing where the radio had no packet, and a packet exactly
/// where it is news.
pub open spec fn polled(
    n: NodeView,
    heard: Option<(Seq<u8>, i16)>,
    now: u32,
    heard_ms: u32,
    delay_ms: u32,
    delivered: Option<(u8, i16, Seq<u8>)>,
    after: NodeView,
) -> bool {
    match heard {
        None => delivered is None && after == n,
        Some((packet, rssi)) => {
            &&& received(n, packet, rssi, now, heard_ms, delay_ms, after)
            &&& delivered == if is_news(n, packet, now) {
                Some((packet[0], rssi, packet.skip(HEADER_LEN as int)))
            } else {
                None
            }
        },
    }
}

/// Source, RSSI and payload of what is delivered.
pub open spec fn delivery(r: Option<Received<'_>>) -> Option<(u8, i16, Seq<u8>)> {
    match r {
        Some(f) => Some((f.src, f.rssi, f.payload@)),
        None => None,
    }
}

/// The state of a node apart from its radio.
pub struct NodeState {
    address: u8,
    role: Role,
    max_hops: u8,
    jitter_ms: u32,
    next_id: u8,
    seen: [Seen; SEEN_SLOTS],
    repeats: [Repeat; REPEAT_SLOTS],
    last_rssi: i16,
    last_rx_ms: u32,
    have_rx: bool,
}

impl View for NodeState {
    type V = NodeView;

    closed spec fn view(&self) -> NodeView {
        NodeView {
            address: self.address,
            role: self.role,
            max_hops: self.max_hops,
            jitter_ms: self.jitter_ms,
            next_id: self.next_id,
            seen: seen_slots(self.seen@),
            repeats: repeat_slots(self.repeats@),
            last_rssi: self.last_rssi,
            last_rx_ms: if self.have_rx {
                Some(self.last_rx_ms)
            } else {
                None
            },
        }
    }
}

spec fn seen_slots(s: Seq<Seen>) -> Seq<Option<Heard>> {
    Seq::new(s.len(), |i: int| s[i].slot())
}

spec fn repeat_slots(s: Seq<Repeat>) -> Seq<Option<Waiting>> {
    Seq::new(s.len(), |i: int| s[i].slot())
}

/// A node just set up with `cfg`.
pub open spec fn fresh_node(cfg: RadioConfig) -> NodeView {
    NodeView {
        address: cfg.address,
        role: cfg.role,
        max_hops: cfg.max_hops,
        jitter_ms: (100 * crate::radiocfg::airtime_ratio(cfg.spreading_factor, cfg.bandwidth_khz))
            as u32,
        next_id: 0,
        seen: Seq::new(SEEN_SLOTS as nat, |i: int| None),
        repeats: Seq::new(REPEAT_SLOTS as nat, |i: int| None),
        last_rssi: 0,
        last_rx_ms: None,
    }
}

/// What a new configuration makes of a node.
pub open spec fn reconfigured(n: NodeView, cfg: RadioConfig) -> NodeView {
    NodeView {
        next_id: n.next_id,
        last_rssi: n.last_rssi,
        last_rx_ms: n.last_rx_ms,
        ..fresh_node(cfg)
    }
}

/// A node whose repeat slot `k` has been emptied.
pub open spec fn released(n: NodeView, k: int) -> NodeView {
    NodeView { repeats: n.repeats.update(k, None), ..n }
}

impl NodeState {
    pub open spec fn wf(&self) -> bool {
        self@.sized() && self.frames_fit()
    }

    /// The repeat slots hold frames that fit the air.
    pub closed spec fn frames_fit(&self) -> bool {
        forall|i: int|
            0 <= i < REPEAT_SLOTS ==> (#[trigger] self.repeats@[i]).valid ==> self.repeats@[i].len
                <= FRAME_MAX
    }

    pub fn new(cfg: &RadioConfig) -> (n: Self)
        requires
            cfg.bandwidth_khz > 0,
        ensures
            n.wf(),
            n@ == fresh_node(*cfg),
    {
        let n = NodeState {
            address: cfg.address,
            role: cfg.role,
            max_hops: cfg.max_hops,
            jitter_ms: cfg.repeat_jitter_ms(),
            next_id: 0,
            seen: [Seen { src: 0, id: 0, at_ms: 0, valid: false };SEEN_SLOTS],
            repeats: [Repeat { buf: [0u8;FRAME_MAX], len: 0, due_ms: 0, valid: false };
                REPEAT_SLOTS],
            last_rssi: 0,
            last_rx_ms: 0,
            have_rx: false,
        };
        assert(n@ =~= fresh_node(*cfg));
        n
    }

    /// Apply a new configuration.
    ///
    /// Both the duplicate history and any queued repeats are dropped: under
    /// a new address this node's own past frames would look like a remote
    /// node's, and forwarding a frame admitted under the old settings is not
    /// something the new ones asked for. The sequence number goes on.
    pub fn reconfigure(&mut self, cfg: &RadioConfig)
        requires
            cfg.bandwidth_khz > 0,
        ensures
            final(self).wf(),
            final(self)@ == reconfigured(old(self)@, *cfg),
    {
        self.address = cfg.address;
        self.role = cfg.role;
        self.max_hops = cfg.max_hops;
        self.jitter_ms = cfg.repeat_jitter_ms();
        self.seen = [Seen { src: 0, id: 0, at_ms: 0, valid: false };SEEN_SLOTS];
        let mut i: usize = 0;
        while i < REPEAT_SLOTS
            invariant
                i <= REPEAT_SLOTS,
                self.address == cfg.address,
                self.role == cfg.role,
                self.max_hops == cfg.max_hops,
                self.jitter_ms == 100 * crate::radiocfg::airtime_ratio(
                    cfg.spreading_factor,
                    cfg.bandwidth_khz,
                ),
                self.jitter_ms <= JITTER_MAX_MS,
                self.next_id == old(self).next_id,
                self.last_rssi == old(self).last_rssi,
                self.last_rx_ms == old(self).last_rx_ms,
                self.have_rx == old(self).have_rx,
                forall|j: int| 0 <= j < SEEN_SLOTS ==> !(#[trigger] self.seen@[j]).valid,
                forall|j: int| 0 <= j < i ==> !(#[trigger] self.repeats@[j]).valid,
            decreases REPEAT_SLOTS - i,
        {
            self.repeats[i].valid = false;
            i = i + 1;
        }
        assert(self@ =~= reconfigured(old(self)@, *cfg));
    }

    /// This node's address.
    pub fn address(&self) -> (a: u8)
        ensures
            a == self@.address,
    {
        self.address
    }

    /// This node's role.
    pub fn role(&self) -> (r: Role)
        ensures
            r == self@.role,
    {
        self.role
    }

    /// RSSI of the last packet received, in dBm.
    pub fn last_rssi(&self) -> (r: i16)
        ensures
            r == self@.last_rssi,
    {
        self.last_rssi
    }

    /// When the last packet was received, or `None` if nothing has been heard
    /// yet.
    pub fn last_rx_ms(&self) -> (r: Option<u32>)
        ensures
            r == self@.last_rx_ms,
    {
        if self.have_rx {
            Some(self.last_rx_ms)
        } else {
            None
        }
    }

    /// Record a `(src, id)` pair, returning whether it had already been
    /// seen inside [`SEEN_TTL_MS`].
    pub fn mark_seen(&mut self, src: u8, id: u8, now: u32) -> (again: bool)
        requires
            old(self).wf(),
        ensures
            final(self).wf(),
            again == seen_before(old(self)@.seen, src, id, now),
            marked(old(self)@.seen, src, id, now, final(self)@.seen),
            final(self)@ == (NodeView { seen: final(self)@.seen, ..old(self)@ }),
    {
        let ghost before = self@.seen;
        let mut free: Option<usize> = None;
        let mut oldest_slot: usize = 0;
        let mut i: usize = 0;
        assert(expired_below(before, 0, now) =~= before);
        while i < SEEN_SLOTS
            invariant
                i <= SEEN_SLOTS,
                before.len() == SEEN_SLOTS,
                before == old(self)@.seen,
                oldest_slot < SEEN_SLOTS,
                i == 0 ==> oldest_slot == 0,
                i > 0 ==> oldest_slot < i,
                old(self).wf(),
                self@ == (NodeView { seen: expired_below(before, i as int, now), ..old(self)@ }),
                self.jitter_ms == old(self).jitter_ms,
                self.repeats == old(self).repeats,
                forall|j: int|
                    0 <= j < i ==> !remembers(#[trigger] before[j], src, id, now),
                match free {
                    Some(k) => k < i && self@.seen[k as int] is None && forall|j: int|
                        0 <= j < k ==> #[trigger] self@.seen[j] is Some,
                    None => {
                        &&& forall|j: int| 0 <= j < i ==> #[trigger] self@.seen[j] is Some
                        &&& forall|j: int|
                            0 <= j < i ==> now.wrapping_sub((#[trigger] self@.seen[j])->0.at_ms)
                                <= now.wrapping_sub(self@.seen[oldest_slot as int]->0.at_ms)
                        &&& forall|j: int|
                            0 <= j < oldest_slot ==> now.wrapping_sub(
                                (#[trigger] self@.seen[j])->0.at_ms,
                            ) < now.wrapping_sub(self@.seen[oldest_slot as int]->0.at_ms)
                    },
                },
            decreases SEEN_SLOTS - i,
        {
            let ghost start = *self;
            let s: Seen = self.seen[i];
            assert(start@.seen[i as int] == before[i as int]);
            assert(before[i as int] == s.slot());
            if s.valid && now.wrapping_sub(s.at_ms) >= SEEN_TTL_MS {
                self.seen[i].valid = false;
            }
            proof {
                let want = expired_below(before, i + 1, now);
                assert forall|j: int| 0 <= j < SEEN_SLOTS implies self@.seen[j] == want[j] by {
                    assert(start@.seen[j] == expired_below(before, i as int, now)[j]);
                    if j != i {
                        assert(self.seen@[j] == start.seen@[j]);
                    }
                }
                assert(self@.seen =~= want);
                assert forall|j: int| 0 <= j < i implies #[trigger] self@.seen[j]
                    == start@.seen[j] by {
                    assert(want[j] == expired_below(before, i as int, now)[j]);
                }
                assert(self@.seen[i as int] == self.seen@[i as int].slot());
            }
            if !self.seen[i].valid {
                if free.is_none() {
                    free = Some(i);
                }
            } else {
                if s.src == src && s.id == id {
                    // Refresh, so a frame arriving repeatedly by several
                    // paths stays suppressed for a full TTL after the last
                    // copy rather than the first.
                    self.seen[i].at_ms = now;
                    proof {
                        let entry = Some(Heard { src, id, at_ms: now });
                        assert(remembers(before[i as int], src, id, now));
                        assert(seen_before(before, src, id, now));
                        assert(self@.seen =~= expired_below(before, i as int, now).update(
                            i as int,
                            entry,
                        ));
                        assert(marked(before, src, id, now, self@.seen));
                        assert(self@ =~= (NodeView { seen: self@.seen, ..old(self)@ }));
                    }
                    return true;
                }
                if now.wrapping_sub(s.at_ms) > now.wrapping_sub(self.seen[oldest_slot].at_ms) {
                    oldest_slot = i;
                }
            }
            i = i + 1;
        }
        let slot: usize = match free {
            Some(k) => k,
            None => oldest_slot,
        };
        let ghost kept = expired_below(before, SEEN_SLOTS as int, now);
        proof {
            assert(self@.seen == kept);
            if free is Some {
                assert(first_free(kept, slot as int));
            } else {
                assert(oldest(kept, slot as int, now));
            }
        }
        self.seen[slot] = Seen { src, id, at_ms: now, valid: true };
        proof {
            let entry = Some(Heard { src, id, at_ms: now });
            assert(self@.seen =~= kept.update(slot as int, entry));
            assert(!seen_before(before, src, id, now));
            assert(takes(kept, slot as int, now));
            assert(marked(before, src, id, now, self@.seen));
            assert(self@ =~= (NodeView { seen: self@.seen, ..old(self)@ }));
        }
        false
    }

    /// Queue the frame `packet` for forwarding with one hop spent, preferring
    /// a free slot and otherwise dropping it.
    fn queue_repeat(&mut self, packet: &[u8], due_ms: u32)
        requires
            old(self).wf(),
            crate::lora::is_frame(packet@),
            packet@.len() <= FRAME_MAX,
            packet@[2] > 0,
        ensures
            final(self).wf(),
            queued(
                old(self)@.repeats,
                Waiting { frame: packet@.update(2, (packet@[2] - 1) as u8), due_ms },
                final(self)@.repeats,
            ),
            final(self)@ == (NodeView { repeats: final(self)@.repeats, ..old(self)@ }),
    {
        let mut k: usize = 0;
        while k < REPEAT_SLOTS && self.repeats[k].valid
            invariant
                k <= REPEAT_SLOTS,
                forall|j: int| 0 <= j < k ==> (#[trigger] self.repeats@[j]).valid,
            decreases REPEAT_SLOTS - k,
        {
            k = k + 1;
        }
        let ghost before = self@;
        assert(forall|j: int| 0 <= j < k ==> #[trigger] before.repeats[j] is Some);
        if k == REPEAT_SLOTS {
            return ;
        }
        assert(before.repeats[k as int] is None);
        let mut buf: [u8; FRAME_MAX] = [0u8;FRAME_MAX];
        let mut i: usize = 0;
        while i < packet.len()
            invariant
                i <= packet@.len() <= FRAME_MAX,
                forall|j: int| 0 <= j < i ==> buf@[j] == packet@[j],
            decreases packet@.len() - i,
        {
            buf[i] = packet[i];
            i = i + 1;
        }
        buf[2] = packet[2] - 1;
        let ghost onward = packet@.update(2, (packet@[2] - 1) as u8);
        assert(buf@.take(packet@.len() as int) =~= onward);
        self.repeats[k] = Repeat { buf, len: packet.len(), due_ms, valid: true };
        assert(self@.repeats =~= before.repeats.update(
            k as int,
            Some(Waiting { frame: onward, due_ms }),
        ));
        assert(self@.seen =~= before.seen);
    }

    /// Take in a received packet, and say whether it is a frame to deliver.
    ///
    /// Duplicates, this node's own frames echoed back by a repeater, and
    /// packets that are not frames at all are not. When acting as a repeater,
    /// a frame with hops remaining is queued for forwarding here, after a
    /// random wait.
    pub fn accept(
        &mut self,
        packet: &[u8],
        rssi: i16,
        now: u32,
        heard_ms: u32,
        rng: &mut Random,
        cycles: u32,
    ) -> (deliver: bool)
        requires
            old(self).wf(),
        ensures
            final(self).wf(),
            deliver == is_news(old(self)@, packet@, now),
            received(
                old(self)@,
                packet@,
                rssi,
                now,
                heard_ms,
                crate::platform::pick(final(rng)@, 0, old(self)@.jitter_ms as i32) as u32,
                final(self)@,
            ),
            final(rng)@ == if forwards(old(self)@, packet@, now) {
                crate::platform::xorshift32(crate::platform::seeded(old(rng)@, cycles))
            } else {
                old(rng)@
            },
    {
        let ghost before = self@;
        self.last_rssi = rssi;
        self.last_rx_ms = heard_ms;
        self.have_rx = true;
        assert(self@ =~= (NodeView { last_rssi: rssi, last_rx_ms: Some(heard_ms), ..before }));
        let (src, id, hops_left) = match Frame::decode(packet) {
            None => {
                return false;
            },
            Some(f) => {
                assert(f.wire()[0] == f.src && f.wire()[1] == f.id && f.wire()[2] == f.hops_left);
                (f.src, f.id, f.hops_left)
            },
        };
        // Our own broadcast, forwarded back to us by a repeater.
        if self.role.transmits() && src == self.address {
            return false;
        }
        if self.mark_seen(src, id, now) {
            return false;
        }
        if self.role.repeats() && hops_left > 0 {
            let wait: i32 = rng.random(cycles, 0, self.jitter_ms as i32);
            if packet.len() <= FRAME_MAX {
                self.queue_repeat(packet, now.wrapping_add(wait as u32));
            }
        }
        true
    }

    /// Whether a queued repeat is ready to transmit.
    pub fn repeat_due(&self, now: u32) -> (r: bool)
        ensures
            r == some_ready(self@.repeats, now),
            r == exists|k: int| first_ready(self@.repeats, k, now),
    {
        match self.due_slot(now) {
            Some(k) => {
                assert(ready(self@.repeats[k as int], now));
                true
            },
            None => false,
        }
    }

    /// The first repeat slot that is ready.
    fn due_slot(&self, now: u32) -> (r: Option<usize>)
        ensures
            match r {
                Some(k) => k < REPEAT_SLOTS && first_ready(self@.repeats, k as int, now),
                None => !some_ready(self@.repeats, now),
            },
    {
        let mut k: usize = 0;
        while k < REPEAT_SLOTS
            invariant
                k <= REPEAT_SLOTS,
                forall|j: int| 0 <= j < k ==> !ready(#[trigger] self@.repeats[j], now),
            decreases REPEAT_SLOTS - k,
        {
            assert(self@.repeats[k as int] == self.repeats@[k as int].slot());
            if self.repeats[k].valid && is_due(now, self.repeats[k].due_ms) {
                return Some(k);
            }
            k = k + 1;
        }
        None
    }

    /// Take the first repeat that is ready out of the queue.
    pub fn take_due_repeat(&mut self, now: u32) -> (r: Option<Vec<u8>>)
        requires
            old(self).wf(),
        ensures
            final(self).wf(),
            relayed(
                old(self)@,
                now,
                match r {
                    Some(frame) => Some(frame@),
                    None => None,
                },
                final(self)@,
            ),
    {
        let ghost before = self@;
        match self.due_slot(now) {
            None => None,
            Some(k) => {
                let len: usize = self.repeats[k].len;
                let mut frame: Vec<u8> = Vec::new();
                let mut i: usize = 0;
                while i < len
                    invariant
                        i <= len <= FRAME_MAX,
                        k < REPEAT_SLOTS,
                        frame@ =~= self.repeats@[k as int].buf@.take(i as int),
                    decreases len - i,
                {
                    frame.push(self.repeats[k].buf[i]);
                    i = i + 1;
                }
                self.repeats[k].valid = false;
                proof {
                    assert(self@.repeats =~= before.repeats.update(k as int, None));
                    assert(self@.seen =~= before.seen);
                    assert(first_ready(before.repeats, k as int, now));
                }
                Some(frame)
            },
        }
    }

    /// The next frame that this node originates, with `payload` in it.
    ///
    /// The id is claimed even if the transmission fails afterwards, so a
    /// retry is a new frame rather than one receivers have already discarded.
    fn next_frame(&mut self, payload: &[u8]) -> (r: Option<([u8; FRAME_MAX], usize)>)
        requires
            old(self).wf(),
        ensures
            final(self).wf(),
            r is Some <==> crate::lora::payload_fits(payload@),
            r is None ==> final(self)@ == old(self)@,
            r matches Some((buf, n)) ==> {
                &&& n <= FRAME_MAX
                &&& buf@.take(n as int) == crate::lora::frame_bytes(
                    old(self)@.address,
                    old(self)@.next_id,
                    old(self)@.max_hops,
                    payload@,
                )
                &&& final(self)@ == (NodeView {
                    next_id: old(self)@.next_id.wrapping_add(1),
                    ..old(self)@
                })
            },
    {
        let ghost before = self@;
        let frame = Frame {
            src: self.address,
            id: self.next_id,
            hops_left: self.max_hops,
            payload,
        };
        let mut buf: [u8; FRAME_MAX] = [0u8;FRAME_MAX];
        match frame.encode(&mut buf) {
            None => None,
            Some(n) => {
                self.next_id = self.next_id.wrapping_add(1);
                assert(buf@.take(n as int) =~= frame.wire());
                assert(self@ =~= (NodeView { next_id: before.next_id.wrapping_add(1), ..before }));
                Some((buf, n))
            },
        }
    }
}

/// A node on the broadcast network, owning the radio it speaks through.
pub struct Node<R: PacketRadio> {
    radio: R,
    state: NodeState,
    rx_buf: [u8; FRAME_MAX],
}

impl<R: PacketRadio> View for Node<R> {
    type V = NodeView;

    closed spec fn view(&self) -> NodeView {
        self.state@
    }
}

impl<R: PacketRadio> Node<R> {
    pub open spec fn wf(&self) -> bool {
        self@.sized() && self.frames_fit()
    }

    /// The repeat slots hold frames that fit the air.
    pub closed spec fn frames_fit(&self) -> bool {
        self.state.frames_fit()
    }

    /// The packets that this node has handed to its radio, each with what
    /// came of it.
    pub open spec fn sent(&self) -> Seq<(Seq<u8>, Result<(), R::Error>)> {
        self.inner().sent()
    }

    /// What each poll of its radio has given this node.
    pub open spec fn polls(&self) -> Seq<Result<Option<(Seq<u8>, i16)>, R::Error>> {
        self.inner().polls()
    }

    /// The room for a packet that each poll of its radio has offered.
    pub open spec fn rooms(&self) -> Seq<nat> {
        self.inner().rooms()
    }

    /// The radio inside.
    pub closed spec fn inner(&self) -> R {
        self.radio
    }

    /// The buffer that packets are received into.
    pub closed spec fn buffered(&self) -> Seq<u8> {
        self.rx_buf@
    }

    /// Wrap an initialized radio.
    pub fn new(radio: R, cfg: &RadioConfig) -> (n: Self)
        requires
            cfg.bandwidth_khz > 0,
        ensures
            n.wf(),
            n@ == fresh_node(*cfg),
            n.inner() == radio,
    {
        Node { radio, state: NodeState::new(cfg), rx_buf: [0u8;FRAME_MAX] }
    }

    /// Apply a new configuration to the node itself. The caller re-inits the
    /// radio separately, since a config push does not always change one.
    pub fn reconfigure(&mut self, cfg: &RadioConfig)
        requires
            old(self).wf(),
            cfg.bandwidth_khz > 0,
        ensures
            final(self).wf(),
            final(self).inner() == old(self).inner(),
            final(self)@ == reconfigured(old(self)@, *cfg),
    {
        self.state.reconfigure(cfg);
    }

    /// This node's address.
    pub fn address(&self) -> (a: u8)
        ensures
            a == self@.address,
    {
        self.state.address()
    }

    /// This node's role. Ask it directly what the node does on the air:
    /// [`Role::transmits`], [`Role::receives`], [`Role::repeats`].
    pub fn role(&self) -> (r: Role)
        ensures
            r == self@.role,
    {
        self.state.role()
    }

    /// The radio, for diagnostics and power state.
    pub fn radio(&self) -> (r: &R)
        ensures
            *r == self.inner(),
    {
        &self.radio
    }

    /// The radio, mutably (re-init, standby, sleep).
    pub fn radio_mut(&mut self) -> (r: &mut R)
        requires
            old(self).wf(),
        ensures
            *r == old(self).inner(),
            final(self).wf(),
            final(self)@ == old(self)@,
            final(self).inner() == *final(r),
    {
        &mut self.radio
    }

    /// RSSI of the last packet received, in dBm.
    pub fn last_rssi(&self) -> (r: i16)
        ensures
            r == self@.last_rssi,
    {
        self.state.last_rssi()
    }

    /// When the last packet was received, or `None` if nothing has been heard
    /// yet.
    pub fn last_rx_ms(&self) -> (r: Option<u32>)
        ensures
            r == self@.last_rx_ms,
    {
        self.state.last_rx_ms()
    }

    /// Broadcast a payload as a new frame from this node.
    ///
    /// Fails with [`TxError::Muted`] on a receive-only node rather than
    /// reporting a success nothing heard.
    pub fn broadcast(&mut self, payload: &[u8]) -> (r: Result<(), TxError<R::Error>>)
        requires
            old(self).wf(),
        ensures
            final(self).wf(),
            final(self).polls() == old(self).polls(),
            final(self).rooms() == old(self).rooms(),
            final(self)@ == after_broadcast(old(self)@, payload@),
            if old(self)@.role == Role::RxOnly {
                &&& r == Err::<(), TxError<R::Error>>(TxError::Muted)
                &&& final(self).sent() == old(self).sent()
            } else if !crate::lora::payload_fits(payload@) {
                &&& r == Err::<(), TxError<R::Error>>(TxError::Payload)
                &&& final(self).sent() == old(self).sent()
            } else {
                let outcome = final(self).sent().last().1;
                &&& final(self).sent() == old(self).sent().push(
                    (own_frame(old(self)@, payload@), outcome),
                )
                &&& r == match outcome {
                    Ok(()) => Ok(()),
                    Err(e) => Err(TxError::Radio(e)),
                }
            },
    {
        if !self.state.role().transmits() {
            return Err(TxError::Muted);
        }
        let (buf, n) = match self.state.next_frame(payload) {
            None => {
                return Err(TxError::Payload);
            },
            Some(v) => v,
        };
        let packet = &buf[0..n];
        assert(packet@ =~= buf@.take(n as int));
        match self.radio.send(packet) {
            Ok(()) => Ok(()),
            Err(e) => Err(TxError::Radio(e)),
        }
    }

    /// Poll the radio for one packet, and give its length and RSSI. It stays
    /// for [`take_in`](Self::take_in).
    pub fn hear(&mut self) -> (r: Option<(usize, i16)>)
        requires
            old(self).wf(),
        ensures
            final(self).wf(),
            final(self)@ == old(self)@,
            final(self).sent() == old(self).sent(),
            final(self).polls() == old(self).polls().push(final(self).polls().last()),
            final(self).rooms() == old(self).rooms().push(FRAME_MAX as nat),
            match r {
                Some((len, rssi)) => {
                    &&& len <= FRAME_MAX
                    &&& final(self).polls().last() == Ok::<_, R::Error>(
                        Some((final(self).buffered().take(len as int), rssi)),
                    )
                },
                None => !(final(self).polls().last() matches Ok(Some(_))),
            },
    {
        match self.radio.poll_recv(&mut self.rx_buf) {
            Ok(Some((n, rssi))) => Some((n, rssi)),
            _ => None,
        }
    }

    /// Take in the packet that [`hear`](Self::hear) gave, and deliver the
    /// frame in it.
    ///
    /// Duplicates, this node's own frames echoed back by a repeater, and
    /// packets that are not frames at all give `None`. When acting as a
    /// repeater, a frame with hops remaining is queued for forwarding here;
    /// [`send_due_repeat`](Self::send_due_repeat) is what puts it on the air.
    ///
    /// `heard_ms` is the clock as the packet is taken in; `rng` and `cycles`
    /// feed the wait before a repeat.
    pub fn take_in(
        &mut self,
        len: usize,
        rssi: i16,
        now: u32,
        heard_ms: u32,
        rng: &mut Random,
        cycles: u32,
    ) -> (r: Option<Received<'_>>)
        requires
            old(self).wf(),
            len <= FRAME_MAX,
        ensures
            final(self).wf(),
            final(self).inner() == old(self).inner(),
            final(rng)@ == if forwards(old(self)@, old(self).buffered().take(len as int), now) {
                crate::platform::xorshift32(crate::platform::seeded(old(rng)@, cycles))
            } else {
                old(rng)@
            },
            polled(
                old(self)@,
                Some((old(self).buffered().take(len as int), rssi)),
                now,
                heard_ms,
                crate::platform::pick(final(rng)@, 0, old(self)@.jitter_ms as i32) as u32,
                delivery(r),
                final(self)@,
            ),
    {
        let packet = &self.rx_buf[0..len];
        let ghost bytes = packet@;
        assert(bytes =~= self.rx_buf@.take(len as int));
        let deliver: bool = self.state.accept(packet, rssi, now, heard_ms, rng, cycles);
        let ghost delay = crate::platform::pick(rng@, 0, old(self)@.jitter_ms as i32) as u32;
        assert(received(old(self)@, bytes, rssi, now, heard_ms, delay, self@));
        if !deliver {
            return None;
        }
        let f = Received {
            src: self.rx_buf[0],
            rssi,
            payload: &self.rx_buf[HEADER_LEN..len],
        };
        assert(f.payload@ =~= bytes.skip(HEADER_LEN as int));
        Some(f)
    }

    /// Poll the radio for one frame: [`hear`](Self::hear), and
    /// [`take_in`](Self::take_in) what it gave.
    pub fn poll(&mut self, now: u32, heard_ms: u32, rng: &mut Random, cycles: u32) -> (r: Option<
        Received<'_>,
    >)
        requires
            old(self).wf(),
        ensures
            final(self).wf(),
            final(self).sent() == old(self).sent(),
            final(self).polls() == old(self).polls().push(final(self).polls().last()),
            final(self).rooms() == old(self).rooms().push(FRAME_MAX as nat),
            final(self).polls().last() matches Ok(Some((packet, _))) ==> packet.len() <= FRAME_MAX,
            final(rng)@ == match final(self).polls().last() {
                Ok(Some((packet, _))) => if forwards(old(self)@, packet, now) {
                    crate::platform::xorshift32(crate::platform::seeded(old(rng)@, cycles))
                } else {
                    old(rng)@
                },
                _ => old(rng)@,
            },
            polled(
                old(self)@,
                match final(self).polls().last() {
                    Ok(heard) => heard,
                    Err(_) => None,
                },
                now,
                heard_ms,
                crate::platform::pick(final(rng)@, 0, old(self)@.jitter_ms as i32) as u32,
                delivery(r),
                final(self)@,
            ),
    {
        match self.hear() {
            Some((len, rssi)) => self.take_in(len, rssi, now, heard_ms, rng, cycles),
            None => None,
        }
    }

    /// Whether a queued repeat is ready to transmit.
    ///
    /// Split from [`send_due_repeat`](Self::send_due_repeat) so the caller
    /// can coordinate with the ESP's radio before the blocking transmit.
    pub fn repeat_due(&self, now: u32) -> (r: bool)
        ensures
            r == some_ready(self@.repeats, now),
            r == exists|k: int| first_ready(self@.repeats, k, now),
    {
        self.state.repeat_due(now)
    }

    /// Transmit one due repeat, returning whether anything went out.
    ///
    /// The slot is released before the transmit, so a radio error drops the
    /// frame rather than retrying it: by the time the radio is working
    /// again the position it carries is stale, and the node that sent it
    /// has almost certainly beaconed a newer one.
    pub fn send_due_repeat(&mut self, now: u32) -> (r: bool)
        requires
            old(self).wf(),
        ensures
            final(self).wf(),
            final(self).polls() == old(self).polls(),
            final(self).rooms() == old(self).rooms(),
            if some_ready(old(self)@.repeats, now) {
                let (frame, outcome) = final(self).sent().last();
                &&& relayed(old(self)@, now, Some(frame), final(self)@)
                &&& final(self).sent() == old(self).sent().push((frame, outcome))
                &&& r == (outcome is Ok)
            } else {
                &&& relayed(old(self)@, now, None, final(self)@)
                &&& !r
                &&& final(self).sent() == old(self).sent()
            },
    {
        match self.state.take_due_repeat(now) {
            None => false,
            Some(frame) => self.radio.send(&frame).is_ok(),
        }
    }
}

// -- Laws ---------------------------------------------------------------------

/// A frame that reaches a node by two paths is handled once: after one copy,
/// every later packet with the same originator and id is no news until the
/// history has forgotten the last copy - whatever hops it has left, so two
/// repeaters cannot bounce a frame between themselves.
pub proof fn law_duplicate_is_no_news(
    n: NodeView,
    packet: Seq<u8>,
    rssi: i16,
    now: u32,
    heard_ms: u32,
    delay_ms: u32,
    after: NodeView,
    copy: Seq<u8>,
    later: u32,
)
    requires
        received(n, packet, rssi, now, heard_ms, delay_ms, after),
        copy[0] == packet[0],
        copy[1] == packet[1],
        crate::lora::is_frame(packet),
        later.wrapping_sub(now) < SEEN_TTL_MS,
    ensures
        !is_news(after, copy, later),
{
    if !(n.role != Role::RxOnly && packet[0] == n.address) {
        let entry = Some(Heard { src: packet[0], id: packet[1], at_ms: now });
        let src = packet[0];
        let id = packet[1];
        if seen_before(n.seen, src, id, now) {
            let k = choose|k: int|
                {
                    &&& 0 <= k < n.seen.len()
                    &&& remembers(#[trigger] n.seen[k], src, id, now)
                    &&& forall|i: int| 0 <= i < k ==> !remembers(#[trigger] n.seen[i], src, id, now)
                    &&& after.seen == expired_below(n.seen, k, now).update(k, entry)
                };
            assert(after.seen[k] == entry);
            assert(remembers(after.seen[k], src, id, later));
        } else {
            let kept = expired_below(n.seen, n.seen.len() as int, now);
            let k = choose|k: int| #[trigger]
                takes(kept, k, now) && after.seen == kept.update(k, entry);
            assert(after.seen[k] == entry);
            assert(remembers(after.seen[k], src, id, later));
        }
    }
}

/// Hearing a frame makes a node forget no other frame while its history has
/// room.
pub proof fn law_history_keeps_others(
    before: Seq<Option<Heard>>,
    src: u8,
    id: u8,
    now: u32,
    after: Seq<Option<Heard>>,
    other_src: u8,
    other_id: u8,
)
    requires
        marked(before, src, id, now, after),
        other_src != src || other_id != id,
        seen_before(before, other_src, other_id, now),
        exists|i: int| 0 <= i < before.len() && !fresh(#[trigger] before[i], now),
    ensures
        seen_before(after, other_src, other_id, now),
{
    let m = choose|m: int|
        0 <= m < before.len() && remembers(#[trigger] before[m], other_src, other_id, now);
    let entry = Some(Heard { src, id, at_ms: now });
    if seen_before(before, src, id, now) {
        let k = choose|k: int|
            {
                &&& 0 <= k < before.len()
                &&& remembers(#[trigger] before[k], src, id, now)
                &&& forall|i: int| 0 <= i < k ==> !remembers(#[trigger] before[i], src, id, now)
                &&& after == expired_below(before, k, now).update(k, entry)
            };
        assert(m != k);
        assert(after[m] == before[m]);
        assert(remembers(after[m], other_src, other_id, now));
    } else {
        let kept = expired_below(before, before.len() as int, now);
        let k = choose|k: int| #[trigger] takes(kept, k, now) && after == kept.update(k, entry);
        let gap = choose|i: int| 0 <= i < before.len() && !fresh(#[trigger] before[i], now);
        assert(kept[gap] is None);
        assert(first_free(kept, k));
        assert(kept[m] == before[m]);
        assert(m != k);
        assert(after[m] == before[m]);
        assert(remembers(after[m], other_src, other_id, now));
    }
}

/// Where broadcasts of these payloads, one after the other, leave a node.
pub open spec fn after_broadcasts(n: NodeView, payloads: Seq<Seq<u8>>) -> NodeView
    decreases payloads.len(),
{
    if payloads.len() == 0 {
        n
    } else {
        after_broadcast(after_broadcasts(n, payloads.drop_last()), payloads.last())
    }
}

/// How many of these payloads fit a frame.
pub open spec fn fitting(payloads: Seq<Seq<u8>>) -> nat
    decreases payloads.len(),
{
    if payloads.len() == 0 {
        0
    } else {
        fitting(payloads.drop_last()) + if crate::lora::payload_fits(payloads.last()) {
            1nat
        } else {
            0
        }
    }
}

/// Ids count up from 0 and wrap at 256: on a new node that transmits, the
/// frame after `k` that went to the radio, taken or not, carries id `k`, so a
/// retry is a new frame.
pub proof fn law_ids_count_up(cfg: RadioConfig, earlier: Seq<Seq<u8>>, payload: Seq<u8>)
    requires
        cfg.role != Role::RxOnly,
        crate::lora::payload_fits(payload),
    ensures
        ({
            let n = after_broadcasts(fresh_node(cfg), earlier);
            &&& originates(n, payload)
            &&& own_frame(n, payload) == crate::lora::frame_bytes(
                cfg.address,
                (fitting(earlier) % 256) as u8,
                cfg.max_hops,
                payload,
            )
        }),
{
    lemma_node_after_broadcasts(cfg, earlier);
}

proof fn lemma_node_after_broadcasts(cfg: RadioConfig, payloads: Seq<Seq<u8>>)
    requires
        cfg.role != Role::RxOnly,
    ensures
        after_broadcasts(fresh_node(cfg), payloads) == (NodeView {
            next_id: (fitting(payloads) % 256) as u8,
            ..fresh_node(cfg)
        }),
    decreases payloads.len(),
{
    if payloads.len() > 0 {
        lemma_node_after_broadcasts(cfg, payloads.drop_last());
    }
}

/// What happens to a node.
pub enum NodeStep {
    /// The radio is polled and gives this.
    Poll {
        heard: Option<(Seq<u8>, i16)>,
        now: u32,
        heard_ms: u32,
        delay_ms: u32,
        delivered: Option<(u8, i16, Seq<u8>)>,
    },
    Broadcast { payload: Seq<u8> },
    SendDueRepeat { now: u32 },
    Reconfigure { cfg: RadioConfig },
}

/// Whether a step leads from one state of a node to another.
pub open spec fn steps_to(before: NodeView, step: NodeStep, after: NodeView) -> bool {
    match step {
        NodeStep::Poll { heard, now, heard_ms, delay_ms, delivered } => polled(
            before,
            heard,
            now,
            heard_ms,
            delay_ms,
            delivered,
            after,
        ),
        NodeStep::Broadcast { payload } => after == after_broadcast(before, payload),
        NodeStep::SendDueRepeat { now } => if exists|k: int| first_ready(before.repeats, k, now) {
            exists|k: int| #[trigger]
                first_ready(before.repeats, k, now) && after == released(before, k)
        } else {
            after == before
        },
        NodeStep::Reconfigure { cfg } => after == reconfigured(before, cfg),
    }
}

/// The time and RSSI of the packet that a step brings, frame or not.
pub open spec fn brings(step: NodeStep) -> Option<(u32, i16)> {
    match step {
        NodeStep::Poll { heard: Some((_, rssi)), heard_ms, .. } => Some((heard_ms, rssi)),
        _ => None,
    }
}

/// Time and RSSI of the last packet that a run of steps brings.
pub open spec fn last_brought(steps: Seq<NodeStep>) -> Option<(u32, i16)>
    decreases steps.len(),
{
    if steps.len() == 0 {
        None
    } else if brings(steps.last()) is Some {
        brings(steps.last())
    } else {
        last_brought(steps.drop_last())
    }
}

/// Over any run from a new node on, the time of the last reception is none
/// exactly where no poll has given a packet; otherwise it and the RSSI are
/// those of the last packet given, be it a frame to deliver or one to drop.
/// Nothing but a poll changes either.
pub proof fn law_last_reception_is_known(
    cfg: RadioConfig,
    steps: Seq<NodeStep>,
    states: Seq<NodeView>,
)
    requires
        states.len() == steps.len() + 1,
        states[0] == fresh_node(cfg),
        forall|i: int|
            0 <= i < steps.len() ==> steps_to(states[i], #[trigger] steps[i], states[i + 1]),
    ensures
        states.last().last_rx_ms is None <==> forall|i: int|
            0 <= i < steps.len() ==> brings(#[trigger] steps[i]) is None,
        match last_brought(steps) {
            None => states.last().last_rx_ms is None && states.last().last_rssi == 0,
            Some((heard_ms, rssi)) => {
                &&& states.last().last_rx_ms == Some(heard_ms)
                &&& states.last().last_rssi == rssi
            },
        },
    decreases steps.len(),
{
    if steps.len() > 0 {
        let last = steps.len() - 1;
        let earlier = steps.drop_last();
        let before = states.drop_last();
        assert forall|i: int| 0 <= i < earlier.len() implies steps_to(
            before[i],
            #[trigger] earlier[i],
            before[i + 1],
        ) by {
            assert(steps_to(states[i], steps[i], states[i + 1]));
        }
        law_last_reception_is_known(cfg, earlier, before);
        assert(steps_to(states[last], steps[last], states[last + 1]));
        assert(before.last() == states[last]);
        assert(forall|i: int| 0 <= i < earlier.len() ==> #[trigger] earlier[i] == steps[i]);
        if brings(steps[last]) is None {
            assert forall|i: int| 0 <= i < steps.len() && states.last().last_rx_ms is None implies
                brings(#[trigger] steps[i]) is None by {
                if i < last {
                    assert(brings(earlier[i]) is None);
                }
            }
            if states.last().last_rx_ms is Some {
                let i = choose|i: int|
                    0 <= i < earlier.len() && brings(#[trigger] earlier[i]) is Some;
                assert(brings(steps[i]) is Some);
            }
        }
    }
}

/// A packet that a poll delivers at a repeater, with hops left and a free slot
/// for it, waits there to be sent on with one hop less. It is ready after the
/// wait that was drawn, which is no longer than the jitter; where nothing else
/// waits it is what goes out.
pub proof fn law_frame_is_repeated(
    n: NodeView,
    packet: Seq<u8>,
    rssi: i16,
    now: u32,
    heard_ms: u32,
    word: u32,
    delivered: Option<(u8, i16, Seq<u8>)>,
    after: NodeView,
)
    requires
        n.sized(),
        packet.len() <= FRAME_MAX,
        polled(
            n,
            Some((packet, rssi)),
            now,
            heard_ms,
            crate::platform::pick(word, 0, n.jitter_ms as i32) as u32,
            delivered,
            after,
        ),
        delivered is Some,
        n.role == Role::Repeater,
        packet[2] > 0,
        exists|i: int| 0 <= i < n.repeats.len() && #[trigger] n.repeats[i] is None,
    ensures
        ({
            let delay = crate::platform::pick(word, 0, n.jitter_ms as i32);
            let waiting = Waiting {
                frame: crate::lora::frame_bytes(
                    packet[0],
                    packet[1],
                    (packet[2] - 1) as u8,
                    packet.skip(HEADER_LEN as int),
                ),
                due_ms: now.wrapping_add(delay as u32),
            };
            &&& 0 <= delay <= n.jitter_ms
            &&& exists|k: int|
                {
                    &&& 0 <= k < n.repeats.len()
                    &&& #[trigger] n.repeats[k] is None
                    &&& after.repeats == n.repeats.update(k, Some(waiting))
                    &&& forall|waited: u32|
                        waited < 0x8000_0000 ==> (ready(
                            after.repeats[k],
                            #[trigger] now.wrapping_add(waited),
                        ) <==> waited >= delay)
                    &&& nothing_waits(n.repeats) ==> first_ready(
                        after.repeats,
                        k,
                        now.wrapping_add(n.jitter_ms),
                    ) && forall|later: u32, j: int| #[trigger]
                        first_ready(after.repeats, j, later) ==> j == k
                }
            &&& some_ready(after.repeats, now.wrapping_add(n.jitter_ms))
        }),
{
    let delay = crate::platform::pick(word, 0, n.jitter_ms as i32);
    lemma_pick_bounds(word, n.jitter_ms as i32);
    let onward = packet.update(2, (packet[2] - 1) as u8);
    assert(onward =~= crate::lora::frame_bytes(
        packet[0],
        packet[1],
        (packet[2] - 1) as u8,
        packet.skip(HEADER_LEN as int),
    ));
    let waiting = Waiting { frame: onward, due_ms: now.wrapping_add(delay as u32) };
    assert(forwards(n, packet, now));
    assert(queued(n.repeats, waiting, after.repeats));
    let k = choose|k: int|
        {
            &&& 0 <= k < n.repeats.len()
            &&& #[trigger] n.repeats[k] is None
            &&& forall|i: int| 0 <= i < k ==> #[trigger] n.repeats[i] is Some
            &&& after.repeats == n.repeats.update(k, Some(waiting))
        };
    assert forall|waited: u32| waited < 0x8000_0000 implies (ready(
        after.repeats[k],
        #[trigger] now.wrapping_add(waited),
    ) <==> waited >= delay) by {
        crate::platform::law_deadline_comes_on_time(now, delay as u32, waited);
    }
    assert(ready(after.repeats[k], now.wrapping_add(n.jitter_ms)));
    if nothing_waits(n.repeats) {
        assert forall|later: u32, j: int| #[trigger]
            first_ready(after.repeats, j, later) implies j == k by {
            assert(after.repeats[j] is Some);
            if j != k {
                assert(after.repeats[j] == n.repeats[j]);
            }
        }
    }
    assert(n.repeats[k] is None);
}

/// Whether no repeat is queued.
pub open spec fn nothing_waits(repeats: Seq<Option<Waiting>>) -> bool {
    forall|i: int| 0 <= i < repeats.len() ==> #[trigger] repeats[i] is None
}

proof fn lemma_pick_bounds(word: u32, max: i32)
    requires
        max >= 0,
    ensures
        0 <= crate::platform::pick(word, 0, max) <= max,
{
    if max > 0 {
        let m = crate::platform::magnitude(word) as int;
        let d = max as int;
        assert(0 <= m % d < d) by (nonlinear_arith)
            requires
                d > 0,
        ;
    }
}

/// Nothing else is repeated: a poll that delivers nothing, a frame without
/// hops left, and a node that is no repeater leave the queue as it was, so
/// with nothing queued nothing becomes ready.
pub proof fn law_nothing_else_is_repeated(
    n: NodeView,
    heard: Option<(Seq<u8>, i16)>,
    now: u32,
    heard_ms: u32,
    delay_ms: u32,
    delivered: Option<(u8, i16, Seq<u8>)>,
    after: NodeView,
    later: u32,
)
    requires
        polled(n, heard, now, heard_ms, delay_ms, delivered, after),
        ({
            ||| delivered is None
            ||| n.role != Role::Repeater
            ||| heard matches Some((packet, _)) && packet[2] == 0
        }),
    ensures
        after.repeats == n.repeats,
        nothing_waits(n.repeats) ==> !some_ready(after.repeats, later),
{
}

/// A repeat spends a hop and changes nothing else of the frame, so a frame is
/// repeated at most as many times in a row as its originator allowed.
pub proof fn law_repeat_spends_a_hop(packet: Seq<u8>)
    requires
        crate::lora::is_frame(packet),
        packet[2] > 0,
    ensures
        ({
            let onward = packet.update(2, (packet[2] - 1) as u8);
            &&& crate::lora::is_frame(onward)
            &&& onward[0] == packet[0]
            &&& onward[1] == packet[1]
            &&& onward[2] < packet[2]
            &&& onward.skip(HEADER_LEN as int) == packet.skip(HEADER_LEN as int)
        }),
{
    let onward = packet.update(2, (packet[2] - 1) as u8);
    assert(onward.skip(HEADER_LEN as int) =~= packet.skip(HEADER_LEN as int));
}

/// What a poll delivers: a received packet that is longer than its three
/// header bytes, that carries a legal address, that is not this node's own
/// echo, and whose originator and id were not heard within the last minute -
/// whatever its id, its hops and its payload are. Nothing else is delivered,
/// and what is delivered is the packet's source, RSSI and payload.
pub proof fn law_frames_are_delivered(
    n: NodeView,
    packet: Seq<u8>,
    rssi: i16,
    now: u32,
    heard_ms: u32,
    delay_ms: u32,
    delivered: Option<(u8, i16, Seq<u8>)>,
    after: NodeView,
)
    requires
        polled(n, Some((packet, rssi)), now, heard_ms, delay_ms, delivered, after),
    ensures
        delivered is Some <==> {
            &&& packet.len() >= 4
            &&& packet[0] != 0
            &&& n.role == Role::RxOnly || packet[0] != n.address
            &&& forall|i: int|
                0 <= i < n.seen.len() ==> match #[trigger] n.seen[i] {
                    Some(h) => h.src != packet[0] || h.id != packet[1] || now.wrapping_sub(h.at_ms)
                        >= 60_000,
                    None => true,
                }
        },
        delivered matches Some((src, strength, payload)) ==> {
            &&& src == packet[0]
            &&& strength == rssi
            &&& payload == packet.skip(3)
        },
{
    let quiet = forall|i: int|
        0 <= i < n.seen.len() ==> match #[trigger] n.seen[i] {
            Some(h) => h.src != packet[0] || h.id != packet[1] || now.wrapping_sub(h.at_ms)
                >= 60_000,
            None => true,
        };
    if quiet {
        assert(!seen_before(n.seen, packet[0], packet[1], now)) by {
            if seen_before(n.seen, packet[0], packet[1], now) {
                let i = choose|i: int|
                    0 <= i < n.seen.len() && remembers(
                        #[trigger] n.seen[i],
                        packet[0],
                        packet[1],
                        now,
                    );
                assert(n.seen[i] is Some);
            }
        }
    } else {
        let i = choose|i: int|
            0 <= i < n.seen.len() && !(match #[trigger] n.seen[i] {
                Some(h) => h.src != packet[0] || h.id != packet[1] || now.wrapping_sub(h.at_ms)
                    >= 60_000,
                None => true,
            });
        assert(remembers(n.seen[i], packet[0], packet[1], now));
    }
}

/// A node that has heard nothing yet delivers every frame from another legal
/// address: any id, any hop count, any payload.
pub proof fn law_first_frame_is_delivered(
    cfg: RadioConfig,
    src: u8,
    id: u8,
    hops_left: u8,
    payload: Seq<u8>,
    rssi: i16,
    now: u32,
    heard_ms: u32,
    delay_ms: u32,
    delivered: Option<(u8, i16, Seq<u8>)>,
    after: NodeView,
)
    requires
        src != 0,
        src != cfg.address || cfg.role == Role::RxOnly,
        payload.len() > 0,
        polled(
            fresh_node(cfg),
            Some((seq![src, id, hops_left] + payload, rssi)),
            now,
            heard_ms,
            delay_ms,
            delivered,
            after,
        ),
    ensures
        delivered == Some((src, rssi, payload)),
{
    let packet = seq![src, id, hops_left] + payload;
    law_frames_are_delivered(
        fresh_node(cfg),
        packet,
        rssi,
        now,
        heard_ms,
        delay_ms,
        delivered,
        after,
    );
    assert(packet.skip(3) =~= payload);
}

/// A second copy of a frame within a minute of the first is not delivered,
/// whatever hops it has left and whatever it carries; a minute after the only
/// copy it is news again.
pub proof fn law_delivered_once(
    n: NodeView,
    packet: Seq<u8>,
    rssi: i16,
    now: u32,
    heard_ms: u32,
    delay_ms: u32,
    delivered: Option<(u8, i16, Seq<u8>)>,
    between: NodeView,
    copy: Seq<u8>,
    copy_rssi: i16,
    later: u32,
    copy_heard_ms: u32,
    copy_delay_ms: u32,
    copy_delivered: Option<(u8, i16, Seq<u8>)>,
    after: NodeView,
)
    requires
        polled(n, Some((packet, rssi)), now, heard_ms, delay_ms, delivered, between),
        polled(
            between,
            Some((copy, copy_rssi)),
            later,
            copy_heard_ms,
            copy_delay_ms,
            copy_delivered,
            after,
        ),
        delivered is Some,
        copy.len() >= 4,
        copy[0] == packet[0],
        copy[1] == packet[1],
    ensures
        later.wrapping_sub(now) < 60_000 ==> copy_delivered is None,
        later.wrapping_sub(now) >= 60_000 && (forall|i: int|
            0 <= i < n.seen.len() ==> #[trigger] n.seen[i] is None) ==> copy_delivered == Some(
            (copy[0], copy_rssi, copy.skip(3)),
        ),
{
    law_every_frame_is_remembered(n, packet, rssi, now, heard_ms, delay_ms, delivered, between);
    law_frames_are_delivered(
        between,
        copy,
        copy_rssi,
        later,
        copy_heard_ms,
        copy_delay_ms,
        copy_delivered,
        after,
    );
    let entry = Some(Heard { src: packet[0], id: packet[1], at_ms: now });
    let k = choose|k: int|
        0 <= k < between.seen.len() && #[trigger] between.seen[k] == entry && forall|i: int|
            0 <= i < n.seen.len() && i != k ==> (#[trigger] between.seen[i] == n.seen[i]
                || between.seen[i] is None);
    assert(between.seen[k] == entry);
}

/// Every frame of another node is remembered as heard now, duplicates too, so
/// one that keeps arriving stays suppressed. The other entries stay, but for
/// those older than a minute; a live one is given up only where every slot
/// is taken by one that is no older. Anything else leaves the history alone.
pub proof fn law_every_frame_is_remembered(
    n: NodeView,
    packet: Seq<u8>,
    rssi: i16,
    now: u32,
    heard_ms: u32,
    delay_ms: u32,
    delivered: Option<(u8, i16, Seq<u8>)>,
    after: NodeView,
)
    requires
        polled(n, Some((packet, rssi)), now, heard_ms, delay_ms, delivered, after),
    ensures
        ({
            let entry = Some(Heard { src: packet[0], id: packet[1], at_ms: now });
            let other = packet.len() >= 4 && packet[0] != 0 && (n.role == Role::RxOnly || packet[0]
                != n.address);
            &&& !other ==> after.seen == n.seen
            &&& other ==> after.seen.len() == n.seen.len()
            &&& other ==> exists|k: int|
                {
                    &&& 0 <= k < after.seen.len()
                    &&& #[trigger] after.seen[k] == entry
                    &&& forall|i: int|
                        0 <= i < n.seen.len() && i != k ==> (#[trigger] after.seen[i] == n.seen[i]
                            || after.seen[i] is None)
                    &&& forall|i: int|
                        0 <= i < n.seen.len() && i != k && after.seen[i] is None ==> match
                        #[trigger] n.seen[i] {
                            Some(h) => now.wrapping_sub(h.at_ms) >= 60_000,
                            None => true,
                        }
                    &&& n.seen[k] matches Some(h) ==> {
                        ||| now.wrapping_sub(h.at_ms) >= 60_000
                        ||| h.src == packet[0] && h.id == packet[1]
                        ||| forall|i: int|
                            0 <= i < n.seen.len() ==> (#[trigger] n.seen[i] matches Some(o)
                                && now.wrapping_sub(o.at_ms) <= now.wrapping_sub(h.at_ms))
                    }
                }
        }),
{
    let src = packet[0];
    let id = packet[1];
    let entry = Some(Heard { src, id, at_ms: now });
    let other = packet.len() >= 4 && packet[0] != 0 && (n.role == Role::RxOnly || packet[0]
        != n.address);
    if other {
        assert(marked(n.seen, src, id, now, after.seen));
        if seen_before(n.seen, src, id, now) {
            let k = choose|k: int|
                {
                    &&& 0 <= k < n.seen.len()
                    &&& remembers(#[trigger] n.seen[k], src, id, now)
                    &&& forall|i: int| 0 <= i < k ==> !remembers(#[trigger] n.seen[i], src, id, now)
                    &&& after.seen == expired_below(n.seen, k, now).update(k, entry)
                };
            assert(after.seen[k] == entry);
            assert(n.seen[k]->0.src == src);
        } else {
            let kept = expired_below(n.seen, n.seen.len() as int, now);
            let k = choose|k: int| #[trigger]
                takes(kept, k, now) && after.seen == kept.update(k, entry);
            assert(after.seen[k] == entry);
            if let Some(h) = n.seen[k] {
                if now.wrapping_sub(h.at_ms) < 60_000 {
                    assert(kept[k] == n.seen[k]);
                    assert(oldest(kept, k, now));
                    assert forall|i: int| 0 <= i < n.seen.len() implies (#[trigger] n.seen[i]
                        matches Some(o) && now.wrapping_sub(o.at_ms) <= now.wrapping_sub(
                        h.at_ms,
                    )) by {
                        assert(kept[i] is Some);
                        assert(kept[i] == n.seen[i]);
                    }
                }
            }
        }
    }
}

/// A poll notes when and how strongly the last packet came in, whether or not
/// it was delivered; who the node is and what id it sends next is not its
/// business. Without a packet nothing changes.
pub proof fn law_polls_leave_the_rest(
    n: NodeView,
    heard: Option<(Seq<u8>, i16)>,
    now: u32,
    heard_ms: u32,
    delay_ms: u32,
    delivered: Option<(u8, i16, Seq<u8>)>,
    after: NodeView,
)
    requires
        polled(n, heard, now, heard_ms, delay_ms, delivered, after),
    ensures
        heard is None ==> delivered is None && after == n,
        heard matches Some((_, rssi)) ==> after.last_rssi == rssi && after.last_rx_ms == Some(
            heard_ms,
        ),
        after.address == n.address,
        after.role == n.role,
        after.max_hops == n.max_hops,
        after.jitter_ms == n.jitter_ms,
        after.next_id == n.next_id,
        after.repeats.len() == n.repeats.len(),
        forall|i: int|
            0 <= i < n.repeats.len() && #[trigger] n.repeats[i] is Some ==> after.repeats[i]
                == n.repeats[i],
{
    if let Some((packet, _)) = heard {
        if forwards(n, packet, now) && packet.len() <= FRAME_MAX {
            let entry = Waiting {
                frame: packet.update(2, (packet[2] - 1) as u8),
                due_ms: now.wrapping_add(delay_ms),
            };
            assert(queued(n.repeats, entry, after.repeats));
        }
    }
}

/// What a node puts on the air for a payload of 1 to 32 bytes, unless it only
/// receives: its address, its next id and its hop limit, and the payload
/// behind them. The id goes up by one and wraps; nothing else changes.
pub proof fn law_broadcasts_carry_the_payload(n: NodeView, payload: Seq<u8>)
    ensures
        originates(n, payload) <==> n.role != Role::RxOnly && 1 <= payload.len() <= 32,
        own_frame(n, payload).len() == payload.len() + 3,
        own_frame(n, payload)[0] == n.address,
        own_frame(n, payload)[1] == n.next_id,
        own_frame(n, payload)[2] == n.max_hops,
        own_frame(n, payload).skip(3) == payload,
        ({
            let after = after_broadcast(n, payload);
            &&& after.next_id == if n.role != Role::RxOnly && 1 <= payload.len() <= 32 {
                (n.next_id as int + 1) % 256
            } else {
                n.next_id as int
            }
            &&& after == (NodeView { next_id: after.next_id, ..n })
        }),
{
    assert(own_frame(n, payload).skip(3) =~= payload);
}

/// A new node is who its configuration says, starts at id 0, and has heard
/// and queued nothing. Reconfigured, it forgets what it heard and queued -
/// under another address its own frames would look like another node's - but
/// not where its ids are and what the radio last received.
pub proof fn law_configured_node(n: NodeView, cfg: RadioConfig)
    ensures
        ({
            let new = fresh_node(cfg);
            let re = reconfigured(n, cfg);
            &&& new.address == cfg.address && re.address == cfg.address
            &&& new.role == cfg.role && re.role == cfg.role
            &&& new.max_hops == cfg.max_hops && re.max_hops == cfg.max_hops
            &&& new.jitter_ms == re.jitter_ms
            &&& cfg.valid() ==> new.jitter_ms == 100 * crate::radiocfg::airtime_ratio(
                cfg.spreading_factor,
                cfg.bandwidth_khz,
            )
            &&& new.seen.len() == 16 && re.seen.len() == 16
            &&& new.repeats.len() == 4 && re.repeats.len() == 4
            &&& forall|i: int|
                0 <= i < 16 ==> #[trigger] new.seen[i] is None && #[trigger] re.seen[i] is None
            &&& nothing_waits(new.repeats) && nothing_waits(re.repeats)
            &&& new.next_id == 0 && re.next_id == n.next_id
            &&& new.last_rx_ms is None && re.last_rx_ms == n.last_rx_ms
            &&& re.last_rssi == n.last_rssi
        }),
{
    if cfg.valid() {
        crate::radiocfg::law_airtime_in_figures(cfg);
    }
}

/// Where something waits whose time has come, a slot is first in line. Its
/// frame leaves the queue, and only it does.
pub proof fn law_due_repeats_leave_one_by_one(n: NodeView, k: int, now: u32)
    ensures
        (exists|i: int|
            0 <= i < n.repeats.len() && (#[trigger] n.repeats[i] matches Some(w)
                && now.wrapping_sub(w.due_ms) < 0x8000_0000)) ==> exists|j: int|
            first_ready(n.repeats, j, now),
        first_ready(n.repeats, k, now) ==> {
            let after = released(n, k);
            &&& n.repeats[k] matches Some(w) && now.wrapping_sub(w.due_ms) < 0x8000_0000
            &&& after.repeats.len() == n.repeats.len()
            &&& after.repeats[k] is None
            &&& forall|i: int|
                0 <= i < n.repeats.len() && i != k ==> #[trigger] after.repeats[i] == n.repeats[i]
            &&& after == (NodeView { repeats: after.repeats, ..n })
        },
{
    if exists|i: int|
        0 <= i < n.repeats.len() && (#[trigger] n.repeats[i] matches Some(w) && now.wrapping_sub(
            w.due_ms,
        ) < 0x8000_0000) {
        let i = choose|i: int|
            0 <= i < n.repeats.len() && (#[trigger] n.repeats[i] matches Some(w)
                && now.wrapping_sub(w.due_ms) < 0x8000_0000);
        assert(ready(n.repeats[i], now));
        lemma_first_ready(n.repeats, i, now);
    }
}

proof fn lemma_first_ready(repeats: Seq<Option<Waiting>>, i: int, now: u32)
    requires
        0 <= i < repeats.len(),
        ready(repeats[i], now),
    ensures
        exists|j: int| first_ready(repeats, j, now),
    decreases i,
{
    if exists|m: int| 0 <= m < i && ready(#[trigger] repeats[m], now) {
        let m = choose|m: int| 0 <= m < i && ready(#[trigger] repeats[m], now);
        lemma_first_ready(repeats, m, now);
    } else {
        assert(first_ready(repeats, i, now));
    }
}

/// Sending on takes a frame out of the queue exactly where one waits whose
/// time has come, and such a one; it goes out as it waited, and the others
/// stay. Nothing else of the node changes.
pub proof fn law_due_repeat_goes_out(
    n: NodeView,
    now: u32,
    sent: Option<Seq<u8>>,
    after: NodeView,
)
    requires
        relayed(n, now, sent, after),
    ensures
        sent is Some <==> exists|i: int|
            0 <= i < n.repeats.len() && (#[trigger] n.repeats[i] matches Some(w)
                && now.wrapping_sub(w.due_ms) < 0x8000_0000),
        sent is None ==> after == n,
        sent matches Some(frame) ==> exists|k: int|
            {
                &&& 0 <= k < n.repeats.len()
                &&& #[trigger] n.repeats[k] matches Some(w) && w.frame == frame && now.wrapping_sub(
                    w.due_ms,
                ) < 0x8000_0000
                &&& after == (NodeView { repeats: n.repeats.update(k, None), ..n })
            },
{
    if sent is Some {
        let frame = sent->0;
        let k = choose|k: int|
            {
                &&& #[trigger] first_ready(n.repeats, k, now)
                &&& frame == n.repeats[k]->0.frame
                &&& after == released(n, k)
            };
        assert(first_ready(n.repeats, k, now));
        assert(n.repeats[k] is Some);
    } else {
        assert forall|i: int| 0 <= i < n.repeats.len() implies !(#[trigger] n.repeats[i]
            matches Some(w) && now.wrapping_sub(w.due_ms) < 0x8000_0000) by {
            assert(!ready(n.repeats[i], now));
        }
    }
}

} // verus!

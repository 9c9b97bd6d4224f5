//! Bulk transfers: the radio TOML config or a WIO firmware image, written in
//! chunks by a phone over BLE or a host over USB and forwarded to the WIO.
//!
//! Each write is one op. Most ops ask the WIO something, so an op is handled
//! in two halves: [`Bulk::handle`] takes the write and says what to ask, and
//! [`Bulk::answered`] takes what came back and gives the ack. Only one
//! transfer can own the link to the WIO, whichever side it came from: the
//! claim is shared, the state of the transfer is not.

use vstd::prelude::*;
use crate::ble;
use crate::esp::ack::{applied, bare, Ack, AckStatus, AckView};
use crate::esp::led::Blink;
use crate::esp::requests::{OutFrame, Step, StepView};
use crate::link::cmd;
use crate::wire::{append, get_u16, get_u32, put_u16, put_u32};

verus! {

/// Largest config file a transfer may carry.
pub const TOML_MAX: u32 = 1024;

/// One transfer under way.
#[derive(Clone, Copy, Debug, PartialEq, Eq, Structural)]
pub struct BulkState {
    pub kind: u8,
    pub crc32: u32,
    pub total: u32,
    pub received: u32,
    pub next_seq: u16,
}

/// What the WIO was asked.
#[derive(Clone, Copy, Debug, PartialEq, Eq, Structural)]
pub enum Pending {
    /// To take a transfer.
    Begin { kind: u8, crc32: u32, total: u32 },
    /// To take a chunk of this many bytes.
    Data { len: u32 },
    /// To finish.
    End,
}

/// What else an op has the firmware do.
#[derive(Clone, Copy, Debug, PartialEq, Eq, Structural)]
pub enum BulkEffect {
    /// Tell the WIO whether this side is on the air, so it keeps the LoRa
    /// side quiet meanwhile.
    RadioBusy(bool),
    /// Tell the WIO to drop the transfer.
    FwAbort,
    /// Show a signal on the LED.
    Blink(Blink),
}

impl BulkEffect {
    /// The frame that an effect sends to the WIO, if it sends one.
    pub open spec fn sends(self) -> Option<(u8, Seq<u8>)> {
        match self {
            BulkEffect::RadioBusy(busy) => Some(
                (
                    cmd::RADIO_BUSY,
                    seq![
                        if busy {
                            1u8
                        } else {
                            0u8
                        },
                    ],
                ),
            ),
            BulkEffect::FwAbort => Some((cmd::FW_ABORT, Seq::empty())),
            BulkEffect::Blink(_) => None,
        }
    }

    /// The frame that an effect sends to the WIO, if it sends one.
    pub fn frame(&self) -> (f: Option<OutFrame>)
        ensures
            match f {
                Some(f) => self.sends() == Some((f.cmd, f.carries())),
                None => self.sends() is None,
            },
    {
        match self {
            BulkEffect::RadioBusy(busy) => {
                let payload: [u8; 1] = [
                    if *busy {
                        1
                    } else {
                        0
                    },
                ];
                assert(payload@ =~= seq![
                    if *busy {
                        1u8
                    } else {
                        0u8
                    },
                ]);
                OutFrame::new(cmd::RADIO_BUSY, payload.as_slice())
            },
            BulkEffect::FwAbort => {
                let payload: [u8; 0] = [];
                assert(payload@ =~= Seq::<u8>::empty());
                OutFrame::new(cmd::FW_ABORT, payload.as_slice())
            },
            BulkEffect::Blink(_) => None,
        }
    }
}

/// One side's transfer.
#[derive(Clone, Copy, Debug, PartialEq, Eq)]
pub struct Bulk {
    state: Option<BulkState>,
    pending: Option<Pending>,
}

/// One side's transfer, as values.
pub struct BulkView {
    pub state: Option<BulkState>,
    pub pending: Option<Pending>,
}

impl View for Bulk {
    type V = BulkView;

    closed spec fn view(&self) -> BulkView {
        BulkView { state: self.state, pending: self.pending }
    }
}

/// The claim on the link stands as long as this side has a transfer, and a
/// question to the WIO belongs to one.
pub open spec fn holds_claim(s: BulkView, claimed: bool) -> bool {
    &&& s.state is Some ==> claimed
    &&& match s.pending {
        None => true,
        Some(Pending::Begin { .. }) => claimed && s.state is None,
        Some(_) => s.state is Some,
    }
}

/// A refusal.
pub open spec fn nak(status: AckStatus) -> AckView {
    bare(ble::ACK_ID_BULK, status)
}

/// Everything that follows an op or an answer.
#[verifier::ext_equal]
pub struct Outcome<R> {
    pub state: BulkView,
    pub claimed: bool,
    pub effects: Seq<BulkEffect>,
    pub result: R,
}

/// An op answered at once, with nothing changed.
pub open spec fn refused(s: BulkView, claimed: bool, status: AckStatus) -> Outcome<StepView> {
    Outcome { state: s, claimed, effects: Seq::empty(), result: StepView::Reply(nak(status)) }
}

/// What closing a transfer has the firmware do.
pub open spec fn closing() -> Seq<BulkEffect> {
    seq![BulkEffect::RadioBusy(false), BulkEffect::Blink(Blink::Off)]
}

/// What dropping a transfer has the firmware do.
pub open spec fn dropping() -> Seq<BulkEffect> {
    seq![BulkEffect::FwAbort, BulkEffect::RadioBusy(false), BulkEffect::Blink(Blink::Off)]
}

/// `[OP_BEGIN, kind, total, crc32, version]`.
pub open spec fn on_begin(s: BulkView, claimed: bool, data: Seq<u8>) -> Outcome<StepView> {
    let kind = data[1];
    let total = crate::wire::u32_at(data, 2);
    let crc32 = crate::wire::u32_at(data, 6);
    let version = crate::wire::u16_at(data, 10);
    let asking = BulkView { pending: Some(Pending::Begin { kind, crc32, total }), ..s };
    if data.len() < 12 {
        refused(s, claimed, AckStatus::BadValue)
    } else if claimed {
        refused(s, claimed, AckStatus::BadState)
    } else if kind == ble::KIND_TOML && 0 < total <= TOML_MAX {
        Outcome {
            state: asking,
            claimed: true,
            effects: Seq::empty(),
            result: StepView::Ask {
                cmd: cmd::CFG_BEGIN,
                payload: crate::wire::u16_bytes(total as u16),
                timeout_ms: 1000,
            },
        }
    } else if kind == ble::KIND_FIRMWARE {
        Outcome {
            state: asking,
            claimed: true,
            effects: Seq::empty(),
            result: StepView::Ask {
                cmd: cmd::FW_BEGIN,
                payload: crate::wire::u32_bytes(total) + crate::wire::u32_bytes(crc32)
                    + crate::wire::u16_bytes(version),
                timeout_ms: 1000,
            },
        }
    } else {
        refused(s, claimed, AckStatus::BadValue)
    }
}

/// `[OP_DATA, seq, bytes...]`.
pub open spec fn on_data(s: BulkView, claimed: bool, data: Seq<u8>) -> Outcome<StepView> {
    let seq = crate::wire::u16_at(data, 1);
    match s.state {
        None => refused(s, claimed, AckStatus::BadState),
        Some(t) => if data.len() < 4 || data.len() - 3 > ble::BULK_DATA_MAX {
            refused(s, claimed, AckStatus::BadValue)
        } else if seq == t.next_seq {
            let firmware = t.kind == ble::KIND_FIRMWARE;
            Outcome {
                state: BulkView {
                    pending: Some(Pending::Data { len: (data.len() - 3) as u32 }),
                    ..s
                },
                claimed,
                effects: if firmware {
                    seq![BulkEffect::Blink(Blink::FwToggle), BulkEffect::RadioBusy(true)]
                } else {
                    seq![BulkEffect::RadioBusy(true)]
                },
                result: StepView::Ask {
                    cmd: if firmware {
                        cmd::FW_DATA
                    } else {
                        cmd::CFG_DATA
                    },
                    payload: crate::wire::u16_bytes(seq) + data.skip(3),
                    timeout_ms: 2000,
                },
            }
        } else if seq.wrapping_add(1) == t.next_seq {
            Outcome {
                state: s,
                claimed,
                effects: Seq::empty(),
                result: StepView::Reply(
                    applied(ble::ACK_ID_BULK, crate::wire::u32_bytes(t.next_seq as u32)),
                ),
            }
        } else {
            refused(s, claimed, AckStatus::BadValue)
        },
    }
}

/// `[OP_END]`.
pub open spec fn on_end(s: BulkView, claimed: bool) -> Outcome<StepView> {
    match s.state {
        None => refused(s, claimed, AckStatus::BadState),
        Some(t) => if t.received != t.total {
            Outcome {
                state: BulkView { state: None, ..s },
                claimed: false,
                effects: closing(),
                result: StepView::Reply(nak(AckStatus::BadValue)),
            }
        } else {
            Outcome {
                state: BulkView { pending: Some(Pending::End), ..s },
                claimed,
                effects: Seq::empty(),
                result: if t.kind == ble::KIND_FIRMWARE {
                    StepView::Ask { cmd: cmd::FW_END, payload: Seq::empty(), timeout_ms: 5000 }
                } else {
                    StepView::Ask {
                        cmd: cmd::CFG_END,
                        payload: crate::wire::u32_bytes(t.crc32),
                        timeout_ms: 2000,
                    }
                },
            }
        },
    }
}

/// A transfer whose writer vanished, or that it dropped; one that the WIO was
/// only asked to take counts too.
pub open spec fn on_abandon(s: BulkView, claimed: bool) -> Outcome<()> {
    if s.state is Some || s.pending is Some {
        Outcome {
            state: BulkView { state: None, pending: None },
            claimed: false,
            effects: dropping(),
            result: (),
        }
    } else {
        Outcome { state: s, claimed, effects: Seq::empty(), result: () }
    }
}

/// One write.
pub open spec fn on_op(s: BulkView, claimed: bool, data: Seq<u8>) -> Outcome<StepView> {
    if data.len() == 0 {
        refused(s, claimed, AckStatus::BadValue)
    } else if data[0] == ble::OP_BEGIN {
        on_begin(s, claimed, data)
    } else if data[0] == ble::OP_DATA {
        on_data(s, claimed, data)
    } else if data[0] == ble::OP_END {
        on_end(s, claimed)
    } else if data[0] == ble::OP_ABORT {
        let o = on_abandon(s, claimed);
        Outcome {
            state: o.state,
            claimed: o.claimed,
            effects: o.effects,
            result: StepView::Reply(applied(ble::ACK_ID_BULK, Seq::empty())),
        }
    } else {
        refused(s, claimed, AckStatus::BadValue)
    }
}

/// The WIO's answer to what an op asked.
pub open spec fn on_answer(
    s: BulkView,
    claimed: bool,
    answer: Result<u16, AckStatus>,
) -> Outcome<AckView> {
    let done = BulkView { pending: None, ..s };
    match s.pending {
        None => Outcome {
            state: s,
            claimed,
            effects: Seq::empty(),
            result: nak(AckStatus::BadState),
        },
        Some(Pending::Begin { kind, crc32, total }) => match answer {
            Ok(_) => Outcome {
                state: BulkView {
                    state: Some(BulkState { kind, crc32, total, received: 0, next_seq: 0 }),
                    pending: None,
                },
                claimed,
                effects: seq![BulkEffect::RadioBusy(true)],
                result: applied(ble::ACK_ID_BULK, crate::wire::u32_bytes(0)),
            },
            Err(status) => Outcome {
                state: done,
                claimed: false,
                effects: Seq::empty(),
                result: nak(status),
            },
        },
        Some(Pending::Data { len }) => match answer {
            Ok(next) => Outcome {
                state: BulkView {
                    state: match s.state {
                        Some(t) => Some(
                            BulkState { next_seq: next, received: (t.received + len) as u32, ..t },
                        ),
                        None => None,
                    },
                    pending: None,
                },
                claimed,
                effects: Seq::empty(),
                result: applied(ble::ACK_ID_BULK, crate::wire::u32_bytes(next as u32)),
            },
            Err(status) => Outcome {
                state: BulkView { state: None, pending: None },
                claimed: false,
                effects: closing(),
                result: nak(status),
            },
        },
        Some(Pending::End) => match answer {
            Ok(_) => Outcome {
                state: BulkView { state: None, pending: None },
                claimed: false,
                effects: closing(),
                result: applied(ble::ACK_ID_BULK, Seq::empty()),
            },
            // Keep the transfer and the busy flag so a retried end can reach
            // the WIO again; an idle writer is abandoned.
            Err(status) => Outcome {
                state: done,
                claimed,
                effects: Seq::empty(),
                result: nak(status),
            },
        },
    }
}

impl Bulk {
    pub fn new() -> (b: Bulk)
        ensures
            b@ == (BulkView { state: None, pending: None }),
    {
        Bulk { state: None, pending: None }
    }

    /// Whether a transfer is under way here.
    pub fn is_active(&self) -> (r: bool)
        ensures
            r == self@.state is Some,
    {
        self.state.is_some()
    }

    /// Bytes that the WIO has taken so far.
    pub fn received(&self) -> (n: u32)
        ensures
            n == (match self@.state {
                Some(t) => t.received,
                None => 0,
            }),
    {
        match self.state {
            Some(t) => t.received,
            None => 0,
        }
    }

    fn refuse(status: AckStatus) -> (r: Step)
        ensures
            r@ == StepView::Reply(nak(status)),
    {
        Step::Reply(Ack::bare(ble::ACK_ID_BULK, status))
    }

    fn close(&mut self, claimed: &mut bool, effects: &mut Vec<BulkEffect>)
        requires
            old(effects)@ == Seq::<BulkEffect>::empty(),
        ensures
            final(self)@ == (BulkView { state: None, pending: None }),
            !*final(claimed),
            final(effects)@ == closing(),
    {
        self.state = None;
        self.pending = None;
        *claimed = false;
        effects.push(BulkEffect::RadioBusy(false));
        effects.push(BulkEffect::Blink(Blink::Off));
        assert(effects@ =~= closing());
    }

    fn begin(&mut self, claimed: &mut bool, data: &[u8]) -> (r: Step)
        requires
            holds_claim(old(self)@, *old(claimed)),
            old(self)@.pending is None,
            data@.len() > 0,
        ensures
            ({
                let o = on_begin(old(self)@, *old(claimed), data@);
                &&& final(self)@ == o.state
                &&& *final(claimed) == o.claimed
                &&& o.effects == Seq::<BulkEffect>::empty()
                &&& r@ == o.result
            }),
    {
        if data.len() < 12 {
            return Self::refuse(AckStatus::BadValue);
        }
        let kind: u8 = data[1];
        let total: u32 = get_u32(data, 2);
        let crc32: u32 = get_u32(data, 6);
        let version: u16 = get_u16(data, 10);
        // Claim the WIO link: only one transfer (BLE or USB) at a time.
        if *claimed {
            return Self::refuse(AckStatus::BadState);
        }
        if kind == ble::KIND_TOML {
            if total == 0 || total > TOML_MAX {
                return Self::refuse(AckStatus::BadValue);
            }
            *claimed = true;
            self.pending = Some(Pending::Begin { kind, crc32, total });
            let size: [u8; 2] = put_u16(total as u16);
            let mut payload: Vec<u8> = Vec::new();
            append(&mut payload, size.as_slice());
            assert(payload@ =~= crate::wire::u16_bytes(total as u16));
            Step::Ask { cmd: cmd::CFG_BEGIN, payload, timeout_ms: 1000 }
        } else if kind == ble::KIND_FIRMWARE {
            *claimed = true;
            self.pending = Some(Pending::Begin { kind, crc32, total });
            let size: [u8; 4] = put_u32(total);
            let crc: [u8; 4] = put_u32(crc32);
            let ver: [u8; 2] = put_u16(version);
            let mut payload: Vec<u8> = Vec::new();
            append(&mut payload, size.as_slice());
            append(&mut payload, crc.as_slice());
            append(&mut payload, ver.as_slice());
            assert(payload@ =~= crate::wire::u32_bytes(total) + crate::wire::u32_bytes(crc32)
                + crate::wire::u16_bytes(version));
            Step::Ask { cmd: cmd::FW_BEGIN, payload, timeout_ms: 1000 }
        } else {
            Self::refuse(AckStatus::BadValue)
        }
    }

    fn data(&mut self, data: &[u8], effects: &mut Vec<BulkEffect>, claimed: Ghost<bool>) -> (r:
        Step)
        requires
            old(self)@.pending is None,
            data@.len() > 0,
            old(effects)@ == Seq::<BulkEffect>::empty(),
        ensures
            ({
                let o = on_data(old(self)@, claimed@, data@);
                &&& final(self)@ == o.state
                &&& claimed@ == o.claimed
                &&& final(effects)@ == o.effects
                &&& r@ == o.result
            }),
    {
        let ghost goal = on_data(self@, claimed@, data@);
        match self.state {
            None => Self::refuse(AckStatus::BadState),
            Some(t) => {
                if data.len() < 4 || data.len() - 3 > ble::BULK_DATA_MAX {
                    return Self::refuse(AckStatus::BadValue);
                }
                let seq: u16 = get_u16(data, 1);
                if seq != t.next_seq {
                    // Duplicate after a lost ack: re-ack; anything else is
                    // fatal.
                    if seq.wrapping_add(1) == t.next_seq {
                        let next: [u8; 4] = put_u32(t.next_seq as u32);
                        return Step::Reply(Ack::applied(ble::ACK_ID_BULK, next.as_slice()));
                    }
                    return Self::refuse(AckStatus::BadValue);
                }
                let link_cmd: u8 = if t.kind == ble::KIND_FIRMWARE {
                    effects.push(BulkEffect::Blink(Blink::FwToggle));
                    cmd::FW_DATA
                } else {
                    cmd::CFG_DATA
                };
                // Refresh the busy flag so it cannot expire mid-transfer.
                effects.push(BulkEffect::RadioBusy(true));
                assert(effects@ =~= goal.effects);
                let head: [u8; 2] = put_u16(seq);
                let chunk: &[u8] = &data[3..data.len()];
                let mut payload: Vec<u8> = Vec::new();
                append(&mut payload, head.as_slice());
                append(&mut payload, chunk);
                assert(payload@ =~= crate::wire::u16_bytes(seq) + data@.skip(3));
                self.pending = Some(Pending::Data { len: chunk.len() as u32 });
                Step::Ask { cmd: link_cmd, payload, timeout_ms: 2000 }
            },
        }
    }

    fn end(&mut self, claimed: &mut bool, effects: &mut Vec<BulkEffect>) -> (r: Step)
        requires
            old(self)@.pending is None,
            old(effects)@ == Seq::<BulkEffect>::empty(),
        ensures
            ({
                let o = on_end(old(self)@, *old(claimed));
                &&& final(self)@ == o.state
                &&& *final(claimed) == o.claimed
                &&& final(effects)@ == o.effects
                &&& r@ == o.result
            }),
    {
        match self.state {
            None => Self::refuse(AckStatus::BadState),
            Some(t) => {
                if t.received != t.total {
                    self.close(claimed, effects);
                    return Self::refuse(AckStatus::BadValue);
                }
                // Inspect without consuming: a WIO timeout must leave the
                // state intact so the writer can retry the end.
                self.pending = Some(Pending::End);
                let mut payload: Vec<u8> = Vec::new();
                if t.kind == ble::KIND_FIRMWARE {
                    // The CRC check over the whole image takes a moment.
                    Step::Ask { cmd: cmd::FW_END, payload, timeout_ms: 5000 }
                } else {
                    let crc: [u8; 4] = put_u32(t.crc32);
                    append(&mut payload, crc.as_slice());
                    assert(payload@ =~= crate::wire::u32_bytes(t.crc32));
                    Step::Ask { cmd: cmd::CFG_END, payload, timeout_ms: 2000 }
                }
            },
        }
    }

    /// Drop a transfer whose writer vanished: the BLE session ended, or the
    /// USB host went quiet. A dangling transfer must not leave the WIO
    /// waiting, the busy flag set or the link claimed.
    pub fn abandon(&mut self, claimed: &mut bool) -> (effects: Vec<BulkEffect>)
        requires
            holds_claim(old(self)@, *old(claimed)),
        ensures
            ({
                let o = on_abandon(old(self)@, *old(claimed));
                &&& final(self)@ == o.state
                &&& *final(claimed) == o.claimed
                &&& effects@ == o.effects
            }),
            holds_claim(final(self)@, *final(claimed)),
    {
        let mut effects: Vec<BulkEffect> = Vec::new();
        if self.state.is_some() || self.pending.is_some() {
            self.state = None;
            self.pending = None;
            *claimed = false;
            effects.push(BulkEffect::FwAbort);
            effects.push(BulkEffect::RadioBusy(false));
            effects.push(BulkEffect::Blink(Blink::Off));
            assert(effects@ =~= dropping());
        }
        effects
    }

    /// Handle one bulk write. `claimed` says whether a transfer, of this side
    /// or the other, owns the link.
    pub fn handle(&mut self, claimed: &mut bool, data: &[u8]) -> (r: (Vec<BulkEffect>, Step))
        requires
            holds_claim(old(self)@, *old(claimed)),
            old(self)@.pending is None,
        ensures
            ({
                let o = on_op(old(self)@, *old(claimed), data@);
                &&& final(self)@ == o.state
                &&& *final(claimed) == o.claimed
                &&& r.0@ == o.effects
                &&& r.1@ == o.result
            }),
            holds_claim(final(self)@, *final(claimed)),
            r.1 is Ask <==> final(self)@.pending is Some,
    {
        let mut effects: Vec<BulkEffect> = Vec::new();
        if data.len() == 0 {
            return (effects, Self::refuse(AckStatus::BadValue));
        }
        let op: u8 = data[0];
        if op == ble::OP_BEGIN {
            let r = self.begin(claimed, data);
            (effects, r)
        } else if op == ble::OP_DATA {
            let r = self.data(data, &mut effects, Ghost(*claimed));
            (effects, r)
        } else if op == ble::OP_END {
            let r = self.end(claimed, &mut effects);
            (effects, r)
        } else if op == ble::OP_ABORT {
            let effects = self.abandon(claimed);
            let nothing: [u8; 0] = [];
            assert(nothing@ =~= Seq::<u8>::empty());
            (effects, Step::Reply(Ack::applied(ble::ACK_ID_BULK, nothing.as_slice())))
        } else {
            (effects, Self::refuse(AckStatus::BadValue))
        }
    }

    /// Take the WIO's answer to what [`Bulk::handle`] asked, and give the ack
    /// for the write.
    pub fn answered(&mut self, claimed: &mut bool, answer: Result<u16, AckStatus>) -> (r: (
        Vec<BulkEffect>,
        Ack,
    ))
        requires
            holds_claim(old(self)@, *old(claimed)),
            match (old(self)@.state, old(self)@.pending) {
                (Some(t), Some(Pending::Data { len })) => t.received + len <= u32::MAX,
                _ => true,
            },
        ensures
            ({
                let o = on_answer(old(self)@, *old(claimed), answer);
                &&& final(self)@ == o.state
                &&& *final(claimed) == o.claimed
                &&& r.0@ == o.effects
                &&& r.1@ == o.result
            }),
            holds_claim(final(self)@, *final(claimed)),
            final(self)@.pending is None,
    {
        let mut effects: Vec<BulkEffect> = Vec::new();
        let nothing: [u8; 0] = [];
        assert(nothing@ =~= Seq::<u8>::empty());
        let ghost goal = on_answer(self@, *claimed, answer);
        let pending = self.pending;
        self.pending = None;
        match pending {
            None => (effects, Ack::bare(ble::ACK_ID_BULK, AckStatus::BadState)),
            Some(Pending::Begin { kind, crc32, total }) => match answer {
                Ok(_) => {
                    // Keep the LoRa side quiet during the transfer.
                    effects.push(BulkEffect::RadioBusy(true));
                    assert(effects@ =~= goal.effects);
                    self.state = Some(
                        BulkState { kind, crc32, total, received: 0, next_seq: 0 },
                    );
                    let next: [u8; 4] = put_u32(0);
                    (effects, Ack::applied(ble::ACK_ID_BULK, next.as_slice()))
                },
                Err(status) => {
                    *claimed = false;
                    (effects, Ack::bare(ble::ACK_ID_BULK, status))
                },
            },
            Some(Pending::Data { len }) => match answer {
                Ok(next) => {
                    if let Some(t) = self.state {
                        self.state = Some(
                            BulkState { next_seq: next, received: t.received + len, ..t },
                        );
                    }
                    let next: [u8; 4] = put_u32(next as u32);
                    (effects, Ack::applied(ble::ACK_ID_BULK, next.as_slice()))
                },
                Err(status) => {
                    self.close(claimed, &mut effects);
                    (effects, Ack::bare(ble::ACK_ID_BULK, status))
                },
            },
            Some(Pending::End) => match answer {
                Ok(_) => {
                    self.close(claimed, &mut effects);
                    (effects, Ack::applied(ble::ACK_ID_BULK, nothing.as_slice()))
                },
                Err(status) => (effects, Ack::bare(ble::ACK_ID_BULK, status)),
            },
        }
    }
}

// -- Laws ---------------------------------------------------------------------

/// The claim follows the transfer through every write, answer and loss of
/// the writer: a side with a transfer holds it.
pub proof fn law_claim_follows_transfer(
    s: BulkView,
    claimed: bool,
    data: Seq<u8>,
    answer: Result<u16, AckStatus>,
)
    requires
        holds_claim(s, claimed),
    ensures
        s.pending is None ==> holds_claim(
            on_op(s, claimed, data).state,
            on_op(s, claimed, data).claimed,
        ),
        holds_claim(
            on_answer(s, claimed, answer).state,
            on_answer(s, claimed, answer).claimed,
        ),
        holds_claim(on_abandon(s, claimed).state, on_abandon(s, claimed).claimed),
{
}

/// While the link is claimed no second transfer starts: the attempt is
/// refused and changes nothing.
pub proof fn law_one_transfer_at_a_time(s: BulkView, data: Seq<u8>)
    requires
        data.len() >= 12,
        data[0] == ble::OP_BEGIN,
    ensures
        on_op(s, true, data) == refused(s, true, AckStatus::BadState),
{
}

/// A side without a transfer cannot end, feed or drop the other side's: none
/// of its writes releases the claim or sends the WIO anything.
pub proof fn law_other_transfer_is_left_alone(s: BulkView, data: Seq<u8>)
    requires
        s.state is None,
        s.pending is None,
    ensures
        on_op(s, true, data).claimed,
        on_op(s, true, data).state == s,
        on_op(s, true, data).effects == Seq::<BulkEffect>::empty(),
        on_op(s, true, data).result is Reply,
        on_abandon(s, true).claimed,
        on_abandon(s, true).effects == Seq::<BulkEffect>::empty(),
{
}

/// The WIO is asked to finish only once it has taken every byte announced.
pub proof fn law_end_needs_every_byte(s: BulkView, claimed: bool, data: Seq<u8>)
    requires
        s.state matches Some(t) ==> t.received != t.total,
    ensures
        on_op(s, claimed, data).result matches StepView::Ask { cmd, .. } ==> cmd != cmd::FW_END
            && cmd != cmd::CFG_END,
{
}

/// A chunk sent again after its ack was lost is acknowledged with the number
/// that comes next, and the WIO hears nothing of it.
pub proof fn law_repeated_chunk_is_only_acked(s: BulkView, claimed: bool, data: Seq<u8>)
    requires
        4 <= data.len() <= 3 + ble::BULK_DATA_MAX,
        data[0] == ble::OP_DATA,
        s.state matches Some(t) && crate::wire::u16_at(data, 1).wrapping_add(1) == t.next_seq,
    ensures
        on_op(s, claimed, data) == (Outcome {
            state: s,
            claimed,
            effects: Seq::empty(),
            result: StepView::Reply(
                applied(
                    ble::ACK_ID_BULK,
                    crate::wire::u32_bytes(s.state.unwrap().next_seq as u32),
                ),
            ),
        }),
{
}

/// An end that the WIO did not confirm can be tried again: the transfer
/// stands, and the next end asks the same.
pub proof fn law_end_can_be_retried(
    s: BulkView,
    claimed: bool,
    data: Seq<u8>,
    status: AckStatus,
)
    requires
        s.pending is None,
        data.len() > 0,
        data[0] == ble::OP_END,
        s.state matches Some(t) && t.received == t.total,
    ensures
        ({
            let asked = on_op(s, claimed, data);
            let failed = on_answer(asked.state, asked.claimed, Err(status));
            &&& failed.state == s
            &&& failed.result == nak(status)
            &&& on_op(failed.state, failed.claimed, data) == asked
        }),
{
}

/// Once a transfer is over, however it ended, the link is free, and a WIO that
/// had taken it has been told that this side is quiet.
pub proof fn law_transfer_over_frees_the_link(
    s: BulkView,
    claimed: bool,
    data: Seq<u8>,
    answer: Result<u16, AckStatus>,
)
    requires
        holds_claim(s, claimed),
        s.state is Some || s.pending is Some,
    ensures
        s.pending is None && on_op(s, claimed, data).state.state is None ==> !on_op(
            s,
            claimed,
            data,
        ).claimed && on_op(s, claimed, data).effects.contains(BulkEffect::RadioBusy(false)),
        on_answer(s, claimed, answer).state.state is None ==> !on_answer(
            s,
            claimed,
            answer,
        ).claimed && (s.state is Some ==> on_answer(s, claimed, answer).effects.contains(
            BulkEffect::RadioBusy(false),
        )),
        !on_abandon(s, claimed).claimed,
        on_abandon(s, claimed).effects.contains(BulkEffect::RadioBusy(false)),
{
    assert(closing()[0] == BulkEffect::RadioBusy(false));
    assert(dropping()[1] == BulkEffect::RadioBusy(false));
}

/// What the WIO is asked to take is what was announced: the size, the CRC
/// and the version stand where its firmware update reads them.
pub proof fn law_announcement_is_forwarded(s: BulkView, data: Seq<u8>)
    requires
        data.len() >= 12,
        data[0] == ble::OP_BEGIN,
        data[1] == ble::KIND_FIRMWARE,
    ensures
        ({
            let o = on_op(s, false, data);
            &&& o.result matches StepView::Ask { cmd, payload, .. }
            &&& cmd == cmd::FW_BEGIN
            &&& payload.len() == 10
            &&& crate::wire::u32_at(payload, 0) == crate::wire::u32_at(data, 2)
            &&& crate::wire::u32_at(payload, 4) == crate::wire::u32_at(data, 6)
            &&& crate::wire::u16_at(payload, 8) == crate::wire::u16_at(data, 10)
        }),
{
    let total = crate::wire::u32_at(data, 2);
    let crc32 = crate::wire::u32_at(data, 6);
    let version = crate::wire::u16_at(data, 10);
    let p = crate::wire::u32_bytes(total) + crate::wire::u32_bytes(crc32) + crate::wire::u16_bytes(
        version,
    );
    assert(p.subrange(0, 4) =~= crate::wire::u32_bytes(total));
    assert(p.subrange(4, 8) =~= crate::wire::u32_bytes(crc32));
    assert(p.subrange(8, 10) =~= crate::wire::u16_bytes(version));
    crate::wire::lemma_u32_at(p, 0, total);
    crate::wire::lemma_u32_at(p, 4, crc32);
    crate::wire::lemma_u16_at(p, 8, version);
}

/// A chunk reaches the WIO whole, under its own number.
pub proof fn law_chunk_is_forwarded(s: BulkView, claimed: bool, data: Seq<u8>)
    requires
        4 <= data.len() <= 3 + ble::BULK_DATA_MAX,
        data[0] == ble::OP_DATA,
        s.state matches Some(t) && crate::wire::u16_at(data, 1) == t.next_seq,
    ensures
        ({
            let o = on_op(s, claimed, data);
            &&& o.result matches StepView::Ask { payload, .. }
            &&& crate::wire::u16_at(payload, 0) == crate::wire::u16_at(data, 1)
            &&& payload.skip(2) == data.skip(3)
            &&& payload.len() <= crate::esp::requests::OUT_MAX
        }),
{
    let seq = crate::wire::u16_at(data, 1);
    let p = crate::wire::u16_bytes(seq) + data.skip(3);
    assert(p.subrange(0, 2) =~= crate::wire::u16_bytes(seq));
    crate::wire::lemma_u16_at(p, 0, seq);
    assert(p.skip(2) =~= data.skip(3));
}

/// The op that announces a transfer.
pub open spec fn begin_op(kind: u8, total: u32, crc32: u32, version: u16) -> Seq<u8> {
    seq![ble::OP_BEGIN, kind] + crate::wire::u32_bytes(total) + crate::wire::u32_bytes(crc32)
        + crate::wire::u16_bytes(version)
}

/// The op that carries chunk number `i`; numbers wrap.
pub open spec fn data_op(i: int, chunk: Seq<u8>) -> Seq<u8> {
    seq![ble::OP_DATA] + crate::wire::u16_bytes((i % 0x1_0000) as u16) + chunk
}

/// How many bytes some chunks have together.
pub open spec fn bytes_in(chunks: Seq<Seq<u8>>) -> nat
    decreases chunks.len(),
{
    if chunks.len() == 0 {
        0
    } else {
        bytes_in(chunks.drop_last()) + chunks.last().len()
    }
}

/// What a side knows once chunks have been written in order and the WIO has
/// acknowledged each with the number that comes next.
pub open spec fn uploaded(s: BulkView, chunks: Seq<Seq<u8>>) -> BulkView
    decreases chunks.len(),
{
    if chunks.len() == 0 {
        s
    } else {
        let n = chunks.len() as int;
        let before = uploaded(s, chunks.drop_last());
        let asked = on_op(before, true, data_op(n - 1, chunks.last()));
        on_answer(asked.state, asked.claimed, Ok((n % 0x1_0000) as u16)).state
    }
}

/// Whether the WIO is asked, for every chunk, to take that chunk under its
/// number.
pub open spec fn asked_for_each(s: BulkView, chunks: Seq<Seq<u8>>, link_cmd: u8) -> bool
    decreases chunks.len(),
{
    chunks.len() > 0 ==> {
        let i = chunks.len() - 1;
        let o = on_op(uploaded(s, chunks.drop_last()), true, data_op(i, chunks.last()));
        &&& asked_for_each(s, chunks.drop_last(), link_cmd)
        &&& o.result == (StepView::Ask {
            cmd: link_cmd,
            payload: crate::wire::u16_bytes((i % 0x1_0000) as u16) + chunks.last(),
            timeout_ms: 2000,
        })
        &&& o.effects.contains(BulkEffect::RadioBusy(true))
        &&& o.claimed
    }
}

proof fn lemma_uploaded(t: BulkState, chunks: Seq<Seq<u8>>)
    requires
        t.received == 0,
        t.next_seq == 0,
        bytes_in(chunks) <= u32::MAX,
        forall|i: int|
            0 <= i < chunks.len() ==> 1 <= (#[trigger] chunks[i]).len() <= ble::BULK_DATA_MAX,
    ensures
        uploaded(BulkView { state: Some(t), pending: None }, chunks) == (BulkView {
            state: Some(
                BulkState {
                    received: bytes_in(chunks) as u32,
                    next_seq: (chunks.len() % 0x1_0000) as u16,
                    ..t
                },
            ),
            pending: None,
        }),
        asked_for_each(
            BulkView { state: Some(t), pending: None },
            chunks,
            if t.kind == ble::KIND_FIRMWARE {
                cmd::FW_DATA
            } else {
                cmd::CFG_DATA
            },
        ),
    decreases chunks.len(),
{
    if chunks.len() > 0 {
        let earlier = chunks.drop_last();
        let last = chunks.last();
        let n = chunks.len() as int;
        assert forall|i: int| 0 <= i < earlier.len() implies 1 <= (#[trigger] earlier[i]).len()
            <= ble::BULK_DATA_MAX by {
            assert(earlier[i] == chunks[i]);
        }
        assert(chunks[n - 1] == last);
        lemma_uploaded(t, earlier);
        let s = BulkView { state: Some(t), pending: None };
        let op = data_op(n - 1, last);
        let number = ((n - 1) % 0x1_0000) as u16;
        assert(op.subrange(1, 3) =~= crate::wire::u16_bytes(number));
        crate::wire::lemma_u16_at(op, 1, number);
        assert(op.skip(3) =~= last);
        let o = on_op(uploaded(s, earlier), true, op);
        assert(o.effects.contains(BulkEffect::RadioBusy(true))) by {
            if t.kind == ble::KIND_FIRMWARE {
                assert(o.effects[1] == BulkEffect::RadioBusy(true));
            } else {
                assert(o.effects[0] == BulkEffect::RadioBusy(true));
            }
        }
    }
}

/// A whole upload reaches the WIO: the announcement is forwarded, every chunk
/// written in order is, and once the chunks add up to what was announced the
/// end asks the WIO to finish - a firmware image with nothing more, a config
/// with the announced CRC. When the WIO confirms, the writer is told so and
/// the link is free.
pub proof fn law_upload_reaches_the_wio(
    kind: u8,
    total: u32,
    crc32: u32,
    version: u16,
    chunks: Seq<Seq<u8>>,
    taken: u16,
    confirmed: u16,
)
    requires
        kind == ble::KIND_FIRMWARE || kind == ble::KIND_TOML && 1 <= total <= 1024,
        forall|i: int|
            0 <= i < chunks.len() ==> 1 <= (#[trigger] chunks[i]).len() <= ble::BULK_DATA_MAX,
        bytes_in(chunks) == total,
    ensures
        ({
            let firmware = kind == ble::KIND_FIRMWARE;
            let idle = BulkView { state: None, pending: None };
            let asked = on_op(idle, false, begin_op(kind, total, crc32, version));
            let opened = on_answer(asked.state, asked.claimed, Ok(taken));
            let fed = uploaded(opened.state, chunks);
            let ended = on_op(fed, true, seq![ble::OP_END]);
            let over = on_answer(ended.state, ended.claimed, Ok(confirmed));
            &&& asked.claimed
            &&& asked.result == if firmware {
                StepView::Ask {
                    cmd: cmd::FW_BEGIN,
                    payload: crate::wire::u32_bytes(total) + crate::wire::u32_bytes(crc32)
                        + crate::wire::u16_bytes(version),
                    timeout_ms: 1000,
                }
            } else {
                StepView::Ask {
                    cmd: cmd::CFG_BEGIN,
                    payload: crate::wire::u16_bytes(total as u16),
                    timeout_ms: 1000,
                }
            }
            &&& opened.claimed
            &&& opened.effects == seq![BulkEffect::RadioBusy(true)]
            &&& opened.result.id == ble::ACK_ID_BULK
            &&& opened.result.status == AckStatus::Applied
            &&& opened.result.value == seq![0u8, 0, 0, 0]
            &&& asked_for_each(
                opened.state,
                chunks,
                if firmware {
                    cmd::FW_DATA
                } else {
                    cmd::CFG_DATA
                },
            )
            &&& fed.state matches Some(t)
            &&& t.received == bytes_in(chunks)
            &&& ended.claimed
            &&& ended.result == if firmware {
                StepView::Ask { cmd: cmd::FW_END, payload: Seq::empty(), timeout_ms: 5000 }
            } else {
                StepView::Ask {
                    cmd: cmd::CFG_END,
                    payload: crate::wire::u32_bytes(crc32),
                    timeout_ms: 2000,
                }
            }
            &&& over.state == idle
            &&& !over.claimed
            &&& over.effects.contains(BulkEffect::RadioBusy(false))
            &&& over.effects.contains(BulkEffect::Blink(Blink::Off))
            &&& over.result.id == ble::ACK_ID_BULK
            &&& over.result.status == AckStatus::Applied
            &&& over.result.value.len() == 0
        }),
{
    let idle = BulkView { state: None, pending: None };
    let op = begin_op(kind, total, crc32, version);
    assert(op.subrange(2, 6) =~= crate::wire::u32_bytes(total));
    assert(op.subrange(6, 10) =~= crate::wire::u32_bytes(crc32));
    assert(op.subrange(10, 12) =~= crate::wire::u16_bytes(version));
    crate::wire::lemma_u32_at(op, 2, total);
    crate::wire::lemma_u32_at(op, 6, crc32);
    crate::wire::lemma_u16_at(op, 10, version);
    let asked = on_op(idle, false, op);
    let opened = on_answer(asked.state, asked.claimed, Ok(taken));
    assert(opened.result.value =~= seq![0u8, 0, 0, 0]);
    let t = opened.state.state.unwrap();
    lemma_uploaded(t, chunks);
    let fed = uploaded(opened.state, chunks);
    let ended = on_op(fed, true, seq![ble::OP_END]);
    let over = on_answer(ended.state, ended.claimed, Ok(confirmed));
    assert(over.effects[0] == BulkEffect::RadioBusy(false));
    assert(over.effects[1] == BulkEffect::Blink(Blink::Off));
}

/// The count of bytes taken grows by each chunk's length, and the number that
/// the WIO answers with is the one expected next and the one acknowledged;
/// what was announced stays.
pub proof fn law_taken_bytes_add_up(t: BulkState, claimed: bool, len: u32, next: u16)
    requires
        t.received + len <= u32::MAX,
    ensures
        ({
            let s = BulkView { state: Some(t), pending: Some(Pending::Data { len }) };
            let o = on_answer(s, claimed, Ok(next));
            &&& o.state.state matches Some(u)
            &&& u.received == t.received + len
            &&& u.next_seq == next
            &&& u.kind == t.kind
            &&& u.crc32 == t.crc32
            &&& u.total == t.total
            &&& o.state.pending is None
            &&& o.claimed == claimed
            &&& o.effects.len() == 0
            &&& o.result.id == ble::ACK_ID_BULK
            &&& o.result.status == AckStatus::Applied
            &&& crate::wire::u32_at(o.result.value, 0) == next
            &&& o.result.value.len() == 4
        }),
{
    crate::wire::lemma_u32_at(crate::wire::u32_bytes(next as u32), 0, next as u32);
    assert(crate::wire::u32_bytes(next as u32).subrange(0, 4) =~= crate::wire::u32_bytes(
        next as u32,
    ));
    crate::wire::lemma_u32_at(crate::wire::u32_bytes(next as u32), 0, next as u32);
}

/// What the WIO refuses the writer is told, with the WIO's own status. A
/// refused announcement or chunk ends the transfer and frees the link; an end
/// that failed keeps both.
pub proof fn law_refusals_are_passed_on(s: BulkView, claimed: bool, status: AckStatus)
    requires
        holds_claim(s, claimed),
        s.pending is Some,
    ensures
        ({
            let o = on_answer(s, claimed, Err(status));
            &&& o.result.id == ble::ACK_ID_BULK
            &&& o.result.status == status
            &&& o.result.value.len() == 0
            &&& o.state.pending is None
            &&& s.pending == Some(Pending::End) ==> o.state.state == s.state && o.claimed == claimed
                && o.effects.len() == 0
            &&& s.pending != Some(Pending::End) ==> o.state.state is None && !o.claimed
            &&& s.pending->0 is Data ==> o.effects == seq![
                BulkEffect::RadioBusy(false),
                BulkEffect::Blink(Blink::Off),
            ]
        }),
{
}

/// An announcement is taken exactly if it is complete, the link is free, and
/// it is of a firmware image or of a config of 1 to 1024 bytes. Otherwise it
/// changes nothing.
pub proof fn law_announcements_are_checked(s: BulkView, claimed: bool, data: Seq<u8>)
    requires
        s.state is None,
        s.pending is None,
        data.len() > 0,
        data[0] == ble::OP_BEGIN,
    ensures
        ({
            let o = on_op(s, claimed, data);
            let total = data[2] + 256 * data[3] + 65536 * data[4] + 16777216 * data[5];
            let fine = data.len() >= 12 && !claimed && (data[1] == ble::KIND_FIRMWARE || data[1]
                == ble::KIND_TOML && 1 <= total <= 1024);
            &&& o.result is Ask <==> fine
            &&& o.effects.len() == 0
            &&& fine ==> o.claimed
            &&& !fine ==> o.state == s && o.claimed == claimed
            &&& data.len() < 12 ==> o.result == StepView::Reply(
                AckView { id: ble::ACK_ID_BULK, status: AckStatus::BadValue, value: Seq::empty() },
            )
            &&& data.len() >= 12 && claimed ==> o.result == StepView::Reply(
                AckView { id: ble::ACK_ID_BULK, status: AckStatus::BadState, value: Seq::empty() },
            )
            &&& !claimed && !fine ==> o.result == StepView::Reply(
                AckView { id: ble::ACK_ID_BULK, status: AckStatus::BadValue, value: Seq::empty() },
            )
        }),
{
}

/// A chunk is taken exactly if there is a transfer, it holds 1 to
/// [`ble::BULK_DATA_MAX`] bytes and its number is the one expected; any other
/// leaves the transfer as it is. A firmware chunk shows on the LED.
pub proof fn law_chunks_are_checked(s: BulkView, claimed: bool, data: Seq<u8>)
    requires
        s.pending is None,
        data.len() > 0,
        data[0] == ble::OP_DATA,
    ensures
        ({
            let o = on_op(s, claimed, data);
            let fits = 4 <= data.len() <= 3 + ble::BULK_DATA_MAX;
            let number = data[1] + 256 * data[2];
            &&& o.claimed == claimed
            &&& o.state.state == s.state
            &&& o.result is Ask <==> (fits && (s.state matches Some(t) && t.next_seq == number))
            &&& o.result is Ask ==> {
                &&& o.state.pending == Some(Pending::Data { len: (data.len() - 3) as u32 })
                &&& o.effects == if s.state->0.kind == ble::KIND_FIRMWARE {
                    seq![BulkEffect::Blink(Blink::FwToggle), BulkEffect::RadioBusy(true)]
                } else {
                    seq![BulkEffect::RadioBusy(true)]
                }
            }
            &&& o.result is Reply ==> o.state == s && o.effects.len() == 0
            &&& s.state is None ==> o.result == StepView::Reply(
                AckView { id: ble::ACK_ID_BULK, status: AckStatus::BadState, value: Seq::empty() },
            )
            &&& (s.state matches Some(t) && (!fits || number != t.next_seq && (number + 1)
                % 0x1_0000 != t.next_seq)) ==> o.result == StepView::Reply(
                AckView { id: ble::ACK_ID_BULK, status: AckStatus::BadValue, value: Seq::empty() },
            )
        }),
{
}

/// An end that comes too early or too late closes the transfer with a refusal;
/// without a transfer it changes nothing.
pub proof fn law_bad_end_closes(s: BulkView, claimed: bool)
    requires
        s.pending is None,
        s.state matches Some(t) ==> t.received != t.total,
    ensures
        ({
            let o = on_op(s, claimed, seq![ble::OP_END]);
            &&& o.result == StepView::Reply(
                AckView {
                    id: ble::ACK_ID_BULK,
                    status: if s.state is Some {
                        AckStatus::BadValue
                    } else {
                        AckStatus::BadState
                    },
                    value: Seq::empty(),
                },
            )
            &&& o.state.state is None
            &&& s.state is Some ==> !o.claimed && o.effects == seq![
                BulkEffect::RadioBusy(false),
                BulkEffect::Blink(Blink::Off),
            ]
            &&& s.state is None ==> o.claimed == claimed && o.effects.len() == 0
        }),
{
}

/// An abort is always acknowledged. It, and the loss of the writer, have the
/// WIO drop a transfer under way and free the link; without one they change
/// nothing.
pub proof fn law_abort_drops_the_transfer(s: BulkView, claimed: bool)
    ensures
        ({
            let o = on_op(s, claimed, seq![ble::OP_ABORT]);
            let lost = on_abandon(s, claimed);
            let any = s.state is Some || s.pending is Some;
            &&& o.result == StepView::Reply(
                AckView { id: ble::ACK_ID_BULK, status: AckStatus::Applied, value: Seq::empty() },
            )
            &&& o.state == lost.state && o.claimed == lost.claimed && o.effects == lost.effects
            &&& any ==> {
                &&& lost.state.state is None
                &&& lost.state.pending is None
                &&& !lost.claimed
                &&& lost.effects == seq![
                    BulkEffect::FwAbort,
                    BulkEffect::RadioBusy(false),
                    BulkEffect::Blink(Blink::Off),
                ]
            }
            &&& !any ==> lost.state == s && lost.claimed == claimed && lost.effects.len() == 0
        }),
{
}

/// A write that is no op is refused and changes nothing.
pub proof fn law_unknown_ops_are_refused(s: BulkView, claimed: bool, data: Seq<u8>)
    requires
        data.len() > 0 ==> data[0] == 0 || data[0] > 4,
    ensures
        ({
            let o = on_op(s, claimed, data);
            &&& o.state == s && o.claimed == claimed && o.effects.len() == 0
            &&& o.result == StepView::Reply(
                AckView { id: ble::ACK_ID_BULK, status: AckStatus::BadValue, value: Seq::empty() },
            )
        }),
{
}

/// What the effects have the WIO told: that this side is on the air or off it,
/// and that it drops the transfer. The LED is no business of the WIO.
pub proof fn law_effects_reach_the_wio(busy: bool, blink: Blink)
    ensures
        BulkEffect::RadioBusy(busy).sends() == Some(
            (
                cmd::RADIO_BUSY,
                if busy {
                    seq![1u8]
                } else {
                    seq![0u8]
                },
            ),
        ),
        BulkEffect::FwAbort.sends() == Some((cmd::FW_ABORT, Seq::<u8>::empty())),
        BulkEffect::Blink(blink).sends() is None,
{
    if let Some((_, payload)) = BulkEffect::RadioBusy(busy).sends() {
        assert(payload =~= if busy {
            seq![1u8]
        } else {
            seq![0u8]
        });
    }
}

} // verus!

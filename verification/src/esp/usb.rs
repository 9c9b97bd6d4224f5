//! Requests of a host over the USB port. Bulk ops take the same path as the
//! ones a phone writes; the console shares the port, and the host's frame
//! parser resyncs past its text.

use vstd::prelude::*;
use crate::link::{resp, usb};

verus! {

/// How long a host may stay quiet in the middle of a transfer before it is
/// dropped, so that one that vanished cannot hold the link forever.
pub const USB_IDLE_MS: u64 = 5000;

/// What a request asks for.
#[derive(Clone, Copy, Debug, PartialEq, Eq)]
pub enum UsbRequest {
    /// Answer with an ACK frame of this payload, up to the given length.
    Ack { payload: [u8; 7], len: usize },
    /// Run the payload as a bulk op, and answer with its ack.
    Bulk,
    /// Nothing this firmware knows.
    Unknown,
}

/// The ACK payload that a request gets, if it is answered at once.
pub open spec fn answer_to(cmd: u8, address: Seq<u8>) -> Option<Seq<u8>> {
    if cmd == usb::PING {
        Some(seq![usb::PING, 1, 0])
    } else if cmd == usb::INFO {
        Some(seq![usb::INFO] + address.reverse())
    } else {
        None
    }
}

/// What to do with a request. `address` is the board's BLE address, least
/// significant octet first; it is shown the other way round.
pub fn usb_request(cmd: u8, address: &[u8; 6]) -> (r: UsbRequest)
    ensures
        match r {
            UsbRequest::Ack { payload, len } => len <= 7 && answer_to(cmd, address@) == Some(
                payload@.take(len as int),
            ),
            UsbRequest::Bulk => cmd == usb::BULK && answer_to(cmd, address@) is None,
            UsbRequest::Unknown => cmd != usb::BULK && answer_to(cmd, address@) is None,
        },
{
    if cmd == usb::PING {
        let payload: [u8; 7] = [usb::PING, 1, 0, 0, 0, 0, 0];
        assert(payload@.take(3) =~= seq![usb::PING, 1, 0]);
        UsbRequest::Ack { payload, len: 3 }
    } else if cmd == usb::INFO {
        let payload: [u8; 7] = [
            usb::INFO,
            address[5],
            address[4],
            address[3],
            address[2],
            address[1],
            address[0],
        ];
        assert(payload@.take(7) =~= seq![usb::INFO] + address@.reverse());
        UsbRequest::Ack { payload, len: 7 }
    } else if cmd == usb::BULK {
        UsbRequest::Bulk
    } else {
        UsbRequest::Unknown
    }
}

/// The frame type that answers a request.
pub fn reply_cmd(r: &UsbRequest) -> (cmd: Option<u8>)
    ensures
        cmd == (match *r {
            UsbRequest::Ack { .. } => Some(resp::ACK),
            UsbRequest::Bulk => Some(usb::BULK_ACK),
            UsbRequest::Unknown => None,
        }),
{
    match r {
        UsbRequest::Ack { .. } => Some(resp::ACK),
        UsbRequest::Bulk => Some(usb::BULK_ACK),
        UsbRequest::Unknown => None,
    }
}

/// How long the host may stay quiet, where there is a limit.
pub open spec fn quiet_limit(transferring: bool) -> Option<u64> {
    if transferring {
        Some(USB_IDLE_MS)
    } else {
        None
    }
}

/// How long to wait for the host: while a transfer is under way no longer
/// than [`USB_IDLE_MS`], else forever.
pub fn idle_limit_ms(transferring: bool) -> (limit: Option<u64>)
    ensures
        limit == quiet_limit(transferring),
{
    if transferring {
        Some(USB_IDLE_MS)
    } else {
        None
    }
}

/// A ping names itself and protocol version 1; an info request gets the
/// address, most significant octet first, and a bulk op or anything else no
/// answer at once.
pub proof fn law_hosts_are_answered(cmd: u8, address: Seq<u8>)
    requires
        address.len() == 6,
    ensures
        answer_to(0x50, address) == Some(seq![0x50u8, 1, 0]),
        answer_to(0x53, address) matches Some(a) && a.len() == 7 && a[0] == 0x53 && forall|i: int|
            0 <= i < 6 ==> #[trigger] a[1 + i] == address[5 - i],
        cmd != 0x50 && cmd != 0x53 ==> answer_to(cmd, address) is None,
        quiet_limit(true) == Some(5_000u64),
        quiet_limit(false) is None,
{
}

} // verus!

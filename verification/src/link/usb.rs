//! Host to ESP32-C6 commands carried over the ESP's USB Serial/JTAG port,
//! framed identically to the ESP to WIO link. They let a computer push a
//! WIO firmware image straight through the ESP without BLE.

use vstd::prelude::*;

verus! {

/// Host -> ESP, no payload. ESP answers [`super::resp::ACK`]
/// (`[PING, 1, 0]`) so a tool can confirm it found the firmware.
pub const PING: u8 = 0x50;

/// Host -> ESP, `[bulk op bytes]` - one bulk op in the [`crate::ble`]
/// wire format (`OP_BEGIN`/`OP_DATA`/`OP_END`/`OP_ABORT`). The ESP runs
/// it through the same path as a BLE bulk write and replies with
/// [`BULK_ACK`].
pub const BULK: u8 = 0x51;

/// ESP -> host, `[id, status, value...]` - the ack bytes the bulk op
/// produced (status 0 = OK).
pub const BULK_ACK: u8 = 0x52;

/// Host -> ESP, no payload. ESP answers [`super::resp::ACK`]
/// (`[INFO, address]`) with its BLE address, most significant octet first.
pub const INFO: u8 = 0x53;

} // verus!

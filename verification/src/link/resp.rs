//! Responses (either direction, follow a command).

use vstd::prelude::*;

verus! {

/// `[cmd u8, value u16le]` - command accepted. `value` is command
/// specific (fw version for PING, next expected seq for *_DATA).
pub const ACK: u8 = 0x81;

/// `[cmd u8, err u8]` - command failed.
pub const NAK: u8 = 0x82;

} // verus!

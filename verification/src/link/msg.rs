//! Message ids, WIO-E5 to ESP32-C6 (0x40-0x7F).

use vstd::prelude::*;

verus! {

/// `[src u8, rssi i16le, position packet 20B]` - a position report.
/// `src` 0 is the local GPS; other values are the addresses of nodes
/// whose broadcast we received (rssi is then the LoRa RSSI in dBm).
pub const POSITION: u8 = 0x40;

/// [`super::Telemetry`] wire format - periodic link/radio status.
pub const STATUS: u8 = 0x41;

/// `[flag u8]` - 1: LoRa TX in progress or imminent, the ESP should
/// defer discretionary BLE traffic; 0: clear. Expires like RADIO_BUSY.
pub const RADIO_BUSY: u8 = 0x42;

/// `[src u8, rssi i16le, payload...]` - a received LoRa payload that is
/// not a position, forwarded verbatim.
pub const LORA_RX: u8 = 0x43;

/// `[text: ASCII bytes]` - a human-readable status/log line. The ESP
/// prints it to its console and notifies it over BLE (no ACK). Payload
/// is at most [`super::LOG_MAX`] bytes.
pub const LOG: u8 = 0x44;

} // verus!

//! Command ids, ESP32-C6 to WIO-E5 (0x01-0x3F).

use vstd::prelude::*;

verus! {

/// No payload. WIO answers with [`super::resp::ACK`] (value = fw version).
pub const PING: u8 = 0x01;

/// `[flag u8]` - 1: the ESP radio (BLE) is busy, the WIO should defer
/// discretionary LoRa transmissions; 0: clear. The flag expires on the
/// WIO after [`super::RADIO_BUSY_TIMEOUT_MS`] in case the clear is lost.
pub const RADIO_BUSY: u8 = 0x02;

/// `[flag u8]` - 1: WIO enters soft sleep (radio to standby, GPS and SD
/// idle, slow loop); 0: wake back up.
pub const WIO_SLEEP: u8 = 0x03;

/// `[flag u8]` - 1: put the GPS into backup mode (UBX-RXM-PMREQ);
/// 0: wake it (EXTINT pulse + UART traffic).
pub const GPS_SLEEP: u8 = 0x04;

/// `[total_len u16le]` - start a radio config transfer (applied on END,
/// also saved to SD).
pub const CFG_BEGIN: u8 = 0x10;

/// `[seq u16le, bytes...]` - config file data, in order.
pub const CFG_DATA: u8 = 0x11;

/// `[crc32 u32le]` - end of config; WIO verifies, parses and applies.
pub const CFG_END: u8 = 0x12;

/// `[size u32le, crc32 u32le, version u16le]` - start a firmware update
/// (written into the WIO DFU partition; the swap bootloader installs it on
/// the reboot that follows FW_END).
pub const FW_BEGIN: u8 = 0x20;

/// `[seq u16le, bytes...]` - firmware data, in order.
pub const FW_DATA: u8 = 0x21;

/// No payload. WIO verifies the CRC, marks the swap and reboots.
pub const FW_END: u8 = 0x22;

/// No payload. Abandon an in-progress transfer.
pub const FW_ABORT: u8 = 0x23;

/// The last id of this direction; those above it are messages and responses.
pub const LAST: u8 = 0x3F;

} // verus!

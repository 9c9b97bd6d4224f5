//! NAK error codes.

use vstd::prelude::*;

verus! {

pub const BAD_FRAME: u8 = 0x01;

pub const BAD_SIZE: u8 = 0x02;

pub const BAD_SEQ: u8 = 0x03;

pub const CRC_MISMATCH: u8 = 0x04;

pub const FLASH_ERROR: u8 = 0x05;

pub const INVALID_STATE: u8 = 0x06;

pub const BAD_CONFIG: u8 = 0x07;

pub const SD_ERROR: u8 = 0x08;

} // verus!

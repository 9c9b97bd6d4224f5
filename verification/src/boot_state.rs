//! The bootloader state record.
//!
//! The boot state lives in a flash page of its own. The first 4 bytes are a
//! magic word indicating the current state; the next 4 bytes track swap
//! progress (used only by the bootloader itself).

use vstd::prelude::*;
use crate::wire::{get_u32, put_u32};

verus! {

/// Base address of the boot-state page.
pub const STATE_ADDR: u32 = 0x0803_C800;

/// Page index for the boot-state page.
pub const STATE_PAGE_IDX: u8 = 121;

/// The application confirmed that it runs; boot it.
pub const BOOT_OK: u32 = 0x4F4B_4F4B;

/// Swap the DFU image into the ACTIVE partition.
pub const SWAP_PENDING: u32 = 0x5357_4150;

/// A swap is under way, and the ACTIVE page that is its progress stands in
/// scratch.
pub const PAGE_SAVED: u32 = 0x5341_5645;

/// A swap is under way, and the DFU page that is its progress stands in ACTIVE
/// too.
pub const PAGE_COPIED: u32 = 0x434F_5059;

/// The swap is done and the new application has not confirmed yet.
pub const SWAP_COMPLETE: u32 = 0x444F_4E45;

/// Copy the old application back into the ACTIVE partition.
pub const REVERT_PENDING: u32 = 0x5245_5654;

/// The progress field of erased flash.
pub const NO_PROGRESS: u32 = 0xFFFF_FFFF;

/// The bytes of a state record.
pub open spec fn record_bytes(state: u32, progress: u32) -> Seq<u8> {
    crate::wire::u32_bytes(state) + crate::wire::u32_bytes(progress)
}

/// The double word that stores a state and a progress.
pub fn record(state: u32, progress: u32) -> (b: [u8; 8])
    ensures
        b@ == record_bytes(state, progress),
{
    let s: [u8; 4] = put_u32(state);
    let p: [u8; 4] = put_u32(progress);
    let b: [u8; 8] = [s[0], s[1], s[2], s[3], p[0], p[1], p[2], p[3]];
    assert(b@ =~= record_bytes(state, progress));
    b
}

/// The state that a record holds.
pub fn read(b: &[u8; 8]) -> (state: u32)
    ensures
        state == crate::wire::u32_at(b@, 0),
{
    get_u32(b, 0)
}

/// The progress that a record holds.
pub fn read_progress(b: &[u8; 8]) -> (progress: u32)
    ensures
        progress == crate::wire::u32_at(b@, 4),
{
    get_u32(b, 4)
}

/// The double word that stores a state with no progress, as the application
/// writes it over the erased page.
pub fn write(state: u32) -> (b: [u8; 8])
    ensures
        b@ == record_bytes(state, NO_PROGRESS),
{
    record(state, NO_PROGRESS)
}

/// The record that confirms a boot which found the state `current`, where it
/// takes one.
pub open spec fn confirmation(current: u32) -> Option<Seq<u8>> {
    if current == BOOT_OK {
        None
    } else {
        Some(record_bytes(BOOT_OK, NO_PROGRESS))
    }
}

/// What to write to mark the running firmware as successfully booted, given
/// the current state; nothing where it is marked already, which saves flash
/// wear.
///
/// The application does this after confirming the system is healthy. If it
/// never happens before a reset, the bootloader reverts to the previous
/// firmware.
pub fn confirm_boot(current: u32) -> (r: Option<[u8; 8]>)
    ensures
        match r {
            None => confirmation(current) is None,
            Some(b) => confirmation(current) == Some(b@),
        },
{
    if current != BOOT_OK {
        Some(write(BOOT_OK))
    } else {
        None
    }
}

/// What to write to have the bootloader swap the DFU image into the ACTIVE
/// partition on the next reboot.
pub fn request_swap() -> (b: [u8; 8])
    ensures
        b@ == record_bytes(SWAP_PENDING, NO_PROGRESS),
{
    write(SWAP_PENDING)
}

/// A record reads back as the state and the progress that were written.
pub proof fn law_record_roundtrip(state: u32, progress: u32)
    ensures
        crate::wire::u32_at(record_bytes(state, progress), 0) == state,
        crate::wire::u32_at(record_bytes(state, progress), 4) == progress,
{
    let b = record_bytes(state, progress);
    assert(b.subrange(0, 4) =~= crate::wire::u32_bytes(state));
    assert(b.subrange(4, 8) =~= crate::wire::u32_bytes(progress));
    crate::wire::lemma_u32_at(b, 0, state);
    crate::wire::lemma_u32_at(b, 4, progress);
}

/// A boot is confirmed with a record that reads as booted, whatever state was
/// found, and only where it is not confirmed already.
pub proof fn law_boot_is_confirmed(current: u32)
    ensures
        confirmation(current) is None <==> current == BOOT_OK,
        confirmation(current) matches Some(b) ==> crate::wire::u32_at(b, 0) == BOOT_OK
            && crate::wire::u32_at(b, 4) == 0xFFFF_FFFF,
{
    law_record_roundtrip(BOOT_OK, NO_PROGRESS);
}

} // verus!

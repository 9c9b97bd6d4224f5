//! Backup copy of `RADIO.CFG` in internal flash.
//!
//! The SD card is the primary store and the one a person can edit, but it is
//! optional hardware: a board with no card, or one whose card is disabled or
//! has failed, would otherwise come back from every power cycle on the
//! firmware defaults - losing its address, which is the one setting that
//! cannot be guessed back.
//!
//! So a config that is applied is written here as well, and at boot the
//! order is SD, then flash, then defaults. The card wins when both exist,
//! because pulling it and editing the file on a computer should do what it
//! looks like it does.
//!
//! # Layout
//!
//! One flash page:
//!
//! ```text
//! [0..4]   magic 0x4746_4331
//! [4..8]   length of the config text
//! [8..12]  CRC-32 of the config text
//! [12..16] padding, so the text starts 8-byte aligned
//! [16..]   config text
//! ```
//!
//! The CRC is what makes a half-written page (power lost mid-erase, mid-
//! program) read back as "no config" rather than as garbage that the TOML
//! parser then has to reject.

use vstd::prelude::*;
use crate::link::crc32;
use crate::radiocfg::{parse_bytes, RadioConfig};
use crate::wire::{get_u32, put_u32};

verus! {

/// Page index holding the config, one past the boot state.
pub const CFG_PAGE_IDX: u8 = 122;

/// Base address of that page.
pub const CFG_ADDR: u32 = 0x0803_D000;

/// Size of the page.
pub const PAGE_LEN: usize = 2048;

/// Marks a written config. Changing this invalidates every stored copy,
/// which is the upgrade path if the layout ever changes.
pub const MAGIC: u32 = 0x4746_4331;

/// Header bytes before the config text.
pub const HEADER_LEN: usize = 16;

/// Largest config text this page can hold. The transfer limit
/// ([`crate::cfgxfer::CONFIG_MAX`]) is well under it.
pub const MAX_LEN: usize = 2048 - HEADER_LEN;

/// The config text that a page stores, if it stores one intact.
pub open spec fn stored_text(page: Seq<u8>) -> Option<Seq<u8>> {
    let len = crate::wire::u32_at(page, 4);
    let text = page.subrange(HEADER_LEN as int, HEADER_LEN + len);
    if crate::wire::u32_at(page, 0) == MAGIC && 0 < len <= MAX_LEN && crate::link::crc32_of(text)
        == crate::wire::u32_at(page, 8) {
        Some(text)
    } else {
        None
    }
}

/// The header in front of a config text.
pub open spec fn header_bytes(text: Seq<u8>) -> Seq<u8> {
    crate::wire::u32_bytes(MAGIC) + crate::wire::u32_bytes(text.len() as u32)
        + crate::wire::u32_bytes(crate::link::crc32_of(text)) + seq![0xFFu8, 0xFF, 0xFF, 0xFF]
}

/// An erased page with a header and a text programmed into it.
pub open spec fn programmed(header: Seq<u8>, text: Seq<u8>) -> Seq<u8> {
    Seq::new(
        PAGE_LEN as nat,
        |i: int|
            if i < HEADER_LEN {
                header[i]
            } else if i < HEADER_LEN + text.len() {
                text[i - HEADER_LEN]
            } else {
                0xFF
            },
    )
}

fn stored(page: &[u8; PAGE_LEN]) -> (r: Option<&[u8]>)
    ensures
        match r {
            Some(text) => stored_text(page@) == Some(text@),
            None => stored_text(page@) is None,
        },
{
    if get_u32(page, 0) != MAGIC {
        return None;
    }
    let len: usize = get_u32(page, 4) as usize;
    if len == 0 || len > MAX_LEN {
        return None;
    }
    let text = &page[HEADER_LEN..HEADER_LEN + len];
    if crc32(text) == get_u32(page, 8) {
        Some(text)
    } else {
        None
    }
}

/// What copying the config of a page makes of a buffer, and the length copied.
pub open spec fn copied_out(page: Seq<u8>, buf: Seq<u8>) -> (Seq<u8>, Option<usize>) {
    match stored_text(page) {
        Some(text) => if text.len() <= buf.len() {
            (text + buf.skip(text.len() as int), Some(text.len() as usize))
        } else {
            (buf, None)
        },
        None => (buf, None),
    }
}

/// Whether a page can store a text.
pub open spec fn storable(text: Seq<u8>) -> bool {
    0 < text.len() <= MAX_LEN
}

/// Copy the config stored in `page` into `buf`, returning its length.
///
/// `None` when nothing is stored, the CRC does not match, or `buf` is too
/// small - all of which mean the caller should fall back rather than act on
/// a partial config.
pub fn read(page: &[u8; PAGE_LEN], buf: &mut [u8]) -> (r: Option<usize>)
    ensures
        final(buf)@.len() == old(buf)@.len(),
        (final(buf)@, r) == copied_out(page@, old(buf)@),
{
    match stored(page) {
        None => None,
        Some(text) => {
            if text.len() > buf.len() {
                return None;
            }
            let ghost before = buf@;
            let mut i: usize = 0;
            while i < text.len()
                invariant
                    i <= text@.len() <= buf@.len(),
                    buf@.len() == before.len(),
                    forall|j: int| 0 <= j < i ==> buf@[j] == text@[j],
                    forall|j: int| i <= j < buf@.len() ==> buf@[j] == before[j],
                decreases text@.len() - i,
            {
                buf[i] = text[i];
                i = i + 1;
            }
            assert(buf@ =~= text@ + before.skip(text@.len() as int));
            Some(text.len())
        },
    }
}

/// Whether the config stored in `page` is already exactly `bytes`.
pub fn matches(page: &[u8; PAGE_LEN], bytes: &[u8]) -> (r: bool)
    ensures
        r == (stored_text(page@) == Some(bytes@)),
{
    match stored(page) {
        None => false,
        Some(text) => {
            if text.len() != bytes.len() {
                return false;
            }
            let mut i: usize = 0;
            while i < text.len()
                invariant
                    i <= text@.len(),
                    text@.len() == bytes@.len(),
                    stored_text(page@) == Some(text@),
                    forall|j: int| 0 <= j < i ==> text@[j] == bytes@[j],
                decreases text@.len() - i,
            {
                if text[i] != bytes[i] {
                    return false;
                }
                i = i + 1;
            }
            assert(text@ =~= bytes@);
            true
        },
    }
}

/// What storing a config takes.
#[derive(Clone, Copy, Debug, PartialEq, Eq)]
pub enum CfgWrite {
    /// The text cannot be stored.
    Refused,
    /// The page holds it already.
    Unchanged,
    /// Go through the steps from [`StoreStep::Erase`], with this header.
    Program { header: [u8; HEADER_LEN] },
}

/// A step of programming a config. Text first: until the magic and CRC land,
/// a power loss leaves a page that reads as "nothing stored" rather than a
/// valid-looking header over half-written text.
#[derive(Clone, Copy, Debug, PartialEq, Eq, Structural)]
pub enum StoreStep {
    /// Erase the page.
    Erase,
    /// Program the text at [`HEADER_LEN`].
    ProgramText,
    /// Program the header at 0.
    ProgramHeader,
    Finished { stored: bool },
}

/// What follows a step that succeeded or failed.
pub open spec fn after_step(step: StoreStep, ok: bool) -> StoreStep {
    match step {
        StoreStep::Finished { stored } => StoreStep::Finished { stored },
        StoreStep::Erase if ok => StoreStep::ProgramText,
        StoreStep::ProgramText if ok => StoreStep::ProgramHeader,
        StoreStep::ProgramHeader if ok => StoreStep::Finished { stored: true },
        _ => StoreStep::Finished { stored: false },
    }
}

/// Go on programming a config: a failure ends it.
pub fn next_step(step: StoreStep, ok: bool) -> (next: StoreStep)
    ensures
        next == after_step(step, ok),
{
    match step {
        StoreStep::Finished { stored } => StoreStep::Finished { stored },
        StoreStep::Erase if ok => StoreStep::ProgramText,
        StoreStep::ProgramText if ok => StoreStep::ProgramHeader,
        StoreStep::ProgramHeader if ok => StoreStep::Finished { stored: true },
        _ => StoreStep::Finished { stored: false },
    }
}

/// What it takes to store `bytes` as the config, over the page as it is.
///
/// A config identical to what is already there is not rewritten: this page
/// is erased in full for every write, and the endurance budget is better
/// spent on real changes than on re-pushing the same file.
pub fn write(page: &[u8; PAGE_LEN], bytes: &[u8]) -> (r: CfgWrite)
    ensures
        match r {
            CfgWrite::Refused => !storable(bytes@),
            CfgWrite::Unchanged => storable(bytes@) && stored_text(page@) == Some(bytes@),
            CfgWrite::Program { header } => {
                &&& storable(bytes@)
                &&& stored_text(page@) != Some(bytes@)
                &&& header@ == header_bytes(bytes@)
            },
        },
{
    if bytes.len() == 0 || bytes.len() > MAX_LEN {
        return CfgWrite::Refused;
    }
    if matches(page, bytes) {
        return CfgWrite::Unchanged;
    }
    let magic: [u8; 4] = put_u32(MAGIC);
    let len: [u8; 4] = put_u32(bytes.len() as u32);
    let crc: [u8; 4] = put_u32(crc32(bytes));
    let header: [u8; HEADER_LEN] = [
        magic[0],
        magic[1],
        magic[2],
        magic[3],
        len[0],
        len[1],
        len[2],
        len[3],
        crc[0],
        crc[1],
        crc[2],
        crc[3],
        0xFF,
        0xFF,
        0xFF,
        0xFF,
    ];
    assert(header@ =~= header_bytes(bytes@));
    CfgWrite::Program { header }
}

/// The configuration to boot with: the card's if it has a good one, else the
/// backup in flash if that is good, else the defaults. The flag says whether
/// it was loaded.
pub open spec fn boot_choice(card: Option<Seq<u8>>, page: Seq<u8>) -> (RadioConfig, bool) {
    let defaults = (RadioConfig::defaults(), false);
    let from_flash = match stored_text(page) {
        None => defaults,
        Some(text) => match crate::radiocfg::file_meaning(text) {
            Ok(cfg) => (cfg, true),
            Err(_) => defaults,
        },
    };
    match card {
        None => from_flash,
        Some(text) => match crate::radiocfg::file_meaning(text) {
            Ok(cfg) => (cfg, true),
            Err(_) => from_flash,
        },
    }
}

/// Pick the configuration to boot with from the config file on the card,
/// where there is one, and the backup in flash.
pub fn boot_config(card: Option<&[u8]>, page: &[u8; PAGE_LEN]) -> (r: (RadioConfig, bool))
    requires
        card matches Some(text) ==> text@.len() < u32::MAX,
    ensures
        r == boot_choice(
            match card {
                Some(text) => Some(text@),
                None => None,
            },
            page@,
        ),
        r.0.valid(),
{
    proof {
        crate::radiocfg::law_parsed_is_valid(Seq::empty());
    }
    if let Some(text) = card {
        proof {
            if vstd::utf8::valid_utf8(text@) {
                crate::radiocfg::lemma_small_file_lines(text@);
            }
        }
        if let Ok(cfg) = parse_bytes(text) {
            return (cfg, true);
        }
    }
    if let Some(text) = stored(page) {
        proof {
            if vstd::utf8::valid_utf8(text@) {
                crate::radiocfg::lemma_small_file_lines(text@);
            }
        }
        if let Ok(cfg) = parse_bytes(text) {
            return (cfg, true);
        }
    }
    (RadioConfig::default(), false)
}

// -- Laws ---------------------------------------------------------------------

/// A stored config reads back as it was written.
pub proof fn law_store_roundtrip(text: Seq<u8>)
    requires
        0 < text.len() <= MAX_LEN,
    ensures
        stored_text(programmed(header_bytes(text), text)) == Some(text),
{
    let header = header_bytes(text);
    let page = programmed(header, text);
    assert(page.subrange(0, 4) =~= crate::wire::u32_bytes(MAGIC));
    assert(page.subrange(4, 8) =~= crate::wire::u32_bytes(text.len() as u32));
    assert(page.subrange(8, 12) =~= crate::wire::u32_bytes(crate::link::crc32_of(text)));
    crate::wire::lemma_u32_at(page, 0, MAGIC);
    crate::wire::lemma_u32_at(page, 4, text.len() as u32);
    crate::wire::lemma_u32_at(page, 8, crate::link::crc32_of(text));
    assert(page.subrange(HEADER_LEN as int, HEADER_LEN + text.len()) =~= text);
}

/// A page with `bytes` programmed at `at`.
pub open spec fn with_bytes(page: Seq<u8>, at: int, bytes: Seq<u8>) -> Seq<u8> {
    Seq::new(
        page.len(),
        |i: int|
            if at <= i < at + bytes.len() {
                bytes[i - at]
            } else {
                page[i]
            },
    )
}

/// A config that was applied and saved comes back at boot, whatever it says of
/// the card: from the card where that holds it, and from flash where there is
/// no card.
pub proof fn law_saved_config_comes_back(text: Seq<u8>, page: Seq<u8>)
    requires
        0 < text.len() <= MAX_LEN,
        crate::radiocfg::file_meaning(text) is Ok,
    ensures
        ({
            let cfg = crate::radiocfg::file_meaning(text)->Ok_0;
            &&& boot_choice(Some(text), page) == (cfg, true)
            &&& boot_choice(None, programmed(header_bytes(text), text)) == (cfg, true)
        }),
{
    law_store_roundtrip(text);
}

/// What a step that succeeds makes of the page, for `text`.
pub open spec fn page_after(step: StoreStep, page: Seq<u8>, text: Seq<u8>) -> Seq<u8> {
    match step {
        StoreStep::Erase => Seq::new(PAGE_LEN as nat, |i: int| 0xFFu8),
        StoreStep::ProgramText => with_bytes(page, HEADER_LEN as int, text),
        StoreStep::ProgramHeader => with_bytes(page, 0, header_bytes(text)),
        StoreStep::Finished { .. } => page,
    }
}

/// A config is stored step by step, and between the steps the page never
/// holds part of one: it stores nothing from the erase on, and the whole text
/// once the header has landed, which is when it counts as stored.
pub proof fn law_config_is_stored_whole(page: Seq<u8>, text: Seq<u8>)
    requires
        0 < text.len() <= MAX_LEN,
    ensures
        ({
            let first = StoreStep::Erase;
            let second = after_step(first, true);
            let third = after_step(second, true);
            let erased = page_after(first, page, text);
            let filled = page_after(second, erased, text);
            let headed = page_after(third, filled, text);
            &&& stored_text(erased) is None
            &&& stored_text(filled) is None
            &&& stored_text(headed) == Some(text)
            &&& after_step(third, true) == (StoreStep::Finished { stored: true })
            &&& after_step(first, false) == (StoreStep::Finished { stored: false })
            &&& after_step(second, false) == (StoreStep::Finished { stored: false })
            &&& after_step(third, false) == (StoreStep::Finished { stored: false })
        }),
{
    let erased = page_after(StoreStep::Erase, page, text);
    let filled = page_after(StoreStep::ProgramText, erased, text);
    law_half_written_is_nothing(erased);
    law_half_written_is_nothing(filled);
    assert(page_after(StoreStep::ProgramHeader, filled, text) =~= programmed(
        header_bytes(text),
        text,
    ));
    law_store_roundtrip(text);
}

/// Power lost before the header lands leaves a page that stores nothing,
/// whatever text it holds.
pub proof fn law_half_written_is_nothing(page: Seq<u8>)
    requires
        page.len() == PAGE_LEN,
        forall|i: int| 0 <= i < 4 ==> #[trigger] page[i] == 0xFF,
    ensures
        stored_text(page) is None,
{
    assert(page[0] == 0xFF && page[1] == 0xFF && page[2] == 0xFF && page[3] == 0xFF);
}

/// A stored text with one damaged byte is not taken for a config.
pub proof fn law_damaged_text_is_nothing(text: Seq<u8>, k: int, bad: u8)
    requires
        0 < text.len() <= MAX_LEN,
        0 <= k < text.len(),
        bad != text[k],
    ensures
        stored_text(programmed(header_bytes(text), text).update(HEADER_LEN + k, bad)) is None,
{
    law_store_roundtrip(text);
    let good = programmed(header_bytes(text), text);
    let page = good.update(HEADER_LEN + k, bad);
    let hurt = text.update(k, bad);
    assert(page.subrange(0, 4) =~= good.subrange(0, 4));
    assert(page.subrange(4, 8) =~= crate::wire::u32_bytes(text.len() as u32));
    assert(page.subrange(8, 12) =~= crate::wire::u32_bytes(crate::link::crc32_of(text)));
    crate::wire::lemma_u32_at(page, 4, text.len() as u32);
    crate::wire::lemma_u32_at(page, 8, crate::link::crc32_of(text));
    assert(page.subrange(HEADER_LEN as int, HEADER_LEN + text.len()) =~= hurt);
    crate::link::law_crc32_detects_byte_error(text, hurt, k);
}

/// A board boots with the configuration on the card where that parses, without
/// a look at the flash; else with the one stored in flash where that parses;
/// else with the defaults, and then nothing counts as loaded.
pub proof fn law_boot_prefers_the_card(card: Option<Seq<u8>>, page: Seq<u8>)
    ensures
        ({
            let (cfg, loaded) = boot_choice(card, page);
            let good_card = card matches Some(text) && crate::radiocfg::file_meaning(text) is Ok;
            let good_flash = stored_text(page) matches Some(text) && crate::radiocfg::file_meaning(
                text,
            ) is Ok;
            &&& loaded <==> good_card || good_flash
            &&& good_card ==> (crate::radiocfg::file_meaning(card->0) matches Ok(c) && cfg == c)
            &&& !good_card && good_flash ==> (crate::radiocfg::file_meaning(
                stored_text(page)->0,
            ) matches Ok(c) && cfg == c)
            &&& !loaded ==> cfg == RadioConfig::defaults()
        }),
{
}

/// A page stores a text exactly where it starts with the magic number, the
/// length is from 1 byte to the rest of the page, and the CRC-32 in the header
/// is that of the text behind it.
pub proof fn law_stored_means_intact(page: Seq<u8>, text: Seq<u8>)
    requires
        page.len() == 2048,
    ensures
        stored_text(page) == Some(text) <==> {
            &&& crate::wire::u32_at(page, 0) == 0x4746_4331
            &&& 0 < text.len() <= 2032
            &&& crate::wire::u32_at(page, 4) == text.len()
            &&& crate::wire::u32_at(page, 8) == crate::link::crc32_of(text)
            &&& page.subrange(16, 16 + text.len() as int) == text
        },
{
}

/// Storing erases first, then programs the text, and the header last; it ends
/// stored where every step succeeds, and unstored at the first that fails.
pub proof fn law_store_steps(stored: bool, ok: bool)
    ensures
        after_step(StoreStep::Erase, true) == StoreStep::ProgramText,
        after_step(StoreStep::ProgramText, true) == StoreStep::ProgramHeader,
        after_step(StoreStep::ProgramHeader, true) == (StoreStep::Finished { stored: true }),
        forall|step: StoreStep|
            !(step is Finished) ==> #[trigger] after_step(step, false) == (StoreStep::Finished {
                stored: false,
            }),
        after_step(StoreStep::Finished { stored }, ok) == (StoreStep::Finished { stored }),
{
}

/// A text of 1 to 2032 bytes can be stored, and one that a page stores is
/// copied out whole to the start of a buffer that has room for it, with the
/// rest of the buffer as it was. A smaller buffer, and any buffer where
/// nothing is stored, is left alone.
pub proof fn law_stored_text_is_copied_out(page: Seq<u8>, text: Seq<u8>, buf: Seq<u8>)
    ensures
        storable(text) <==> 1 <= text.len() <= 2032,
        stored_text(page) == Some(text) && text.len() <= buf.len() && buf.len() <= usize::MAX ==> {
            let (after, n) = copied_out(page, buf);
            &&& n matches Some(len) && len == text.len()
            &&& after.len() == buf.len()
            &&& after.take(text.len() as int) == text
            &&& after.skip(text.len() as int) == buf.skip(text.len() as int)
        },
        stored_text(page) == Some(text) && text.len() > buf.len() ==> copied_out(page, buf) == (
            buf,
            None::<usize>,
        ),
        stored_text(page) is None ==> copied_out(page, buf) == (buf, None::<usize>),
{
    let after = text + buf.skip(text.len() as int);
    if text.len() <= buf.len() {
        assert(after.take(text.len() as int) =~= text);
        assert(after.skip(text.len() as int) =~= buf.skip(text.len() as int));
    }
}

} // verus!

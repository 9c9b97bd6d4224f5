//! SD card protocol in SPI mode: command frames, the initialization dialog,
//! capacity, and single-block addressing.
//!
//! The board has no card-detect switch - presence is determined by whether
//! the initialization succeeds. The bus itself is driven by the caller, one
//! step of the dialog at a time.

use vstd::prelude::*;

verus! {

/// SD card errors.
#[derive(Clone, Copy, Debug, PartialEq, Eq)]
pub enum SdError {
    /// Card did not respond in time.
    Timeout,
    /// Unexpected R1/token response (value included).
    Response(u8),
    /// SPI bus error.
    Spi,
    /// Card not initialized.
    NotInitialized,
}

#[derive(Clone, Copy, Debug, PartialEq, Eq, Structural)]
pub enum SdKind {
    /// SDSC v1, byte addressing.
    Sd1,
    /// SDSC v2, byte addressing.
    Sd2,
    /// SDHC/SDXC, block addressing.
    Sdhc,
}

pub const SD_BLOCK_LEN: usize = 512;

/// Bytes in which the R1 response to a command has to arrive.
pub const R1_TRIES: u8 = 8;

/// Attempts at the software reset.
pub const RESET_TRIES: u8 = 32;

/// How long a card may take to leave the idle state (ms).
pub const IDLE_TIMEOUT_MS: u32 = 1_000;

/// How long a card may take to start a data block (ms).
pub const TOKEN_TIMEOUT_MS: u32 = 200;

/// How long a card may take to write a block (ms).
pub const WRITE_TIMEOUT_MS: u32 = 500;

// -- Commands -----------------------------------------------------------------

/// The CRC byte of a command. It is only checked for CMD0 and CMD8 in SPI
/// mode, so the others carry a dummy.
pub open spec fn command_crc(cmd: u8) -> u8 {
    if cmd == 0 {
        0x95
    } else if cmd == 8 {
        0x87
    } else {
        0x01
    }
}

/// The six bytes of a command: its index with the start bits, the argument
/// most significant byte first, and the CRC.
pub open spec fn command_bytes(cmd: u8, arg: u32) -> Seq<u8> {
    seq![
        (0x40 + cmd) as u8,
        (arg / 0x100_0000) as u8,
        (arg / 0x1_0000 % 256) as u8,
        (arg / 0x100 % 256) as u8,
        (arg % 256) as u8,
        command_crc(cmd),
    ]
}

/// The frame of a command.
pub fn command_frame(cmd: u8, arg: u32) -> (frame: [u8; 6])
    requires
        cmd < 64,
    ensures
        frame@ == command_bytes(cmd, arg),
{
    let crc: u8 = if cmd == 0 {
        0x95
    } else if cmd == 8 {
        0x87
    } else {
        0x01
    };
    let frame: [u8; 6] = [
        0x40 + cmd,
        (arg / 0x100_0000) as u8,
        (arg / 0x1_0000 % 256) as u8,
        (arg / 0x100 % 256) as u8,
        (arg % 256) as u8,
        crc,
    ];
    assert(frame@ =~= command_bytes(cmd, arg));
    frame
}

/// What a byte read while waiting means.
#[derive(Clone, Copy, Debug, PartialEq, Eq)]
pub enum Wait {
    /// Read another byte.
    Again,
    /// This is what was waited for.
    Ready(u8),
    /// It will not come.
    Failed(SdError),
}

/// What a byte read in answer to a command means; `tries` were read before
/// it. An R1 response has its top bit clear.
pub open spec fn r1_wait(byte: u8, tries: u8) -> Wait {
    if byte < 0x80 {
        Wait::Ready(byte)
    } else if tries + 1 >= R1_TRIES {
        Wait::Failed(SdError::Timeout)
    } else {
        Wait::Again
    }
}

/// Look at a byte read in answer to a command; `tries` were read before it.
pub fn response(byte: u8, tries: u8) -> (w: Wait)
    requires
        tries < R1_TRIES,
    ensures
        w == r1_wait(byte, tries),
{
    if byte < 0x80 {
        Wait::Ready(byte)
    } else if tries + 1 >= R1_TRIES {
        Wait::Failed(SdError::Timeout)
    } else {
        Wait::Again
    }
}

/// What a byte read while waiting for a data block means: 0xFE starts the
/// block, 0xFF is idle fill.
pub open spec fn token_wait(byte: u8, elapsed_ms: u32, timeout_ms: u32) -> Wait {
    if byte == 0xFE {
        Wait::Ready(byte)
    } else if byte != 0xFF {
        Wait::Failed(SdError::Response(byte))
    } else if elapsed_ms > timeout_ms {
        Wait::Failed(SdError::Timeout)
    } else {
        Wait::Again
    }
}

/// Look at a byte read while waiting for a data start token.
pub fn start_token(byte: u8, elapsed_ms: u32, timeout_ms: u32) -> (w: Wait)
    ensures
        w == token_wait(byte, elapsed_ms, timeout_ms),
{
    if byte == 0xFE {
        Wait::Ready(byte)
    } else if byte != 0xFF {
        Wait::Failed(SdError::Response(byte))
    } else if elapsed_ms > timeout_ms {
        Wait::Failed(SdError::Timeout)
    } else {
        Wait::Again
    }
}

/// What a byte read while the card is busy means: 0xFF is the end of it.
pub open spec fn busy_wait(byte: u8, elapsed_ms: u32, timeout_ms: u32) -> Wait {
    if byte == 0xFF {
        Wait::Ready(byte)
    } else if elapsed_ms > timeout_ms {
        Wait::Failed(SdError::Timeout)
    } else {
        Wait::Again
    }
}

/// Look at a byte read while waiting for the card to finish writing.
pub fn not_busy(byte: u8, elapsed_ms: u32, timeout_ms: u32) -> (w: Wait)
    ensures
        w == busy_wait(byte, elapsed_ms, timeout_ms),
{
    if byte == 0xFF {
        Wait::Ready(byte)
    } else if elapsed_ms > timeout_ms {
        Wait::Failed(SdError::Timeout)
    } else {
        Wait::Again
    }
}

/// What a card's answer to a block says.
pub open spec fn block_taken(byte: u8) -> Result<(), SdError> {
    if byte % 32 == 5 {
        Ok(())
    } else {
        Err(SdError::Response((byte % 32) as u8))
    }
}

/// What a card's answer to a command says.
pub open spec fn command_taken(r1: u8) -> Result<(), SdError> {
    if r1 == 0 {
        Ok(())
    } else {
        Err(SdError::Response(r1))
    }
}

/// Whether the card accepted the block that was just sent: the low five bits
/// of its answer are 0x05.
pub fn data_response(byte: u8) -> (r: Result<(), SdError>)
    ensures
        r == block_taken(byte),
        match r {
            Ok(()) => byte % 32 == 5,
            Err(e) => byte % 32 != 5 && e == SdError::Response((byte % 32) as u8),
        },
{
    if byte % 32 == 5 {
        Ok(())
    } else {
        Err(SdError::Response(byte % 32))
    }
}

/// Whether a command was accepted.
pub fn accepted(r1: u8) -> (r: Result<(), SdError>)
    ensures
        r == command_taken(r1),
        match r {
            Ok(()) => r1 == 0,
            Err(e) => r1 != 0 && e == SdError::Response(r1),
        },
{
    if r1 == 0x00 {
        Ok(())
    } else {
        Err(SdError::Response(r1))
    }
}

// -- Capacity -----------------------------------------------------------------

/// C_SIZE of a version 2 CSD: bits 69 to 48.
pub open spec fn csd2_size(csd: Seq<u8>) -> int {
    (csd[7] % 64) * 65536 + csd[8] * 256 + csd[9]
}

/// C_SIZE of a version 1 CSD, plus one: bits 73 to 62.
pub open spec fn csd1_size(csd: Seq<u8>) -> int {
    (csd[6] % 4) * 1024 + csd[7] * 4 + csd[8] / 64 + 1
}

/// C_SIZE_MULT of a version 1 CSD: bits 49 to 47.
pub open spec fn csd1_mult(csd: Seq<u8>) -> int {
    (csd[9] % 4) * 2 + csd[10] / 128
}

/// READ_BL_LEN of a version 1 CSD: bits 83 to 80.
pub open spec fn csd1_block_len(csd: Seq<u8>) -> int {
    csd[5] as int % 16
}

/// Capacity in 512-byte blocks that a CSD register states: (C_SIZE + 1) * 1024
/// in version 2, C_SIZE * 2^(C_SIZE_MULT + 2) * 2^READ_BL_LEN / 512 in
/// version 1.
pub open spec fn capacity(csd: Seq<u8>) -> int {
    if csd[0] / 64 == 1 {
        (csd2_size(csd) + 1) * 1024
    } else {
        csd1_size(csd) * vstd::arithmetic::power2::pow2(
            (csd1_mult(csd) + 2 + csd1_block_len(csd)) as nat,
        ) / 512
    }
}

/// Capacity in 512-byte blocks from a raw CSD register.
pub fn csd_capacity_blocks(csd: &[u8; 16]) -> (blocks: u32)
    requires
        capacity(csd@) <= u32::MAX,
    ensures
        blocks == capacity(csd@),
{
    if csd[0] / 64 == 1 {
        // CSD v2 (SDHC/SDXC).
        let c_size: u32 = (csd[7] % 64) as u32 * 65536 + csd[8] as u32 * 256 + csd[9] as u32;
        (c_size + 1) * 1024
    } else {
        let read_bl_len: u64 = (csd[5] % 16) as u64;
        let c_size: u64 = (csd[6] % 4) as u64 * 1024 + csd[7] as u64 * 4 + (csd[8] / 64) as u64 + 1;
        let c_size_mult: u64 = (csd[9] % 4) as u64 * 2 + (csd[10] / 128) as u64;
        let shift: u64 = c_size_mult + 2 + read_bl_len;
        proof {
            vstd::arithmetic::power2::lemma2_to64();
            if shift < 24 {
                vstd::arithmetic::power2::lemma_pow2_strictly_increases(shift as nat, 24);
            }
            let p = vstd::arithmetic::power2::pow2(shift as nat);
            assert(c_size * p <= 4096 * 0x100_0000) by (nonlinear_arith)
                requires
                    c_size <= 4096,
                    p <= 0x100_0000,
            ;
            vstd::bits::lemma_u64_shl_is_mul(c_size, shift);
        }
        ((c_size << shift) / 512) as u32
    }
}

/// A version 1 CSD never states more than the block count holds.
pub proof fn law_small_cards_fit(csd: Seq<u8>)
    requires
        csd.len() == 16,
        csd[0] / 64 != 1,
    ensures
        0 <= capacity(csd) <= 0x800_0000,
{
    let shift = (csd1_mult(csd) + 2 + csd1_block_len(csd)) as nat;
    let size = csd1_size(csd);
    let p = vstd::arithmetic::power2::pow2(shift) as int;
    vstd::arithmetic::power2::lemma2_to64();
    vstd::arithmetic::power2::lemma_pow2_pos(shift);
    if shift < 24 {
        vstd::arithmetic::power2::lemma_pow2_strictly_increases(shift, 24);
    }
    assert(0 <= size * p <= 4096 * 0x100_0000) by (nonlinear_arith)
        requires
            0 <= size <= 4096,
            0 <= p <= 0x100_0000,
    ;
}

// -- Initialization -----------------------------------------------------------

/// Where the initialization dialog stands.
#[derive(Clone, Copy, Debug, PartialEq, Eq, Structural)]
pub enum InitStage {
    /// Nothing has happened yet.
    Begin,
    /// CMD0 was sent after `tries` earlier attempts.
    Reset { tries: u8 },
    /// CMD8 was sent.
    Voltage,
    /// The CMD8 echo is being read.
    Echo,
    /// CMD55 was sent.
    Prefix { v2: bool },
    /// ACMD41 was sent.
    Activate { v2: bool },
    /// CMD58 was sent.
    Ocr,
    /// The OCR register is being read.
    OcrBytes,
    /// CMD16 was sent.
    BlockLen { v2: bool },
    /// CMD9 was sent.
    Csd { kind: SdKind },
    /// The CSD register is being read.
    CsdBytes { kind: SdKind },
    /// The dialog is over.
    Over,
}

/// What happened in the initialization dialog.
#[derive(Clone, Copy, Debug, PartialEq, Eq)]
pub enum InitEvent {
    /// The bus was set to its slow clock and 80 clocks went out with the card
    /// deselected.
    Clocked,
    /// The R1 response to the last command; `elapsed_ms` since the card was
    /// first told to leave the idle state.
    R1 { r1: u8, elapsed_ms: u32 },
    /// Four bytes that were asked for.
    Word([u8; 4]),
    /// The CSD register.
    Register([u8; 16]),
    /// The bus or the card failed.
    Failed(SdError),
}

/// What to do next in the initialization dialog.
#[derive(Clone, Copy, Debug, PartialEq, Eq)]
pub enum InitStep {
    /// Select the card (deselecting it first where it is selected, with a
    /// trailing clock byte) and send a command.
    Select { cmd: u8, arg: u32 },
    /// Send a command to the selected card.
    Command { cmd: u8, arg: u32 },
    /// Read four bytes.
    ReadWord,
    /// Wait for a data block, read its 16 bytes and drop its CRC.
    ReadRegister,
    /// The card is ready: deselect it and set the bus to its fast clock.
    Done { kind: SdKind, blocks: u32 },
    /// The card cannot be used: deselect it.
    Fail(SdError),
}

/// ACMD41's argument: whether the host handles high capacity cards.
pub open spec fn capacity_arg(v2: bool) -> u32 {
    if v2 {
        0x4000_0000
    } else {
        0
    }
}

/// The dialog after an event, and what it does next: CMD0, CMD8, ACMD41,
/// CMD58 or CMD16, CMD9.
pub open spec fn init_next(stage: InitStage, event: InitEvent) -> (InitStage, InitStep) {
    let fail = |e: SdError| (InitStage::Over, InitStep::Fail(e));
    let block_len = |v2: bool|
        (InitStage::BlockLen { v2 }, InitStep::Command { cmd: 16, arg: SD_BLOCK_LEN as u32 });
    let prefix = |v2: bool|
        (InitStage::Prefix { v2 }, InitStep::Command { cmd: 55, arg: 0 });
    let capacity_of = |kind: SdKind|
        (InitStage::Csd { kind }, InitStep::Select { cmd: 9, arg: 0 });
    match (stage, event) {
        (_, InitEvent::Failed(e)) => fail(e),
        (InitStage::Begin, InitEvent::Clocked) => (
            InitStage::Reset { tries: 0 },
            InitStep::Select { cmd: 0, arg: 0 },
        ),
        // Software reset into the idle state.
        (InitStage::Reset { tries }, InitEvent::R1 { r1, .. }) => if r1 == 0x01 {
            (InitStage::Voltage, InitStep::Command { cmd: 8, arg: 0x1AA })
        } else if tries + 1 < RESET_TRIES {
            (
                InitStage::Reset { tries: (tries + 1) as u8 },
                InitStep::Command { cmd: 0, arg: 0 },
            )
        } else {
            fail(SdError::Response(r1))
        },
        // The voltage check distinguishes v2 from v1 cards, to which it is an
        // illegal command.
        (InitStage::Voltage, InitEvent::R1 { r1, .. }) => if r1 == 0x01 {
            (InitStage::Echo, InitStep::ReadWord)
        } else {
            prefix(false)
        },
        (InitStage::Echo, InitEvent::Word(r7)) => if r7[3] != 0xAA {
            fail(SdError::Response(r7[3]))
        } else {
            prefix(true)
        },
        // ACMD41 until the card leaves idle.
        (InitStage::Prefix { v2 }, InitEvent::R1 { .. }) => (
            InitStage::Activate { v2 },
            InitStep::Command { cmd: 41, arg: capacity_arg(v2) },
        ),
        (InitStage::Activate { v2 }, InitEvent::R1 { r1, elapsed_ms }) => if r1 == 0x00 {
            if v2 {
                (InitStage::Ocr, InitStep::Command { cmd: 58, arg: 0 })
            } else {
                block_len(false)
            }
        } else if elapsed_ms > IDLE_TIMEOUT_MS {
            fail(SdError::Timeout)
        } else {
            prefix(v2)
        },
        // The CCS bit of the OCR selects block addressing.
        (InitStage::Ocr, InitEvent::R1 { r1, .. }) => if r1 != 0x00 {
            fail(SdError::Spi)
        } else {
            (InitStage::OcrBytes, InitStep::ReadWord)
        },
        (InitStage::OcrBytes, InitEvent::Word(ocr)) => if ocr[0] / 64 % 2 == 1 {
            capacity_of(SdKind::Sdhc)
        } else {
            block_len(true)
        },
        // Byte-addressed cards: the block length is fixed at 512.
        (InitStage::BlockLen { v2 }, InitEvent::R1 { r1, .. }) => if r1 != 0x00 {
            fail(SdError::Response(r1))
        } else {
            capacity_of(
                if v2 {
                    SdKind::Sd2
                } else {
                    SdKind::Sd1
                },
            )
        },
        // The CSD gives the capacity.
        (InitStage::Csd { kind }, InitEvent::R1 { r1, .. }) => if r1 != 0x00 {
            fail(SdError::Response(r1))
        } else {
            (InitStage::CsdBytes { kind }, InitStep::ReadRegister)
        },
        (InitStage::CsdBytes { kind }, InitEvent::Register(csd)) => (
            InitStage::Over,
            InitStep::Done { kind, blocks: capacity(csd@) as u32 },
        ),
        // An event that does not belong here.
        _ => fail(SdError::Spi),
    }
}

/// An SD card as far as the protocol knows it.
#[derive(Clone, Copy, Debug, PartialEq, Eq, Structural)]
pub struct SdCard {
    /// Card kind, once initialized.
    pub kind: Option<SdKind>,
    /// Card capacity in 512-byte blocks (from the CSD), once initialized.
    pub num_blocks: u32,
    /// Where the initialization stands.
    pub stage: InitStage,
}

impl SdCard {
    /// The address of a block in the card's own units.
    pub open spec fn address(self, lba: u32) -> Result<u32, SdError> {
        match self.kind {
            Some(SdKind::Sdhc) => Ok(lba),
            Some(_) => Ok((lba * SD_BLOCK_LEN) as u32),
            None => Err(SdError::NotInitialized),
        }
    }

    /// Command `cmd` on a block, with its argument.
    pub open spec fn asks(self, cmd: u8, lba: u32) -> Result<(u8, u32), SdError> {
        match self.address(lba) {
            Ok(addr) => Ok((cmd, addr)),
            Err(e) => Err(e),
        }
    }

    pub fn new() -> (sd: Self)
        ensures
            sd == (SdCard { kind: None, num_blocks: 0, stage: InitStage::Begin }),
    {
        SdCard { kind: None, num_blocks: 0, stage: InitStage::Begin }
    }

    /// Card kind detected by the last successful initialization.
    pub fn kind(&self) -> (k: Option<SdKind>)
        ensures
            k == self.kind,
    {
        self.kind
    }

    /// Whether the card initialized successfully.
    pub fn ready(&self) -> (r: bool)
        ensures
            r == (self.kind is Some),
    {
        self.kind.is_some()
    }

    /// Capacity in 512-byte blocks (0 before init).
    pub fn num_blocks(&self) -> (n: u32)
        ensures
            n == self.num_blocks,
    {
        self.num_blocks
    }

    /// Forget the card (after an IO error, so the retry path re-inits).
    pub fn deinit(&mut self)
        ensures
            *final(self) == (SdCard { kind: None, ..*old(self) }),
    {
        self.kind = None;
    }

    /// Begin the initialization (CMD0 / CMD8 / ACMD41 / CMD58 / CMD9
    /// sequence). The bus goes to its slow clock and the card gets at least
    /// 74 clocks deselected; then the dialog runs by [`init`](Self::init).
    pub fn begin_init(&mut self)
        ensures
            *final(self) == (SdCard { kind: None, stage: InitStage::Begin, ..*old(self) }),
    {
        self.kind = None;
        self.stage = InitStage::Begin;
    }

    /// Take an event of the initialization dialog, and say what to do next.
    pub fn init(&mut self, event: InitEvent) -> (next: InitStep)
        requires
            event matches InitEvent::Register(csd) ==> capacity(csd@) <= u32::MAX,
            old(self).stage matches InitStage::Reset { tries } ==> tries < RESET_TRIES,
        ensures
            (final(self).stage, next) == init_next(old(self).stage, event),
            final(self).stage matches InitStage::Reset { tries } ==> tries < RESET_TRIES,
            match next {
                InitStep::Done { kind, blocks } => final(self).kind == Some(kind) && final(
                    self).num_blocks == blocks,
                _ => final(self).kind == old(self).kind && final(self).num_blocks == old(
                    self,
                ).num_blocks,
            },
    {
        if let InitEvent::Failed(e) = event {
            return self.failed(e);
        }
        match (self.stage, event) {
            (InitStage::Begin, InitEvent::Clocked) => {
                self.stage = InitStage::Reset { tries: 0 };
                InitStep::Select { cmd: 0, arg: 0 }
            },
            (InitStage::Reset { tries }, InitEvent::R1 { r1, .. }) => {
                if r1 == 0x01 {
                    self.stage = InitStage::Voltage;
                    InitStep::Command { cmd: 8, arg: 0x1AA }
                } else if tries + 1 < RESET_TRIES {
                    self.stage = InitStage::Reset { tries: tries + 1 };
                    InitStep::Command { cmd: 0, arg: 0 }
                } else {
                    self.failed(SdError::Response(r1))
                }
            },
            (InitStage::Voltage, InitEvent::R1 { r1, .. }) => {
                if r1 == 0x01 {
                    self.stage = InitStage::Echo;
                    InitStep::ReadWord
                } else {
                    self.stage = InitStage::Prefix { v2: false };
                    InitStep::Command { cmd: 55, arg: 0 }
                }
            },
            (InitStage::Echo, InitEvent::Word(r7)) => {
                if r7[3] != 0xAA {
                    self.failed(SdError::Response(r7[3]))
                } else {
                    self.stage = InitStage::Prefix { v2: true };
                    InitStep::Command { cmd: 55, arg: 0 }
                }
            },
            (InitStage::Prefix { v2 }, InitEvent::R1 { .. }) => {
                self.stage = InitStage::Activate { v2 };
                let arg: u32 = if v2 {
                    0x4000_0000
                } else {
                    0
                };
                InitStep::Command { cmd: 41, arg }
            },
            (InitStage::Activate { v2 }, InitEvent::R1 { r1, elapsed_ms }) => {
                if r1 == 0x00 {
                    if v2 {
                        self.stage = InitStage::Ocr;
                        InitStep::Command { cmd: 58, arg: 0 }
                    } else {
                        self.stage = InitStage::BlockLen { v2: false };
                        InitStep::Command { cmd: 16, arg: SD_BLOCK_LEN as u32 }
                    }
                } else if elapsed_ms > IDLE_TIMEOUT_MS {
                    self.failed(SdError::Timeout)
                } else {
                    self.stage = InitStage::Prefix { v2 };
                    InitStep::Command { cmd: 55, arg: 0 }
                }
            },
            (InitStage::Ocr, InitEvent::R1 { r1, .. }) => {
                if r1 != 0x00 {
                    self.failed(SdError::Spi)
                } else {
                    self.stage = InitStage::OcrBytes;
                    InitStep::ReadWord
                }
            },
            (InitStage::OcrBytes, InitEvent::Word(ocr)) => {
                if ocr[0] / 64 % 2 == 1 {
                    self.stage = InitStage::Csd { kind: SdKind::Sdhc };
                    InitStep::Select { cmd: 9, arg: 0 }
                } else {
                    self.stage = InitStage::BlockLen { v2: true };
                    InitStep::Command { cmd: 16, arg: SD_BLOCK_LEN as u32 }
                }
            },
            (InitStage::BlockLen { v2 }, InitEvent::R1 { r1, .. }) => {
                if r1 != 0x00 {
                    self.failed(SdError::Response(r1))
                } else {
                    let kind: SdKind = if v2 {
                        SdKind::Sd2
                    } else {
                        SdKind::Sd1
                    };
                    self.stage = InitStage::Csd { kind };
                    InitStep::Select { cmd: 9, arg: 0 }
                }
            },
            (InitStage::Csd { kind }, InitEvent::R1 { r1, .. }) => {
                if r1 != 0x00 {
                    self.failed(SdError::Response(r1))
                } else {
                    self.stage = InitStage::CsdBytes { kind };
                    InitStep::ReadRegister
                }
            },
            (InitStage::CsdBytes { kind }, InitEvent::Register(csd)) => {
                let blocks: u32 = csd_capacity_blocks(&csd);
                self.stage = InitStage::Over;
                self.num_blocks = blocks;
                self.kind = Some(kind);
                InitStep::Done { kind, blocks }
            },
            _ => self.failed(SdError::Spi),
        }
    }

    fn failed(&mut self, e: SdError) -> (next: InitStep)
        ensures
            next == InitStep::Fail(e),
            *final(self) == (SdCard { stage: InitStage::Over, ..*old(self) }),
    {
        self.stage = InitStage::Over;
        InitStep::Fail(e)
    }

    /// The address of a block in the card's own units: blocks on a
    /// high-capacity card, bytes on the others.
    pub fn block_addr(&self, lba: u32) -> (r: Result<u32, SdError>)
        requires
            self.kind is Some && self.kind->0 != SdKind::Sdhc ==> lba * SD_BLOCK_LEN <= u32::MAX,
        ensures
            r == self.address(lba),
    {
        match self.kind {
            Some(SdKind::Sdhc) => Ok(lba),
            Some(_) => Ok(lba * (SD_BLOCK_LEN as u32)),
            None => Err(SdError::NotInitialized),
        }
    }

    /// The command that reads one 512-byte block: its index and argument.
    pub fn read_block(&self, lba: u32) -> (r: Result<(u8, u32), SdError>)
        requires
            self.kind is Some && self.kind->0 != SdKind::Sdhc ==> lba * SD_BLOCK_LEN <= u32::MAX,
        ensures
            r == self.asks(17, lba),
    {
        match self.block_addr(lba) {
            Ok(addr) => Ok((17, addr)),
            Err(e) => Err(e),
        }
    }

    /// The command that writes one 512-byte block: its index and argument.
    pub fn write_block(&self, lba: u32) -> (r: Result<(u8, u32), SdError>)
        requires
            self.kind is Some && self.kind->0 != SdKind::Sdhc ==> lba * SD_BLOCK_LEN <= u32::MAX,
        ensures
            r == self.asks(24, lba),
    {
        match self.block_addr(lba) {
            Ok(addr) => Ok((24, addr)),
            Err(e) => Err(e),
        }
    }
}

// -- Laws ---------------------------------------------------------------------

/// A card is ready only at the end of the dialog, after its CSD was read, and
/// a high-capacity card is one that said so in its OCR.
pub proof fn law_ready_after_the_dialog(stage: InitStage, event: InitEvent)
    ensures
        init_next(stage, event).1 is Done ==> stage is CsdBytes && event is Register,
        init_next(stage, event).0 matches InitStage::Csd { kind } && kind == SdKind::Sdhc
            ==> stage is OcrBytes,
        init_next(stage, event).1 is Fail ==> init_next(stage, event).0 == InitStage::Over,
{
}

/// A card that stays silent or stuck cannot hold the dialog up: the reset is
/// tried [`RESET_TRIES`] times at most, and waiting for the idle state ends
/// with the timeout.
pub proof fn law_dialog_gives_up(tries: u8, v2: bool, r1: u8, elapsed_ms: u32)
    ensures
        r1 != 0x01 && tries + 1 >= RESET_TRIES ==> init_next(
            InitStage::Reset { tries },
            InitEvent::R1 { r1, elapsed_ms },
        ) == (InitStage::Over, InitStep::Fail(SdError::Response(r1))),
        r1 != 0x00 && elapsed_ms > IDLE_TIMEOUT_MS ==> init_next(
            InitStage::Activate { v2 },
            InitEvent::R1 { r1, elapsed_ms },
        ) == (InitStage::Over, InitStep::Fail(SdError::Timeout)),
{
}

/// The dialog after a run of events, and what it does last.
pub open spec fn dialog(stage: InitStage, events: Seq<InitEvent>) -> (InitStage, InitStep)
    decreases events.len(),
{
    if events.len() <= 1 {
        init_next(stage, events[0])
    } else {
        init_next(dialog(stage, events.drop_last()).0, events.last())
    }
}

/// A response to a command.
pub open spec fn answer(r1: u8) -> InitEvent {
    InitEvent::R1 { r1, elapsed_ms: 0 }
}

/// A card that answers as its kind does becomes ready, as that kind and with
/// the capacity that its CSD states.
pub proof fn law_good_card_becomes_ready(
    echo: [u8; 4],
    ocr: [u8; 4],
    csd: [u8; 16],
    refusal: u8,
    any: u8,
)
    requires
        echo[3] == 0xAA,
        refusal != 0x01,
    ensures
        ({
            let version2 = seq![
                InitEvent::Clocked,
                answer(0x01),
                answer(0x01),
                InitEvent::Word(echo),
                answer(any),
                answer(0x00),
                answer(0x00),
                InitEvent::Word(ocr),
            ];
            let read = seq![answer(0x00), InitEvent::Register(csd)];
            if ocr[0] / 64 % 2 == 1 {
                dialog(InitStage::Begin, version2 + read).1 == (InitStep::Done {
                    kind: SdKind::Sdhc,
                    blocks: capacity(csd@) as u32,
                })
            } else {
                dialog(InitStage::Begin, version2 + seq![answer(0x00)] + read).1 == (
                InitStep::Done { kind: SdKind::Sd2, blocks: capacity(csd@) as u32 })
            }
        }),
        dialog(
            InitStage::Begin,
            seq![
                InitEvent::Clocked,
                answer(0x01),
                answer(refusal),
                answer(any),
                answer(0x00),
                answer(0x00),
                answer(0x00),
                InitEvent::Register(csd),
            ],
        ).1 == (InitStep::Done { kind: SdKind::Sd1, blocks: capacity(csd@) as u32 }),
{
    let begin = InitStage::Begin;
    let e2 = seq![InitEvent::Clocked, answer(0x01)];
    lemma_dialog_step(begin, seq![InitEvent::Clocked], answer(0x01));
    let e3 = e2.push(answer(0x01));
    lemma_dialog_step(begin, e2, answer(0x01));
    let e4 = e3.push(InitEvent::Word(echo));
    lemma_dialog_step(begin, e3, InitEvent::Word(echo));
    let e5 = e4.push(answer(any));
    lemma_dialog_step(begin, e4, answer(any));
    let e6 = e5.push(answer(0x00));
    lemma_dialog_step(begin, e5, answer(0x00));
    let e7 = e6.push(answer(0x00));
    lemma_dialog_step(begin, e6, answer(0x00));
    let e8 = e7.push(InitEvent::Word(ocr));
    lemma_dialog_step(begin, e7, InitEvent::Word(ocr));
    let e9 = e8.push(answer(0x00));
    lemma_dialog_step(begin, e8, answer(0x00));
    lemma_dialog_step(begin, e9, InitEvent::Register(csd));
    lemma_dialog_step(begin, e9, answer(0x00));
    lemma_dialog_step(begin, e9.push(answer(0x00)), InitEvent::Register(csd));
    assert(seq![InitEvent::Clocked].push(answer(0x01)) =~= e2);
    let version2 = seq![
        InitEvent::Clocked,
        answer(0x01),
        answer(0x01),
        InitEvent::Word(echo),
        answer(any),
        answer(0x00),
        answer(0x00),
        InitEvent::Word(ocr),
    ];
    let read = seq![answer(0x00), InitEvent::Register(csd)];
    assert(version2 + read =~= e9.push(InitEvent::Register(csd)));
    assert(version2 + seq![answer(0x00)] + read =~= e9.push(answer(0x00)).push(
        InitEvent::Register(csd),
    ));
    let f3 = e2.push(answer(refusal));
    lemma_dialog_step(begin, e2, answer(refusal));
    let f4 = f3.push(answer(any));
    lemma_dialog_step(begin, f3, answer(any));
    let f5 = f4.push(answer(0x00));
    lemma_dialog_step(begin, f4, answer(0x00));
    let f6 = f5.push(answer(0x00));
    lemma_dialog_step(begin, f5, answer(0x00));
    let f7 = f6.push(answer(0x00));
    lemma_dialog_step(begin, f6, answer(0x00));
    lemma_dialog_step(begin, f7, InitEvent::Register(csd));
    assert(f7.push(InitEvent::Register(csd)) =~= seq![
        InitEvent::Clocked,
        answer(0x01),
        answer(refusal),
        answer(any),
        answer(0x00),
        answer(0x00),
        answer(0x00),
        InitEvent::Register(csd),
    ]);
}

proof fn lemma_dialog_step(stage: InitStage, events: Seq<InitEvent>, next: InitEvent)
    requires
        events.len() > 0,
    ensures
        dialog(stage, events.push(next)) == init_next(dialog(stage, events).0, next),
{
    assert(events.push(next).drop_last() =~= events);
}

/// The bytes of a command: its index behind the start bits, the argument most
/// significant byte first, and a CRC that is right for the two commands whose
/// CRC is checked.
pub proof fn law_commands_carry_their_argument(cmd: u8, arg: u32)
    requires
        cmd < 64,
    ensures
        ({
            let b = command_bytes(cmd, arg);
            &&& b.len() == 6
            &&& b[0] == 64 + cmd
            &&& b[1] * 16777216 + b[2] * 65536 + b[3] * 256 + b[4] == arg
            &&& b[5] % 2 == 1
            &&& cmd == 0 ==> b[5] == 0x95
            &&& cmd == 8 ==> b[5] == 0x87
        }),
{
}

/// What is read while waiting: an answer to a command is the first byte with
/// its top bit clear, for eight bytes at most; a block starts at its token, and
/// any byte but that and idle fill is the card's error; a card is busy until
/// it gives idle fill again. Waiting ends with the timeout.
pub proof fn law_waiting_ends(byte: u8, tries: u8, elapsed_ms: u32, timeout_ms: u32)
    requires
        tries < 8,
    ensures
        r1_wait(byte, tries) == Wait::Ready(byte) <==> byte < 128,
        byte >= 128 && tries < 7 ==> r1_wait(byte, tries) == Wait::Again,
        byte >= 128 && tries == 7 ==> r1_wait(byte, tries) == Wait::Failed(SdError::Timeout),
        token_wait(byte, elapsed_ms, timeout_ms) == Wait::Ready(byte) <==> byte == 0xFE,
        byte != 0xFE && byte != 0xFF ==> token_wait(byte, elapsed_ms, timeout_ms) == Wait::Failed(
            SdError::Response(byte),
        ),
        byte == 0xFF && elapsed_ms <= timeout_ms ==> token_wait(byte, elapsed_ms, timeout_ms)
            == Wait::Again,
        byte == 0xFF && elapsed_ms > timeout_ms ==> token_wait(byte, elapsed_ms, timeout_ms)
            == Wait::Failed(SdError::Timeout),
        busy_wait(byte, elapsed_ms, timeout_ms) == Wait::Ready(byte) <==> byte == 0xFF,
        byte != 0xFF && elapsed_ms <= timeout_ms ==> busy_wait(byte, elapsed_ms, timeout_ms)
            == Wait::Again,
        byte != 0xFF && elapsed_ms > timeout_ms ==> busy_wait(byte, elapsed_ms, timeout_ms)
            == Wait::Failed(SdError::Timeout),
{
}

/// A register of either layout states the capacity that its fields hold:
/// `size` and, in the older layout, the two exponents.
pub proof fn law_capacity_is_read(csd: Seq<u8>, size: int, mult: int, block_len: int)
    requires
        csd.len() == 16,
        0 <= size,
        0 <= mult < 8,
        0 <= block_len < 16,
    ensures
        csd[0] / 64 == 1 && size == (csd[7] % 64) * 65536 + csd[8] * 256 + csd[9] ==> capacity(csd)
            == 1024 * size + 1024,
        csd[0] / 64 != 1 && size == (csd[6] % 4) * 1024 + csd[7] * 4 + csd[8] / 64 && mult == (
        csd[9] % 4) * 2 + csd[10] / 128 && block_len == csd[5] % 16 ==> capacity(csd) == (size + 1)
            * vstd::arithmetic::power2::pow2((mult + 2 + block_len) as nat) / 512,
{
}

/// A block is read with CMD17 and written with CMD24, under its number on a
/// high-capacity card and under its first byte on the others; without a card
/// neither is done.
pub proof fn law_blocks_are_addressed(card: SdCard, cmd: u8, lba: u32)
    requires
        lba * 512 <= u32::MAX,
    ensures
        card.kind == Some(SdKind::Sdhc) ==> card.asks(cmd, lba) == Ok::<(u8, u32), SdError>(
            (cmd, lba),
        ),
        card.kind == Some(SdKind::Sd1) || card.kind == Some(SdKind::Sd2) ==> card.asks(cmd, lba)
            == Ok::<(u8, u32), SdError>((cmd, (512 * lba) as u32)),
        card.kind is None ==> card.asks(cmd, lba) == Err::<(u8, u32), SdError>(
            SdError::NotInitialized,
        ),
{
}

/// How the dialog goes on, answer by answer: the reset until the card is idle,
/// the voltage check that tells the newer cards, the activation until the card
/// is ready, and the addressing and capacity that it states.
pub proof fn law_dialog_goes_on(r1: u8, elapsed_ms: u32, tries: u8, v2: bool, kind: SdKind)
    requires
        tries < 32,
    ensures
        ({
            let answer = InitEvent::R1 { r1, elapsed_ms };
            let over = |e: SdError| (InitStage::Over, InitStep::Fail(e));
            &&& init_next(InitStage::Begin, InitEvent::Clocked) == (
                InitStage::Reset { tries: 0 },
                InitStep::Select { cmd: 0, arg: 0 },
            )
            &&& init_next(InitStage::Reset { tries }, answer) == if r1 == 1 {
                (InitStage::Voltage, InitStep::Command { cmd: 8, arg: 0x1AA })
            } else if tries < 31 {
                (
                    InitStage::Reset { tries: (tries + 1) as u8 },
                    InitStep::Command { cmd: 0, arg: 0 },
                )
            } else {
                over(SdError::Response(r1))
            }
            &&& init_next(InitStage::Voltage, answer) == if r1 == 1 {
                (InitStage::Echo, InitStep::ReadWord)
            } else {
                (InitStage::Prefix { v2: false }, InitStep::Command { cmd: 55, arg: 0 })
            }
            &&& init_next(InitStage::Prefix { v2 }, answer) == (
                InitStage::Activate { v2 },
                InitStep::Command {
                    cmd: 41,
                    arg: if v2 {
                        0x4000_0000
                    } else {
                        0
                    },
                },
            )
            &&& init_next(InitStage::Activate { v2 }, answer) == if r1 == 0 && v2 {
                (InitStage::Ocr, InitStep::Command { cmd: 58, arg: 0 })
            } else if r1 == 0 {
                (InitStage::BlockLen { v2: false }, InitStep::Command { cmd: 16, arg: 512 })
            } else if elapsed_ms > 1_000 {
                over(SdError::Timeout)
            } else {
                (InitStage::Prefix { v2 }, InitStep::Command { cmd: 55, arg: 0 })
            }
            &&& init_next(InitStage::Ocr, answer) == if r1 == 0 {
                (InitStage::OcrBytes, InitStep::ReadWord)
            } else {
                over(SdError::Spi)
            }
            &&& init_next(InitStage::BlockLen { v2 }, answer) == if r1 != 0 {
                over(SdError::Response(r1))
            } else if v2 {
                (InitStage::Csd { kind: SdKind::Sd2 }, InitStep::Select { cmd: 9, arg: 0 })
            } else {
                (InitStage::Csd { kind: SdKind::Sd1 }, InitStep::Select { cmd: 9, arg: 0 })
            }
            &&& init_next(InitStage::Csd { kind }, answer) == if r1 == 0 {
                (InitStage::CsdBytes { kind }, InitStep::ReadRegister)
            } else {
                over(SdError::Response(r1))
            }
        }),
{
}

/// What the words and the register of the dialog decide: the echo of the
/// voltage check has to be right, the capacity bit picks the addressing, and
/// the register gives the size. A failure ends the dialog wherever it stands.
pub proof fn law_dialog_reads(
    word: [u8; 4],
    csd: [u8; 16],
    kind: SdKind,
    stage: InitStage,
    e: SdError,
)
    ensures
        word@[3] == 0xAA ==> init_next(InitStage::Echo, InitEvent::Word(word)) == (
            InitStage::Prefix { v2: true },
            InitStep::Command { cmd: 55, arg: 0 },
        ),
        word@[3] != 0xAA ==> init_next(InitStage::Echo, InitEvent::Word(word)) == (
            InitStage::Over,
            InitStep::Fail(SdError::Response(word@[3])),
        ),
        (word@[0] / 64) % 2 == 1 ==> init_next(InitStage::OcrBytes, InitEvent::Word(word)) == (
            InitStage::Csd { kind: SdKind::Sdhc },
            InitStep::Select { cmd: 9, arg: 0 },
        ),
        (word@[0] / 64) % 2 == 0 ==> init_next(InitStage::OcrBytes, InitEvent::Word(word)) == (
            InitStage::BlockLen { v2: true },
            InitStep::Command { cmd: 16, arg: 512 },
        ),
        init_next(InitStage::CsdBytes { kind }, InitEvent::Register(csd)) == (
            InitStage::Over,
            InitStep::Done { kind, blocks: capacity(csd@) as u32 },
        ),
        init_next(stage, InitEvent::Failed(e)) == (InitStage::Over, InitStep::Fail(e)),
{
}

/// Only the low five bits of the answer to a block count, whatever the others
/// are: 5 is accepted, anything else the error. A command is accepted exactly
/// with an answer of 0.
pub proof fn law_answers_are_judged(high: u8, low: u8, r1: u8)
    requires
        high < 8,
        low < 32,
    ensures
        block_taken((32 * high + low) as u8) is Ok <==> low == 5,
        low != 5 ==> block_taken((32 * high + low) as u8) == Err::<(), SdError>(
            SdError::Response(low),
        ),
        command_taken(r1) is Ok <==> r1 == 0,
        r1 != 0 ==> command_taken(r1) == Err::<(), SdError>(SdError::Response(r1)),
{
}

} // verus!

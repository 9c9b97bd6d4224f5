//! The packet radio, and how the SX1262 inside the STM32WLE5 is driven as one.
//!
//! Modulation parameters come from a runtime [`RadioConfig`] (SD card TOML or
//! pushed over the ESP link), so [`Sx1262Driver::init`] can be called again to
//! re-configure a live radio.

use vstd::prelude::*;
use crate::radiocfg::{RadioConfig, TcxoVolts};

verus! {

/// A packet-oriented radio interface.
pub trait PacketRadio {
    /// Error type for radio operations.
    type Error: core::fmt::Debug;

    /// The packets handed to [`send`](Self::send) so far, each with what came
    /// of it. A record for specifications alone: nothing is kept at run time,
    /// and a radio driver outside verified code leaves it as it is.
    open spec fn sent(&self) -> Seq<(Seq<u8>, Result<(), Self::Error>)> {
        Seq::empty()
    }

    /// What each call of [`poll_recv`](Self::poll_recv) so far has given: a
    /// packet with its RSSI, nothing, or an error. A record for
    /// specifications alone, like [`sent`](Self::sent).
    open spec fn polls(&self) -> Seq<Result<Option<(Seq<u8>, i16)>, Self::Error>> {
        Seq::empty()
    }

    /// How much room each call of [`poll_recv`](Self::poll_recv) so far offered
    /// for a packet. A record for specifications alone, like
    /// [`sent`](Self::sent).
    open spec fn rooms(&self) -> Seq<nat> {
        Seq::empty()
    }

    /// Poll for a received packet (non-blocking).
    ///
    /// If a packet is available, write it into `buf` and return
    /// `Ok(Some((bytes_written, rssi_dbm)))`.
    fn poll_recv(&mut self, buf: &mut [u8]) -> (r: Result<Option<(usize, i16)>, Self::Error>)
        ensures
            final(self).sent() == old(self).sent(),
            final(self).rooms() == old(self).rooms().push(old(buf)@.len()),
            final(buf)@.len() == old(buf)@.len(),
            r matches Ok(Some((n, _))) ==> n <= old(buf)@.len(),
            final(self).polls() == old(self).polls().push(
                match r {
                    Ok(Some((n, rssi))) => Ok(Some((final(buf)@.take(n as int), rssi))),
                    Ok(None) => Ok(None),
                    Err(e) => Err(e),
                },
            ),
    ;

    /// Transmit a raw packet. Blocks until transmission completes.
    fn send(&mut self, data: &[u8]) -> (r: Result<(), Self::Error>)
        ensures
            final(self).sent() == old(self).sent().push((data@, r)),
            final(self).polls() == old(self).polls(),
            final(self).rooms() == old(self).rooms(),
    ;

    /// Maximum packet size in bytes.
    fn max_packet_len(&self) -> usize;
}

/// Errors from the SubGHz radio.
#[derive(Clone, Copy, Debug, PartialEq, Eq)]
pub enum Sx1262Error {
    Radio,
    Timeout,
}

// -- Chip units ---------------------------------------------------------------

/// The chip's timeout for a number of milliseconds: 24 bits in steps of
/// 15.625 us, saturating, and at least one step.
pub open spec fn timeout_steps(ms: u32) -> int {
    if ms == 0 {
        1
    } else if ms >= 262_144 {
        0x00FF_FFFF
    } else {
        ms * 64
    }
}

/// Milliseconds in the chip's timeout steps.
///
/// Calls `stm32wlxx_hal::subghz::Timeout::from_millis_sat`, which gives one
/// step for 0 ms, the 24-bit maximum from 262144 ms on, and 64 steps per
/// millisecond in between.
#[verifier::external_body]
fn timeout_bits(ms: u32) -> (bits: u32)
    ensures
        bits == timeout_steps(ms),
{
    stm32wlxx_hal::subghz::Timeout::from_millis_sat(ms).into_bits()
}

/// The synthesizer word for a frequency: steps of 32 MHz / 2^25, in 32 bits.
pub open spec fn frequency_steps(hz: u32) -> int {
    hz * 0x0200_0000 / 32_000_000 % 0x1_0000_0000
}

/// A frequency as the chip's synthesizer word.
///
/// Calls `stm32wlxx_hal::subghz::RfFreq::from_frequency` and reads the word
/// back from its four big-endian bytes: the frequency times 2^25 over 32 MHz,
/// cut to 32 bits.
#[verifier::external_body]
fn frequency_bits(hz: u32) -> (bits: u32)
    ensures
        bits == frequency_steps(hz),
{
    let freq = stm32wlxx_hal::subghz::RfFreq::from_frequency(hz);
    let b = freq.as_slice();
    u32::from_be_bytes([b[1], b[2], b[3], b[4]])
}

// -- Setting the radio up -----------------------------------------------------

/// Bands that the image rejection can be calibrated for.
#[derive(Clone, Copy, Debug, PartialEq, Eq)]
pub enum ImageBand {
    Ism430,
    Ism863,
    Ism902,
}

/// A command that sets the radio up.
#[derive(Clone, Copy, Debug, PartialEq, Eq)]
pub enum RadioCommand {
    /// Standby on the RC oscillator.
    Standby,
    /// DC-DC converter (SMPS) or LDO.
    Regulator { smps: bool },
    /// Supply trim of the TCXO and how long it gets to settle, in timeout
    /// steps.
    Tcxo { trim: u8, timeout: u32 },
    /// Calibrate the image rejection.
    CalibrateImage { band: ImageBand },
    /// LoRa packets.
    LoraPackets,
    /// Synthesizer word.
    Frequency { steps: u32 },
    /// High-power PA.
    PowerAmp { duty_cycle: u8, hp_max: u8 },
    /// Output level in dBm (two's complement), 200 us ramp.
    TxPower { power: u8 },
    /// Receiver gain.
    RxGain { boost: bool },
    /// Spreading factor, bandwidth, coding rate denominator and
    /// low-data-rate optimization.
    Modulation { spreading_factor: u8, bandwidth_khz: u16, coding_rate: u8, ldro: bool },
    /// 8-symbol preamble, variable header, CRC on, IQ not inverted.
    Packets { payload_len: u8 },
    /// The sync word of public networks.
    PublicSyncWord,
    /// Both buffer halves start at 0.
    BufferBase,
    /// Interrupts on RxDone, TxDone, Err and Timeout.
    Interrupts,
    /// Fall back to standby after TX or RX.
    FallbackStandby,
    /// Over-current protection at 140 mA.
    OverCurrent140,
}

/// A command, and whether a radio that does not take it has failed.
#[derive(Clone, Copy, Debug, PartialEq, Eq)]
pub struct SetupStep {
    pub command: RadioCommand,
    pub required: bool,
}

/// The band to calibrate the image rejection for.
pub open spec fn image_band(frequency_hz: u32) -> ImageBand {
    if frequency_hz >= 900_000_000 {
        ImageBand::Ism902
    } else if frequency_hz >= 860_000_000 {
        ImageBand::Ism863
    } else {
        ImageBand::Ism430
    }
}

/// The spreading factor that the chip is set to: anything it does not have
/// stands for the slowest.
pub open spec fn chip_spreading_factor(sf: u8) -> u8 {
    if 5 <= sf <= 11 {
        sf
    } else {
        12
    }
}

/// The bandwidth that the chip is set to: anything it is not used with stands
/// for 125 kHz.
pub open spec fn chip_bandwidth(khz: u16) -> u16 {
    if khz == 62 || khz == 250 || khz == 500 {
        khz
    } else {
        125
    }
}

/// The coding rate denominator that the chip is set to: anything it does not
/// have stands for 5.
pub open spec fn chip_coding_rate(cr: u8) -> u8 {
    if 6 <= cr <= 8 {
        cr
    } else {
        5
    }
}

/// The commands that set the radio up for `cfg`, in order.
pub open spec fn setup(cfg: RadioConfig) -> Seq<SetupStep> {
    let ldro = vstd::arithmetic::power2::pow2(cfg.spreading_factor as nat) as int * 100
        / cfg.bandwidth_khz as int >= 1638;
    let power = if cfg.power_dbm < 0 {
        (cfg.power_dbm + 256) as u8
    } else {
        cfg.power_dbm as u8
    };
    seq![
        SetupStep { command: RadioCommand::Standby, required: true },
        SetupStep {
            command: RadioCommand::Regulator { smps: cfg.dcdc_enabled },
            required: false,
        },
        SetupStep {
            command: RadioCommand::Tcxo {
                trim: cfg.tcxo_volts.trim_value(),
                timeout: timeout_steps(cfg.tcxo_startup_ms as u32) as u32,
            },
            required: true,
        },
        SetupStep {
            command: RadioCommand::CalibrateImage { band: image_band(cfg.frequency_hz) },
            required: true,
        },
        SetupStep { command: RadioCommand::LoraPackets, required: true },
        SetupStep {
            command: RadioCommand::Frequency { steps: frequency_steps(cfg.frequency_hz) as u32 },
            required: true,
        },
        SetupStep {
            command: RadioCommand::PowerAmp { duty_cycle: 0x04, hp_max: 0x07 },
            required: true,
        },
        SetupStep { command: RadioCommand::TxPower { power }, required: true },
        SetupStep { command: RadioCommand::RxGain { boost: cfg.rx_boost }, required: true },
        SetupStep {
            command: RadioCommand::Modulation {
                spreading_factor: chip_spreading_factor(cfg.spreading_factor),
                bandwidth_khz: chip_bandwidth(cfg.bandwidth_khz),
                coding_rate: chip_coding_rate(cfg.coding_rate),
                ldro,
            },
            required: true,
        },
        SetupStep { command: RadioCommand::Packets { payload_len: 255 }, required: true },
        SetupStep { command: RadioCommand::PublicSyncWord, required: true },
        SetupStep { command: RadioCommand::BufferBase, required: true },
        SetupStep { command: RadioCommand::Interrupts, required: true },
        SetupStep { command: RadioCommand::FallbackStandby, required: false },
        SetupStep { command: RadioCommand::OverCurrent140, required: false },
    ]
}

fn step(command: RadioCommand, required: bool) -> (s: SetupStep)
    ensures
        s == (SetupStep { command, required }),
{
    SetupStep { command, required }
}

// -- Driving the radio --------------------------------------------------------

/// Interrupt flags that the driver looks at.
#[derive(Clone, Copy, Debug, PartialEq, Eq)]
pub struct IrqFlags {
    pub tx_done: bool,
    pub rx_done: bool,
    /// A packet came in with a bad CRC.
    pub err: bool,
    pub timeout: bool,
}

/// What happened on the way to a received packet.
#[derive(Clone, Copy, Debug, PartialEq, Eq)]
pub enum RecvEvent {
    /// A poll begins.
    Start,
    /// The radio was told to receive continuously.
    RxSet { ok: bool },
    /// The interrupt flags, where the radio gave them.
    Irq { flags: Option<IrqFlags> },
    /// The length of the packet in the radio's buffer, where the radio gave
    /// it.
    BufferStatus { reported: Option<u8> },
    /// The packet was read out.
    BufferRead { len: usize, ok: bool },
    /// RSSI in dBm and SNR in quarter dB of the packet, where the radio gave
    /// them.
    PacketStatus { len: usize, status: Option<(i16, i8)> },
}

/// What to do next on the way to a received packet.
#[derive(Clone, Copy, Debug, PartialEq, Eq)]
pub enum RecvStep {
    /// Tell the radio to receive continuously.
    SetRx,
    /// Read the interrupt flags.
    ReadIrq,
    /// Clear the interrupt flags; there is no packet.
    ClearIrq,
    /// Clear the interrupt flags and read the buffer status.
    ClearIrqReadStatus,
    /// Read this many bytes out.
    ReadBuffer { len: usize },
    /// Read the packet status.
    ReadPacketStatus { len: usize },
    /// There is no packet.
    Nothing,
    /// A packet of this length was read out.
    Packet { len: usize, rssi: i16 },
    /// The radio failed.
    Fail,
}

/// What happened on the way to a sent packet.
#[derive(Clone, Copy, Debug, PartialEq, Eq)]
pub enum SendEvent {
    /// A transmission begins.
    Start,
    /// The radio was put into standby.
    StandbySet { ok: bool },
    /// The packet was written into the radio's buffer.
    BufferWritten { ok: bool },
    /// The packet parameters were set.
    ParamsSet { ok: bool },
    /// The radio was told to transmit.
    TxSet { ok: bool },
    /// Time since the transmission began and the interrupt flags, where the
    /// radio gave them.
    Poll { elapsed_ms: u32, flags: Option<IrqFlags> },
    /// The radio was told to receive again (or idles, on a transmit-only
    /// node).
    Rearmed { ok: bool, outcome: Result<(), Sx1262Error> },
}

/// What to do next on the way to a sent packet.
#[derive(Clone, Copy, Debug, PartialEq, Eq)]
pub enum SendStep {
    /// Put the radio into standby.
    Standby,
    /// Clear the interrupt flags and write the packet into the buffer.
    ClearIrqWriteBuffer,
    /// Set the packet parameters with the payload's length.
    SetParams { payload_len: u8 },
    /// Transmit, with a chip timeout in timeout steps.
    SetTx { timeout: u32 },
    /// Look at the clock and the interrupt flags.
    Poll,
    /// Clear the interrupt flags, then receive continuously (`listen`) or
    /// idle in standby.
    ClearIrqRearm { listen: bool, outcome: Result<(), Sx1262Error> },
    /// The transmission is over.
    Done { outcome: Result<(), Sx1262Error> },
}

/// SX1262 driver state.
///
/// On the STM32WLE5 the SX1262 is integrated; the driver talks to it through
/// whatever carries out its steps.
#[derive(Clone, Copy, Debug, PartialEq, Eq)]
pub struct Sx1262Driver {
    /// Whether the receiver is on.
    pub rx_active: bool,
    /// Whether the receiver is used at all. False on a transmit-only node,
    /// which idles in standby instead of continuous RX - that idle current
    /// is the whole reason the mode exists.
    pub listen: bool,
    /// SNR of the last received packet in centibels.
    pub snr_cb: i16,
    pub tx_poll_timeout_ms: u32,
    pub tx_chip_timeout_ms: u32,
    /// Packets delivered by the radio that failed the hardware CRC, since
    /// boot (saturating). A large count next to few good receptions points
    /// at a weak signal or a link-parameter mismatch rather than nothing on
    /// the air.
    pub crc_errors: u32,
    /// Packets longer than the caller's buffer, dropped unread (saturating).
    pub oversize: u32,
}

impl Sx1262Driver {
    /// The driver after an event of a poll into a buffer of `room` bytes, and
    /// what it does next.
    ///
    /// Nothing above this layer checksums, so a packet with a bad CRC is
    /// dropped here; one that does not fit is dropped unread.
    pub open spec fn on_recv(self, room: nat, event: RecvEvent) -> (Sx1262Driver, RecvStep) {
        match event {
            RecvEvent::Start => (
                self,
                if !self.listen {
                    RecvStep::Nothing
                } else if !self.rx_active {
                    RecvStep::SetRx
                } else {
                    RecvStep::ReadIrq
                },
            ),
            RecvEvent::RxSet { ok } => if ok {
                (Sx1262Driver { rx_active: true, ..self }, RecvStep::ReadIrq)
            } else {
                (self, RecvStep::Fail)
            },
            RecvEvent::Irq { flags } => match flags {
                None => (self, RecvStep::Fail),
                Some(f) => if !f.rx_done {
                    (self, RecvStep::Nothing)
                } else if f.err {
                    (
                        Sx1262Driver { crc_errors: crate::platform::count_up(self.crc_errors), ..self },
                        RecvStep::ClearIrq,
                    )
                } else {
                    (self, RecvStep::ClearIrqReadStatus)
                },
            },
            RecvEvent::BufferStatus { reported } => match reported {
                None => (self, RecvStep::Fail),
                Some(n) => if n > room {
                    (
                        Sx1262Driver {
                            oversize: crate::platform::count_up(self.oversize),
                            rx_active: false,
                            ..self
                        },
                        RecvStep::Nothing,
                    )
                } else {
                    (self, RecvStep::ReadBuffer { len: n as usize })
                },
            },
            RecvEvent::BufferRead { len, ok } => (
                self,
                if ok {
                    RecvStep::ReadPacketStatus { len }
                } else {
                    RecvStep::Fail
                },
            ),
            RecvEvent::PacketStatus { len, status } => match status {
                None => (self, RecvStep::Fail),
                Some((rssi, snr)) => (
                    Sx1262Driver { snr_cb: (snr * 25) as i16, ..self },
                    RecvStep::Packet { len, rssi },
                ),
            },
        }
    }

    /// The driver after an event of sending a packet of `len` bytes, and what
    /// it does next.
    pub open spec fn on_send(self, len: nat, event: SendEvent) -> (Sx1262Driver, SendStep) {
        let failed = SendStep::Done { outcome: Err(Sx1262Error::Radio) };
        match event {
            SendEvent::Start => (Sx1262Driver { rx_active: false, ..self }, SendStep::Standby),
            SendEvent::StandbySet { ok } => (
                self,
                if ok {
                    SendStep::ClearIrqWriteBuffer
                } else {
                    failed
                },
            ),
            SendEvent::BufferWritten { ok } => (
                self,
                if ok {
                    SendStep::SetParams { payload_len: (len % 256) as u8 }
                } else {
                    failed
                },
            ),
            SendEvent::ParamsSet { ok } => (
                self,
                if ok {
                    SendStep::SetTx { timeout: timeout_steps(self.tx_chip_timeout_ms) as u32 }
                } else {
                    failed
                },
            ),
            SendEvent::TxSet { ok } => (
                self,
                if ok {
                    SendStep::Poll
                } else {
                    failed
                },
            ),
            SendEvent::Poll { elapsed_ms, flags } => (
                self,
                if elapsed_ms > self.tx_poll_timeout_ms {
                    SendStep::ClearIrqRearm {
                        listen: self.listen,
                        outcome: Err(Sx1262Error::Timeout),
                    }
                } else {
                    match flags {
                        None => SendStep::Poll,
                        Some(f) => if f.tx_done {
                            SendStep::ClearIrqRearm { listen: self.listen, outcome: Ok(()) }
                        } else if f.timeout {
                            SendStep::ClearIrqRearm {
                                listen: self.listen,
                                outcome: Err(Sx1262Error::Timeout),
                            }
                        } else {
                            SendStep::Poll
                        },
                    }
                },
            ),
            SendEvent::Rearmed { ok, outcome } => (
                if ok && self.listen {
                    Sx1262Driver { rx_active: true, ..self }
                } else {
                    self
                },
                SendStep::Done { outcome },
            ),
        }
    }

    /// The driver once its radio is set up for `cfg`.
    pub open spec fn set_up(self, cfg: RadioConfig) -> Sx1262Driver {
        Sx1262Driver {
            rx_active: false,
            listen: cfg.role != crate::radiocfg::Role::TxOnly,
            tx_poll_timeout_ms: cfg.poll_timeout() as u32,
            tx_chip_timeout_ms: cfg.chip_timeout() as u32,
            ..self
        }
    }

    /// A driver for a radio that has not been set up yet.
    pub fn new() -> (d: Self)
        ensures
            d == (Sx1262Driver {
                rx_active: false,
                listen: true,
                snr_cb: 0,
                tx_poll_timeout_ms: 250,
                tx_chip_timeout_ms: 750,
                crc_errors: 0,
                oversize: 0,
            }),
    {
        Sx1262Driver {
            rx_active: false,
            listen: true,
            snr_cb: 0,
            tx_poll_timeout_ms: 250,
            tx_chip_timeout_ms: 750,
            crc_errors: 0,
            oversize: 0,
        }
    }

    /// Packets dropped since boot for a bad CRC.
    pub fn rx_crc_errors(&self) -> (n: u32)
        ensures
            n == self.crc_errors,
    {
        self.crc_errors
    }

    /// Packets dropped since boot for exceeding the receive buffer.
    pub fn rx_oversize(&self) -> (n: u32)
        ensures
            n == self.oversize,
    {
        self.oversize
    }

    /// SNR of the last received packet in centibels (dB * 100).
    pub fn last_snr_cb(&self) -> (n: i16)
        ensures
            n == self.snr_cb,
    {
        self.snr_cb
    }

    /// Note that the radio goes into standby (used for the soft-sleep state).
    pub fn standby(&mut self)
        ensures
            *final(self) == (Sx1262Driver { rx_active: false, ..*old(self) }),
    {
        self.rx_active = false;
    }

    /// Note that the radio goes into cold sleep, by way of standby.
    /// [`init`](Self::init) must run again before further use.
    pub fn sleep(&mut self)
        ensures
            *final(self) == (Sx1262Driver { rx_active: false, ..*old(self) }),
    {
        self.standby();
    }

    /// Initialize (or re-initialize) the radio from `cfg`: the commands to
    /// give it, in order.
    pub fn init(&mut self, cfg: &RadioConfig) -> (steps: Vec<SetupStep>)
        requires
            cfg.bandwidth_khz > 0,
            cfg.spreading_factor <= 25,
        ensures
            steps@ == setup(*cfg),
            *final(self) == old(self).set_up(*cfg),
    {
        self.rx_active = false;
        self.listen = cfg.role.receives();
        self.tx_poll_timeout_ms = cfg.tx_poll_timeout_ms();
        self.tx_chip_timeout_ms = cfg.tx_chip_timeout_ms();
        let mut steps: Vec<SetupStep> = Vec::new();
        steps.push(step(RadioCommand::Standby, true));
        // DC-DC roughly halves RX/TX current, but only works on a board
        // with the SMPS inductor fitted, so it stays configurable.
        steps.push(step(RadioCommand::Regulator { smps: cfg.dcdc_enabled }, false));
        // The radio powers the 32 MHz TCXO itself and waits for it to
        // settle before using the clock.
        steps.push(
            step(
                RadioCommand::Tcxo {
                    trim: cfg.tcxo_volts.trim(),
                    timeout: timeout_bits(cfg.tcxo_startup_ms as u32),
                },
                true,
            ),
        );
        let band: ImageBand = if cfg.frequency_hz >= 900_000_000 {
            ImageBand::Ism902
        } else if cfg.frequency_hz >= 860_000_000 {
            ImageBand::Ism863
        } else {
            ImageBand::Ism430
        };
        steps.push(step(RadioCommand::CalibrateImage { band }, true));
        steps.push(step(RadioCommand::LoraPackets, true));
        steps.push(
            step(RadioCommand::Frequency { steps: frequency_bits(cfg.frequency_hz) }, true),
        );
        // High-power PA, duty/hp_max per the +22 dBm datasheet preset;
        // the actual output level is set by the next command.
        steps.push(step(RadioCommand::PowerAmp { duty_cycle: 0x04, hp_max: 0x07 }, true));
        let power: u8 = if cfg.power_dbm < 0 {
            (cfg.power_dbm as i16 + 256) as u8
        } else {
            cfg.power_dbm as u8
        };
        steps.push(step(RadioCommand::TxPower { power }, true));
        // Receive-side counterpart to the TX power above. The gain register
        // is not covered by warm-start retention, so it is rewritten on every
        // initialization rather than set once.
        steps.push(step(RadioCommand::RxGain { boost: cfg.rx_boost }, true));
        let sf: u8 = if 5 <= cfg.spreading_factor && cfg.spreading_factor <= 11 {
            cfg.spreading_factor
        } else {
            12
        };
        let bw: u16 = if cfg.bandwidth_khz == 62 || cfg.bandwidth_khz == 250 || cfg.bandwidth_khz
            == 500 {
            cfg.bandwidth_khz
        } else {
            125
        };
        let cr: u8 = if 6 <= cfg.coding_rate && cfg.coding_rate <= 8 {
            cfg.coding_rate
        } else {
            5
        };
        steps.push(
            step(
                RadioCommand::Modulation {
                    spreading_factor: sf,
                    bandwidth_khz: bw,
                    coding_rate: cr,
                    ldro: cfg.ldro(),
                },
                true,
            ),
        );
        steps.push(step(RadioCommand::Packets { payload_len: 255 }, true));
        steps.push(step(RadioCommand::PublicSyncWord, true));
        steps.push(step(RadioCommand::BufferBase, true));
        steps.push(step(RadioCommand::Interrupts, true));
        steps.push(step(RadioCommand::FallbackStandby, false));
        // Over-current protection: required for the HP PA to reach +22.
        steps.push(step(RadioCommand::OverCurrent140, false));
        assert(steps@ =~= setup(*cfg));
        steps
    }

    /// Take an event of a poll into a buffer of `room` bytes, and say what to
    /// do next.
    pub fn poll_recv(&mut self, room: usize, event: RecvEvent) -> (next: RecvStep)
        ensures
            (*final(self), next) == old(self).on_recv(room as nat, event),
    {
        match event {
            RecvEvent::Start => {
                // A transmit-only node never arms the receiver.
                if !self.listen {
                    RecvStep::Nothing
                } else if !self.rx_active {
                    RecvStep::SetRx
                } else {
                    RecvStep::ReadIrq
                }
            },
            RecvEvent::RxSet { ok } => {
                if !ok {
                    return RecvStep::Fail;
                }
                self.rx_active = true;
                RecvStep::ReadIrq
            },
            RecvEvent::Irq { flags } => match flags {
                None => RecvStep::Fail,
                Some(f) => {
                    if !f.rx_done {
                        return RecvStep::Nothing;
                    }
                    // RxDone comes alongside Err when a packet arrives with a
                    // bad CRC, and the payload is still sitting in the buffer.
                    if f.err {
                        self.crc_errors = self.crc_errors.saturating_add(1);
                        return RecvStep::ClearIrq;
                    }
                    RecvStep::ClearIrqReadStatus
                },
            },
            RecvEvent::BufferStatus { reported } => match reported {
                None => RecvStep::Fail,
                Some(n) => {
                    if n as usize > room {
                        self.oversize = self.oversize.saturating_add(1);
                        self.rx_active = false;
                        return RecvStep::Nothing;
                    }
                    RecvStep::ReadBuffer { len: n as usize }
                },
            },
            RecvEvent::BufferRead { len, ok } => {
                if ok {
                    RecvStep::ReadPacketStatus { len }
                } else {
                    RecvStep::Fail
                }
            },
            RecvEvent::PacketStatus { len, status } => match status {
                None => RecvStep::Fail,
                Some((rssi, snr)) => {
                    self.snr_cb = snr as i16 * 25;
                    RecvStep::Packet { len, rssi }
                },
            },
        }
    }

    /// Take an event of sending a packet of `len` bytes, and say what to do
    /// next.
    pub fn send(&mut self, len: usize, event: SendEvent) -> (next: SendStep)
        ensures
            (*final(self), next) == old(self).on_send(len as nat, event),
    {
        match event {
            SendEvent::Start => {
                self.rx_active = false;
                SendStep::Standby
            },
            SendEvent::StandbySet { ok } => {
                if ok {
                    SendStep::ClearIrqWriteBuffer
                } else {
                    SendStep::Done { outcome: Err(Sx1262Error::Radio) }
                }
            },
            SendEvent::BufferWritten { ok } => {
                // Packet params must carry the actual payload length and the
                // full LoRa parameter set, or TxDone never fires.
                if ok {
                    SendStep::SetParams { payload_len: (len % 256) as u8 }
                } else {
                    SendStep::Done { outcome: Err(Sx1262Error::Radio) }
                }
            },
            SendEvent::ParamsSet { ok } => {
                if ok {
                    SendStep::SetTx { timeout: timeout_bits(self.tx_chip_timeout_ms) }
                } else {
                    SendStep::Done { outcome: Err(Sx1262Error::Radio) }
                }
            },
            SendEvent::TxSet { ok } => {
                if ok {
                    SendStep::Poll
                } else {
                    SendStep::Done { outcome: Err(Sx1262Error::Radio) }
                }
            },
            SendEvent::Poll { elapsed_ms, flags } => {
                if elapsed_ms > self.tx_poll_timeout_ms {
                    return SendStep::ClearIrqRearm {
                        listen: self.listen,
                        outcome: Err(Sx1262Error::Timeout),
                    };
                }
                match flags {
                    None => SendStep::Poll,
                    Some(f) => {
                        // The node is deaf while it transmits, so it goes back
                        // to receiving at once. A transmit-only node has
                        // nothing to miss and drops back to standby instead.
                        if f.tx_done {
                            SendStep::ClearIrqRearm { listen: self.listen, outcome: Ok(()) }
                        } else if f.timeout {
                            SendStep::ClearIrqRearm {
                                listen: self.listen,
                                outcome: Err(Sx1262Error::Timeout),
                            }
                        } else {
                            SendStep::Poll
                        }
                    },
                }
            },
            SendEvent::Rearmed { ok, outcome } => {
                if ok && self.listen {
                    self.rx_active = true;
                }
                SendStep::Done { outcome }
            },
        }
    }

    /// Maximum packet size in bytes.
    pub fn max_packet_len(&self) -> (n: usize)
        ensures
            n == 255,
    {
        255
    }
}

// -- Laws ---------------------------------------------------------------------

/// A node that does not receive never turns its receiver on, neither on a
/// poll nor after a transmission.
pub proof fn law_transmit_only_never_listens(
    before: Sx1262Driver,
    cfg: RadioConfig,
    room: nat,
    len: nat,
    sending: SendEvent,
)
    requires
        cfg.role == crate::radiocfg::Role::TxOnly,
        before.listen == (cfg.role != crate::radiocfg::Role::TxOnly),
    ensures
        before.on_recv(room, RecvEvent::Start).1 == RecvStep::Nothing,
        before.on_send(len, sending).1 matches SendStep::ClearIrqRearm { listen, .. } ==> !listen,
        before.on_send(len, sending).0.rx_active ==> before.rx_active,
{
}

/// A packet with a bad CRC is counted and goes no further; one that does not
/// fit the buffer is counted and not read out.
pub proof fn law_bad_packets_are_dropped(
    d: Sx1262Driver,
    room: nat,
    flags: IrqFlags,
    reported: u8,
)
    ensures
        flags.rx_done && flags.err ==> d.on_recv(room, RecvEvent::Irq { flags: Some(flags) }) == (
            Sx1262Driver { crc_errors: crate::platform::count_up(d.crc_errors), ..d },
            RecvStep::ClearIrq,
        ),
        reported > room ==> {
            let (after, next) = d.on_recv(
                room,
                RecvEvent::BufferStatus { reported: Some(reported) },
            );
            after.oversize == crate::platform::count_up(d.oversize) && next == RecvStep::Nothing
        },
{
}

/// A listening radio hands up the packet that it received: where the radio
/// answers every question, a poll ends with the packet's length and RSSI, and
/// the receiver stays on for the next one.
pub proof fn law_good_packet_is_handed_up(
    d: Sx1262Driver,
    room: nat,
    flags: IrqFlags,
    len: u8,
    rssi: i16,
    snr: i8,
)
    requires
        d.listen,
        flags.rx_done,
        !flags.err,
        len <= room,
    ensures
        ({
            let on = Sx1262Driver { rx_active: true, ..d };
            let last = Sx1262Driver { snr_cb: (snr * 25) as i16, ..on };
            let n = len as usize;
            &&& d.on_recv(room, RecvEvent::Start) == if d.rx_active {
                (on, RecvStep::ReadIrq)
            } else {
                (d, RecvStep::SetRx)
            }
            &&& d.on_recv(room, RecvEvent::RxSet { ok: true }) == (on, RecvStep::ReadIrq)
            &&& on.on_recv(room, RecvEvent::Irq { flags: Some(flags) }) == (
                on,
                RecvStep::ClearIrqReadStatus,
            )
            &&& on.on_recv(room, RecvEvent::BufferStatus { reported: Some(len) }) == (
                on,
                RecvStep::ReadBuffer { len: n },
            )
            &&& on.on_recv(room, RecvEvent::BufferRead { len: n, ok: true }) == (
                on,
                RecvStep::ReadPacketStatus { len: n },
            )
            &&& on.on_recv(
                room,
                RecvEvent::PacketStatus { len: n, status: Some((rssi, snr)) },
            ) == (last, RecvStep::Packet { len: n, rssi })
        }),
{
}

/// Waiting for a transmission ends by the poll deadline, which on a radio that
/// has been set up comes before the chip's own timeout.
pub proof fn law_send_ends_by_deadline(
    d: Sx1262Driver,
    cfg: RadioConfig,
    len: nat,
    elapsed_ms: u32,
    flags: Option<IrqFlags>,
)
    requires
        cfg.valid(),
        d.tx_poll_timeout_ms == cfg.poll_timeout(),
        d.tx_chip_timeout_ms == cfg.chip_timeout(),
        elapsed_ms > d.tx_poll_timeout_ms,
    ensures
        d.tx_poll_timeout_ms < d.tx_chip_timeout_ms,
        d.on_send(len, SendEvent::Poll { elapsed_ms, flags }).1 == (SendStep::ClearIrqRearm {
            listen: d.listen,
            outcome: Err(Sx1262Error::Timeout),
        }),
{
}

/// Setting the radio up carries the whole configuration to it: regulator,
/// oscillator, frequency and image band, output power, receiver gain and
/// modulation. The link's own choices stand behind: LoRa packets of up to 255
/// bytes under the public sync word, and the interrupts that the driver looks
/// at. Only the regulator, the fallback and the current limit may be missing.
pub proof fn law_setup_carries_the_config(cfg: RadioConfig)
    requires
        cfg.valid(),
    ensures
        ({
            let s = setup(cfg);
            &&& s.len() == 16
            &&& s[0].command == RadioCommand::Standby
            &&& s[1].command == (RadioCommand::Regulator { smps: cfg.dcdc_enabled })
            &&& s[2].command matches RadioCommand::Tcxo { trim, timeout } && {
                &&& trim == match cfg.tcxo_volts {
                    TcxoVolts::V1_6 => 0u8,
                    TcxoVolts::V1_7 => 1,
                    TcxoVolts::V1_8 => 2,
                    TcxoVolts::V2_2 => 3,
                    TcxoVolts::V2_4 => 4,
                    TcxoVolts::V2_7 => 5,
                    TcxoVolts::V3_0 => 6,
                    TcxoVolts::V3_3 => 7,
                }
                &&& timeout == if cfg.tcxo_startup_ms == 0 {
                    1
                } else {
                    64 * cfg.tcxo_startup_ms as int
                }
            }
            &&& s[3].command matches RadioCommand::CalibrateImage { band } && {
                &&& band == ImageBand::Ism902 <==> cfg.frequency_hz >= 900_000_000
                &&& band == ImageBand::Ism863 <==> 860_000_000 <= cfg.frequency_hz < 900_000_000
                &&& band == ImageBand::Ism430 <==> cfg.frequency_hz < 860_000_000
            }
            &&& s[4].command == RadioCommand::LoraPackets
            &&& s[5].command matches RadioCommand::Frequency { steps } && steps
                == cfg.frequency_hz * 0x0200_0000 / 32_000_000
            &&& s[6].command == (RadioCommand::PowerAmp { duty_cycle: 4, hp_max: 7 })
            &&& s[7].command matches RadioCommand::TxPower { power } && power == cfg.power_dbm as int
                % 256
            &&& s[8].command == (RadioCommand::RxGain { boost: cfg.rx_boost })
            &&& s[9].command matches RadioCommand::Modulation {
                spreading_factor,
                bandwidth_khz,
                coding_rate,
                ldro,
            } && {
                &&& spreading_factor == cfg.spreading_factor
                &&& bandwidth_khz == cfg.bandwidth_khz
                &&& coding_rate == cfg.coding_rate
            }
            &&& s[10].command == (RadioCommand::Packets { payload_len: 255 })
            &&& s[11].command == RadioCommand::PublicSyncWord
            &&& s[12].command == RadioCommand::BufferBase
            &&& s[13].command == RadioCommand::Interrupts
            &&& s[14].command == RadioCommand::FallbackStandby
            &&& s[15].command == RadioCommand::OverCurrent140
            &&& forall|i: int|
                0 <= i < 16 ==> (#[trigger] s[i].required <==> i != 1 && i != 14 && i != 15)
        }),
{
    assert(cfg.frequency_hz * 0x0200_0000 / 32_000_000 < 0x1_0000_0000);
}

/// The low-data-rate optimization is on exactly for the slow symbols.
pub proof fn law_slow_symbols_are_optimized(cfg: RadioConfig)
    requires
        cfg.valid(),
    ensures
        setup(cfg)[9].command matches RadioCommand::Modulation { ldro, .. } && (ldro <==> {
            ||| cfg.bandwidth_khz == 62 && cfg.spreading_factor >= 10
            ||| cfg.bandwidth_khz == 125 && cfg.spreading_factor >= 11
            ||| cfg.bandwidth_khz == 250 && cfg.spreading_factor >= 12
        }),
{
    vstd::arithmetic::power2::lemma2_to64();
}

/// A radio that has been set up listens unless its node only transmits, starts
/// with its receiver off, and gives a transmission the time that the
/// configuration's air time takes. Its counters go on.
pub proof fn law_set_up_radio(d: Sx1262Driver, cfg: RadioConfig)
    requires
        cfg.valid(),
    ensures
        ({
            let u = d.set_up(cfg);
            &&& !u.rx_active
            &&& u.listen <==> cfg.role != crate::radiocfg::Role::TxOnly
            &&& u.tx_poll_timeout_ms == cfg.poll_timeout()
            &&& u.tx_chip_timeout_ms == cfg.chip_timeout()
            &&& u.crc_errors == d.crc_errors && u.oversize == d.oversize && u.snr_cb == d.snr_cb
        }),
{
    crate::radiocfg::law_airtime_in_figures(cfg);
}

/// Sending a packet goes through its steps while the radio takes them: the
/// length of the packet and the chip's timeout are what it is told, and a
/// transmission that it reports done is a success. Then the receiver is on
/// again, unless the node only transmits.
pub proof fn law_packets_are_sent(
    d: Sx1262Driver,
    len: u8,
    elapsed_ms: u32,
    flags: IrqFlags,
    outcome: Result<(), Sx1262Error>,
)
    ensures
        d.on_send(len as nat, SendEvent::Start) == (
            Sx1262Driver { rx_active: false, ..d },
            SendStep::Standby,
        ),
        d.on_send(len as nat, SendEvent::StandbySet { ok: true }) == (
            d,
            SendStep::ClearIrqWriteBuffer,
        ),
        d.on_send(len as nat, SendEvent::BufferWritten { ok: true }) == (
            d,
            SendStep::SetParams { payload_len: len },
        ),
        0 < d.tx_chip_timeout_ms < 262_144 ==> d.on_send(
            len as nat,
            SendEvent::ParamsSet { ok: true },
        ) == (d, SendStep::SetTx { timeout: (64 * d.tx_chip_timeout_ms) as u32 }),
        d.on_send(len as nat, SendEvent::TxSet { ok: true }) == (d, SendStep::Poll),
        elapsed_ms <= d.tx_poll_timeout_ms && flags.tx_done ==> d.on_send(
            len as nat,
            SendEvent::Poll { elapsed_ms, flags: Some(flags) },
        ) == (d, SendStep::ClearIrqRearm { listen: d.listen, outcome: Ok(()) }),
        elapsed_ms <= d.tx_poll_timeout_ms && !flags.tx_done && flags.timeout ==> d.on_send(
            len as nat,
            SendEvent::Poll { elapsed_ms, flags: Some(flags) },
        ) == (
            d,
            SendStep::ClearIrqRearm { listen: d.listen, outcome: Err(Sx1262Error::Timeout) },
        ),
        elapsed_ms <= d.tx_poll_timeout_ms && !flags.tx_done && !flags.timeout ==> d.on_send(
            len as nat,
            SendEvent::Poll { elapsed_ms, flags: Some(flags) },
        ) == (d, SendStep::Poll),
        elapsed_ms <= d.tx_poll_timeout_ms ==> d.on_send(
            len as nat,
            SendEvent::Poll { elapsed_ms, flags: None },
        ) == (d, SendStep::Poll),
        ({
            let (after, next) = d.on_send(len as nat, SendEvent::Rearmed { ok: true, outcome });
            &&& after.rx_active == (d.listen || d.rx_active)
            &&& after == (Sx1262Driver { rx_active: after.rx_active, ..d })
            &&& next == (SendStep::Done { outcome })
        }),
        d.on_send(len as nat, SendEvent::Rearmed { ok: false, outcome }) == (
            d,
            SendStep::Done { outcome },
        ),
{
}

/// A radio that does not take a step fails the transmission, and one that does
/// not answer fails the poll; neither is taken for a packet.
pub proof fn law_radio_failures_are_told(d: Sx1262Driver, len: nat, room: nat, n: usize)
    ensures
        ({
            let failed = SendStep::Done { outcome: Err(Sx1262Error::Radio) };
            &&& d.on_send(len, SendEvent::StandbySet { ok: false }) == (d, failed)
            &&& d.on_send(len, SendEvent::BufferWritten { ok: false }) == (d, failed)
            &&& d.on_send(len, SendEvent::ParamsSet { ok: false }) == (d, failed)
            &&& d.on_send(len, SendEvent::TxSet { ok: false }) == (d, failed)
        }),
        d.on_recv(room, RecvEvent::RxSet { ok: false }) == (d, RecvStep::Fail),
        d.on_recv(room, RecvEvent::Irq { flags: None }) == (d, RecvStep::Fail),
        d.on_recv(room, RecvEvent::BufferStatus { reported: None }) == (d, RecvStep::Fail),
        d.on_recv(room, RecvEvent::BufferRead { len: n, ok: false }) == (d, RecvStep::Fail),
        d.on_recv(room, RecvEvent::PacketStatus { len: n, status: None }) == (d, RecvStep::Fail),
{
}

/// Without a received packet a poll ends with nothing, whatever else the radio
/// flags; a packet that does not fit turns the receiver off so that the next
/// poll sets it up again.
pub proof fn law_empty_polls(d: Sx1262Driver, room: nat, flags: IrqFlags, reported: u8)
    ensures
        !flags.rx_done ==> d.on_recv(room, RecvEvent::Irq { flags: Some(flags) }) == (
            d,
            RecvStep::Nothing,
        ),
        reported > room ==> {
            let (after, next) = d.on_recv(
                room,
                RecvEvent::BufferStatus { reported: Some(reported) },
            );
            &&& !after.rx_active
            &&& after.oversize == if d.oversize < u32::MAX {
                d.oversize + 1
            } else {
                d.oversize as int
            }
            &&& after == (Sx1262Driver { rx_active: false, oversize: after.oversize, ..d })
        },
        flags.rx_done && flags.err ==> {
            let (after, next) = d.on_recv(room, RecvEvent::Irq { flags: Some(flags) });
            &&& after.crc_errors == if d.crc_errors < u32::MAX {
                d.crc_errors + 1
            } else {
                d.crc_errors as int
            }
            &&& after == (Sx1262Driver { crc_errors: after.crc_errors, ..d })
        },
{
}

} // verus!

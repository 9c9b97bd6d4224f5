//! Radio configuration: the `RADIO.CFG` file format and its parser.
//!
//! The file is TOML-shaped but the name is not `.toml`: it lives in the root
//! of a FAT card, where 8.3 short names allow only a three-character
//! extension.
//!
//! The WIO-E5 loads this from the SD card at boot (`RADIO.CFG`) and/or
//! receives it over UART from the ESP32-C6 (which in turn gets it over
//! BLE). No TOML crate runs on these targets, so this is a small no_std
//! parser for the subset the file needs: `key = value` pairs with integer,
//! boolean and quoted-string values, `#` comments, and `[section]` headers
//! (accepted and ignored - keys are unique across sections).
//!
//! Example file:
//!
//! ```toml
//! [radio]
//! frequency_hz = 915000000
//! spreading_factor = 7      # 5-12
//! bandwidth_khz = 125       # 62, 125, 250, 500
//! coding_rate = 5           # 4/5 .. 4/8
//! power_dbm = 22            # -9 .. 22
//! rx_boost = false          # boosted RX gain, ~+2 dB for more RX current
//!
//! [mesh]
//! address = 1               # 1-255
//! role = "leaf"             # leaf | repeater | tx_only | rx_only
//! max_hops = 1              # retransmissions allowed per broadcast
//!
//! [beacon]
//! interval_s = 10           # position broadcast period
//! ```

use vstd::prelude::*;
use crate::lora;
use crate::text::{chars_of, find, is_word, parse_i128, parse_u64, trim, unquote, utf8_text};

verus! {

/// Which halves of the air interface a node uses.
///
/// Position reporting is one-way traffic, so a node does not have to do
/// both halves. A tracker that is only ever reported *on* can leave its
/// receiver off; a base station that only collects reports never needs to
/// transmit. Each saves the power the unused half costs, and on a tracker
/// that is the larger saving by far: continuous RX draws current every
/// second between beacons, while a beacon is milliseconds of TX.
#[derive(Clone, Copy, Debug, PartialEq, Eq, Structural)]
pub enum Role {
    /// Originates its own broadcasts and receives everyone else's, but
    /// never retransmits. A network of nothing but leaves works: every
    /// node hears every other one that is in direct range.
    Leaf,
    /// A leaf that additionally retransmits frames still carrying hops,
    /// extending the network past one radio horizon.
    Repeater,
    /// Beacons its own position and nothing else. The receiver is never
    /// enabled, so this node hears no one, repeats nothing, and reports no
    /// peers - it exists only in other nodes' logs.
    TxOnly,
    /// Listens and reports what it hears, never transmitting. Its own
    /// beacon is off whatever `beacon_interval_s` says, since a beacon is a
    /// transmission.
    RxOnly,
}

impl Role {
    /// Whether this node ever puts a frame on the air.
    pub fn transmits(self) -> (r: bool)
        ensures
            r == (self != Role::RxOnly),
    {
        !matches!(self, Role::RxOnly)
    }

    /// Whether this node enables its receiver at all.
    pub fn receives(self) -> (r: bool)
        ensures
            r == (self != Role::TxOnly),
            self == Role::Repeater ==> r,
    {
        !matches!(self, Role::TxOnly)
    }

    /// Whether this node retransmits other nodes' frames. A repeater has to
    /// hear a frame before it can forward one, so every node that repeats
    /// also receives and transmits.
    pub fn repeats(self) -> (r: bool)
        ensures
            r == (self == Role::Repeater),
            r ==> self != Role::TxOnly && self != Role::RxOnly,
    {
        matches!(self, Role::Repeater)
    }
}

/// Supply voltage the radio drives the TCXO at (`SetTcxoMode` trim field).
///
/// This is a property of the crystal fitted to the board, not a preference.
/// The Wio-E5 module's TCXO is a 1.8 V part; the other values exist for
/// boards built around a different one, and setting a value the hardware
/// does not expect stops the oscillator starting, which takes the radio
/// with it.
#[derive(Clone, Copy, Debug, PartialEq, Eq, Structural)]
pub enum TcxoVolts {
    V1_6,
    V1_7,
    V1_8,
    V2_2,
    V2_4,
    V2_7,
    V3_0,
    V3_3,
}

impl TcxoVolts {
    /// The `SetTcxoMode` trim enumeration, lowest voltage first.
    pub open spec fn trim_value(self) -> u8 {
        match self {
            TcxoVolts::V1_6 => 0x0,
            TcxoVolts::V1_7 => 0x1,
            TcxoVolts::V1_8 => 0x2,
            TcxoVolts::V2_2 => 0x3,
            TcxoVolts::V2_4 => 0x4,
            TcxoVolts::V2_7 => 0x5,
            TcxoVolts::V3_0 => 0x6,
            TcxoVolts::V3_3 => 0x7,
        }
    }

    /// `SetTcxoMode` trim enum value.
    pub fn trim(self) -> (v: u8)
        ensures
            v == self.trim_value(),
    {
        match self {
            TcxoVolts::V1_6 => 0x0,
            TcxoVolts::V1_7 => 0x1,
            TcxoVolts::V1_8 => 0x2,
            TcxoVolts::V2_2 => 0x3,
            TcxoVolts::V2_4 => 0x4,
            TcxoVolts::V2_7 => 0x5,
            TcxoVolts::V3_0 => 0x6,
            TcxoVolts::V3_3 => 0x7,
        }
    }
}

/// GPS receiver power mode (u-blox M10 `CFG-PM-OPERATEMODE`).
#[derive(Clone, Copy, Debug, PartialEq, Eq, Structural)]
pub enum PowerMode {
    /// Continuous tracking, lowest fix latency.
    Full,
    /// Power-save on/off: acquire a fix, then power down until the next
    /// update period.
    PsmOnOff,
    /// Power-save cyclic tracking: stays in a reduced-power tracking loop.
    PsmCyclic,
}

impl PowerMode {
    /// The `CFG-PM-OPERATEMODE` enumeration.
    pub open spec fn mode_value(self) -> u8 {
        match self {
            PowerMode::Full => 0,
            PowerMode::PsmOnOff => 1,
            PowerMode::PsmCyclic => 2,
        }
    }

    /// `CFG-PM-OPERATEMODE` enum value.
    pub fn operate_mode(self) -> (v: u8)
        ensures
            v == self.mode_value(),
    {
        match self {
            PowerMode::Full => 0,
            PowerMode::PsmOnOff => 1,
            PowerMode::PsmCyclic => 2,
        }
    }
}

/// GPS navigation dynamic model (u-blox M10 `CFG-NAVSPG-DYNMODEL`). Only the
/// subset useful for this tracker is exposed.
#[derive(Clone, Copy, Debug, PartialEq, Eq, Structural)]
pub enum DynModel {
    Portable,
    Stationary,
    Pedestrian,
    Automotive,
    Sea,
    /// Airborne with < 1 g acceleration.
    Airborne1g,
    /// Airborne with < 2 g acceleration.
    Airborne2g,
    /// Airborne with < 4 g acceleration.
    Airborne4g,
}

impl DynModel {
    /// The `CFG-NAVSPG-DYNMODEL` enumeration.
    pub open spec fn model_value(self) -> u8 {
        match self {
            DynModel::Portable => 0,
            DynModel::Stationary => 2,
            DynModel::Pedestrian => 3,
            DynModel::Automotive => 4,
            DynModel::Sea => 5,
            DynModel::Airborne1g => 6,
            DynModel::Airborne2g => 7,
            DynModel::Airborne4g => 8,
        }
    }

    /// `CFG-NAVSPG-DYNMODEL` enum value.
    pub fn dynmodel(self) -> (v: u8)
        ensures
            v == self.model_value(),
    {
        match self {
            DynModel::Portable => 0,
            DynModel::Stationary => 2,
            DynModel::Pedestrian => 3,
            DynModel::Automotive => 4,
            DynModel::Sea => 5,
            DynModel::Airborne1g => 6,
            DynModel::Airborne2g => 7,
            DynModel::Airborne4g => 8,
        }
    }
}

/// GPS receiver configuration (u-blox M10, applied via UBX-CFG-VALSET).
///
/// The constellation and power defaults match the M10 factory set, so an
/// absent `[gps]` section leaves the module at its out-of-box behavior.
#[derive(Clone, Copy, Debug, PartialEq, Eq, Structural)]
pub struct GpsConfig {
    pub gps_enabled: bool,
    pub glonass_enabled: bool,
    pub galileo_enabled: bool,
    pub beidou_enabled: bool,
    pub qzss_enabled: bool,
    pub sbas_enabled: bool,
    /// Receiver power mode.
    pub power_mode: PowerMode,
    /// Measurement period in milliseconds (25-10000, i.e. 40 Hz down to
    /// 0.1 Hz). The nav solution runs at the same rate.
    pub meas_rate_ms: u16,
    /// Navigation dynamic model.
    pub dyn_model: DynModel,
}

impl GpsConfig {
    /// The M10 factory set.
    pub open spec fn factory() -> GpsConfig {
        GpsConfig {
            gps_enabled: true,
            // GLONASS is off in the M10 default concurrent set (GPS +
            // Galileo + BeiDou + QZSS + SBAS).
            glonass_enabled: false,
            galileo_enabled: true,
            beidou_enabled: true,
            qzss_enabled: true,
            sbas_enabled: true,
            power_mode: PowerMode::Full,
            meas_rate_ms: 1000,
            dyn_model: DynModel::Portable,
        }
    }
}

impl Default for GpsConfig {
    fn default() -> (g: Self)
        ensures
            g == GpsConfig::factory(),
    {
        GpsConfig {
            gps_enabled: true,
            glonass_enabled: false,
            galileo_enabled: true,
            beidou_enabled: true,
            qzss_enabled: true,
            sbas_enabled: true,
            power_mode: PowerMode::Full,
            meas_rate_ms: 1000,
            dyn_model: DynModel::Portable,
        }
    }
}

/// Parsed and validated radio configuration.
#[derive(Clone, Copy, Debug, PartialEq, Eq, Structural)]
pub struct RadioConfig {
    /// RF frequency in Hz.
    pub frequency_hz: u32,
    /// LoRa spreading factor (5-12).
    pub spreading_factor: u8,
    /// LoRa bandwidth in kHz (62 means 62.5).
    pub bandwidth_khz: u16,
    /// LoRa coding rate denominator: 5-8 for 4/5..4/8.
    pub coding_rate: u8,
    /// TX power in dBm (-9..22 on the STM32WLE5 high-power PA).
    pub power_dbm: i8,
    /// Receiver boosted gain (SX126x `RxGain` register). Roughly +2 dB of
    /// sensitivity for a few mA more while listening; the chip powers up
    /// with it off.
    ///
    /// Only two of the register's four settings are documented (power
    /// saving and boosted), so this is a bool rather than an enum - the
    /// intermediate values have no specified behavior to expose.
    pub rx_boost: bool,
    /// This node's address (1-255). Must be unique on the network: it is
    /// how receivers tell one sender's positions from another's, and two
    /// nodes sharing one are mutually deaf - each drops the other's frames
    /// as its own echo.
    pub address: u8,
    /// Which halves of the air interface this node uses, and whether it
    /// retransmits other nodes' frames.
    pub role: Role,
    /// Retransmissions allowed for a broadcast this node originates, i.e.
    /// the `hops_left` it stamps into the frame. 0 means no repeater will
    /// forward it; 1 covers the usual single-repeater deployment.
    ///
    /// This is a property of the sender, not of the repeaters, so raising
    /// it on one node does not require touching any other.
    pub max_hops: u8,
    /// Position broadcast interval in seconds (0 disables the beacon).
    pub beacon_interval_s: u16,
    /// Which fields of a position a beacon is asked to carry, as a mask of
    /// the `FIELD_*` bits in [`crate::lora`];
    /// [`position_msg_len`](crate::lora::position_msg_len) gives what a mask
    /// costs. Every extra field is airtime paid on every broadcast, so the
    /// default names position and nothing else.
    ///
    /// A position broadcast ([`encode_position`](crate::lora::encode_position))
    /// carries the whole packet whatever the mask.
    pub beacon_fields: u8,
    /// Whether the SD card is used at all. False stops logging, config
    /// read-back and the card's power draw.
    pub sd_enabled: bool,
    /// Use the internal DC-DC (SMPS) rather than the LDO, roughly halving
    /// RX and TX current at 3.3 V.
    ///
    /// The SMPS needs the module's inductor fitted, so this is only safe to
    /// leave on for boards that have one - the Wio-E5 does. Turning it off
    /// costs current but is safe anywhere.
    pub dcdc_enabled: bool,
    /// Supply the radio drives the TCXO at.
    pub tcxo_volts: TcxoVolts,
    /// How long the radio waits for the TCXO to stabilize before it will
    /// use the clock, in milliseconds.
    ///
    /// Paid on every wake from sleep, so it is a real duty-cycle cost - but
    /// too short and the radio runs off an oscillator that has not settled,
    /// which shows up as a receiver that works warm and fails cold.
    pub tcxo_startup_ms: u16,
    /// GPS receiver configuration.
    pub gps: GpsConfig,
}

impl RadioConfig {
    /// What an empty file configures.
    pub open spec fn defaults() -> RadioConfig {
        RadioConfig {
            frequency_hz: 915_000_000,
            spreading_factor: 7,
            bandwidth_khz: 125,
            coding_rate: 5,
            power_dbm: 22,
            // Off, matching the chip's power-up state: enabling it costs
            // receive current continuously on whichever node is listening,
            // which is a trade to opt into rather than inherit.
            rx_boost: false,
            address: 1,
            // Leaf by default: repeating is a job you give one well-placed
            // node, not something every node should do to every frame.
            role: Role::Leaf,
            // Allow one repeat, so dropping a repeater into an existing
            // fleet works without reconfiguring the nodes already deployed.
            max_hops: 1,
            beacon_interval_s: 10,
            // Position only: everything else a fix produces is in the SD log,
            // where a byte costs nothing.
            beacon_fields: lora::FIELDS_DEFAULT,
            sd_enabled: true,
            // The Wio-E5 carries the SMPS inductor and a 1.8 V TCXO; these
            // defaults are that module's hardware, not a tuning choice.
            dcdc_enabled: true,
            tcxo_volts: TcxoVolts::V1_8,
            tcxo_startup_ms: 10,
            gps: GpsConfig::factory(),
        }
    }

    /// Every field is in the range that the file format allows.
    pub open spec fn valid(self) -> bool {
        &&& 150_000_000 <= self.frequency_hz <= 960_000_000
        &&& 5 <= self.spreading_factor <= 12
        &&& self.bandwidth_khz == 62 || self.bandwidth_khz == 125 || self.bandwidth_khz == 250
            || self.bandwidth_khz == 500
        &&& 5 <= self.coding_rate <= 8
        &&& -9 <= self.power_dbm <= 22
        &&& 1 <= self.address
        &&& self.max_hops <= MAX_HOPS_LIMIT
        &&& self.beacon_interval_s <= 3600
        &&& self.beacon_fields & lora::FIELDS_REQUIRED == lora::FIELDS_REQUIRED
        &&& 1 <= self.tcxo_startup_ms <= 1_000
        &&& 25 <= self.gps.meas_rate_ms <= 10_000
    }
}

impl Default for RadioConfig {
    fn default() -> (c: Self)
        ensures
            c == RadioConfig::defaults(),
    {
        RadioConfig {
            frequency_hz: 915_000_000,
            spreading_factor: 7,
            bandwidth_khz: 125,
            coding_rate: 5,
            power_dbm: 22,
            rx_boost: false,
            address: 1,
            role: Role::Leaf,
            max_hops: 1,
            beacon_interval_s: 10,
            beacon_fields: lora::FIELDS_DEFAULT,
            sd_enabled: true,
            dcdc_enabled: true,
            tcxo_volts: TcxoVolts::V1_8,
            tcxo_startup_ms: 10,
            gps: GpsConfig::default(),
        }
    }
}

/// Air time relative to SF7/BW125: 2^(SF-7) symbols' worth, scaled by the
/// bandwidth, never below 1. The spreading factor counts as one in 5-12.
pub open spec fn airtime_ratio(spreading_factor: u8, bandwidth_khz: u16) -> int {
    let sf: int = if spreading_factor > 12 {
        12
    } else {
        spreading_factor as int
    };
    let symbols: int = if sf <= 7 {
        1
    } else {
        vstd::arithmetic::power2::pow2((sf - 7) as nat) as int
    };
    let ratio: int = symbols * 125 / bandwidth_khz as int;
    if ratio < 1 {
        1
    } else {
        ratio
    }
}

impl RadioConfig {
    /// Software poll deadline for TxDone (ms): linear in the air time.
    pub open spec fn poll_timeout(self) -> int {
        150 * airtime_ratio(self.spreading_factor, self.bandwidth_khz) + 100
    }

    /// Chip-level TX timeout (ms).
    pub open spec fn chip_timeout(self) -> int {
        self.poll_timeout() + 500
    }

    /// Low-data-rate optimization is required when the LoRa symbol time
    /// exceeds 16.38 ms (SF11/SF12 at BW125, SF12 at BW62.5).
    ///
    /// The symbol time is 2^SF / bandwidth; SF11/BW125 is exactly 16.384 ms,
    /// so the comparison in hundredths of a millisecond is inclusive.
    pub fn ldro(&self) -> (r: bool)
        requires
            self.spreading_factor <= 25,
            self.bandwidth_khz > 0,
        ensures
            r == (vstd::arithmetic::power2::pow2(self.spreading_factor as nat) as int * 100
                / self.bandwidth_khz as int >= 1638),
    {
        let sf: u32 = self.spreading_factor as u32;
        proof {
            vstd::arithmetic::power2::lemma_pow2_strictly_increases(sf as nat, 26);
            vstd::arithmetic::power2::lemma2_to64();
            vstd::bits::lemma_u32_shl_is_mul(1, sf);
        }
        let num: u32 = 1u32 << sf;
        num * 100 / (self.bandwidth_khz as u32) >= 1638
    }

    /// Approximate scale of the on-air time relative to SF7/BW125,
    /// used to derive TX timeouts and safe listen periods.
    pub fn airtime_scale(&self) -> (r: u32)
        requires
            self.bandwidth_khz > 0,
        ensures
            r == airtime_ratio(self.spreading_factor, self.bandwidth_khz),
            1 <= r <= 4_000,
    {
        let sf: u8 = if self.spreading_factor > 12 {
            12
        } else {
            self.spreading_factor
        };
        let shift: u32 = if sf > 7 {
            (sf - 7) as u32
        } else {
            0
        };
        proof {
            vstd::arithmetic::power2::lemma2_to64();
            if shift < 5 {
                vstd::arithmetic::power2::lemma_pow2_strictly_increases(shift as nat, 5);
            }
            vstd::bits::lemma_u32_shl_is_mul(1, shift);
        }
        let base: u32 = 1u32 << shift;
        let bw: u32 = self.bandwidth_khz as u32;
        let ratio: u32 = base * 125 / bw;
        proof {
            assert(base * 125 / bw as int <= base * 125) by (nonlinear_arith)
                requires
                    base <= 32,
                    bw > 0,
            ;
        }
        if ratio < 1 {
            1
        } else {
            ratio
        }
    }

    /// Software poll deadline for TxDone (ms).
    pub fn tx_poll_timeout_ms(&self) -> (r: u32)
        requires
            self.bandwidth_khz > 0,
        ensures
            r == self.poll_timeout(),
            250 <= r <= 600_100,
    {
        150 * self.airtime_scale() + 100
    }

    /// Chip-level TX timeout (ms); longer than the poll deadline so the
    /// polling loop always exits first.
    pub fn tx_chip_timeout_ms(&self) -> (r: u32)
        requires
            self.bandwidth_khz > 0,
        ensures
            r == self.chip_timeout(),
            r > self.poll_timeout(),
            750 <= r <= 600_600,
    {
        self.tx_poll_timeout_ms() + 500
    }

    /// Upper bound of the random delay a repeater waits before forwarding
    /// a frame (ms).
    ///
    /// Two repeaters that hear the same broadcast would otherwise answer it
    /// at the same instant and collide every time, so the wait has to span
    /// enough air time for one of them to win outright - hence scaling with
    /// the modulation rather than a fixed number of milliseconds.
    pub fn repeat_jitter_ms(&self) -> (r: u32)
        requires
            self.bandwidth_khz > 0,
        ensures
            r == 100 * airtime_ratio(self.spreading_factor, self.bandwidth_khz),
            100 <= r <= 400_000,
    {
        100 * self.airtime_scale()
    }
}

/// Ceiling on [`RadioConfig::max_hops`]. Each hop costs another full
/// transmission of the same frame on a shared channel, so the useful range
/// is small and the limit exists to keep a typo from flooding the band.
pub const MAX_HOPS_LIMIT: u8 = 8;

/// Config parse/validation errors. The u32 is the offending line number
/// (1-based) where one applies.
#[derive(Clone, Copy, Debug, PartialEq, Eq, Structural)]
pub enum ConfigError {
    /// Line is not `key = value`, a comment, a blank or a `[section]`.
    Syntax(u32),
    /// Value does not parse as the expected type.
    BadValue(u32),
    /// A recognized key holds an out-of-range value.
    OutOfRange(u32),
    /// The file is not valid UTF-8.
    Utf8,
}

// -- What a file means --------------------------------------------------------

/// What a line says, once its comment and the white space around it are gone.
#[verifier::ext_equal]
pub enum Line {
    /// Blank, a comment or a section header.
    Nothing,
    /// `key = value`.
    Setting { key: Seq<char>, value: Seq<char> },
    /// Anything else.
    Malformed,
}

/// Read one line.
pub open spec fn read_line(line: Seq<char>) -> Line {
    let body = crate::text::trimmed(line.take(crate::text::first_of(line, '#')));
    let eq = crate::text::first_of(body, '=');
    if body.len() == 0 {
        Line::Nothing
    } else if body[0] == '[' {
        if body.last() == ']' {
            Line::Nothing
        } else {
            Line::Malformed
        }
    } else if eq == body.len() {
        Line::Malformed
    } else {
        let key = crate::text::trimmed(body.take(eq));
        let value = crate::text::trimmed(body.skip(eq + 1));
        if key.len() == 0 || value.len() == 0 {
            Line::Malformed
        } else {
            Line::Setting { key, value }
        }
    }
}

/// The truth value that a word writes.
pub open spec fn truth(s: Seq<char>) -> Option<bool> {
    if s == "true"@ {
        Some(true)
    } else if s == "false"@ {
        Some(false)
    } else {
        None
    }
}

/// The role that a word names.
pub open spec fn role_named(s: Seq<char>) -> Option<Role> {
    if s == "leaf"@ {
        Some(Role::Leaf)
    } else if s == "repeater"@ {
        Some(Role::Repeater)
    } else if s == "tx_only"@ {
        Some(Role::TxOnly)
    } else if s == "rx_only"@ {
        Some(Role::RxOnly)
    } else {
        None
    }
}

/// The TCXO supply that a word names.
pub open spec fn volts_named(s: Seq<char>) -> Option<TcxoVolts> {
    if s == "1.6"@ {
        Some(TcxoVolts::V1_6)
    } else if s == "1.7"@ {
        Some(TcxoVolts::V1_7)
    } else if s == "1.8"@ {
        Some(TcxoVolts::V1_8)
    } else if s == "2.2"@ {
        Some(TcxoVolts::V2_2)
    } else if s == "2.4"@ {
        Some(TcxoVolts::V2_4)
    } else if s == "2.7"@ {
        Some(TcxoVolts::V2_7)
    } else if s == "3.0"@ {
        Some(TcxoVolts::V3_0)
    } else if s == "3.3"@ {
        Some(TcxoVolts::V3_3)
    } else {
        None
    }
}

/// The receiver power mode that a word names.
pub open spec fn power_named(s: Seq<char>) -> Option<PowerMode> {
    if s == "full"@ {
        Some(PowerMode::Full)
    } else if s == "psmoo"@ || s == "psm_onoff"@ {
        Some(PowerMode::PsmOnOff)
    } else if s == "psmct"@ || s == "psm_cyclic"@ {
        Some(PowerMode::PsmCyclic)
    } else {
        None
    }
}

/// The dynamic model that a word names.
pub open spec fn model_named(s: Seq<char>) -> Option<DynModel> {
    if s == "portable"@ {
        Some(DynModel::Portable)
    } else if s == "stationary"@ {
        Some(DynModel::Stationary)
    } else if s == "pedestrian"@ {
        Some(DynModel::Pedestrian)
    } else if s == "automotive"@ {
        Some(DynModel::Automotive)
    } else if s == "sea"@ {
        Some(DynModel::Sea)
    } else if s == "airborne1g"@ {
        Some(DynModel::Airborne1g)
    } else if s == "airborne2g"@ {
        Some(DynModel::Airborne2g)
    } else if s == "airborne4g"@ {
        Some(DynModel::Airborne4g)
    } else {
        None
    }
}

/// The beacon field that a word names.
pub open spec fn field_named(s: Seq<char>) -> Option<u8> {
    if s == "lat"@ || s == "latitude"@ {
        Some(lora::FIELD_LAT)
    } else if s == "lon"@ || s == "longitude"@ {
        Some(lora::FIELD_LON)
    } else if s == "alt"@ || s == "altitude"@ {
        Some(lora::FIELD_ALT)
    } else if s == "speed"@ {
        Some(lora::FIELD_SPEED)
    } else if s == "course"@ {
        Some(lora::FIELD_COURSE)
    } else if s == "sats"@ {
        Some(lora::FIELD_SATS)
    } else if s == "time"@ {
        Some(lora::FIELD_TIME)
    } else {
        None
    }
}

/// `mask` together with the fields of a comma-separated list.
pub open spec fn fields_named(mask: u8, list: Seq<char>) -> Option<u8>
    decreases list.len(),
{
    let comma = crate::text::first_of(list, ',');
    match field_named(crate::text::trimmed(list.take(comma))) {
        None => None,
        Some(field) => if 0 <= comma < list.len() {
            fields_named(mask | field, list.skip(comma + 1))
        } else {
            Some(mask | field)
        },
    }
}

/// The number that a value writes, where it has to lie in `lo..=hi`.
pub open spec fn number_in(value: Seq<char>, lo: int, hi: int, line: u32) -> Result<
    u64,
    ConfigError,
> {
    match crate::text::number(value) {
        None => Err(ConfigError::BadValue(line)),
        Some(v) => if lo <= v <= hi {
            Ok(v)
        } else {
            Err(ConfigError::OutOfRange(line))
        },
    }
}

/// The truth value that a value writes.
pub open spec fn truth_in(value: Seq<char>, line: u32) -> Result<bool, ConfigError> {
    match truth(value) {
        None => Err(ConfigError::BadValue(line)),
        Some(v) => Ok(v),
    }
}

/// Whether a key belongs to the GPS receiver's configuration.
pub open spec fn is_gps_key(key: Seq<char>) -> bool {
    ||| key == "gps_enabled"@
    ||| key == "glonass_enabled"@
    ||| key == "galileo_enabled"@
    ||| key == "beidou_enabled"@
    ||| key == "qzss_enabled"@
    ||| key == "sbas_enabled"@
    ||| key == "power_mode"@
    ||| key == "meas_rate_ms"@
    ||| key == "dynamic_model"@
    ||| key == "dyn_model"@
}

/// The GPS receiver configuration after a setting with a GPS key.
pub open spec fn set_gps(gps: GpsConfig, key: Seq<char>, value: Seq<char>, line: u32) -> Result<
    GpsConfig,
    ConfigError,
> {
    if key == "power_mode"@ {
        match power_named(crate::text::unquoted(value)) {
            None => Err(ConfigError::BadValue(line)),
            Some(power_mode) => Ok(GpsConfig { power_mode, ..gps }),
        }
    } else if key == "meas_rate_ms"@ {
        match number_in(value, 25, 10_000, line) {
            Err(e) => Err(e),
            Ok(v) => Ok(GpsConfig { meas_rate_ms: v as u16, ..gps }),
        }
    } else if key == "dynamic_model"@ || key == "dyn_model"@ {
        match model_named(crate::text::unquoted(value)) {
            None => Err(ConfigError::BadValue(line)),
            Some(dyn_model) => Ok(GpsConfig { dyn_model, ..gps }),
        }
    } else {
        match truth_in(value, line) {
            Err(e) => Err(e),
            Ok(on) => Ok(
                if key == "gps_enabled"@ {
                    GpsConfig { gps_enabled: on, ..gps }
                } else if key == "glonass_enabled"@ {
                    GpsConfig { glonass_enabled: on, ..gps }
                } else if key == "galileo_enabled"@ {
                    GpsConfig { galileo_enabled: on, ..gps }
                } else if key == "beidou_enabled"@ {
                    GpsConfig { beidou_enabled: on, ..gps }
                } else if key == "qzss_enabled"@ {
                    GpsConfig { qzss_enabled: on, ..gps }
                } else {
                    GpsConfig { sbas_enabled: on, ..gps }
                },
            ),
        }
    }
}

/// Whether a key takes a plain number.
pub open spec fn is_number_key(key: Seq<char>) -> bool {
    ||| key == "frequency_hz"@
    ||| key == "spreading_factor"@
    ||| key == "bandwidth_khz"@
    ||| key == "coding_rate"@
    ||| key == "address"@
    ||| key == "max_hops"@
    ||| key == "lifetime"@
    ||| key == "interval_s"@
    ||| key == "beacon_interval_s"@
    ||| key == "tcxo_startup_ms"@
}

/// Whether a number key takes the value `v`.
pub open spec fn accepts(key: Seq<char>, v: int) -> bool {
    if key == "frequency_hz"@ {
        // Sub-GHz ISM range the SX126x covers.
        150_000_000 <= v <= 960_000_000
    } else if key == "spreading_factor"@ {
        5 <= v <= 12
    } else if key == "bandwidth_khz"@ {
        v == 62 || v == 125 || v == 250 || v == 500
    } else if key == "coding_rate"@ {
        5 <= v <= 8
    } else if key == "address"@ {
        1 <= v <= 255
    } else if key == "max_hops"@ {
        v <= MAX_HOPS_LIMIT
    } else if key == "lifetime"@ {
        1 <= v <= 16
    } else if key == "tcxo_startup_ms"@ {
        1 <= v <= 1_000
    } else {
        v <= 3600
    }
}

/// The configuration after a setting whose key takes a number and whose value
/// is in range.
pub open spec fn set_number(cfg: RadioConfig, key: Seq<char>, v: u64) -> RadioConfig {
    if key == "frequency_hz"@ {
        RadioConfig { frequency_hz: v as u32, ..cfg }
    } else if key == "spreading_factor"@ {
        RadioConfig { spreading_factor: v as u8, ..cfg }
    } else if key == "bandwidth_khz"@ {
        RadioConfig { bandwidth_khz: v as u16, ..cfg }
    } else if key == "coding_rate"@ {
        RadioConfig { coding_rate: v as u8, ..cfg }
    } else if key == "address"@ {
        RadioConfig { address: v as u8, ..cfg }
    } else if key == "max_hops"@ {
        RadioConfig { max_hops: v as u8, ..cfg }
    } else if key == "lifetime"@ {
        // The older key counted transmissions, where max_hops counts only
        // the retransmissions after the first.
        RadioConfig {
            max_hops: if v - 1 > MAX_HOPS_LIMIT {
                MAX_HOPS_LIMIT
            } else {
                (v - 1) as u8
            },
            ..cfg
        }
    } else if key == "tcxo_startup_ms"@ {
        RadioConfig { tcxo_startup_ms: v as u16, ..cfg }
    } else {
        RadioConfig { beacon_interval_s: v as u16, ..cfg }
    }
}

/// The configuration after one setting.
pub open spec fn set(cfg: RadioConfig, key: Seq<char>, value: Seq<char>, line: u32) -> Result<
    RadioConfig,
    ConfigError,
> {
    if is_number_key(key) {
        match crate::text::number(value) {
            None => Err(ConfigError::BadValue(line)),
            Some(v) => if accepts(key, v as int) {
                Ok(set_number(cfg, key, v))
            } else {
                Err(ConfigError::OutOfRange(line))
            },
        }
    } else if key == "power_dbm"@ {
        match crate::text::signed_number(value) {
            None => Err(ConfigError::BadValue(line)),
            Some(v) => if -9 <= v <= 22 {
                Ok(RadioConfig { power_dbm: v as i8, ..cfg })
            } else {
                Err(ConfigError::OutOfRange(line))
            },
        }
    } else if key == "rx_boost"@ {
        match truth_in(value, line) {
            Err(e) => Err(e),
            Ok(rx_boost) => Ok(RadioConfig { rx_boost, ..cfg }),
        }
    } else if key == "dcdc_enabled"@ {
        match truth_in(value, line) {
            Err(e) => Err(e),
            Ok(dcdc_enabled) => Ok(RadioConfig { dcdc_enabled, ..cfg }),
        }
    } else if key == "sd_enabled"@ {
        match truth_in(value, line) {
            Err(e) => Err(e),
            Ok(sd_enabled) => Ok(RadioConfig { sd_enabled, ..cfg }),
        }
    } else if key == "role"@ {
        match role_named(crate::text::unquoted(value)) {
            None => Err(ConfigError::BadValue(line)),
            Some(role) => Ok(RadioConfig { role, ..cfg }),
        }
    } else if key == "tcxo_volts"@ {
        match volts_named(crate::text::unquoted(value)) {
            None => Err(ConfigError::BadValue(line)),
            Some(tcxo_volts) => Ok(RadioConfig { tcxo_volts, ..cfg }),
        }
    } else if key == "fields"@ || key == "beacon_fields"@ {
        match fields_named(0, crate::text::unquoted(value)) {
            None => Err(ConfigError::BadValue(line)),
            Some(beacon_fields) => if beacon_fields & lora::FIELDS_REQUIRED
                == lora::FIELDS_REQUIRED {
                Ok(RadioConfig { beacon_fields, ..cfg })
            } else {
                Err(ConfigError::OutOfRange(line))
            },
        }
    } else if is_gps_key(key) {
        match set_gps(cfg.gps, key, value, line) {
            Err(e) => Err(e),
            Ok(gps) => Ok(RadioConfig { gps, ..cfg }),
        }
    } else {
        // Unknown keys are ignored.
        Ok(cfg)
    }
}

/// The configuration after one line.
pub open spec fn after_line(cfg: RadioConfig, line: Seq<char>, number: u32) -> Result<
    RadioConfig,
    ConfigError,
> {
    match read_line(line) {
        Line::Nothing => Ok(cfg),
        Line::Malformed => Err(ConfigError::Syntax(number)),
        Line::Setting { key, value } => set(cfg, key, value, number),
    }
}

/// The configuration after the lines of `text`, the first of which has the
/// given number. Lines end at newlines; the first line with an error decides.
pub open spec fn after_lines(cfg: RadioConfig, text: Seq<char>, number: int) -> Result<
    RadioConfig,
    ConfigError,
>
    decreases text.len(),
{
    let end = crate::text::first_of(text, '\n');
    match after_line(cfg, text.take(end), number as u32) {
        Err(e) => Err(e),
        Ok(next) => if 0 <= end < text.len() {
            after_lines(next, text.skip(end + 1), number + 1)
        } else {
            Ok(next)
        },
    }
}

/// What a configuration text means.
pub open spec fn meaning(text: Seq<char>) -> Result<RadioConfig, ConfigError> {
    after_lines(RadioConfig::defaults(), text, 1)
}

/// How many lines a text has.
pub open spec fn line_count(text: Seq<char>) -> nat
    decreases text.len(),
{
    let end = crate::text::first_of(text, '\n');
    if 0 <= end < text.len() {
        1 + line_count(text.skip(end + 1))
    } else {
        1
    }
}

/// What a configuration file means.
pub open spec fn file_meaning(bytes: Seq<u8>) -> Result<RadioConfig, ConfigError> {
    if vstd::utf8::valid_utf8(bytes) {
        meaning(vstd::utf8::decode_utf8(bytes))
    } else {
        Err(ConfigError::Utf8)
    }
}

// -- The parser ---------------------------------------------------------------

fn parse_bool(s: &[char]) -> (r: Option<bool>)
    ensures
        r == truth(s@),
{
    if is_word(s, "true") {
        Some(true)
    } else if is_word(s, "false") {
        Some(false)
    } else {
        None
    }
}

fn parse_flag(value: &[char], line: u32) -> (r: Result<bool, ConfigError>)
    ensures
        r == truth_in(value@, line),
{
    match parse_bool(value) {
        Some(v) => Ok(v),
        None => Err(ConfigError::BadValue(line)),
    }
}

fn parse_role(s: &[char]) -> (r: Option<Role>)
    ensures
        r == role_named(s@),
{
    if is_word(s, "leaf") {
        Some(Role::Leaf)
    } else if is_word(s, "repeater") {
        Some(Role::Repeater)
    } else if is_word(s, "tx_only") {
        Some(Role::TxOnly)
    } else if is_word(s, "rx_only") {
        Some(Role::RxOnly)
    } else {
        None
    }
}

fn parse_volts(s: &[char]) -> (r: Option<TcxoVolts>)
    ensures
        r == volts_named(s@),
{
    if is_word(s, "1.6") {
        Some(TcxoVolts::V1_6)
    } else if is_word(s, "1.7") {
        Some(TcxoVolts::V1_7)
    } else if is_word(s, "1.8") {
        Some(TcxoVolts::V1_8)
    } else if is_word(s, "2.2") {
        Some(TcxoVolts::V2_2)
    } else if is_word(s, "2.4") {
        Some(TcxoVolts::V2_4)
    } else if is_word(s, "2.7") {
        Some(TcxoVolts::V2_7)
    } else if is_word(s, "3.0") {
        Some(TcxoVolts::V3_0)
    } else if is_word(s, "3.3") {
        Some(TcxoVolts::V3_3)
    } else {
        None
    }
}

fn parse_power(s: &[char]) -> (r: Option<PowerMode>)
    ensures
        r == power_named(s@),
{
    if is_word(s, "full") {
        Some(PowerMode::Full)
    } else if is_word(s, "psmoo") || is_word(s, "psm_onoff") {
        Some(PowerMode::PsmOnOff)
    } else if is_word(s, "psmct") || is_word(s, "psm_cyclic") {
        Some(PowerMode::PsmCyclic)
    } else {
        None
    }
}

fn parse_model(s: &[char]) -> (r: Option<DynModel>)
    ensures
        r == model_named(s@),
{
    if is_word(s, "portable") {
        Some(DynModel::Portable)
    } else if is_word(s, "stationary") {
        Some(DynModel::Stationary)
    } else if is_word(s, "pedestrian") {
        Some(DynModel::Pedestrian)
    } else if is_word(s, "automotive") {
        Some(DynModel::Automotive)
    } else if is_word(s, "sea") {
        Some(DynModel::Sea)
    } else if is_word(s, "airborne1g") {
        Some(DynModel::Airborne1g)
    } else if is_word(s, "airborne2g") {
        Some(DynModel::Airborne2g)
    } else if is_word(s, "airborne4g") {
        Some(DynModel::Airborne4g)
    } else {
        None
    }
}

fn parse_field(s: &[char]) -> (r: Option<u8>)
    ensures
        r == field_named(s@),
{
    if is_word(s, "lat") || is_word(s, "latitude") {
        Some(lora::FIELD_LAT)
    } else if is_word(s, "lon") || is_word(s, "longitude") {
        Some(lora::FIELD_LON)
    } else if is_word(s, "alt") || is_word(s, "altitude") {
        Some(lora::FIELD_ALT)
    } else if is_word(s, "speed") {
        Some(lora::FIELD_SPEED)
    } else if is_word(s, "course") {
        Some(lora::FIELD_COURSE)
    } else if is_word(s, "sats") {
        Some(lora::FIELD_SATS)
    } else if is_word(s, "time") {
        Some(lora::FIELD_TIME)
    } else {
        None
    }
}

/// Parse a comma-separated beacon field list ("lat,lon,altitude") into a
/// [`crate::lora`] field mask. An empty list is rejected: writing `""` reads
/// like "send nothing", which is not a thing a beacon can do, so it is a
/// mistake worth reporting rather than silently accepting.
fn parse_fields(value: &[char]) -> (r: Option<u8>)
    ensures
        r == fields_named(0, crate::text::unquoted(value@)),
{
    let list = unquote(value);
    let mut mask: u8 = 0;
    let mut from: usize = 0;
    assert(list@.skip(0) =~= list@);
    loop
        invariant
            from <= list@.len(),
            fields_named(0, list@) == fields_named(mask, list@.skip(from as int)),
            list@ == crate::text::unquoted(value@),
        decreases list@.len() - from,
    {
        let rest = &list[from..list.len()];
        assert(rest@ =~= list@.skip(from as int));
        let comma: usize = find(rest, ',');
        let name = &rest[0..comma];
        assert(name@ =~= rest@.take(comma as int));
        match parse_field(trim(name)) {
            None => {
                return None;
            },
            Some(field) => {
                mask = mask | field;
            },
        }
        if comma == rest.len() {
            return Some(mask);
        }
        assert(rest@.skip(comma + 1) =~= list@.skip(from + comma + 1));
        from = from + comma + 1;
    }
}

fn parse_number(value: &[char], lo: u64, hi: u64, line: u32) -> (r: Result<u64, ConfigError>)
    ensures
        r == number_in(value@, lo as int, hi as int, line),
{
    match parse_u64(value) {
        None => Err(ConfigError::BadValue(line)),
        Some(v) => if lo <= v && v <= hi {
            Ok(v)
        } else {
            Err(ConfigError::OutOfRange(line))
        },
    }
}

/// Apply a setting whose key takes a plain number; `None` for another key.
fn set_number_key(cfg: RadioConfig, key: &[char], value: &[char], line: u32) -> (r: Option<
    Result<RadioConfig, ConfigError>,
>)
    ensures
        r is Some <==> is_number_key(key@),
        r matches Some(out) ==> out == set(cfg, key@, value@, line),
{
    let mut next: RadioConfig = cfg;
    if is_word(key, "frequency_hz") {
        // Sub-GHz ISM range the SX126x covers.
        match parse_number(value, 150_000_000, 960_000_000, line) {
            Ok(v) => {
                next.frequency_hz = v as u32;
            },
            Err(e) => {
                return Some(Err(e));
            },
        }
    } else if is_word(key, "spreading_factor") {
        match parse_number(value, 5, 12, line) {
            Ok(v) => {
                next.spreading_factor = v as u8;
            },
            Err(e) => {
                return Some(Err(e));
            },
        }
    } else if is_word(key, "bandwidth_khz") {
        match parse_number(value, 62, 500, line) {
            Ok(v) => {
                if v != 62 && v != 125 && v != 250 && v != 500 {
                    return Some(Err(ConfigError::OutOfRange(line)));
                }
                next.bandwidth_khz = v as u16;
            },
            Err(e) => {
                return Some(Err(e));
            },
        }
    } else if is_word(key, "coding_rate") {
        match parse_number(value, 5, 8, line) {
            Ok(v) => {
                next.coding_rate = v as u8;
            },
            Err(e) => {
                return Some(Err(e));
            },
        }
    } else if is_word(key, "address") {
        match parse_number(value, 1, 255, line) {
            Ok(v) => {
                next.address = v as u8;
            },
            Err(e) => {
                return Some(Err(e));
            },
        }
    } else if is_word(key, "max_hops") {
        match parse_number(value, 0, MAX_HOPS_LIMIT as u64, line) {
            Ok(v) => {
                next.max_hops = v as u8;
            },
            Err(e) => {
                return Some(Err(e));
            },
        }
    } else if is_word(key, "lifetime") {
        // Accepted so cards written for the old mesh keep the hop count
        // their author intended: it counted transmissions, where max_hops
        // counts only the retransmissions after the first.
        match parse_number(value, 1, 16, line) {
            Ok(v) => {
                next.max_hops = if v - 1 > MAX_HOPS_LIMIT as u64 {
                    MAX_HOPS_LIMIT
                } else {
                    (v - 1) as u8
                };
            },
            Err(e) => {
                return Some(Err(e));
            },
        }
    } else if is_word(key, "tcxo_startup_ms") {
        // The ceiling is a stuck-oscillator guard: past this the radio is
        // not slow to start, it is not starting.
        match parse_number(value, 1, 1_000, line) {
            Ok(v) => {
                next.tcxo_startup_ms = v as u16;
            },
            Err(e) => {
                return Some(Err(e));
            },
        }
    } else if is_word(key, "interval_s") || is_word(key, "beacon_interval_s") {
        match parse_number(value, 0, 3600, line) {
            Ok(v) => {
                next.beacon_interval_s = v as u16;
            },
            Err(e) => {
                return Some(Err(e));
            },
        }
    } else {
        return None;
    }
    Some(Ok(next))
}

/// Apply a setting of the GPS receiver; `None` for another key.
fn set_gps_key(gps: GpsConfig, key: &[char], value: &[char], line: u32) -> (r: Option<
    Result<GpsConfig, ConfigError>,
>)
    ensures
        r is Some <==> is_gps_key(key@),
        r matches Some(out) ==> out == set_gps(gps, key@, value@, line),
{
    let mut next: GpsConfig = gps;
    if is_word(key, "power_mode") {
        return match parse_power(unquote(value)) {
            Some(m) => {
                next.power_mode = m;
                Some(Ok(next))
            },
            None => Some(Err(ConfigError::BadValue(line))),
        };
    }
    if is_word(key, "meas_rate_ms") {
        return match parse_number(value, 25, 10_000, line) {
            Ok(v) => {
                next.meas_rate_ms = v as u16;
                Some(Ok(next))
            },
            Err(e) => Some(Err(e)),
        };
    }
    if is_word(key, "dynamic_model") || is_word(key, "dyn_model") {
        return match parse_model(unquote(value)) {
            Some(m) => {
                next.dyn_model = m;
                Some(Ok(next))
            },
            None => Some(Err(ConfigError::BadValue(line))),
        };
    }
    let gps_key: bool = is_word(key, "gps_enabled");
    let glonass_key: bool = is_word(key, "glonass_enabled");
    let galileo_key: bool = is_word(key, "galileo_enabled");
    let beidou_key: bool = is_word(key, "beidou_enabled");
    let qzss_key: bool = is_word(key, "qzss_enabled");
    let sbas_key: bool = is_word(key, "sbas_enabled");
    if !gps_key && !glonass_key && !galileo_key && !beidou_key && !qzss_key && !sbas_key {
        return None;
    }
    match parse_flag(value, line) {
        Err(e) => Some(Err(e)),
        Ok(on) => {
            if gps_key {
                next.gps_enabled = on;
            } else if glonass_key {
                next.glonass_enabled = on;
            } else if galileo_key {
                next.galileo_enabled = on;
            } else if beidou_key {
                next.beidou_enabled = on;
            } else if qzss_key {
                next.qzss_enabled = on;
            } else {
                next.sbas_enabled = on;
            }
            Some(Ok(next))
        },
    }
}

/// Apply one setting.
fn set_key(cfg: RadioConfig, key: &[char], value: &[char], line: u32) -> (r: Result<
    RadioConfig,
    ConfigError,
>)
    ensures
        r == set(cfg, key@, value@, line),
{
    if let Some(out) = set_number_key(cfg, key, value, line) {
        return out;
    }
    let mut next: RadioConfig = cfg;
    if is_word(key, "power_dbm") {
        match parse_i128(value) {
            None => {
                return Err(ConfigError::BadValue(line));
            },
            Some(v) => {
                if v < -9 || 22 < v {
                    return Err(ConfigError::OutOfRange(line));
                }
                next.power_dbm = v as i8;
            },
        }
    } else if is_word(key, "rx_boost") {
        match parse_flag(value, line) {
            Ok(v) => {
                next.rx_boost = v;
            },
            Err(e) => {
                return Err(e);
            },
        }
    } else if is_word(key, "dcdc_enabled") {
        match parse_flag(value, line) {
            Ok(v) => {
                next.dcdc_enabled = v;
            },
            Err(e) => {
                return Err(e);
            },
        }
    } else if is_word(key, "sd_enabled") {
        match parse_flag(value, line) {
            Ok(v) => {
                next.sd_enabled = v;
            },
            Err(e) => {
                return Err(e);
            },
        }
    } else if is_word(key, "role") {
        match parse_role(unquote(value)) {
            Some(v) => {
                next.role = v;
            },
            None => {
                return Err(ConfigError::BadValue(line));
            },
        }
    } else if is_word(key, "tcxo_volts") {
        match parse_volts(unquote(value)) {
            Some(v) => {
                next.tcxo_volts = v;
            },
            None => {
                return Err(ConfigError::BadValue(line));
            },
        }
    } else if is_word(key, "fields") || is_word(key, "beacon_fields") {
        match parse_fields(value) {
            None => {
                return Err(ConfigError::BadValue(line));
            },
            Some(mask) => {
                // Position is the whole point of the broadcast, and a
                // receiver has nothing to plot without it.
                if mask & lora::FIELDS_REQUIRED != lora::FIELDS_REQUIRED {
                    return Err(ConfigError::OutOfRange(line));
                }
                next.beacon_fields = mask;
            },
        }
    } else {
        match set_gps_key(cfg.gps, key, value, line) {
            None => {},
            Some(Ok(gps)) => {
                next.gps = gps;
            },
            Some(Err(e)) => {
                return Err(e);
            },
        }
    }
    Ok(next)
}

/// Apply one line.
fn parse_line(cfg: RadioConfig, raw_line: &[char], line: u32) -> (r: Result<
    RadioConfig,
    ConfigError,
>)
    ensures
        r == after_line(cfg, raw_line@, line),
{
    let hash: usize = find(raw_line, '#');
    let before = &raw_line[0..hash];
    assert(before@ =~= raw_line@.take(hash as int));
    let body = trim(before);
    if body.len() == 0 {
        return Ok(cfg);
    }
    if body[0] == '[' {
        if body[body.len() - 1] == ']' {
            return Ok(cfg);
        }
        return Err(ConfigError::Syntax(line));
    }
    let eq: usize = find(body, '=');
    if eq == body.len() {
        return Err(ConfigError::Syntax(line));
    }
    let left = &body[0..eq];
    let right = &body[eq + 1..body.len()];
    assert(left@ =~= body@.take(eq as int));
    assert(right@ =~= body@.skip(eq + 1));
    let key = trim(left);
    let value = trim(right);
    if key.len() == 0 || value.len() == 0 {
        return Err(ConfigError::Syntax(line));
    }
    set_key(cfg, key, value, line)
}

/// Parse TOML text into a [`RadioConfig`], starting from the defaults so a
/// partial file is fine. Unknown keys are ignored (forward compatibility).
pub fn parse(text: &str) -> (r: Result<RadioConfig, ConfigError>)
    requires
        line_count(text@) <= u32::MAX,
    ensures
        r == meaning(text@),
        r matches Ok(cfg) ==> cfg.valid(),
{
    let all: Vec<char> = chars_of(text);
    let mut cfg: RadioConfig = RadioConfig::default();
    let mut line: u32 = 1;
    let mut from: usize = 0;
    assert(all@.skip(0) =~= all@);
    proof {
        law_parsed_is_valid(text@);
    }
    loop
        invariant
            from <= all@.len(),
            all@ == text@,
            meaning(text@) matches Ok(c) ==> c.valid(),
            meaning(text@) == after_lines(cfg, all@.skip(from as int), line as int),
            line - 1 + line_count(all@.skip(from as int)) <= u32::MAX,
        decreases all@.len() - from,
    {
        let rest = &all[from..all.len()];
        assert(rest@ =~= all@.skip(from as int));
        let end: usize = find(rest, '\n');
        let raw_line = &rest[0..end];
        assert(raw_line@ =~= rest@.take(end as int));
        match parse_line(cfg, raw_line, line) {
            Err(e) => {
                return Err(e);
            },
            Ok(next) => {
                cfg = next;
            },
        }
        if end == rest.len() {
            return Ok(cfg);
        }
        assert(rest@.skip(end + 1) =~= all@.skip(from + end + 1));
        from = from + end + 1;
        assert(line_count(all@.skip(from as int)) >= 1);
        line = line + 1;
    }
}

/// Parse raw file bytes (validates UTF-8 first).
pub fn parse_bytes(bytes: &[u8]) -> (r: Result<RadioConfig, ConfigError>)
    requires
        vstd::utf8::valid_utf8(bytes@) ==> line_count(vstd::utf8::decode_utf8(bytes@)) <= u32::MAX,
    ensures
        r == file_meaning(bytes@),
        r matches Ok(cfg) ==> cfg.valid(),
{
    match utf8_text(bytes) {
        None => Err(ConfigError::Utf8),
        Some(text) => {
            proof {
                vstd::utf8::encode_utf8_decode_utf8(text@);
            }
            parse(text)
        },
    }
}

// -- Laws ---------------------------------------------------------------------

proof fn lemma_default_fields_present()
    ensures
        lora::FIELDS_DEFAULT & lora::FIELDS_REQUIRED == lora::FIELDS_REQUIRED,
{
    assert(lora::FIELDS_DEFAULT & lora::FIELDS_REQUIRED == lora::FIELDS_REQUIRED) by (bit_vector);
}

/// A setting leaves a valid configuration valid.
pub proof fn law_setting_keeps_valid(
    cfg: RadioConfig,
    key: Seq<char>,
    value: Seq<char>,
    line: u32,
)
    requires
        cfg.valid(),
    ensures
        set(cfg, key, value, line) matches Ok(next) ==> next.valid(),
{
}

proof fn lemma_after_lines_valid(cfg: RadioConfig, text: Seq<char>, number: int)
    requires
        cfg.valid(),
    ensures
        after_lines(cfg, text, number) matches Ok(next) ==> next.valid(),
    decreases text.len(),
{
    let end = crate::text::first_of(text, '\n');
    let line = text.take(end);
    match read_line(line) {
        Line::Setting { key, value } => {
            law_setting_keeps_valid(cfg, key, value, number as u32);
        },
        _ => {},
    }
    match after_line(cfg, line, number as u32) {
        Ok(next) => {
            if 0 <= end < text.len() {
                lemma_after_lines_valid(next, text.skip(end + 1), number + 1);
            }
        },
        Err(_) => {},
    }
}

/// Whatever a file says, a configuration that comes out of it is valid.
pub proof fn law_parsed_is_valid(text: Seq<char>)
    ensures
        RadioConfig::defaults().valid(),
        meaning(text) matches Ok(cfg) ==> cfg.valid(),
{
    lemma_default_fields_present();
    lemma_after_lines_valid(RadioConfig::defaults(), text, 1);
}

/// A text whose lines are all blank, comments or section headers configures
/// the defaults.
pub proof fn law_no_settings_means_defaults(text: Seq<char>)
    requires
        only_nothing(text),
    ensures
        meaning(text) == Ok::<RadioConfig, ConfigError>(RadioConfig::defaults()),
{
    lemma_nothing_changes(RadioConfig::defaults(), text, 1);
}

/// Every line of `text` is blank, a comment or a section header.
pub open spec fn only_nothing(text: Seq<char>) -> bool
    decreases text.len(),
{
    let end = crate::text::first_of(text, '\n');
    &&& read_line(text.take(end)) is Nothing
    &&& 0 <= end < text.len() ==> only_nothing(text.skip(end + 1))
}

proof fn lemma_nothing_changes(cfg: RadioConfig, text: Seq<char>, number: int)
    requires
        only_nothing(text),
    ensures
        after_lines(cfg, text, number) == Ok::<RadioConfig, ConfigError>(cfg),
    decreases text.len(),
{
    let end = crate::text::first_of(text, '\n');
    if 0 <= end < text.len() {
        lemma_nothing_changes(cfg, text.skip(end + 1), number + 1);
    }
}

/// Whether a line sets the GPS receiver.
pub open spec fn sets_gps(line: Seq<char>) -> bool {
    read_line(line) matches Line::Setting { key, .. } && is_gps_key(key)
}

/// No line of `text` sets the GPS receiver.
pub open spec fn leaves_gps(text: Seq<char>) -> bool
    decreases text.len(),
{
    let end = crate::text::first_of(text, '\n');
    &&& !sets_gps(text.take(end))
    &&& 0 <= end < text.len() ==> leaves_gps(text.skip(end + 1))
}

proof fn lemma_gps_kept(cfg: RadioConfig, text: Seq<char>, number: int)
    requires
        leaves_gps(text),
    ensures
        after_lines(cfg, text, number) matches Ok(next) ==> next.gps == cfg.gps,
    decreases text.len(),
{
    let end = crate::text::first_of(text, '\n');
    match after_line(cfg, text.take(end), number as u32) {
        Ok(next) => {
            assert(next.gps == cfg.gps);
            if 0 <= end < text.len() {
                lemma_gps_kept(next, text.skip(end + 1), number + 1);
            }
        },
        Err(_) => {},
    }
}

/// A file without GPS settings leaves the receiver at its factory set.
pub proof fn law_absent_gps_section_is_factory(text: Seq<char>)
    requires
        leaves_gps(text),
    ensures
        meaning(text) matches Ok(cfg) ==> cfg.gps == GpsConfig::factory(),
{
    lemma_gps_kept(RadioConfig::defaults(), text, 1);
}

/// An unknown key changes nothing, whatever its value.
pub proof fn law_unknown_key_is_ignored(
    cfg: RadioConfig,
    key: Seq<char>,
    value: Seq<char>,
    line: u32,
)
    requires
        !is_number_key(key),
        !is_gps_key(key),
        key != "power_dbm"@,
        key != "rx_boost"@,
        key != "dcdc_enabled"@,
        key != "sd_enabled"@,
        key != "role"@,
        key != "tcxo_volts"@,
        key != "fields"@,
        key != "beacon_fields"@,
    ensures
        set(cfg, key, value, line) == Ok::<RadioConfig, ConfigError>(cfg),
{
}

/// A line that is blank, a comment or a section header changes nothing.
pub proof fn law_idle_line_changes_nothing(cfg: RadioConfig, line: Seq<char>, number: u32)
    requires
        read_line(line) is Nothing,
    ensures
        after_line(cfg, line, number) == Ok::<RadioConfig, ConfigError>(cfg),
{
}

/// How many lines a text has, not counting an empty one at its end.
pub open spec fn written_lines(text: Seq<char>) -> nat
    decreases text.len(),
{
    let end = crate::text::first_of(text, '\n');
    if text.len() == 0 {
        0
    } else if 0 <= end < text.len() {
        1 + written_lines(text.skip(end + 1))
    } else {
        1
    }
}

/// The first `k` lines of a text.
pub open spec fn first_lines(text: Seq<char>, k: int) -> Seq<char>
    decreases k,
{
    let end = crate::text::first_of(text, '\n');
    if k <= 0 {
        Seq::empty()
    } else if k == 1 || !(0 <= end < text.len()) {
        text.take(end)
    } else {
        text.take(end + 1) + first_lines(text.skip(end + 1), k - 1)
    }
}

/// Whether an error names a line.
pub open spec fn names_line(e: ConfigError, line: int) -> bool {
    match e {
        ConfigError::Syntax(n) => n == line,
        ConfigError::BadValue(n) => n == line,
        ConfigError::OutOfRange(n) => n == line,
        ConfigError::Utf8 => false,
    }
}

/// The line that an error names is the first bad one, counted from 1 with
/// blank lines and comments included: the lines before it parse, and with it
/// the same error comes.
pub proof fn law_error_names_the_first_bad_line(text: Seq<char>)
    requires
        written_lines(text) <= u32::MAX,
        meaning(text) is Err,
    ensures
        exists|n: int|
            {
                &&& 1 <= n <= written_lines(text)
                &&& #[trigger] names_line(meaning(text)->Err_0, n)
                &&& meaning(first_lines(text, n - 1)) is Ok
                &&& meaning(first_lines(text, n)) == meaning(text)
            },
{
    let n = lemma_first_bad_line(RadioConfig::defaults(), text, 1);
    assert(names_line(meaning(text)->Err_0, n));
}

proof fn lemma_error_names_its_line(cfg: RadioConfig, line: Seq<char>, number: u32)
    ensures
        after_line(cfg, line, number) matches Err(e) ==> names_line(e, number as int),
{
}

proof fn lemma_no_text_is_idle(cfg: RadioConfig, number: int)
    ensures
        after_line(cfg, Seq::empty(), number as u32) == Ok::<RadioConfig, ConfigError>(cfg),
        after_lines(cfg, Seq::empty(), number) == Ok::<RadioConfig, ConfigError>(cfg),
{
    let nothing = Seq::<char>::empty();
    assert(nothing.take(0) =~= nothing);
    assert(crate::text::trimmed(nothing) =~= nothing);
}

/// Where the first bad line stands among those of `text`.
proof fn lemma_first_bad_line(cfg: RadioConfig, text: Seq<char>, number: int) -> (k: int)
    requires
        number >= 1,
        number - 1 + written_lines(text) <= u32::MAX,
        after_lines(cfg, text, number) is Err,
    ensures
        1 <= k <= written_lines(text),
        names_line(after_lines(cfg, text, number)->Err_0, number + k - 1),
        after_lines(cfg, first_lines(text, k - 1), number) is Ok,
        after_lines(cfg, first_lines(text, k), number) == after_lines(cfg, text, number),
    decreases text.len(),
{
    let end = crate::text::first_of(text, '\n');
    crate::text::lemma_first_of(text, '\n');
    lemma_no_text_is_idle(cfg, number);
    if text.len() == 0 {
        assert(text =~= Seq::<char>::empty());
    }
    let line = text.take(end);
    crate::text::lemma_first_of(line, '\n');
    assert(crate::text::first_of(line, '\n') == end) by {
        let f = crate::text::first_of(line, '\n');
        if f < end {
            assert(line[f] == text[f]);
        }
    }
    assert(line.take(end) =~= line);
    match after_line(cfg, line, number as u32) {
        Err(_) => {
            lemma_error_names_its_line(cfg, line, number as u32);
            1
        },
        Ok(next) => {
            let rest = text.skip(end + 1);
            let more = lemma_first_bad_line(next, rest, number + 1);
            lemma_line_in_front(cfg, text, more, number);
            if more > 1 {
                lemma_line_in_front(cfg, text, more - 1, number);
            }
            more + 1
        },
    }
}

/// The first lines of a text are its first line and the first lines of what
/// follows.
proof fn lemma_line_in_front(cfg: RadioConfig, text: Seq<char>, k: int, number: int)
    requires
        k >= 1,
        crate::text::first_of(text, '\n') < text.len(),
        after_line(cfg, text.take(crate::text::first_of(text, '\n')), number as u32) is Ok,
    ensures
        ({
            let end = crate::text::first_of(text, '\n');
            after_lines(cfg, first_lines(text, k + 1), number) == after_lines(
                after_line(cfg, text.take(end), number as u32)->Ok_0,
                first_lines(text.skip(end + 1), k),
                number + 1,
            )
        }),
{
    let end = crate::text::first_of(text, '\n');
    crate::text::lemma_first_of(text, '\n');
    let front = first_lines(text, k + 1);
    let tail = first_lines(text.skip(end + 1), k);
    assert(front == text.take(end + 1) + tail);
    crate::text::lemma_first_of(front, '\n');
    assert(crate::text::first_of(front, '\n') == end) by {
        let f = crate::text::first_of(front, '\n');
        assert(front[end] == text[end]);
        if f < end {
            assert(front[f] == text[f]);
        }
    }
    assert(front.take(end) =~= text.take(end));
    assert(front.skip(end + 1) =~= tail);
}

/// A slower modulation never has the shorter air time.
pub proof fn law_airtime_grows_with_spreading(a: u8, b: u8, bandwidth_khz: u16)
    requires
        a <= b,
        bandwidth_khz > 0,
    ensures
        airtime_ratio(a, bandwidth_khz) <= airtime_ratio(b, bandwidth_khz),
{
    let x: int = if a > 12 {
        12
    } else {
        a as int
    };
    let y: int = if b > 12 {
        12
    } else {
        b as int
    };
    vstd::arithmetic::power2::lemma2_to64();
    if 7 < x && x < y {
        vstd::arithmetic::power2::lemma_pow2_strictly_increases((x - 7) as nat, (y - 7) as nat);
    }
    let p: int = if x <= 7 {
        1
    } else {
        vstd::arithmetic::power2::pow2((x - 7) as nat) as int
    };
    let q: int = if y <= 7 {
        1
    } else {
        vstd::arithmetic::power2::pow2((y - 7) as nat) as int
    };
    if 7 < y {
        vstd::arithmetic::power2::lemma_pow2_pos((y - 7) as nat);
    }
    vstd::arithmetic::div_mod::lemma_div_is_ordered(p * 125, q * 125, bandwidth_khz as int);
}

proof fn lemma_decoded_len(bytes: Seq<u8>)
    requires
        vstd::utf8::valid_utf8(bytes),
    ensures
        vstd::utf8::decode_utf8(bytes).len() <= bytes.len(),
    decreases bytes.len(),
{
    if bytes.len() > 0 {
        lemma_decoded_len(vstd::utf8::pop_first_scalar(bytes));
    }
}

proof fn lemma_line_count_bound(text: Seq<char>)
    ensures
        line_count(text) <= text.len() + 1,
    decreases text.len(),
{
    let end = crate::text::first_of(text, '\n');
    if 0 <= end < text.len() {
        lemma_line_count_bound(text.skip(end + 1));
    }
}

/// A file shorter than `u32::MAX` bytes has few enough lines to number.
pub proof fn lemma_small_file_lines(bytes: Seq<u8>)
    requires
        bytes.len() < u32::MAX,
        vstd::utf8::valid_utf8(bytes),
    ensures
        line_count(vstd::utf8::decode_utf8(bytes)) <= u32::MAX,
{
    lemma_decoded_len(bytes);
    lemma_line_count_bound(vstd::utf8::decode_utf8(bytes));
}

// -- Laws of the settings -----------------------------------------------------

/// The keys are different words.
proof fn lemma_keys_differ()
    ensures
        "frequency_hz"@.len() == 12,
        "spreading_factor"@.len() == 16,
        "bandwidth_khz"@.len() == 13,
        "coding_rate"@.len() == 11,
        "address"@.len() == 7,
        "max_hops"@.len() == 8,
        "lifetime"@.len() == 8,
        "interval_s"@.len() == 10,
        "beacon_interval_s"@.len() == 17,
        "tcxo_startup_ms"@.len() == 15,
        "power_dbm"@.len() == 9,
        "rx_boost"@.len() == 8,
        "dcdc_enabled"@.len() == 12,
        "sd_enabled"@.len() == 10,
        "role"@.len() == 4,
        "tcxo_volts"@.len() == 10,
        "fields"@.len() == 6,
        "beacon_fields"@.len() == 13,
        "gps_enabled"@.len() == 11,
        "glonass_enabled"@.len() == 15,
        "galileo_enabled"@.len() == 15,
        "beidou_enabled"@.len() == 14,
        "qzss_enabled"@.len() == 12,
        "sbas_enabled"@.len() == 12,
        "power_mode"@.len() == 10,
        "meas_rate_ms"@.len() == 12,
        "dynamic_model"@.len() == 13,
        "dyn_model"@.len() == 9,
        "frequency_hz"@ != "dcdc_enabled"@,
        "frequency_hz"@ != "qzss_enabled"@,
        "frequency_hz"@ != "sbas_enabled"@,
        "frequency_hz"@ != "meas_rate_ms"@,
        "bandwidth_khz"@ != "beacon_fields"@,
        "bandwidth_khz"@ != "dynamic_model"@,
        "coding_rate"@ != "gps_enabled"@,
        "max_hops"@ != "lifetime"@,
        "max_hops"@ != "rx_boost"@,
        "lifetime"@ != "rx_boost"@,
        "interval_s"@ != "sd_enabled"@,
        "interval_s"@ != "tcxo_volts"@,
        "interval_s"@ != "power_mode"@,
        "tcxo_startup_ms"@ != "glonass_enabled"@,
        "tcxo_startup_ms"@ != "galileo_enabled"@,
        "power_dbm"@ != "dyn_model"@,
        "dcdc_enabled"@ != "qzss_enabled"@,
        "dcdc_enabled"@ != "sbas_enabled"@,
        "dcdc_enabled"@ != "meas_rate_ms"@,
        "sd_enabled"@ != "tcxo_volts"@,
        "sd_enabled"@ != "power_mode"@,
        "tcxo_volts"@ != "power_mode"@,
        "beacon_fields"@ != "dynamic_model"@,
        "glonass_enabled"@ != "galileo_enabled"@,
        "qzss_enabled"@ != "sbas_enabled"@,
        "qzss_enabled"@ != "meas_rate_ms"@,
        "sbas_enabled"@ != "meas_rate_ms"@,
{
    reveal_strlit("frequency_hz");
    reveal_strlit("spreading_factor");
    reveal_strlit("bandwidth_khz");
    reveal_strlit("coding_rate");
    reveal_strlit("address");
    reveal_strlit("max_hops");
    reveal_strlit("lifetime");
    reveal_strlit("interval_s");
    reveal_strlit("beacon_interval_s");
    reveal_strlit("tcxo_startup_ms");
    reveal_strlit("power_dbm");
    reveal_strlit("rx_boost");
    reveal_strlit("dcdc_enabled");
    reveal_strlit("sd_enabled");
    reveal_strlit("role");
    reveal_strlit("tcxo_volts");
    reveal_strlit("fields");
    reveal_strlit("beacon_fields");
    reveal_strlit("gps_enabled");
    reveal_strlit("glonass_enabled");
    reveal_strlit("galileo_enabled");
    reveal_strlit("beidou_enabled");
    reveal_strlit("qzss_enabled");
    reveal_strlit("sbas_enabled");
    reveal_strlit("power_mode");
    reveal_strlit("meas_rate_ms");
    reveal_strlit("dynamic_model");
    reveal_strlit("dyn_model");
    assert("frequency_hz"@[0] != "dcdc_enabled"@[0]);
    assert("frequency_hz"@[0] != "qzss_enabled"@[0]);
    assert("frequency_hz"@[0] != "sbas_enabled"@[0]);
    assert("frequency_hz"@[0] != "meas_rate_ms"@[0]);
    assert("bandwidth_khz"@[1] != "beacon_fields"@[1]);
    assert("bandwidth_khz"@[0] != "dynamic_model"@[0]);
    assert("coding_rate"@[0] != "gps_enabled"@[0]);
    assert("max_hops"@[0] != "lifetime"@[0]);
    assert("max_hops"@[0] != "rx_boost"@[0]);
    assert("lifetime"@[0] != "rx_boost"@[0]);
    assert("interval_s"@[0] != "sd_enabled"@[0]);
    assert("interval_s"@[0] != "tcxo_volts"@[0]);
    assert("interval_s"@[0] != "power_mode"@[0]);
    assert("tcxo_startup_ms"@[0] != "glonass_enabled"@[0]);
    assert("tcxo_startup_ms"@[0] != "galileo_enabled"@[0]);
    assert("power_dbm"@[0] != "dyn_model"@[0]);
    assert("dcdc_enabled"@[0] != "qzss_enabled"@[0]);
    assert("dcdc_enabled"@[0] != "sbas_enabled"@[0]);
    assert("dcdc_enabled"@[0] != "meas_rate_ms"@[0]);
    assert("sd_enabled"@[0] != "tcxo_volts"@[0]);
    assert("sd_enabled"@[0] != "power_mode"@[0]);
    assert("tcxo_volts"@[0] != "power_mode"@[0]);
    assert("beacon_fields"@[0] != "dynamic_model"@[0]);
    assert("glonass_enabled"@[1] != "galileo_enabled"@[1]);
    assert("qzss_enabled"@[0] != "sbas_enabled"@[0]);
    assert("qzss_enabled"@[0] != "meas_rate_ms"@[0]);
    assert("sbas_enabled"@[0] != "meas_rate_ms"@[0]);
}

/// Each number key puts exactly the number written into its own field and
/// leaves the others alone, if the number is in the key's range; a number out
/// of range and a value that is no number are refused, each as such, with the
/// line. The older `lifetime` counts the first transmission too.
pub proof fn law_number_settings(cfg: RadioConfig, value: Seq<char>, line: u32)
    ensures
        set(cfg, "frequency_hz"@, value, line) == match crate::text::number(value) {
            None => Err(ConfigError::BadValue(line)),
            Some(v) => if 150_000_000 <= v <= 960_000_000 {
                Ok(RadioConfig { frequency_hz: v as u32, ..cfg })
            } else {
                Err(ConfigError::OutOfRange(line))
            },
        },
        set(cfg, "spreading_factor"@, value, line) == match crate::text::number(value) {
            None => Err(ConfigError::BadValue(line)),
            Some(v) => if 5 <= v <= 12 {
                Ok(RadioConfig { spreading_factor: v as u8, ..cfg })
            } else {
                Err(ConfigError::OutOfRange(line))
            },
        },
        set(cfg, "bandwidth_khz"@, value, line) == match crate::text::number(value) {
            None => Err(ConfigError::BadValue(line)),
            Some(v) => if v == 62 || v == 125 || v == 250 || v == 500 {
                Ok(RadioConfig { bandwidth_khz: v as u16, ..cfg })
            } else {
                Err(ConfigError::OutOfRange(line))
            },
        },
        set(cfg, "coding_rate"@, value, line) == match crate::text::number(value) {
            None => Err(ConfigError::BadValue(line)),
            Some(v) => if 5 <= v <= 8 {
                Ok(RadioConfig { coding_rate: v as u8, ..cfg })
            } else {
                Err(ConfigError::OutOfRange(line))
            },
        },
        set(cfg, "address"@, value, line) == match crate::text::number(value) {
            None => Err(ConfigError::BadValue(line)),
            Some(v) => if 1 <= v <= 255 {
                Ok(RadioConfig { address: v as u8, ..cfg })
            } else {
                Err(ConfigError::OutOfRange(line))
            },
        },
        set(cfg, "max_hops"@, value, line) == match crate::text::number(value) {
            None => Err(ConfigError::BadValue(line)),
            Some(v) => if v <= 8 {
                Ok(RadioConfig { max_hops: v as u8, ..cfg })
            } else {
                Err(ConfigError::OutOfRange(line))
            },
        },
        set(cfg, "lifetime"@, value, line) == match crate::text::number(value) {
            None => Err(ConfigError::BadValue(line)),
            Some(v) => if 1 <= v <= 16 {
                Ok(RadioConfig { max_hops: if v <= 9 { (v - 1) as u8 } else { 8 }, ..cfg })
            } else {
                Err(ConfigError::OutOfRange(line))
            },
        },
        set(cfg, "interval_s"@, value, line) == match crate::text::number(value) {
            None => Err(ConfigError::BadValue(line)),
            Some(v) => if v <= 3600 {
                Ok(RadioConfig { beacon_interval_s: v as u16, ..cfg })
            } else {
                Err(ConfigError::OutOfRange(line))
            },
        },
        set(cfg, "beacon_interval_s"@, value, line) == match crate::text::number(value) {
            None => Err(ConfigError::BadValue(line)),
            Some(v) => if v <= 3600 {
                Ok(RadioConfig { beacon_interval_s: v as u16, ..cfg })
            } else {
                Err(ConfigError::OutOfRange(line))
            },
        },
        set(cfg, "tcxo_startup_ms"@, value, line) == match crate::text::number(value) {
            None => Err(ConfigError::BadValue(line)),
            Some(v) => if 1 <= v <= 1000 {
                Ok(RadioConfig { tcxo_startup_ms: v as u16, ..cfg })
            } else {
                Err(ConfigError::OutOfRange(line))
            },
        },
        set(cfg, "meas_rate_ms"@, value, line) == match crate::text::number(value) {
            None => Err(ConfigError::BadValue(line)),
            Some(v) => if 25 <= v <= 10000 {
                Ok(RadioConfig { gps: GpsConfig { meas_rate_ms: v as u16, ..cfg.gps }, ..cfg })
            } else {
                Err(ConfigError::OutOfRange(line))
            },
        },
        set(cfg, "power_dbm"@, value, line) == match crate::text::signed_number(value) {
            None => Err(ConfigError::BadValue(line)),
            Some(v) => if -9 <= v <= 22 {
                Ok(RadioConfig { power_dbm: v as i8, ..cfg })
            } else {
                Err(ConfigError::OutOfRange(line))
            },
        },
{
    lemma_keys_differ();
}

/// Each switch is turned on by `true` and off by `false`, moves no other
/// setting, and takes nothing else.
pub proof fn law_switch_settings(cfg: RadioConfig, value: Seq<char>, line: u32, on: bool)
    requires
        value == "true"@ || value == "false"@ ==> on == (value == "true"@),
    ensures
        set(cfg, "rx_boost"@, value, line) == if value == "true"@ || value == "false"@ {
            Ok(RadioConfig { rx_boost: on, ..cfg })
        } else {
            Err(ConfigError::BadValue(line))
        },
        set(cfg, "dcdc_enabled"@, value, line) == if value == "true"@ || value == "false"@ {
            Ok(RadioConfig { dcdc_enabled: on, ..cfg })
        } else {
            Err(ConfigError::BadValue(line))
        },
        set(cfg, "sd_enabled"@, value, line) == if value == "true"@ || value == "false"@ {
            Ok(RadioConfig { sd_enabled: on, ..cfg })
        } else {
            Err(ConfigError::BadValue(line))
        },
        set(cfg, "gps_enabled"@, value, line) == if value == "true"@ || value == "false"@ {
            Ok(RadioConfig { gps: GpsConfig { gps_enabled: on, ..cfg.gps }, ..cfg })
        } else {
            Err(ConfigError::BadValue(line))
        },
        set(cfg, "glonass_enabled"@, value, line) == if value == "true"@ || value == "false"@ {
            Ok(RadioConfig { gps: GpsConfig { glonass_enabled: on, ..cfg.gps }, ..cfg })
        } else {
            Err(ConfigError::BadValue(line))
        },
        set(cfg, "galileo_enabled"@, value, line) == if value == "true"@ || value == "false"@ {
            Ok(RadioConfig { gps: GpsConfig { galileo_enabled: on, ..cfg.gps }, ..cfg })
        } else {
            Err(ConfigError::BadValue(line))
        },
        set(cfg, "beidou_enabled"@, value, line) == if value == "true"@ || value == "false"@ {
            Ok(RadioConfig { gps: GpsConfig { beidou_enabled: on, ..cfg.gps }, ..cfg })
        } else {
            Err(ConfigError::BadValue(line))
        },
        set(cfg, "qzss_enabled"@, value, line) == if value == "true"@ || value == "false"@ {
            Ok(RadioConfig { gps: GpsConfig { qzss_enabled: on, ..cfg.gps }, ..cfg })
        } else {
            Err(ConfigError::BadValue(line))
        },
        set(cfg, "sbas_enabled"@, value, line) == if value == "true"@ || value == "false"@ {
            Ok(RadioConfig { gps: GpsConfig { sbas_enabled: on, ..cfg.gps }, ..cfg })
        } else {
            Err(ConfigError::BadValue(line))
        },
{
    lemma_keys_differ();
    reveal_strlit("true");
    reveal_strlit("false");
}

/// A role is set by its name, quoted or not; any other word is refused.
pub proof fn law_role_settings(cfg: RadioConfig, value: Seq<char>, line: u32)
    ensures
        ({
            let word = crate::text::unquoted(value);
            let r = set(cfg, "role"@, value, line);
            &&& word == "leaf"@ ==> r == Ok::<RadioConfig, ConfigError>(
                RadioConfig { role: Role::Leaf, ..cfg },
            )
            &&& word == "repeater"@ ==> r == Ok::<RadioConfig, ConfigError>(
                RadioConfig { role: Role::Repeater, ..cfg },
            )
            &&& word == "tx_only"@ ==> r == Ok::<RadioConfig, ConfigError>(
                RadioConfig { role: Role::TxOnly, ..cfg },
            )
            &&& word == "rx_only"@ ==> r == Ok::<RadioConfig, ConfigError>(
                RadioConfig { role: Role::RxOnly, ..cfg },
            )
            &&& word != "leaf"@ && word != "repeater"@ && word != "tx_only"@ && word != "rx_only"@ ==> r == Err::<RadioConfig, ConfigError>(
                ConfigError::BadValue(line),
            )
        }),
{
    lemma_keys_differ();
    reveal_strlit("leaf");
    reveal_strlit("repeater");
    reveal_strlit("tx_only");
    reveal_strlit("rx_only");
    assert("tx_only"@[0] != "rx_only"@[0]);
}

/// The TCXO supply is set by its voltage; any other is refused.
pub proof fn law_tcxo_settings(cfg: RadioConfig, value: Seq<char>, line: u32)
    ensures
        ({
            let word = crate::text::unquoted(value);
            let r = set(cfg, "tcxo_volts"@, value, line);
            &&& word == "1.6"@ ==> r == Ok::<RadioConfig, ConfigError>(
                RadioConfig { tcxo_volts: TcxoVolts::V1_6, ..cfg },
            )
            &&& word == "1.7"@ ==> r == Ok::<RadioConfig, ConfigError>(
                RadioConfig { tcxo_volts: TcxoVolts::V1_7, ..cfg },
            )
            &&& word == "1.8"@ ==> r == Ok::<RadioConfig, ConfigError>(
                RadioConfig { tcxo_volts: TcxoVolts::V1_8, ..cfg },
            )
            &&& word == "2.2"@ ==> r == Ok::<RadioConfig, ConfigError>(
                RadioConfig { tcxo_volts: TcxoVolts::V2_2, ..cfg },
            )
            &&& word == "2.4"@ ==> r == Ok::<RadioConfig, ConfigError>(
                RadioConfig { tcxo_volts: TcxoVolts::V2_4, ..cfg },
            )
            &&& word == "2.7"@ ==> r == Ok::<RadioConfig, ConfigError>(
                RadioConfig { tcxo_volts: TcxoVolts::V2_7, ..cfg },
            )
            &&& word == "3.0"@ ==> r == Ok::<RadioConfig, ConfigError>(
                RadioConfig { tcxo_volts: TcxoVolts::V3_0, ..cfg },
            )
            &&& word == "3.3"@ ==> r == Ok::<RadioConfig, ConfigError>(
                RadioConfig { tcxo_volts: TcxoVolts::V3_3, ..cfg },
            )
            &&& word != "1.6"@ && word != "1.7"@ && word != "1.8"@ && word != "2.2"@ && word != "2.4"@ && word != "2.7"@ && word != "3.0"@ && word != "3.3"@ ==> r == Err::<RadioConfig, ConfigError>(
                ConfigError::BadValue(line),
            )
        }),
{
    lemma_keys_differ();
    reveal_strlit("1.6");
    reveal_strlit("1.7");
    reveal_strlit("1.8");
    reveal_strlit("2.2");
    reveal_strlit("2.4");
    reveal_strlit("2.7");
    reveal_strlit("3.0");
    reveal_strlit("3.3");
    assert("1.6"@[2] != "1.7"@[2]);
    assert("1.6"@[2] != "1.8"@[2]);
    assert("1.6"@[0] != "2.2"@[0]);
    assert("1.6"@[0] != "2.4"@[0]);
    assert("1.6"@[0] != "2.7"@[0]);
    assert("1.6"@[0] != "3.0"@[0]);
    assert("1.6"@[0] != "3.3"@[0]);
    assert("1.7"@[2] != "1.8"@[2]);
    assert("1.7"@[0] != "2.2"@[0]);
    assert("1.7"@[0] != "2.4"@[0]);
    assert("1.7"@[0] != "2.7"@[0]);
    assert("1.7"@[0] != "3.0"@[0]);
    assert("1.7"@[0] != "3.3"@[0]);
    assert("1.8"@[0] != "2.2"@[0]);
    assert("1.8"@[0] != "2.4"@[0]);
    assert("1.8"@[0] != "2.7"@[0]);
    assert("1.8"@[0] != "3.0"@[0]);
    assert("1.8"@[0] != "3.3"@[0]);
    assert("2.2"@[2] != "2.4"@[2]);
    assert("2.2"@[2] != "2.7"@[2]);
    assert("2.2"@[0] != "3.0"@[0]);
    assert("2.2"@[0] != "3.3"@[0]);
    assert("2.4"@[2] != "2.7"@[2]);
    assert("2.4"@[0] != "3.0"@[0]);
    assert("2.4"@[0] != "3.3"@[0]);
    assert("2.7"@[0] != "3.0"@[0]);
    assert("2.7"@[0] != "3.3"@[0]);
    assert("3.0"@[2] != "3.3"@[2]);
}

/// The receiver power mode is set by its name; any other word is refused.
pub proof fn law_power_mode_settings(cfg: RadioConfig, value: Seq<char>, line: u32)
    ensures
        ({
            let word = crate::text::unquoted(value);
            let r = set(cfg, "power_mode"@, value, line);
            &&& word == "full"@ ==> r == Ok::<RadioConfig, ConfigError>(
                RadioConfig { gps: GpsConfig { power_mode: PowerMode::Full, ..cfg.gps }, ..cfg },
            )
            &&& word == "psmoo"@ ==> r == Ok::<RadioConfig, ConfigError>(
                RadioConfig { gps: GpsConfig { power_mode: PowerMode::PsmOnOff, ..cfg.gps }, ..cfg },
            )
            &&& word == "psm_onoff"@ ==> r == Ok::<RadioConfig, ConfigError>(
                RadioConfig { gps: GpsConfig { power_mode: PowerMode::PsmOnOff, ..cfg.gps }, ..cfg },
            )
            &&& word == "psmct"@ ==> r == Ok::<RadioConfig, ConfigError>(
                RadioConfig { gps: GpsConfig { power_mode: PowerMode::PsmCyclic, ..cfg.gps }, ..cfg },
            )
            &&& word == "psm_cyclic"@ ==> r == Ok::<RadioConfig, ConfigError>(
                RadioConfig { gps: GpsConfig { power_mode: PowerMode::PsmCyclic, ..cfg.gps }, ..cfg },
            )
            &&& word != "full"@ && word != "psmoo"@ && word != "psm_onoff"@ && word != "psmct"@ && word != "psm_cyclic"@ ==> r == Err::<RadioConfig, ConfigError>(
                ConfigError::BadValue(line),
            )
        }),
{
    lemma_keys_differ();
    reveal_strlit("full");
    reveal_strlit("psmoo");
    reveal_strlit("psm_onoff");
    reveal_strlit("psmct");
    reveal_strlit("psm_cyclic");
    assert("psmoo"@[3] != "psmct"@[3]);
}

/// The dynamic model is set by its name under either key; any other word is
/// refused.
pub proof fn law_dynamic_model_settings(cfg: RadioConfig, value: Seq<char>, line: u32)
    ensures
        ({
            let word = crate::text::unquoted(value);
            let r_dynamic_model = set(cfg, "dynamic_model"@, value, line);
            let r_dyn_model = set(cfg, "dyn_model"@, value, line);
            &&& word == "portable"@ ==> r_dynamic_model == Ok::<RadioConfig, ConfigError>(
                RadioConfig { gps: GpsConfig { dyn_model: DynModel::Portable, ..cfg.gps }, ..cfg },
            )
            &&& word == "stationary"@ ==> r_dynamic_model == Ok::<RadioConfig, ConfigError>(
                RadioConfig { gps: GpsConfig { dyn_model: DynModel::Stationary, ..cfg.gps }, ..cfg },
            )
            &&& word == "pedestrian"@ ==> r_dynamic_model == Ok::<RadioConfig, ConfigError>(
                RadioConfig { gps: GpsConfig { dyn_model: DynModel::Pedestrian, ..cfg.gps }, ..cfg },
            )
            &&& word == "automotive"@ ==> r_dynamic_model == Ok::<RadioConfig, ConfigError>(
                RadioConfig { gps: GpsConfig { dyn_model: DynModel::Automotive, ..cfg.gps }, ..cfg },
            )
            &&& word == "sea"@ ==> r_dynamic_model == Ok::<RadioConfig, ConfigError>(
                RadioConfig { gps: GpsConfig { dyn_model: DynModel::Sea, ..cfg.gps }, ..cfg },
            )
            &&& word == "airborne1g"@ ==> r_dynamic_model == Ok::<RadioConfig, ConfigError>(
                RadioConfig { gps: GpsConfig { dyn_model: DynModel::Airborne1g, ..cfg.gps }, ..cfg },
            )
            &&& word == "airborne2g"@ ==> r_dynamic_model == Ok::<RadioConfig, ConfigError>(
                RadioConfig { gps: GpsConfig { dyn_model: DynModel::Airborne2g, ..cfg.gps }, ..cfg },
            )
            &&& word == "airborne4g"@ ==> r_dynamic_model == Ok::<RadioConfig, ConfigError>(
                RadioConfig { gps: GpsConfig { dyn_model: DynModel::Airborne4g, ..cfg.gps }, ..cfg },
            )
            &&& word != "portable"@ && word != "stationary"@ && word != "pedestrian"@ && word != "automotive"@ && word != "sea"@ && word != "airborne1g"@ && word != "airborne2g"@ && word != "airborne4g"@ ==> r_dynamic_model == Err::<RadioConfig, ConfigError>(
                ConfigError::BadValue(line),
            )
            &&& word == "portable"@ ==> r_dyn_model == Ok::<RadioConfig, ConfigError>(
                RadioConfig { gps: GpsConfig { dyn_model: DynModel::Portable, ..cfg.gps }, ..cfg },
            )
            &&& word == "stationary"@ ==> r_dyn_model == Ok::<RadioConfig, ConfigError>(
                RadioConfig { gps: GpsConfig { dyn_model: DynModel::Stationary, ..cfg.gps }, ..cfg },
            )
            &&& word == "pedestrian"@ ==> r_dyn_model == Ok::<RadioConfig, ConfigError>(
                RadioConfig { gps: GpsConfig { dyn_model: DynModel::Pedestrian, ..cfg.gps }, ..cfg },
            )
            &&& word == "automotive"@ ==> r_dyn_model == Ok::<RadioConfig, ConfigError>(
                RadioConfig { gps: GpsConfig { dyn_model: DynModel::Automotive, ..cfg.gps }, ..cfg },
            )
            &&& word == "sea"@ ==> r_dyn_model == Ok::<RadioConfig, ConfigError>(
                RadioConfig { gps: GpsConfig { dyn_model: DynModel::Sea, ..cfg.gps }, ..cfg },
            )
            &&& word == "airborne1g"@ ==> r_dyn_model == Ok::<RadioConfig, ConfigError>(
                RadioConfig { gps: GpsConfig { dyn_model: DynModel::Airborne1g, ..cfg.gps }, ..cfg },
            )
            &&& word == "airborne2g"@ ==> r_dyn_model == Ok::<RadioConfig, ConfigError>(
                RadioConfig { gps: GpsConfig { dyn_model: DynModel::Airborne2g, ..cfg.gps }, ..cfg },
            )
            &&& word == "airborne4g"@ ==> r_dyn_model == Ok::<RadioConfig, ConfigError>(
                RadioConfig { gps: GpsConfig { dyn_model: DynModel::Airborne4g, ..cfg.gps }, ..cfg },
            )
            &&& word != "portable"@ && word != "stationary"@ && word != "pedestrian"@ && word != "automotive"@ && word != "sea"@ && word != "airborne1g"@ && word != "airborne2g"@ && word != "airborne4g"@ ==> r_dyn_model == Err::<RadioConfig, ConfigError>(
                ConfigError::BadValue(line),
            )
        }),
{
    lemma_keys_differ();
    reveal_strlit("portable");
    reveal_strlit("stationary");
    reveal_strlit("pedestrian");
    reveal_strlit("automotive");
    reveal_strlit("sea");
    reveal_strlit("airborne1g");
    reveal_strlit("airborne2g");
    reveal_strlit("airborne4g");
    assert("stationary"@[0] != "pedestrian"@[0]);
    assert("stationary"@[0] != "automotive"@[0]);
    assert("stationary"@[0] != "airborne1g"@[0]);
    assert("stationary"@[0] != "airborne2g"@[0]);
    assert("stationary"@[0] != "airborne4g"@[0]);
    assert("pedestrian"@[0] != "automotive"@[0]);
    assert("pedestrian"@[0] != "airborne1g"@[0]);
    assert("pedestrian"@[0] != "airborne2g"@[0]);
    assert("pedestrian"@[0] != "airborne4g"@[0]);
    assert("automotive"@[1] != "airborne1g"@[1]);
    assert("automotive"@[1] != "airborne2g"@[1]);
    assert("automotive"@[1] != "airborne4g"@[1]);
    assert("airborne1g"@[8] != "airborne2g"@[8]);
    assert("airborne1g"@[8] != "airborne4g"@[8]);
    assert("airborne2g"@[8] != "airborne4g"@[8]);
}

/// Each field of a beacon is asked for by its name, with white space around it
/// or not; any other word is none.
pub proof fn law_field_names(item: Seq<char>)
    ensures
        ({
            let word = crate::text::trimmed(item);
            let r = field_named(word);
            &&& word == "lat"@ ==> r == Some(lora::FIELD_LAT)
            &&& word == "latitude"@ ==> r == Some(lora::FIELD_LAT)
            &&& word == "lon"@ ==> r == Some(lora::FIELD_LON)
            &&& word == "longitude"@ ==> r == Some(lora::FIELD_LON)
            &&& word == "alt"@ ==> r == Some(lora::FIELD_ALT)
            &&& word == "altitude"@ ==> r == Some(lora::FIELD_ALT)
            &&& word == "speed"@ ==> r == Some(lora::FIELD_SPEED)
            &&& word == "course"@ ==> r == Some(lora::FIELD_COURSE)
            &&& word == "sats"@ ==> r == Some(lora::FIELD_SATS)
            &&& word == "time"@ ==> r == Some(lora::FIELD_TIME)
            &&& word != "lat"@ && word != "latitude"@ && word != "lon"@ && word != "longitude"@ && word != "alt"@ && word != "altitude"@ && word != "speed"@ && word != "course"@ && word != "sats"@ && word != "time"@ ==> r is None
        }),
{
    reveal_strlit("lat");
    assert("lat"@.len() == 3);
    reveal_strlit("latitude");
    assert("latitude"@.len() == 8);
    reveal_strlit("lon");
    assert("lon"@.len() == 3);
    reveal_strlit("longitude");
    assert("longitude"@.len() == 9);
    reveal_strlit("alt");
    assert("alt"@.len() == 3);
    reveal_strlit("altitude");
    assert("altitude"@.len() == 8);
    reveal_strlit("speed");
    assert("speed"@.len() == 5);
    reveal_strlit("course");
    assert("course"@.len() == 6);
    reveal_strlit("sats");
    assert("sats"@.len() == 4);
    reveal_strlit("time");
    assert("time"@.len() == 4);
    assert("lat"@[1] != "lon"@[1]);
    assert("lat"@[0] != "alt"@[0]);
    assert("latitude"@[0] != "altitude"@[0]);
    assert("lon"@[0] != "alt"@[0]);
    assert("sats"@[0] != "time"@[0]);
}

/// A list asks for the fields of all its items, and for none where one of them
/// is no field.
pub proof fn law_field_lists(mask: u8, item: Seq<char>, rest: Seq<char>)
    requires
        forall|i: int| 0 <= i < item.len() ==> #[trigger] item[i] != ',',
    ensures
        ({
            let field = field_named(crate::text::trimmed(item));
            &&& field is None ==> fields_named(mask, item) is None && fields_named(
                mask,
                item + seq![','] + rest,
            ) is None
            &&& field matches Some(f) ==> fields_named(mask, item) == Some(mask | f)
                && fields_named(mask, item + seq![','] + rest) == fields_named(mask | f, rest)
        }),
{
    let s = item + seq![','] + rest;
    let k = item.len() as int;
    crate::text::lemma_first_of_is(item, ',', k);
    assert(item.take(k) =~= item);
    crate::text::lemma_first_of_is(s, ',', k);
    assert(s.take(k) =~= item);
    assert(s.skip(k + 1) =~= rest);
}

/// The fields of a beacon are what the list asks for, which has to have the
/// position in it; a list with anything else in it is refused.
pub proof fn law_field_settings(cfg: RadioConfig, value: Seq<char>, line: u32)
    ensures
        ({
            let asked = fields_named(0, crate::text::unquoted(value));
            let r = match asked {
                None => Err(ConfigError::BadValue(line)),
                Some(mask) => if mask & lora::FIELD_LAT != 0 && mask & lora::FIELD_LON != 0 {
                    Ok(RadioConfig { beacon_fields: mask, ..cfg })
                } else {
                    Err(ConfigError::OutOfRange(line))
                },
            };
            &&& set(cfg, "fields"@, value, line) == r
            &&& set(cfg, "beacon_fields"@, value, line) == r
        }),
{
    lemma_keys_differ();
    if let Some(mask) = fields_named(0, crate::text::unquoted(value)) {
        assert((mask & lora::FIELDS_REQUIRED == lora::FIELDS_REQUIRED) == (mask & lora::FIELD_LAT
            != 0 && mask & lora::FIELD_LON != 0)) by (bit_vector);
    }
}

/// A key that is none of these is ignored, whatever its value.
pub proof fn law_other_keys_are_ignored(cfg: RadioConfig, key: Seq<char>, value: Seq<char>, line: u32)
    requires
        key != "frequency_hz"@,
        key != "spreading_factor"@,
        key != "bandwidth_khz"@,
        key != "coding_rate"@,
        key != "address"@,
        key != "max_hops"@,
        key != "lifetime"@,
        key != "interval_s"@,
        key != "beacon_interval_s"@,
        key != "tcxo_startup_ms"@,
        key != "power_dbm"@,
        key != "rx_boost"@,
        key != "dcdc_enabled"@,
        key != "sd_enabled"@,
        key != "role"@,
        key != "tcxo_volts"@,
        key != "fields"@,
        key != "beacon_fields"@,
        key != "gps_enabled"@,
        key != "glonass_enabled"@,
        key != "galileo_enabled"@,
        key != "beidou_enabled"@,
        key != "qzss_enabled"@,
        key != "sbas_enabled"@,
        key != "power_mode"@,
        key != "meas_rate_ms"@,
        key != "dynamic_model"@,
        key != "dyn_model"@,
    ensures
        set(cfg, key, value, line) == Ok::<RadioConfig, ConfigError>(cfg),
{
}

/// Whether a character stands nowhere in a text.
pub open spec fn lacks(s: Seq<char>, c: char) -> bool {
    forall|i: int| 0 <= i < s.len() ==> #[trigger] s[i] != c
}

/// Whether a text is a comment, or nothing.
pub open spec fn is_comment(s: Seq<char>) -> bool {
    s.len() > 0 ==> s[0] == '#'
}

proof fn lemma_body_of(lead: Seq<char>, body: Seq<char>, trail: Seq<char>, comment: Seq<char>)
    requires
        crate::text::all_white(lead),
        crate::text::all_white(trail),
        crate::text::tight(body),
        lacks(body, '#'),
        is_comment(comment),
    ensures
        ({
            let line = lead + body + trail + comment;
            crate::text::trimmed(line.take(crate::text::first_of(line, '#'))) == body
        }),
{
    let line = lead + body + trail + comment;
    let front = lead + body + trail;
    let k = front.len() as int;
    assert forall|i: int| 0 <= i < k implies line[i] != '#' by {
        if i < lead.len() {
            assert(crate::text::white(lead[i]));
            assert(line[i] == lead[i]);
        } else if i < lead.len() + body.len() {
            assert(line[i] == body[i - lead.len()]);
        } else {
            assert(crate::text::white(trail[i - lead.len() - body.len()]));
            assert(line[i] == trail[i - lead.len() - body.len()]);
        }
    }
    if comment.len() > 0 {
        assert(line[k] == comment[0]);
    }
    crate::text::lemma_first_of_is(line, '#', k);
    assert(line.take(k) =~= front);
    crate::text::law_trimming(lead, body, trail);
}

/// A line `key = value` is read as that setting, however much white space
/// stands around the two and whatever comment follows.
pub proof fn law_setting_lines(
    lead: Seq<char>,
    key: Seq<char>,
    left: Seq<char>,
    right: Seq<char>,
    value: Seq<char>,
    trail: Seq<char>,
    comment: Seq<char>,
)
    requires
        crate::text::all_white(lead),
        crate::text::all_white(left),
        crate::text::all_white(right),
        crate::text::all_white(trail),
        key.len() > 0,
        crate::text::tight(key),
        key[0] != '[',
        lacks(key, '#'),
        lacks(key, '='),
        value.len() > 0,
        crate::text::tight(value),
        lacks(value, '#'),
        is_comment(comment),
    ensures
        read_line(lead + (key + left + seq!['='] + right + value) + trail + comment) == (
            Line::Setting { key, value }
        ),
{
    let body = key + left + seq!['='] + right + value;
    let eq = (key.len() + left.len()) as int;
    assert(body[0] == key[0]);
    assert(body.last() == value.last());
    assert forall|i: int| 0 <= i < body.len() implies #[trigger] body[i] != '#' by {
        if i < key.len() {
            assert(body[i] == key[i]);
        } else if i < eq {
            assert(crate::text::white(left[i - key.len()]));
            assert(body[i] == left[i - key.len()]);
        } else if i == eq {
        } else if i < eq + 1 + right.len() {
            assert(crate::text::white(right[i - eq - 1]));
            assert(body[i] == right[i - eq - 1]);
        } else {
            assert(body[i] == value[i - eq - 1 - right.len()]);
        }
    }
    assert forall|i: int| 0 <= i < eq implies body[i] != '=' by {
        if i < key.len() {
            assert(body[i] == key[i]);
        } else {
            assert(crate::text::white(left[i - key.len()]));
            assert(body[i] == left[i - key.len()]);
        }
    }
    lemma_body_of(lead, body, trail, comment);
    crate::text::lemma_first_of_is(body, '=', eq);
    let none = Seq::<char>::empty();
    assert(body.take(eq) =~= none + key + left);
    assert(body.skip(eq + 1) =~= right + value + none);
    crate::text::law_trimming(none, key, left);
    crate::text::law_trimming(right, value, none);
}

/// Blank lines, comments and section headers say nothing; what is neither
/// these nor a setting is malformed.
pub proof fn law_other_lines(
    lead: Seq<char>,
    body: Seq<char>,
    trail: Seq<char>,
    comment: Seq<char>,
)
    requires
        crate::text::all_white(lead),
        crate::text::all_white(trail),
        crate::text::tight(body),
        lacks(body, '#'),
        is_comment(comment),
    ensures
        ({
            let line = read_line(lead + body + trail + comment);
            &&& body.len() == 0 ==> line is Nothing
            &&& body.len() > 0 && body[0] == '[' && body.last() == ']' ==> line is Nothing
            &&& body.len() > 0 && body[0] == '[' && body.last() != ']' ==> line is Malformed
            &&& body.len() > 0 && body[0] != '[' && lacks(body, '=') ==> line is Malformed
            &&& body.len() > 0 && body[0] == '=' ==> line is Malformed
            &&& body.len() > 0 && body[0] != '[' && body.last() == '=' && lacks(
                body.drop_last(),
                '=',
            ) ==> line is Malformed
        }),
{
    lemma_body_of(lead, body, trail, comment);
    let eq = crate::text::first_of(body, '=');
    crate::text::lemma_first_of(body, '=');
    let none = Seq::<char>::empty();
    crate::text::law_trimming(none, none, none);
    assert(none + none + none =~= none);
    if body.len() > 0 && body[0] == '=' {
        crate::text::lemma_first_of_is(body, '=', 0);
        assert(body.take(0) =~= none);
    }
    if body.len() > 0 && body.last() == '=' && lacks(body.drop_last(), '=') {
        let k = body.len() - 1;
        assert forall|i: int| 0 <= i < k implies body[i] != '=' by {
            assert(body.drop_last()[i] == body[i]);
        }
        crate::text::lemma_first_of_is(body, '=', k);
        assert(body.skip(k + 1) =~= none);
    }
    if lacks(body, '=') {
        crate::text::lemma_first_of_is(body, '=', body.len() as int);
    }
}

/// Lines take effect one after the other: a line more is put on top of what
/// the lines before it gave, and an error there stays the error.
pub proof fn law_lines_take_effect_in_order(text: Seq<char>, line: Seq<char>)
    requires
        lacks(line, '\n'),
    ensures
        meaning(text + seq!['\n'] + line) == match meaning(text) {
            Err(e) => Err(e),
            Ok(cfg) => match read_line(line) {
                Line::Nothing => Ok(cfg),
                Line::Malformed => Err(ConfigError::Syntax((line_count(text) + 1) as u32)),
                Line::Setting { key, value } => set(
                    cfg,
                    key,
                    value,
                    (line_count(text) + 1) as u32,
                ),
            },
        },
        line_count(text + seq!['\n'] + line) == line_count(text) + 1,
        line_count(line) == 1,
{
    lemma_line_behind(RadioConfig::defaults(), text, line, 1);
    crate::text::lemma_first_of_is(line, '\n', line.len() as int);
}

proof fn lemma_line_behind(cfg: RadioConfig, text: Seq<char>, line: Seq<char>, number: int)
    requires
        lacks(line, '\n'),
    ensures
        after_lines(cfg, text + seq!['\n'] + line, number) == match after_lines(cfg, text, number) {
            Err(e) => Err(e),
            Ok(next) => after_line(next, line, (number + line_count(text)) as u32),
        },
        line_count(text + seq!['\n'] + line) == line_count(text) + 1,
    decreases text.len(),
{
    let all = text + seq!['\n'] + line;
    let end = crate::text::first_of(text, '\n');
    crate::text::lemma_first_of(text, '\n');
    assert forall|i: int| 0 <= i < end implies all[i] != '\n' by {
        assert(all[i] == text[i]);
    }
    if end < text.len() {
        assert(all[end] == text[end]);
    } else {
        assert(all[end] == '\n');
    }
    crate::text::lemma_first_of_is(all, '\n', end);
    assert(all.take(end) =~= text.take(end));
    let rest = all.skip(end + 1);
    if end < text.len() {
        assert(rest =~= text.skip(end + 1) + seq!['\n'] + line);
        match after_line(cfg, text.take(end), number as u32) {
            Ok(next) => {
                lemma_line_behind(next, text.skip(end + 1), line, number + 1);
            },
            Err(_) => {
                lemma_line_behind(cfg, text.skip(end + 1), line, number + 1);
            },
        }
    } else {
        reveal_with_fuel(after_lines, 2);
        reveal_with_fuel(line_count, 2);
        assert(rest =~= line);
        crate::text::lemma_first_of_is(line, '\n', line.len() as int);
        assert(line.take(line.len() as int) =~= line);
    }
}

/// A file of the one line `key = value`.
pub open spec fn one_setting(key: Seq<char>, value: Seq<char>) -> Seq<char> {
    key + seq![' ', '=', ' '] + value
}

/// A file of one setting means the defaults with that setting.
pub proof fn law_one_setting_file(key: Seq<char>, value: Seq<char>)
    requires
        key.len() > 0,
        crate::text::tight(key),
        key[0] != '[',
        lacks(key, '#'),
        lacks(key, '='),
        lacks(key, '\n'),
        value.len() > 0,
        crate::text::tight(value),
        lacks(value, '#'),
        lacks(value, '\n'),
    ensures
        meaning(one_setting(key, value)) == set(RadioConfig::defaults(), key, value, 1),
{
    let text = one_setting(key, value);
    let none = Seq::<char>::empty();
    let space = seq![' '];
    assert(text =~= none + (key + space + seq!['='] + space + value) + none + none);
    law_setting_lines(none, key, space, space, value, none, none);
    assert forall|i: int| 0 <= i < text.len() implies text[i] != '\n' by {
        if i < key.len() {
            assert(text[i] == key[i]);
        } else if i >= key.len() + 3 {
            assert(text[i] == value[i - key.len() - 3]);
        }
    }
    crate::text::lemma_first_of_is(text, '\n', text.len() as int);
    assert(text.take(text.len() as int) =~= text);
}

proof fn lemma_number_file(key: Seq<char>, v: u64)
    requires
        key.len() > 0,
        crate::text::tight(key),
        key[0] != '[',
        lacks(key, '#'),
        lacks(key, '='),
        lacks(key, '\n'),
    ensures
        meaning(one_setting(key, crate::text::as_chars(crate::text::digits(v as nat)))) == set(
            RadioConfig::defaults(),
            key,
            crate::text::as_chars(crate::text::digits(v as nat)),
            1,
        ),
{
    let value = crate::text::as_chars(crate::text::digits(v as nat));
    crate::text::law_number_text_roundtrip(v);
    assert forall|i: int| 0 <= i < value.len() implies #[trigger] value[i] != '#' && value[i]
        != '\n' && !crate::text::white(value[i]) by {
        assert(crate::text::digit(value[i]));
    }
    law_one_setting_file(key, value);
}

proof fn lemma_frequency_hz_file(v: u64)
    ensures
        ({
            let n = crate::text::as_chars(crate::text::digits(v as nat));
            meaning(one_setting("frequency_hz"@, n)) == set(RadioConfig::defaults(), "frequency_hz"@, n, 1)
        }),
{
    reveal_strlit("frequency_hz");
    lemma_number_file("frequency_hz"@, v);
}

proof fn lemma_spreading_factor_file(v: u64)
    ensures
        ({
            let n = crate::text::as_chars(crate::text::digits(v as nat));
            meaning(one_setting("spreading_factor"@, n)) == set(RadioConfig::defaults(), "spreading_factor"@, n, 1)
        }),
{
    reveal_strlit("spreading_factor");
    lemma_number_file("spreading_factor"@, v);
}

proof fn lemma_bandwidth_khz_file(v: u64)
    ensures
        ({
            let n = crate::text::as_chars(crate::text::digits(v as nat));
            meaning(one_setting("bandwidth_khz"@, n)) == set(RadioConfig::defaults(), "bandwidth_khz"@, n, 1)
        }),
{
    reveal_strlit("bandwidth_khz");
    lemma_number_file("bandwidth_khz"@, v);
}

proof fn lemma_coding_rate_file(v: u64)
    ensures
        ({
            let n = crate::text::as_chars(crate::text::digits(v as nat));
            meaning(one_setting("coding_rate"@, n)) == set(RadioConfig::defaults(), "coding_rate"@, n, 1)
        }),
{
    reveal_strlit("coding_rate");
    lemma_number_file("coding_rate"@, v);
}

proof fn lemma_address_file(v: u64)
    ensures
        ({
            let n = crate::text::as_chars(crate::text::digits(v as nat));
            meaning(one_setting("address"@, n)) == set(RadioConfig::defaults(), "address"@, n, 1)
        }),
{
    reveal_strlit("address");
    lemma_number_file("address"@, v);
}

proof fn lemma_max_hops_file(v: u64)
    ensures
        ({
            let n = crate::text::as_chars(crate::text::digits(v as nat));
            meaning(one_setting("max_hops"@, n)) == set(RadioConfig::defaults(), "max_hops"@, n, 1)
        }),
{
    reveal_strlit("max_hops");
    lemma_number_file("max_hops"@, v);
}

proof fn lemma_lifetime_file(v: u64)
    ensures
        ({
            let n = crate::text::as_chars(crate::text::digits(v as nat));
            meaning(one_setting("lifetime"@, n)) == set(RadioConfig::defaults(), "lifetime"@, n, 1)
        }),
{
    reveal_strlit("lifetime");
    lemma_number_file("lifetime"@, v);
}

proof fn lemma_interval_s_file(v: u64)
    ensures
        ({
            let n = crate::text::as_chars(crate::text::digits(v as nat));
            meaning(one_setting("interval_s"@, n)) == set(RadioConfig::defaults(), "interval_s"@, n, 1)
        }),
{
    reveal_strlit("interval_s");
    lemma_number_file("interval_s"@, v);
}

proof fn lemma_beacon_interval_s_file(v: u64)
    ensures
        ({
            let n = crate::text::as_chars(crate::text::digits(v as nat));
            meaning(one_setting("beacon_interval_s"@, n)) == set(RadioConfig::defaults(), "beacon_interval_s"@, n, 1)
        }),
{
    reveal_strlit("beacon_interval_s");
    lemma_number_file("beacon_interval_s"@, v);
}

proof fn lemma_tcxo_startup_ms_file(v: u64)
    ensures
        ({
            let n = crate::text::as_chars(crate::text::digits(v as nat));
            meaning(one_setting("tcxo_startup_ms"@, n)) == set(RadioConfig::defaults(), "tcxo_startup_ms"@, n, 1)
        }),
{
    reveal_strlit("tcxo_startup_ms");
    lemma_number_file("tcxo_startup_ms"@, v);
}

proof fn lemma_meas_rate_ms_file(v: u64)
    ensures
        ({
            let n = crate::text::as_chars(crate::text::digits(v as nat));
            meaning(one_setting("meas_rate_ms"@, n)) == set(RadioConfig::defaults(), "meas_rate_ms"@, n, 1)
        }),
{
    reveal_strlit("meas_rate_ms");
    lemma_number_file("meas_rate_ms"@, v);
}

/// A file that gives one number means the defaults with exactly that number in
/// the key's field, where the key takes it.
pub proof fn law_number_files(v: u64)
    ensures
        ({
            let n = crate::text::as_chars(crate::text::digits(v as nat));
            let cfg = RadioConfig::defaults();
            &&& 150_000_000 <= v <= 960_000_000 ==> meaning(one_setting("frequency_hz"@, n)) == Ok::<_, ConfigError>(
                RadioConfig { frequency_hz: v as u32, ..cfg },
            )
            &&& !(150_000_000 <= v <= 960_000_000) ==> meaning(one_setting("frequency_hz"@, n)) == Err::<RadioConfig, _>(
                ConfigError::OutOfRange(1),
            )
            &&& 5 <= v <= 12 ==> meaning(one_setting("spreading_factor"@, n)) == Ok::<_, ConfigError>(
                RadioConfig { spreading_factor: v as u8, ..cfg },
            )
            &&& !(5 <= v <= 12) ==> meaning(one_setting("spreading_factor"@, n)) == Err::<RadioConfig, _>(
                ConfigError::OutOfRange(1),
            )
            &&& (v == 62 || v == 125 || v == 250 || v == 500) ==> meaning(one_setting("bandwidth_khz"@, n)) == Ok::<_, ConfigError>(
                RadioConfig { bandwidth_khz: v as u16, ..cfg },
            )
            &&& !(v == 62 || v == 125 || v == 250 || v == 500) ==> meaning(one_setting("bandwidth_khz"@, n)) == Err::<RadioConfig, _>(
                ConfigError::OutOfRange(1),
            )
            &&& 5 <= v <= 8 ==> meaning(one_setting("coding_rate"@, n)) == Ok::<_, ConfigError>(
                RadioConfig { coding_rate: v as u8, ..cfg },
            )
            &&& !(5 <= v <= 8) ==> meaning(one_setting("coding_rate"@, n)) == Err::<RadioConfig, _>(
                ConfigError::OutOfRange(1),
            )
            &&& 1 <= v <= 255 ==> meaning(one_setting("address"@, n)) == Ok::<_, ConfigError>(
                RadioConfig { address: v as u8, ..cfg },
            )
            &&& !(1 <= v <= 255) ==> meaning(one_setting("address"@, n)) == Err::<RadioConfig, _>(
                ConfigError::OutOfRange(1),
            )
            &&& v <= 8 ==> meaning(one_setting("max_hops"@, n)) == Ok::<_, ConfigError>(
                RadioConfig { max_hops: v as u8, ..cfg },
            )
            &&& !(v <= 8) ==> meaning(one_setting("max_hops"@, n)) == Err::<RadioConfig, _>(
                ConfigError::OutOfRange(1),
            )
            &&& 1 <= v <= 16 ==> meaning(one_setting("lifetime"@, n)) == Ok::<_, ConfigError>(
                RadioConfig { max_hops: if v <= 9 { (v - 1) as u8 } else { 8 }, ..cfg },
            )
            &&& !(1 <= v <= 16) ==> meaning(one_setting("lifetime"@, n)) == Err::<RadioConfig, _>(
                ConfigError::OutOfRange(1),
            )
            &&& v <= 3600 ==> meaning(one_setting("interval_s"@, n)) == Ok::<_, ConfigError>(
                RadioConfig { beacon_interval_s: v as u16, ..cfg },
            )
            &&& !(v <= 3600) ==> meaning(one_setting("interval_s"@, n)) == Err::<RadioConfig, _>(
                ConfigError::OutOfRange(1),
            )
            &&& v <= 3600 ==> meaning(one_setting("beacon_interval_s"@, n)) == Ok::<_, ConfigError>(
                RadioConfig { beacon_interval_s: v as u16, ..cfg },
            )
            &&& !(v <= 3600) ==> meaning(one_setting("beacon_interval_s"@, n)) == Err::<RadioConfig, _>(
                ConfigError::OutOfRange(1),
            )
            &&& 1 <= v <= 1000 ==> meaning(one_setting("tcxo_startup_ms"@, n)) == Ok::<_, ConfigError>(
                RadioConfig { tcxo_startup_ms: v as u16, ..cfg },
            )
            &&& !(1 <= v <= 1000) ==> meaning(one_setting("tcxo_startup_ms"@, n)) == Err::<RadioConfig, _>(
                ConfigError::OutOfRange(1),
            )
            &&& 25 <= v <= 10000 ==> meaning(one_setting("meas_rate_ms"@, n)) == Ok::<_, ConfigError>(
                RadioConfig { gps: GpsConfig { meas_rate_ms: v as u16, ..cfg.gps }, ..cfg },
            )
            &&& !(25 <= v <= 10000) ==> meaning(one_setting("meas_rate_ms"@, n)) == Err::<RadioConfig, _>(
                ConfigError::OutOfRange(1),
            )
        }),
{
    crate::text::law_number_text_roundtrip(v);
    let n = crate::text::as_chars(crate::text::digits(v as nat));
    law_number_settings(RadioConfig::defaults(), n, 1);
    lemma_frequency_hz_file(v);
    lemma_spreading_factor_file(v);
    lemma_bandwidth_khz_file(v);
    lemma_coding_rate_file(v);
    lemma_address_file(v);
    lemma_max_hops_file(v);
    lemma_lifetime_file(v);
    lemma_interval_s_file(v);
    lemma_beacon_interval_s_file(v);
    lemma_tcxo_startup_ms_file(v);
    lemma_meas_rate_ms_file(v);
}

/// What an empty file configures, in figures.
pub proof fn law_default_settings()
    ensures
        ({
            let c = RadioConfig::defaults();
            &&& c.frequency_hz == 915_000_000
            &&& c.spreading_factor == 7
            &&& c.bandwidth_khz == 125
            &&& c.coding_rate == 5
            &&& c.power_dbm == 22
            &&& !c.rx_boost
            &&& c.address == 1
            &&& c.role == Role::Leaf
            &&& c.max_hops == 1
            &&& c.beacon_interval_s == 10
            &&& c.beacon_fields == lora::FIELD_LAT | lora::FIELD_LON
            &&& c.sd_enabled
            &&& c.dcdc_enabled
            &&& c.tcxo_volts == TcxoVolts::V1_8
            &&& c.tcxo_startup_ms == 10
            &&& c.gps.gps_enabled && !c.gps.glonass_enabled && c.gps.galileo_enabled
            &&& c.gps.beidou_enabled && c.gps.qzss_enabled && c.gps.sbas_enabled
            &&& c.gps.power_mode == PowerMode::Full
            &&& c.gps.meas_rate_ms == 1000
            &&& c.gps.dyn_model == DynModel::Portable
            &&& meaning(Seq::empty()) == Ok::<RadioConfig, ConfigError>(c)
        }),
{
    assert(lora::FIELDS_DEFAULT == lora::FIELD_LAT | lora::FIELD_LON) by (bit_vector);
    lemma_no_text_is_idle(RadioConfig::defaults(), 1);
}

/// Bytes that are no text are refused; any others mean what their text means.
pub proof fn law_files_are_text(bytes: Seq<u8>)
    ensures
        vstd::utf8::valid_utf8(bytes) ==> file_meaning(bytes) == meaning(
            vstd::utf8::decode_utf8(bytes),
        ),
        !vstd::utf8::valid_utf8(bytes) ==> file_meaning(bytes) == Err::<RadioConfig, ConfigError>(
            ConfigError::Utf8,
        ),
{
}

/// Air time doubles with every step of the spreading factor past 7 and halves
/// with twice the bandwidth, in whole units of the fastest; the deadlines and
/// the repeat jitter go with it.
pub proof fn law_airtime_in_figures(cfg: RadioConfig)
    requires
        cfg.valid(),
    ensures
        ({
            let symbols: int = if cfg.spreading_factor <= 7 {
                1
            } else if cfg.spreading_factor == 8 {
                2
            } else if cfg.spreading_factor == 9 {
                4
            } else if cfg.spreading_factor == 10 {
                8
            } else if cfg.spreading_factor == 11 {
                16
            } else {
                32
            };
            let ratio = airtime_ratio(cfg.spreading_factor, cfg.bandwidth_khz);
            &&& 1 <= ratio <= 64
            &&& cfg.bandwidth_khz == 125 ==> ratio == symbols
            &&& cfg.bandwidth_khz == 62 ==> ratio == symbols * 125 / 62
            &&& cfg.bandwidth_khz == 250 && symbols > 1 ==> ratio == symbols / 2
            &&& cfg.bandwidth_khz == 500 && symbols > 2 ==> ratio == symbols / 4
            &&& symbols == 1 && cfg.bandwidth_khz >= 125 ==> ratio == 1
            &&& cfg.poll_timeout() == 150 * ratio + 100
            &&& cfg.chip_timeout() == 150 * ratio + 600
        }),
{
    vstd::arithmetic::power2::lemma2_to64();
    let sf = cfg.spreading_factor;
    lemma_ratio_at(sf, 62);
    lemma_ratio_at(sf, 125);
    lemma_ratio_at(sf, 250);
    lemma_ratio_at(sf, 500);
}

proof fn lemma_ratio_at(sf: u8, bw: u16)
    requires
        5 <= sf <= 12,
        bw == 62 || bw == 125 || bw == 250 || bw == 500,
    ensures
        ({
            let symbols: int = if sf <= 7 {
                1
            } else if sf == 8 {
                2
            } else if sf == 9 {
                4
            } else if sf == 10 {
                8
            } else if sf == 11 {
                16
            } else {
                32
            };
            let ratio = airtime_ratio(sf, bw);
            &&& 1 <= ratio <= 64
            &&& bw == 125 ==> ratio == symbols
            &&& bw == 62 ==> ratio == symbols * 125 / 62
            &&& bw == 250 && symbols > 1 ==> ratio == symbols / 2
            &&& bw == 500 && symbols > 2 ==> ratio == symbols / 4
            &&& symbols == 1 && bw >= 125 ==> ratio == 1
        }),
{
    vstd::arithmetic::power2::lemma2_to64();
    let symbols: int = if sf <= 7 {
        1
    } else {
        vstd::arithmetic::power2::pow2((sf - 7) as nat) as int
    };
    assert(symbols == 1 || symbols == 2 || symbols == 4 || symbols == 8 || symbols == 16 || symbols
        == 32);
    let d = bw as int;
    if bw == 125 {
        assert(symbols * 125 / d == symbols) by (nonlinear_arith)
            requires
                d == 125,
        ;
    } else if bw == 62 {
        assert(symbols * 125 / d == symbols * 125 / 62);
    } else if bw == 250 {
        assert(symbols * 125 / d == symbols / 2) by (nonlinear_arith)
            requires
                d == 250,
        ;
    } else {
        assert(symbols * 125 / d == symbols / 4) by (nonlinear_arith)
            requires
                d == 500,
        ;
    }
}

} // verus!

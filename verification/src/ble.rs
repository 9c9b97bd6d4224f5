//! BLE GATT extensions served by the ESP32-C6.
//!
//! The board serves the GPS service with its position/config/ack
//! characteristics, so an app that knows that service connects and streams
//! positions unchanged. This module adds board-specific characteristics
//! (continuing the same UUID sequence) and new config command ids on the
//! existing config characteristic.

use vstd::prelude::*;
use crate::position::POSITION_PACKET_LEN;
use crate::wire::{get_u32, put_u32};

verus! {

/// Name the ESP32-C6 advertises under.
pub const DEVICE_NAME: &'static str = "GPS-C6";

/// The GPS service, which the app filters scans by.
pub const SERVICE_UUID: &'static str = "c3a10001-9f6e-4b2c-8f5a-2e32c3b1e5d0";

/// [`crate::link::Telemetry`] wire format, notify + read.
pub const TELEMETRY_UUID: &'static str = "c3a10005-9f6e-4b2c-8f5a-2e32c3b1e5d0";

/// Bulk transfer (radio TOML config / WIO firmware), write.
pub const BULK_UUID: &'static str = "c3a10006-9f6e-4b2c-8f5a-2e32c3b1e5d0";

/// Remote position: `[src u8, rssi i16le, position packet 20B]`, notify + read.
pub const REMOTE_UUID: &'static str = "c3a10007-9f6e-4b2c-8f5a-2e32c3b1e5d0";

/// WIO status/log line (ASCII), notify + read. Carries the latest
/// [`crate::link::msg::LOG`] text, up to [`crate::link::LOG_MAX`] bytes.
pub const LOG_UUID: &'static str = "c3a10008-9f6e-4b2c-8f5a-2e32c3b1e5d0";

pub const TELEMETRY_UUID_U128: u128 = 0xc3a10005_9f6e_4b2c_8f5a_2e32c3b1e5d0;

pub const BULK_UUID_U128: u128 = 0xc3a10006_9f6e_4b2c_8f5a_2e32c3b1e5d0;

pub const REMOTE_UUID_U128: u128 = 0xc3a10007_9f6e_4b2c_8f5a_2e32c3b1e5d0;

pub const LOG_UUID_U128: u128 = 0xc3a10008_9f6e_4b2c_8f5a_2e32c3b1e5d0;

/// Remote position value length (src + rssi + packet).
pub const REMOTE_LEN: usize = 1 + 2 + POSITION_PACKET_LEN;

// -- Config command ids (on the config characteristic) -------------
//
// Ids 0x01-0x0F are the GPS service's own (0x01 = notify interval). The
// payload format is `[id, len, value]`; acks come back on the ack
// characteristic with the applied value.

/// Current device settings, readable so an app can populate its controls
/// on connect instead of assuming defaults, and notified whenever a value
/// changes (including changes the device makes itself, such as clamping a
/// requested interval).
pub const SETTINGS_UUID: &'static str = "c3a10009-9f6e-4b2c-8f5a-2e32c3b1e5d0";

pub const SETTINGS_UUID_U128: u128 = 0xc3a10009_9f6e_4b2c_8f5a_2e32c3b1e5d0;

/// Wire length of [`Settings`].
pub const SETTINGS_LEN: usize = 16;

/// Layout version in byte 0, so an app meeting a newer firmware can
/// reject the blob rather than misread it.
///
/// Version 2 dropped the separate stow interval: one wake-check interval
/// now covers every sleep the board does. Version 3 appended the
/// advertising window.
pub const SETTINGS_VERSION: u8 = 3;

pub const SFLAG_PWR_EN: u8 = 1 << 0;

pub const SFLAG_WIO_SLEEP: u8 = 1 << 1;

pub const SFLAG_GPS_SLEEP: u8 = 1 << 2;

/// Everything the config characteristic can set, in one readable blob.
#[derive(Clone, Copy, Debug, PartialEq, Eq, Structural)]
pub struct Settings {
    /// GPS/LoRa rail enabled ([`CFG_PWR_EN`]).
    pub pwr_en: bool,
    /// WIO soft sleep ([`CFG_WIO_SLEEP`]).
    pub wio_sleep: bool,
    /// GPS backup mode ([`CFG_GPS_SLEEP`]).
    pub gps_sleep: bool,
    /// Wake-check interval ([`CFG_ESP_SLEEP_S`]), 0 = sleep disabled.
    pub sleep_interval_s: u32,
    /// Position notify interval in ms (config id 0x01).
    pub notify_interval_ms: u32,
    /// Advertising window per wake check ([`CFG_ESP_ADV_WINDOW_S`]). Always
    /// the effective value, never 0.
    pub adv_window_s: u32,
}

impl Default for Settings {
    fn default() -> (s: Self)
        ensures
            s == (Settings {
                pwr_en: false,
                wio_sleep: false,
                gps_sleep: false,
                sleep_interval_s: 0,
                notify_interval_ms: 0,
                adv_window_s: 0,
            }),
    {
        Settings {
            pwr_en: false,
            wio_sleep: false,
            gps_sleep: false,
            sleep_interval_s: 0,
            notify_interval_ms: 0,
            adv_window_s: 0,
        }
    }
}

/// The flag byte that stands for three switches.
pub open spec fn settings_flags(pwr_en: bool, wio_sleep: bool, gps_sleep: bool) -> u8 {
    (if pwr_en {
        SFLAG_PWR_EN
    } else {
        0
    }) | (if wio_sleep {
        SFLAG_WIO_SLEEP
    } else {
        0
    }) | (if gps_sleep {
        SFLAG_GPS_SLEEP
    } else {
        0
    })
}

impl Settings {
    /// The 16 bytes on the wire. Bytes 2 and 3 are reserved and zero.
    pub open spec fn wire(self) -> Seq<u8> {
        seq![
            SETTINGS_VERSION,
            settings_flags(self.pwr_en, self.wio_sleep, self.gps_sleep),
            0,
            0,
        ] + crate::wire::u32_bytes(self.sleep_interval_s) + crate::wire::u32_bytes(
            self.notify_interval_ms,
        ) + crate::wire::u32_bytes(self.adv_window_s)
    }

    /// What a byte string holds, read as settings of this layout version.
    pub open spec fn read(b: Seq<u8>) -> Option<Settings> {
        if b.len() < SETTINGS_LEN || b[0] != SETTINGS_VERSION {
            None
        } else {
            Some(
                Settings {
                    pwr_en: b[1] & SFLAG_PWR_EN != 0,
                    wio_sleep: b[1] & SFLAG_WIO_SLEEP != 0,
                    gps_sleep: b[1] & SFLAG_GPS_SLEEP != 0,
                    sleep_interval_s: crate::wire::u32_at(b, 4),
                    notify_interval_ms: crate::wire::u32_at(b, 8),
                    adv_window_s: crate::wire::u32_at(b, 12),
                },
            )
        }
    }

    pub fn encode(&self) -> (b: [u8; SETTINGS_LEN])
        ensures
            b@ == self.wire(),
    {
        let pwr: u8 = if self.pwr_en {
            SFLAG_PWR_EN
        } else {
            0
        };
        let wio: u8 = if self.wio_sleep {
            SFLAG_WIO_SLEEP
        } else {
            0
        };
        let gps: u8 = if self.gps_sleep {
            SFLAG_GPS_SLEEP
        } else {
            0
        };
        let sleep: [u8; 4] = put_u32(self.sleep_interval_s);
        let notify: [u8; 4] = put_u32(self.notify_interval_ms);
        let adv: [u8; 4] = put_u32(self.adv_window_s);
        // Bytes 2 and 3 are reserved, kept zero to word-align the u32s.
        let b: [u8; SETTINGS_LEN] = [
            SETTINGS_VERSION,
            pwr | wio | gps,
            0,
            0,
            sleep[0],
            sleep[1],
            sleep[2],
            sleep[3],
            notify[0],
            notify[1],
            notify[2],
            notify[3],
            adv[0],
            adv[1],
            adv[2],
            adv[3],
        ];
        assert(b@ =~= self.wire());
        b
    }

    /// Returns `None` for a short buffer or an unknown layout version.
    pub fn decode(b: &[u8]) -> (s: Option<Self>)
        ensures
            s == Settings::read(b@),
    {
        if b.len() < SETTINGS_LEN || b[0] != SETTINGS_VERSION {
            return None;
        }
        Some(
            Settings {
                pwr_en: b[1] & SFLAG_PWR_EN != 0,
                wio_sleep: b[1] & SFLAG_WIO_SLEEP != 0,
                gps_sleep: b[1] & SFLAG_GPS_SLEEP != 0,
                sleep_interval_s: get_u32(b, 4),
                notify_interval_ms: get_u32(b, 8),
                adv_window_s: get_u32(b, 12),
            },
        )
    }
}

proof fn lemma_flags_read_back(pwr_en: bool, wio_sleep: bool, gps_sleep: bool)
    ensures
        settings_flags(pwr_en, wio_sleep, gps_sleep) & SFLAG_PWR_EN != 0 <==> pwr_en,
        settings_flags(pwr_en, wio_sleep, gps_sleep) & SFLAG_WIO_SLEEP != 0 <==> wio_sleep,
        settings_flags(pwr_en, wio_sleep, gps_sleep) & SFLAG_GPS_SLEEP != 0 <==> gps_sleep,
{
    assert((settings_flags(pwr_en, wio_sleep, gps_sleep) & SFLAG_PWR_EN != 0) == pwr_en)
        by (bit_vector);
    assert((settings_flags(pwr_en, wio_sleep, gps_sleep) & SFLAG_WIO_SLEEP != 0) == wio_sleep)
        by (bit_vector);
    assert((settings_flags(pwr_en, wio_sleep, gps_sleep) & SFLAG_GPS_SLEEP != 0) == gps_sleep)
        by (bit_vector);
}

/// Encoded settings read back as themselves, whatever bytes follow them: a
/// future layout can only grow, and byte 0 is what gates compatibility.
pub proof fn law_settings_roundtrip(s: Settings, trailing: Seq<u8>)
    ensures
        Settings::read(s.wire() + trailing) == Some(s),
{
    let b = s.wire() + trailing;
    lemma_flags_read_back(s.pwr_en, s.wio_sleep, s.gps_sleep);
    assert(b.subrange(4, 8) =~= crate::wire::u32_bytes(s.sleep_interval_s));
    assert(b.subrange(8, 12) =~= crate::wire::u32_bytes(s.notify_interval_ms));
    assert(b.subrange(12, 16) =~= crate::wire::u32_bytes(s.adv_window_s));
    crate::wire::lemma_u32_at(b, 4, s.sleep_interval_s);
    crate::wire::lemma_u32_at(b, 8, s.notify_interval_ms);
    crate::wire::lemma_u32_at(b, 12, s.adv_window_s);
}

/// `u8` 0/1: enable the GPS/LoRa power rail (AP2112K LDO on GPIO2).
/// 0 powers off both the WIO-E5 and the GPS entirely.
pub const CFG_PWR_EN: u8 = 0x10;

/// `u8` 0/1: 1 sends WIO_SLEEP(1) over the link; 0 wakes it (WIO_SLEEP(0),
/// with a reset pulse as fallback when the WIO does not ack).
pub const CFG_WIO_SLEEP: u8 = 0x11;

/// `u8` 0/1: GPS backup mode on/off (forwarded to the WIO).
pub const CFG_GPS_SLEEP: u8 = 0x12;

/// `u32` seconds: ESP deep-sleep wake-check interval. While set (non-zero)
/// the ESP deep-sleeps whenever no central is connected, waking every
/// interval to advertise for a short window. 0 disables sleep mode.
///
/// The board keeps this across a connect: reaching it does not clear the
/// interval, so an unattended tracker holds its cadence indefinitely and
/// the setting means the same thing whether or not anyone is looking. The
/// GPS/LoRa rail stays off through every sleep.
///
/// Note the wake is timed by the C6's uncalibrated RC slow clock, so the
/// interval drifts. It paces a wake-check, not a schedule.
pub const CFG_ESP_SLEEP_S: u8 = 0x13;

/// Clamp range for [`CFG_ESP_SLEEP_S`].
///
/// The ceiling is the worst case for reaching a sleeping board, since
/// deep sleep has no wake source but the timer - nothing over the air can
/// interrupt it. Five minutes keeps that wait short enough that a sleeping
/// board is always a wait rather than a lockout.
pub const ESP_SLEEP_MIN_S: u32 = 5;

pub const ESP_SLEEP_MAX_S: u32 = 5 * 60;

/// `u32` seconds: how long each sleep-mode wake check advertises before
/// going back to deep sleep. Only meaningful while [`CFG_ESP_SLEEP_S`] is
/// set; a board that never sleeps advertises continuously regardless.
///
/// This is the knob that sets the duty cycle, and so the average current:
/// advertising costs roughly two orders of magnitude more than deep sleep,
/// so at a fixed interval the window is what the draw is proportional to.
/// Shortening it buys battery life directly, at the cost of asking more of
/// whoever is trying to connect - the window has to overlap a phone's scan.
pub const CFG_ESP_ADV_WINDOW_S: u8 = 0x14;

/// Clamp range and default for [`CFG_ESP_ADV_WINDOW_S`].
///
/// The floor is not a comfortable connect time, it is the point below
/// which a window stops being worth waking for at all - a phone that only
/// scans intermittently can miss several 3 s windows in a row. The ceiling
/// exists because a window is time spent at full advertising current;
/// past a minute, shortening the interval is the better trade.
pub const ESP_ADV_MIN_S: u32 = 3;

pub const ESP_ADV_MAX_S: u32 = 60;

pub const ESP_ADV_DEFAULT_S: u32 = 15;

// -- Bulk transfer protocol (writes on [`BULK_UUID`]) -------------------------
//
// Each write is one op. Status comes back on the ack characteristic with
// id [`ACK_ID_BULK`]: status ACK_OK and the next expected seq as the value,
// or a non-zero status on error.

/// Bulk op: `[OP_BEGIN, kind u8, total_len u32le, crc32 u32le,
/// version u16le]` (version is 0 for TOML config).
pub const OP_BEGIN: u8 = 0x01;

/// Bulk op: `[OP_DATA, seq u16le, bytes...]`.
pub const OP_DATA: u8 = 0x02;

/// Bulk op: `[OP_END]`.
pub const OP_END: u8 = 0x03;

/// Bulk op: `[OP_ABORT]`.
pub const OP_ABORT: u8 = 0x04;

/// Bulk kind: radio TOML config, forwarded to the WIO and saved to SD.
pub const KIND_TOML: u8 = 1;

/// Bulk kind: WIO-E5 firmware image for the DFU partition.
pub const KIND_FIRMWARE: u8 = 2;

/// Ack id used for bulk transfer status on the ack characteristic.
pub const ACK_ID_BULK: u8 = 0x20;

/// Ack statuses beyond the GPS service's own (OK, unknown id, bad value).
pub const ACK_WIO_ERROR: u8 = 0x10;

pub const ACK_WIO_TIMEOUT: u8 = 0x11;

pub const ACK_BAD_STATE: u8 = 0x12;

/// Max data bytes per OP_DATA write. Fits a 251-byte ATT payload after the
/// 3-byte op header while staying under the UART link chunk size.
pub const BULK_DATA_MAX: usize = crate::link::DATA_CHUNK;

/// The settings have every value at its own place: the layout version, one bit
/// for each switch, and the three intervals low byte first.
pub proof fn law_settings_layout(s: Settings)
    ensures
        ({
            let b = s.wire();
            &&& b.len() == 16
            &&& b[0] == 3
            &&& b[1] == (if s.pwr_en {
                1int
            } else {
                0
            }) + (if s.wio_sleep {
                2int
            } else {
                0
            }) + (if s.gps_sleep {
                4int
            } else {
                0
            })
            &&& b[2] == 0 && b[3] == 0
            &&& b[4] + 256 * b[5] + 65536 * b[6] + 16777216 * b[7] == s.sleep_interval_s
            &&& b[8] + 256 * b[9] + 65536 * b[10] + 16777216 * b[11] == s.notify_interval_ms
            &&& b[12] + 256 * b[13] + 65536 * b[14] + 16777216 * b[15] == s.adv_window_s
        }),
{
    assert(0u8 | 0u8 | 0u8 == 0 && 1u8 | 0u8 | 0u8 == 1 && 0u8 | 2u8 | 0u8 == 2 && 1u8 | 2u8 | 0u8
        == 3 && 0u8 | 0u8 | 4u8 == 4 && 1u8 | 0u8 | 4u8 == 5 && 0u8 | 2u8 | 4u8 == 6 && 1u8 | 2u8
        | 4u8 == 7 && 1u8 << 0 == 1u8 && 1u8 << 1 == 2u8 && 1u8 << 2 == 4u8) by (bit_vector);
}

} // verus!

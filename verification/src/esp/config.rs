//! Config writes: `[id, len, value]` on the config characteristic.
//!
//! The board's own ids set the power rail, the sleep switches and the two
//! intervals; the GPS service's ids are the fallback. A write that switches
//! something on the WIO asks it first, so a write is handled in two halves:
//! [`apply_config`] takes the write, and [`config_answered`] takes what the
//! WIO said.

use vstd::prelude::*;
use crate::ble;
use crate::esp::ack::{applied, bare, Ack, AckStatus, AckView};
use crate::esp::persist::{
    self, Persist, PFLAG_GPS_SLEEP, PFLAG_PWR_OFF, PFLAG_WIO_SLEEP,
};
use crate::esp::requests::{Step, StepView};
use crate::link::cmd;
use crate::wire::{get_u32, put_u32};

verus! {

/// The GPS service's notify interval, `u32` milliseconds.
pub const CFG_UPDATE_INTERVAL_MS: u8 = 0x01;

/// How long the WIO has to confirm a sleep switch.
pub const SLEEP_TIMEOUT_MS: u64 = 500;

/// What a config write has the firmware do.
#[derive(Clone, Copy, Debug, PartialEq, Eq, Structural)]
pub enum ConfigEffect {
    /// Drive the GPS/LoRa rail.
    DriveRail(bool),
    /// Save the settings to flash.
    Save,
    /// Pulse the WIO's reset line.
    PulseReset,
}

/// A switch that waits for the WIO to confirm it.
#[derive(Clone, Copy, Debug, PartialEq, Eq, Structural)]
pub enum Switching {
    WioSleep(bool),
    GpsSleep(bool),
}

/// What follows a config write.
#[verifier::ext_equal]
pub struct Applied {
    pub persist: Persist,
    pub notify_interval_ms: u32,
    pub effects: Seq<ConfigEffect>,
    pub step: StepView,
    pub switching: Option<Switching>,
}

/// The value of a config write; empty where the write is cut short.
pub open spec fn value_of(data: Seq<u8>) -> Seq<u8> {
    if 2 + data[1] <= data.len() {
        data.subrange(2, 2 + data[1])
    } else {
        Seq::empty()
    }
}

/// The switch that a value sets, `default` where it is missing.
pub open spec fn switch_of(value: Seq<u8>, default: bool) -> bool {
    if value.len() > 0 {
        value[0] != 0
    } else {
        default
    }
}

/// A switch on the wire.
pub open spec fn switch_byte(on: bool) -> Seq<u8> {
    seq![
        if on {
            1u8
        } else {
            0u8
        },
    ]
}

/// `x` brought into a range.
pub open spec fn clamped(x: u32, low: u32, high: u32) -> u32 {
    if x < low {
        low
    } else if x > high {
        high
    } else {
        x
    }
}

/// The sleep interval that a request gets: 0 switches sleep off.
pub open spec fn sleep_interval_for(secs: u32) -> u32 {
    if secs > 0 {
        clamped(secs, ble::ESP_SLEEP_MIN_S, ble::ESP_SLEEP_MAX_S)
    } else {
        0
    }
}

/// The advertising window that a request gets. Unlike the sleep interval, 0
/// is not an "off" here, so it comes up to the floor instead of being stored
/// as a window nobody could ever connect in.
pub open spec fn window_for(secs: u32) -> u32 {
    clamped(secs, ble::ESP_ADV_MIN_S, ble::ESP_ADV_MAX_S)
}

/// A switch that the WIO has to confirm.
pub open spec fn asking(
    p: Persist,
    notify_interval_ms: u32,
    switching: Switching,
    flag: u32,
    cmd: u8,
    sleep: bool,
) -> Applied {
    Applied {
        persist: Persist { flags: persist::with_flag(p.flags, flag, sleep), ..p },
        notify_interval_ms,
        effects: Seq::empty(),
        step: StepView::Ask { cmd, payload: switch_byte(sleep), timeout_ms: SLEEP_TIMEOUT_MS },
        switching: Some(switching),
    }
}

/// A setting stored and saved.
pub open spec fn stored(p: Persist, notify_interval_ms: u32, id: u8, value: Seq<u8>) -> Applied {
    Applied {
        persist: p,
        notify_interval_ms,
        effects: seq![ConfigEffect::Save],
        step: StepView::Reply(applied(id, value)),
        switching: None,
    }
}

/// A write answered with `ack`, with nothing changed.
pub open spec fn unchanged(p: Persist, notify_interval_ms: u32, ack: AckView) -> Applied {
    Applied {
        persist: p,
        notify_interval_ms,
        effects: Seq::empty(),
        step: StepView::Reply(ack),
        switching: None,
    }
}

/// A write that none of the board's own ids takes. `parsed` is what the GPS
/// service makes of it: the notify interval to apply, or why it is refused.
pub open spec fn on_service_config(
    p: Persist,
    notify_interval_ms: u32,
    data: Seq<u8>,
    parsed: Result<u32, AckStatus>,
) -> Applied {
    match parsed {
        Ok(ms) => Applied {
            persist: p,
            notify_interval_ms: ms,
            effects: Seq::empty(),
            step: StepView::Reply(applied(CFG_UPDATE_INTERVAL_MS, crate::wire::u32_bytes(ms))),
            switching: None,
        },
        Err(status) => unchanged(
            p,
            notify_interval_ms,
            bare(
                if data.len() > 0 {
                    data[0]
                } else {
                    0
                },
                status,
            ),
        ),
    }
}

/// What follows a config write.
pub open spec fn on_config(
    p: Persist,
    notify_interval_ms: u32,
    data: Seq<u8>,
    parsed: Result<u32, AckStatus>,
) -> Applied {
    let id = data[0];
    let value = value_of(data);
    if data.len() < 2 {
        on_service_config(p, notify_interval_ms, data, parsed)
    } else if id == ble::CFG_PWR_EN {
        let on = switch_of(value, true);
        Applied {
            persist: Persist { flags: persist::with_flag(p.flags, PFLAG_PWR_OFF, !on), ..p },
            notify_interval_ms,
            effects: seq![ConfigEffect::DriveRail(on), ConfigEffect::Save],
            step: StepView::Reply(applied(id, switch_byte(on))),
            switching: None,
        }
    } else if id == ble::CFG_WIO_SLEEP {
        let sleep = switch_of(value, false);
        asking(
            p,
            notify_interval_ms,
            Switching::WioSleep(sleep),
            PFLAG_WIO_SLEEP,
            cmd::WIO_SLEEP,
            sleep,
        )
    } else if id == ble::CFG_GPS_SLEEP {
        let sleep = switch_of(value, false);
        asking(
            p,
            notify_interval_ms,
            Switching::GpsSleep(sleep),
            PFLAG_GPS_SLEEP,
            cmd::GPS_SLEEP,
            sleep,
        )
    } else if id == ble::CFG_ESP_SLEEP_S {
        if value.len() == 4 {
            let secs = sleep_interval_for(crate::wire::u32_at(value, 0));
            stored(
                Persist { sleep_interval_s: secs, ..p },
                notify_interval_ms,
                id,
                crate::wire::u32_bytes(secs),
            )
        } else {
            unchanged(p, notify_interval_ms, bare(id, AckStatus::BadValue))
        }
    } else if id == ble::CFG_ESP_ADV_WINDOW_S {
        if value.len() == 4 {
            let secs = window_for(crate::wire::u32_at(value, 0));
            stored(
                Persist { adv_window_s: secs, ..p },
                notify_interval_ms,
                id,
                crate::wire::u32_bytes(secs),
            )
        } else {
            unchanged(p, notify_interval_ms, bare(id, AckStatus::BadValue))
        }
    } else {
        on_service_config(p, notify_interval_ms, data, parsed)
    }
}

fn clamp(x: u32, low: u32, high: u32) -> (r: u32)
    ensures
        r == clamped(x, low, high),
{
    if x < low {
        low
    } else if x > high {
        high
    } else {
        x
    }
}

fn switch_value(on: bool) -> (v: [u8; 1])
    ensures
        v@ == switch_byte(on),
{
    let v: [u8; 1] = [
        if on {
            1
        } else {
            0
        },
    ];
    assert(v@ =~= switch_byte(on));
    v
}

fn ask_switch(cmd: u8, on: bool) -> (s: Step)
    ensures
        s@ == (StepView::Ask {
            cmd,
            payload: switch_byte(on),
            timeout_ms: SLEEP_TIMEOUT_MS,
        }),
{
    let byte: [u8; 1] = switch_value(on);
    let mut payload: Vec<u8> = Vec::new();
    crate::wire::append(&mut payload, byte.as_slice());
    assert(payload@ =~= switch_byte(on));
    Step::Ask { cmd, payload, timeout_ms: SLEEP_TIMEOUT_MS }
}

fn apply_service_config(
    notify_interval_ms: &mut u32,
    data: &[u8],
    parsed: Result<u32, AckStatus>,
    p: Ghost<Persist>,
) -> (s: Step)
    ensures
        ({
            let a = on_service_config(p@, *old(notify_interval_ms), data@, parsed);
            &&& a.persist == p@
            &&& *final(notify_interval_ms) == a.notify_interval_ms
            &&& a.effects == Seq::<ConfigEffect>::empty()
            &&& s@ == a.step
            &&& a.switching is None
        }),
{
    match parsed {
        Ok(ms) => {
            *notify_interval_ms = ms;
            let value: [u8; 4] = put_u32(ms);
            Step::Reply(Ack::applied(CFG_UPDATE_INTERVAL_MS, value.as_slice()))
        },
        Err(status) => {
            let id: u8 = if data.len() > 0 {
                data[0]
            } else {
                0
            };
            Step::Reply(Ack::bare(id, status))
        },
    }
}

/// Apply a config write. `parsed` is what the GPS service makes of it, with
/// the interval already brought into its range; it counts only where none of
/// the board's own ids takes the write.
pub fn apply_config(
    p: &mut Persist,
    notify_interval_ms: &mut u32,
    data: &[u8],
    parsed: Result<u32, AckStatus>,
) -> (r: (Vec<ConfigEffect>, Step, Option<Switching>))
    ensures
        ({
            let a = on_config(*old(p), *old(notify_interval_ms), data@, parsed);
            &&& *final(p) == a.persist
            &&& *final(notify_interval_ms) == a.notify_interval_ms
            &&& r.0@ == a.effects
            &&& r.1@ == a.step
            &&& r.2 == a.switching
        }),
{
    let ghost goal = on_config(*p, *notify_interval_ms, data@, parsed);
    let mut effects: Vec<ConfigEffect> = Vec::new();
    if data.len() < 2 {
        let step = apply_service_config(notify_interval_ms, data, parsed, Ghost(*p));
        return (effects, step, None);
    }
    let id: u8 = data[0];
    let len: usize = data[1] as usize;
    let value: &[u8] = if 2 + len <= data.len() {
        &data[2..2 + len]
    } else {
        &data[0..0]
    };
    assert(value@ =~= value_of(data@));
    if id == ble::CFG_PWR_EN {
        let on: bool = if value.len() > 0 {
            value[0] != 0
        } else {
            true
        };
        p.set_flag(PFLAG_PWR_OFF, !on);
        effects.push(ConfigEffect::DriveRail(on));
        effects.push(ConfigEffect::Save);
        assert(effects@ =~= goal.effects);
        let byte: [u8; 1] = switch_value(on);
        (effects, Step::Reply(Ack::applied(id, byte.as_slice())), None)
    } else if id == ble::CFG_WIO_SLEEP {
        let sleep: bool = value.len() > 0 && value[0] != 0;
        p.set_flag(PFLAG_WIO_SLEEP, sleep);
        (effects, ask_switch(cmd::WIO_SLEEP, sleep), Some(Switching::WioSleep(sleep)))
    } else if id == ble::CFG_GPS_SLEEP {
        let sleep: bool = value.len() > 0 && value[0] != 0;
        p.set_flag(PFLAG_GPS_SLEEP, sleep);
        (effects, ask_switch(cmd::GPS_SLEEP, sleep), Some(Switching::GpsSleep(sleep)))
    } else if id == ble::CFG_ESP_SLEEP_S {
        if value.len() == 4 {
            let mut secs: u32 = get_u32(value, 0);
            if secs > 0 {
                secs = clamp(secs, ble::ESP_SLEEP_MIN_S, ble::ESP_SLEEP_MAX_S);
            }
            p.sleep_interval_s = secs;
            effects.push(ConfigEffect::Save);
            assert(effects@ =~= goal.effects);
            let word: [u8; 4] = put_u32(secs);
            (effects, Step::Reply(Ack::applied(id, word.as_slice())), None)
        } else {
            (effects, Step::Reply(Ack::bare(id, AckStatus::BadValue)), None)
        }
    } else if id == ble::CFG_ESP_ADV_WINDOW_S {
        if value.len() == 4 {
            let secs: u32 = clamp(get_u32(value, 0), ble::ESP_ADV_MIN_S, ble::ESP_ADV_MAX_S);
            p.adv_window_s = secs;
            effects.push(ConfigEffect::Save);
            assert(effects@ =~= goal.effects);
            let word: [u8; 4] = put_u32(secs);
            (effects, Step::Reply(Ack::applied(id, word.as_slice())), None)
        } else {
            (effects, Step::Reply(Ack::bare(id, AckStatus::BadValue)), None)
        }
    } else {
        let step = apply_service_config(notify_interval_ms, data, parsed, Ghost(*p));
        (effects, step, None)
    }
}

/// What follows the WIO's answer to a switch.
pub open spec fn on_switched(switching: Switching, answer: Result<u16, AckStatus>) -> (
    Seq<ConfigEffect>,
    AckView,
) {
    match (switching, answer) {
        (Switching::WioSleep(sleep), Ok(_)) => (
            Seq::empty(),
            applied(ble::CFG_WIO_SLEEP, switch_byte(sleep)),
        ),
        (Switching::WioSleep(sleep), Err(status)) => if sleep {
            (Seq::empty(), bare(ble::CFG_WIO_SLEEP, status))
        } else {
            (seq![ConfigEffect::PulseReset], applied(ble::CFG_WIO_SLEEP, switch_byte(false)))
        },
        (Switching::GpsSleep(sleep), Ok(_)) => (
            Seq::empty(),
            applied(ble::CFG_GPS_SLEEP, switch_byte(sleep)),
        ),
        (Switching::GpsSleep(_), Err(status)) => (
            Seq::empty(),
            bare(ble::CFG_GPS_SLEEP, status),
        ),
    }
}

/// Take the WIO's answer to a switch. One that does not answer to being
/// woken is woken with a reset.
pub fn config_answered(switching: Switching, answer: Result<u16, AckStatus>) -> (r: (
    Vec<ConfigEffect>,
    Ack,
))
    ensures
        (r.0@, r.1@) == on_switched(switching, answer),
{
    let mut effects: Vec<ConfigEffect> = Vec::new();
    match switching {
        Switching::WioSleep(sleep) => {
            let byte: [u8; 1] = switch_value(sleep);
            match answer {
                Ok(_) => (effects, Ack::applied(ble::CFG_WIO_SLEEP, byte.as_slice())),
                Err(status) => {
                    if !sleep {
                        effects.push(ConfigEffect::PulseReset);
                        assert(effects@ =~= seq![ConfigEffect::PulseReset]);
                        return (effects, Ack::applied(ble::CFG_WIO_SLEEP, byte.as_slice()));
                    }
                    (effects, Ack::bare(ble::CFG_WIO_SLEEP, status))
                },
            }
        },
        Switching::GpsSleep(sleep) => match answer {
            Ok(_) => {
                let byte: [u8; 1] = switch_value(sleep);
                (effects, Ack::applied(ble::CFG_GPS_SLEEP, byte.as_slice()))
            },
            Err(status) => (effects, Ack::bare(ble::CFG_GPS_SLEEP, status)),
        },
    }
}

// -- Laws ---------------------------------------------------------------------

/// The intervals are ones that a config write can store.
pub open spec fn in_range(p: Persist) -> bool {
    &&& p.sleep_interval_s == 0 || ble::ESP_SLEEP_MIN_S <= p.sleep_interval_s
        <= ble::ESP_SLEEP_MAX_S
    &&& p.adv_window_s == 0 || ble::ESP_ADV_MIN_S <= p.adv_window_s <= ble::ESP_ADV_MAX_S
}

/// Config writes keep the intervals in range, so a sleeping board is always
/// a wait rather than a lockout: it wakes within the ceiling, and every wake
/// check advertises for a window somebody can connect in.
pub proof fn law_intervals_stay_in_range(
    p: Persist,
    notify_interval_ms: u32,
    data: Seq<u8>,
    parsed: Result<u32, AckStatus>,
)
    requires
        in_range(p),
    ensures
        in_range(on_config(p, notify_interval_ms, data, parsed).persist),
        ble::ESP_ADV_MIN_S <= on_config(p, notify_interval_ms, data, parsed).persist.window()
            <= ble::ESP_ADV_MAX_S,
        in_range(Persist::unset()),
{
}

/// A write of a 4-byte value.
pub open spec fn word_write(id: u8, secs: u32) -> Seq<u8> {
    seq![id, 4] + crate::wire::u32_bytes(secs)
}

/// The ack of an interval carries what was applied, which is what the app
/// reads back, and the setting is saved.
pub proof fn law_ack_carries_applied_interval(
    p: Persist,
    notify_interval_ms: u32,
    secs: u32,
    parsed: Result<u32, AckStatus>,
)
    ensures
        ({
            let a = on_config(
                p,
                notify_interval_ms,
                word_write(ble::CFG_ESP_SLEEP_S, secs),
                parsed,
            );
            let shown = a.persist.shown(a.notify_interval_ms);
            &&& shown.sleep_interval_s == sleep_interval_for(secs)
            &&& a.step == StepView::Reply(
                applied(ble::CFG_ESP_SLEEP_S, crate::wire::u32_bytes(shown.sleep_interval_s)),
            )
            &&& a.effects == seq![ConfigEffect::Save]
        }),
        ({
            let a = on_config(
                p,
                notify_interval_ms,
                word_write(ble::CFG_ESP_ADV_WINDOW_S, secs),
                parsed,
            );
            let shown = a.persist.shown(a.notify_interval_ms);
            &&& shown.adv_window_s == window_for(secs)
            &&& a.step == StepView::Reply(
                applied(ble::CFG_ESP_ADV_WINDOW_S, crate::wire::u32_bytes(shown.adv_window_s)),
            )
            &&& a.effects == seq![ConfigEffect::Save]
        }),
{
    let v = crate::wire::u32_bytes(secs);
    assert(value_of(word_write(ble::CFG_ESP_SLEEP_S, secs)) =~= v);
    assert(value_of(word_write(ble::CFG_ESP_ADV_WINDOW_S, secs)) =~= v);
    assert(v.subrange(0, 4) =~= v);
    crate::wire::lemma_u32_at(v, 0, secs);
}

/// A switch reads back as it was written, and writing one leaves the other
/// settings alone.
pub proof fn law_switches_read_back(
    p: Persist,
    notify_interval_ms: u32,
    on: bool,
    parsed: Result<u32, AckStatus>,
)
    ensures
        ({
            let data = seq![ble::CFG_PWR_EN, 1] + switch_byte(on);
            let a = on_config(p, notify_interval_ms, data, parsed);
            &&& a.persist.shown(notify_interval_ms) == (ble::Settings {
                pwr_en: on,
                ..p.shown(notify_interval_ms)
            })
            &&& a.effects[0] == ConfigEffect::DriveRail(on)
        }),
        ({
            let data = seq![ble::CFG_WIO_SLEEP, 1] + switch_byte(on);
            let a = on_config(p, notify_interval_ms, data, parsed);
            a.persist.shown(notify_interval_ms) == (ble::Settings {
                wio_sleep: on,
                ..p.shown(notify_interval_ms)
            })
        }),
        ({
            let data = seq![ble::CFG_GPS_SLEEP, 1] + switch_byte(on);
            let a = on_config(p, notify_interval_ms, data, parsed);
            a.persist.shown(notify_interval_ms) == (ble::Settings {
                gps_sleep: on,
                ..p.shown(notify_interval_ms)
            })
        }),
{
    assert(value_of(seq![ble::CFG_PWR_EN, 1] + switch_byte(on)) =~= switch_byte(on));
    assert(value_of(seq![ble::CFG_WIO_SLEEP, 1] + switch_byte(on)) =~= switch_byte(on));
    assert(value_of(seq![ble::CFG_GPS_SLEEP, 1] + switch_byte(on)) =~= switch_byte(on));
    assert(1u32 & 2u32 == 0 && 1u32 & 4u32 == 0 && 2u32 & 4u32 == 0 && 2u32 & 1u32 == 0 && 4u32
        & 1u32 == 0 && 4u32 & 2u32 == 0) by (bit_vector);
    persist::law_flags_are_independent(p.flags, PFLAG_PWR_OFF, PFLAG_WIO_SLEEP, !on);
    persist::law_flags_are_independent(p.flags, PFLAG_PWR_OFF, PFLAG_GPS_SLEEP, !on);
    persist::law_flags_are_independent(p.flags, PFLAG_WIO_SLEEP, PFLAG_PWR_OFF, on);
    persist::law_flags_are_independent(p.flags, PFLAG_WIO_SLEEP, PFLAG_GPS_SLEEP, on);
    persist::law_flags_are_independent(p.flags, PFLAG_GPS_SLEEP, PFLAG_PWR_OFF, on);
    persist::law_flags_are_independent(p.flags, PFLAG_GPS_SLEEP, PFLAG_WIO_SLEEP, on);
}

/// A WIO that does not answer to being woken is woken with a reset, and the
/// writer is told that it worked.
pub proof fn law_stuck_wio_is_reset(status: AckStatus)
    ensures
        on_switched(Switching::WioSleep(false), Err(status)) == (
            seq![ConfigEffect::PulseReset],
            applied(ble::CFG_WIO_SLEEP, switch_byte(false)),
        ),
{
}

/// The rail follows the power switch: any value but 0 turns it on, and so does
/// a write without a value. It is driven at once, remembered and saved, and
/// nothing else changes.
pub proof fn law_power_switch(
    p: Persist,
    notify_interval_ms: u32,
    data: Seq<u8>,
    parsed: Result<u32, AckStatus>,
)
    requires
        data.len() >= 2,
        data[0] == 0x10,
    ensures
        ({
            let on = data[1] == 0 || 2 + data[1] > data.len() || data[2] != 0;
            let a = on_config(p, notify_interval_ms, data, parsed);
            &&& a.persist.rail() == on
            &&& a.persist.flags & 2 == p.flags & 2 && a.persist.flags & 4 == p.flags & 4
            &&& a.persist == (Persist { flags: a.persist.flags, ..p })
            &&& a.notify_interval_ms == notify_interval_ms
            &&& a.effects == seq![ConfigEffect::DriveRail(on), ConfigEffect::Save]
            &&& a.step matches StepView::Reply(ack) && {
                &&& ack.id == 0x10
                &&& ack.status == AckStatus::Applied
                &&& ack.value == seq![
                    if on {
                        1u8
                    } else {
                        0u8
                    },
                ]
            }
            &&& a.switching is None
        }),
{
    let on = data[1] == 0 || 2 + data[1] > data.len() || data[2] != 0;
    assert(1u32 & 2u32 == 0 && 1u32 & 4u32 == 0) by (bit_vector);
    persist::law_flags_are_independent(p.flags, 1, 2, !on);
    persist::law_flags_are_independent(p.flags, 1, 4, !on);
}

/// A sleep switch is remembered and put to the WIO, which has half a second to
/// confirm it: any value but 0 asks for sleep, and a write without a value
/// wakes. Nothing else changes, and the writer is answered later.
pub proof fn law_sleep_switches(
    p: Persist,
    notify_interval_ms: u32,
    data: Seq<u8>,
    parsed: Result<u32, AckStatus>,
)
    requires
        data.len() >= 2,
        data[0] == 0x11 || data[0] == 0x12,
    ensures
        ({
            let sleep = data[1] > 0 && 2 + data[1] <= data.len() && data[2] != 0;
            let a = on_config(p, notify_interval_ms, data, parsed);
            let wio = data[0] == 0x11;
            &&& wio ==> (a.persist.flags & 2 != 0) == sleep && a.persist.flags & 4 == p.flags & 4
            &&& !wio ==> (a.persist.flags & 4 != 0) == sleep && a.persist.flags & 2 == p.flags & 2
            &&& a.persist.flags & 1 == p.flags & 1
            &&& a.persist == (Persist { flags: a.persist.flags, ..p })
            &&& a.notify_interval_ms == notify_interval_ms
            &&& a.effects.len() == 0
            &&& a.step == (StepView::Ask {
                cmd: if wio {
                    0x03
                } else {
                    0x04
                },
                payload: seq![
                    if sleep {
                        1u8
                    } else {
                        0u8
                    },
                ],
                timeout_ms: 500,
            })
            &&& a.switching == Some(
                if wio {
                    Switching::WioSleep(sleep)
                } else {
                    Switching::GpsSleep(sleep)
                },
            )
        }),
{
    let sleep = data[1] > 0 && 2 + data[1] <= data.len() && data[2] != 0;
    assert(1u32 & 2u32 == 0 && 1u32 & 4u32 == 0 && 2u32 & 4u32 == 0 && 2u32 & 1u32 == 0 && 4u32
        & 1u32 == 0 && 4u32 & 2u32 == 0) by (bit_vector);
    persist::law_flags_are_independent(p.flags, 2, 1, sleep);
    persist::law_flags_are_independent(p.flags, 2, 4, sleep);
    persist::law_flags_are_independent(p.flags, 4, 1, sleep);
    persist::law_flags_are_independent(p.flags, 4, 2, sleep);
}

/// An interval within its range is stored as it was asked for, one outside is
/// brought to the nearer end; a sleep interval of 0 switches sleep off. Only
/// that interval changes, and it is saved. A value that is not four bytes long
/// is refused, and nothing changes.
pub proof fn law_interval_writes(
    p: Persist,
    notify_interval_ms: u32,
    data: Seq<u8>,
    parsed: Result<u32, AckStatus>,
)
    requires
        data.len() >= 2,
        data[0] == 0x13 || data[0] == 0x14,
    ensures
        ({
            let a = on_config(p, notify_interval_ms, data, parsed);
            let whole = data[1] == 4 && data.len() >= 6;
            let asked = data[2] + 256 * data[3] + 65536 * data[4] + 16777216 * data[5];
            let sleep = a.persist.sleep_interval_s;
            let window = a.persist.adv_window_s;
            &&& a.notify_interval_ms == notify_interval_ms
            &&& a.switching is None
            &&& a.persist.flags == p.flags
            &&& !whole ==> {
                &&& a.persist == p
                &&& a.effects.len() == 0
                &&& a.step matches StepView::Reply(ack) && ack.id == data[0] && ack.status
                    == AckStatus::BadValue
            }
            &&& whole ==> {
                &&& a.effects == seq![ConfigEffect::Save]
                &&& a.step matches StepView::Reply(ack) && {
                    &&& ack.id == data[0]
                    &&& ack.status == AckStatus::Applied
                    &&& ack.value == crate::wire::u32_bytes(
                        if data[0] == 0x13 {
                            sleep
                        } else {
                            window
                        },
                    )
                }
            }
            &&& whole && data[0] == 0x13 ==> {
                &&& window == p.adv_window_s
                &&& asked == 0 ==> sleep == 0
                &&& 0 < asked < 5 ==> sleep == 5
                &&& 5 <= asked <= 300 ==> sleep == asked
                &&& asked > 300 ==> sleep == 300
            }
            &&& whole && data[0] == 0x14 ==> {
                &&& sleep == p.sleep_interval_s
                &&& asked < 3 ==> window == 3
                &&& 3 <= asked <= 60 ==> window == asked
                &&& asked > 60 ==> window == 60
            }
        }),
{
    let value = value_of(data);
    if data[1] == 4 && data.len() >= 6 {
        assert(value.len() == 4);
        assert(value[0] == data[2] && value[1] == data[3] && value[2] == data[4] && value[3]
            == data[5]);
    }
}

/// Every other write is the GPS service's: the notify interval that it makes
/// of it is applied and told, and where it refuses, the writer hears why under
/// the id that was written. The board's own settings stay.
pub proof fn law_other_writes_go_to_the_service(
    p: Persist,
    notify_interval_ms: u32,
    data: Seq<u8>,
    parsed: Result<u32, AckStatus>,
)
    requires
        data.len() < 2 || (data[0] != 0x10 && data[0] != 0x11 && data[0] != 0x12 && data[0] != 0x13
            && data[0] != 0x14),
    ensures
        ({
            let a = on_config(p, notify_interval_ms, data, parsed);
            &&& a.persist == p
            &&& a.effects.len() == 0
            &&& a.switching is None
            &&& parsed matches Ok(ms) ==> {
                &&& a.notify_interval_ms == ms
                &&& a.step matches StepView::Reply(ack) && ack.id == 0x01 && ack.status
                    == AckStatus::Applied && ack.value == crate::wire::u32_bytes(ms)
            }
            &&& parsed matches Err(status) ==> {
                &&& a.notify_interval_ms == notify_interval_ms
                &&& a.step matches StepView::Reply(ack) && ack.status == status && ack.value.len()
                    == 0 && (data.len() > 0 ==> ack.id == data[0]) && (data.len() == 0 ==> ack.id
                    == 0)
            }
        }),
{
}

/// A switch that the WIO confirms is told as applied; a refusal is passed on,
/// except where a WIO that is to wake does not answer.
pub proof fn law_switch_answers(sleep: bool, n: u16, status: AckStatus)
    ensures
        ({
            let byte = if sleep {
                1u8
            } else {
                0u8
            };
            &&& on_switched(Switching::WioSleep(sleep), Ok(n)) == (
                Seq::<ConfigEffect>::empty(),
                applied(0x11, seq![byte]),
            )
            &&& on_switched(Switching::GpsSleep(sleep), Ok(n)) == (
                Seq::<ConfigEffect>::empty(),
                applied(0x12, seq![byte]),
            )
            &&& on_switched(Switching::GpsSleep(sleep), Err(status)) == (
                Seq::<ConfigEffect>::empty(),
                bare(0x12, status),
            )
            &&& on_switched(Switching::WioSleep(true), Err(status)) == (
                Seq::<ConfigEffect>::empty(),
                bare(0x11, status),
            )
        }),
{
    assert(switch_byte(sleep) =~= seq![
        if sleep {
            1u8
        } else {
            0u8
        },
    ]);
}

} // verus!

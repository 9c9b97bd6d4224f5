//! Radio activity LEDs: D6 pulses on LoRa RX, D5 on LoRa TX.
//!
//! The radio driver only raises a flag per direction (it must not touch GPIO
//! directly - it runs inside timing-sensitive TX/RX paths); the main loop
//! calls [`Leds::update`] to start and retire visible pulses.

use vstd::prelude::*;
use crate::platform::is_due;

verus! {

/// LED pulse duration in ms - long enough to be visible.
pub const PULSE_MS: u32 = 30;

/// Radio activity since the LEDs were last updated.
#[derive(Clone, Copy, Debug, PartialEq, Eq, Structural)]
pub struct Activity {
    pub tx: bool,
    pub rx: bool,
}

/// Record that a transmission started.
pub fn note_tx(activity: &mut Activity)
    ensures
        *final(activity) == (Activity { tx: true, rx: old(activity).rx }),
{
    activity.tx = true;
}

/// Record that a packet was received.
pub fn note_rx(activity: &mut Activity)
    ensures
        *final(activity) == (Activity { tx: old(activity).tx, rx: true }),
{
    activity.rx = true;
}

/// What to do with an LED.
#[derive(Clone, Copy, Debug, PartialEq, Eq, Structural)]
pub enum LedChange {
    Keep,
    On,
    Off,
}

/// When the pulse under way ends, if there is one, and what to do with its
/// LED.
pub open spec fn pulse(until: Option<u32>, flagged: bool, now_ms: u32) -> (
    Option<u32>,
    LedChange,
) {
    if flagged {
        (Some(now_ms.wrapping_add(PULSE_MS)), LedChange::On)
    } else if until matches Some(end) && crate::platform::reached(now_ms, end) {
        (None, LedChange::Off)
    } else {
        (until, LedChange::Keep)
    }
}

/// When the pulses under way on the two LEDs end.
#[derive(Clone, Copy, Debug, PartialEq, Eq, Structural)]
pub struct Leds {
    pub rx_until: Option<u32>,
    pub tx_until: Option<u32>,
}

/// What activity makes of the LEDs, and what to do with the TX and RX ones.
pub open spec fn updated(l: Leds, activity: Activity, now_ms: u32) -> (
    Leds,
    (LedChange, LedChange),
) {
    let (tx_until, tx) = pulse(l.tx_until, activity.tx, now_ms);
    let (rx_until, rx) = pulse(l.rx_until, activity.rx, now_ms);
    (Leds { rx_until, tx_until }, (tx, rx))
}

fn step(until: Option<u32>, flagged: bool, now_ms: u32) -> (r: (Option<u32>, LedChange))
    ensures
        r == pulse(until, flagged, now_ms),
{
    if flagged {
        return (Some(now_ms.wrapping_add(PULSE_MS)), LedChange::On);
    }
    match until {
        Some(end) if is_due(now_ms, end) => (None, LedChange::Off),
        _ => (until, LedChange::Keep),
    }
}

impl Leds {
    /// Both LEDs dark.
    pub fn new() -> (l: Self)
        ensures
            l == (Leds { rx_until: None, tx_until: None }),
    {
        Leds { rx_until: None, tx_until: None }
    }

    /// Start pulses for freshly flagged activity and retire expired ones.
    /// Takes the flags down, and says what to do with the TX and RX LEDs.
    pub fn update(&mut self, activity: &mut Activity, now_ms: u32) -> (r: (LedChange, LedChange))
        ensures
            *final(activity) == (Activity { tx: false, rx: false }),
            (*final(self), r) == updated(*old(self), *old(activity), now_ms),
    {
        let (tx_until, tx_change) = step(self.tx_until, activity.tx, now_ms);
        let (rx_until, rx_change) = step(self.rx_until, activity.rx, now_ms);
        self.tx_until = tx_until;
        self.rx_until = rx_until;
        activity.tx = false;
        activity.rx = false;
        (tx_change, rx_change)
    }
}

/// A pulse lasts [`PULSE_MS`]: without further activity the LED stays on
/// before that and goes dark at the first update after it.
pub proof fn law_pulse_is_retired(before: Option<u32>, lit_at: u32, waited: u32)
    requires
        waited < 0x8000_0000,
    ensures
        ({
            let (until, change) = pulse(before, true, lit_at);
            let later = pulse(until, false, lit_at.wrapping_add(waited));
            &&& change == LedChange::On
            &&& waited < PULSE_MS ==> later == (until, LedChange::Keep)
            &&& waited >= PULSE_MS ==> later == (None::<u32>, LedChange::Off)
        }),
{
    crate::platform::law_deadline_comes_on_time(lit_at, PULSE_MS, waited);
}

/// Each LED shows its own direction: activity lights it for 30 ms from now,
/// and without any it goes dark when its time has come and stays otherwise,
/// whatever the other one does.
pub proof fn law_leds_are_apart(l: Leds, activity: Activity, now_ms: u32)
    ensures
        ({
            let (after, (tx, rx)) = updated(l, activity, now_ms);
            let tx_over = l.tx_until matches Some(end) && now_ms.wrapping_sub(end) < 0x8000_0000;
            let rx_over = l.rx_until matches Some(end) && now_ms.wrapping_sub(end) < 0x8000_0000;
            &&& activity.tx ==> tx == LedChange::On && after.tx_until == Some(
                now_ms.wrapping_add(30),
            )
            &&& activity.rx ==> rx == LedChange::On && after.rx_until == Some(
                now_ms.wrapping_add(30),
            )
            &&& !activity.tx && tx_over ==> tx == LedChange::Off && after.tx_until is None
            &&& !activity.rx && rx_over ==> rx == LedChange::Off && after.rx_until is None
            &&& !activity.tx && !tx_over ==> tx == LedChange::Keep && after.tx_until == l.tx_until
            &&& !activity.rx && !rx_over ==> rx == LedChange::Keep && after.rx_until == l.rx_until
        }),
{
}

} // verus!

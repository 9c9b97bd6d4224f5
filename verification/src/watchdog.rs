//! Independent watchdog (IWDG) timing for boot safety.
//!
//! The IWDG runs from the LSI oscillator (~32 kHz) and is independent of the
//! main system clock. Once started it **cannot be stopped** - this is by
//! design and ensures that a stuck firmware will always reset.
//!
//! If a new firmware never confirms its boot or hangs, the watchdog fires a
//! reset. The bootloader sees that the swap was not confirmed and reverts to
//! the previous firmware.

use vstd::prelude::*;

verus! {

/// Unlocks the prescaler and reload registers when written to the key
/// register.
pub const KEY_UNLOCK: u16 = 0x5555;

/// Starts the watchdog when written to the key register.
pub const KEY_ENABLE: u16 = 0xCCCC;

/// Reloads the counter when written to the key register.
pub const KEY_RELOAD: u16 = 0xAAAA;

/// Prescaler register value for a division by 64.
pub const PRESCALER_64: u8 = 4;

/// Largest value of the reload register.
pub const RELOAD_MAX: u16 = 4095;

/// A write to the watchdog's registers, or a wait on them.
#[derive(Clone, Copy, Debug, PartialEq, Eq, Structural)]
pub enum WatchdogStep {
    /// Write the key register.
    Key(u16),
    /// Write the prescaler register.
    Prescaler(u8),
    /// Write the reload register.
    Reload(u16),
    /// Wait for the prescaler and reload updates (the two low status bits).
    /// The window value's update bit may never clear while the window is
    /// never written.
    AwaitUpdates,
}

/// The counter ticks of a timeout, as far as the counter goes: with prescaler
/// /64 it ticks at ~500 Hz.
pub open spec fn ticks_of(timeout_ms: u32) -> u16 {
    if timeout_ms / 2 > RELOAD_MAX {
        RELOAD_MAX
    } else {
        (timeout_ms / 2) as u16
    }
}

/// What starts the watchdog with a timeout.
pub open spec fn start_steps(timeout_ms: u32) -> Seq<WatchdogStep> {
    seq![
        WatchdogStep::Key(KEY_ENABLE),
        WatchdogStep::Key(KEY_UNLOCK),
        WatchdogStep::Prescaler(PRESCALER_64),
        WatchdogStep::Reload(ticks_of(timeout_ms)),
        WatchdogStep::AwaitUpdates,
        WatchdogStep::Key(KEY_RELOAD),
    ]
}

/// Reload value for a timeout in milliseconds.
///
/// With prescaler /64 the counter ticks at ~500 Hz, giving a maximum timeout
/// of ~8 s. Clamps to the hardware maximum.
pub fn reload_ticks(timeout_ms: u32) -> (ticks: u16)
    ensures
        ticks == ticks_of(timeout_ms),
{
    if timeout_ms / 2 > RELOAD_MAX as u32 {
        RELOAD_MAX
    } else {
        (timeout_ms / 2) as u16
    }
}

/// Start the watchdog with a timeout in milliseconds: the steps, in order.
/// The last one is the first feeding.
pub fn start(timeout_ms: u32) -> (steps: [WatchdogStep; 6])
    ensures
        steps@ == start_steps(timeout_ms),
{
    let steps = [
        WatchdogStep::Key(KEY_ENABLE),
        WatchdogStep::Key(KEY_UNLOCK),
        WatchdogStep::Prescaler(PRESCALER_64),
        WatchdogStep::Reload(reload_ticks(timeout_ms)),
        WatchdogStep::AwaitUpdates,
        feed(),
    ];
    assert(steps@ =~= start_steps(timeout_ms));
    steps
}

/// Feed (reload) the watchdog counter, preventing a reset. Due at least once
/// per timeout.
pub fn feed() -> (step: WatchdogStep)
    ensures
        step == WatchdogStep::Key(KEY_RELOAD),
{
    WatchdogStep::Key(KEY_RELOAD)
}

/// The watchdog is set to the timeout asked for, to the tick, up to the 4095
/// ticks of two milliseconds that its counter holds. It is enabled and
/// unlocked before it is set, and fed when its settings are in force.
pub proof fn law_timeout_is_set(timeout_ms: u32)
    ensures
        timeout_ms < 8_192 ==> 2 * ticks_of(timeout_ms) <= timeout_ms < 2 * ticks_of(timeout_ms) + 2,
        timeout_ms >= 8_192 ==> ticks_of(timeout_ms) == 4_095,
        start_steps(timeout_ms) == seq![
            WatchdogStep::Key(0xCCCC),
            WatchdogStep::Key(0x5555),
            WatchdogStep::Prescaler(4),
            WatchdogStep::Reload(ticks_of(timeout_ms)),
            WatchdogStep::AwaitUpdates,
            WatchdogStep::Key(0xAAAA),
        ],
{
}

} // verus!

//! Time and chance on the STM32WLE5: the millisecond clock behind the cycle
//! counter, and the pseudo-random generator.

use vstd::prelude::*;

verus! {

/// System clock frequency in Hz. The MSI is raised from the 4 MHz reset
/// default to 16 MHz early in init for SD SPI throughput and FAT/NMEA
/// processing headroom; 16 MHz still needs zero flash wait states.
pub const SYSCLK_HZ: u32 = 16_000_000;

/// Cycles per millisecond.
pub const TICKS_PER_MS: u32 = SYSCLK_HZ / 1000;

// -- Counters -----------------------------------------------------------------

/// A count that stops at its maximum.
pub open spec fn count_up(n: u32) -> u32 {
    if n == u32::MAX {
        u32::MAX
    } else {
        (n + 1) as u32
    }
}

// -- Deadlines ----------------------------------------------------------------

/// Whether a wrapping millisecond clock that reads `now` has come to `due`:
/// `due` lies in the half of the clock's range that is behind `now`.
pub open spec fn reached(now: u32, due: u32) -> bool {
    now.wrapping_sub(due) < 0x8000_0000
}

/// Whether the deadline `due` has come.
pub fn is_due(now: u32, due: u32) -> (r: bool)
    ensures
        r == reached(now, due),
{
    now.wrapping_sub(due) < 0x8000_0000
}

/// A deadline set less than half the clock's range ahead comes exactly when
/// its time has passed, across a rollover of the clock too.
pub proof fn law_deadline_comes_on_time(set_at: u32, delay: u32, waited: u32)
    requires
        delay < 0x8000_0000,
        waited < 0x8000_0000,
    ensures
        reached(set_at.wrapping_add(waited), set_at.wrapping_add(delay)) <==> waited >= delay,
{
}

// -- Millisecond clock --------------------------------------------------------

/// Milliseconds since boot, counted from readings of a cycle counter that
/// rolls over about every 268 s.
pub struct Millis {
    prev_cycles: u32,
    accum_ms: u32,
    leftover: u32,
}

/// What a [`Millis`] remembers between readings.
pub struct ClockState {
    /// The cycle counter at the last reading.
    pub cycles: u32,
    /// Milliseconds counted so far (wraps at about 49 days).
    pub ms: u32,
    /// Cycles that have not made up a whole millisecond yet.
    pub carried: u32,
}

impl View for Millis {
    type V = ClockState;

    closed spec fn view(&self) -> ClockState {
        ClockState { cycles: self.prev_cycles, ms: self.accum_ms, carried: self.leftover }
    }
}

impl ClockState {
    /// Cycles to account for at a reading of the counter. A counter that was
    /// left alone for a full turn shows only the remainder.
    pub open spec fn pending(self, cycles: u32) -> int {
        let total = self.carried + cycles.wrapping_sub(self.cycles);
        if total > u32::MAX {
            u32::MAX as int
        } else {
            total
        }
    }

    /// The state after a reading of the counter.
    pub open spec fn tick(self, cycles: u32) -> ClockState {
        ClockState {
            cycles,
            ms: self.ms.wrapping_add((self.pending(cycles) / TICKS_PER_MS as int) as u32),
            carried: (self.pending(cycles) % TICKS_PER_MS as int) as u32,
        }
    }
}

impl Millis {
    /// A clock that starts at zero, with the counter at zero.
    pub fn new() -> (c: Self)
        ensures
            c@ == (ClockState { cycles: 0, ms: 0, carried: 0 }),
    {
        Millis { prev_cycles: 0, accum_ms: 0, leftover: 0 }
    }

    /// Milliseconds since boot, given the cycle counter now.
    pub fn millis(&mut self, cycles: u32) -> (ms: u32)
        ensures
            final(self)@ == old(self)@.tick(cycles),
            ms == final(self)@.ms,
    {
        let elapsed: u32 = cycles.wrapping_sub(self.prev_cycles);
        let total: u32 = self.leftover.saturating_add(elapsed);
        let new_ms: u32 = total / TICKS_PER_MS;
        self.prev_cycles = cycles;
        self.leftover = total % TICKS_PER_MS;
        self.accum_ms = self.accum_ms.wrapping_add(new_ms);
        self.accum_ms
    }
}

/// The clock loses no cycles: what it counts in whole milliseconds and what
/// it carries over add up to the cycles that went by since the last reading,
/// so long as that was less than a turn of the counter (short of its last
/// millisecond).
pub proof fn law_clock_loses_nothing(c: ClockState, cycles: u32)
    requires
        c.carried < TICKS_PER_MS,
        cycles.wrapping_sub(c.cycles) <= u32::MAX - TICKS_PER_MS,
    ensures
        c.tick(cycles).carried < TICKS_PER_MS,
        TICKS_PER_MS * (c.tick(cycles).ms.wrapping_sub(c.ms)) + c.tick(cycles).carried
            == cycles.wrapping_sub(c.cycles) + c.carried,
{
}

// -- Pseudo-random numbers ----------------------------------------------------

/// One step of the xorshift32 generator.
pub open spec fn xorshift32(s: u32) -> u32 {
    let a = s ^ (s << 13);
    let b = a ^ (a >> 17);
    b ^ (b << 5)
}

/// The state that a generator draws its next word from: its own, or a seed
/// where it has none yet.
pub open spec fn seeded(state: u32, seed: u32) -> u32 {
    if state != 0 {
        state
    } else if seed != 0 {
        seed
    } else {
        1
    }
}

/// How far a word lies from zero, read as a two's complement number.
pub open spec fn magnitude(word: u32) -> int {
    if word < 0x8000_0000 {
        word as int
    } else {
        0x1_0000_0000 - word
    }
}

/// The number in `[min, max)` that a word stands for; `min` where the range
/// is empty.
pub open spec fn pick(word: u32, min: i32, max: i32) -> int {
    if max <= min {
        min as int
    } else {
        min + magnitude(word) % (max - min)
    }
}

/// The pseudo-random generator; its state is 0 until the first draw seeds it.
pub struct Random {
    state: u32,
}

impl View for Random {
    type V = u32;

    closed spec fn view(&self) -> u32 {
        self.state
    }
}

impl Random {
    /// A generator that has not been seeded yet.
    pub fn new() -> (r: Self)
        ensures
            r@ == 0,
    {
        Random { state: 0 }
    }

    /// Random number in `[min, max)`; `min` where the range is empty. The
    /// first draw seeds the generator with `cycles`, a reading of the cycle
    /// counter.
    pub fn random(&mut self, cycles: u32, min: i32, max: i32) -> (r: i32)
        requires
            max - min <= i32::MAX,
        ensures
            final(self)@ == xorshift32(seeded(old(self)@, cycles)),
            r == pick(final(self)@, min, max),
            min < max ==> min <= r < max,
            max <= min ==> r == min,
    {
        let mut s: u32 = self.state;
        if s == 0 {
            s = cycles;
            if s == 0 {
                s = 1;
            }
        }
        s = s ^ (s << 13);
        s = s ^ (s >> 17);
        s = s ^ (s << 5);
        self.state = s;
        if max <= min {
            return min;
        }
        let far: u32 = if s < 0x8000_0000 {
            s
        } else {
            0xFFFF_FFFF - s + 1
        };
        let span: u32 = (max as i64 - min as i64) as u32;
        min + ((far % span) as i32)
    }
}

/// The generator never falls into the one state that it could not leave, so
/// it is seeded once and for all by its first draw.
pub proof fn law_random_state_stays_nonzero(state: u32, seed: u32)
    ensures
        seeded(state, seed) != 0,
        xorshift32(seeded(state, seed)) != 0,
{
    let s = seeded(state, seed);
    assert(s != 0 ==> xorshift32(s) != 0) by (bit_vector);
}

/// Counts go up one by one and stop at their maximum.
pub proof fn law_counts_stop(n: u32)
    ensures
        n < u32::MAX ==> count_up(n) == n + 1,
        count_up(u32::MAX) == u32::MAX,
{
}

/// A draw lies in its range, every number of the range can come up, and words
/// that are each other's negative give the same one.
pub proof fn law_draws_cover_the_range(word: u32, min: i32, max: i32, k: u32)
    requires
        min < max,
        k < max - min,
        max - min <= i32::MAX,
    ensures
        min <= pick(word, min, max) < max,
        pick(k, min, max) == min + k,
        pick(word, min, max) == pick(0u32.wrapping_sub(word), min, max),
        pick(word, max, min) == max,
{
    let span = max - min;
    let m = magnitude(word);
    assert(0 <= m % span < span) by (nonlinear_arith)
        requires
            span > 0,
    ;
    assert(k as int % span == k) by (nonlinear_arith)
        requires
            0 <= k < span,
    ;
}

/// A generator goes on from its own state and takes the seed only where it has
/// none; no two states lead to the same next one.
pub proof fn law_generator_goes_on(state: u32, seed: u32, other: u32)
    ensures
        state != 0 ==> seeded(state, seed) == state,
        seed != 0 ==> seeded(0, seed) == seed,
        seeded(0, 0) == 1,
        xorshift32(state) == xorshift32(other) ==> state == other,
{
    assert(xorshift32(state) == xorshift32(other) ==> state == other) by (bit_vector);
}

/// A clock that is read goes on by the milliseconds in between, however many
/// readings there are: two readings count what one would.
pub proof fn law_readings_add_up(c: ClockState, between: u32, cycles: u32)
    requires
        c.carried < TICKS_PER_MS,
        between.wrapping_sub(c.cycles) + cycles.wrapping_sub(between) <= u32::MAX - TICKS_PER_MS,
    ensures
        c.tick(between).tick(cycles) == c.tick(cycles),
{
    law_clock_loses_nothing(c, between);
    law_clock_loses_nothing(c.tick(between), cycles);
    law_clock_loses_nothing(c, cycles);
}

/// A step of the generator is linear: words that are combined bit by bit lead
/// to what their next ones combine to. From 1 it goes to 270369.
pub proof fn law_generator_is_linear(a: u32, b: u32)
    ensures
        xorshift32(a ^ b) == xorshift32(a) ^ xorshift32(b),
        xorshift32(1) == 270_369,
{
    assert(xorshift32(a ^ b) == xorshift32(a) ^ xorshift32(b)) by (bit_vector);
    assert(xorshift32(1u32) == 270_369) by (bit_vector);
}

} // verus!

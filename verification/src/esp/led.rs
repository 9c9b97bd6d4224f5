//! LED D2: one long blink at the start of a sleep-interval wake, a short
//! burst on config writes, fast toggling during a firmware upload.

use vstd::prelude::*;

verus! {

/// A signal to show.
#[derive(Clone, Copy, Debug, PartialEq, Eq, Structural)]
pub enum Blink {
    /// One long blink: woke up on the sleep interval, advertising window is
    /// starting.
    Wake,
    /// Short burst: info/config received from the phone.
    Info,
    /// One immediate toggle: firmware chunk forwarded (fast blink while
    /// chunks stream).
    FwToggle,
    /// Force the LED off (end of firmware upload).
    Off,
}

/// One step of a signal.
#[derive(Clone, Copy, Debug, PartialEq, Eq, Structural)]
pub enum LedStep {
    High,
    Low,
    Toggle,
    WaitMs(u64),
}

/// One short flash.
pub open spec fn flash() -> Seq<LedStep> {
    seq![LedStep::High, LedStep::WaitMs(25), LedStep::Low, LedStep::WaitMs(25)]
}

/// The steps of a signal.
pub open spec fn blink_steps(b: Blink) -> Seq<LedStep> {
    match b {
        Blink::Wake => seq![LedStep::High, LedStep::WaitMs(500), LedStep::Low],
        Blink::Info => flash() + flash() + flash(),
        Blink::FwToggle => seq![LedStep::Toggle],
        Blink::Off => seq![LedStep::Low],
    }
}

/// The steps that show a signal, in order.
pub fn blink_plan(b: Blink) -> (steps: Vec<LedStep>)
    ensures
        steps@ == blink_steps(b),
{
    let mut steps: Vec<LedStep> = Vec::new();
    match b {
        Blink::Wake => {
            steps.push(LedStep::High);
            steps.push(LedStep::WaitMs(500));
            steps.push(LedStep::Low);
        },
        Blink::Info => {
            let mut n: usize = 0;
            assert(flash() + flash() + flash() =~= seq![
                LedStep::High,
                LedStep::WaitMs(25),
                LedStep::Low,
                LedStep::WaitMs(25),
                LedStep::High,
                LedStep::WaitMs(25),
                LedStep::Low,
                LedStep::WaitMs(25),
                LedStep::High,
                LedStep::WaitMs(25),
                LedStep::Low,
                LedStep::WaitMs(25),
            ]);
            while n < 3
                invariant
                    n <= 3,
                    steps@ == (flash() + flash() + flash()).take(4 * n),
                decreases 3 - n,
            {
                steps.push(LedStep::High);
                steps.push(LedStep::WaitMs(25));
                steps.push(LedStep::Low);
                steps.push(LedStep::WaitMs(25));
                n = n + 1;
                assert(steps@ =~= (flash() + flash() + flash()).take(4 * n));
            }
            assert(steps@ =~= flash() + flash() + flash());
        },
        Blink::FwToggle => {
            steps.push(LedStep::Toggle);
        },
        Blink::Off => {
            steps.push(LedStep::Low);
        },
    }
    assert(steps@ =~= blink_steps(b));
    steps
}

/// Whether the LED is lit after some steps.
pub open spec fn lit_after(lit: bool, steps: Seq<LedStep>) -> bool
    decreases steps.len(),
{
    if steps.len() == 0 {
        lit
    } else {
        match steps.last() {
            LedStep::High => true,
            LedStep::Low => false,
            LedStep::Toggle => !lit_after(lit, steps.drop_last()),
            LedStep::WaitMs(_) => lit_after(lit, steps.drop_last()),
        }
    }
}

/// Every signal but the firmware toggle leaves the LED dark, however it found
/// it.
pub proof fn law_signals_end_dark(b: Blink, lit: bool)
    requires
        b != Blink::FwToggle,
    ensures
        !lit_after(lit, blink_steps(b)),
{
    let s = blink_steps(b);
    reveal_with_fuel(lit_after, 2);
    if b == Blink::Info {
        assert(s.drop_last().last() == LedStep::Low);
    }
}

/// How long the LED is lit in a run of steps.
pub open spec fn lit_ms(lit: bool, steps: Seq<LedStep>) -> nat
    decreases steps.len(),
{
    if steps.len() == 0 {
        0
    } else {
        lit_ms(lit, steps.drop_last()) + match steps.last() {
            LedStep::WaitMs(ms) => if lit_after(lit, steps.drop_last()) {
                ms as nat
            } else {
                0
            },
            _ => 0,
        }
    }
}

/// A wake shows half a second of light, a config write three flashes of 25 ms
/// each; a firmware chunk switches the LED over at once, and the end switches
/// it off.
pub proof fn law_signals_are_told_apart(lit: bool)
    ensures
        lit_ms(lit, blink_steps(Blink::Wake)) == 500,
        lit_ms(lit, blink_steps(Blink::Info)) == 75,
        blink_steps(Blink::FwToggle) == seq![LedStep::Toggle],
        lit_after(lit, blink_steps(Blink::FwToggle)) == !lit,
        blink_steps(Blink::Off) == seq![LedStep::Low],
{
    reveal_with_fuel(lit_ms, 5);
    reveal_with_fuel(lit_after, 5);
    let w = blink_steps(Blink::Wake);
    assert(w.drop_last() =~= seq![LedStep::High, LedStep::WaitMs(500)]);
    assert(w.drop_last().drop_last() =~= seq![LedStep::High]);
    assert(seq![LedStep::Toggle].drop_last() =~= Seq::<LedStep>::empty());
    lemma_flash_lit(lit, Seq::empty());
    assert(Seq::<LedStep>::empty() + flash() =~= flash());
    lemma_flash_lit(lit, flash());
    lemma_flash_lit(lit, flash() + flash());
}

proof fn lemma_flash_lit(lit: bool, before: Seq<LedStep>)
    ensures
        lit_ms(lit, before + flash()) == lit_ms(lit, before) + 25,
{
    let s4 = before + flash();
    let s1 = before.push(LedStep::High);
    let s2 = s1.push(LedStep::WaitMs(25));
    let s3 = s2.push(LedStep::Low);
    assert(s4 =~= s3.push(LedStep::WaitMs(25)));
    assert(s3.push(LedStep::WaitMs(25)).drop_last() =~= s3);
    assert(s3.drop_last() =~= s2);
    assert(s2.drop_last() =~= s1);
    assert(s1.drop_last() =~= before);
    assert(lit_after(lit, s1));
    assert(!lit_after(lit, s3));
    assert(lit_ms(lit, s1) == lit_ms(lit, before));
    assert(lit_ms(lit, s2) == lit_ms(lit, s1) + 25);
    assert(lit_ms(lit, s3) == lit_ms(lit, s2));
}

} // verus!

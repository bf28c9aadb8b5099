//! Frame pacing. Instructions run at a clock speed that can be set; the two
//! timers count down at 60 Hz whatever that speed is. A pacer turns elapsed
//! time into the instructions and the timer ticks that are due, carrying the
//! unused fractions over so that nothing is lost or counted twice.

use vstd::prelude::*;

verus! {

/// Timer ticks per second.
pub const TIMER_HZ: u64 = 60;

/// Microseconds per second.
pub const MICROS_PER_SECOND: u64 = 1_000_000;

/// What is due after some elapsed time.
#[derive(Clone, Copy, Debug, PartialEq, Eq, Structural)]
pub struct Due {
    /// Instructions to execute.
    pub instructions: u64,
    /// Timer ticks to apply.
    pub timer_ticks: u64,
}

/// A pacer as a mathematical value. The credits are in millionths of an
/// instruction and of a timer tick.
pub struct PacerState {
    pub clock_hz: int,
    pub cycle_credit: int,
    pub timer_credit: int,
}

impl PacerState {
    pub open spec fn valid(self) -> bool {
        &&& 0 <= self.clock_hz <= 0xFFFF_FFFF
        &&& 0 <= self.cycle_credit < 1_000_000
        &&& 0 <= self.timer_credit < 1_000_000
    }
}

/// The instructions due after `elapsed` microseconds.
pub open spec fn cycles_due(s: PacerState, elapsed: int) -> int {
    (s.cycle_credit + elapsed * s.clock_hz) / 1_000_000
}

/// The timer ticks due after `elapsed` microseconds.
pub open spec fn ticks_due(s: PacerState, elapsed: int) -> int {
    (s.timer_credit + elapsed * 60) / 1_000_000
}

/// The pacer after `elapsed` microseconds were accounted for.
pub open spec fn paced(s: PacerState, elapsed: int) -> PacerState {
    PacerState {
        clock_hz: s.clock_hz,
        cycle_credit: (s.cycle_credit + elapsed * s.clock_hz) % 1_000_000,
        timer_credit: (s.timer_credit + elapsed * 60) % 1_000_000,
    }
}

/// The timer ticks that are due depend on the elapsed time alone, not on the
/// clock speed.
pub proof fn lemma_timer_rate_ignores_clock(a: PacerState, b: PacerState, elapsed: int)
    requires
        a.timer_credit == b.timer_credit,
    ensures
        ticks_due(a, elapsed) == ticks_due(b, elapsed),
        paced(a, elapsed).timer_credit == paced(b, elapsed).timer_credit,
{
}

/// Accounting for time in two parts gives what accounting for it at once
/// gives: the same instructions, the same timer ticks, the same credits.
pub proof fn lemma_pacing_splits(s: PacerState, first: int, second: int)
    requires
        s.valid(),
        0 <= first,
        0 <= second,
    ensures
        cycles_due(s, first) + cycles_due(paced(s, first), second) == cycles_due(
            s,
            first + second,
        ),
        ticks_due(s, first) + ticks_due(paced(s, first), second) == ticks_due(s, first + second),
        paced(paced(s, first), second) == paced(s, first + second),
{
    assert((first + second) * s.clock_hz == first * s.clock_hz + second * s.clock_hz)
        by (nonlinear_arith);
    assert(0 <= first * s.clock_hz && 0 <= second * s.clock_hz) by (nonlinear_arith)
        requires
            0 <= first,
            0 <= second,
            0 <= s.clock_hz,
    ;
    lemma_carry(s.cycle_credit + first * s.clock_hz, second * s.clock_hz);
    lemma_carry(s.timer_credit + first * 60, second * 60);
}

/// Carrying the remainder of `a` over to `b` loses nothing.
proof fn lemma_carry(a: int, b: int)
    requires
        0 <= a,
        0 <= b,
    ensures
        a / 1_000_000 + (a % 1_000_000 + b) / 1_000_000 == (a + b) / 1_000_000,
        (a % 1_000_000 + b) % 1_000_000 == (a + b) % 1_000_000,
{
}

/// Over a whole number of seconds, starting with no credit, exactly
/// `clock_hz` instructions and 60 timer ticks fall due per second, and no
/// credit is left.
pub proof fn lemma_whole_seconds(s: PacerState, seconds: int)
    requires
        s.valid(),
        s.cycle_credit == 0,
        s.timer_credit == 0,
        0 <= seconds,
    ensures
        cycles_due(s, seconds * 1_000_000) == seconds * s.clock_hz,
        ticks_due(s, seconds * 1_000_000) == seconds * 60,
        cycles_due(s, seconds * 1_000_000) * 60 == ticks_due(s, seconds * 1_000_000) * s.clock_hz,
        paced(s, seconds * 1_000_000) == s,
{
    let n = seconds * s.clock_hz;
    assert(seconds * 1_000_000 * s.clock_hz == n * 1_000_000) by (nonlinear_arith)
        requires
            n == seconds * s.clock_hz,
    ;
    assert(n * 60 == seconds * 60 * s.clock_hz) by (nonlinear_arith)
        requires
            n == seconds * s.clock_hz,
    ;
}

pub struct Pacer {
    clock_hz: u32,
    cycle_credit: u64,
    timer_credit: u64,
}

impl View for Pacer {
    type V = PacerState;

    closed spec fn view(&self) -> PacerState {
        PacerState {
            clock_hz: self.clock_hz as int,
            cycle_credit: self.cycle_credit as int,
            timer_credit: self.timer_credit as int,
        }
    }
}

impl Pacer {
    /// Both credits are less than one whole instruction or tick.
    pub open spec fn wf(&self) -> bool {
        self@.valid()
    }

    /// A pacer with no credit that runs `clock_hz` instructions per second.
    pub fn new(clock_hz: u32) -> (pacer: Self)
        ensures
            pacer.wf(),
            pacer@ == (PacerState { clock_hz: clock_hz as int, cycle_credit: 0, timer_credit: 0 }),
    {
        Pacer { clock_hz, cycle_credit: 0, timer_credit: 0 }
    }

    /// Sets the clock speed, in instructions per second. The credits stay.
    pub fn set_clock(&mut self, hz: u32)
        requires
            old(self).wf(),
        ensures
            final(self).wf(),
            final(self)@ == (PacerState { clock_hz: hz as int, ..old(self)@ }),
    {
        self.clock_hz = hz;
    }

    /// The clock speed, in instructions per second.
    pub fn clock(&self) -> (hz: u32)
        ensures
            hz == self@.clock_hz,
    {
        self.clock_hz
    }

    /// Accounts for `elapsed_micros` microseconds and returns the
    /// instructions and timer ticks that fell due in them.
    pub fn advance(&mut self, elapsed_micros: u32) -> (due: Due)
        requires
            old(self).wf(),
        ensures
            final(self).wf(),
            due.instructions == cycles_due(old(self)@, elapsed_micros as int),
            due.timer_ticks == ticks_due(old(self)@, elapsed_micros as int),
            final(self)@ == paced(old(self)@, elapsed_micros as int),
    {
        assert(0 <= elapsed_micros * self.clock_hz <= 0xFFFF_FFFF * 0xFFFF_FFFF)
            by (nonlinear_arith)
            requires
                0 <= elapsed_micros <= 0xFFFF_FFFF,
                0 <= self.clock_hz <= 0xFFFF_FFFF,
        ;
        let cycles: u64 = self.cycle_credit + elapsed_micros as u64 * self.clock_hz as u64;
        let ticks: u64 = self.timer_credit + elapsed_micros as u64 * 60;
        self.cycle_credit = cycles % 1_000_000;
        self.timer_credit = ticks % 1_000_000;
        Due { instructions: cycles / 1_000_000, timer_ticks: ticks / 1_000_000 }
    }
}

} // verus!

//! Busy-wait timing on a free-running cycle counter.
//!
//! The counter has thirty-two bits and wraps around. A wait is measured from
//! the counter value at which it began, so that a wrap in the middle of a wait
//! does not shorten or lengthen it.

use vstd::prelude::*;

verus! {

/// Cycles for which the driver spins after one round of ticking the voices.
pub const ACTIVE_SPIN_CYCLES: u32 = 870;

/// Cycles for which the driver spins in one round while no voice sounds.
pub const IDLE_SPIN_CYCLES: u32 = 290;

/// Cycles between two polls of the rotary knob.
pub const KNOB_POLL_CYCLES: u32 = 1700;

/// What one round of spinning takes off the waiting budget while voices sound.
pub const ACTIVE_BUDGET_STEP: i64 = 100;

/// What one round of spinning takes off the waiting budget while all is silent.
pub const IDLE_BUDGET_STEP: i64 = 25;

/// How many units of waiting budget stand for one microsecond of music.
///
/// A round of the busy-wait loop takes longer than the microseconds it is
/// meant to stand for, and by how much depends on the clock and the board.
/// The ratio is a property of the hardware, not of the music: change it to
/// tune a board, and leave the musical arithmetic alone.
#[derive(Debug, Clone, Copy, PartialEq, Eq, Structural)]
pub struct Calibration {
    pub numer: u32,
    pub denom: u32,
}

impl Calibration {
    /// The ratio has a divisor.
    pub open spec fn wf(self) -> bool {
        self.denom > 0
    }

    /// The waiting budget for `micros` microseconds of music: scaled by the
    /// ratio, rounded down, and cut off at the top of its range.
    pub open spec fn budget(self, micros: int) -> int {
        let scaled = micros * self.numer / (self.denom as int);
        if scaled > i64::MAX {
            i64::MAX as int
        } else {
            scaled
        }
    }

    /// The ratio `numer / denom`, or nothing where `denom` is zero.
    pub fn new(numer: u32, denom: u32) -> (made: Option<Self>)
        ensures
            denom == 0 ==> made is None,
            denom > 0 ==> made == Some(Calibration { numer, denom }),
    {
        if denom == 0 {
            None
        } else {
            Some(Calibration { numer, denom })
        }
    }

    /// The ratio that the reference board was tuned to: fifteen to one.
    pub fn reference() -> (ratio: Self)
        ensures
            ratio == (Calibration { numer: 15, denom: 1 }),
            ratio.wf(),
    {
        Calibration { numer: 15, denom: 1 }
    }

    /// The waiting budget for `micros` microseconds of music.
    pub fn wait_budget(&self, micros: u64) -> (budget: i64)
        requires
            self.wf(),
        ensures
            budget == self.budget(micros as int),
            budget >= 0,
    {
        assert(0 <= micros * self.numer <= 0xffff_ffff_ffff_ffff * 0xffff_ffff) by (nonlinear_arith)
            requires
                0 <= micros <= 0xffff_ffff_ffff_ffff,
                0 <= self.numer <= 0xffff_ffff,
        ;
        let product: u128 = micros as u128 * self.numer as u128;
        let scaled: u128 = product / self.denom as u128;
        if scaled > i64::MAX as u128 {
            i64::MAX
        } else {
            scaled as i64
        }
    }
}

/// Cycles that passed between two readings of the wrapping counter.
pub open spec fn elapsed_cycles(start: u32, now: u32) -> int {
    if now >= start {
        now - start
    } else {
        now - start + 0x1_0000_0000
    }
}

/// Whether a wait of `cycles` that began at counter value `start` still has
/// to go on when the counter reads `now`.
///
/// The driver reads the counter once before the wait and then once per
/// round, and spins for as long as this returns `true`.
pub fn delay_cycles(start: u32, now: u32, cycles: u32) -> (waiting: bool)
    ensures
        waiting == (elapsed_cycles(start, now) < cycles),
{
    now.wrapping_sub(start) < cycles
}

/// A wait of no cycles is over at once, and a wait is over exactly when the
/// counter has advanced by the cycles asked for.
pub proof fn lemma_delay_ends(start: u32, cycles: u32, advance: u32)
    ensures
        elapsed_cycles(start, start) == 0,
        elapsed_cycles(start, ((start + advance) % 0x1_0000_0000) as u32) == advance,
{
}

} // verus!

//! The rotary knob and the eight-bit setting it drives.
//!
//! The knob is a quadrature encoder: two lines, `clk` and `dt`, that change
//! one after the other. Turning it walks the pair of levels around a cycle of
//! four phases; the direction of the walk is the direction of the turn.

use vstd::prelude::*;

verus! {

/// By how much one detent of the knob changes the setting.
pub const SETTING_STEP: u8 = 10;

/// By how many microseconds one detent of the knob changes a period.
pub const PERIOD_STEP: i16 = 20;

/// A turn of the knob by one phase.
#[derive(Debug, Clone, Copy, PartialEq, Eq, Structural)]
pub enum Rotation {
    Left,
    Right,
}

/// Where a pair of line levels stands in the cycle that a left turn walks:
/// both high, `dt` low, both low, `clk` low.
pub open spec fn quadrature_phase(clk: bool, dt: bool) -> int {
    if clk && dt {
        0
    } else if clk {
        1
    } else if !dt {
        2
    } else {
        3
    }
}

/// The turn that leads from one pair of levels to the next: one phase forward
/// is a left turn, one phase back a right turn, anything else no turn.
pub open spec fn rotation_between(last_clk: bool, last_dt: bool, clk: bool, dt: bool) -> Option<
    Rotation,
> {
    let from = quadrature_phase(last_clk, last_dt);
    let to = quadrature_phase(clk, dt);
    if to == (from + 1) % 4 {
        Some(Rotation::Left)
    } else if to == (from + 3) % 4 {
        Some(Rotation::Right)
    } else {
        None
    }
}

/// Decodes one step of the knob from the previous and the current levels of
/// its two lines.
pub fn get_knob_rotation(last_clk: bool, last_dt: bool, current_clk: bool, current_dt: bool) -> (turn:
    Option<Rotation>)
    ensures
        turn == rotation_between(last_clk, last_dt, current_clk, current_dt),
{
    match (last_clk, last_dt) {
        (true, true) => match (current_clk, current_dt) {
            (true, false) => Some(Rotation::Left),
            (false, true) => Some(Rotation::Right),
            (_, _) => None,
        },
        (false, false) => match (current_clk, current_dt) {
            (false, true) => Some(Rotation::Left),
            (true, false) => Some(Rotation::Right),
            (_, _) => None,
        },
        (true, false) => match (current_clk, current_dt) {
            (false, false) => Some(Rotation::Left),
            (true, true) => Some(Rotation::Right),
            (_, _) => None,
        },
        (false, true) => match (current_clk, current_dt) {
            (true, true) => Some(Rotation::Left),
            (false, false) => Some(Rotation::Right),
            (_, _) => None,
        },
    }
}

/// Levels that do not change, or that change both at once, are no turn; and
/// undoing a step is a turn the other way.
pub proof fn lemma_knob_steps(last_clk: bool, last_dt: bool, clk: bool, dt: bool)
    ensures
        rotation_between(clk, dt, clk, dt) is None,
        rotation_between(clk, dt, !clk, !dt) is None,
        rotation_between(last_clk, last_dt, clk, dt) == Some(Rotation::Left) <==> rotation_between(
            clk,
            dt,
            last_clk,
            last_dt,
        ) == Some(Rotation::Right),
{
}

/// An analog output level between 0 and 255.
#[derive(Debug)]
pub struct Analog8 {
    pub value: u8,
}

impl Analog8 {
    /// A level of zero.
    pub fn new() -> (level: Self)
        ensures
            level.value == 0,
    {
        Analog8 { value: 0 }
    }

    /// Raises the level by one step, stopping at 255.
    pub fn inc(&mut self)
        ensures
            final(self).value == if old(self).value + SETTING_STEP > 255 {
                255
            } else {
                old(self).value + SETTING_STEP
            },
    {
        self.value = self.value.saturating_add(SETTING_STEP);
    }

    /// Lowers the level by one step, stopping at 0.
    pub fn dec(&mut self)
        ensures
            final(self).value == if old(self).value < SETTING_STEP {
                0
            } else {
                old(self).value - SETTING_STEP
            },
    {
        self.value = self.value.saturating_sub(SETTING_STEP);
    }
}

impl Default for Analog8 {
    fn default() -> (level: Self)
        ensures
            level.value == 0,
    {
        Analog8 { value: 0 }
    }
}

} // verus!

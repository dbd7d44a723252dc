//! One buzzer voice and its square-wave timing.
//!
//! A voice counts the microseconds since it last changed its output level.
//! Once the count exceeds the configured period it flips the level and starts
//! counting again, which gives a square wave with a duty cycle of about one
//! half. A voice also counts down its remaining lifetime, by a fixed amount
//! per tick; a note without a set duration starts from the top of the range,
//! which no song lives to see run out.
//!
//! A voice does not touch the hardware. Each tick tells the caller which
//! output line to raise or lower, as a bit mask for a set register or for a
//! clear register, so that the write itself stays a single store.

use vstd::prelude::*;
use crate::sound_profiles::SoundProfile;
use crate::sound_profiles::MAX_KEY;

verus! {

/// Microseconds that one tick adds to the count of a voice.
pub const TICK_MICROS: u16 = 20;

/// By how much one tick shortens the remaining lifetime of a voice.
pub const LIFETIME_STEP: i32 = 5;

/// The lifetime that a note without a duration starts from.
pub const INDEFINITE: i32 = 0x7fff_ffff;

/// The period of a voice that has not played a note yet.
pub const DEFAULT_PERIOD: u16 = 4000;

/// The shortest period the knob can set.
pub const MIN_PERIOD: u16 = 100;

/// The longest period the knob can set.
pub const MAX_PERIOD: u16 = 20000;

/// The highest output line that the set and clear registers reach.
pub const MAX_PIN: u32 = 31;

/// What a tick asks the caller to do with the output line of a voice.
#[derive(Debug, Clone, Copy, PartialEq, Eq, Structural)]
pub enum PinAction {
    /// Leave the line as it is.
    Hold,
    /// Write the mask to the set register: the line goes high.
    SetHigh { mask: u32 },
    /// Write the mask to the clear register: the line goes low.
    SetLow { mask: u32 },
}

/// A square-wave oscillator on one output line.
#[derive(Debug, Clone, Copy, PartialEq, Eq, Structural)]
pub struct SoundBuzzer {
    /// Microseconds between two changes of the output level.
    pub period_micros: u16,
    /// Remaining lifetime; `INDEFINITE` for a note without a duration.
    pub max_period: i32,
    /// Microseconds since the output level last changed.
    pub current_micros: u16,
    /// The output level: `true` is high.
    pub pin_state: bool,
    /// The bit of the output line in the set and clear registers.
    pub pin_mask: u32,
}

impl SoundBuzzer {
    /// A voice on output line `pin_num` that has not played yet.
    pub open spec fn fresh(pin_num: u32) -> SoundBuzzer {
        SoundBuzzer {
            period_micros: DEFAULT_PERIOD,
            max_period: INDEFINITE,
            current_micros: 0,
            pin_state: false,
            pin_mask: 1u32 << pin_num,
        }
    }

    /// The lifetime has run out: the voice is silent and waits to be reclaimed.
    pub open spec fn is_expiring(self) -> bool {
        self.max_period <= 0
    }

    /// The lifetime has fallen below zero: a sweep reclaims the voice.
    pub open spec fn is_expired(self) -> bool {
        self.max_period < 0
    }

    /// The count of microseconds after one more tick; it stops at the top of
    /// its range.
    pub open spec fn elapsed_after_tick(self) -> int {
        if self.current_micros + TICK_MICROS > u16::MAX {
            u16::MAX as int
        } else {
            self.current_micros + TICK_MICROS
        }
    }

    /// Whether the next tick flips the output level.
    pub open spec fn toggles(self) -> bool {
        self.max_period > 0 && self.elapsed_after_tick() > self.period_micros
    }

    /// The lifetime after one more tick: it goes down by one step and stops
    /// at the bottom of its range.
    pub open spec fn lifetime_after_tick(self) -> int {
        if self.max_period - LIFETIME_STEP < i32::MIN {
            i32::MIN as int
        } else {
            self.max_period - LIFETIME_STEP
        }
    }

    /// The voice after one tick.
    pub open spec fn ticked(self) -> SoundBuzzer {
        SoundBuzzer {
            period_micros: self.period_micros,
            max_period: self.lifetime_after_tick() as i32,
            current_micros: if self.toggles() {
                0
            } else {
                self.elapsed_after_tick() as u16
            },
            pin_state: if self.toggles() {
                !self.pin_state
            } else {
                self.pin_state
            },
            pin_mask: self.pin_mask,
        }
    }

    /// The voice after so many ticks.
    pub open spec fn ticked_times(self, ticks: nat) -> SoundBuzzer
        decreases ticks,
    {
        if ticks == 0 {
            self
        } else {
            self.ticked_times((ticks - 1) as nat).ticked()
        }
    }

    /// What one tick does to the output line.
    pub open spec fn tick_action(self) -> PinAction {
        if !self.toggles() {
            PinAction::Hold
        } else if self.pin_state {
            PinAction::SetLow { mask: self.pin_mask }
        } else {
            PinAction::SetHigh { mask: self.pin_mask }
        }
    }

    /// The voice after its note was released.
    pub open spec fn released(self) -> SoundBuzzer {
        SoundBuzzer { current_micros: 0, max_period: INDEFINITE, ..self }
    }

    /// The voice after it was given `key` to play with `profile`.
    pub open spec fn playing(self, profile: SoundProfile, key: u8) -> SoundBuzzer {
        SoundBuzzer {
            period_micros: profile.period_at(key as int) as u16,
            max_period: match profile.duration {
                Some(lifetime) => lifetime,
                None => INDEFINITE,
            },
            current_micros: 0,
            ..self
        }
    }

    /// The period after the knob moved it by `delta`, kept within its limits.
    pub open spec fn adjusted_period(self, delta: i16) -> int {
        if self.period_micros + delta < MIN_PERIOD {
            MIN_PERIOD as int
        } else if self.period_micros + delta > MAX_PERIOD {
            MAX_PERIOD as int
        } else {
            self.period_micros + delta
        }
    }

    /// A voice for output line `pin_num`, silent and low.
    pub fn new(pin_num: u32) -> (voice: Self)
        requires
            pin_num <= MAX_PIN,
        ensures
            voice == Self::fresh(pin_num),
    {
        SoundBuzzer {
            period_micros: DEFAULT_PERIOD,
            max_period: INDEFINITE,
            current_micros: 0,
            pin_state: false,
            pin_mask: 1u32 << pin_num,
        }
    }

    /// Forgets the note: the count starts over and the lifetime is unset. The
    /// output level stays as it is.
    pub fn reset(&mut self)
        ensures
            *final(self) == old(self).released(),
    {
        self.current_micros = 0;
        self.max_period = INDEFINITE;
    }

    /// Takes a note: the period follows from the profile and the key, the
    /// lifetime from the profile, and the count starts over.
    pub fn play_note(&mut self, sound_profile: &SoundProfile, key: u8)
        requires
            sound_profile.wf(),
            key <= MAX_KEY,
        ensures
            *final(self) == old(self).playing(*sound_profile, key),
    {
        self.period_micros = sound_profile.period_for(key);
        self.max_period = match sound_profile.duration {
            Some(lifetime) => lifetime,
            None => INDEFINITE,
        };
        self.current_micros = 0;
    }

    /// Advances the voice by one tick and says what to do with its line.
    pub fn update(&mut self) -> (action: PinAction)
        ensures
            *final(self) == old(self).ticked(),
            action == old(self).tick_action(),
    {
        self.current_micros = self.current_micros.saturating_add(TICK_MICROS);
        let mut action = PinAction::Hold;
        if self.max_period > 0 && self.current_micros > self.period_micros {
            action = if self.pin_state {
                PinAction::SetLow { mask: self.pin_mask }
            } else {
                PinAction::SetHigh { mask: self.pin_mask }
            };
            self.pin_state = !self.pin_state;
            self.current_micros = 0;
        }
        self.max_period = if self.max_period < i32::MIN + LIFETIME_STEP {
            i32::MIN
        } else {
            self.max_period - LIFETIME_STEP
        };
        action
    }

    /// Moves the period by `delta` microseconds, keeps it within its limits
    /// and returns the frequency that results, in hertz.
    pub fn adjust_period(&mut self, delta: i16) -> (hertz: u32)
        ensures
            final(self).period_micros == old(self).adjusted_period(delta),
            final(self).max_period == old(self).max_period,
            final(self).current_micros == old(self).current_micros,
            final(self).pin_state == old(self).pin_state,
            final(self).pin_mask == old(self).pin_mask,
            hertz == 1_000_000int / old(self).adjusted_period(delta),
    {
        let moved: i32 = self.period_micros as i32 + delta as i32;
        let kept: i32 = if moved < MIN_PERIOD as i32 {
            MIN_PERIOD as i32
        } else if moved > MAX_PERIOD as i32 {
            MAX_PERIOD as i32
        } else {
            moved
        };
        self.period_micros = kept as u16;
        1_000_000 / (kept as u32)
    }
}

/// A note without a duration outlasts any song: its lifetime starts at the
/// top of the range and goes down by one step per tick like any other, so
/// it takes more than four hundred million ticks to run out.
pub proof fn lemma_indefinite_never_expires(voice: SoundBuzzer, ticks: nat)
    requires
        voice.max_period == INDEFINITE,
        ticks <= 429_496_729,
    ensures
        voice.ticked_times(ticks).max_period == INDEFINITE - LIFETIME_STEP * ticks,
        !voice.ticked_times(ticks).is_expiring(),
    decreases ticks,
{
    if ticks > 0 {
        lemma_indefinite_never_expires(voice, (ticks - 1) as nat);
    }
}

/// A voice whose lifetime has run out stays silent: its line is left alone
/// and its lifetime does not come back.
pub proof fn lemma_expiring_stays_silent(voice: SoundBuzzer)
    requires
        voice.is_expiring(),
    ensures
        voice.tick_action() == PinAction::Hold,
        voice.ticked().pin_state == voice.pin_state,
        voice.ticked().is_expiring(),
{
}

/// A flip of the level restarts the count and asks for the write that brings
/// the line to the new level; without a flip nothing is written.
pub proof fn lemma_toggle_alternates(voice: SoundBuzzer)
    ensures
        voice.toggles() ==> voice.ticked().pin_state == !voice.pin_state
            && voice.ticked().current_micros == 0,
        voice.toggles() && voice.ticked().pin_state ==> voice.tick_action() == (PinAction::SetHigh {
            mask: voice.pin_mask,
        }),
        voice.toggles() && !voice.ticked().pin_state ==> voice.tick_action() == (PinAction::SetLow {
            mask: voice.pin_mask,
        }),
        !voice.toggles() ==> voice.tick_action() == PinAction::Hold && voice.ticked().pin_state
            == voice.pin_state,
{
}

} // verus!

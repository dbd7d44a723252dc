//! Instrument sound profiles.
//!
//! A profile turns a MIDI key number into the period of a square wave. The
//! pitch law is linear on purpose: one subtraction and one multiplication on
//! integers, no table of frequencies and no floating point. It is an
//! approximation of equal temperament that is good enough for a buzzer.

use vstd::prelude::*;

verus! {

/// The key at which a profile sounds exactly its base period.
pub const CENTER_KEY: u8 = 64;

/// The highest MIDI key number.
pub const MAX_KEY: u8 = 127;

/// The number of General MIDI programs.
pub const PROGRAM_COUNT: usize = 128;

/// How one instrument sounds on a buzzer.
#[derive(Debug, Clone, Copy, PartialEq, Eq)]
pub struct SoundProfile {
    /// Period at the center key, in microseconds.
    pub wait_time: u16,
    /// How long a note lasts; `None` lets it sound until it is released.
    pub duration: Option<i32>,
    /// By how much the period shrinks for each key above the center key.
    pub wait_change_per_key: u16,
}

/// Base periods of the General MIDI programs, by program number.
pub const BASE_PERIODS: [u16; 128] = [
    4700, 4700, 4100, 3600, 4700, 3400, 3000, 4700,
    2600, 2400, 5000, 3300, 2400, 5700, 3200, 3800,
    5100, 5600, 5300, 4500, 4000, 4400, 3800, 3600,
    4400, 3600, 4400, 3500, 4700, 4400, 4300, 3100,
    5500, 5800, 5100, 4500, 4200, 3800, 3400, 4100,
    3600, 4100, 3800, 3600, 4600, 5100, 4800, 4000,
    4000, 4000, 4000, 4000, 4700, 4700, 4500, 3900,
    4600, 4400, 5200, 3400, 3600, 4400, 4000, 4500,
    4900, 4600, 4800, 4300, 5200, 5400, 5200, 5000,
    5900, 5700, 5500, 6100, 6100, 5200, 6100, 6100,
    4200, 3800, 5500, 4200, 3400, 5500, 5200, 3600,
    3800, 5400, 3800, 5400, 5400, 5000, 5400, 5500,
    5500, 4400, 4700, 4600, 5500, 5300, 4600, 3300,
    3400, 4200, 5500, 3400, 5200, 4000, 4400, 4000,
    4200, 3500, 3800, 6700, 6000, 7000, 7000, 8000,
    4500, 4100, 3800, 3200, 3400, 3800, 7000, 6500,
];

/// Period change per key of the General MIDI programs, by program number:
/// 1.3 percent of the base period, as single-precision arithmetic rounds it.
pub const SEMITONE_STEPS: [u16; 128] = [
    61, 61, 53, 46, 61, 44, 38, 61,
    33, 31, 65, 42, 31, 74, 41, 49,
    66, 72, 68, 58, 52, 57, 49, 46,
    57, 46, 57, 45, 61, 57, 55, 40,
    71, 75, 66, 58, 54, 49, 44, 53,
    46, 53, 49, 46, 59, 66, 62, 52,
    52, 52, 52, 52, 61, 61, 58, 50,
    59, 57, 67, 44, 46, 57, 52, 58,
    63, 59, 62, 55, 67, 70, 67, 65,
    76, 74, 71, 79, 79, 67, 79, 79,
    54, 49, 71, 54, 44, 71, 67, 46,
    49, 70, 49, 70, 70, 65, 70, 71,
    71, 57, 61, 59, 71, 68, 59, 42,
    44, 54, 71, 44, 67, 52, 57, 52,
    54, 45, 49, 87, 77, 91, 91, 104,
    58, 53, 49, 41, 44, 49, 91, 84,
];

impl SoundProfile {
    /// The pitch law: the period shrinks linearly as the key rises.
    pub open spec fn period_at(self, key: int) -> int {
        self.wait_time - self.wait_change_per_key * (key - 64)
    }

    /// The pitch law stays within sixteen bits over the whole MIDI key range.
    pub open spec fn wf(self) -> bool {
        &&& self.wait_time >= 63 * self.wait_change_per_key
        &&& self.wait_time + 64 * self.wait_change_per_key <= u16::MAX
    }

    /// Builds a profile from its three parts.
    pub fn new(wait_time: u16, duration: Option<i32>, wait_change_per_key: u16) -> (profile: Self)
        ensures
            profile.wait_time == wait_time,
            profile.duration == duration,
            profile.wait_change_per_key == wait_change_per_key,
    {
        SoundProfile { wait_time, duration, wait_change_per_key }
    }

    /// Whether the pitch law of this profile fits a period for every key.
    pub fn is_playable(&self) -> (ok: bool)
        ensures
            ok == self.wf(),
    {
        let step: u32 = self.wait_change_per_key as u32;
        let base: u32 = self.wait_time as u32;
        base >= 63 * step && base + 64 * step <= 65535
    }

    /// The period, in microseconds, at which `key` sounds.
    pub fn period_for(&self, key: u8) -> (period: u16)
        requires
            self.wf(),
            key <= MAX_KEY,
        ensures
            period == self.period_at(key as int),
    {
        let offset: i32 = key as i32 - 64;
        let step: i32 = self.wait_change_per_key as i32;
        proof {
            lemma_shift_bounds(step as int, offset as int);
        }
        let shift: i32 = step * offset;
        let period: i32 = self.wait_time as i32 - shift;
        period as u16
    }
}

proof fn lemma_shift_bounds(step: int, offset: int)
    by (nonlinear_arith)
    requires
        0 <= step <= 65535,
        -64 <= offset <= 63,
    ensures
        -64 * step <= step * offset <= 63 * step,
{
}

/// A valid profile yields a sixteen-bit period for every MIDI key.
pub proof fn lemma_valid_profile_fits(profile: SoundProfile, key: int)
    requires
        profile.wf(),
        0 <= key <= 127,
    ensures
        0 <= profile.period_at(key) <= u16::MAX,
{
    lemma_shift_bounds(profile.wait_change_per_key as int, key - 64);
}

/// At the center key a profile sounds its base period, and twelve keys
/// higher a shorter one, provided the profile changes with the key at all.
pub proof fn lemma_pitch_law(profile: SoundProfile)
    ensures
        profile.period_at(64) == profile.wait_time,
        profile.wait_change_per_key > 0 ==> profile.period_at(76) < profile.wait_time,
{
}

/// A higher key never sounds a longer period, and sounds a strictly shorter
/// one when the profile changes with the key.
pub proof fn lemma_higher_key_shorter_period(profile: SoundProfile, low: int, high: int)
    requires
        low < high,
    ensures
        profile.period_at(high) <= profile.period_at(low),
        profile.wait_change_per_key > 0 ==> profile.period_at(high) < profile.period_at(low),
{
    let step = profile.wait_change_per_key as int;
    assert(step * (high - 64) - step * (low - 64) == step * (high - low)) by (nonlinear_arith);
    assert(step * (high - low) >= 0) by (nonlinear_arith)
        requires
            step >= 0,
            high - low > 0,
    ;
    assert(step > 0 ==> step * (high - low) > 0) by (nonlinear_arith)
        requires
            high - low > 0,
    ;
}

/// The profile of a General MIDI program.
pub open spec fn instrument(program: int) -> SoundProfile {
    SoundProfile {
        wait_time: BASE_PERIODS[program],
        duration: None,
        wait_change_per_key: SEMITONE_STEPS[program],
    }
}

/// The profile every channel starts with, before any program change.
pub open spec fn baseline() -> SoundProfile {
    SoundProfile { wait_time: 3800, duration: None, wait_change_per_key: 50 }
}

/// Every program of the table has a valid profile.
pub proof fn lemma_instruments_valid(program: int)
    requires
        0 <= program < 128,
    ensures
        instrument(program).wf(),
{
}

/// Looks up the profile of a General MIDI program.
pub fn profile_for(program: u8) -> (profile: SoundProfile)
    requires
        program < 128,
    ensures
        profile == instrument(program as int),
        profile.wf(),
{
    SoundProfile {
        wait_time: BASE_PERIODS[program as usize],
        duration: None,
        wait_change_per_key: SEMITONE_STEPS[program as usize],
    }
}

/// The profile a channel plays with until a program change selects another.
pub fn baseline_profile() -> (profile: SoundProfile)
    ensures
        profile == baseline(),
        profile.wf(),
{
    SoundProfile { wait_time: 3800, duration: None, wait_change_per_key: 50 }
}

} // verus!

//! What is known about the song as a whole: its time base, tempo, time
//! signature and key.
//!
//! The time base is fixed by the header of the file. Everything else starts
//! from the MIDI defaults and is replaced, without any smoothing, whenever a
//! meta event says so. A conversion from ticks to microseconds always reads
//! the tempo as it stands at that moment.

use vstd::prelude::*;
use crate::event::Timing;

verus! {

/// The tempo of a song that sets none: 120 quarter notes per minute.
pub const DEFAULT_TEMPO: u32 = 500_000;

/// Beats per minute at the default tempo.
pub const DEFAULT_BPM: u16 = 120;

/// Microseconds in a minute.
pub const MICROS_PER_MIN: u32 = 60_000_000;

/// Why a header cannot be played.
#[derive(Debug, Clone, Copy, PartialEq, Eq, Structural)]
pub enum TimingError {
    /// The header measures time by a time code, which is not supported.
    Timecode,
    /// The header claims zero ticks to a quarter note.
    ZeroTicks,
}

/// The time base and the musical settings of a song.
#[derive(Debug, Clone, Copy, PartialEq, Eq)]
pub struct SongMetaData {
    /// Ticks to a quarter note; never zero.
    pub ticks_per_quarter: u16,
    /// Microseconds to a quarter note.
    pub tempo: u32,
    /// Quarter notes per minute, as last refreshed.
    pub bpm: u16,
    /// Beats per measure, the denominator as a power of two, MIDI clocks per
    /// metronome click, and notated 32nd notes per quarter note.
    pub time_signature: [u8; 4],
    /// Flats (negative) or sharps (positive), and whether the key is minor.
    pub key: (i8, bool),
}

impl SongMetaData {
    /// The time base is usable as a divisor.
    pub open spec fn wf(self) -> bool {
        self.ticks_per_quarter > 0
    }

    /// The settings of a song before any meta event.
    pub open spec fn initial(self, ticks_per_quarter: u16) -> bool {
        &&& self.ticks_per_quarter == ticks_per_quarter
        &&& self.tempo == DEFAULT_TEMPO
        &&& self.bpm == DEFAULT_BPM
        &&& self.time_signature@ == seq![4u8, 4u8, 24u8, 8u8]
        &&& self.key == (0i8, false)
    }

    /// What `new` answers for a header's way of measuring time.
    pub open spec fn accepts(timing: Timing) -> Result<u16, TimingError> {
        match timing {
            Timing::Timecode => Err(TimingError::Timecode),
            Timing::Metrical(ticks) => if ticks == 0 {
                Err(TimingError::ZeroTicks)
            } else {
                Ok(ticks)
            },
        }
    }

    /// How long `delta_ticks` last at the current tempo, in microseconds.
    pub open spec fn micros_for(self, delta_ticks: int) -> int {
        delta_ticks * self.tempo / (self.ticks_per_quarter as int)
    }

    /// Quarter notes per minute at `tempo`, cut to sixteen bits.
    pub open spec fn bpm_at(tempo: u32) -> int {
        (MICROS_PER_MIN as int / tempo as int) % 0x1_0000
    }

    /// The settings a song starts with, given how its header measures time.
    pub fn new(timing: Timing) -> (made: Result<Self, TimingError>)
        ensures
            match made {
                Ok(meta) => Self::accepts(timing) is Ok && meta.initial(Self::accepts(timing)->Ok_0)
                    && meta.wf(),
                Err(error) => Self::accepts(timing) is Err && Self::accepts(timing)->Err_0 == error,
            },
    {
        match timing {
            Timing::Timecode => Err(TimingError::Timecode),
            Timing::Metrical(ticks) => {
                if ticks == 0 {
                    Err(TimingError::ZeroTicks)
                } else {
                    Ok(
                        SongMetaData {
                            ticks_per_quarter: ticks,
                            tempo: DEFAULT_TEMPO,
                            bpm: DEFAULT_BPM,
                            time_signature: [4, 4, 24, 8],
                            key: (0, false),
                        },
                    )
                }
            },
        }
    }

    /// Recomputes the beats per minute for `tempo`.
    pub fn refresh_bpm(&mut self, tempo: u32)
        requires
            tempo > 0,
        ensures
            final(self).bpm == Self::bpm_at(tempo),
            final(self).ticks_per_quarter == old(self).ticks_per_quarter,
            final(self).tempo == old(self).tempo,
            final(self).time_signature == old(self).time_signature,
            final(self).key == old(self).key,
    {
        let per_minute: u32 = MICROS_PER_MIN / tempo;
        assert((per_minute as u16) == per_minute % 0x1_0000) by (bit_vector);
        self.bpm = #[verifier::truncate] (per_minute as u16);
    }

    /// Replaces the tempo.
    pub fn set_tempo(&mut self, tempo: u32)
        ensures
            final(self).tempo == tempo,
            final(self).ticks_per_quarter == old(self).ticks_per_quarter,
            final(self).bpm == old(self).bpm,
            final(self).time_signature == old(self).time_signature,
            final(self).key == old(self).key,
    {
        self.tempo = tempo;
    }
}

/// At the default tempo there are 120 beats to the minute, and a faster tempo
/// never has fewer beats than a slower one.
pub proof fn lemma_bpm(faster: u32, slower: u32)
    requires
        0 < faster <= slower,
        MICROS_PER_MIN / faster < 0x1_0000,
    ensures
        SongMetaData::bpm_at(DEFAULT_TEMPO) == DEFAULT_BPM,
        SongMetaData::bpm_at(slower) <= SongMetaData::bpm_at(faster),
{
    assert(60_000_000int / (slower as int) <= 60_000_000int / (faster as int)) by (nonlinear_arith)
        requires
            0 < faster <= slower,
    ;
    assert(60_000_000int / (slower as int) >= 0) by (nonlinear_arith)
        requires
            0 < slower,
    ;
}

} // verus!

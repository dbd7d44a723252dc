//! The events of a MIDI track, as far as the player reads them.

use vstd::prelude::*;

verus! {

/// The number of MIDI channels.
pub const CHANNEL_COUNT: u8 = 16;

/// One more than the highest key, program and data byte that MIDI can carry.
pub const DATA_LIMIT: u8 = 128;

/// One more than the highest tempo that a tempo event can carry.
pub const TEMPO_LIMIT: u32 = 0x100_0000;

/// What an event of a track asks for.
///
/// Only notes, program changes and the three meta events that describe the
/// song change anything. The other kinds are told apart so that a caller can
/// report them; the player accepts and ignores them.
#[derive(Debug, Clone, Copy, PartialEq, Eq, Structural)]
pub enum EventKind {
    /// Stop the note `key` on `channel`.
    NoteOff { channel: u8, key: u8 },
    /// Start the note `key` on `channel`.
    NoteOn { channel: u8, key: u8 },
    /// Let `channel` play with the General MIDI program `program` from now on.
    ProgramChange { channel: u8, program: u8 },
    /// Pressure on a single key.
    Aftertouch,
    /// A controller was moved.
    Controller,
    /// Pressure on a whole channel.
    ChannelAftertouch,
    /// The pitch wheel was moved.
    PitchBend,
    /// A quarter note lasts this many microseconds from now on.
    Tempo(u32),
    /// Beats per measure, the denominator as a power of two, MIDI clocks per
    /// metronome click, and notated 32nd notes per quarter note.
    TimeSignature(u8, u8, u8, u8),
    /// Flats (negative) or sharps (positive), and whether the key is minor.
    KeySignature(i8, bool),
    /// The track has no further events.
    EndOfTrack,
    /// Any other meta event: names, texts, markers and the like.
    OtherMeta,
    /// A system exclusive message or an escape sequence.
    Exclusive,
}

impl EventKind {
    /// Channels, keys, programs and tempos are within what MIDI can encode.
    pub open spec fn wf(self) -> bool {
        match self {
            EventKind::NoteOff { channel, key } => channel < CHANNEL_COUNT && key < DATA_LIMIT,
            EventKind::NoteOn { channel, key } => channel < CHANNEL_COUNT && key < DATA_LIMIT,
            EventKind::ProgramChange { channel, program } => channel < CHANNEL_COUNT && program
                < DATA_LIMIT,
            EventKind::Tempo(micros) => micros < TEMPO_LIMIT,
            _ => true,
        }
    }

    /// Whether the event is one that MIDI can encode.
    pub fn is_valid(&self) -> (ok: bool)
        ensures
            ok == self.wf(),
    {
        match *self {
            EventKind::NoteOff { channel, key } => channel < CHANNEL_COUNT && key < DATA_LIMIT,
            EventKind::NoteOn { channel, key } => channel < CHANNEL_COUNT && key < DATA_LIMIT,
            EventKind::ProgramChange { channel, program } => channel < CHANNEL_COUNT && program
                < DATA_LIMIT,
            EventKind::Tempo(micros) => micros < TEMPO_LIMIT,
            _ => true,
        }
    }
}

/// How the header of a file measures time.
#[derive(Debug, Clone, Copy, PartialEq, Eq, Structural)]
pub enum Timing {
    /// In ticks, this many to a quarter note.
    Metrical(u16),
    /// In frames and subframes of a time code.
    Timecode,
}

} // verus!

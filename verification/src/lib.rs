//! A MIDI sequencer for square-wave buzzers.
//!
//! The crate reads a Standard MIDI File from memory, merges its tracks into
//! one timeline and plays the notes on a fixed pool of buzzer voices. It is
//! written for small boards: nothing is sorted, nothing is buffered, and all
//! arithmetic is on integers.
//!
//! The crate decides and never acts. It does not wait, write to a pin or
//! read a clock; it tells a driver what to do next. The driver is a loop of
//! a few lines around [`player::SongPlayer::play_song`].
//!
//! - [`sound_profiles`]: the instruments and the pitch law
//! - [`buzzer`]: one voice and its square wave
//! - [`pool`], [`assoc`]: the voice pool as a mathematical object
//! - [`player`]: the pool at work, and what each event does
//! - [`merge`]: the merge of the tracks, and the proof of its order
//! - [`playback`]: a song from its first step to its last
//! - [`metadata`], [`event`]: the settings of a song and its events
//! - [`midi_source`], [`containers`]: what is taken from `midly` and
//!   `heapless`, and what is assumed about it
//! - [`timer`], [`knob`]: the busy-wait, the calibration and the rotary knob

pub mod assoc;
pub mod buzzer;
pub mod containers;
pub mod event;
pub mod knob;
pub mod merge;
pub mod metadata;
pub mod midi_source;
pub mod playback;
pub mod player;
pub mod pool;
pub mod sound_profiles;
pub mod timer;

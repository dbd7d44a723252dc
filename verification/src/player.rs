//! The player: sixteen channel instruments and a pool of buzzer voices.
//!
//! A note-on takes the voice at the front of the free queue and binds it to
//! the channel and key of the note; a note-off returns it to the back of the
//! queue. While every voice is taken, further notes are dropped: the player
//! degrades to silence and never fails. Voices are owned by the player from
//! the start to the end; only their binding to notes changes.

use vstd::prelude::*;
use heapless::Deque;
use heapless::LinearMap;
use crate::assoc::lemma_position;
use crate::assoc::lemma_position_of_entry;
use crate::assoc::lemma_swap_removed;
use crate::assoc::position;
use crate::buzzer::PinAction;
use crate::buzzer::SoundBuzzer;
use crate::containers::bound;
use crate::containers::bound_entry;
use crate::containers::bound_insert;
use crate::containers::bound_len;
use crate::containers::bound_new;
use crate::containers::bound_remove;
use crate::containers::queue_len;
use crate::containers::queue_pop_front;
use crate::containers::queue_push_back;
use crate::containers::queue_voice;
use crate::containers::keys_new;
use crate::containers::keys_pop_front;
use crate::containers::keys_push_back;
use crate::containers::queued_keys;
use crate::containers::queued;
use crate::event::EventKind;
use crate::metadata::SongMetaData;
use crate::pool::expired_entries;
use crate::pool::keys_of;
use crate::pool::lemma_allocated;
use crate::pool::lemma_release_makes_room;
use crate::pool::lemma_released;
use crate::pool::lemma_reset;
use crate::pool::lemma_ticked;
use crate::pool::Binding;
use crate::pool::PlayerView;
use crate::sound_profiles::baseline;
use crate::sound_profiles::baseline_profile;
use crate::sound_profiles::instrument;
use crate::sound_profiles::lemma_instruments_valid;
use crate::sound_profiles::profile_for;
use crate::sound_profiles::SoundProfile;
use crate::sound_profiles::MAX_KEY;
use crate::timer::Calibration;

verus! {

/// A note found every voice taken.
#[derive(Debug, Clone, Copy, PartialEq, Eq, Structural)]
pub struct NoFreeVoice;

/// What the player did with an event.
#[derive(Debug, Clone, Copy, PartialEq, Eq, Structural)]
pub enum Outcome {
    /// A voice was bound to the note.
    NoteStarted,
    /// The note was dropped because every voice was taken.
    NoteDropped,
    /// The voice of the note was released.
    NoteStopped,
    /// The note to stop was not sounding.
    NoteNotSounding,
    /// The channel plays with another profile from now on.
    InstrumentChanged,
    /// The tempo, the time signature or the key of the song was replaced.
    SongChanged,
    /// A track came to its end.
    TrackEnded,
    /// The event is of a kind that the player accepts and ignores.
    Ignored,
}

/// The song settings after the event: a tempo, a time signature or a key
/// replaces the one before, and any other event changes nothing.
pub open spec fn applied(meta: SongMetaData, event: EventKind) -> SongMetaData {
    match event {
        EventKind::Tempo(micros) => SongMetaData { tempo: micros, ..meta },
        EventKind::TimeSignature(beats, denominator, clocks, notated) => SongMetaData {
            time_signature: [beats, denominator, clocks, notated],
            ..meta
        },
        EventKind::KeySignature(accidentals, minor) => SongMetaData {
            key: (accidentals, minor),
            ..meta
        },
        _ => meta,
    }
}

impl PlayerView {
    /// The pool after the event: a note-off releases the voice of its note, a
    /// note-on binds a voice with the profile of its channel unless none is
    /// free, a program change gives its channel the profile of the program,
    /// and any other event changes nothing.
    pub open spec fn dispatched(self, event: EventKind) -> PlayerView {
        match event {
            EventKind::NoteOff { channel, key } => self.released(channel, key),
            EventKind::NoteOn { channel, key } => if self.free.len() > 0 {
                self.allocated(channel, key, self.instruments[channel as int])
            } else {
                self
            },
            EventKind::ProgramChange { channel, program } => self.with_instrument(
                channel,
                instrument(program as int),
            ),
            _ => self,
        }
    }

    /// What the player reports for the event.
    pub open spec fn outcome(self, event: EventKind) -> Outcome {
        match event {
            EventKind::NoteOff { channel, key } => if self.voice_for(channel, key) is Some {
                Outcome::NoteStopped
            } else {
                Outcome::NoteNotSounding
            },
            EventKind::NoteOn { channel, key } => if self.free.len() > 0 {
                Outcome::NoteStarted
            } else {
                Outcome::NoteDropped
            },
            EventKind::ProgramChange { channel, program } => Outcome::InstrumentChanged,
            EventKind::Tempo(_) => Outcome::SongChanged,
            EventKind::TimeSignature(_, _, _, _) => Outcome::SongChanged,
            EventKind::KeySignature(_, _) => Outcome::SongChanged,
            EventKind::EndOfTrack => Outcome::TrackEnded,
            _ => Outcome::Ignored,
        }
    }
}

/// Whatever the event, carrying it out keeps the pool valid: the number of
/// voices and the output lines they own stay the same, no key is bound
/// twice, and the time base of the song is not touched.
pub proof fn lemma_dispatched(pool: PlayerView, meta: SongMetaData, event: EventKind)
    requires
        pool.wf(),
        event.wf(),
    ensures
        pool.dispatched(event).wf(),
        pool.dispatched(event).capacity() == pool.capacity(),
        pool.dispatched(event).pins() == pool.pins(),
        applied(meta, event).ticks_per_quarter == meta.ticks_per_quarter,
{
    match event {
        EventKind::NoteOff { channel, key } => {
            lemma_released(pool, channel, key);
        },
        EventKind::NoteOn { channel, key } => {
            if pool.free.len() > 0 {
                lemma_allocated(pool, channel, key, pool.instruments[channel as int]);
            }
        },
        EventKind::ProgramChange { channel, program } => {
            lemma_instruments_valid(program as int);
            let after = pool.with_instrument(channel, instrument(program as int));
            assert forall|other: int| 0 <= other < 16 implies (#[trigger] after.instruments[other]).wf() by {
                if other != channel {
                    assert(pool.instruments[other].wf());
                }
            }
        },
        _ => {},
    }
}

/// A note that finds every voice taken is dropped and changes nothing; once
/// a sounding note is released, the next note finds a voice again.
pub proof fn lemma_dropped_note_recovers(
    pool: PlayerView,
    dropped: EventKind,
    held_channel: u8,
    held_key: u8,
    channel: u8,
    key: u8,
)
    requires
        pool.wf(),
        pool.free.len() == 0,
        dropped is NoteOn,
        pool.voice_for(held_channel, held_key) is Some,
    ensures
        pool.dispatched(dropped) == pool,
        pool.outcome(dropped) == Outcome::NoteDropped,
        pool.released(held_channel, held_key).outcome(EventKind::NoteOn { channel, key })
            == Outcome::NoteStarted,
        pool.released(held_channel, held_key).dispatched(EventKind::NoteOn { channel, key }).voice_for(
            channel,
            key,
        ) is Some,
{
    lemma_release_makes_room(pool, held_channel, held_key);
    lemma_released(pool, held_channel, held_key);
    let freed = pool.released(held_channel, held_key);
    lemma_allocated(freed, channel, key, freed.instruments[channel as int]);
}

/// The player of a song.
pub struct SongPlayer {
    instrument_sounds: [SoundProfile; 16],
    free_buzzers: Deque<SoundBuzzer, 16>,
    taken_buzzers: LinearMap<(u8, u8), SoundBuzzer, 16>,
    calibration: Calibration,
}

impl View for SongPlayer {
    type V = PlayerView;

    closed spec fn view(&self) -> PlayerView {
        PlayerView {
            instruments: self.instrument_sounds@,
            free: queued(self.free_buzzers),
            taken: bound(self.taken_buzzers),
            calibration: self.calibration,
        }
    }
}

impl SongPlayer {
    /// A player that owns the voices of `buzzers`, all of them free, with
    /// every channel on the baseline profile and the reference calibration.
    pub fn new(buzzers: Deque<SoundBuzzer, 16>) -> (player: Self)
        ensures
            player@.wf(),
            player@.free == queued(buzzers),
            player@.taken.len() == 0,
            player@.instruments == Seq::new(16, |channel: int| baseline()),
            player@.calibration == (Calibration { numer: 15, denom: 1 }),
    {
        // The queue cannot hold more voices than the pool has room for.
        let count = queue_len(&buzzers);
        assert(count <= 16);
        let profile = baseline_profile();
        let player = SongPlayer {
            instrument_sounds: [profile;16],
            free_buzzers: buzzers,
            taken_buzzers: bound_new(),
            calibration: Calibration::reference(),
        };
        assert(player@.instruments =~= Seq::new(16, |channel: int| baseline()));
        player
    }

    /// Replaces the calibration of the waiting budget.
    pub fn set_calibration(&mut self, calibration: Calibration)
        requires
            old(self)@.wf(),
            calibration.wf(),
        ensures
            final(self)@ == (PlayerView { calibration, ..old(self)@ }),
            final(self)@.wf(),
    {
        self.calibration = calibration;
    }

    /// The calibration of the waiting budget.
    pub fn calibration(&self) -> (calibration: Calibration)
        ensures
            calibration == self@.calibration,
    {
        self.calibration
    }

    /// The number of free voices.
    pub fn free_count(&self) -> (count: usize)
        ensures
            count == self@.free.len(),
    {
        queue_len(&self.free_buzzers)
    }

    /// The number of voices bound to notes.
    pub fn taken_count(&self) -> (count: usize)
        ensures
            count == self@.taken.len(),
    {
        bound_len(&self.taken_buzzers)
    }

    /// The free voice at `index`, counted from the one that is taken next,
    /// or nothing where fewer voices are free.
    pub fn free_voice(&self, index: usize) -> (voice: Option<SoundBuzzer>)
        ensures
            index < self@.free.len() ==> voice == Some(self@.free[index as int]),
            index >= self@.free.len() ==> voice is None,
    {
        queue_voice(&self.free_buzzers, index)
    }

    /// The bound voice at `index` of the list of bound voices, with its
    /// channel and key, or nothing where fewer voices are bound.
    pub fn taken_voice(&self, index: usize) -> (entry: Option<Binding>)
        ensures
            index < self@.taken.len() ==> entry == Some(self@.taken[index as int]),
            index >= self@.taken.len() ==> entry is None,
    {
        bound_entry(&self.taken_buzzers, index)
    }

    /// The voice bound to a note, if there is one.
    pub fn voice_for(&self, channel: u8, key: u8) -> (voice: Option<SoundBuzzer>)
        ensures
            voice == self@.voice_for(channel, key),
    {
        let count = bound_len(&self.taken_buzzers);
        let mut index: usize = 0;
        while index < count
            invariant
                index <= count,
                count == self@.taken.len(),
                forall|j: int| 0 <= j < index ==> (#[trigger] self@.taken[j]).0 != (channel, key),
            decreases count - index,
        {
            if let Some(entry) = bound_entry(&self.taken_buzzers, index) {
                if entry.0.0 == channel && entry.0.1 == key {
                    proof {
                        lemma_position(self@.taken, (channel, key));
                    }
                    return Some(entry.1);
                }
            }
            index += 1;
        }
        proof {
            lemma_position(self@.taken, (channel, key));
        }
        None
    }

    /// The profile that `channel` plays with.
    pub fn instrument(&self, channel: u8) -> (profile: SoundProfile)
        requires
            channel < 16,
        ensures
            profile == self@.instruments[channel as int],
    {
        self.instrument_sounds[channel as usize]
    }

    /// Binds the first free voice to the note and has it play `key` with
    /// `profile`. Where no voice is free the note is dropped and nothing
    /// changes. A voice that was bound to the note before is first returned
    /// to the free queue.
    pub fn allocate(&mut self, channel: u8, key: u8, profile: &SoundProfile) -> (bound_now: Result<
        (),
        NoFreeVoice,
    >)
        requires
            old(self)@.wf(),
            profile.wf(),
            key <= MAX_KEY,
        ensures
            final(self)@.wf(),
            final(self)@.capacity() == old(self)@.capacity(),
            final(self)@.pins() == old(self)@.pins(),
            old(self)@.free.len() == 0 ==> bound_now is Err && final(self)@ == old(self)@,
            old(self)@.free.len() > 0 ==> bound_now is Ok && final(self)@ == old(
                self,
            )@.allocated(channel, key, *profile),
    {
        match queue_pop_front(&mut self.free_buzzers) {
            None => Err(NoFreeVoice),
            Some(front) => {
                let mut voice = front;
                voice.play_note(profile, key);
                proof {
                    lemma_position(old(self)@.taken, (channel, key));
                    lemma_allocated(old(self)@, channel, key, *profile);
                }
                let previous = bound_insert(&mut self.taken_buzzers, (channel, key), voice);
                if let Ok(Some(occupant)) = previous {
                    let mut returned = occupant;
                    returned.reset();
                    let pushed = queue_push_back(&mut self.free_buzzers, returned);
                    assert(pushed is Ok);
                }
                assert(self@ =~= old(self)@.allocated(channel, key, *profile));
                Ok(())
            },
        }
    }

    /// Releases the voice bound to the note to the back of the free queue and
    /// returns it as it was while bound. Nothing happens where no voice is
    /// bound to the note.
    pub fn release(&mut self, channel: u8, key: u8) -> (voice: Option<SoundBuzzer>)
        requires
            old(self)@.wf(),
        ensures
            final(self)@.wf(),
            final(self)@.capacity() == old(self)@.capacity(),
            final(self)@.pins() == old(self)@.pins(),
            final(self)@ == old(self)@.released(channel, key),
            voice == old(self)@.voice_for(channel, key),
    {
        proof {
            lemma_position(old(self)@.taken, (channel, key));
            lemma_released(old(self)@, channel, key);
        }
        let removed = bound_remove(&mut self.taken_buzzers, (channel, key));
        if let Some(voice) = removed {
            proof {
                lemma_swap_removed(old(self)@.taken, position(old(self)@.taken, (channel, key)));
            }
            let mut returned = voice;
            returned.reset();
            let pushed = queue_push_back(&mut self.free_buzzers, returned);
            assert(pushed is Ok);
        }
        assert(self@ =~= old(self)@.released(channel, key));
        removed
    }

    /// Releases the notes under `keys`, one after the other, front first.
    fn release_each(&mut self, keys: &mut Deque<(u8, u8), 16>)
        requires
            old(self)@.wf(),
        ensures
            final(self)@.wf(),
            final(self)@.capacity() == old(self)@.capacity(),
            final(self)@.pins() == old(self)@.pins(),
            final(self)@ == old(self)@.released_each(queued_keys(*old(keys))),
            queued_keys(*final(keys)).len() == 0,
    {
        loop
            invariant
                self@.wf(),
                self@.capacity() == old(self)@.capacity(),
                self@.pins() == old(self)@.pins(),
                self@.released_each(queued_keys(*keys)) == old(self)@.released_each(
                    queued_keys(*old(keys)),
                ),
            ensures
                self@.wf(),
                self@.capacity() == old(self)@.capacity(),
                self@.pins() == old(self)@.pins(),
                self@ == old(self)@.released_each(queued_keys(*old(keys))),
                queued_keys(*keys).len() == 0,
            decreases queued_keys(*keys).len(),
        {
            match keys_pop_front(keys) {
                None => {
                    break ;
                },
                Some(key) => {
                    self.release(key.0, key.1);
                },
            }
        }
    }

    /// Returns every bound voice to the free queue, in the order of the list
    /// of bound voices. Afterwards no voice is bound and the free queue holds
    /// every voice of the player.
    pub fn reset(&mut self)
        requires
            old(self)@.wf(),
        ensures
            final(self)@.wf(),
            final(self)@.pins() == old(self)@.pins(),
            final(self)@ == old(self)@.reset(),
            final(self)@.taken.len() == 0,
            final(self)@.free.len() == old(self)@.capacity(),
    {
        let mut keys = keys_new();
        let count = bound_len(&self.taken_buzzers);
        let mut index: usize = 0;
        assert(queued_keys(keys) =~= keys_of(self@.taken.take(0)));
        while index < count
            invariant
                index <= count,
                count == self@.taken.len(),
                count <= 16,
                self@ == old(self)@,
                queued_keys(keys) == keys_of(self@.taken.take(index as int)),
            decreases count - index,
        {
            if let Some(entry) = bound_entry(&self.taken_buzzers, index) {
                let pushed = keys_push_back(&mut keys, entry.0);
                assert(pushed is Ok);
            }
            assert(queued_keys(keys) =~= keys_of(self@.taken.take(index as int + 1)));
            index += 1;
        }
        assert(self@.taken.take(index as int) =~= self@.taken);
        proof {
            lemma_reset(old(self)@);
        }
        self.release_each(&mut keys);
    }

    /// Sweeps the bound voices: every voice whose lifetime has fallen below
    /// zero is returned to the free queue, in the order of the list of bound
    /// voices. A voice whose lifetime is not below zero stays.
    pub fn free_buzzers(&mut self)
        requires
            old(self)@.wf(),
        ensures
            final(self)@.wf(),
            final(self)@.capacity() == old(self)@.capacity(),
            final(self)@.pins() == old(self)@.pins(),
            final(self)@ == old(self)@.swept(),
    {
        let mut freed_keys = keys_new();
        let count = bound_len(&self.taken_buzzers);
        let mut index: usize = 0;
        assert(queued_keys(freed_keys) =~= keys_of(expired_entries(self@.taken.take(0))));
        while index < count
            invariant
                index <= count,
                count == self@.taken.len(),
                count <= 16,
                self@ == old(self)@,
                queued_keys(freed_keys) == keys_of(expired_entries(self@.taken.take(index as int))),
                queued_keys(freed_keys).len() <= index,
            decreases count - index,
        {
            assert(self@.taken.take(index as int + 1).drop_last() =~= self@.taken.take(
                index as int,
            ));
            if let Some(entry) = bound_entry(&self.taken_buzzers, index) {
                if entry.1.max_period < 0 {
                    let pushed = keys_push_back(&mut freed_keys, entry.0);
                    assert(pushed is Ok);
                }
            }
            assert(queued_keys(freed_keys) =~= keys_of(
                expired_entries(self@.taken.take(index as int + 1)),
            ));
            index += 1;
        }
        assert(self@.taken.take(index as int) =~= self@.taken);
        self.release_each(&mut freed_keys);
    }

    /// Advances every bound voice by one tick and returns what to do with
    /// the output lines: in each of the sixteen places the action for the
    /// bound voice at that place of the list, and `Hold` where there is none.
    pub fn play_buzzers(&mut self) -> (actions: [PinAction; 16])
        requires
            old(self)@.wf(),
        ensures
            final(self)@.wf(),
            final(self)@.capacity() == old(self)@.capacity(),
            final(self)@.pins() == old(self)@.pins(),
            final(self)@ == old(self)@.ticked(),
            actions@ == old(self)@.tick_actions(),
    {
        let count = bound_len(&self.taken_buzzers);
        let mut actions = [PinAction::Hold;16];
        let mut index: usize = 0;
        let ghost entries = self@.taken;
        proof {
            lemma_ticked(old(self)@);
        }
        while index < count
            invariant
                index <= count,
                count == entries.len(),
                count <= 16,
                entries == old(self)@.taken,
                old(self)@.wf(),
                self@.instruments == old(self)@.instruments,
                self@.free == old(self)@.free,
                self@.calibration == old(self)@.calibration,
                self@.taken.len() == entries.len(),
                forall|j: int|
                    0 <= j < index ==> #[trigger] self@.taken[j] == (
                        entries[j].0,
                        entries[j].1.ticked(),
                    ),
                forall|j: int| index <= j < entries.len() ==> #[trigger] self@.taken[j] == entries[j],
                actions@.len() == 16,
                forall|j: int| 0 <= j < index ==> #[trigger] actions@[j] == entries[j].1.tick_action(),
                forall|j: int| index <= j < 16 ==> #[trigger] actions@[j] == PinAction::Hold,
            decreases count - index,
        {
            if let Some(entry) = bound_entry(&self.taken_buzzers, index) {
                let mut voice = entry.1;
                let action = voice.update();
                proof {
                    let before = self@.taken;
                    assert(crate::assoc::distinct_keys(before)) by {
                        assert forall|i: int, j: int| 0 <= i < j < before.len() implies (
                        #[trigger] before[i]).0 != (#[trigger] before[j]).0 by {
                            assert(entries[i].0 != entries[j].0);
                        }
                    }
                    assert(before[index as int].0 == entry.0);
                    lemma_position_of_entry(before, index as int);
                }
                let replaced = bound_insert(&mut self.taken_buzzers, entry.0, voice);
                assert(replaced is Ok);
                actions[index] = action;
            }
            index += 1;
        }
        assert(self@.taken =~= old(self)@.ticked().taken);
        assert(actions@ =~= old(self)@.tick_actions());
        assert(self@ =~= old(self)@.ticked());
        actions
    }

    /// How long `delta_ticks` last at the tempo of `meta_data`, in
    /// microseconds, rounded down.
    pub fn delta_to_micros(delta_ticks: u16, meta_data: &SongMetaData) -> (micros: u64)
        requires
            meta_data.wf(),
        ensures
            micros == meta_data.micros_for(delta_ticks as int),
    {
        assert(0 <= delta_ticks * meta_data.tempo <= 0xffff * 0xffff_ffff) by (nonlinear_arith)
            requires
                0 <= delta_ticks <= 0xffff,
                0 <= meta_data.tempo <= 0xffff_ffff,
        ;
        (delta_ticks as u64 * meta_data.tempo as u64) / meta_data.ticks_per_quarter as u64
    }

    /// Carries out one event of the song.
    ///
    /// Notes bind and release voices, a program change selects the profile of
    /// its channel, and tempo, time signature and key replace the settings of
    /// the song at once, so that the very next conversion of ticks reads them.
    /// Every other kind of event is accepted and ignored.
    pub fn match_music_events(&mut self, metadata: &mut SongMetaData, event_kind: EventKind) -> (outcome:
        Outcome)
        requires
            old(self)@.wf(),
            event_kind.wf(),
        ensures
            final(self)@.wf(),
            final(self)@.capacity() == old(self)@.capacity(),
            final(self)@.pins() == old(self)@.pins(),
            final(self)@ == old(self)@.dispatched(event_kind),
            *final(metadata) == applied(*old(metadata), event_kind),
            final(metadata).ticks_per_quarter == old(metadata).ticks_per_quarter,
            outcome == old(self)@.outcome(event_kind),
    {
        match event_kind {
            EventKind::NoteOff { channel, key } => {
                match self.release(channel, key) {
                    Some(_) => Outcome::NoteStopped,
                    None => Outcome::NoteNotSounding,
                }
            },
            EventKind::NoteOn { channel, key } => {
                let note_to_play: SoundProfile = self.instrument_sounds[channel as usize];
                match self.allocate(channel, key, &note_to_play) {
                    Ok(_) => Outcome::NoteStarted,
                    Err(_) => Outcome::NoteDropped,
                }
            },
            EventKind::ProgramChange { channel, program } => {
                self.instrument_sounds[channel as usize] = profile_for(program);
                assert(self@ =~= old(self)@.with_instrument(channel, instrument(program as int)));
                Outcome::InstrumentChanged
            },
            EventKind::Tempo(micros) => {
                metadata.tempo = micros;
                Outcome::SongChanged
            },
            EventKind::TimeSignature(beats, denominator, clocks, notated) => {
                metadata.time_signature = [beats, denominator, clocks, notated];
                Outcome::SongChanged
            },
            EventKind::KeySignature(accidentals, minor) => {
                metadata.key = (accidentals, minor);
                Outcome::SongChanged
            },
            EventKind::EndOfTrack => Outcome::TrackEnded,
            _ => Outcome::Ignored,
        }
    }
}

} // verus!

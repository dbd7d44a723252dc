//! The voice pool as a mathematical object.
//!
//! A pool is a queue of free voices and a list of voices bound to notes, each
//! under its channel and key. Every voice of the player is in exactly one of
//! the two at any time. This file says what each operation of the player does
//! to the pool, and proves what holds of the pool whatever is done to it: the
//! number of voices never changes, no key is bound twice, and the output
//! lines that the voices own stay the same.

use vstd::prelude::*;
use vstd::multiset::Multiset;
use crate::assoc::distinct_keys;
use crate::assoc::position;
use crate::assoc::swap_removed;
use crate::assoc::lemma_position;
use crate::assoc::lemma_swap_removed;
use crate::assoc::lemma_contained_entry_found;
use crate::buzzer::PinAction;
use crate::buzzer::SoundBuzzer;
use crate::sound_profiles::SoundProfile;
use crate::timer::Calibration;

verus! {

/// A voice bound to a note: the channel and key, and the voice.
pub type Binding = ((u8, u8), SoundBuzzer);

/// The state of a player.
#[verifier::ext_equal]
pub struct PlayerView {
    /// The profile that each of the sixteen channels plays with.
    pub instruments: Seq<SoundProfile>,
    /// The free voices; the next note takes the first.
    pub free: Seq<SoundBuzzer>,
    /// The bound voices, each under its channel and key.
    pub taken: Seq<Binding>,
    /// The ratio between waiting budget and microseconds.
    pub calibration: Calibration,
}

/// The output lines owned by a sequence of voices, counted with repetition.
pub open spec fn voice_pins(voices: Seq<SoundBuzzer>) -> Multiset<u32> {
    voices.map_values(|voice: SoundBuzzer| voice.pin_mask).to_multiset()
}

/// The voices of a list of bindings, in its order.
pub open spec fn bound_voices(entries: Seq<Binding>) -> Seq<SoundBuzzer> {
    entries.map_values(|entry: Binding| entry.1)
}

/// The keys of a list of bindings, in its order.
pub open spec fn keys_of(entries: Seq<Binding>) -> Seq<(u8, u8)> {
    entries.map_values(|entry: Binding| entry.0)
}

/// The voices of a list of bindings after each was released, in its order.
pub open spec fn released_voices(entries: Seq<Binding>) -> Seq<SoundBuzzer> {
    entries.map_values(|entry: Binding| entry.1.released())
}

/// The bindings whose voice has expired, in the order of the list.
pub open spec fn expired_entries(entries: Seq<Binding>) -> Seq<Binding>
    decreases entries.len(),
{
    if entries.len() == 0 {
        Seq::empty()
    } else if entries.last().1.is_expired() {
        expired_entries(entries.drop_last()).push(entries.last())
    } else {
        expired_entries(entries.drop_last())
    }
}

impl PlayerView {
    /// The number of voices of the player.
    pub open spec fn capacity(self) -> nat {
        self.free.len() + self.taken.len()
    }

    /// The output lines owned by the voices of the player.
    pub open spec fn pins(self) -> Multiset<u32> {
        voice_pins(self.free).add(voice_pins(bound_voices(self.taken)))
    }

    /// Sixteen playable channel profiles, at most sixteen voices, no key
    /// bound twice, and a calibration with a divisor.
    pub open spec fn wf(self) -> bool {
        &&& self.instruments.len() == 16
        &&& forall|channel: int| 0 <= channel < 16 ==> (#[trigger] self.instruments[channel]).wf()
        &&& self.capacity() <= 16
        &&& distinct_keys(self.taken)
        &&& self.calibration.wf()
    }

    /// The voice bound to a note, if there is one.
    pub open spec fn voice_for(self, channel: u8, key: u8) -> Option<SoundBuzzer> {
        if position(self.taken, (channel, key)) >= 0 {
            Some(self.taken[position(self.taken, (channel, key))].1)
        } else {
            None
        }
    }

    /// The pool after the first free voice was bound to a note. A voice
    /// already bound to that note gives way: it is released to the back of
    /// the free queue, and the new voice takes its place in the list.
    pub open spec fn allocated(self, channel: u8, key: u8, profile: SoundProfile) -> PlayerView
        recommends
            self.free.len() > 0,
    {
        let voice = self.free[0].playing(profile, key);
        let at = position(self.taken, (channel, key));
        if at >= 0 {
            PlayerView {
                free: self.free.skip(1).push(self.taken[at].1.released()),
                taken: self.taken.update(at, ((channel, key), voice)),
                ..self
            }
        } else {
            PlayerView {
                free: self.free.skip(1),
                taken: self.taken.push(((channel, key), voice)),
                ..self
            }
        }
    }

    /// The pool after the voice of a note, if there is one, was released to
    /// the back of the free queue.
    pub open spec fn released(self, channel: u8, key: u8) -> PlayerView {
        let at = position(self.taken, (channel, key));
        if at >= 0 {
            PlayerView {
                free: self.free.push(self.taken[at].1.released()),
                taken: swap_removed(self.taken, at),
                ..self
            }
        } else {
            self
        }
    }

    /// The pool after the notes under `keys` were released one after the
    /// other.
    pub open spec fn released_each(self, keys: Seq<(u8, u8)>) -> PlayerView
        decreases keys.len(),
    {
        if keys.len() == 0 {
            self
        } else {
            self.released(keys[0].0, keys[0].1).released_each(keys.skip(1))
        }
    }

    /// The pool after a sweep: every voice that had expired was released, in
    /// the order of the list of bound voices.
    pub open spec fn swept(self) -> PlayerView {
        self.released_each(keys_of(expired_entries(self.taken)))
    }

    /// The pool after every bound voice was released, in the order of the
    /// list of bound voices.
    pub open spec fn reset(self) -> PlayerView {
        PlayerView { free: self.free + released_voices(self.taken), taken: Seq::empty(), ..self }
    }

    /// The pool after one tick of every bound voice.
    pub open spec fn ticked(self) -> PlayerView {
        PlayerView {
            taken: self.taken.map_values(|entry: Binding| (entry.0, entry.1.ticked())),
            ..self
        }
    }

    /// What one tick asks to be done with the output lines: in each of the
    /// sixteen places the action for the bound voice at that place of the
    /// list, and nothing to do where there is none.
    pub open spec fn tick_actions(self) -> Seq<PinAction> {
        Seq::new(
            16,
            |place: int|
                if place < self.taken.len() {
                    self.taken[place].1.tick_action()
                } else {
                    PinAction::Hold
                },
        )
    }

    /// The pool after `channel` was given another profile.
    pub open spec fn with_instrument(self, channel: u8, profile: SoundProfile) -> PlayerView {
        PlayerView { instruments: self.instruments.update(channel as int, profile), ..self }
    }
}

/// Appending a voice adds its output line.
pub proof fn lemma_pins_push(voices: Seq<SoundBuzzer>, voice: SoundBuzzer)
    ensures
        voice_pins(voices.push(voice)) == voice_pins(voices).insert(voice.pin_mask),
{
    let mask = |voice: SoundBuzzer| voice.pin_mask;
    assert(voices.push(voice).map_values(mask) =~= voices.map_values(mask).push(voice.pin_mask));
    vstd::seq_lib::to_multiset_build(voices.map_values(mask), voice.pin_mask);
}

/// Taking the voice at an index away takes its output line away.
pub proof fn lemma_pins_remove(voices: Seq<SoundBuzzer>, index: int)
    requires
        0 <= index < voices.len(),
    ensures
        voice_pins(voices.remove(index)) == voice_pins(voices).remove(voices[index].pin_mask),
        voice_pins(voices).count(voices[index].pin_mask) > 0,
{
    let mask = |voice: SoundBuzzer| voice.pin_mask;
    assert(voices.remove(index).map_values(mask) =~= voices.map_values(mask).remove(index));
    vstd::seq_lib::to_multiset_remove(voices.map_values(mask), index);
    vstd::seq_lib::to_multiset_contains(voices.map_values(mask), voices[index].pin_mask);
    assert(voices.map_values(mask)[index] == voices[index].pin_mask);
}

/// Replacing a voice by one on the same output line changes no line.
pub proof fn lemma_pins_update(voices: Seq<SoundBuzzer>, index: int, voice: SoundBuzzer)
    requires
        0 <= index < voices.len(),
    ensures
        voice_pins(voices.update(index, voice)) == voice_pins(voices).remove(
            voices[index].pin_mask,
        ).insert(voice.pin_mask),
{
    broadcast use vstd::multiset::group_multiset_axioms;

    let mask = |voice: SoundBuzzer| voice.pin_mask;
    assert(voices.update(index, voice).map_values(mask) =~= voices.map_values(mask).update(
        index,
        voice.pin_mask,
    ));
    vstd::seq_lib::to_multiset_update(voices.map_values(mask), index, voice.pin_mask);
    vstd::seq_lib::to_multiset_contains(voices.map_values(mask), voices[index].pin_mask);
    assert(voices.map_values(mask)[index] == voices[index].pin_mask);
    assert(voice_pins(voices).insert(voice.pin_mask).remove(voices[index].pin_mask) =~= voice_pins(
        voices,
    ).remove(voices[index].pin_mask).insert(voice.pin_mask));
}

/// Removing a binding takes the output line of its voice away.
pub proof fn lemma_pins_swap_removed(entries: Seq<Binding>, index: int)
    requires
        0 <= index < entries.len(),
    ensures
        voice_pins(bound_voices(swap_removed(entries, index))) == voice_pins(
            bound_voices(entries),
        ).remove(entries[index].1.pin_mask),
        voice_pins(bound_voices(entries)).count(entries[index].1.pin_mask) > 0,
{
    broadcast use vstd::multiset::group_multiset_axioms;

    let voices = bound_voices(entries);
    let last = entries.len() - 1;
    lemma_pins_remove(voices, index);
    if index == last {
        assert(bound_voices(swap_removed(entries, index)) =~= voices.remove(index));
    } else {
        let moved = voices.update(index, voices[last]);
        assert(bound_voices(swap_removed(entries, index)) =~= moved.remove(last));
        lemma_pins_update(voices, index, voices[last]);
        lemma_pins_remove(moved, last);
        assert(voice_pins(voices).remove(voices[index].pin_mask).insert(voices[last].pin_mask).remove(
            voices[last].pin_mask,
        ) =~= voice_pins(voices).remove(voices[index].pin_mask));
    }
}

/// Binding a note keeps the pool valid, the number of voices and the output
/// lines; the new voice is then the one bound to the note, and it plays the
/// note with the profile given.
pub proof fn lemma_allocated(pool: PlayerView, channel: u8, key: u8, profile: SoundProfile)
    requires
        pool.wf(),
        pool.free.len() > 0,
    ensures
        pool.allocated(channel, key, profile).wf(),
        pool.allocated(channel, key, profile).capacity() == pool.capacity(),
        pool.allocated(channel, key, profile).pins() == pool.pins(),
        pool.allocated(channel, key, profile).voice_for(channel, key) == Some(
            pool.free[0].playing(profile, key),
        ),
        pool.allocated(channel, key, profile).instruments == pool.instruments,
{
    broadcast use vstd::multiset::group_multiset_axioms;

    let after = pool.allocated(channel, key, profile);
    let voice = pool.free[0].playing(profile, key);
    let at = position(pool.taken, (channel, key));
    lemma_position(pool.taken, (channel, key));
    crate::assoc::lemma_inserted(pool.taken, (channel, key), voice);
    assert(after.taken == crate::assoc::inserted(pool.taken, (channel, key), voice));
    assert(pool.free.skip(1) =~= pool.free.remove(0));
    lemma_pins_remove(pool.free, 0);
    if at >= 0 {
        lemma_pins_push(pool.free.skip(1), pool.taken[at].1.released());
        assert(bound_voices(after.taken) =~= bound_voices(pool.taken).update(at, voice));
        lemma_pins_update(bound_voices(pool.taken), at, voice);
        assert(bound_voices(pool.taken)[at] == pool.taken[at].1);
        lemma_pins_remove(bound_voices(pool.taken), at);
        assert(after.pins() =~= pool.pins());
    } else {
        assert(bound_voices(after.taken) =~= bound_voices(pool.taken).push(voice));
        lemma_pins_push(bound_voices(pool.taken), voice);
        assert(after.pins() =~= pool.pins());
    }
}

/// Releasing a note keeps the pool valid, the number of voices and the output
/// lines; afterwards no voice is bound to the note.
pub proof fn lemma_released(pool: PlayerView, channel: u8, key: u8)
    requires
        pool.wf(),
    ensures
        pool.released(channel, key).wf(),
        pool.released(channel, key).capacity() == pool.capacity(),
        pool.released(channel, key).pins() == pool.pins(),
        pool.released(channel, key).voice_for(channel, key) is None,
        pool.released(channel, key).instruments == pool.instruments,
        pool.released(channel, key).calibration == pool.calibration,
        pool.voice_for(channel, key) is None ==> pool.released(channel, key) == pool,
{
    broadcast use vstd::multiset::group_multiset_axioms;

    let after = pool.released(channel, key);
    let at = position(pool.taken, (channel, key));
    lemma_position(pool.taken, (channel, key));
    if at >= 0 {
        lemma_swap_removed(pool.taken, at);
        lemma_pins_push(pool.free, pool.taken[at].1.released());
        lemma_pins_swap_removed(pool.taken, at);
        assert(after.pins() =~= pool.pins());
    }
}

/// Releasing a bound note frees one voice, so that the next note finds one.
pub proof fn lemma_release_makes_room(pool: PlayerView, channel: u8, key: u8)
    requires
        pool.wf(),
        pool.voice_for(channel, key) is Some,
    ensures
        pool.released(channel, key).free.len() == pool.free.len() + 1,
        pool.released(channel, key).taken.len() == pool.taken.len() - 1,
        pool.released(channel, key).free.last() == pool.voice_for(channel, key)->Some_0.released(),
{
    lemma_position(pool.taken, (channel, key));
    lemma_swap_removed(pool.taken, position(pool.taken, (channel, key)));
}

/// Releasing a selection of the bound notes, one after the other, appends
/// their voices to the free queue in the order of the selection, removes
/// exactly those bindings, and keeps everything else.
pub proof fn lemma_released_each(pool: PlayerView, pending: Seq<Binding>)
    requires
        pool.wf(),
        distinct_keys(pending),
        forall|j: int| 0 <= j < pending.len() ==> pool.taken.contains(#[trigger] pending[j]),
    ensures
        pool.released_each(keys_of(pending)).wf(),
        pool.released_each(keys_of(pending)).free == pool.free + released_voices(pending),
        pool.released_each(keys_of(pending)).taken.len() == pool.taken.len() - pending.len(),
        pool.released_each(keys_of(pending)).instruments == pool.instruments,
        pool.released_each(keys_of(pending)).calibration == pool.calibration,
        pool.released_each(keys_of(pending)).pins() == pool.pins(),
        forall|entry: Binding| #[trigger]
            pool.released_each(keys_of(pending)).taken.contains(entry) ==> pool.taken.contains(
                entry,
            ) && !pending.contains(entry),
        forall|entry: Binding|
            pool.taken.contains(entry) && !pending.contains(entry) ==> #[trigger] pool.released_each(
                keys_of(pending),
            ).taken.contains(entry),
    decreases pending.len(),
{
    let after = pool.released_each(keys_of(pending));
    if pending.len() == 0 {
        assert(after == pool);
        assert(pool.free + released_voices(pending) =~= pool.free);
    } else {
        let first = pending[0];
        let rest = pending.skip(1);
        assert(keys_of(pending)[0] == first.0);
        assert(keys_of(pending).skip(1) =~= keys_of(rest));
        assert(pool.taken.contains(first));
        lemma_contained_entry_found(pool.taken, first);
        lemma_position(pool.taken, first.0);
        let at = position(pool.taken, first.0);
        let mid = pool.released(first.0.0, first.0.1);
        assert((first.0.0, first.0.1) == first.0);
        lemma_released(pool, first.0.0, first.0.1);
        lemma_swap_removed(pool.taken, at);
        assert(mid.taken == swap_removed(pool.taken, at));
        assert(distinct_keys(rest)) by {
            assert forall|i: int, j: int| 0 <= i < j < rest.len() implies (#[trigger] rest[i]).0 != (
            #[trigger] rest[j]).0 by {
                assert(pending[i + 1].0 != pending[j + 1].0);
            }
        }
        assert forall|j: int| 0 <= j < rest.len() implies mid.taken.contains(
            #[trigger] rest[j],
        ) by {
            let entry = pending[j + 1];
            assert(pool.taken.contains(entry));
            let found = choose|i: int| 0 <= i < pool.taken.len() && pool.taken[i] == entry;
            assert(pending[0].0 != pending[j + 1].0);
            assert(found != at);
            assert(mid.taken.contains(pool.taken[found]));
        }
        lemma_released_each(mid, rest);
        assert(after == mid.released_each(keys_of(rest)));
        assert(after.free =~= pool.free + released_voices(pending));
        assert forall|entry: Binding| #[trigger] after.taken.contains(entry) implies pool.taken.contains(
            entry,
        ) && !pending.contains(entry) by {
            assert(mid.taken.contains(entry) && !rest.contains(entry));
            let found = choose|i: int| 0 <= i < mid.taken.len() && mid.taken[i] == entry;
            assert(pool.taken.contains(mid.taken[found]));
            assert(mid.taken[found] != pool.taken[at]);
            if pending.contains(entry) {
                let index = choose|i: int| 0 <= i < pending.len() && pending[i] == entry;
                if index > 0 {
                    assert(rest[index - 1] == entry);
                }
            }
        }
        assert forall|entry: Binding|
            pool.taken.contains(entry) && !pending.contains(entry) implies #[trigger] after.taken.contains(
            entry,
        ) by {
            let found = choose|i: int| 0 <= i < pool.taken.len() && pool.taken[i] == entry;
            assert(pending[0] == first);
            assert(found != at);
            assert(mid.taken.contains(pool.taken[found]));
            if rest.contains(entry) {
                let index = choose|i: int| 0 <= i < rest.len() && rest[i] == entry;
                assert(pending[index + 1] == entry);
            }
        }
    }
}

/// Releasing every bound note in the order of the list empties the list and
/// fills the free queue with all the voices of the player: none is lost and
/// none appears twice.
pub proof fn lemma_reset(pool: PlayerView)
    requires
        pool.wf(),
    ensures
        pool.released_each(keys_of(pool.taken)) == pool.reset(),
        pool.reset().wf(),
        pool.reset().taken.len() == 0,
        pool.reset().free.len() == pool.capacity(),
        pool.reset().capacity() == pool.capacity(),
        pool.reset().pins() == pool.pins(),
        pool.reset().instruments == pool.instruments,
{
    assert forall|j: int| 0 <= j < pool.taken.len() implies pool.taken.contains(
        #[trigger] pool.taken[j],
    ) by {}
    lemma_released_each(pool, pool.taken);
    let after = pool.released_each(keys_of(pool.taken));
    assert(after.taken =~= Seq::<Binding>::empty());
    assert(after =~= pool.reset());
}

/// The expired bindings of a list are bindings of the list, all of them, and
/// their keys are distinct where those of the list are.
pub proof fn lemma_expired_entries(entries: Seq<Binding>)
    ensures
        forall|j: int|
            0 <= j < expired_entries(entries).len() ==> entries.contains(
                #[trigger] expired_entries(entries)[j],
            ) && expired_entries(entries)[j].1.is_expired(),
        forall|j: int|
            0 <= j < entries.len() && (#[trigger] entries[j]).1.is_expired() ==> expired_entries(
                entries,
            ).contains(entries[j]),
        distinct_keys(entries) ==> distinct_keys(expired_entries(entries)),
        expired_entries(entries).len() <= entries.len(),
    decreases entries.len(),
{
    let chosen = expired_entries(entries);
    if entries.len() > 0 {
        let front = entries.drop_last();
        let before = expired_entries(front);
        lemma_expired_entries(front);
        assert forall|j: int| 0 <= j < chosen.len() implies entries.contains(#[trigger] chosen[j])
            && chosen[j].1.is_expired() by {
            if j < before.len() {
                assert(front.contains(before[j]));
                let found = choose|i: int| 0 <= i < front.len() && front[i] == before[j];
                assert(entries[found] == chosen[j]);
            } else {
                assert(entries[entries.len() - 1] == chosen[j]);
            }
        }
        assert forall|j: int|
            0 <= j < entries.len() && (#[trigger] entries[j]).1.is_expired() implies chosen.contains(
            entries[j],
        ) by {
            if j < front.len() {
                assert(front[j] == entries[j]);
                assert(before.contains(front[j]));
                let found = choose|i: int| 0 <= i < before.len() && before[i] == entries[j];
                assert(chosen[found] == entries[j]);
            } else {
                assert(chosen[chosen.len() - 1] == entries[j]);
            }
        }
        if distinct_keys(entries) {
            assert(distinct_keys(front)) by {
                assert forall|i: int, j: int| 0 <= i < j < front.len() implies (#[trigger] front[i]).0
                    != (#[trigger] front[j]).0 by {
                    assert(entries[i].0 != entries[j].0);
                }
            }
            assert forall|i: int, j: int| 0 <= i < j < chosen.len() implies (#[trigger] chosen[i]).0
                != (#[trigger] chosen[j]).0 by {
                if j < before.len() {
                    assert(before[i].0 != before[j].0);
                } else {
                    assert(front.contains(before[i]));
                    let found = choose|k: int| 0 <= k < front.len() && front[k] == before[i];
                    assert(entries[found].0 != entries[entries.len() - 1].0);
                }
            }
        }
    }
}

/// A list without an expired voice has no expired bindings.
pub proof fn lemma_nothing_expired(entries: Seq<Binding>)
    requires
        forall|j: int| 0 <= j < entries.len() ==> !(#[trigger] entries[j]).1.is_expired(),
    ensures
        expired_entries(entries) == Seq::<Binding>::empty(),
    decreases entries.len(),
{
    if entries.len() > 0 {
        let front = entries.drop_last();
        assert forall|j: int| 0 <= j < front.len() implies !(#[trigger] front[j]).1.is_expired() by {
            assert(front[j] == entries[j]);
        }
        lemma_nothing_expired(front);
        assert(!entries[entries.len() - 1].1.is_expired());
    }
}

/// A sweep returns exactly the expired voices to the free queue, in the order
/// of the list of bound voices, and leaves every other binding in place. In
/// particular a voice whose lifetime is not below zero is never swept. The pool stays valid and keeps its voices and output lines.
pub proof fn lemma_swept(pool: PlayerView)
    requires
        pool.wf(),
    ensures
        pool.swept().wf(),
        pool.swept().capacity() == pool.capacity(),
        pool.swept().pins() == pool.pins(),
        pool.swept().instruments == pool.instruments,
        pool.swept().free == pool.free + released_voices(expired_entries(pool.taken)),
        forall|entry: Binding| #[trigger]
            pool.swept().taken.contains(entry) ==> pool.taken.contains(entry)
                && !entry.1.is_expired(),
        forall|entry: Binding|
            pool.taken.contains(entry) && !entry.1.is_expired() ==> #[trigger] pool.swept().taken.contains(
                entry,
            ),
{
    let chosen = expired_entries(pool.taken);
    lemma_expired_entries(pool.taken);
    lemma_released_each(pool, chosen);
    let after = pool.swept();
    assert forall|entry: Binding| #[trigger] after.taken.contains(entry) implies pool.taken.contains(
        entry,
    ) && !entry.1.is_expired() by {
        assert(pool.taken.contains(entry) && !chosen.contains(entry));
        let found = choose|i: int| 0 <= i < pool.taken.len() && pool.taken[i] == entry;
        if pool.taken[found].1.is_expired() {
            assert(chosen.contains(pool.taken[found]));
        }
    }
    assert forall|entry: Binding|
        pool.taken.contains(entry) && !entry.1.is_expired() implies #[trigger] after.taken.contains(
        entry,
    ) by {
        if chosen.contains(entry) {
            let found = choose|i: int| 0 <= i < chosen.len() && chosen[i] == entry;
            assert(chosen[found].1.is_expired());
        }
    }
}

/// A second sweep right after a sweep changes nothing.
pub proof fn lemma_sweep_idempotent(pool: PlayerView)
    requires
        pool.wf(),
    ensures
        pool.swept().swept() == pool.swept(),
{
    lemma_swept(pool);
    let after = pool.swept();
    assert forall|j: int| 0 <= j < after.taken.len() implies !(#[trigger] after.taken[j]).1.is_expired() by {
        assert(after.taken.contains(after.taken[j]));
    }
    lemma_nothing_expired(after.taken);
    assert(keys_of(Seq::<Binding>::empty()) =~= Seq::<(u8, u8)>::empty());
}

/// A tick keeps every binding under its key and every voice on its output
/// line, so the pool stays valid.
pub proof fn lemma_ticked(pool: PlayerView)
    requires
        pool.wf(),
    ensures
        pool.ticked().wf(),
        pool.ticked().capacity() == pool.capacity(),
        pool.ticked().pins() == pool.pins(),
        pool.ticked().free == pool.free,
        pool.tick_actions().len() == 16,
        keys_of(pool.ticked().taken) == keys_of(pool.taken),
{
    let after = pool.ticked();
    assert forall|i: int, j: int| 0 <= i < j < after.taken.len() implies (#[trigger] after.taken[i]).0
        != (#[trigger] after.taken[j]).0 by {
        assert(pool.taken[i].0 != pool.taken[j].0);
    }
    let mask = |voice: SoundBuzzer| voice.pin_mask;
    assert(bound_voices(after.taken).map_values(mask) =~= bound_voices(pool.taken).map_values(mask));
    assert(keys_of(after.taken) =~= keys_of(pool.taken));
}

} // verus!

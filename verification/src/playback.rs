//! Playing a song, one decision at a time.
//!
//! The player never waits and never writes to a pin. It decides, and a
//! driver around it does: the driver asks for the next step, performs the
//! pin writes and the busy-wait that the step names, and asks again. Between
//! two events the steps count down a waiting budget while they tick the
//! voices; when the budget is used up the event is carried out; and when no
//! track has an event left every voice is returned and the song is over.
//!
//! A song goes through its phases in one direction: it is loaded, it plays,
//! and it ends. The end of a single track ends nothing: the song ends when
//! the last track does.

use vstd::prelude::*;
use crate::buzzer::PinAction;
use crate::event::EventKind;
use crate::event::Timing;
use crate::merge::advance;
use crate::merge::advanced;
use crate::merge::after;
use crate::merge::any_pending;
use crate::merge::deltas_of;
use crate::merge::earliest;
use crate::merge::find_min_index;
use crate::merge::heads_of;
use crate::merge::lemma_earliest;
use crate::merge::lemma_merge_keeps_time;
use crate::merge::lemma_merge_order;
use crate::merge::merged;
use crate::merge::own_tick;
use crate::merge::played_before;
use crate::merge::tick_of;
use crate::merge::Head;
use crate::merge::Played;
use crate::merge::Timeline;
use crate::metadata::SongMetaData;
use crate::metadata::TimingError;
use crate::midi_source::coming;
use crate::midi_source::finds_unsafe_header;
use crate::midi_source::first_head;
use crate::midi_source::has_unsafe_header;
use crate::midi_source::head_from;
use crate::midi_source::held;
use crate::midi_source::next_track;
use crate::midi_source::parse_smf;
use crate::midi_source::readable;
use crate::midi_source::rest_of;
use crate::midi_source::smf_timing;
use crate::midi_source::smf_tracks;
use crate::midi_source::ticks_of;
use crate::midi_source::tracks_left;
use crate::midi_source::tracks_new;
use crate::midi_source::tracks_pull;
use crate::midi_source::tracks_push;
use crate::midi_source::unread;
use crate::midi_source::TrackItems;
use crate::player::applied;
use crate::player::Outcome;
use crate::player::SongPlayer;
use crate::pool::PlayerView;
use crate::timer::ACTIVE_BUDGET_STEP;
use crate::timer::ACTIVE_SPIN_CYCLES;
use crate::timer::IDLE_BUDGET_STEP;
use crate::timer::IDLE_SPIN_CYCLES;

verus! {

/// Why a file cannot be played.
#[derive(Debug, Clone, Copy, PartialEq, Eq, Structural)]
pub enum LoadError {
    /// The bytes are no MIDI file, or a header in them cannot be read.
    Malformed,
    /// The header measures time by a time code.
    Timecode,
    /// The header claims zero ticks to a quarter note.
    ZeroTicks,
    /// The file has more tracks than the player can follow.
    TooManyTracks,
}

/// Where a song stands.
#[derive(Debug, Clone, Copy, PartialEq, Eq, Structural)]
pub enum Phase {
    /// The next event is about to be picked.
    Selecting,
    /// An event was picked and is not due yet.
    Waiting {
        /// What is left of the waiting budget.
        budget: i64,
        /// The event that is carried out once the budget is used up.
        event: EventKind,
    },
    /// Every track has ended and every voice was returned.
    Finished,
}

/// What the driver does before it asks for the next step.
#[derive(Debug, Clone, Copy, PartialEq, Eq)]
pub enum Step {
    /// Perform the pin writes in their order, then spin for `cycles`.
    Spin { cycles: u32, writes: [PinAction; 16] },
    /// Nothing to do: the event of `track` was picked and is due once
    /// `budget` is used up.
    Picked { track: usize, budget: i64 },
    /// Nothing to do: `event` was carried out, with this outcome.
    CarriedOut { event: EventKind, outcome: Outcome },
    /// The song is over.
    Finished,
}

/// The state of a song while it plays.
pub struct PlaybackView {
    /// The head of each of the sixteen track slots.
    pub heads: Seq<Head>,
    /// What each track of the song has yet to yield after its head.
    pub coming: Seq<TrackItems>,
    /// The settings of the song.
    pub metadata: SongMetaData,
    /// Where the song stands.
    pub phase: Phase,
}

impl PlaybackView {
    /// Sixteen track slots of which only those of the song's tracks show a
    /// head, valid events throughout, and a usable time base.
    pub open spec fn wf(self) -> bool {
        &&& self.heads.len() == 16
        &&& self.coming.len() <= 16
        &&& forall|track: int|
            self.coming.len() <= track < 16 ==> (#[trigger] self.heads[track]) is None
        &&& forall|track: int|
            0 <= track < 16 && (#[trigger] self.heads[track]) is Some
                ==> self.heads[track]->Some_0.1.wf()
        &&& self.metadata.wf()
        &&& (self.phase matches Phase::Waiting { budget, event } ==> event.wf())
    }

    /// The song shows the first event of each of `tracks` and holds what
    /// follows it.
    pub open spec fn begins(self, tracks: Seq<TrackItems>) -> bool {
        &&& self.coming.len() == tracks.len()
        &&& self.heads.len() == 16
        &&& forall|track: int|
            0 <= track < tracks.len() && track < 16 ==> (#[trigger] self.heads[track])
                == first_head(tracks[track])
        &&& forall|track: int|
            0 <= track < tracks.len() ==> (#[trigger] self.coming[track]) == rest_of(tracks[track])
        &&& forall|track: int| tracks.len() <= track < 16 ==> (#[trigger] self.heads[track]) is None
    }

    /// Sixteen track slots, and no head beyond the tracks of the song.
    pub open spec fn tracks_fit(self) -> bool {
        &&& self.heads.len() == 16
        &&& self.coming.len() <= 16
        &&& forall|track: int|
            self.coming.len() <= track < 16 ==> (#[trigger] self.heads[track]) is None
    }

    /// The track whose head is picked next, or -1 where no track shows one.
    pub open spec fn next_pick(self) -> int {
        earliest(deltas_of(self.heads))
    }

    /// The song after the head that is due first was picked: the next event
    /// of its track takes its place, and every other head is due sooner.
    pub open spec fn picked(self) -> PlaybackView {
        PlaybackView {
            heads: advanced(self.heads, self.next_pick(), first_head(self.coming[self.next_pick()])),
            coming: self.coming.update(self.next_pick(), rest_of(self.coming[self.next_pick()])),
            ..self
        }
    }

    /// The first `steps` events that are picked from the song, one after the
    /// other, each with its track and the ticks it was due in when picked.
    pub open spec fn picks(self, steps: nat) -> Seq<Played>
        decreases steps,
    {
        if steps == 0 || self.next_pick() < 0 {
            Seq::empty()
        } else {
            seq![(self.next_pick(), self.heads[self.next_pick()]->Some_0.0 as nat)] + self.picked().picks(
                (steps - 1) as nat,
            )
        }
    }

    /// The song as the delta times that its tracks still hold: for each
    /// track the ticks until its head is due, then the ticks of each event
    /// that follows, up to the end of the track or to the first event that
    /// cannot be parsed.
    pub open spec fn timeline(self) -> Timeline {
        Seq::new(
            16,
            |track: int|
                if track < self.coming.len() && self.heads[track] is Some {
                    seq![self.heads[track]->Some_0.0 as nat] + ticks_to_come(self.coming[track])
                } else {
                    Seq::empty()
                },
        )
    }

    /// The waiting budget for an event that is due in `delta` ticks, at the
    /// tempo as it stands and with the calibration of `player`.
    pub open spec fn budget_for(self, player: PlayerView, delta: u16) -> int {
        player.calibration.budget(self.metadata.micros_for(delta as int))
    }
}

/// The ticks of the events that a track has yet to yield, up to its end or
/// to the first event that cannot be parsed.
pub open spec fn ticks_to_come(items: TrackItems) -> Seq<nat>
    decreases items.len(),
{
    if items.len() == 0 || items[0] is None {
        Seq::empty()
    } else {
        seq![ticks_of(items[0]->Some_0.delta) as nat] + ticks_to_come(items.skip(1))
    }
}

/// What one step does, from the state before it to the state after it.
///
/// While an event is not due, a step uses up part of the waiting budget: with
/// voices sounding it ticks them and hands out their pin writes, without any
/// it only spins. Once the budget is used up, a step carries out the event
/// and changes the song settings before anything else reads them. With no
/// event picked, a step picks the one that is due first and works out its
/// waiting budget from the settings as they then stand; the head that takes
/// the place of the picked one is the next event of its track. With no
/// event left to pick, a step returns every voice and ends the song.
pub open spec fn step_law(
    player: PlayerView,
    song: PlaybackView,
    player_after: PlayerView,
    song_after: PlaybackView,
    step: Step,
) -> bool {
    &&& match song.phase {
        Phase::Finished => {
            &&& player_after == player
            &&& song_after == song
            &&& step == Step::Finished
        },
        Phase::Waiting { budget, event } => {
            &&& song_after.heads == song.heads
            &&& song_after.coming == song.coming
            &&& if budget > 0 && player.taken.len() == 0 {
                &&& player_after == player
                &&& song_after.metadata == song.metadata
                &&& song_after.phase matches Phase::Waiting { budget: left, event: waited_for }
                &&& left == budget - IDLE_BUDGET_STEP
                &&& waited_for == event
                &&& step matches Step::Spin { cycles, writes }
                &&& cycles == IDLE_SPIN_CYCLES
                &&& writes@ == player.tick_actions()
            } else if budget > 0 {
                &&& player_after == player.ticked()
                &&& song_after.metadata == song.metadata
                &&& song_after.phase matches Phase::Waiting { budget: left, event: waited_for }
                &&& left == budget - ACTIVE_BUDGET_STEP
                &&& waited_for == event
                &&& step matches Step::Spin { cycles, writes }
                &&& cycles == ACTIVE_SPIN_CYCLES
                &&& writes@ == player.tick_actions()
            } else {
                &&& player_after == player.dispatched(event)
                &&& song_after.metadata == applied(song.metadata, event)
                &&& song_after.phase == Phase::Selecting
                &&& step == (Step::CarriedOut { event, outcome: player.outcome(event) })
            }
        },
        Phase::Selecting => {
            &&& song_after.metadata == song.metadata
            &&& if earliest(deltas_of(song.heads)) < 0 {
                &&& player_after == player.reset()
                &&& song_after.heads == song.heads
                &&& song_after.coming == song.coming
                &&& song_after.phase == Phase::Finished
                &&& step == Step::Finished
            } else {
                let picked = earliest(deltas_of(song.heads));
                &&& player_after == player
                &&& song_after.heads == song.picked().heads
                &&& song_after.coming == song.picked().coming
                &&& song_after.phase matches Phase::Waiting { budget, event }
                &&& budget == song.budget_for(player, song.heads[picked]->Some_0.0)
                &&& event == song.heads[picked]->Some_0.1
                &&& step matches Step::Picked { track, budget: granted }
                &&& track == picked
                &&& granted == budget
            }
        },
    }
}

/// What loading answers for the bytes of a file: the ticks to a quarter
/// note of a file that can be played, or why the file cannot be played.
pub open spec fn load_answer(raw: Seq<u8>) -> Result<u16, LoadError> {
    if has_unsafe_header(raw) {
        Err(LoadError::Malformed)
    } else {
        match smf_timing(raw) {
            None => Err(LoadError::Malformed),
            Some(Timing::Timecode) => Err(LoadError::Timecode),
            Some(Timing::Metrical(ticks)) => if ticks == 0 {
                Err(LoadError::ZeroTicks)
            } else if smf_tracks(raw).len() > 16 {
                Err(LoadError::TooManyTracks)
            } else {
                Ok(ticks)
            },
        }
    }
}

/// A song that was loaded and is being played.
pub struct Playback<'a> {
    tracks: heapless::Vec<midly::EventIter<'a>, 16>,
    next_events: [Head; 16],
    metadata: SongMetaData,
    phase: Phase,
}

impl<'a> View for Playback<'a> {
    type V = PlaybackView;

    closed spec fn view(&self) -> PlaybackView {
        PlaybackView {
            heads: self.next_events@,
            coming: held(self.tracks),
            metadata: self.metadata,
            phase: self.phase,
        }
    }
}

impl<'a> Playback<'a> {
    /// Reads the header of a Standard MIDI File and the first event of each
    /// of its tracks. Chunks that cannot be read are skipped. A file that is
    /// no MIDI file, that measures time by a time code or in zero ticks, or
    /// that has more than sixteen tracks is refused. So are bytes that hold
    /// what may be a header chunk with a time code of -128 frames: they are
    /// malformed, and they are not handed to the parser.
    pub fn load(midi_track: &'a [u8]) -> (loaded: Result<Self, LoadError>)
        ensures
            loaded is Err <==> load_answer(midi_track@) is Err,
            loaded is Err ==> loaded->Err_0 == load_answer(midi_track@)->Err_0,
            loaded matches Ok(song) ==> song@.wf() && song@.phase == Phase::Selecting
                && song@.metadata.initial(load_answer(midi_track@)->Ok_0) && song@.begins(
                smf_tracks(midi_track@),
            ),
    {
        if finds_unsafe_header(midi_track) {
            return Err(LoadError::Malformed);
        }
        let (timing, mut chunks) = match parse_smf(midi_track) {
            Ok(parsed) => parsed,
            Err(_) => {
                return Err(LoadError::Malformed);
            },
        };
        let metadata = match SongMetaData::new(timing) {
            Ok(metadata) => metadata,
            Err(TimingError::Timecode) => {
                return Err(LoadError::Timecode);
            },
            Err(TimingError::ZeroTicks) => {
                return Err(LoadError::ZeroTicks);
            },
        };
        let mut song = Playback {
            tracks: tracks_new(),
            next_events: [None;16],
            metadata,
            phase: Phase::Selecting,
        };
        let mut count: usize = 0;
        let ghost all = smf_tracks(midi_track@);
        let ghost mut done: Seq<TrackItems> = Seq::empty();
        assert(done + readable(tracks_left(chunks)) =~= all);
        loop
            invariant
                count == done.len(),
                count <= 16,
                done + readable(tracks_left(chunks)) == all,
                all == smf_tracks(midi_track@),
                song@.wf(),
                song@.begins(done),
                song@.phase == Phase::Selecting,
                song@.metadata == metadata,
                metadata.wf(),
                metadata.initial(metadata.ticks_per_quarter),
                !has_unsafe_header(midi_track@),
                !has_unsafe_header(unread(chunks)),
                smf_timing(midi_track@) == Some(Timing::Metrical(metadata.ticks_per_quarter)),
            ensures
                count == done.len(),
                done == all,
                song@.wf(),
                song@.begins(done),
                song@.phase == Phase::Selecting,
                song@.metadata == metadata,
            decreases tracks_left(chunks).len(),
        {
            let ghost left = tracks_left(chunks);
            let track = next_track(&mut chunks);
            proof {
                if left.len() == 0 {
                    assert(done + readable(left) =~= done);
                }
            }
            match track {
                None => {
                    break ;
                },
                Some(Err(_)) => {},
                Some(Ok(events)) => {
                    let ghost items = coming(events);
                    let ghost heads_before = song@.heads;
                    let ghost coming_before = song@.coming;
                    assert(done.push(items) + readable(left.skip(1)) =~= done + readable(left));
                    if tracks_push(&mut song.tracks, events).is_err() {
                        return Err(LoadError::TooManyTracks);
                    }
                    let pulled = tracks_pull(&mut song.tracks, count);
                    song.next_events[count] = head_from(pulled);
                    proof {
                        done = done.push(items);
                        assert(song@.coming =~= coming_before.push(rest_of(items)));
                        assert(song@.heads[count as int] == first_head(items));
                        assert forall|track: int| 0 <= track < done.len() && track < 16 implies (
                        #[trigger] song@.heads[track]) == first_head(done[track]) by {
                            if track < count {
                                assert(heads_before[track] == first_head(done[track]));
                            }
                        }
                        assert forall|track: int| 0 <= track < done.len() implies (
                        #[trigger] song@.coming[track]) == rest_of(done[track]) by {
                            if track < count {
                                assert(coming_before[track] == rest_of(done[track]));
                            }
                        }
                        assert forall|track: int| done.len() <= track < 16 implies (
                        #[trigger] song@.heads[track]) is None by {
                            assert(heads_before[track] is None);
                        }
                        assert forall|track: int|
                            0 <= track < 16 && (#[trigger] song@.heads[track]) is Some implies song@.heads[track]->Some_0.1.wf() by {
                            if track != count {
                                assert(heads_before[track] is Some);
                            }
                        }
                    }
                    count += 1;
                },
            }
        }
        Ok(song)
    }

    /// Where the song stands.
    pub fn phase(&self) -> (phase: Phase)
        ensures
            phase == self@.phase,
    {
        self.phase
    }

    /// The settings of the song as they stand.
    pub fn metadata(&self) -> (metadata: SongMetaData)
        ensures
            metadata == self@.metadata,
    {
        self.metadata
    }

    /// The head of each of the sixteen track slots.
    pub fn next_events(&self) -> (heads: [Head; 16])
        ensures
            heads@ == self@.heads,
    {
        self.next_events
    }

    /// Picks the event that is due first, takes its remaining ticks off the
    /// other heads and asks its track for the event that follows. Returns
    /// the track, the ticks until the event is due and the event, or nothing
    /// where no track has an event left.
    pub fn select_next(&mut self) -> (picked: Option<(usize, u16, EventKind)>)
        requires
            old(self)@.wf(),
        ensures
            final(self)@.wf(),
            final(self)@.metadata == old(self)@.metadata,
            final(self)@.phase == old(self)@.phase,
            earliest(deltas_of(old(self)@.heads)) < 0 ==> picked is None && final(self)@ == old(self)@,
            earliest(deltas_of(old(self)@.heads)) >= 0 ==> picked == Some(
                (
                    earliest(deltas_of(old(self)@.heads)) as usize,
                    old(self)@.heads[earliest(deltas_of(old(self)@.heads))]->Some_0.0,
                    old(self)@.heads[earliest(deltas_of(old(self)@.heads))]->Some_0.1,
                ),
            ) && final(self)@ == old(self)@.picked(),
    {
        if !any_pending(&self.next_events) {
            return None;
        }
        let index = find_min_index(&self.next_events);
        let (delay, event) = match self.next_events[index] {
            Some(head) => head,
            None => (0, EventKind::EndOfTrack),
        };
        assert(index < self@.coming.len()) by {
            if index >= self@.coming.len() {
                assert(self@.heads[index as int] is None);
            }
        }
        let pulled = tracks_pull(&mut self.tracks, index);
        let next = head_from(pulled);
        assert(next == first_head(old(self)@.coming[index as int]));
        assert(self@.coming =~= old(self)@.coming.update(
            index as int,
            rest_of(old(self)@.coming[index as int]),
        ));
        proof {
            lemma_earliest(deltas_of(old(self)@.heads));
        }
        advance(&mut self.next_events, index, next);
        assert(self@.heads[index as int] == next);
        assert forall|track: int| 0 <= track < 16 && (#[trigger] self@.heads[track]) is Some implies
            self@.heads[track]->Some_0.1.wf() by {
            if track != index {
                assert(old(self)@.heads[track] is Some);
            }
        }
        assert forall|track: int| self@.coming.len() <= track < 16 implies (
        #[trigger] self@.heads[track]) is None by {
            assert(old(self)@.heads[track] is None);
        }
        assert(self@.heads =~= old(self)@.picked().heads);
        Some((index, delay, event))
    }
}

impl SongPlayer {
    /// Takes the song one step further and says what the driver has to do
    /// before the next step.
    pub fn play_song(&mut self, song: &mut Playback) -> (step: Step)
        requires
            old(self)@.wf(),
            old(song)@.wf(),
        ensures
            final(self)@.wf(),
            final(song)@.wf(),
            final(self)@.capacity() == old(self)@.capacity(),
            final(self)@.pins() == old(self)@.pins(),
            step_law(old(self)@, old(song)@, final(self)@, final(song)@, step),
    {
        match song.phase {
            Phase::Finished => Step::Finished,
            Phase::Waiting { budget, event } => {
                if budget > 0 {
                    if self.taken_count() == 0 {
                        song.phase = Phase::Waiting { budget: budget - IDLE_BUDGET_STEP, event };
                        let writes = [PinAction::Hold;16];
                        assert(writes@ =~= self@.tick_actions());
                        Step::Spin { cycles: IDLE_SPIN_CYCLES, writes }
                    } else {
                        let writes = self.play_buzzers();
                        song.phase = Phase::Waiting { budget: budget - ACTIVE_BUDGET_STEP, event };
                        Step::Spin { cycles: ACTIVE_SPIN_CYCLES, writes }
                    }
                } else {
                    let outcome = self.match_music_events(&mut song.metadata, event);
                    song.phase = Phase::Selecting;
                    Step::CarriedOut { event, outcome }
                }
            },
            Phase::Selecting => {
                match song.select_next() {
                    None => {
                        self.reset();
                        song.phase = Phase::Finished;
                        Step::Finished
                    },
                    Some((track, delay, event)) => {
                        proof {
                            lemma_earliest(deltas_of(old(song)@.heads));
                        }
                        let micros = Self::delta_to_micros(delay, &song.metadata);
                        let budget = self.calibration().wait_budget(micros);
                        song.phase = Phase::Waiting { budget, event };
                        Step::Picked { track, budget }
                    },
                }
            },
        }
    }
}

/// The heads of a song are the heads of its timeline.
pub proof fn lemma_timeline_heads(song: PlaybackView)
    requires
        song.tracks_fit(),
    ensures
        heads_of(song.timeline()) == deltas_of(song.heads),
{
    assert(heads_of(song.timeline()) =~= deltas_of(song.heads));
}

/// Picking an event from a song is one step of the merge on its timeline.
pub proof fn lemma_pick_is_merge_step(song: PlaybackView)
    requires
        song.tracks_fit(),
        song.next_pick() >= 0,
    ensures
        song.picked().tracks_fit(),
        song.picked().timeline() == after(song.timeline(), song.next_pick()),
{
    let index = song.next_pick();
    lemma_earliest(deltas_of(song.heads));
    lemma_timeline_heads(song);
    let moved = song.picked();
    let items = song.coming[index];
    assert(deltas_of(song.heads)[index] is Some);
    assert(index < song.coming.len()) by {
        if index >= song.coming.len() {
            assert(song.heads[index] is None);
        }
    }
    assert forall|track: int| moved.coming.len() <= track < 16 implies (#[trigger] moved.heads[track])
        is None by {
        assert(song.heads[track] is None);
    }
    assert forall|track: int| 0 <= track < 16 implies moved.timeline()[track] == after(
        song.timeline(),
        index,
    )[track] by {
        if track == index {
            if items.len() > 0 && items[0] is Some {
                assert(moved.timeline()[track] =~= ticks_to_come(items));
            }
            assert(song.timeline()[index].skip(1) =~= ticks_to_come(items));
        } else if track < song.coming.len() && song.heads[track] is Some {
            assert(deltas_of(song.heads)[track] is Some);
            assert(deltas_of(song.heads)[index]->Some_0 <= deltas_of(song.heads)[track]->Some_0);
            assert(moved.timeline()[track] =~= song.timeline()[track].update(
                0,
                (song.timeline()[track][0] - song.timeline()[index][0]) as nat,
            ));
        } else {
            if track < song.coming.len() {
                assert(moved.heads[track] is None);
            } else {
                assert(song.heads[track] is None);
            }
        }
    }
    assert(moved.timeline() =~= after(song.timeline(), index));
}

/// The events that are picked from a song, one after the other, are the
/// merge of its timeline: what `select_next` returns call after call is
/// what the model of the merge plays.
pub proof fn lemma_song_follows_merge(song: PlaybackView, steps: nat)
    requires
        song.tracks_fit(),
    ensures
        song.picks(steps) == merged(song.timeline(), steps),
    decreases steps,
{
    lemma_timeline_heads(song);
    if steps > 0 && song.next_pick() >= 0 {
        lemma_earliest(deltas_of(song.heads));
        lemma_pick_is_merge_step(song);
        lemma_song_follows_merge(song.picked(), (steps - 1) as nat);
        let index = song.next_pick();
        assert(deltas_of(song.heads)[index] is Some);
        assert(song.timeline()[index][0] == song.heads[index]->Some_0.0);
    }
}

/// A song is played in the order of its time: of two events that are picked
/// from it, the later one is never due at an earlier tick, and where both
/// fall on the same tick the later one is not from a lower track. Every
/// event is picked at the tick that its own track counts up to it.
pub proof fn lemma_song_plays_in_order(song: PlaybackView, steps: nat, earlier: int, later: int)
    requires
        song.tracks_fit(),
        0 <= earlier < later < song.picks(steps).len(),
    ensures
        tick_of(song.picks(steps), earlier) <= tick_of(song.picks(steps), later),
        tick_of(song.picks(steps), earlier) == tick_of(song.picks(steps), later) ==> song.picks(
            steps,
        )[earlier].0 <= song.picks(steps)[later].0,
        tick_of(song.picks(steps), later) == own_tick(
            song.timeline()[song.picks(steps)[later].0],
            played_before(song.picks(steps), song.picks(steps)[later].0, later) as int,
        ),
{
    lemma_song_follows_merge(song, steps);
    lemma_merge_order(song.timeline(), steps, earlier, later);
    lemma_merge_keeps_time(song.timeline(), steps, later);
}

/// A change of tempo governs the very next conversion of ticks: after a
/// tempo event the microseconds of any delta are worked out at the new
/// tempo, and the time base is the one of the header.
pub proof fn lemma_tempo_applies_at_once(meta: SongMetaData, tempo: u32, delta: u16)
    ensures
        applied(meta, EventKind::Tempo(tempo)).micros_for(delta as int) == delta * tempo / (
        meta.ticks_per_quarter as int),
        applied(meta, EventKind::Tempo(tempo)).ticks_per_quarter == meta.ticks_per_quarter,
{
}

/// A change of tempo governs the wait of the event that follows it: where
/// one step carries out a tempo event and the next step picks an event, the
/// waiting budget of the picked event is worked out at the new tempo, also
/// where both events fall on the same tick.
pub proof fn lemma_tempo_governs_next_wait(
    player: PlayerView,
    song: PlaybackView,
    tempo: u32,
    player_between: PlayerView,
    song_between: PlaybackView,
    carried: Step,
    player_after: PlayerView,
    song_after: PlaybackView,
    picked: Step,
)
    requires
        song.phase matches Phase::Waiting { budget, event } && budget <= 0 && event
            == EventKind::Tempo(tempo),
        step_law(player, song, player_between, song_between, carried),
        step_law(player_between, song_between, player_after, song_after, picked),
        earliest(deltas_of(song.heads)) >= 0,
    ensures
        picked matches Step::Picked { track, budget } && track == earliest(deltas_of(song.heads))
            && budget == (PlaybackView {
            metadata: SongMetaData { tempo, ..song.metadata },
            ..song
        }).budget_for(player, song.heads[track as int]->Some_0.0),
        song_after.phase matches Phase::Waiting { budget, event } && event
            == song.heads[earliest(deltas_of(song.heads))]->Some_0.1 && (picked
            matches Step::Picked { track, budget: granted } && granted == budget),
{
    lemma_earliest(deltas_of(song.heads));
}

} // verus!

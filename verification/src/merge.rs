//! Merging the tracks of a song into one timeline.
//!
//! Every track that still has events shows its next one, the head, together
//! with the ticks that remain until it is due. The merger picks the head that
//! is due first, the lowest track winning a tie, and takes its remaining
//! ticks off every other head. Nothing is sorted and nothing is copied: one
//! step looks at each track once.
//!
//! The second half of this file is a model of the whole merge on plain
//! sequences of delta times, and the proof that it plays the events in the
//! order of their time, and simultaneous events in the order of their tracks.

use vstd::prelude::*;
use crate::event::EventKind;

verus! {

/// The next event of a track and the ticks until it is due, or nothing for a
/// track that has come to its end.
pub type Head = Option<(u16, EventKind)>;

/// The ticks until each head is due.
pub open spec fn deltas_of(heads: Seq<Head>) -> Seq<Option<nat>> {
    heads.map_values(
        |head: Head|
            match head {
                Some((delta, _)) => Some(delta as nat),
                None => None,
            },
    )
}

/// The index of the head that is due first, the lowest index among equals,
/// or -1 where there is no head.
pub open spec fn earliest(deltas: Seq<Option<nat>>) -> int
    decreases deltas.len(),
{
    if deltas.len() == 0 {
        -1
    } else {
        let best = earliest(deltas.drop_last());
        match deltas.last() {
            None => best,
            Some(delta) => if best < 0 || delta < deltas[best]->Some_0 {
                deltas.len() - 1
            } else {
                best
            },
        }
    }
}

/// `index` holds a head, no head is due before it, and every head below it
/// is due strictly later.
pub open spec fn is_earliest(deltas: Seq<Option<nat>>, index: int) -> bool {
    &&& 0 <= index < deltas.len()
    &&& deltas[index] is Some
    &&& forall|j: int|
        0 <= j < deltas.len() && (#[trigger] deltas[j]) is Some ==> deltas[index]->Some_0
            <= deltas[j]->Some_0
    &&& forall|j: int|
        0 <= j < index && (#[trigger] deltas[j]) is Some ==> deltas[index]->Some_0
            < deltas[j]->Some_0
}

/// The heads after the one at `index` was taken and replaced by `next`: every
/// other head is due that much sooner.
pub open spec fn advanced(heads: Seq<Head>, index: int, next: Head) -> Seq<Head> {
    Seq::new(
        heads.len(),
        |track: int|
            if track == index {
                next
            } else {
                match heads[track] {
                    Some((delta, event)) => Some(((delta - heads[index]->Some_0.0) as u16, event)),
                    None => None,
                }
            },
    )
}

/// `earliest` answers -1 exactly where there is no head, and otherwise the
/// one index that `is_earliest` describes.
pub proof fn lemma_earliest(deltas: Seq<Option<nat>>)
    ensures
        -1 <= earliest(deltas) < deltas.len(),
        earliest(deltas) < 0 <==> (forall|j: int|
            0 <= j < deltas.len() ==> (#[trigger] deltas[j]) is None),
        earliest(deltas) >= 0 ==> is_earliest(deltas, earliest(deltas)),
    decreases deltas.len(),
{
    if deltas.len() > 0 {
        let front = deltas.drop_last();
        lemma_earliest(front);
        let best = earliest(front);
        let found = earliest(deltas);
        assert forall|j: int| 0 <= j < front.len() implies front[j] == deltas[j] by {}
        if found < 0 {
            assert forall|j: int| 0 <= j < deltas.len() implies (#[trigger] deltas[j]) is None by {
                if j < front.len() {
                    assert(front[j] is None);
                }
            }
        } else {
            assert(deltas[found] is Some);
            assert forall|j: int| 0 <= j < deltas.len() && (#[trigger] deltas[j]) is Some implies
                deltas[found]->Some_0 <= deltas[j]->Some_0 by {
                if j < front.len() {
                    assert(front[j] is Some);
                }
            }
            assert forall|j: int| 0 <= j < found && (#[trigger] deltas[j]) is Some implies
                deltas[found]->Some_0 < deltas[j]->Some_0 by {
                assert(front[j] is Some);
            }
        }
        if forall|j: int| 0 <= j < deltas.len() ==> (#[trigger] deltas[j]) is None {
            assert(deltas[deltas.len() - 1] is None);
            assert forall|j: int| 0 <= j < front.len() implies (#[trigger] front[j]) is None by {
                assert(deltas[j] is None);
            }
        }
    }
}

/// Only one index can be the earliest.
pub proof fn lemma_earliest_unique(deltas: Seq<Option<nat>>, index: int)
    requires
        is_earliest(deltas, index),
    ensures
        earliest(deltas) == index,
{
    lemma_earliest(deltas);
    let found = earliest(deltas);
    assert(deltas[index] is Some);
    assert(found >= 0);
    if found < index {
        assert(deltas[found] is Some);
    } else if index < found {
        assert(deltas[index] is Some);
    }
}

/// Finds the track whose head is due first; among heads that are due at the
/// same time the lowest track wins. A head that is due at once is taken
/// without looking further.
pub fn find_min_index(list: &[Head; 16]) -> (index: usize)
    requires
        exists|j: int| 0 <= j < 16 && (#[trigger] list@[j]) is Some,
    ensures
        index < 16,
        list@[index as int] is Some,
        index == earliest(deltas_of(list@)),
{
    let ghost deltas = deltas_of(list@);
    let mut min_index: usize = 0;
    let mut min_delta: u16 = 0;
    let mut found: bool = false;
    let mut i: usize = 0;
    while i < 16
        invariant
            i <= 16,
            deltas == deltas_of(list@),
            deltas.len() == 16,
            found ==> min_index < i && is_earliest(deltas.take(i as int), min_index as int)
                && deltas[min_index as int] == Some(min_delta as nat) && min_delta > 0,
            !found ==> forall|j: int| 0 <= j < i ==> (#[trigger] deltas[j]) is None,
        decreases 16 - i,
    {
        let ghost seen = deltas.take(i as int);
        let ghost wider = deltas.take(i as int + 1);
        assert forall|j: int| 0 <= j < i implies seen[j] == wider[j] by {}
        if let Some((delta, _)) = list[i] {
            assert(deltas[i as int] == Some(delta as nat));
            if delta == 0 {
                proof {
                    assert forall|j: int| 0 <= j < i && (#[trigger] deltas[j]) is Some implies 0
                        < deltas[j]->Some_0 by {
                        assert(seen[j] is Some);
                    }
                    assert(is_earliest(deltas, i as int));
                    lemma_earliest_unique(deltas, i as int);
                }
                return i;
            } else if !found || delta < min_delta {
                proof {
                    assert forall|j: int| 0 <= j < wider.len() && (#[trigger] wider[j]) is Some implies
                        wider[i as int]->Some_0 <= wider[j]->Some_0 by {
                        if j < i {
                            assert(seen[j] is Some);
                        }
                    }
                    assert forall|j: int| 0 <= j < i && (#[trigger] wider[j]) is Some implies
                        wider[i as int]->Some_0 < wider[j]->Some_0 by {
                        assert(seen[j] is Some);
                    }
                }
                min_index = i;
                min_delta = delta;
                found = true;
            } else {
                proof {
                    assert forall|j: int| 0 <= j < wider.len() && (#[trigger] wider[j]) is Some implies
                        wider[min_index as int]->Some_0 <= wider[j]->Some_0 by {
                        if j < i {
                            assert(seen[j] is Some);
                        }
                    }
                    assert forall|j: int| 0 <= j < min_index && (#[trigger] wider[j]) is Some implies
                        wider[min_index as int]->Some_0 < wider[j]->Some_0 by {
                        assert(seen[j] is Some);
                    }
                }
            }
        } else {
            assert(deltas[i as int] is None);
            proof {
                if found {
                    assert forall|j: int| 0 <= j < wider.len() && (#[trigger] wider[j]) is Some implies
                        wider[min_index as int]->Some_0 <= wider[j]->Some_0 by {
                        assert(seen[j] is Some);
                    }
                    assert forall|j: int| 0 <= j < min_index && (#[trigger] wider[j]) is Some implies
                        wider[min_index as int]->Some_0 < wider[j]->Some_0 by {
                        assert(seen[j] is Some);
                    }
                }
            }
        }
        i += 1;
    }
    proof {
        assert(deltas.take(16) =~= deltas);
        if !found {
            let j = choose|j: int| 0 <= j < 16 && (#[trigger] list@[j]) is Some;
            assert(deltas[j] is Some);
        }
        lemma_earliest_unique(deltas, min_index as int);
    }
    min_index
}

/// Whether any track still shows a head.
pub fn any_pending(list: &[Head; 16]) -> (pending: bool)
    ensures
        pending == (exists|j: int| 0 <= j < 16 && (#[trigger] list@[j]) is Some),
        pending == (earliest(deltas_of(list@)) >= 0),
{
    let mut i: usize = 0;
    proof {
        lemma_earliest(deltas_of(list@));
    }
    while i < 16
        invariant
            i <= 16,
            forall|j: int| 0 <= j < i ==> (#[trigger] list@[j]) is None,
            earliest(deltas_of(list@)) < 0 <==> (forall|j: int|
                0 <= j < deltas_of(list@).len() ==> (#[trigger] deltas_of(list@)[j]) is None),
        decreases 16 - i,
    {
        if list[i].is_some() {
            assert(deltas_of(list@)[i as int] is Some);
            return true;
        }
        i += 1;
    }
    assert forall|j: int| 0 <= j < deltas_of(list@).len() implies (#[trigger] deltas_of(
        list@,
    )[j]) is None by {
        assert(list@[j] is None);
    }
    false
}

/// Takes the head at `index` and puts `next` in its place; every other head
/// is then due sooner by the ticks that the taken head had left.
pub fn advance(list: &mut [Head; 16], index: usize, next: Head)
    requires
        index < 16,
        index == earliest(deltas_of(old(list)@)),
    ensures
        final(list)@ == advanced(old(list)@, index as int, next),
{
    proof {
        lemma_earliest(deltas_of(old(list)@));
    }
    let ghost before = list@;
    let delay: u16 = match list[index] {
        Some((delta, _)) => delta,
        None => 0,
    };
    assert(deltas_of(before)[index as int] is Some);
    let mut i: usize = 0;
    while i < 16
        invariant
            i <= 16,
            index < 16,
            before.len() == 16,
            before[index as int] is Some,
            delay == before[index as int]->Some_0.0,
            is_earliest(deltas_of(before), index as int),
            forall|j: int| 0 <= j < i ==> #[trigger] list@[j] == advanced(before, index as int, next)[j],
            forall|j: int| i <= j < 16 ==> #[trigger] list@[j] == before[j],
        decreases 16 - i,
    {
        if i == index {
            list[i] = next;
        } else if let Some((delta, event)) = list[i] {
            assert(deltas_of(before)[i as int] is Some);
            assert(deltas_of(before)[i as int]->Some_0 == delta);
            assert(deltas_of(before)[index as int]->Some_0 == delay);
            list[i] = Some((delta - delay, event));
        }
        i += 1;
    }
    assert(list@ =~= advanced(before, index as int, next));
}

/// The tracks of a song as the merger sees them: for each track the delta
/// times of the events still to come. The first delta of a track counts from
/// now, each later one from the event before it.
pub type Timeline = Seq<Seq<nat>>;

/// One event of the merged timeline: its track and the ticks that pass
/// between the event before it and itself.
pub type Played = (int, nat);

/// The heads that a timeline shows.
pub open spec fn heads_of(tracks: Timeline) -> Seq<Option<nat>> {
    tracks.map_values(
        |track: Seq<nat>|
            if track.len() > 0 {
                Some(track[0])
            } else {
                None
            },
    )
}

/// The timeline after the head of track `index` was played.
pub open spec fn after(tracks: Timeline, index: int) -> Timeline {
    Seq::new(
        tracks.len(),
        |track: int|
            if track == index {
                tracks[index].skip(1)
            } else if tracks[track].len() > 0 {
                tracks[track].update(0, (tracks[track][0] - tracks[index][0]) as nat)
            } else {
                tracks[track]
            },
    )
}

/// The first `steps` events that the merger plays from a timeline, or all of
/// them where there are fewer.
pub open spec fn merged(tracks: Timeline, steps: nat) -> Seq<Played>
    decreases steps,
{
    let index = earliest(heads_of(tracks));
    if steps == 0 || index < 0 {
        Seq::empty()
    } else {
        seq![(index, tracks[index][0])] + merged(after(tracks, index), (steps - 1) as nat)
    }
}

/// The tick at which the event at `position` of a merged timeline is played,
/// counted from the start of the merge.
pub open spec fn tick_of(played: Seq<Played>, position: int) -> nat
    decreases position + 1,
{
    if position < 0 {
        0
    } else {
        tick_of(played, position - 1) + played[position].1
    }
}

/// The tick of an event of a merge, seen from the merge of what remains
/// after its first event.
proof fn lemma_tick_of_tail(first: Played, rest: Seq<Played>, position: int)
    requires
        0 <= position < rest.len(),
    ensures
        tick_of(seq![first] + rest, position + 1) == first.1 + tick_of(rest, position),
    decreases position,
{
    let whole = seq![first] + rest;
    assert(whole[position + 1] == rest[position]);
    assert(whole[0] == first);
    if position > 0 {
        lemma_tick_of_tail(first, rest, position - 1);
    } else {
        assert(tick_of(whole, 0) == tick_of(whole, -1) + whole[0].1);
        assert(tick_of(rest, -1) == 0);
    }
}

/// No event is played from a track before the head of that track is due.
proof fn lemma_not_before_head(tracks: Timeline, steps: nat, position: int)
    requires
        0 <= position < merged(tracks, steps).len(),
    ensures
        0 <= merged(tracks, steps)[position].0 < tracks.len(),
        tracks[merged(tracks, steps)[position].0].len() > 0,
        tick_of(merged(tracks, steps), position) >= tracks[merged(tracks, steps)[position].0][0],
    decreases steps,
{
    let index = earliest(heads_of(tracks));
    lemma_earliest(heads_of(tracks));
    let first = (index, tracks[index][0]);
    let later = after(tracks, index);
    let rest = merged(later, (steps - 1) as nat);
    let whole = merged(tracks, steps);
    assert(whole == seq![first] + rest);
    assert(heads_of(tracks)[index] is Some);
    if position == 0 {
        assert(whole[0] == first);
        assert(tick_of(whole, 0) == tick_of(whole, -1) + whole[0].1);
    } else {
        lemma_not_before_head(later, (steps - 1) as nat, position - 1);
        lemma_tick_of_tail(first, rest, position - 1);
        assert(whole[position] == rest[position - 1]);
        let track = whole[position].0;
        if track != index {
            assert(heads_of(tracks)[track] is Some);
        }
    }
}

/// The merger plays the events of all tracks in the order of their time: a
/// later position in the merged timeline never has an earlier tick. Events
/// that fall on the same tick are played in the order of their tracks, the
/// lowest track first.
pub proof fn lemma_merge_order(tracks: Timeline, steps: nat, earlier: int, later: int)
    requires
        0 <= earlier < later < merged(tracks, steps).len(),
    ensures
        tick_of(merged(tracks, steps), earlier) <= tick_of(merged(tracks, steps), later),
        tick_of(merged(tracks, steps), earlier) == tick_of(merged(tracks, steps), later)
            ==> merged(tracks, steps)[earlier].0 <= merged(tracks, steps)[later].0,
    decreases steps,
{
    let index = earliest(heads_of(tracks));
    lemma_earliest(heads_of(tracks));
    let first = (index, tracks[index][0]);
    let next = after(tracks, index);
    let rest = merged(next, (steps - 1) as nat);
    let whole = merged(tracks, steps);
    assert(whole == seq![first] + rest);
    lemma_tick_of_tail(first, rest, later - 1);
    assert(whole[later] == rest[later - 1]);
    if earlier == 0 {
        assert(whole[0] == first);
        assert(tick_of(whole, 0) == tick_of(whole, -1) + whole[0].1);
        lemma_not_before_head(next, (steps - 1) as nat, later - 1);
        let track = whole[later].0;
        if tick_of(whole, later) == tick_of(whole, 0) && track < index {
            assert(next[track][0] == 0);
            assert(heads_of(tracks)[track] is Some);
            assert(heads_of(tracks)[index]->Some_0 < heads_of(tracks)[track]->Some_0);
        }
    } else {
        lemma_tick_of_tail(first, rest, earlier - 1);
        assert(whole[earlier] == rest[earlier - 1]);
        lemma_merge_order(next, (steps - 1) as nat, earlier - 1, later - 1);
    }
}

/// How many of the first `upto` events of a merged timeline come from
/// `track`.
pub open spec fn played_before(played: Seq<Played>, track: int, upto: int) -> nat
    decreases upto,
{
    if upto <= 0 {
        0
    } else if played[upto - 1].0 == track {
        played_before(played, track, upto - 1) + 1
    } else {
        played_before(played, track, upto - 1)
    }
}

/// The tick of the event at `number` of a track, counted from the start of
/// the track: the sum of its delta times up to and including that event.
pub open spec fn own_tick(deltas: Seq<nat>, number: int) -> nat
    decreases number + 1,
{
    if number < 0 {
        0
    } else {
        own_tick(deltas, number - 1) + deltas[number]
    }
}

/// The number of events of a timeline.
pub open spec fn pending(tracks: Timeline) -> nat
    decreases tracks.len(),
{
    if tracks.len() == 0 {
        0
    } else {
        pending(tracks.drop_last()) + tracks.last().len()
    }
}

proof fn lemma_played_before_tail(first: Played, rest: Seq<Played>, track: int, upto: int)
    requires
        0 <= upto <= rest.len(),
    ensures
        played_before(seq![first] + rest, track, upto + 1) == played_before(rest, track, upto) + (
        if first.0 == track {
            1nat
        } else {
            0nat
        }),
    decreases upto,
{
    let whole = seq![first] + rest;
    if upto > 0 {
        lemma_played_before_tail(first, rest, track, upto - 1);
        assert(whole[upto] == rest[upto - 1]);
    } else {
        assert(whole[0] == first);
        assert(played_before(whole, track, 0) == 0);
    }
}

proof fn lemma_own_tick_skip(deltas: Seq<nat>, number: int)
    requires
        0 <= number < deltas.len() - 1,
    ensures
        own_tick(deltas, number + 1) == deltas[0] + own_tick(deltas.skip(1), number),
    decreases number,
{
    assert(deltas.skip(1)[number] == deltas[number + 1]);
    if number > 0 {
        lemma_own_tick_skip(deltas, number - 1);
    } else {
        assert(own_tick(deltas, 0) == own_tick(deltas, -1) + deltas[0]);
        assert(own_tick(deltas.skip(1), -1) == 0);
    }
}

proof fn lemma_own_tick_sooner(deltas: Seq<nat>, sooner: nat, number: int)
    requires
        0 <= number < deltas.len(),
        sooner <= deltas[0],
    ensures
        own_tick(deltas.update(0, (deltas[0] - sooner) as nat), number) + sooner == own_tick(
            deltas,
            number,
        ),
    decreases number,
{
    let moved = deltas.update(0, (deltas[0] - sooner) as nat);
    if number > 0 {
        lemma_own_tick_sooner(deltas, sooner, number - 1);
        assert(moved[number] == deltas[number]);
    } else {
        assert(own_tick(deltas, 0) == own_tick(deltas, -1) + deltas[0]);
        assert(own_tick(moved, 0) == own_tick(moved, -1) + moved[0]);
    }
}

/// The merger plays every event at the tick of its own track: the event at
/// a position of the merged timeline is the next unplayed event of its
/// track, and the ticks that have passed in the merge are the ticks that its
/// track counts up to it.
pub proof fn lemma_merge_keeps_time(tracks: Timeline, steps: nat, position: int)
    requires
        0 <= position < merged(tracks, steps).len(),
    ensures
        0 <= merged(tracks, steps)[position].0 < tracks.len(),
        played_before(merged(tracks, steps), merged(tracks, steps)[position].0, position)
            < tracks[merged(tracks, steps)[position].0].len(),
        tick_of(merged(tracks, steps), position) == own_tick(
            tracks[merged(tracks, steps)[position].0],
            played_before(merged(tracks, steps), merged(tracks, steps)[position].0, position) as int,
        ),
        merged(tracks, steps)[position].1 == tick_of(merged(tracks, steps), position) - tick_of(
            merged(tracks, steps),
            position - 1,
        ),
    decreases steps,
{
    let index = earliest(heads_of(tracks));
    lemma_earliest(heads_of(tracks));
    let first = (index, tracks[index][0]);
    let next = after(tracks, index);
    let rest = merged(next, (steps - 1) as nat);
    let whole = merged(tracks, steps);
    assert(whole == seq![first] + rest);
    assert(heads_of(tracks)[index] is Some);
    if position == 0 {
        assert(whole[0] == first);
        assert(tick_of(whole, 0) == tick_of(whole, -1) + whole[0].1);
        assert(played_before(whole, index, 0) == 0);
        assert(own_tick(tracks[index], 0) == own_tick(tracks[index], -1) + tracks[index][0]);
    } else {
        lemma_merge_keeps_time(next, (steps - 1) as nat, position - 1);
        lemma_tick_of_tail(first, rest, position - 1);
        assert(whole[position] == rest[position - 1]);
        let track = whole[position].0;
        let number = played_before(rest, track, position - 1) as int;
        lemma_played_before_tail(first, rest, track, position - 1);
        if track == index {
            lemma_own_tick_skip(tracks[index], number);
        } else {
            assert(heads_of(tracks)[track] is Some);
            assert(heads_of(tracks)[index]->Some_0 <= heads_of(tracks)[track]->Some_0);
            lemma_own_tick_sooner(tracks[track], tracks[index][0], number);
        }
    }
}

proof fn lemma_pending_one_less(before: Timeline, later: Timeline, index: int)
    requires
        before.len() == later.len(),
        0 <= index < before.len(),
        before[index].len() == later[index].len() + 1,
        forall|track: int|
            0 <= track < before.len() && track != index ==> (#[trigger] later[track]).len()
                == before[track].len(),
    ensures
        pending(before) == pending(later) + 1,
    decreases before.len(),
{
    let last = before.len() - 1;
    if index == last {
        lemma_pending_same(before.drop_last(), later.drop_last());
    } else {
        assert(later[last].len() == before[last].len());
        lemma_pending_one_less(before.drop_last(), later.drop_last(), index);
    }
}

proof fn lemma_pending_same(before: Timeline, later: Timeline)
    requires
        before.len() == later.len(),
        forall|track: int|
            0 <= track < before.len() ==> (#[trigger] later[track]).len() == before[track].len(),
    ensures
        pending(before) == pending(later),
    decreases before.len(),
{
    if before.len() > 0 {
        assert(later[before.len() - 1].len() == before[before.len() - 1].len());
        lemma_pending_same(before.drop_last(), later.drop_last());
    }
}

proof fn lemma_pending_none(tracks: Timeline)
    requires
        forall|track: int| 0 <= track < tracks.len() ==> (#[trigger] tracks[track]).len() == 0,
    ensures
        pending(tracks) == 0,
    decreases tracks.len(),
{
    if tracks.len() > 0 {
        assert(tracks[tracks.len() - 1].len() == 0);
        lemma_pending_none(tracks.drop_last());
    }
}

/// The merger plays every event, and none twice: given steps enough, the
/// merged timeline is as long as the tracks have events, and given fewer it
/// is as long as the steps allow.
pub proof fn lemma_merge_plays_all(tracks: Timeline, steps: nat)
    ensures
        merged(tracks, steps).len() == if steps < pending(tracks) {
            steps
        } else {
            pending(tracks)
        },
    decreases steps,
{
    let index = earliest(heads_of(tracks));
    lemma_earliest(heads_of(tracks));
    if index < 0 {
        assert forall|track: int| 0 <= track < tracks.len() implies (#[trigger] tracks[track]).len()
            == 0 by {
            assert(heads_of(tracks)[track] is None);
        }
        lemma_pending_none(tracks);
    } else {
        assert(heads_of(tracks)[index] is Some);
        let next = after(tracks, index);
        lemma_pending_one_less(tracks, next, index);
        if steps > 0 {
            lemma_merge_plays_all(next, (steps - 1) as nat);
        }
    }
}

/// A track that has come to its end stays ended: the merger never picks it
/// again, and taking the head of another track gives it no head.
pub proof fn lemma_ended_track_stays_ended(heads: Seq<Head>, track: int, next: Head)
    requires
        0 <= track < heads.len(),
        heads[track] is None,
    ensures
        earliest(deltas_of(heads)) != track,
        earliest(deltas_of(heads)) >= 0 ==> advanced(heads, earliest(deltas_of(heads)), next)[track]
            is None,
{
    lemma_earliest(deltas_of(heads));
    assert(deltas_of(heads)[track] is None);
}

/// One step of the merger on the heads is one step of the model: where the
/// heads show what a timeline shows, and the head that replaces the taken
/// one is the next event of its track, the advanced heads show the timeline
/// after that step.
pub proof fn lemma_heads_follow_timeline(heads: Seq<Head>, tracks: Timeline, next: Head)
    requires
        deltas_of(heads) == heads_of(tracks),
        earliest(heads_of(tracks)) >= 0,
        deltas_of(seq![next]) == heads_of(seq![tracks[earliest(heads_of(tracks))].skip(1)]),
    ensures
        deltas_of(advanced(heads, earliest(heads_of(tracks)), next)) == heads_of(
            after(tracks, earliest(heads_of(tracks))),
        ),
{
    let index = earliest(heads_of(tracks));
    lemma_earliest(heads_of(tracks));
    let moved = advanced(heads, index, next);
    let later = after(tracks, index);
    assert(deltas_of(heads).len() == heads.len());
    assert(heads_of(tracks).len() == tracks.len());
    assert forall|track: int| 0 <= track < heads.len() implies deltas_of(moved)[track] == heads_of(
        later,
    )[track] by {
        assert(deltas_of(heads)[track] == heads_of(tracks)[track]);
        assert(deltas_of(heads)[index] == heads_of(tracks)[index]);
        if track == index {
            assert(deltas_of(seq![next])[0] == heads_of(seq![tracks[index].skip(1)])[0]);
        } else if heads[track] is Some {
            assert(heads_of(tracks)[track] is Some);
            assert(heads_of(tracks)[index]->Some_0 <= heads_of(tracks)[track]->Some_0);
        }
    }
    assert(deltas_of(moved) =~= heads_of(later));
}

} // verus!

//! The event source: a Standard MIDI File read through `midly`.
//!
//! `midly` (0.5.3, without its `strict` feature) parses lazily. It hands out
//! the header, then one iterator per track, and each of those parses its
//! events as they are asked for. What it returns is opaque to the proofs of
//! this crate, so the first part of this file only carries its values
//! across, one call at a time, and gives names to what they hold: what the
//! bytes parse to, what an iterator has yet to yield, and how an event
//! reads. Nothing in that part is proved. It rests on `midly` answering the
//! same for the same bytes, and on the ranges that it documents for its
//! integers. The second part turns what was carried across into the plain
//! values of this crate, and that part is proved.

use vstd::prelude::*;
use crate::event::EventKind;
use crate::event::Timing;
use crate::merge::Head;

verus! {

/// `midly::TrackIter`, the lazy iterator over the tracks of a file.
#[verifier::external_type_specification]
#[verifier::external_body]
pub struct ExTrackIter<'a>(midly::TrackIter<'a>);

/// `midly::EventIter`, the lazy iterator over the events of a track.
#[verifier::external_type_specification]
#[verifier::external_body]
pub struct ExEventIter<'a>(midly::EventIter<'a>);

/// `midly::TrackEvent`, one parsed event with its delta time.
#[verifier::external_type_specification]
#[verifier::external_body]
pub struct ExTrackEvent<'a>(midly::TrackEvent<'a>);

/// `midly::Error`, the reason why bytes could not be parsed.
#[verifier::external_type_specification]
#[verifier::external_body]
pub struct ExMidlyError(midly::Error);

/// How an event reads: its delta time, what it asks for as a channel
/// message, and what it asks for as a meta message.
pub struct Reading {
    pub delta: u32,
    pub channel: Option<EventKind>,
    pub meta: Option<EventKind>,
}

/// What a track has yet to yield, one item for each call that yields
/// something: how the event reads, or nothing for an error in its place.
pub type TrackItems = Seq<Option<Reading>>;

/// What `midly::parse` makes of the bytes: how the header measures time and
/// what the iterator over the tracks then has to yield, or nothing where it
/// refuses the bytes.
pub uninterp spec fn smf_parsed(raw: Seq<u8>) -> Option<(Timing, Seq<Option<TrackItems>>)>;

/// What an iterator over tracks has yet to yield, one item for each call
/// that yields something: what the track has to yield, or nothing for an
/// error in its place.
pub uninterp spec fn tracks_left(chunks: midly::TrackIter<'_>) -> Seq<Option<TrackItems>>;

/// The bytes that an iterator over tracks has not read yet.
pub uninterp spec fn unread(chunks: midly::TrackIter<'_>) -> Seq<u8>;

/// What an iterator over the events of a track has yet to yield.
pub uninterp spec fn coming(events: midly::EventIter<'_>) -> TrackItems;

/// What each of the track iterators in a vector has yet to yield.
pub uninterp spec fn held(tracks: heapless::Vec<midly::EventIter<'_>, 16>) -> Seq<TrackItems>;

/// The delta time of an event.
pub uninterp spec fn delta_read(event: midly::TrackEvent<'_>) -> u32;

/// What an event asks for as a channel message, if it is one.
pub uninterp spec fn channel_read(event: midly::TrackEvent<'_>) -> Option<EventKind>;

/// What an event asks for as a meta message, if it is one.
pub uninterp spec fn meta_read(event: midly::TrackEvent<'_>) -> Option<EventKind>;

/// How an event reads.
pub open spec fn reading_of(event: midly::TrackEvent<'_>) -> Reading {
    Reading { delta: delta_read(event), channel: channel_read(event), meta: meta_read(event) }
}

/// The bytes at `at` are the mark of a header chunk whose time code, twelve
/// bytes on, starts with the byte 0x80.
pub open spec fn marks_unsafe_header(raw: Seq<u8>, at: int) -> bool {
    &&& 0 <= at
    &&& at + 12 < raw.len()
    &&& raw[at] == 0x4d
    &&& raw[at + 1] == 0x54
    &&& raw[at + 2] == 0x68
    &&& raw[at + 3] == 0x64
    &&& raw[at + 12] == 0x80
}

/// Somewhere in the bytes stands what may be a header chunk with a time
/// code of -128 frames. `midly` negates the frame count of every header
/// chunk that it comes across, and this one it cannot negate.
pub open spec fn has_unsafe_header(raw: Seq<u8>) -> bool {
    exists|at: int| marks_unsafe_header(raw, at)
}

/// `midly::parse`: reads the header of a file and returns how it measures
/// time, together with the iterator over its tracks. What it answers depends
/// on the bytes alone. Ticks to a quarter note are a fifteen-bit integer.
/// Bytes with an unsafe header are left out: on them the call may overflow.
/// What the iterator has not read yet is a part of the bytes, so it holds no
/// unsafe header either.
#[verifier::external_body]
pub(crate) fn parse_smf<'a>(raw: &'a [u8]) -> (parsed: Result<
    (Timing, midly::TrackIter<'a>),
    midly::Error,
>)
    requires
        !has_unsafe_header(raw@),
    ensures
        parsed is Err ==> smf_parsed(raw@) is None,
        parsed matches Ok((timing, chunks)) ==> smf_parsed(raw@) == Some(
            (timing, tracks_left(chunks)),
        ),
        parsed matches Ok((Timing::Metrical(ticks), _)) ==> ticks < 0x8000,
        parsed matches Ok((_, chunks)) ==> !has_unsafe_header(unread(chunks)),
{
    let (header, tracks) = midly::parse(raw)?;
    let timing = match header.timing {
        midly::Timing::Metrical(ticks) => Timing::Metrical(ticks.as_int()),
        midly::Timing::Timecode(_, _) => Timing::Timecode,
    };
    Ok((timing, tracks))
}

/// `TrackIter::next`: the iterator over the events of the next track, an
/// error for a chunk that cannot be read, or nothing at the end of the file.
/// Without the `strict` feature `midly` skips such chunks and yields no
/// error. It reads every header chunk that it comes across, so bytes with an
/// unsafe header are left out; what is then left unread is the end of what
/// was unread before.
#[verifier::external_body]
pub(crate) fn next_track<'a>(chunks: &mut midly::TrackIter<'a>) -> (track: Option<
    Result<midly::EventIter<'a>, midly::Error>,
>)
    requires
        !has_unsafe_header(unread(*old(chunks))),
    ensures
        !has_unsafe_header(unread(*final(chunks))),
        tracks_left(*old(chunks)).len() == 0 ==> track is None && tracks_left(*final(chunks)).len()
            == 0,
        tracks_left(*old(chunks)).len() > 0 ==> track is Some && tracks_left(*final(chunks))
            == tracks_left(*old(chunks)).skip(1),
        track matches Some(Ok(events)) ==> tracks_left(*old(chunks))[0] == Some(coming(events)),
        track matches Some(Err(_)) ==> tracks_left(*old(chunks))[0] is None,
{
    chunks.next()
}

/// `heapless::Vec::new`: a vector without track iterators.
#[verifier::external_body]
pub(crate) fn tracks_new<'a>() -> (tracks: heapless::Vec<midly::EventIter<'a>, 16>)
    ensures
        held(tracks).len() == 0,
{
    heapless::Vec::new()
}

/// `heapless::Vec::push`: appends the track iterator, or hands it back where
/// the vector already holds sixteen.
#[verifier::external_body]
pub(crate) fn tracks_push<'a>(
    tracks: &mut heapless::Vec<midly::EventIter<'a>, 16>,
    events: midly::EventIter<'a>,
) -> (pushed: Result<(), midly::EventIter<'a>>)
    ensures
        held(*old(tracks)).len() < 16 ==> pushed is Ok && held(*final(tracks)) == held(
            *old(tracks),
        ).push(coming(events)),
        held(*old(tracks)).len() >= 16 ==> pushed is Err && held(*final(tracks)) == held(
            *old(tracks),
        ),
{
    tracks.push(events)
}

/// `EventIter::next` on the track at `index`: the next event of that track,
/// or nothing at the end of the track. Without the `strict` feature `midly`
/// ends a track at an event that it cannot parse; with it, it yields an
/// error in the place of that event. The other tracks are not touched.
#[verifier::external_body]
pub(crate) fn tracks_pull<'a>(
    tracks: &mut heapless::Vec<midly::EventIter<'a>, 16>,
    index: usize,
) -> (pulled: Option<Result<midly::TrackEvent<'a>, midly::Error>>)
    requires
        index < held(*old(tracks)).len(),
    ensures
        held(*old(tracks))[index as int].len() == 0 ==> pulled is None && held(*final(tracks))
            == held(*old(tracks)),
        held(*old(tracks))[index as int].len() > 0 ==> pulled is Some && held(*final(tracks))
            == held(*old(tracks)).update(index as int, held(*old(tracks))[index as int].skip(1)),
        pulled matches Some(Ok(event)) ==> held(*old(tracks))[index as int][0] == Some(
            reading_of(event),
        ),
        pulled matches Some(Err(_)) ==> held(*old(tracks))[index as int][0] is None,
{
    tracks[index].next()
}

/// `u28::as_int` on the delta time of an event: the ticks since the event
/// before it, a twenty-eight-bit integer.
#[verifier::external_body]
pub(crate) fn event_delta(event: &midly::TrackEvent) -> (delta: u32)
    ensures
        delta == delta_read(*event),
        delta < 0x1000_0000,
{
    event.delta.as_int()
}

/// What a channel message asks for, or nothing for an event that is no
/// channel message. Channels are four-bit integers (`u4::as_int`), keys and
/// programs seven-bit integers (`u7::as_int`).
#[verifier::external_body]
pub(crate) fn channel_event(event: &midly::TrackEvent) -> (kind: Option<EventKind>)
    ensures
        kind == channel_read(*event),
        kind matches Some(found) ==> found.wf(),
{
    let midly::TrackEventKind::Midi { channel, message } = event.kind else { return None };
    let channel = channel.as_int();
    Some(match message {
        midly::MidiMessage::NoteOff { key, .. } => EventKind::NoteOff { channel, key: key.as_int() },
        midly::MidiMessage::NoteOn { key, .. } => EventKind::NoteOn { channel, key: key.as_int() },
        midly::MidiMessage::ProgramChange { program } => EventKind::ProgramChange { channel, program: program.as_int() },
        midly::MidiMessage::Aftertouch { .. } => EventKind::Aftertouch,
        midly::MidiMessage::Controller { .. } => EventKind::Controller,
        midly::MidiMessage::ChannelAftertouch { .. } => EventKind::ChannelAftertouch,
        midly::MidiMessage::PitchBend { .. } => EventKind::PitchBend,
    })
}

/// What a meta message asks for, or nothing for an event that is no meta
/// message. A tempo is a twenty-four-bit integer (`u24::as_int`).
#[verifier::external_body]
pub(crate) fn meta_event(event: &midly::TrackEvent) -> (kind: Option<EventKind>)
    ensures
        kind == meta_read(*event),
        kind matches Some(found) ==> found.wf(),
{
    let midly::TrackEventKind::Meta(message) = event.kind else { return None };
    Some(match message {
        midly::MetaMessage::Tempo(micros) => EventKind::Tempo(micros.as_int()),
        midly::MetaMessage::TimeSignature(a, b, c, d) => EventKind::TimeSignature(a, b, c, d),
        midly::MetaMessage::KeySignature(sharps, minor) => EventKind::KeySignature(sharps, minor),
        midly::MetaMessage::EndOfTrack => EventKind::EndOfTrack,
        _ => EventKind::OtherMeta,
    })
}

/// Ticks as the merger counts them: the low sixteen bits of a delta time.
pub open spec fn ticks_of(delta: u32) -> u16 {
    (delta % 0x1_0000) as u16
}

/// What an event asks for, given how it reads as a channel and as a meta message.
pub fn classify(channel: Option<EventKind>, meta: Option<EventKind>) -> (kind: EventKind)
    ensures
        kind == classified(channel, meta),
        (channel matches Some(found) ==> found.wf()) && (meta matches Some(found) ==> found.wf())
            ==> kind.wf(),
{
    match channel {
        Some(kind) => kind,
        None => match meta {
            Some(kind) => kind,
            None => EventKind::Exclusive,
        },
    }
}

/// What an event asks for: what it asks for as a channel message where it is
/// one, else what it asks for as a meta message where it is one. An event
/// that is neither is a system exclusive message or an escape sequence.
pub open spec fn classified(channel: Option<EventKind>, meta: Option<EventKind>) -> EventKind {
    match channel {
        Some(kind) => kind,
        None => match meta {
            Some(kind) => kind,
            None => EventKind::Exclusive,
        },
    }
}

/// The head that an event makes: its ticks and what it asks for.
pub open spec fn head_of(reading: Reading) -> (u16, EventKind) {
    (ticks_of(reading.delta), classified(reading.channel, reading.meta))
}

/// The head that a track shows which has `items` yet to yield: its next
/// event, or none where nothing is left or the next event cannot be parsed.
pub open spec fn first_head(items: TrackItems) -> Head {
    if items.len() > 0 && items[0] is Some {
        Some(head_of(items[0]->Some_0))
    } else {
        None
    }
}

/// What a track has yet to yield after it was asked once.
pub open spec fn rest_of(items: TrackItems) -> TrackItems {
    if items.len() > 0 {
        items.skip(1)
    } else {
        items
    }
}

/// The tracks among what an iterator over tracks yields: every item that is
/// no error, in order.
pub open spec fn readable(chunks: Seq<Option<TrackItems>>) -> Seq<TrackItems>
    decreases chunks.len(),
{
    if chunks.len() == 0 {
        Seq::empty()
    } else if chunks[0] is Some {
        seq![chunks[0]->Some_0] + readable(chunks.skip(1))
    } else {
        readable(chunks.skip(1))
    }
}

/// How the header of the file in `raw` measures time, or nothing where
/// `midly` refuses the bytes.
pub open spec fn smf_timing(raw: Seq<u8>) -> Option<Timing> {
    match smf_parsed(raw) {
        Some((timing, _)) => Some(timing),
        None => None,
    }
}

/// What each track of the file in `raw` has to yield, or no tracks where
/// `midly` refuses the bytes.
pub open spec fn smf_tracks(raw: Seq<u8>) -> Seq<TrackItems> {
    match smf_parsed(raw) {
        Some((_, chunks)) => readable(chunks),
        None => Seq::empty(),
    }
}

/// Whether the bytes hold what may be a header chunk with a time code that
/// `midly` cannot negate.
pub fn finds_unsafe_header(raw: &[u8]) -> (found: bool)
    ensures
        found == has_unsafe_header(raw@),
{
    let mut at: usize = 0;
    while at < raw.len() && raw.len() - at > 12
        invariant
            forall|before: int| 0 <= before < at ==> !marks_unsafe_header(raw@, before),
        decreases raw.len() - at,
    {
        if raw[at] == 0x4d && raw[at + 1] == 0x54 && raw[at + 2] == 0x68 && raw[at + 3] == 0x64
            && raw[at + 12] == 0x80 {
            assert(marks_unsafe_header(raw@, at as int));
            return true;
        }
        at += 1;
    }
    false
}

/// Cuts a delta time down to the sixteen bits that the merger counts in.
pub fn ticks_from(delta: u32) -> (ticks: u16)
    ensures
        ticks == ticks_of(delta),
{
    assert((delta as u16) == delta % 0x1_0000) by (bit_vector);
    #[verifier::truncate]
    (delta as u16)
}

/// What a track yielded, as the head it makes: its event, or none where the
/// track has ended. A track whose next event cannot be parsed is treated as
/// ended, and the other tracks play on.
pub(crate) fn head_from(pulled: Option<Result<midly::TrackEvent, midly::Error>>) -> (head: Head)
    ensures
        pulled matches Some(Ok(event)) ==> head == Some(head_of(reading_of(event))),
        !(pulled matches Some(Ok(_))) ==> head is None,
        head matches Some((_, kind)) ==> kind.wf(),
{
    match pulled {
        Some(Ok(event)) => {
            let kind = classify(channel_event(&event), meta_event(&event));
            Some((ticks_from(event_delta(&event)), kind))
        },
        _ => None,
    }
}

} // verus!

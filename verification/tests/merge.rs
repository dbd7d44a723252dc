use midi_buzzer::event::EventKind;
use midi_buzzer::merge::advance;
use midi_buzzer::merge::any_pending;
use midi_buzzer::merge::find_min_index;
use midi_buzzer::merge::Head;

fn note(track: u8, number: u8) -> EventKind {
    EventKind::NoteOn { channel: track, key: number }
}

/// Merges tracks given by their delta times and returns, for each event in
/// the order it is played, its track, its number within the track and the
/// tick at which it is played.
fn merge(tracks: &[&[u16]]) -> Vec<(usize, u8, u64)> {
    let mut heads: [Head; 16] = [None; 16];
    let mut position = vec![0usize; tracks.len()];
    for (track, deltas) in tracks.iter().enumerate() {
        if !deltas.is_empty() {
            heads[track] = Some((deltas[0], note(track as u8, 0)));
            position[track] = 1;
        }
    }
    let mut played = Vec::new();
    let mut now: u64 = 0;
    while any_pending(&heads) {
        let track = find_min_index(&heads);
        let (delta, event) = heads[track].unwrap();
        now += delta as u64;
        let number = match event {
            EventKind::NoteOn { key, .. } => key,
            _ => unreachable!(),
        };
        played.push((track, number, now));
        let next = if position[track] < tracks[track].len() {
            let head = Some((tracks[track][position[track]], note(track as u8, position[track] as u8)));
            position[track] += 1;
            head
        } else {
            None
        };
        advance(&mut heads, track, next);
    }
    played
}

#[test]
fn two_tracks_interleave_by_time() {
    let played = merge(&[&[0, 10], &[5, 0]]);
    assert_eq!(played, vec![(0, 0, 0), (1, 0, 5), (1, 1, 5), (0, 1, 10)]);
}

#[test]
fn the_lowest_track_wins_a_tie() {
    let played = merge(&[&[5, 0], &[5], &[0, 5, 0]]);
    assert_eq!(
        played,
        vec![(2, 0, 0), (0, 0, 5), (0, 1, 5), (1, 0, 5), (2, 1, 5), (2, 2, 5)]
    );
}

#[test]
fn simultaneous_events_drain_before_time_moves_on() {
    let played = merge(&[&[0, 0, 0, 7], &[0, 0, 3]]);
    let ticks: Vec<u64> = played.iter().map(|event| event.2).collect();
    assert_eq!(ticks, vec![0, 0, 0, 0, 0, 3, 7]);
    let tracks: Vec<usize> = played.iter().map(|event| event.0).collect();
    assert_eq!(tracks, vec![0, 0, 0, 1, 1, 1, 0]);
}

#[test]
fn every_event_is_played_at_the_time_of_its_own_track() {
    let tracks: [&[u16]; 4] = [&[3, 4, 5, 0, 9], &[], &[1, 1, 1, 1, 1, 1, 1, 30], &[12, 0, 0, 1]];
    let played = merge(&tracks);
    assert_eq!(played.len(), 17);
    for window in played.windows(2) {
        assert!(window[0].2 < window[1].2 || (window[0].2 == window[1].2 && window[0].0 <= window[1].0));
    }
    for &(track, number, tick) in &played {
        let own: u64 = tracks[track][..=number as usize].iter().map(|&delta| delta as u64).sum();
        assert_eq!(tick, own);
    }
}

#[test]
fn the_largest_delta_can_be_picked() {
    let mut heads: [Head; 16] = [None; 16];
    heads[3] = Some((u16::MAX, EventKind::EndOfTrack));
    heads[9] = Some((u16::MAX, EventKind::Tempo(1)));
    assert_eq!(find_min_index(&heads), 3);
    advance(&mut heads, 3, None);
    assert_eq!(heads[9], Some((0, EventKind::Tempo(1))));
    assert_eq!(heads[3], None);
    assert_eq!(find_min_index(&heads), 9);
}

#[test]
fn a_head_that_is_due_at_once_is_taken_first() {
    let mut heads: [Head; 16] = [None; 16];
    heads[0] = Some((4, EventKind::EndOfTrack));
    heads[5] = Some((0, EventKind::Tempo(5)));
    heads[7] = Some((0, EventKind::Tempo(7)));
    assert_eq!(find_min_index(&heads), 5);
    advance(&mut heads, 5, Some((2, EventKind::Tempo(6))));
    assert_eq!(heads[0], Some((4, EventKind::EndOfTrack)));
    assert_eq!(heads[5], Some((2, EventKind::Tempo(6))));
    assert_eq!(find_min_index(&heads), 7);
}

#[test]
fn taking_a_head_brings_the_others_closer() {
    let mut heads: [Head; 16] = [None; 16];
    heads[1] = Some((30, EventKind::Controller));
    heads[2] = Some((10, EventKind::PitchBend));
    heads[15] = Some((10, EventKind::Aftertouch));
    assert!(any_pending(&heads));
    assert_eq!(find_min_index(&heads), 2);
    advance(&mut heads, 2, Some((100, EventKind::EndOfTrack)));
    assert_eq!(heads[1], Some((20, EventKind::Controller)));
    assert_eq!(heads[2], Some((100, EventKind::EndOfTrack)));
    assert_eq!(heads[15], Some((0, EventKind::Aftertouch)));
    assert_eq!(heads[0], None);
}

#[test]
fn nothing_is_pending_without_heads() {
    let heads: [Head; 16] = [None; 16];
    assert!(!any_pending(&heads));
}

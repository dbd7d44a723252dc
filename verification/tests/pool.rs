use heapless::Deque;
use midi_buzzer::buzzer::PinAction;
use midi_buzzer::buzzer::SoundBuzzer;
use midi_buzzer::buzzer::INDEFINITE;
use midi_buzzer::event::EventKind;
use midi_buzzer::event::Timing;
use midi_buzzer::metadata::SongMetaData;
use midi_buzzer::player::NoFreeVoice;
use midi_buzzer::player::Outcome;
use midi_buzzer::player::SongPlayer;
use midi_buzzer::sound_profiles::baseline_profile;
use midi_buzzer::sound_profiles::profile_for;
use midi_buzzer::sound_profiles::SoundProfile;
use midi_buzzer::timer::Calibration;

fn free_voices(player: &SongPlayer) -> Vec<SoundBuzzer> {
    (0..16).filter_map(|index| player.free_voice(index)).collect()
}

fn taken_voices(player: &SongPlayer) -> Vec<((u8, u8), SoundBuzzer)> {
    (0..16).filter_map(|index| player.taken_voice(index)).collect()
}

fn player_with(pins: &[u32]) -> SongPlayer {
    let mut queue: Deque<SoundBuzzer, 16> = Deque::new();
    for &pin in pins {
        queue.push_back(SoundBuzzer::new(pin)).unwrap();
    }
    SongPlayer::new(queue)
}

fn full_player() -> SongPlayer {
    let pins: Vec<u32> = (0..16).collect();
    player_with(&pins)
}

fn sorted_pins(player: &SongPlayer) -> Vec<u32> {
    let mut pins: Vec<u32> = free_voices(player).iter().map(|voice| voice.pin_mask).collect();
    pins.extend(taken_voices(player).iter().map(|entry| entry.1.pin_mask));
    pins.sort();
    pins
}

fn keys_are_distinct(player: &SongPlayer) -> bool {
    let entries = taken_voices(player);
    for i in 0..entries.len() {
        for j in (i + 1)..entries.len() {
            if entries[i].0 == entries[j].0 {
                return false;
            }
        }
    }
    true
}

fn song_settings() -> SongMetaData {
    SongMetaData::new(Timing::Metrical(96)).unwrap()
}

#[test]
fn a_new_player_holds_its_voices_free() {
    let player = player_with(&[5, 13, 14]);
    assert_eq!(player.free_count(), 3);
    assert_eq!(player.taken_count(), 0);
    let pins: Vec<u32> = free_voices(&player).iter().map(|voice| voice.pin_mask).collect();
    assert_eq!(pins, vec![1 << 5, 1 << 13, 1 << 14]);
    for channel in 0..16 {
        assert_eq!(player.instrument(channel), baseline_profile());
    }
    assert_eq!(player.calibration(), Calibration { numer: 15, denom: 1 });
}

#[test]
fn a_note_takes_the_voice_at_the_front() {
    let mut player = player_with(&[5, 13, 14]);
    let profile = SoundProfile::new(4700, Some(900), 61);
    assert_eq!(player.allocate(2, 76, &profile), Ok(()));
    assert_eq!(player.free_count(), 2);
    assert_eq!(player.taken_count(), 1);
    let voice = player.voice_for(2, 76).unwrap();
    assert_eq!(voice.pin_mask, 1 << 5);
    assert_eq!(voice.period_micros, 3968);
    assert_eq!(voice.max_period, 900);
    assert_eq!(voice.current_micros, 0);
    assert_eq!(player.voice_for(2, 75), None);
    assert_eq!(player.voice_for(3, 76), None);
    assert_eq!(free_voices(&player)[0].pin_mask, 1 << 13);
}

#[test]
fn a_released_voice_queues_up_behind_the_free_ones() {
    let mut player = player_with(&[5, 13, 14]);
    let profile = baseline_profile();
    player.allocate(0, 60, &profile).unwrap();
    player.allocate(0, 62, &profile).unwrap();
    let released = player.release(0, 60).unwrap();
    assert_eq!(released.pin_mask, 1 << 5);
    assert_eq!(released.period_micros, 4000);
    let pins: Vec<u32> = free_voices(&player).iter().map(|voice| voice.pin_mask).collect();
    assert_eq!(pins, vec![1 << 14, 1 << 5]);
    assert_eq!(free_voices(&player)[1].max_period, INDEFINITE);
    assert_eq!(free_voices(&player)[1].current_micros, 0);
    assert_eq!(player.taken_count(), 1);
    assert_eq!(player.voice_for(0, 60), None);
    assert_eq!(player.voice_for(0, 62).unwrap().pin_mask, 1 << 13);
}

#[test]
fn releasing_a_silent_note_changes_nothing() {
    let mut player = player_with(&[5, 13]);
    player.allocate(0, 60, &baseline_profile()).unwrap();
    let free_before = free_voices(&player);
    let taken_before = taken_voices(&player);
    assert_eq!(player.release(0, 61), None);
    assert_eq!(player.release(1, 60), None);
    assert_eq!(free_voices(&player), free_before);
    assert_eq!(taken_voices(&player), taken_before);
}

#[test]
fn the_seventeenth_note_is_dropped() {
    let mut player = full_player();
    let profile = baseline_profile();
    for key in 0..16 {
        assert_eq!(player.allocate(0, key, &profile), Ok(()));
    }
    let taken_before = taken_voices(&player);
    assert_eq!(player.allocate(0, 16, &profile), Err(NoFreeVoice));
    assert_eq!(player.free_count(), 0);
    assert_eq!(player.taken_count(), 16);
    assert_eq!(taken_voices(&player), taken_before);
    assert_eq!(player.voice_for(0, 16), None);
    assert!(player.release(0, 3).is_some());
    assert_eq!(player.allocate(0, 16, &profile), Ok(()));
    assert_eq!(player.voice_for(0, 16).unwrap().pin_mask, 1 << 3);
    assert_eq!(player.free_count(), 0);
    assert_eq!(player.taken_count(), 16);
    assert_eq!(sorted_pins(&player), (0..16).map(|pin| 1u32 << pin).collect::<Vec<u32>>());
}

#[test]
fn a_player_without_voices_drops_every_note() {
    let mut player = player_with(&[]);
    assert_eq!(player.allocate(0, 60, &baseline_profile()), Err(NoFreeVoice));
    assert_eq!(player.free_count(), 0);
    assert_eq!(player.taken_count(), 0);
    player.reset();
    player.free_buzzers();
    assert_eq!(player.play_buzzers(), [PinAction::Hold; 16]);
    assert_eq!(player.free_count(), 0);
}

#[test]
fn a_second_note_on_the_same_key_returns_the_first_voice() {
    let mut player = player_with(&[5, 13, 14]);
    let profile = baseline_profile();
    player.allocate(0, 60, &profile).unwrap();
    player.allocate(0, 61, &profile).unwrap();
    assert_eq!(player.allocate(0, 60, &SoundProfile::new(4700, None, 61)), Ok(()));
    assert_eq!(player.taken_count(), 2);
    assert_eq!(player.free_count(), 1);
    let voice = player.voice_for(0, 60).unwrap();
    assert_eq!(voice.pin_mask, 1 << 14);
    assert_eq!(voice.period_micros, 4700 + 4 * 61);
    assert_eq!(free_voices(&player)[0].pin_mask, 1 << 5);
    let keys: Vec<(u8, u8)> = taken_voices(&player).iter().map(|entry| entry.0).collect();
    assert_eq!(keys, vec![(0, 60), (0, 61)]);
    assert_eq!(sorted_pins(&player), vec![1 << 5, 1 << 13, 1 << 14]);
}

#[test]
fn a_second_note_on_the_same_key_is_dropped_when_no_voice_is_free() {
    let mut player = player_with(&[5]);
    let profile = baseline_profile();
    player.allocate(0, 60, &profile).unwrap();
    assert_eq!(player.allocate(0, 60, &profile), Err(NoFreeVoice));
    assert_eq!(player.voice_for(0, 60).unwrap().pin_mask, 1 << 5);
    assert_eq!(player.taken_count(), 1);
}

#[test]
fn removal_moves_the_last_binding_into_the_gap() {
    let mut player = player_with(&[1, 2, 3, 4]);
    let profile = baseline_profile();
    for key in [10, 20, 30, 40] {
        player.allocate(0, key, &profile).unwrap();
    }
    player.release(0, 20);
    let keys: Vec<(u8, u8)> = taken_voices(&player).iter().map(|entry| entry.0).collect();
    assert_eq!(keys, vec![(0, 10), (0, 40), (0, 30)]);
    player.release(0, 30);
    let keys: Vec<(u8, u8)> = taken_voices(&player).iter().map(|entry| entry.0).collect();
    assert_eq!(keys, vec![(0, 10), (0, 40)]);
}

#[test]
fn reset_returns_every_voice() {
    let mut player = player_with(&[1, 2, 3, 4, 5]);
    let profile = baseline_profile();
    for key in [10, 20, 30, 40] {
        player.allocate(3, key, &profile).unwrap();
    }
    player.release(3, 10);
    player.reset();
    assert_eq!(player.taken_count(), 0);
    assert_eq!(player.free_count(), 5);
    let pins: Vec<u32> = free_voices(&player).iter().map(|voice| voice.pin_mask).collect();
    assert_eq!(pins, vec![1 << 5, 1 << 1, 1 << 4, 1 << 2, 1 << 3]);
    for voice in free_voices(&player) {
        assert_eq!(voice.max_period, INDEFINITE);
        assert_eq!(voice.current_micros, 0);
    }
    player.reset();
    assert_eq!(player.free_count(), 5);
    assert_eq!(player.taken_count(), 0);
}

#[test]
fn a_sweep_reclaims_only_what_has_expired() {
    let mut player = player_with(&[1, 2, 3, 4]);
    player.allocate(0, 10, &SoundProfile::new(100, Some(10), 0)).unwrap();
    player.allocate(0, 20, &SoundProfile::new(100, None, 0)).unwrap();
    player.allocate(0, 30, &SoundProfile::new(100, Some(7), 0)).unwrap();
    player.allocate(0, 40, &SoundProfile::new(100, Some(1000), 0)).unwrap();
    player.play_buzzers();
    player.play_buzzers();
    // lifetimes are now 0, ten below the top, -3 and 990
    player.free_buzzers();
    let keys: Vec<(u8, u8)> = taken_voices(&player).iter().map(|entry| entry.0).collect();
    assert_eq!(keys, vec![(0, 10), (0, 20), (0, 40)]);
    assert_eq!(player.free_count(), 1);
    assert_eq!(free_voices(&player)[0].pin_mask, 1 << 3);
    assert_eq!(free_voices(&player)[0].max_period, INDEFINITE);
    assert_eq!(player.voice_for(0, 20).unwrap().max_period, INDEFINITE - 10);
    let free_before = free_voices(&player);
    let taken_before = taken_voices(&player);
    player.free_buzzers();
    assert_eq!(free_voices(&player), free_before);
    assert_eq!(taken_voices(&player), taken_before);
    player.play_buzzers();
    player.free_buzzers();
    let keys: Vec<(u8, u8)> = taken_voices(&player).iter().map(|entry| entry.0).collect();
    assert_eq!(keys, vec![(0, 40), (0, 20)]);
    let pins: Vec<u32> = free_voices(&player).iter().map(|voice| voice.pin_mask).collect();
    assert_eq!(pins, vec![1 << 3, 1 << 1]);
}

#[test]
fn a_tick_advances_every_bound_voice_and_no_free_one() {
    let mut player = player_with(&[1, 2, 3]);
    player.allocate(0, 10, &SoundProfile::new(30, None, 0)).unwrap();
    player.allocate(0, 20, &SoundProfile::new(10, None, 0)).unwrap();
    let mut expected = [PinAction::Hold; 16];
    expected[1] = PinAction::SetHigh { mask: 4 };
    assert_eq!(player.play_buzzers(), expected);
    expected[0] = PinAction::SetHigh { mask: 2 };
    expected[1] = PinAction::SetLow { mask: 4 };
    assert_eq!(player.play_buzzers(), expected);
    let entries = taken_voices(&player);
    assert_eq!(entries[0].0, (0, 10));
    assert_eq!(entries[1].0, (0, 20));
    assert!(entries[0].1.pin_state);
    assert!(!entries[1].1.pin_state);
    assert_eq!(free_voices(&player), vec![SoundBuzzer::new(3)]);
}

#[test]
fn the_pool_keeps_its_voices_through_any_sequence() {
    let mut player = full_player();
    let pins_before = sorted_pins(&player);
    let mut state: u32 = 0x2545_f491;
    for round in 0..4000u32 {
        state = state.wrapping_mul(1_664_525).wrapping_add(1_013_904_223);
        let channel = ((state >> 8) % 4) as u8;
        let key = ((state >> 12) % 12) as u8 + 58;
        match (state >> 24) % 8 {
            0..=3 => {
                let duration = if state & 1 == 0 { None } else { Some(40) };
                player.allocate(channel, key, &SoundProfile::new(3800, duration, 50)).ok();
            }
            4..=5 => {
                player.release(channel, key);
            }
            6 => {
                player.play_buzzers();
                player.free_buzzers();
            }
            _ => {
                if round % 97 == 0 {
                    player.reset();
                }
            }
        }
        assert_eq!(player.free_count() + player.taken_count(), 16);
        assert!(keys_are_distinct(&player));
        assert_eq!(sorted_pins(&player), pins_before);
    }
    player.reset();
    assert_eq!(player.free_count(), 16);
    assert_eq!(player.taken_count(), 0);
    assert_eq!(sorted_pins(&player), pins_before);
}

#[test]
fn notes_bind_and_release_through_events() {
    let mut player = player_with(&[5, 13]);
    let mut settings = song_settings();
    assert_eq!(
        player.match_music_events(&mut settings, EventKind::NoteOn { channel: 1, key: 64 }),
        Outcome::NoteStarted
    );
    assert_eq!(player.voice_for(1, 64).unwrap().period_micros, 3800);
    assert_eq!(
        player.match_music_events(&mut settings, EventKind::NoteOn { channel: 1, key: 65 }),
        Outcome::NoteStarted
    );
    assert_eq!(
        player.match_music_events(&mut settings, EventKind::NoteOn { channel: 1, key: 66 }),
        Outcome::NoteDropped
    );
    assert_eq!(
        player.match_music_events(&mut settings, EventKind::NoteOff { channel: 1, key: 66 }),
        Outcome::NoteNotSounding
    );
    assert_eq!(
        player.match_music_events(&mut settings, EventKind::NoteOff { channel: 1, key: 64 }),
        Outcome::NoteStopped
    );
    assert_eq!(player.taken_count(), 1);
    assert_eq!(player.free_count(), 1);
    assert_eq!(settings, song_settings());
}

#[test]
fn a_program_change_governs_the_next_note_of_its_channel() {
    let mut player = player_with(&[5, 13, 14]);
    let mut settings = song_settings();
    assert_eq!(
        player.match_music_events(&mut settings, EventKind::ProgramChange { channel: 2, program: 119 }),
        Outcome::InstrumentChanged
    );
    assert_eq!(player.instrument(2), profile_for(119));
    assert_eq!(player.instrument(1), baseline_profile());
    player.match_music_events(&mut settings, EventKind::NoteOn { channel: 2, key: 65 });
    player.match_music_events(&mut settings, EventKind::NoteOn { channel: 1, key: 65 });
    assert_eq!(player.voice_for(2, 65).unwrap().period_micros, 8000 - 104);
    assert_eq!(player.voice_for(1, 65).unwrap().period_micros, 3750);
}

#[test]
fn meta_events_replace_the_song_settings() {
    let mut player = player_with(&[5]);
    let mut settings = song_settings();
    assert_eq!(
        player.match_music_events(&mut settings, EventKind::Tempo(250_000)),
        Outcome::SongChanged
    );
    assert_eq!(settings.tempo, 250_000);
    assert_eq!(
        player.match_music_events(&mut settings, EventKind::TimeSignature(6, 3, 36, 8)),
        Outcome::SongChanged
    );
    assert_eq!(settings.time_signature, [6, 3, 36, 8]);
    assert_eq!(
        player.match_music_events(&mut settings, EventKind::KeySignature(-3, true)),
        Outcome::SongChanged
    );
    assert_eq!(settings.key, (-3, true));
    assert_eq!(settings.ticks_per_quarter, 96);
    assert_eq!(settings.bpm, 120);
    assert_eq!(player.free_count(), 1);
}

#[test]
fn other_events_are_accepted_and_ignored() {
    let mut player = player_with(&[5, 13]);
    let mut settings = song_settings();
    player.match_music_events(&mut settings, EventKind::NoteOn { channel: 0, key: 60 });
    let free_before = free_voices(&player);
    let taken_before = taken_voices(&player);
    for event in [
        EventKind::Aftertouch,
        EventKind::Controller,
        EventKind::ChannelAftertouch,
        EventKind::PitchBend,
        EventKind::OtherMeta,
        EventKind::Exclusive,
    ] {
        assert_eq!(player.match_music_events(&mut settings, event), Outcome::Ignored);
    }
    assert_eq!(
        player.match_music_events(&mut settings, EventKind::EndOfTrack),
        Outcome::TrackEnded
    );
    assert_eq!(free_voices(&player), free_before);
    assert_eq!(taken_voices(&player), taken_before);
    assert_eq!(settings, song_settings());
}

#[test]
fn events_know_what_midi_can_encode() {
    assert!(EventKind::NoteOn { channel: 15, key: 127 }.is_valid());
    assert!(!EventKind::NoteOn { channel: 16, key: 0 }.is_valid());
    assert!(!EventKind::NoteOff { channel: 0, key: 128 }.is_valid());
    assert!(!EventKind::ProgramChange { channel: 0, program: 128 }.is_valid());
    assert!(EventKind::ProgramChange { channel: 9, program: 127 }.is_valid());
    assert!(EventKind::Tempo(0xff_ffff).is_valid());
    assert!(!EventKind::Tempo(0x100_0000).is_valid());
    assert!(EventKind::KeySignature(-7, false).is_valid());
}

#[test]
fn ticks_convert_to_microseconds_at_the_current_tempo() {
    let mut settings = SongMetaData::new(Timing::Metrical(480)).unwrap();
    assert_eq!(SongPlayer::delta_to_micros(480, &settings), 500_000);
    assert_eq!(SongPlayer::delta_to_micros(0, &settings), 0);
    assert_eq!(SongPlayer::delta_to_micros(1, &settings), 1041);
    settings.tempo = 0xff_ffff;
    settings.ticks_per_quarter = 1;
    assert_eq!(SongPlayer::delta_to_micros(u16::MAX, &settings), 65_535 * 16_777_215);
    settings.tempo = 0;
    assert_eq!(SongPlayer::delta_to_micros(100, &settings), 0);
}

#[test]
fn song_settings_start_from_the_midi_defaults() {
    let settings = SongMetaData::new(Timing::Metrical(96)).unwrap();
    assert_eq!(settings.ticks_per_quarter, 96);
    assert_eq!(settings.tempo, 500_000);
    assert_eq!(settings.bpm, 120);
    assert_eq!(settings.time_signature, [4, 4, 24, 8]);
    assert_eq!(settings.key, (0, false));
    assert_eq!(
        SongMetaData::new(Timing::Timecode),
        Err(midi_buzzer::metadata::TimingError::Timecode)
    );
    assert_eq!(
        SongMetaData::new(Timing::Metrical(0)),
        Err(midi_buzzer::metadata::TimingError::ZeroTicks)
    );
}

#[test]
fn beats_per_minute_follow_the_tempo() {
    let mut settings = song_settings();
    settings.refresh_bpm(250_000);
    assert_eq!(settings.bpm, 240);
    assert_eq!(settings.tempo, 500_000);
    settings.refresh_bpm(500_000);
    assert_eq!(settings.bpm, 120);
    settings.refresh_bpm(60_000_001);
    assert_eq!(settings.bpm, 0);
    settings.refresh_bpm(915);
    assert_eq!(settings.bpm, (60_000_000u32 / 915 - 65_536) as u16);
    settings.set_tempo(1234);
    assert_eq!(settings.tempo, 1234);
}

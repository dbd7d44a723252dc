use midi_buzzer::buzzer::PinAction;
use midi_buzzer::buzzer::SoundBuzzer;
use midi_buzzer::buzzer::INDEFINITE;
use midi_buzzer::sound_profiles::SoundProfile;

#[test]
fn a_new_voice_is_silent_and_low() {
    let voice = SoundBuzzer::new(5);
    assert_eq!(voice.period_micros, 4000);
    assert_eq!(voice.max_period, i32::MAX);
    assert_eq!(voice.current_micros, 0);
    assert!(!voice.pin_state);
    assert_eq!(voice.pin_mask, 1 << 5);
    assert_eq!(SoundBuzzer::new(0).pin_mask, 1);
    assert_eq!(SoundBuzzer::new(31).pin_mask, 0x8000_0000);
}

#[test]
fn play_note_takes_period_and_lifetime_from_the_profile() {
    let mut voice = SoundBuzzer::new(3);
    voice.current_micros = 60;
    voice.play_note(&SoundProfile::new(4700, Some(300), 61), 76);
    assert_eq!(voice.period_micros, 3968);
    assert_eq!(voice.max_period, 300);
    assert_eq!(voice.current_micros, 0);
    assert_eq!(voice.pin_mask, 8);
    voice.play_note(&SoundProfile::new(4700, None, 61), 64);
    assert_eq!(voice.period_micros, 4700);
    assert_eq!(voice.max_period, INDEFINITE);
}

#[test]
fn the_level_flips_when_the_count_exceeds_the_period() {
    let mut voice = SoundBuzzer::new(4);
    voice.period_micros = 40;
    assert_eq!(voice.update(), PinAction::Hold);
    assert_eq!(voice.current_micros, 20);
    assert_eq!(voice.update(), PinAction::Hold);
    assert_eq!(voice.current_micros, 40);
    assert_eq!(voice.update(), PinAction::SetHigh { mask: 16 });
    assert_eq!(voice.current_micros, 0);
    assert!(voice.pin_state);
    assert_eq!(voice.update(), PinAction::Hold);
    assert_eq!(voice.update(), PinAction::Hold);
    assert_eq!(voice.update(), PinAction::SetLow { mask: 16 });
    assert!(!voice.pin_state);
    assert_eq!(voice.current_micros, 0);
}

#[test]
fn high_and_low_last_equally_long() {
    let mut voice = SoundBuzzer::new(1);
    voice.period_micros = 100;
    let mut flips = Vec::new();
    for tick in 0..60 {
        if voice.update() != PinAction::Hold {
            flips.push(tick);
        }
    }
    assert_eq!(flips, vec![5, 11, 17, 23, 29, 35, 41, 47, 53, 59]);
}

#[test]
fn a_note_without_duration_counts_down_from_the_top() {
    let mut voice = SoundBuzzer::new(2);
    for _ in 0..200 {
        assert_eq!(voice.update(), PinAction::Hold);
    }
    assert_eq!(voice.current_micros, 4000);
    assert!(!voice.pin_state);
    assert_eq!(voice.update(), PinAction::SetHigh { mask: 4 });
    assert!(voice.pin_state);
    assert_eq!(voice.current_micros, 0);
    assert_eq!(voice.max_period, i32::MAX - 1005);
    for _ in 0..10_000 {
        voice.update();
    }
    assert_eq!(voice.max_period, INDEFINITE - 5 * 10_201);
}

#[test]
fn a_note_with_duration_runs_out_and_falls_silent() {
    let mut voice = SoundBuzzer::new(2);
    voice.play_note(&SoundProfile::new(30, Some(12), 0), 64);
    assert_eq!(voice.update(), PinAction::Hold);
    assert_eq!(voice.max_period, 7);
    assert_eq!(voice.update(), PinAction::SetHigh { mask: 4 });
    assert_eq!(voice.max_period, 2);
    assert_eq!(voice.update(), PinAction::Hold);
    assert_eq!(voice.max_period, -3);
    for _ in 0..10 {
        assert_eq!(voice.update(), PinAction::Hold);
    }
    assert!(voice.pin_state);
    assert_eq!(voice.max_period, -53);
}

#[test]
fn the_counters_stop_at_the_ends_of_their_ranges() {
    let mut voice = SoundBuzzer::new(2);
    voice.max_period = i32::MIN + 3;
    voice.current_micros = u16::MAX - 5;
    assert_eq!(voice.update(), PinAction::Hold);
    assert_eq!(voice.max_period, i32::MIN);
    assert_eq!(voice.current_micros, u16::MAX);
    assert_eq!(voice.update(), PinAction::Hold);
    assert_eq!(voice.max_period, i32::MIN);
    assert_eq!(voice.current_micros, u16::MAX);
}

#[test]
fn reset_forgets_the_note_and_keeps_the_level() {
    let mut voice = SoundBuzzer::new(7);
    voice.play_note(&SoundProfile::new(30, Some(500), 0), 64);
    voice.update();
    voice.update();
    assert!(voice.pin_state);
    voice.update();
    voice.reset();
    assert_eq!(voice.current_micros, 0);
    assert_eq!(voice.max_period, INDEFINITE);
    assert!(voice.pin_state);
    assert_eq!(voice.period_micros, 30);
    assert_eq!(voice.pin_mask, 128);
}

#[test]
fn the_knob_moves_the_period_within_its_limits() {
    let mut voice = SoundBuzzer::new(4);
    assert_eq!(voice.adjust_period(20), 1_000_000 / 4020);
    assert_eq!(voice.period_micros, 4020);
    assert_eq!(voice.adjust_period(-20), 250);
    assert_eq!(voice.period_micros, 4000);
    assert_eq!(voice.adjust_period(i16::MIN), 10_000);
    assert_eq!(voice.period_micros, 100);
    assert_eq!(voice.adjust_period(-1), 10_000);
    assert_eq!(voice.period_micros, 100);
    assert_eq!(voice.adjust_period(i16::MAX), 50);
    assert_eq!(voice.period_micros, 20_000);
    assert_eq!(voice.adjust_period(1), 50);
    voice.period_micros = 65_000;
    assert_eq!(voice.adjust_period(i16::MAX), 50);
    assert_eq!(voice.period_micros, 20_000);
}

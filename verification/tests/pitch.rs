use midi_buzzer::sound_profiles::baseline_profile;
use midi_buzzer::sound_profiles::profile_for;
use midi_buzzer::sound_profiles::SoundProfile;
use midi_buzzer::sound_profiles::BASE_PERIODS;
use midi_buzzer::sound_profiles::SEMITONE_STEPS;

#[test]
fn center_key_sounds_the_base_period() {
    let profile = SoundProfile::new(4700, None, 61);
    assert_eq!(profile.period_for(64), 4700);
}

#[test]
fn an_octave_up_is_strictly_shorter() {
    let profile = SoundProfile::new(4700, None, 61);
    assert_eq!(profile.period_for(76), 4700 - 12 * 61);
    assert!(profile.period_for(76) < profile.wait_time);
}

#[test]
fn keys_below_the_center_lengthen_the_period() {
    let profile = SoundProfile::new(3800, None, 50);
    assert_eq!(profile.period_for(0), 3800 + 64 * 50);
    assert_eq!(profile.period_for(63), 3850);
    assert_eq!(profile.period_for(65), 3750);
    assert_eq!(profile.period_for(127), 3800 - 63 * 50);
}

#[test]
fn a_flat_profile_sounds_one_period_on_every_key() {
    let profile = SoundProfile::new(1000, Some(7), 0);
    for key in 0u8..=127 {
        assert_eq!(profile.period_for(key), 1000);
    }
}

#[test]
fn the_period_never_grows_with_the_key() {
    for program in 0u8..128 {
        let profile = profile_for(program);
        for key in 0u8..127 {
            assert!(profile.period_for(key + 1) < profile.period_for(key));
        }
    }
}

#[test]
fn playable_profiles_are_told_from_unplayable_ones() {
    assert!(SoundProfile::new(6300, None, 100).is_playable());
    assert!(!SoundProfile::new(6299, None, 100).is_playable());
    assert!(SoundProfile::new(1535, None, 0).is_playable());
    assert!(SoundProfile::new(39935, None, 400).is_playable());
    assert!(!SoundProfile::new(39936, None, 400).is_playable());
    assert!(SoundProfile::new(25200, None, 400).is_playable());
    assert!(!SoundProfile::new(25199, None, 400).is_playable());
}

#[test]
fn every_program_has_a_playable_profile() {
    for program in 0u8..128 {
        let profile = profile_for(program);
        assert!(profile.is_playable());
        assert_eq!(profile.duration, None);
        assert_eq!(profile.wait_time, BASE_PERIODS[program as usize]);
        assert_eq!(profile.wait_change_per_key, SEMITONE_STEPS[program as usize]);
    }
}

#[test]
fn the_table_holds_the_known_programs() {
    assert_eq!(profile_for(0), SoundProfile::new(4700, None, 61));
    assert_eq!(profile_for(6), SoundProfile::new(3000, None, 38));
    assert_eq!(profile_for(10), SoundProfile::new(5000, None, 65));
    assert_eq!(profile_for(116), SoundProfile::new(6000, None, 77));
    assert_eq!(profile_for(119), SoundProfile::new(8000, None, 104));
    assert_eq!(profile_for(127), SoundProfile::new(6500, None, 84));
}

#[test]
fn the_baseline_profile_is_the_documented_one() {
    let profile = baseline_profile();
    assert_eq!(profile, SoundProfile::new(3800, None, 50));
    assert!(profile.is_playable());
}

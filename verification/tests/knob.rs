use midi_buzzer::knob::get_knob_rotation;
use midi_buzzer::knob::Analog8;
use midi_buzzer::knob::Rotation;
use midi_buzzer::timer::delay_cycles;
use midi_buzzer::timer::Calibration;

#[test]
fn the_knob_table_has_sixteen_rows() {
    let left = Some(Rotation::Left);
    let right = Some(Rotation::Right);
    assert_eq!(get_knob_rotation(true, true, true, false), left);
    assert_eq!(get_knob_rotation(true, true, false, true), right);
    assert_eq!(get_knob_rotation(true, true, true, true), None);
    assert_eq!(get_knob_rotation(true, true, false, false), None);
    assert_eq!(get_knob_rotation(false, false, false, true), left);
    assert_eq!(get_knob_rotation(false, false, true, false), right);
    assert_eq!(get_knob_rotation(false, false, false, false), None);
    assert_eq!(get_knob_rotation(false, false, true, true), None);
    assert_eq!(get_knob_rotation(true, false, false, false), left);
    assert_eq!(get_knob_rotation(true, false, true, true), right);
    assert_eq!(get_knob_rotation(true, false, true, false), None);
    assert_eq!(get_knob_rotation(true, false, false, true), None);
    assert_eq!(get_knob_rotation(false, true, true, true), left);
    assert_eq!(get_knob_rotation(false, true, false, false), right);
    assert_eq!(get_knob_rotation(false, true, false, true), None);
    assert_eq!(get_knob_rotation(false, true, true, false), None);
}

#[test]
fn four_left_steps_come_back_to_the_start() {
    let cycle = [(true, true), (true, false), (false, false), (false, true), (true, true)];
    for pair in cycle.windows(2) {
        assert_eq!(
            get_knob_rotation(pair[0].0, pair[0].1, pair[1].0, pair[1].1),
            Some(Rotation::Left)
        );
        assert_eq!(
            get_knob_rotation(pair[1].0, pair[1].1, pair[0].0, pair[0].1),
            Some(Rotation::Right)
        );
    }
}

#[test]
fn the_setting_moves_in_steps_of_ten_and_saturates() {
    let mut level = Analog8::default();
    assert_eq!(level.value, 0);
    level.dec();
    assert_eq!(level.value, 0);
    level.inc();
    assert_eq!(level.value, 10);
    for _ in 0..24 {
        level.inc();
    }
    assert_eq!(level.value, 250);
    level.inc();
    assert_eq!(level.value, 255);
    level.inc();
    assert_eq!(level.value, 255);
    level.dec();
    assert_eq!(level.value, 245);
    let mut low = Analog8::new();
    low.value = 9;
    low.dec();
    assert_eq!(low.value, 0);
}

#[test]
fn a_wait_ends_when_the_cycles_have_passed() {
    assert!(delay_cycles(1000, 1000, 290));
    assert!(delay_cycles(1000, 1289, 290));
    assert!(!delay_cycles(1000, 1290, 290));
    assert!(!delay_cycles(1000, 5000, 290));
    assert!(!delay_cycles(1000, 1000, 0));
}

#[test]
fn a_wait_survives_the_wrap_of_the_counter() {
    let start = u32::MAX - 100;
    assert!(delay_cycles(start, u32::MAX, 870));
    assert!(delay_cycles(start, 0, 870));
    assert!(delay_cycles(start, 768, 870));
    assert!(!delay_cycles(start, 769, 870));
}

#[test]
fn the_reference_calibration_is_fifteen_to_one() {
    let ratio = Calibration::reference();
    assert_eq!(ratio, Calibration { numer: 15, denom: 1 });
    assert_eq!(ratio.wait_budget(0), 0);
    assert_eq!(ratio.wait_budget(260_416), 3_906_240);
}

#[test]
fn a_calibration_scales_rounds_down_and_saturates() {
    let ratio = Calibration::new(27, 10).unwrap();
    assert_eq!(ratio.wait_budget(1000), 2700);
    assert_eq!(ratio.wait_budget(7), 18);
    assert_eq!(ratio.wait_budget(u64::MAX), i64::MAX);
    let tiny = Calibration::new(1, u32::MAX).unwrap();
    assert_eq!(tiny.wait_budget(u32::MAX as u64 - 1), 0);
    assert_eq!(tiny.wait_budget(u32::MAX as u64), 1);
    assert_eq!(Calibration::new(3, 0), None);
}

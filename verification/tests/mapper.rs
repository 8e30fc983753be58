use hexapod::hexapod::leg::Leg;
use hexapod::hexapod::{angle_to_pulse, Hexapod, SERVO_FREQUENCY, SERVO_MAX, SERVO_MIN};
use hexapod::pca9685::{Address, Channel, PCA9685};
use hexapod::simulation::{Fault, SimulatedChip};

fn sent(chip: &SimulatedChip) -> Vec<Vec<u8>> {
    chip.exchanges().iter().map(|exchange| exchange.sent.clone()).collect()
}

#[test]
fn pulse_at_zero_is_the_minimum() {
    assert_eq!(angle_to_pulse(0, 120, 520), 120);
    assert_eq!(angle_to_pulse(0, 135, 530), 135);
}

#[test]
fn pulse_at_180_is_the_maximum() {
    assert_eq!(angle_to_pulse(180, 120, 520), 520);
    assert_eq!(angle_to_pulse(180, 135, 530), 530);
}

#[test]
fn pulse_at_90_is_the_rounded_mean() {
    assert_eq!(angle_to_pulse(90, 120, 520), 320);
    assert_eq!(angle_to_pulse(90, 120, 530), 325);
    assert_eq!(angle_to_pulse(90, 120, 521), 321);
}

#[test]
fn pulse_is_rounded_to_the_nearest_tick() {
    // 120 + 1/180 * 400 = 122.22
    assert_eq!(angle_to_pulse(1, 120, 520), 122);
    // 120 + 45/180 * 400 = 220
    assert_eq!(angle_to_pulse(45, 120, 520), 220);
    // 120 + 10/180 * 410 = 142.78
    assert_eq!(angle_to_pulse(10, 120, 530), 143);
    // 120 + 179/180 * 400 = 517.78
    assert_eq!(angle_to_pulse(179, 120, 520), 518);
}

#[test]
fn pulse_agrees_with_the_formula_in_floating_point() {
    for angle in 0u16..=180 {
        let exact = 120.0f64 + (angle as f64 / 180.0) * (530.0 - 120.0);
        let expected = (exact + 0.5).floor() as u16;
        assert_eq!(angle_to_pulse(angle, 120, 530), expected, "at {} degrees", angle);
    }
}

#[test]
fn angles_beyond_180_count_as_180() {
    assert_eq!(angle_to_pulse(181, 120, 520), 520);
    assert_eq!(angle_to_pulse(360, 120, 520), 520);
    assert_eq!(angle_to_pulse(u16::MAX, 120, 520), 520);
    assert_eq!(angle_to_pulse(u16::MAX, 0, u16::MAX), u16::MAX);
}

#[test]
fn pulse_with_a_reversed_span_falls_from_min_to_max() {
    assert_eq!(angle_to_pulse(0, 520, 120), 520);
    assert_eq!(angle_to_pulse(90, 520, 120), 320);
    assert_eq!(angle_to_pulse(180, 520, 120), 120);
    assert_eq!(angle_to_pulse(45, 520, 120), 420);
}

#[test]
fn pulse_never_falls_as_the_angle_grows() {
    let mut last = 0;
    for angle in 0u16..=200 {
        let pulse = angle_to_pulse(angle, 120, 530);
        assert!(pulse >= last);
        assert!((120..=530).contains(&pulse));
        last = pulse;
    }
}

#[test]
fn servo_calibration_constants() {
    assert_eq!(SERVO_MIN, 120);
    assert_eq!(SERVO_MAX, 530);
    assert_eq!(SERVO_FREQUENCY, 50);
    assert_eq!(Hexapod::<SimulatedChip>::angle_to_pwm(0), 120);
    assert_eq!(Hexapod::<SimulatedChip>::angle_to_pwm(90), 325);
    assert_eq!(Hexapod::<SimulatedChip>::angle_to_pwm(180), 530);
    assert_eq!(Hexapod::<SimulatedChip>::angle_to_pwm(270), 530);
}

#[test]
fn new_leg_is_at_rest() {
    let leg = Leg::new(Channel::C3, Channel::C7, Channel::C15);
    assert_eq!(leg.coxa_length, 0);
    assert_eq!(leg.femur_length, 0);
    assert_eq!(leg.tibia_length, 0);
    assert_eq!(leg.coxa_angle, 0);
    assert_eq!(leg.femur_angle, 0);
    assert_eq!(leg.tibia_angle, 0);
    assert_eq!(leg.coxa_channel, Channel::C3);
    assert_eq!(leg.femur_channel, Channel::C7);
    assert_eq!(leg.tibia_channel, Channel::C15);
}

#[test]
fn hexapod_start_up_sequence() {
    let hexapod = Hexapod::new(SimulatedChip::new(), Address::default()).unwrap();
    let chip = hexapod.servo_controller().bus();
    assert_eq!(
        sent(chip),
        vec![
            vec![0x00, 0x01],
            vec![0x00, 0x80],
            vec![0x00],
            vec![0x00, 0x90],
            vec![0xFE, 121],
            vec![0x00],
            vec![0x00, 0x80],
        ]
    );
    assert!(chip.exchanges().iter().all(|exchange| exchange.address == 0x40));
    assert_eq!(chip.register(0xFE), 121);
    let leg = hexapod.leg(0).unwrap();
    assert_eq!(leg.coxa_channel, Channel::C0);
    assert_eq!(leg.femur_channel, Channel::C1);
    assert_eq!(leg.tibia_channel, Channel::C2);
    assert_eq!((leg.coxa_angle, leg.femur_angle, leg.tibia_angle), (0, 0, 0));
    assert!(hexapod.leg(1).is_none());
}

#[test]
fn hexapod_start_up_stops_at_the_first_failure() {
    for position in 0..7 {
        let mut chip = SimulatedChip::new();
        chip.fail_at(position);
        let result = Hexapod::new(chip, Address::default());
        assert!(matches!(result, Err(Fault)));
    }
    let mut chip = SimulatedChip::new();
    chip.fail_at(7);
    assert!(Hexapod::new(chip, Address::default()).is_ok());
}

#[test]
fn update_leg_angles_writes_three_pulse_windows_in_order() {
    let mut hexapod = Hexapod::new(SimulatedChip::new(), Address::default()).unwrap();
    assert_eq!(hexapod.update_leg_angles(0, 0, 90, 180), Ok(()));
    let chip = hexapod.servo_controller().bus();
    let all = sent(chip);
    assert_eq!(all.len(), 7 + 12);
    assert_eq!(
        all[7..].to_vec(),
        vec![
            vec![0x06, 0],
            vec![0x07, 0],
            vec![0x08, 120],
            vec![0x09, 0],
            vec![0x0A, 0],
            vec![0x0B, 0],
            vec![0x0C, 69],
            vec![0x0D, 1],
            vec![0x0E, 0],
            vec![0x0F, 0],
            vec![0x10, 18],
            vec![0x11, 2],
        ]
    );
    let leg = hexapod.leg(0).unwrap();
    assert_eq!((leg.coxa_angle, leg.femur_angle, leg.tibia_angle), (0, 90, 180));
}

#[test]
fn update_leg_angles_without_such_a_leg_does_nothing() {
    let mut hexapod = Hexapod::new(SimulatedChip::new(), Address::default()).unwrap();
    let before = hexapod.servo_controller().bus().exchanges().len();
    assert_eq!(hexapod.update_leg_angles(1, 10, 20, 30), Ok(()));
    assert_eq!(hexapod.update_leg_angles(usize::MAX, 10, 20, 30), Ok(()));
    assert_eq!(hexapod.servo_controller().bus().exchanges().len(), before);
    let leg = hexapod.leg(0).unwrap();
    assert_eq!((leg.coxa_angle, leg.femur_angle, leg.tibia_angle), (0, 0, 0));
}

#[test]
fn update_leg_angles_keeps_the_angles_when_the_bus_fails() {
    let mut chip = SimulatedChip::new();
    // 7 start-up transactions, 4 writes for the coxa, then the second write
    // for the femur.
    chip.fail_at(7 + 4 + 1);
    let mut hexapod = Hexapod::new(chip, Address::default()).unwrap();
    assert_eq!(hexapod.update_leg_angles(0, 30, 60, 90), Err(Fault));
    let chip = hexapod.servo_controller().bus();
    assert_eq!(chip.exchanges().len(), 7 + 4 + 2);
    assert!(chip.exchanges()[12].failed);
    let leg = hexapod.leg(0).unwrap();
    assert_eq!((leg.coxa_angle, leg.femur_angle, leg.tibia_angle), (30, 60, 90));
    // The tibia's registers were never reached.
    assert_eq!(chip.register(0x10), 0);
    assert_eq!(chip.register(0x11), 0);
}

#[test]
fn added_legs_are_addressed_by_index() {
    let mut hexapod = Hexapod::new(SimulatedChip::new(), Address::default()).unwrap();
    hexapod.add_leg(Leg::new(Channel::C4, Channel::C5, Channel::C6));
    assert_eq!(hexapod.update_leg_angles(1, 180, 0, 45), Ok(()));
    let first = hexapod.leg(0).unwrap();
    let second = hexapod.leg(1).unwrap();
    assert_eq!((first.coxa_angle, first.femur_angle, first.tibia_angle), (0, 0, 0));
    assert_eq!((second.coxa_angle, second.femur_angle, second.tibia_angle), (180, 0, 45));
    let all = sent(hexapod.servo_controller().bus());
    assert_eq!(
        all[7..].to_vec(),
        vec![
            vec![0x16, 0],
            vec![0x17, 0],
            vec![0x18, 18],
            vec![0x19, 2],
            vec![0x1A, 0],
            vec![0x1B, 0],
            vec![0x1C, 120],
            vec![0x1D, 0],
            vec![0x1E, 0],
            vec![0x1F, 0],
            vec![0x20, 223],
            vec![0x21, 0],
        ]
    );
    assert!(hexapod.leg(2).is_none());
}

#[test]
fn assemble_binds_one_leg_after_a_successful_start_up() {
    let controller = PCA9685::new(SimulatedChip::new(), Address::default()).unwrap();
    let hexapod = Hexapod::assemble(controller, Ok(())).unwrap();
    let leg = hexapod.leg(0).unwrap();
    assert_eq!(leg.coxa_channel, Channel::C0);
    assert_eq!(leg.femur_channel, Channel::C1);
    assert_eq!(leg.tibia_channel, Channel::C2);
    assert_eq!((leg.coxa_angle, leg.femur_angle, leg.tibia_angle), (0, 0, 0));
    assert!(hexapod.leg(1).is_none());
    // Assembling asks nothing of the bus.
    assert_eq!(hexapod.servo_controller().bus().exchanges().len(), 1);
}

#[test]
fn assemble_gives_the_error_back_after_a_failed_start_up() {
    let controller = PCA9685::new(SimulatedChip::new(), Address::default()).unwrap();
    assert!(matches!(Hexapod::assemble(controller, Err(Fault)), Err(Fault)));
}

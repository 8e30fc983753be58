use hexapod::pca9685::{
    prescale_for_frequency, Address, Channel, Mode1, Mode2, Register, ALL_CALL_ADDRESS,
    DEFAULT_ADDRESS, DEFAULT_FREQUENCY, PRESCALE_MAX, PRESCALE_MIN, RESET_SETTLE_MS,
};

const CHANNELS: [Channel; 16] = [
    Channel::C0,
    Channel::C1,
    Channel::C2,
    Channel::C3,
    Channel::C4,
    Channel::C5,
    Channel::C6,
    Channel::C7,
    Channel::C8,
    Channel::C9,
    Channel::C10,
    Channel::C11,
    Channel::C12,
    Channel::C13,
    Channel::C14,
    Channel::C15,
];

#[test]
fn address_of_every_pin_combination() {
    for mask in 0u8..64 {
        let a0 = mask & 0x01 != 0;
        let a1 = mask & 0x02 != 0;
        let a2 = mask & 0x04 != 0;
        let a3 = mask & 0x08 != 0;
        let a4 = mask & 0x10 != 0;
        let a5 = mask & 0x20 != 0;
        let address = Address::new(a5, a4, a3, a2, a1, a0);
        assert_eq!(address.0, 0x40 | mask);
        assert!(address.0 >= 0x40 && address.0 <= 0x7F);
    }
}

#[test]
fn address_pins_are_taken_highest_first() {
    assert_eq!(Address::new(false, false, false, false, false, false).0, 0x40);
    assert_eq!(Address::new(false, false, false, false, false, true).0, 0x41);
    assert_eq!(Address::new(false, false, false, false, true, false).0, 0x42);
    assert_eq!(Address::new(false, false, false, true, false, false).0, 0x44);
    assert_eq!(Address::new(false, false, true, false, false, false).0, 0x48);
    assert_eq!(Address::new(false, true, false, false, false, false).0, 0x50);
    assert_eq!(Address::new(true, false, false, false, false, false).0, 0x60);
    assert_eq!(Address::new(true, true, false, false, false, false).0, 0x70);
    assert_eq!(Address::new(true, true, true, true, true, true).0, 0x7F);
}

#[test]
fn default_address_is_the_base_address() {
    assert_eq!(Address::default().0, 0x40);
    assert_eq!(DEFAULT_ADDRESS, 0x40);
    assert_eq!(ALL_CALL_ADDRESS, 0x70);
}

#[test]
fn channel_base_registers_step_by_four() {
    for (n, channel) in CHANNELS.iter().enumerate() {
        assert_eq!(channel.index() as usize, n);
        assert_eq!(channel.base_register() as usize, 0x06 + 4 * n);
    }
    assert_eq!(Channel::C0.base_register(), 0x06);
    assert_eq!(Channel::C15.base_register(), 0x42);
}

#[test]
fn channel_registers_do_not_overlap() {
    for a in CHANNELS.iter() {
        for b in CHANNELS.iter() {
            if a.index() == b.index() {
                continue;
            }
            for i in 0..4u8 {
                for j in 0..4u8 {
                    assert_ne!(a.base_register() + i, b.base_register() + j);
                }
            }
        }
    }
}

#[test]
fn channel_from_index_round_trips() {
    for n in 0u8..16 {
        let channel = Channel::from_index(n).unwrap();
        assert_eq!(channel.index(), n);
        assert_eq!(channel, CHANNELS[n as usize]);
    }
    assert!(Channel::from_index(16).is_none());
    assert!(Channel::from_index(255).is_none());
}

#[test]
fn register_map_matches_the_chip() {
    assert_eq!(Register::MODE1, 0x00);
    assert_eq!(Register::MODE2, 0x01);
    assert_eq!(Register::SUBADR1, 0x02);
    assert_eq!(Register::SUBADR2, 0x03);
    assert_eq!(Register::SUBADR3, 0x04);
    assert_eq!(Register::ALLCALLADR, 0x05);
    assert_eq!(Register::LED0_ON_L, 0x06);
    assert_eq!(Register::LED0_ON_H, 0x07);
    assert_eq!(Register::LED0_OFF_L, 0x08);
    assert_eq!(Register::LED0_OFF_H, 0x09);
    assert_eq!(Register::ALL_LED_ON_L, 0xFA);
    assert_eq!(Register::ALL_LED_ON_H, 0xFB);
    assert_eq!(Register::ALL_LED_OFF_L, 0xFC);
    assert_eq!(Register::ALL_LED_OFF_H, 0xFD);
    assert_eq!(Register::PRESCALE, 0xFE);
    assert_eq!(Register::TEST_MODE, 0xFF);
}

#[test]
fn mode_bits_match_the_chip() {
    assert_eq!(Mode1::ALL_CALL, 0x01);
    assert_eq!(Mode1::SUB1, 0x02);
    assert_eq!(Mode1::SUB2, 0x04);
    assert_eq!(Mode1::SUB3, 0x08);
    assert_eq!(Mode1::SLEEP, 0x10);
    assert_eq!(Mode1::AUTO_INC, 0x20);
    assert_eq!(Mode1::EXT_CLK, 0x40);
    assert_eq!(Mode1::RESTART, 0x80);
    assert_eq!(Mode2::OUTNE0, 0x01);
    assert_eq!(Mode2::OUTNE1, 0x02);
    assert_eq!(Mode2::OUTDRV, 0x04);
    assert_eq!(Mode2::OCH, 0x08);
    assert_eq!(Mode2::INVRT, 0x10);
    assert_eq!(DEFAULT_FREQUENCY, 25_000_000);
    assert_eq!(PRESCALE_MIN, 3);
    assert_eq!(PRESCALE_MAX, 255);
    assert_eq!(RESET_SETTLE_MS, 5);
}

#[test]
fn prescale_at_fifty_hertz_is_121() {
    assert_eq!(prescale_for_frequency(50), 121);
}

#[test]
fn prescale_at_known_frequencies() {
    assert_eq!(prescale_for_frequency(60), 101);
    assert_eq!(prescale_for_frequency(100), 60);
    assert_eq!(prescale_for_frequency(200), 30);
    assert_eq!(prescale_for_frequency(1000), 5);
    assert_eq!(prescale_for_frequency(1526), 3);
    assert_eq!(prescale_for_frequency(24), 253);
}

#[test]
fn prescale_saturates_at_the_ends_of_a_byte() {
    assert_eq!(prescale_for_frequency(0), 255);
    assert_eq!(prescale_for_frequency(1), 255);
    assert_eq!(prescale_for_frequency(23), 255);
    assert_eq!(prescale_for_frequency(6104), 0);
    assert_eq!(prescale_for_frequency(20_000), 0);
    assert_eq!(prescale_for_frequency(u32::MAX), 0);
}

#[test]
fn prescale_agrees_with_the_formula_in_floating_point() {
    for hz in 1u32..=8000 {
        let exact = (25_000_000.0f64 / (4096.0 * hz as f64)).round() - 1.0;
        let expected = if exact < 0.0 {
            0
        } else if exact > 255.0 {
            255
        } else {
            exact as u8
        };
        assert_eq!(prescale_for_frequency(hz), expected, "at {} Hz", hz);
    }
}

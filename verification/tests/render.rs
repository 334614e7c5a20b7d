use lsbfdump::render::{address_to_hex_string, byte_to_binary_string, format_line};

#[test]
fn binary_string_of_zero_is_all_zeros() {
    assert_eq!(byte_to_binary_string(0), "00000000");
}

#[test]
fn binary_string_of_largest_byte_is_all_ones() {
    assert_eq!(byte_to_binary_string(255), "11111111");
}

#[test]
fn binary_string_puts_most_significant_bit_first() {
    assert_eq!(byte_to_binary_string(1), "00000001");
    assert_eq!(byte_to_binary_string(2), "00000010");
    assert_eq!(byte_to_binary_string(0x80), "10000000");
    assert_eq!(byte_to_binary_string(0xA5), "10100101");
    assert_eq!(byte_to_binary_string(0x5A), "01011010");
}

#[test]
fn binary_string_agrees_with_std_formatting_for_every_byte() {
    let mut value: u8 = 0;
    loop {
        assert_eq!(byte_to_binary_string(value), format!("{:08b}", value));
        if value == u8::MAX {
            break;
        }
        value += 1;
    }
}

#[test]
fn binary_string_is_always_eight_digits() {
    let mut value: u8 = 0;
    loop {
        let text = byte_to_binary_string(value);
        assert_eq!(text.len(), 8);
        assert!(text.chars().all(|c| c == '0' || c == '1'));
        if value == u8::MAX {
            break;
        }
        value += 1;
    }
}

#[test]
fn hex_string_pads_to_eight_digits() {
    assert_eq!(address_to_hex_string(0), "00000000");
    assert_eq!(address_to_hex_string(0x10), "00000010");
    assert_eq!(address_to_hex_string(0x14), "00000014");
    assert_eq!(address_to_hex_string(0xFFFF_FFFF), "FFFFFFFF");
}

#[test]
fn hex_string_uses_upper_case_digits() {
    assert_eq!(address_to_hex_string(0xDEAD_BEEF), "DEADBEEF");
    assert_eq!(address_to_hex_string(0x0ABC_DEF9), "0ABCDEF9");
}

#[test]
fn hex_string_grows_past_eight_digits_when_needed() {
    assert_eq!(address_to_hex_string(0x1_0000_0000), "100000000");
    assert_eq!(address_to_hex_string(u64::MAX as u128), "FFFFFFFFFFFFFFFF");
    assert_eq!(address_to_hex_string(u64::MAX as u128 + 4), "10000000000000003");
}

#[test]
fn hex_string_agrees_with_std_formatting() {
    let samples: [u128; 8] = [
        0,
        9,
        10,
        255,
        4096,
        0x1234_5678,
        0x1234_5678_9ABC,
        u128::MAX,
    ];
    for value in samples {
        assert_eq!(address_to_hex_string(value), format!("{:08X}", value));
    }
}

#[test]
fn line_without_address_shows_last_byte_first() {
    let group: [u8; 4] = [0x01, 0x02, 0x03, 0x04];
    assert_eq!(
        format_line(&group, 0, false),
        "00000100 00000011 00000010 00000001"
    );
}

#[test]
fn line_without_address_ignores_the_address() {
    let group: [u8; 4] = [0xFF, 0x00, 0xF0, 0x0F];
    assert_eq!(format_line(&group, 0, false), format_line(&group, 12345, false));
    assert_eq!(
        format_line(&group, 12345, false),
        "00001111 11110000 00000000 11111111"
    );
}

#[test]
fn line_with_address_appends_separator_and_hex() {
    let group: [u8; 4] = [0x01, 0x02, 0x03, 0x04];
    assert_eq!(
        format_line(&group, 0x10, true),
        "00000100 00000011 00000010 00000001 | 0x00000010"
    );
}

#[test]
fn line_widths_are_fixed_for_small_addresses() {
    let group: [u8; 4] = [7, 8, 9, 10];
    assert_eq!(format_line(&group, 0, false).len(), 35);
    assert_eq!(format_line(&group, 0, true).len(), 48);
    assert_eq!(format_line(&group, 0xFFFF_FFFF, true).len(), 48);
}

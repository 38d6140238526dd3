use rmenu::color::Color;
use rmenu::errors::ConfigError;

#[test]
fn round_trip_packed_and_hex() {
    let c = Color::from_str("255-0-10").unwrap();
    assert_eq!(c.encode(), 255 * 65536 + 0 * 256 + 10);
    assert_eq!(c.hex(), "#ff000a");
}

#[test]
fn empty_string_is_black() {
    let c = Color::from_str("").unwrap();
    assert_eq!(c.encode(), 0);
    assert_eq!(c.hex(), "#000000");
}

#[test]
fn encode_packs_channels() {
    let c = Color::new(1, 2, 3);
    assert_eq!(c.encode(), 1 * 65536 + 2 * 256 + 3);
}

#[test]
fn hex_pads_each_channel_to_two_digits() {
    assert_eq!(Color::new(0, 0, 0).hex(), "#000000");
    assert_eq!(Color::new(1, 2, 3).hex(), "#010203");
    assert_eq!(Color::new(255, 255, 255).hex(), "#ffffff");
}

#[test]
fn two_channels_are_rejected() {
    assert_eq!(Color::from_str("10-20"), Err(ConfigError::BadColor));
}

#[test]
fn four_channels_are_rejected() {
    assert_eq!(Color::from_str("1-2-3-4"), Err(ConfigError::BadColor));
}

#[test]
fn non_digits_are_rejected() {
    assert_eq!(Color::from_str("a-b-c"), Err(ConfigError::BadColor));
}

#[test]
fn channel_over_eight_bits_is_rejected() {
    assert_eq!(Color::from_str("300-0-0"), Err(ConfigError::BadColor));
}

#[test]
fn empty_channel_is_rejected() {
    assert_eq!(Color::from_str("-0-0"), Err(ConfigError::BadColor));
    assert_eq!(Color::from_str("1--3"), Err(ConfigError::BadColor));
}

#[test]
fn leading_zeros_are_accepted() {
    let c = Color::from_str("007-0-255").unwrap();
    assert_eq!(c.encode(), 7 * 65536 + 255);
}

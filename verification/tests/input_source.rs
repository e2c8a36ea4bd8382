use display_switch::errors::ConfigurationError;
use display_switch::input_source::InputSource;

#[test]
fn parse_decimal_round_trip() {
    assert_eq!(InputSource::parse("0").unwrap().value(), 0);
    assert_eq!(InputSource::parse("22").unwrap().value(), 22);
    assert_eq!(InputSource::parse("255").unwrap().value(), 255);
}

#[test]
fn parse_decimal_overflow_rejected() {
    assert!(InputSource::parse("256").is_err());
    assert!(InputSource::parse("99999999999999999999").is_err());
}

#[test]
fn parse_hex_round_trip() {
    assert_eq!(InputSource::parse("0x10").unwrap().value(), 0x10);
    assert_eq!(InputSource::parse("0xff").unwrap().value(), 0xff);
    assert_eq!(InputSource::parse("0x0").unwrap().value(), 0x0);
}

#[test]
fn parse_hex_case_insensitive() {
    assert_eq!(InputSource::parse("0x1a").unwrap().value(), 0x1a);
    assert_eq!(InputSource::parse("0x1A").unwrap().value(), 0x1a);
    assert_eq!(InputSource::parse("0X1a").unwrap().value(), 0x1a);
    assert_eq!(InputSource::parse("0X1A").unwrap().value(), 0x1a);
}

#[test]
fn parse_hex_invalid_rejected() {
    assert!(InputSource::parse("0x").is_err());
    assert!(InputSource::parse("0xZZ").is_err());
    assert!(InputSource::parse("0x100").is_err());
}

#[test]
fn parse_symbolic_names() {
    assert_eq!(InputSource::parse("Vga1").unwrap().value(), 0x01);
    assert_eq!(InputSource::parse("Dvi2").unwrap().value(), 0x04);
    assert_eq!(InputSource::parse("DisplayPort1").unwrap().value(), 0x0f);
    assert_eq!(InputSource::parse("DisplayPort2").unwrap().value(), 0x10);
    assert_eq!(InputSource::parse("Hdmi1").unwrap().value(), 0x11);
    assert_eq!(InputSource::parse("Hdmi2").unwrap().value(), 0x12);
}

#[test]
fn parse_symbolic_deterministic() {
    let first = InputSource::parse("Hdmi1").unwrap();
    let second = InputSource::parse("Hdmi1").unwrap();
    assert_eq!(first.value(), second.value());
    assert_eq!(first, second);
}

#[test]
fn parse_invalid_token_carries_token() {
    let err = InputSource::parse("not-a-source").unwrap_err();
    assert!(matches!(err, ConfigurationError::InvalidInputSource(t) if t == "not-a-source"));
    assert!(InputSource::parse("").is_err());
    assert!(InputSource::parse("12a").is_err());
    assert!(InputSource::parse("hdmi1").is_err());
}

use display_switch::configuration::{
    Configuration, InputSources, RawConfiguration, RawPerMonitorConfiguration, SwitchDirection,
};
use display_switch::errors::ConfigurationError;
use display_switch::input_source::InputSource;

fn raw_globals(
    usb: Option<&str>,
    connect: Option<&str>,
    disconnect: Option<&str>,
) -> RawConfiguration {
    RawConfiguration {
        usb_device: usb.map(|s| s.to_string()),
        on_usb_connect: connect.map(|s| s.to_string()),
        on_usb_disconnect: disconnect.map(|s| s.to_string()),
        monitor1: None,
        monitor2: None,
        monitor3: None,
        monitor4: None,
        monitor5: None,
        monitor6: None,
    }
}

fn raw_monitor(
    monitor_id: &str,
    connect: Option<&str>,
    disconnect: Option<&str>,
) -> RawPerMonitorConfiguration {
    RawPerMonitorConfiguration {
        monitor_id: monitor_id.to_string(),
        on_usb_connect: connect.map(|s| s.to_string()),
        on_usb_disconnect: disconnect.map(|s| s.to_string()),
    }
}

fn sample_config() -> Configuration {
    let mut raw = raw_globals(Some("dead:BEEF"), Some("0x10"), Some("0x20"));
    raw.monitor1 = Some(raw_monitor("123", Some("0x11"), None));
    raw.monitor2 = Some(raw_monitor("45", Some("0x12"), Some("0x13")));
    Configuration::from_raw(raw).unwrap()
}

#[test]
fn test_usb_device_deserialization() {
    let config =
        Configuration::from_raw(raw_globals(Some("dead:BEEF"), Some("DisplayPort2"), None))
            .unwrap();
    assert_eq!(config.usb_device, "dead:beef")
}

#[test]
fn test_symbolic_input_deserialization() {
    let config = Configuration::from_raw(raw_globals(
        Some("dead:BEEF"),
        Some("DisplayPort2"),
        Some("DisplayPort1"),
    ))
    .unwrap();
    assert_eq!(config.input_sources.on_usb_connect.unwrap().value(), 0x10);
    assert_eq!(config.input_sources.on_usb_disconnect.unwrap().value(), 0x0f);
}

#[test]
fn test_decimal_input_deserialization() {
    let config =
        Configuration::from_raw(raw_globals(Some("dead:BEEF"), Some("22"), Some("33"))).unwrap();
    assert_eq!(config.input_sources.on_usb_connect.unwrap().value(), 22);
    assert_eq!(config.input_sources.on_usb_disconnect.unwrap().value(), 33);
}

#[test]
fn test_hexadecimal_input_deserialization() {
    let config =
        Configuration::from_raw(raw_globals(Some("dead:BEEF"), Some("0x10"), Some("0x20")))
            .unwrap();
    assert_eq!(config.input_sources.on_usb_connect.unwrap().value(), 0x10);
    assert_eq!(config.input_sources.on_usb_disconnect.unwrap().value(), 0x20);
}

#[test]
fn test_per_monitor_config() {
    let config = sample_config();

    // When no specific monitor matches, use the global defaults
    assert_eq!(
        config.configuration_for_monitor("333").on_usb_connect.unwrap().value(),
        0x10
    );
    // Matches monitor #1, and it should use its "on-connect" and global "on-disconnect"
    assert_eq!(
        config.configuration_for_monitor("1234").on_usb_connect.unwrap().value(),
        0x11
    );
    assert_eq!(
        config.configuration_for_monitor("1234").on_usb_disconnect.unwrap().value(),
        0x20
    );
    // Matches monitor #2, and it should use its "on-connect" and "on-disconnect" values
    assert_eq!(
        config.configuration_for_monitor("2345").on_usb_connect.unwrap().value(),
        0x12
    );
    assert_eq!(
        config.configuration_for_monitor("2345").on_usb_disconnect.unwrap().value(),
        0x13
    );
}

#[test]
fn no_match_falls_back_to_globals_only() {
    let config = sample_config();
    let effective = config.configuration_for_monitor("999");
    assert_eq!(effective.on_usb_connect.unwrap().value(), 0x10);
    assert_eq!(effective.on_usb_disconnect.unwrap().value(), 0x20);
}

#[test]
fn no_match_and_no_global_resolves_to_none() {
    let config =
        Configuration::from_raw(raw_globals(Some("dead:beef"), Some("0x10"), None)).unwrap();
    assert!(config.resolve("999", SwitchDirection::Disconnect).is_none());
    assert_eq!(
        config.resolve("999", SwitchDirection::Connect).unwrap().value(),
        0x10
    );
}

#[test]
fn first_matching_slot_wins_even_for_unset_directions() {
    // Both fragments match the queried identifier; only the first slot's
    // override is honored, and its unset direction falls through to the
    // global default, never to the second slot.
    let mut raw = raw_globals(Some("dead:beef"), Some("0x01"), Some("0x02"));
    raw.monitor1 = Some(raw_monitor("ab", Some("0x11"), None));
    raw.monitor2 = Some(raw_monitor("abc", Some("0x21"), Some("0x22")));
    let config = Configuration::from_raw(raw).unwrap();
    let effective = config.configuration_for_monitor("xabcx");
    assert_eq!(effective.on_usb_connect.unwrap().value(), 0x11);
    assert_eq!(effective.on_usb_disconnect.unwrap().value(), 0x02);
}

#[test]
fn matching_is_case_insensitive_substring() {
    let mut raw = raw_globals(Some("dead:beef"), Some("0x01"), None);
    raw.monitor3 = Some(raw_monitor("DELL", Some("0x0f"), None));
    let config = Configuration::from_raw(raw).unwrap();
    assert_eq!(
        config.configuration_for_monitor("my dell monitor").on_usb_connect.unwrap().value(),
        0x0f
    );
    assert_eq!(
        config.configuration_for_monitor("no match here").on_usb_connect.unwrap().value(),
        0x01
    );
}

#[test]
fn empty_fragment_matches_everything() {
    let mut raw = raw_globals(Some("dead:beef"), Some("0x01"), None);
    raw.monitor1 = Some(raw_monitor("", Some("0x05"), None));
    let config = Configuration::from_raw(raw).unwrap();
    assert_eq!(
        config.configuration_for_monitor("anything").on_usb_connect.unwrap().value(),
        0x05
    );
}

#[test]
fn merge_is_per_direction_independent() {
    let a = InputSources {
        on_usb_connect: Some(InputSource { value: 1 }),
        on_usb_disconnect: None,
    };
    let b = InputSources {
        on_usb_connect: Some(InputSource { value: 2 }),
        on_usb_disconnect: Some(InputSource { value: 3 }),
    };
    let merged = a.merge(&b);
    assert_eq!(merged.on_usb_connect.unwrap().value(), 1);
    assert_eq!(merged.on_usb_disconnect.unwrap().value(), 3);
    let both_empty = InputSources { on_usb_connect: None, on_usb_disconnect: None };
    let merged_empty = both_empty.merge(&both_empty);
    assert!(merged_empty.on_usb_connect.is_none());
    assert!(merged_empty.on_usb_disconnect.is_none());
}

#[test]
fn source_selects_by_direction() {
    let sources = InputSources {
        on_usb_connect: Some(InputSource { value: 7 }),
        on_usb_disconnect: Some(InputSource { value: 9 }),
    };
    assert_eq!(sources.source(SwitchDirection::Connect).unwrap().value(), 7);
    assert_eq!(sources.source(SwitchDirection::Disconnect).unwrap().value(), 9);
}

#[test]
fn direction_labels() {
    assert_eq!(SwitchDirection::Connect.label(), "connect");
    assert_eq!(SwitchDirection::Disconnect.label(), "disconnect");
}

#[test]
fn missing_usb_device_rejected() {
    let result = Configuration::from_raw(raw_globals(None, Some("0x10"), None));
    assert!(matches!(
        result.unwrap_err(),
        ConfigurationError::MissingRequiredField
    ));
}

#[test]
fn invalid_global_token_rejected() {
    let result = Configuration::from_raw(raw_globals(
        Some("dead:beef"),
        Some("not-a-source"),
        None,
    ));
    assert!(matches!(
        result.unwrap_err(),
        ConfigurationError::InvalidInputSource(t) if t == "not-a-source"
    ));
}

#[test]
fn invalid_monitor_token_rejected() {
    let mut raw = raw_globals(Some("dead:beef"), Some("0x10"), None);
    raw.monitor2 = Some(raw_monitor("123", Some("0x11"), Some("bogus")));
    let result = Configuration::from_raw(raw);
    assert!(matches!(
        result.unwrap_err(),
        ConfigurationError::InvalidInputSource(t) if t == "bogus"
    ));
}

use ambient_lighting::baudrate::Baudrate;
use ambient_lighting::program_config::ProgramConfiguration;

#[test]
fn default_configuration_serializes_to_canonical_text() {
    let c = ProgramConfiguration::default();
    assert_eq!(
        c.to_json(),
        b"{\"refresh_rate\": 20.000, \"baud_rate\": 115200, \"serial_port\": \"COM0\"}".to_vec()
    );
}

#[test]
fn saving_and_reloading_yields_field_for_field_equal_values() {
    let c = ProgramConfiguration {
        serial_port: b"/dev/ttyUSB0".to_vec(),
        refresh_rate: 16_667, // 16.667 Hz
        baudrate: Baudrate::B250000,
    };
    let saved = c.to_json();
    let reloaded = ProgramConfiguration::from_json(&saved).unwrap();
    assert_eq!(reloaded.serial_port, c.serial_port);
    assert_eq!(reloaded.refresh_rate, c.refresh_rate);
    assert_eq!(reloaded.baudrate, c.baudrate);
}

#[test]
fn round_trip_keeps_the_default_configuration() {
    let c = ProgramConfiguration::default();
    let reloaded = ProgramConfiguration::from_json(&c.to_json()).unwrap();
    assert_eq!(reloaded.serial_port, c.serial_port);
    assert_eq!(reloaded.refresh_rate, c.refresh_rate);
    assert_eq!(reloaded.baudrate, c.baudrate);
}

#[test]
fn handwritten_canonical_text_parses() {
    let text = b"{\"refresh_rate\": 60.000, \"baud_rate\": 9600, \"serial_port\": \"COM7\"}";
    let c = ProgramConfiguration::from_json(text).unwrap();
    assert_eq!(c.refresh_rate, 60_000);
    assert_eq!(c.baudrate, Baudrate::B9600);
    assert_eq!(c.serial_port, b"COM7".to_vec());
}

#[test]
fn malformed_or_invalid_text_is_rejected() {
    // a zero rate cannot pace the loop
    assert!(ProgramConfiguration::from_json(
        b"{\"refresh_rate\": 0.000, \"baud_rate\": 9600, \"serial_port\": \"COM7\"}"
    )
    .is_none());
    // a number outside the closed baud set
    assert!(ProgramConfiguration::from_json(
        b"{\"refresh_rate\": 20.000, \"baud_rate\": 9601, \"serial_port\": \"COM7\"}"
    )
    .is_none());
    // truncated text
    assert!(ProgramConfiguration::from_json(b"{\"refresh_rate\": 20.000").is_none());
    // trailing bytes after the closing brace
    assert!(ProgramConfiguration::from_json(
        b"{\"refresh_rate\": 20.000, \"baud_rate\": 9600, \"serial_port\": \"COM7\"} "
    )
    .is_none());
    // an unprintable byte in the port name
    assert!(ProgramConfiguration::from_json(
        b"{\"refresh_rate\": 20.000, \"baud_rate\": 9600, \"serial_port\": \"CO\x07M\"}"
    )
    .is_none());
    // no fraction on the rate
    assert!(ProgramConfiguration::from_json(
        b"{\"refresh_rate\": 20, \"baud_rate\": 9600, \"serial_port\": \"COM7\"}"
    )
    .is_none());
    assert!(ProgramConfiguration::from_json(b"").is_none());
}

#[test]
fn parsed_rates_never_overflow() {
    // far beyond u32 thousandths of a hertz
    assert!(ProgramConfiguration::from_json(
        b"{\"refresh_rate\": 99999999999999999999.000, \"baud_rate\": 9600, \"serial_port\": \"COM7\"}"
    )
    .is_none());
}

#[test]
fn serial_settings_fix_the_frame_shape() {
    let c = ProgramConfiguration::default();
    let s = c.get_serial_port_settings();
    assert_eq!(s.baud_rate, 115_200);
    assert_eq!(s.data_bits, 8);
    assert!(!s.parity_enabled);
    assert_eq!(s.stop_bits, 1);
    assert!(!s.flow_control_enabled);
}

#[test]
fn refreshrate_controller_is_paced_to_the_configuration() {
    let c = ProgramConfiguration::default();
    let limiter = c.get_refreshrate_controller(0);
    assert_eq!(limiter.tick_rate, 20_000);
    assert_eq!(limiter.period_ms(), 50);
}

#[test]
fn default_values_match_the_documented_fallback() {
    let c = ProgramConfiguration::default();
    assert_eq!(c.serial_port, b"COM0".to_vec());
    assert_eq!(c.refresh_rate, 20_000);
    assert_eq!(c.baudrate, Baudrate::B115200);
}

#[test]
fn baud_rates_form_a_closed_validated_set() {
    assert_eq!(Baudrate::from_u32(115_200), Some(Baudrate::B115200));
    assert_eq!(Baudrate::from_u32(300), Some(Baudrate::B300));
    assert_eq!(Baudrate::from_u32(2_000_000), Some(Baudrate::B2000000));
    assert_eq!(Baudrate::from_u32(100), None);
    assert_eq!(Baudrate::from_u32(9_601), None);
    for b in Baudrate::all_values() {
        assert_eq!(Baudrate::from_u32(b.as_u32()), Some(b));
    }
    assert_eq!(Baudrate::all_values().len(), 15);
}

#[test]
fn baud_rate_text_parses_and_displays() {
    assert_eq!(Baudrate::_from_string(b"9600"), Some(Baudrate::B9600));
    assert_eq!(Baudrate::_from_string(b"250000"), Some(Baudrate::B250000));
    assert_eq!(Baudrate::_from_string(b"96zz"), None);
    assert_eq!(Baudrate::_from_string(b""), None);
    assert_eq!(Baudrate::_from_string(b"9601"), None);
    // only the canonical spelling is a rate text
    assert_eq!(Baudrate::_from_string(b"0300"), None);
    assert_eq!(Baudrate::_from_string(b"9600 "), None);
    for b in Baudrate::all_values() {
        assert_eq!(Baudrate::_from_string(&b.to_display_bytes()), Some(b));
    }
    assert_eq!(Baudrate::B250000.to_display_bytes(), b"250000".to_vec());
    assert_eq!(Baudrate::default(), Baudrate::B115200);
}

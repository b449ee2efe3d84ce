use ambient_lighting::baudrate::Baudrate;
use ambient_lighting::program_config::ProgramConfiguration;
use ambient_lighting::settings_configurer::{
    parse_rate_millis, ConfigState, Message, SettingsConfigurer, UpdateAction,
};

fn editor() -> SettingsConfigurer {
    SettingsConfigurer::from_config(&ProgramConfiguration::default())
}

#[test]
fn the_editor_shows_the_loaded_configuration() {
    let e = editor();
    let v = e.get_values();
    assert_eq!(v.selected_port, b"COM0".to_vec());
    assert_eq!(v.selected_baudrate, Baudrate::B115200);
    assert_eq!(v.desired_refreshrate, b"20.00".to_vec());
    assert_eq!(v.save_file_path, b"assets/program_configuration.json".to_vec());
    assert_eq!(v.config_state, ConfigState::NoChanges);
    assert_eq!(e.title(), "Configure Ambient Lighting Settings");
}

#[test]
fn an_edit_extends_the_history_and_flags_unsaved_changes() {
    let mut e = editor();
    let a = e.update(Message::PortSelected(b"COM3".to_vec()));
    assert!(matches!(a, UpdateAction::Proceed));
    let v = e.get_values();
    assert_eq!(v.selected_port, b"COM3".to_vec());
    assert_eq!(v.config_state, ConfigState::UnsavedChanges);
    assert_eq!(e.current_values_index, 1);
    assert_eq!(e.previous_states.len(), 2);
    assert_eq!(e.title(), "Configure Ambient Lighting Settings | Unsaved Changes");
}

#[test]
fn an_edit_to_the_same_values_stays_saved() {
    let mut e = editor();
    e.update(Message::PortSelected(b"COM0".to_vec()));
    assert_eq!(e.get_values().config_state, ConfigState::NoChanges);
}

#[test]
fn saving_requests_the_file_write_and_rebases_the_history() {
    let mut e = editor();
    e.update(Message::BaudrateSelected(Baudrate::B9600));
    e.update(Message::RefreshrateSelected(b"30.5".to_vec()));
    let a = e.update(Message::SaveFile);
    let req = match a {
        UpdateAction::Save(Some(req)) => req,
        _ => panic!("expected a save request"),
    };
    assert_eq!(req.path, b"assets/program_configuration.json".to_vec());
    assert_eq!(
        req.contents,
        b"{\"refresh_rate\": 30.500, \"baud_rate\": 9600, \"serial_port\": \"COM0\"}".to_vec()
    );
    // the history is rebased on the saved values
    assert_eq!(e.previous_states.len(), 2);
    assert_eq!(e.current_values_index, 1);
    assert_eq!(e.get_values().selected_baudrate, Baudrate::B9600);
}

#[test]
fn saving_with_no_path_writes_nothing() {
    let mut e = editor();
    e.update(Message::FilePathChanged(b"".to_vec()));
    let a = e.update(Message::SaveFile);
    assert!(matches!(a, UpdateAction::Save(None)));
}

#[test]
fn reset_returns_to_the_last_saved_values() {
    let mut e = editor();
    e.update(Message::PortSelected(b"COM3".to_vec()));
    e.update(Message::BaudrateSelected(Baudrate::B300));
    let a = e.update(Message::ResetSettings);
    assert!(matches!(a, UpdateAction::Proceed));
    assert_eq!(e.previous_states.len(), 1);
    assert_eq!(e.current_values_index, 0);
    let v = e.get_values();
    assert_eq!(v.selected_port, b"COM0".to_vec());
    assert_eq!(v.selected_baudrate, Baudrate::B115200);
}

#[test]
fn save_and_exit_hands_back_the_save_and_keeps_the_model() {
    let mut e = editor();
    e.update(Message::BaudrateSelected(Baudrate::B300));
    let before_len = e.previous_states.len();
    let a = e.update(Message::SaveAndExit);
    let req = match a {
        UpdateAction::SaveAndExit(Some(req)) => req,
        _ => panic!("expected a save-and-exit request"),
    };
    assert_eq!(req.path, b"assets/program_configuration.json".to_vec());
    assert_eq!(
        req.contents,
        b"{\"refresh_rate\": 20.000, \"baud_rate\": 300, \"serial_port\": \"COM0\"}".to_vec()
    );
    assert_eq!(e.previous_states.len(), before_len);
}

#[test]
fn the_shown_values_denote_a_configuration() {
    let mut e = editor();
    e.update(Message::RefreshrateSelected(b"30.5".to_vec()));
    e.update(Message::PortSelected(b"/dev/ttyACM1".to_vec()));
    let c = e.get_current_configuration();
    assert_eq!(c.refresh_rate, 30_500);
    assert_eq!(c.serial_port, b"/dev/ttyACM1".to_vec());
    assert_eq!(c.baudrate, Baudrate::B115200);
}

#[test]
fn rate_text_parses_to_thousandths_of_a_hertz() {
    assert_eq!(parse_rate_millis(b"20"), Some(20_000));
    assert_eq!(parse_rate_millis(b"20.5"), Some(20_500));
    assert_eq!(parse_rate_millis(b"20.50"), Some(20_500));
    assert_eq!(parse_rate_millis(b"20.505"), Some(20_505));
    assert_eq!(parse_rate_millis(b"0.001"), Some(1));
    assert_eq!(parse_rate_millis(b"4294967.295"), Some(4_294_967_295));
    assert_eq!(parse_rate_millis(b"4294967.296"), None);
    assert_eq!(parse_rate_millis(b""), None);
    assert_eq!(parse_rate_millis(b"20."), None);
    assert_eq!(parse_rate_millis(b"20.5000"), None);
    assert_eq!(parse_rate_millis(b".5"), None);
    assert_eq!(parse_rate_millis(b"two"), None);
}

use demc::caps::{
    get_button_guard_index_gcn, get_button_guard_index_n64, sample_gcn_controller_hardware,
    sample_n64_controller_hardware,
};
use demc::clock::now_ms;
use demc::config::parse_config_file;
use demc::vjoy::{claim_vjoystick, ButtonName, VjoystickStatus};

#[test]
fn config_round_trip() {
    let text = "[irc]\nserver = \"irc.example.org:6667\"\npass = \"hunter\"\nnick = \"bot\"\nchannel = \"#plays\"\n";
    let (server, pass, nick, channel) = parse_config_file(text).unwrap();
    assert_eq!(server, "irc.example.org:6667");
    assert_eq!(pass, "hunter");
    assert_eq!(nick, "bot");
    assert_eq!(channel, "#plays");
}

#[test]
fn config_errors_distinguish_syntax_and_shape() {
    assert_eq!(parse_config_file("not == toml"), Err(2));
    assert_eq!(parse_config_file("[irc]\nserver = \"s\"\n"), Err(3));
    assert_eq!(parse_config_file("[irc]\nserver = 7\npass = \"p\"\nnick = \"n\"\nchannel = \"c\"\n"), Err(3));
}

#[test]
fn clock_stays_in_band() {
    let t = now_ms();
    assert!(t < 0x4000_0000_0000_0000);
}

#[test]
fn guard_indices_match_the_tables() {
    assert_eq!(get_button_guard_index_n64(b"a"), 0);
    assert_eq!(get_button_guard_index_n64(b"cright"), 9);
    assert_eq!(get_button_guard_index_n64(b"dright"), 13);
    assert_eq!(get_button_guard_index_gcn(b"a"), 0);
    assert_eq!(get_button_guard_index_gcn(b"x"), 2);
    assert_eq!(get_button_guard_index_gcn(b"dright"), 11);
}

#[test]
fn capability_tables_have_the_expected_shape() {
    let gcn = sample_gcn_controller_hardware(0, 32768, 0, 32768, 0, 32768, 0, 32768).unwrap();
    assert_eq!(gcn.axes.len(), 4);
    assert_eq!(gcn.joysticks.len(), 2);
    assert_eq!(gcn.buttons.len(), 12);
    assert_eq!(gcn.find_button(b"start"), Some(7));
    assert_eq!(gcn.buttons[7].max_duration_ms, 500);
    assert_eq!(gcn.buttons[1].max_duration_ms, 30000);

    let n64 = sample_n64_controller_hardware(0, 32768, 0, 32768).unwrap();
    assert_eq!(n64.joysticks.len(), 1);
    assert_eq!(n64.buttons.len(), 14);
    assert_eq!(n64.find_joystick(b"c_stick"), None);

    // Inverted ranges are refused at start-up.
    assert!(sample_n64_controller_hardware(100, 0, 0, 255).is_err());
}

#[test]
fn vjoystick_claim_decision() {
    assert_eq!(claim_vjoystick(VjoystickStatus::Free), Ok(true));
    assert_eq!(claim_vjoystick(VjoystickStatus::Owned), Ok(false));
    assert_eq!(claim_vjoystick(VjoystickStatus::Busy), Err(1));
    assert_eq!(claim_vjoystick(VjoystickStatus::Missing), Err(1));

    assert_eq!(ButtonName::A.get_vjoy_button_index(), 0x01);
    assert_eq!(ButtonName::Dright.get_vjoy_button_index(), 0x14);
}

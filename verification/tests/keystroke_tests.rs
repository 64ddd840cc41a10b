use demc::keystroke::{
    get_keycode, get_scancode, send_char, send_combo, send_key, send_str, Key, KeyCode, Physical,
    Scan,
};

#[test]
fn test_lowercase_str() {
    send_str("echo");
}

#[test]
fn send_str_presses_and_releases_each_char() {
    let evs = send_str("ab");
    assert_eq!(evs.len(), 4);
    assert_eq!(evs[0].code, KeyCode::UnicodeScan(97));
    assert!(!evs[0].up);
    assert_eq!(evs[1].code, KeyCode::UnicodeScan(97));
    assert!(evs[1].up);
    assert_eq!(evs[2].code, KeyCode::UnicodeScan(98));
    assert!(!evs[2].up);
    assert_eq!(evs[3].code, KeyCode::UnicodeScan(98));
    assert!(evs[3].up);
}

#[test]
fn send_char_skips_wide_characters() {
    assert_eq!(send_char('\u{1F600}').len(), 0);
    assert_eq!(send_char('e').len(), 2);
}

#[test]
fn scancodes_match_the_table() {
    assert_eq!(get_scancode(Scan::F1), 0x3B);
    assert_eq!(get_scancode(Scan::F7), 0x41);
    assert_eq!(get_scancode(Scan::F11), 0x85);
    assert_eq!(get_scancode(Scan::F12), 0x86);
}

#[test]
fn keycodes_match_the_table() {
    assert_eq!(get_keycode(Physical::Return), 0x0D);
    assert_eq!(get_keycode(Physical::A), 65);
    assert_eq!(get_keycode(Physical::Z), 90);
    assert_eq!(get_keycode(Physical::F5), 0x74);
}

#[test]
fn combos_release_in_reverse_order() {
    let keys = [Key::Physical(Physical::Control), Key::Physical(Physical::S)];
    let evs = send_combo(&keys);
    assert_eq!(evs.len(), 4);
    assert_eq!(evs[0].code, KeyCode::VirtualKey(0x11));
    assert!(!evs[0].up);
    assert_eq!(evs[1].code, KeyCode::VirtualKey(83));
    assert!(!evs[1].up);
    assert_eq!(evs[2].code, KeyCode::VirtualKey(83));
    assert!(evs[2].up);
    assert_eq!(evs[3].code, KeyCode::VirtualKey(0x11));
    assert!(evs[3].up);
}

#[test]
fn send_key_is_press_then_release() {
    let evs = send_key(Key::Scan(Scan::F1));
    assert_eq!(evs.len(), 2);
    assert_eq!(evs[0].code, KeyCode::ScanCode(0x3B));
    assert!(!evs[0].up);
    assert!(evs[1].up);
}

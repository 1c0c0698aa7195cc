use moonclip::hotkey::{
    hotkey_end, hotkey_step, is_allowed_single_key, normalize_hotkey, stored_hotkey, HotkeyEnd,
    HotkeyState, HotkeyStep,
};
use moonclip::settings::TextMap;

#[test]
fn canonicalizes_valid_shortcuts() {
    assert_eq!(normalize_hotkey("f9").unwrap(), "F9");
    assert_eq!(
        normalize_hotkey(" Ctrl + Shift + KeyS ").unwrap(),
        "shift+control+KeyS"
    );
}

#[test]
fn rejects_invalid_and_bare_letters() {
    assert!(normalize_hotkey("").is_err());
    assert!(normalize_hotkey("KeyS").is_err());
    assert!(normalize_hotkey("not-a-key").is_err());
}

#[test]
fn allows_function_and_special_singles() {
    assert_eq!(normalize_hotkey("F8").unwrap(), "F8");
    assert_eq!(normalize_hotkey("PrintScreen").unwrap(), "PrintScreen");
    assert!(is_allowed_single_key("F12"));
    assert!(!is_allowed_single_key("F13"));
    assert!(!is_allowed_single_key("KeyS"));
}

#[test]
fn a_stored_hotkey_falls_back_to_the_default() {
    let mut s = TextMap::new();
    assert_eq!(stored_hotkey(&s), "F9");
    s.insert("hotkey".to_string(), "shift+F8".to_string());
    assert_eq!(stored_hotkey(&s), "shift+F8");
}

#[test]
fn a_refused_hotkey_brings_the_old_one_back() {
    assert!(matches!(hotkey_step("F9", "F9", true), HotkeyStep::Unchanged));
    assert!(matches!(hotkey_step("F9", "F9", false), HotkeyStep::Rebind));
    assert!(matches!(hotkey_step("F8", "F9", true), HotkeyStep::Rebind));
    match hotkey_end("F8", "F9", None) {
        HotkeyEnd::Store(s) => assert_eq!(s, "F8"),
        _ => panic!("a registered hotkey is stored"),
    }
    match hotkey_end("F8", "F9", Some("taken")) {
        HotkeyEnd::Restore { previous, message } => {
            assert_eq!(previous, "F9");
            assert!(message.contains("F8") && message.contains("taken"), "{message}");
        }
        _ => panic!("a refused hotkey is taken back"),
    }
}

#[test]
fn presses_in_quick_succession_count_once() {
    let mut s = HotkeyState::default();
    assert!(s.press(1_000));
    assert!(!s.press(1_399));
    assert!(s.press(1_400));
}

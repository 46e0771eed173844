use twirchat::hotkeys::{
    format_hotkey_display, hotkey_for_action, matches_hotkey, normalize_hotkey_combo,
    normalize_key_name, normalize_keystroke, to_gpui_binding, HotkeyAction, HotkeyManager,
    Keystroke, Modifiers,
};
use twirchat::protocol::types::HotkeySettings;

fn press(key: &str, modifiers: Modifiers) -> Keystroke {
    Keystroke { key: key.to_string(), modifiers }
}

#[test]
fn key_names_are_normalized() {
    assert_eq!(normalize_key_name(" Left "), Some("arrowleft".to_string()));
    assert_eq!(normalize_key_name("Esc"), Some("escape".to_string()));
    assert_eq!(normalize_key_name("return"), Some("enter".to_string()));
    assert_eq!(normalize_key_name("Shift"), None);
    assert_eq!(normalize_key_name("   "), None);
    assert_eq!(normalize_key_name("K"), Some("k".to_string()));
}

#[test]
fn keystrokes_and_combos_share_one_form() {
    let all = Modifiers { control: true, alt: true, shift: true, platform: true, function: true };
    assert_eq!(normalize_keystroke(&press("Tab", all)), Some("ctrl+alt+shift+cmd+fn+tab".to_string()));
    assert_eq!(normalize_keystroke(&press("meta", all)), None);
    assert_eq!(normalize_hotkey_combo(" Shift + Control + t "), Some("ctrl+shift+t".to_string()));
    assert_eq!(normalize_hotkey_combo("super+command+left"), Some("cmd+arrowleft".to_string()));
    assert_eq!(normalize_hotkey_combo("ctrl+shift"), None);
    // The last key named wins; a modifier named later does not clear it.
    assert_eq!(normalize_hotkey_combo("a+b+alt"), Some("alt+b".to_string()));
    let ctrl = Modifiers { control: true, ..Default::default() };
    assert!(matches_hotkey(&press("T", ctrl), "Control+t"));
    assert!(!matches_hotkey(&press("t", Modifiers::default()), "ctrl+t"));
    assert!(!matches_hotkey(&press("shift", ctrl), "ctrl+shift"));
}

#[test]
fn display_and_binding_forms() {
    assert_eq!(format_hotkey_display("ctrl+pageup"), "Ctrl+PageUp");
    assert_eq!(format_hotkey_display("cmd+escape"), "Cmd+Esc");
    assert_eq!(format_hotkey_display("fn+f5"), "Fn+F5");
    assert_eq!(format_hotkey_display("++tab"), "Tab");
    assert_eq!(to_gpui_binding("ctrl+arrowleft"), Some("ctrl-left".to_string()));
    assert_eq!(to_gpui_binding("+"), None);
}

#[test]
fn manager_tracks_the_action_being_recorded() {
    let mut manager = HotkeyManager::new();
    assert_eq!(manager.recording_action(), None);
    manager.start_recording(HotkeyAction::NextTab);
    assert!(manager.is_recording(HotkeyAction::NextTab));
    assert!(!manager.is_recording(HotkeyAction::NewTab));
    manager.cancel_recording();
    assert_eq!(manager.recording_action(), None);
    assert_eq!(manager.record_keystroke(&press("k", Modifiers::default())), None);

    let settings = HotkeySettings {
        new_tab: "ctrl+t".to_string(),
        next_tab: "ctrl+tab".to_string(),
        prev_tab: "ctrl+shift+tab".to_string(),
        tab_selector: "ctrl+k".to_string(),
    };
    assert_eq!(hotkey_for_action(&settings, HotkeyAction::PrevTab), "ctrl+shift+tab");
}

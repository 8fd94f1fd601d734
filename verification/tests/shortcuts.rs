use std::str::FromStr;

use screen_grabbing_utility::first_window::{FirstWindow, HotKeyPress};
use screen_grabbing_utility::hotkeys::{CustomizeHotkey, Hotkeys, KeyBinding};

const CTRL_ONLY: &str =
    "Modifiers { alt: false, ctrl: true, shift: false, mac_cmd: false, command: true }";
const ALT_ONLY: &str =
    "Modifiers { alt: true, ctrl: false, shift: false, mac_cmd: false, command: false }";
const SHIFT_ONLY: &str =
    "Modifiers { alt: false, ctrl: false, shift: true, mac_cmd: false, command: false }";
const NOTHING: &str =
    "Modifiers { alt: false, ctrl: false, shift: false, mac_cmd: false, command: false }";
const ALT_AND_CTRL: &str =
    "Modifiers { alt: true, ctrl: true, shift: false, mac_cmd: false, command: true }";

fn hotkey_id(b: &KeyBinding) -> u32 {
    global_hotkey::hotkey::HotKey::new(
        Some(keyboard_types::Modifiers::from_bits_retain(b.modifiers)),
        keyboard_types::Code::from_str(&b.code).unwrap(),
    )
    .id()
}

#[test]
fn customize_hotkey_new_and_getters() {
    let h = CustomizeHotkey::new(3, "alt".to_string(), "K".to_string());
    assert!(h == CustomizeHotkey::new(3, "alt".to_string(), "K".to_string()));
    assert!(h != CustomizeHotkey::new(4, "alt".to_string(), "K".to_string()));
    assert_eq!(h.get_modifier(), "alt");
    assert_eq!(h.get_code(), "K");
}

#[test]
fn customize_hotkey_default_and_equality() {
    let d = CustomizeHotkey::default();
    assert_eq!(d.get_modifier(), "modifier");
    assert_eq!(d.get_code(), "Key");
    assert!(d == CustomizeHotkey::new(usize::MAX, "modifier".to_string(), "Key".to_string()));
    assert!(d != CustomizeHotkey::new(0, "modifier".to_string(), "Key".to_string()));
    assert!(
        CustomizeHotkey::new(1, "alt".to_string(), "A".to_string())
            != CustomizeHotkey::new(1, "alt".to_string(), "B".to_string())
    );
}

#[test]
fn default_shortcuts() {
    let h = Hotkeys::new();
    let labels = h.get_hotkeys_strings();
    let expected = ["D", "S", "C", "A", "G"];
    assert_eq!(labels.len(), 6);
    assert_eq!(labels[0], ("".to_string(), "Esc".to_string()));
    for (i, key) in expected.iter().enumerate() {
        assert_eq!(labels[i + 1], ("ctrl".to_string(), key.to_string()));
    }
    let bindings = h.get_hotkeys();
    // escape, with no modifier, goes back; control + D captures
    assert_eq!(bindings[0].modifiers, 0);
    assert_eq!(bindings[0].code, "Escape");
    for (i, key) in expected.iter().enumerate() {
        assert_eq!(bindings[i + 1].modifiers, 0x8);
        assert_eq!(bindings[i + 1].code, format!("Key{}", key));
    }
    assert_eq!(h.get_hotkey_strings_formatted(0), " + Esc");
    assert_eq!(h.get_hotkey_strings_formatted(5), "ctrl + G");
}

#[test]
fn shortcut_ids_are_those_of_the_hotkey_crate() {
    let h = Hotkeys::new();
    let ids = h.hotkey_ids();
    let bindings = h.get_hotkeys();
    for i in 0..6 {
        assert_eq!(ids[i], hotkey_id(&bindings[i]));
        assert_eq!(bindings[i].id(), ids[i]);
    }
    let expected = global_hotkey::hotkey::HotKey::new(
        Some(keyboard_types::Modifiers::CONTROL),
        keyboard_types::Code::KeyD,
    );
    assert_eq!(ids[1], expected.id());
    let escape = global_hotkey::hotkey::HotKey::new(None, keyboard_types::Code::Escape);
    assert_eq!(ids[0], escape.id());
    assert_ne!(ids[0], ids[1]);
}

#[test]
fn update_hotkey_assigns_a_free_binding() {
    let mut h = Hotkeys::new();
    let taken = h.update_hotkey(&CustomizeHotkey::new(2, "alt".to_string(), "K".to_string()));
    assert!(!taken);
    assert_eq!(h.get_hotkey_strings_formatted(2), "alt + K");
    let b = &h.get_hotkeys()[2];
    assert_eq!(b.modifiers, 0x1);
    assert_eq!(b.code, "KeyK");
    // every other slot keeps its shortcut
    let fresh = Hotkeys::new();
    for k in [0usize, 1, 3, 4, 5] {
        assert_eq!(h.get_hotkey_strings_formatted(k), fresh.get_hotkey_strings_formatted(k));
        assert_eq!(h.get_hotkeys()[k].code, fresh.get_hotkeys()[k].code);
        assert_eq!(h.get_hotkeys()[k].modifiers, fresh.get_hotkeys()[k].modifiers);
    }
}

#[test]
fn update_hotkey_digits_and_other_keys() {
    let mut h = Hotkeys::new();
    assert!(!h.update_hotkey(&CustomizeHotkey::new(1, "shift".to_string(), "7".to_string())));
    assert_eq!(h.get_hotkeys()[1].code, "Digit7");
    assert_eq!(h.get_hotkeys()[1].modifiers, 0x200);
    assert!(!h.update_hotkey(&CustomizeHotkey::new(4, "command".to_string(), "Space".to_string())));
    assert_eq!(h.get_hotkeys()[4].code, "Abort");
    assert_eq!(h.get_hotkeys()[4].modifiers, 0x8);
    assert_eq!(h.get_hotkey_strings_formatted(4), "command + Space");
}

#[test]
fn update_hotkey_refuses_a_taken_binding() {
    let mut h = Hotkeys::new();
    // ctrl + S is the save shortcut already
    let taken = h.update_hotkey(&CustomizeHotkey::new(0, "ctrl".to_string(), "S".to_string()));
    assert!(taken);
    assert_eq!(h.get_hotkey_strings_formatted(0), " + Esc");
    assert_eq!(h.get_hotkeys()[0].code, "Escape");
    // mac_cmd maps to control as well
    assert!(h.update_hotkey(&CustomizeHotkey::new(3, "mac_cmd".to_string(), "D".to_string())));
}

#[test]
fn try_update_hotkey_refuses_unknown_key_codes() {
    let mut h = Hotkeys::new();
    let r = h.try_update_hotkey(&CustomizeHotkey::new(2, "alt".to_string(), "k".to_string()));
    assert_eq!(r, None);
    assert_eq!(h.get_hotkey_strings_formatted(2), "ctrl + S");
    let r = h.try_update_hotkey(&CustomizeHotkey::new(2, "alt".to_string(), "Q".to_string()));
    assert_eq!(r, Some(false));
    assert_eq!(h.get_hotkeys()[2].code, "KeyQ");
}

#[test]
fn find_true_modifier_names_the_pressed_modifier() {
    assert_eq!(FirstWindow::find_true_modifier(CTRL_ONLY), Some("ctrl"));
    assert_eq!(FirstWindow::find_true_modifier(ALT_ONLY), Some("alt"));
    assert_eq!(FirstWindow::find_true_modifier(SHIFT_ONLY), Some("shift"));
    assert_eq!(FirstWindow::find_true_modifier(ALT_AND_CTRL), Some("alt"));
    assert_eq!(FirstWindow::find_true_modifier(NOTHING), None);
    assert_eq!(FirstWindow::find_true_modifier(""), None);
}

#[test]
fn count_true_counts_modifiers() {
    assert_eq!(FirstWindow::count_true(CTRL_ONLY), 1);
    assert_eq!(FirstWindow::count_true(ALT_ONLY), 1);
    assert_eq!(FirstWindow::count_true(NOTHING), 0);
    assert_eq!(FirstWindow::count_true(ALT_AND_CTRL), 2);
    // control alone counts only together with command
    assert_eq!(
        FirstWindow::count_true("Modifiers { ctrl: true, command: false }"),
        0
    );
}

#[test]
fn customize_shortcut_assigns_alt_digit() {
    let mut w = FirstWindow::new();
    w.customizing_hotkey = 2;
    let r = w.customize_shortcut(1, "{Num4}", true, ALT_ONLY);
    assert_eq!(r, (1, true));
    assert_eq!(w.customizing_hotkey, usize::MAX);
    assert!(w.new_hotkey == CustomizeHotkey::default());
    assert_eq!(w.shortcuts.get_hotkey_strings_formatted(2), "alt + 4");
    assert_eq!(w.shortcuts.get_hotkeys()[2].code, "Digit4");
}

#[test]
fn customize_shortcut_refuses_a_shown_shortcut() {
    let mut w = FirstWindow::new();
    w.customizing_hotkey = 0;
    let r = w.customize_shortcut(1, "{S}", true, CTRL_ONLY);
    assert_eq!(r, (2, true));
    assert_eq!(w.customizing_hotkey, usize::MAX);
    assert_eq!(w.shortcuts.get_hotkey_strings_formatted(0), " + Esc");
}

#[test]
fn customize_shortcut_refuses_non_letter_keys() {
    let mut w = FirstWindow::new();
    w.customizing_hotkey = 0;
    let r = w.customize_shortcut(1, "{Space}", true, CTRL_ONLY);
    assert_eq!(r, (2, true));
    assert_eq!(w.shortcuts.get_hotkey_strings_formatted(0), " + Esc");
}

#[test]
fn customize_shortcut_refuses_symbol_keys() {
    let mut w = FirstWindow::new();
    w.customizing_hotkey = 4;
    let r = w.customize_shortcut(1, "{-}", true, SHIFT_ONLY);
    assert_eq!(r, (2, true));
    assert_eq!(w.shortcuts.get_hotkey_strings_formatted(4), "ctrl + A");
}

#[test]
fn signed_numbers_make_no_digit_code() {
    let mut h = Hotkeys::new();
    let r = h.try_update_hotkey(&CustomizeHotkey::new(1, "alt".to_string(), "+5".to_string()));
    assert_eq!(r, None);
    let r = h.try_update_hotkey(&CustomizeHotkey::new(1, "alt".to_string(), "-5".to_string()));
    assert_eq!(r, Some(false));
    assert_eq!(h.get_hotkeys()[1].code, "Abort");
}

#[test]
fn customize_shortcut_too_many_keys() {
    let mut w = FirstWindow::new();
    w.customizing_hotkey = 1;
    assert_eq!(w.customize_shortcut(2, "{A, B}", true, CTRL_ONLY), (3, false));
    assert_eq!(w.customize_shortcut(1, "{A}", true, ALT_AND_CTRL), (3, false));
    assert_eq!(w.customizing_hotkey, 1);
    assert!(w.new_hotkey == CustomizeHotkey::default());
}

#[test]
fn customize_shortcut_waits_for_keys() {
    let mut w = FirstWindow::new();
    w.customizing_hotkey = 1;
    assert_eq!(w.customize_shortcut(0, "{}", false, NOTHING), (0, false));
    assert_eq!(w.customize_shortcut(1, "{A}", false, NOTHING), (0, false));
    assert_eq!(w.customizing_hotkey, 1);
}

#[test]
fn customize_shortcut_reports_keys_without_a_code() {
    let mut w = FirstWindow::new();
    w.customizing_hotkey = 3;
    let r = w.customize_shortcut(1, "{é}", true, ALT_ONLY);
    assert_eq!(r, (2, true));
    assert_eq!(w.shortcuts.get_hotkey_strings_formatted(3), "ctrl + C");
}

#[test]
fn screenshot_shortcut_opens_selection_after_timer() {
    let mut w = FirstWindow::new();
    w.selected_timer_numeric = 3;
    let ids = w.shortcuts.hotkey_ids();
    assert!(w.listens_for_hotkeys());
    assert_eq!(w.hotkey_listener(Some(HotKeyPress { id: ids[1], pressed: false })), None);
    assert_eq!(w.selected_window, 1);
    assert_eq!(w.hotkey_listener(Some(HotKeyPress { id: ids[0], pressed: true })), None);
    assert_eq!(w.selected_window, 1);
    assert_eq!(w.hotkey_listener(Some(HotKeyPress { id: ids[1], pressed: true })), Some(3));
    assert_eq!(w.selected_window, 2);
    assert_eq!(w.hotkey_listener(Some(HotKeyPress { id: ids[0], pressed: true })), None);
    assert_eq!(w.selected_window, 1);
}

#[test]
fn editing_shortcuts_raise_flags() {
    let mut w = FirstWindow::new();
    w.selected_window = 5;
    let ids = w.shortcuts.hotkey_ids();
    w.hotkey_listener(Some(HotKeyPress { id: ids[2], pressed: true }));
    assert!(w.ready_to_save && !w.ready_to_copy);
    w.hotkey_listener(Some(HotKeyPress { id: ids[3], pressed: true }));
    assert!(w.ready_to_copy);
    w.hotkey_listener(Some(HotKeyPress { id: ids[4], pressed: true }));
    assert!(w.ready_to_save_with_name);
    assert!(!w.ready_to_crop);
    w.hotkey_listener(Some(HotKeyPress { id: ids[5], pressed: true }));
    assert!(w.ready_to_crop);
    assert_eq!(w.selected_window, 5);
    w.selected_window = 6;
    assert!(!w.listens_for_hotkeys());
}

#[test]
fn apply_hotkey_event_uses_given_ids() {
    let mut w = FirstWindow::new();
    let ids = [10, 11, 12, 13, 14, 15];
    assert_eq!(w.apply_hotkey_event(Some(HotKeyPress { id: 11, pressed: true }), ids), Some(0));
    assert_eq!(w.selected_window, 2);
    assert_eq!(w.apply_hotkey_event(None, ids), None);
    assert_eq!(w.selected_window, 2);
    w.apply_hotkey_event(Some(HotKeyPress { id: 10, pressed: true }), ids);
    assert_eq!(w.selected_window, 1);
}

#[test]
fn saved_image_paths() {
    assert_eq!(
        FirstWindow::image_file_path("./screenshot", "2024-01-01_10_00_00", "png"),
        "./screenshot/2024-01-01_10_00_00.png"
    );
    assert_eq!(FirstWindow::with_chosen_format("/tmp/shot.jpg", "gif"), "/tmp/shot.gif");
    assert_eq!(FirstWindow::with_chosen_format("/tmp/é.png", "jpg"), "/tmp/é.jpg");
}

#[test]
fn a_taken_binding_is_reported_for_any_slot() {
    let mut h = Hotkeys::new();
    // control + S is taken: reported as such even for a slot that does not exist
    assert!(h.update_hotkey(&CustomizeHotkey::new(17, "ctrl".to_string(), "S".to_string())));
    assert_eq!(
        h.try_update_hotkey(&CustomizeHotkey::new(17, "ctrl".to_string(), "S".to_string())),
        Some(true)
    );
    // a free binding needs an existing slot
    assert_eq!(
        h.try_update_hotkey(&CustomizeHotkey::new(17, "alt".to_string(), "S".to_string())),
        None
    );
    let fresh = Hotkeys::new();
    for k in 0..6 {
        assert_eq!(h.get_hotkey_strings_formatted(k), fresh.get_hotkey_strings_formatted(k));
    }
}

#[test]
fn numbers_that_do_not_fit_make_no_digit_code() {
    let mut h = Hotkeys::new();
    let r = h.try_update_hotkey(&CustomizeHotkey::new(2, "alt".to_string(), "4294967296".to_string()));
    assert_eq!(r, Some(false));
    assert_eq!(h.get_hotkeys()[2].code, "Abort");
    let r = h.try_update_hotkey(&CustomizeHotkey::new(3, "shift".to_string(), "+".to_string()));
    assert_eq!(r, Some(false));
    assert_eq!(h.get_hotkeys()[3].code, "Abort");
    let r = h.try_update_hotkey(&CustomizeHotkey::new(4, "alt".to_string(), "12".to_string()));
    assert_eq!(r, None);
    let r = h.try_update_hotkey(&CustomizeHotkey::new(4, "shift".to_string(), "+9".to_string()));
    assert_eq!(r, None);
}

#[test]
fn scan_modifier_reports_texts_it_cannot_cut() {
    assert_eq!(FirstWindow::scan_modifier(ALT_ONLY), Some(Some("alt")));
    assert_eq!(FirstWindow::scan_modifier(NOTHING), Some(None));
    // no separator before the first `true`
    assert_eq!(FirstWindow::scan_modifier("alt: true"), None);
    // a `true` too early for a name
    assert_eq!(FirstWindow::scan_modifier("true"), None);
    assert_eq!(FirstWindow::scan_modifier("{true"), None);
    assert_eq!(FirstWindow::find_true_modifier(CTRL_ONLY), Some("ctrl"));
}

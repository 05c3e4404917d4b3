use tvoice::hotkey::{
    capture_config, captured_key, is_modifier, is_typing_key, key_name, Hotkey, HotkeyConfig,
    HotkeyEvent,
};

fn keys(held: &[u16]) -> Vec<bool> {
    let mut v = vec![false; 256];
    for &k in held {
        v[k as usize] = true;
    }
    v
}

#[test]
fn default_hotkey_is_ctrl_alt_space() {
    let h = HotkeyConfig::default();
    assert!(h.ctrl && h.alt && !h.shift && !h.win);
    assert_eq!(h.vk, 0x20);
    assert_eq!(h.key_name, "Space");
    assert_eq!(h.label(), "Ctrl + Alt + Space");
}

#[test]
fn label_lists_modifiers_in_order() {
    let h = HotkeyConfig { ctrl: true, alt: false, shift: true, win: true, vk: 0x41, key_name: "A".to_string() };
    assert_eq!(h.label(), "Ctrl + Shift + Win + A");
    let bare = HotkeyConfig { ctrl: false, alt: false, shift: false, win: false, vk: 0x70, key_name: "F1".to_string() };
    assert_eq!(bare.label(), "F1");
}

#[test]
fn risky_only_without_modifiers_on_typing_keys() {
    let mut h = HotkeyConfig { ctrl: false, alt: false, shift: false, win: false, vk: 0x41, key_name: "A".to_string() };
    assert!(h.is_risky());
    h.vk = 0x70;
    assert!(!h.is_risky());
    h.vk = 0x41;
    h.shift = true;
    assert!(!h.is_risky());
    assert!(is_typing_key(0x20));
    assert!(is_typing_key(0xBA));
    assert!(is_typing_key(0xDF));
    assert!(!is_typing_key(0xC1));
}

#[test]
fn modifiers_are_recognised() {
    for vk in [0x10u16, 0x11, 0x12, 0x5B, 0x5C, 0xA0, 0xA5] {
        assert!(is_modifier(vk));
    }
    assert!(!is_modifier(0x13));
    assert!(!is_modifier(0xA6));
}

#[test]
fn combination_is_down_only_with_all_its_keys() {
    let h = HotkeyConfig::default();
    assert!(h.is_down(&keys(&[0x11, 0x12, 0x20])));
    assert!(!h.is_down(&keys(&[0x11, 0x20])));
    assert!(!h.is_down(&keys(&[0x11, 0x12])));
    let w = HotkeyConfig { ctrl: false, alt: false, shift: false, win: true, vk: 0x41, key_name: "A".into() };
    assert!(w.is_down(&keys(&[0x5C, 0x41])));
    let none = HotkeyConfig { ctrl: false, alt: false, shift: false, win: false, vk: 0, key_name: String::new() };
    assert!(!none.is_down(&keys(&[0])));
    assert!(!h.is_down(&[]));
}

#[test]
fn key_names() {
    assert_eq!(key_name(0x01, None), "Мышь: левая");
    assert_eq!(key_name(0x05, None), "Мышь: X1 (назад)");
    assert_eq!(key_name(0x25, None), "Влево");
    assert_eq!(key_name(0x35, None), "5");
    assert_eq!(key_name(0x4B, None), "K");
    assert_eq!(key_name(0x65, None), "Num5");
    assert_eq!(key_name(0x70, None), "F1");
    assert_eq!(key_name(0x87, None), "F24");
    assert_eq!(key_name(0xBA, Some("  ;  ".to_string())), ";");
    assert_eq!(key_name(0xBA, Some("   ".to_string())), "Клавиша 0xBA");
    assert_eq!(key_name(0x07, None), "Клавиша 0x07");
    assert_eq!(key_name(0x20, Some("Пробел".to_string())), "Space");
}

#[test]
fn capture_picks_lowest_non_modifier() {
    assert_eq!(captured_key(&keys(&[0x11, 0x41, 0x42])), Some(0x41));
    assert_eq!(captured_key(&keys(&[0x01, 0x11])), None);
    assert_eq!(captured_key(&keys(&[0xFF])), None);
    assert_eq!(captured_key(&keys(&[0x02])), Some(0x02));
    let c = capture_config(&keys(&[0x11, 0x10, 0x44]), 0x44, None);
    assert!(c.ctrl && c.shift && !c.alt && !c.win);
    assert_eq!(c.vk, 0x44);
    assert_eq!(c.key_name, "D");
}

#[test]
fn poll_reports_edges() {
    let mut h = Hotkey::new(HotkeyConfig::default());
    let down = keys(&[0x11, 0x12, 0x20]);
    let up = keys(&[]);
    h.poll(&up, None);
    assert!(h.drain().is_empty());
    h.poll(&down, None);
    h.poll(&down, None);
    h.poll(&up, None);
    assert_eq!(h.drain(), vec![HotkeyEvent::Pressed, HotkeyEvent::Released]);
    assert!(h.drain().is_empty());
}

#[test]
fn capture_press_does_not_start_dictation() {
    let mut h = Hotkey::new(HotkeyConfig::default());
    h.start_capture();
    assert!(h.is_capturing());
    let held = keys(&[0x12, 0x51]);
    h.poll(&held, None);
    assert!(!h.is_capturing());
    assert_eq!(h.label(), "Alt + Q");
    h.poll(&held, None);
    assert!(h.drain().is_empty());
    h.poll(&keys(&[]), None);
    assert_eq!(h.drain(), vec![HotkeyEvent::Released]);
}

#[test]
fn cancel_capture_keeps_combination() {
    let mut h = Hotkey::new(HotkeyConfig::default());
    h.start_capture();
    h.cancel_capture();
    h.poll(&keys(&[0x51]), None);
    assert_eq!(h.label(), "Ctrl + Alt + Space");
    assert!(!h.is_risky());
}

#[test]
fn events_alternate_across_drains() {
    let mut h = Hotkey::new(HotkeyConfig::default());
    let down = keys(&[0x11, 0x12, 0x20]);
    let up = keys(&[]);
    let mut all = Vec::new();
    h.poll(&down, None);
    all.extend(h.drain());
    h.poll(&down, None);
    h.poll(&up, None);
    h.poll(&down, None);
    all.extend(h.drain());
    assert!(h.drain().is_empty());
    h.poll(&up, None);
    h.poll(&up, None);
    all.extend(h.drain());
    assert_eq!(
        all,
        vec![HotkeyEvent::Pressed, HotkeyEvent::Released, HotkeyEvent::Pressed, HotkeyEvent::Released]
    );
}

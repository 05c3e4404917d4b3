use tvoice::config::{strip_bom, Config};
use tvoice::control::{
    begin_check, hotkey_action, initial_model, is_engine_download, push_log, tray_dictate_action, Begin,
    BeginError, Session, Toggle,
};
use tvoice::dictation::{outcome_of, DictationStatus, Outcome};
use tvoice::hotkey::{HotkeyConfig, HotkeyEvent};
use tvoice::lang::{current, tr, Lang, LangCell};
use tvoice::models::by_id;
use tvoice::overlay::{current_anchor, keep_on, place, set_anchor, Anchor, AnchorCell, Overlay, Point, Rect, Source};

#[test]
fn config_defaults() {
    let c = Config::default();
    assert!(c.ctrl && c.alt && !c.shift && !c.win);
    assert_eq!(c.vk, 0x20);
    assert_eq!(c.key_name, "Space");
    assert!(c.model.is_none());
    assert_eq!(c.lang, "ru");
    assert!(c.insert && c.streaming && !c.start_in_tray);
    assert_eq!(c.paste_mode, 0);
    assert_eq!(c.char_delay_us, 8000);
    assert_eq!(c.hotkey().label(), "Ctrl + Alt + Space");
}

#[test]
fn config_keeps_a_hotkey() {
    let mut c = Config::default();
    let h = HotkeyConfig { ctrl: false, alt: false, shift: true, win: false, vk: 0x70, key_name: "F1".into() };
    c.set_hotkey(&h);
    let back = c.hotkey();
    assert_eq!((back.ctrl, back.alt, back.shift, back.win, back.vk), (false, false, true, false, 0x70));
    assert_eq!(back.key_name, "F1");
    assert_eq!(c.lang, "ru");
}

#[test]
fn byte_order_marks_are_stripped() {
    assert_eq!(strip_bom("\u{feff}{\"a\":1}"), "{\"a\":1}");
    assert_eq!(strip_bom("\u{feff}\u{feff}x"), "x");
    assert_eq!(strip_bom("x\u{feff}"), "x\u{feff}");
}

#[test]
fn interface_language() {
    let mut cell = LangCell::new();
    assert_eq!(current(&cell), Lang::Ru);
    assert_eq!(tr(&cell, "Диктовка", "Dictation"), "Диктовка");
    tvoice::lang::set(&mut cell, Lang::En);
    assert_eq!(current(&cell), Lang::En);
    assert_eq!(tr(&cell, "Диктовка", "Dictation"), "Dictation");
    assert_eq!(Lang::from_id("en"), Some(Lang::En));
    assert_eq!(Lang::from_id(Lang::Ru.id()), Some(Lang::Ru));
    assert_eq!(Lang::from_id("de"), None);
    assert_eq!(Lang::En.label(), "English");
    assert_eq!(Lang::Ru.label(), "Русский");
}

#[test]
fn anchors_round_trip() {
    for a in Anchor::all() {
        assert_eq!(Anchor::from_id(a.id()), a);
        assert_eq!(Anchor::from_index(a.index()), a);
    }
    assert_eq!(Anchor::from_id("nowhere"), Anchor::Cursor);
    assert_eq!(Anchor::from_index(42), Anchor::Cursor);
    assert_eq!(Anchor::BottomRight.id(), "bottom-right");
    assert_eq!(Anchor::Caret.label(), "У курсора ввода");
    let mut cell = AnchorCell::new();
    assert_eq!(current_anchor(&cell), Anchor::Cursor);
    set_anchor(&mut cell, Anchor::TopCenter);
    assert_eq!(current_anchor(&cell), Anchor::TopCenter);
}

#[test]
fn placement() {
    let area = Rect { left: 0, top: 0, right: 1920, bottom: 1040 };
    let mouse = Point { x: 500, y: 400 };
    assert_eq!(place(Anchor::Cursor, mouse, None, area, 100, 40), (Point { x: 514, y: 358 }, Source::Mouse));
    assert_eq!(
        place(Anchor::Caret, mouse, Some(Point { x: 10, y: 20 }), area, 100, 40),
        (Point { x: 16, y: 24 }, Source::Caret)
    );
    assert_eq!(place(Anchor::Caret, mouse, None, area, 100, 40).1, Source::Mouse);
    assert_eq!(place(Anchor::TopLeft, mouse, None, area, 100, 40).0, Point { x: 24, y: 24 });
    assert_eq!(place(Anchor::BottomRight, mouse, None, area, 100, 40).0, Point { x: 1796, y: 976 });
    assert_eq!(place(Anchor::TopCenter, mouse, None, area, 100, 40).0, Point { x: 910, y: 24 });
    assert_eq!(place(Anchor::LeftCenter, mouse, None, area, 100, 40).0, Point { x: 24, y: 500 });
    assert_eq!(keep_on(Point { x: -50, y: 2000 }, area, 100, 40), Point { x: 0, y: 1000 });
    assert_eq!(keep_on(Point { x: 5, y: 5 }, Rect { left: 0, top: 0, right: 50, bottom: 20 }, 100, 40), Point { x: 0, y: 0 });
}

#[test]
fn overlay_keeps_first_level_counter() {
    let mut o: Overlay<u32> = Overlay::new();
    assert!(!o.is_visible());
    o.attach_level(1);
    o.attach_level(2);
    o.set_visible(true);
    assert!(o.is_visible());
    assert_eq!(o.level_source(), Some(&1));
}

#[test]
fn hotkey_meaning_by_mode() {
    assert_eq!(hotkey_action(true, false, HotkeyEvent::Pressed), Toggle::Begin);
    assert_eq!(hotkey_action(true, true, HotkeyEvent::Pressed), Toggle::Stop);
    assert_eq!(hotkey_action(true, true, HotkeyEvent::Released), Toggle::Nothing);
    assert_eq!(hotkey_action(false, false, HotkeyEvent::Pressed), Toggle::Begin);
    assert_eq!(hotkey_action(false, true, HotkeyEvent::Released), Toggle::Stop);
    assert_eq!(tray_dictate_action(true), Toggle::Stop);
    assert_eq!(tray_dictate_action(false), Toggle::Begin);
}

#[test]
fn starting_dictation_is_checked() {
    let small = by_id("small");
    assert!(matches!(begin_check(true, false, true, small, true), Begin::Busy));
    assert!(matches!(begin_check(false, false, false, small, true), Begin::Refused(BeginError::NoEngine)));
    assert!(matches!(begin_check(false, false, true, None, true), Begin::Refused(BeginError::NoModel)));
    assert!(matches!(begin_check(false, false, true, small, false), Begin::Refused(BeginError::NotDownloaded)));
    match begin_check(false, false, true, small, true) {
        Begin::Go(m) => assert_eq!(m.file, "ggml-small.bin"),
        _ => panic!("expected to start"),
    }
    assert_eq!(BeginError::NotDownloaded.message(), "Модель не скачана");
}

#[test]
fn each_exit_is_handled_once() {
    let mut s = Session::new();
    assert!(!s.stop());
    s.started();
    assert!(s.is_dictating());
    assert!(s.stop());
    assert!(!s.stop());
}

#[test]
fn model_chosen_at_start() {
    assert_eq!(initial_model(Some("medium"), &[true, false, false, true, false]), Some(3));
    assert_eq!(initial_model(Some("medium"), &[false, true, false, false, false]), Some(1));
    assert_eq!(initial_model(Some("huge"), &[false, false, true]), Some(2));
    assert_eq!(initial_model(None, &[]), None);
}

#[test]
fn log_keeps_the_newest_lines() {
    let mut log: Vec<String> = Vec::new();
    for i in 0..205 {
        push_log(&mut log, format!("line {i}"));
    }
    assert_eq!(log.len(), 200);
    assert_eq!(log[0], "line 5");
    assert_eq!(log[199], "line 204");
    assert!(is_engine_download(Some("whisper-gpu")));
    assert!(!is_engine_download(Some("small")));
    assert!(!is_engine_download(None));
}

#[test]
fn dictation_status_moves_through_a_run() {
    let mut s = DictationStatus::default();
    s.begin();
    assert!(s.busy);
    assert_eq!(s.state, "Готовлю аудио…");
    s.recognizing();
    assert_eq!(s.state, "Распознаю…");
    s.finish(outcome_of(Ok("привет".to_string())), true);
    assert!(!s.busy);
    assert_eq!(s.last_text, "привет");
    assert_eq!(s.state, "Вставлено ✓");
    s.finish(outcome_of(Ok(String::new())), false);
    assert_eq!(s.state, "Пусто (речь не распознана)");
    s.finish(outcome_of(Err("сбой".to_string())), false);
    assert_eq!(s.error.as_deref(), Some("сбой"));
    assert_eq!(s.state, "Ошибка: сбой");
    assert!(matches!(outcome_of(Ok("x".into())), Outcome::Text(_)));
}

#[test]
fn language_from_the_system() {
    assert_eq!(tvoice::lang::from_langid(0x0419), Lang::Ru);
    assert_eq!(tvoice::lang::from_langid(0x0409), Lang::En);
    assert_eq!(tvoice::lang::from_langid(0x0819), Lang::Ru);
}

#[test]
fn autostart_command() {
    assert_eq!(tvoice::autostart::command(r"C:\Apps\tvoice.exe"), "\"C:\\Apps\\tvoice.exe\" --tray");
    assert!(tvoice::autostart::same_command("\"c:\\apps\\TVOICE.exe\" --tray", "\"C:\\Apps\\tvoice.exe\" --tray"));
    assert!(!tvoice::autostart::same_command("\"D:\\tvoice.exe\" --tray", "\"C:\\tvoice.exe\" --tray"));
}

#[test]
fn streaming_status_start_and_finish() {
    let mut s = DictationStatus::default();
    s.last_text = "старое".to_string();
    s.auto_stop = true;
    s.error = Some("x".to_string());
    s.stream_started();
    assert!(s.busy);
    assert!(s.error.is_none());
    assert_eq!(s.state, "Слушаю… (говорите)");
    assert_eq!(s.last_text, "");
    assert!(!s.auto_stop);
    s.last_text = "привет".to_string();
    s.stream_finished(true);
    assert!(!s.busy);
    assert!(s.auto_stop);
    assert_eq!(s.state, "Тишина 10с — захват остановлен");
    assert_eq!(s.last_text, "привет");
    s.stream_started();
    s.stream_finished(false);
    assert!(!s.auto_stop);
    assert_eq!(s.state, "Готово ✓");
}

#[test]
fn recording_status_start() {
    let mut s = DictationStatus::default();
    s.last_text = "раньше".to_string();
    s.error = Some("e".to_string());
    s.recording_started();
    assert!(s.busy);
    assert!(s.error.is_none());
    assert_eq!(s.state, "Запись… (говорите)");
    assert_eq!(s.last_text, "раньше");
    assert!(!s.auto_stop);
}

use tvoice::caret::{position, set_active, CaretWatch, Found};
use tvoice::download::{
    after_broken_attempt, content_range_total, install_outcome, is_complete, parse_u64, pick_cpu_asset,
    pick_gpu_asset, resume, wanted_entry, InstallError,
};
use tvoice::inject::{
    clipboard_first, key_plan, mode_name, queue_replace, queue_text, replace_plan, set_char_delay_us, set_mode,
    Injector, KeyStep, Replace, MODE_CLIPBOARD, MODE_KEYS,
};
use tvoice::mic::{pick_device, DeviceInfo};
use tvoice::models::{active_engine, by_id, catalog, engine_zip_name, has_cuda_backend, whisper_exe, DownloadState, Engine};
use tvoice::overlay::Point;
use tvoice::permission::{allow_value, fmt_allow, report_from, PermissionState};
use tvoice::server::{
    cli_args, content_type, decoding_args, multipart_body, prewarm, server_args, shutdown, transcribe, Route,
    ServerSlot,
};
use tvoice::text::chars_of;
use tvoice::tray::{command_event, dictate_item, icon_action, tip_units, IconAction, Tray, TrayEvent};
use tvoice::userinput::{ignore_vk, touched_since, InputWatch};

fn names(v: &[&str]) -> Vec<String> {
    v.iter().map(|s| s.to_string()).collect()
}

#[test]
fn catalogue_and_urls() {
    let c = catalog();
    assert_eq!(c.len(), 5);
    assert_eq!(c[0].id, "tiny");
    assert_eq!(c[4].file, "ggml-large-v3-turbo-q5_0.bin");
    let m = by_id("base").unwrap();
    assert_eq!(m.size_mb, 148);
    assert_eq!(m.url(), "https://huggingface.co/ggerganov/whisper.cpp/resolve/main/ggml-base.bin");
    assert!(by_id("gigantic").is_none());
}

#[test]
fn engine_detection() {
    assert_eq!(active_engine(false, true), None);
    assert_eq!(active_engine(true, true), Some(Engine::Gpu));
    assert_eq!(active_engine(true, false), Some(Engine::Cpu));
    assert_eq!(whisper_exe(&[false, true, true]), Some("main.exe"));
    assert_eq!(whisper_exe(&[]), None);
    assert_eq!(engine_zip_name(true), "_whisper_gpu.zip");
    assert!(has_cuda_backend(&names(&["whisper.dll", "GGML-CUDA.dll"])));
    assert!(!has_cuda_backend(&names(&["ggml-cuda.txt", "cudart64_12.dll"])));
}

#[test]
fn download_state() {
    let mut d = DownloadState::default();
    assert!(!d.is_busy());
    d.active = Some("small".into());
    assert!(d.is_busy());
    d.finish(Err("сеть: обрыв".into()));
    assert!(!d.is_busy());
    assert_eq!(d.message, "Ошибка: сеть: обрыв");
    assert_eq!(d.error.as_deref(), Some("сеть: обрыв"));
    d.finish(Ok(()));
    assert_eq!(d.message, "Готово.");
}

#[test]
fn numbers_and_ranges() {
    assert_eq!(parse_u64(&chars_of("1000")), Some(1000));
    assert_eq!(parse_u64(&chars_of("+7")), Some(7));
    assert_eq!(parse_u64(&chars_of("18446744073709551615")), Some(u64::MAX));
    assert_eq!(parse_u64(&chars_of("18446744073709551616")), None);
    assert_eq!(parse_u64(&chars_of("")), None);
    assert_eq!(parse_u64(&chars_of("+")), None);
    assert_eq!(parse_u64(&chars_of("-1")), None);
    assert_eq!(parse_u64(&chars_of(" 1")), None);
    assert_eq!(content_range_total(Some("bytes 100-999/1000")), Some(1000));
    assert_eq!(content_range_total(Some("bytes 0-1/ 42 ")), Some(42));
    assert_eq!(content_range_total(Some("bytes 0-1/*")), None);
    assert_eq!(content_range_total(Some("77")), Some(77));
    assert_eq!(content_range_total(None), None);
}

#[test]
fn resuming_downloads() {
    assert_eq!(resume(true, Some("bytes 500-999/1000"), Some("500"), 500), (500, 1000));
    assert_eq!(resume(true, None, Some("500"), 500), (500, 1000));
    assert_eq!(resume(true, None, None, 500), (500, 500));
    assert_eq!(resume(false, Some("bytes 500-999/1000"), Some("1000"), 500), (0, 1000));
    assert_eq!(resume(false, None, Some("x"), 500), (0, 0));
    assert!(is_complete(0, 0));
    assert!(is_complete(10, 10));
    assert!(!is_complete(10, 9));
    assert_eq!(after_broken_attempt(5, 100, 200), (0, false));
    assert_eq!(after_broken_attempt(5, 100, 100), (6, false));
    assert_eq!(after_broken_attempt(19, 100, 100), (20, true));
}

#[test]
fn release_assets_are_picked() {
    let a = names(&[
        "whisper-blas-bin-x64.zip",
        "whisper-cublas-11.8.0-bin-x64.zip",
        "whisper-cublas-12.4.0-bin-x64.zip",
        "Whisper-Bin-X64.zip",
        "whisper-bin-Win32.zip",
    ]);
    assert_eq!(pick_cpu_asset(&a), Some(3));
    assert_eq!(pick_gpu_asset(&a), Some(2));
    let b = names(&["whisper-vulkan-x64.zip", "whisper-x64-plain.zip"]);
    assert_eq!(pick_cpu_asset(&b), Some(1));
    let c = names(&["whisper-vulkan-x64.zip", "whisper-cublas-11.8.0-bin-x64.zip"]);
    assert_eq!(pick_cpu_asset(&c), Some(0));
    assert_eq!(pick_gpu_asset(&c), Some(1));
    assert_eq!(pick_gpu_asset(&names(&["whisper-bin-x64.zip"])), None);
    assert_eq!(pick_cpu_asset(&names(&["source.tar.gz"])), None);
}

#[test]
fn engine_installation() {
    assert!(wanted_entry("Release/whisper-cli.EXE"));
    assert!(wanted_entry("ggml-cuda.dll"));
    assert!(!wanted_entry("README.md"));
    assert_eq!(install_outcome(true, 10, 0, false, false), Ok(()));
    assert_eq!(install_outcome(false, 3, 1, true, true), Err(InstallError::NoExecutable { extracted: 3, failed: 1 }));
    assert_eq!(install_outcome(true, 3, 2, false, true), Err(InstallError::Incomplete { failed: 2 }));
    assert_eq!(install_outcome(true, 3, 0, true, false), Err(InstallError::NoCudaBackend));
}

#[test]
fn injection_settings_and_queue() {
    let mut inj = Injector::new();
    assert_eq!(inj.mode(), 0);
    assert_eq!(inj.char_delay_us(), 8000);
    set_mode(&mut inj, MODE_KEYS);
    set_char_delay_us(&mut inj, 15000);
    queue_text(&mut inj, "привет");
    queue_replace(&mut inj, 3, "мир");
    assert_eq!(inj.take_queue(), vec![(0, "привет".to_string()), (3, "мир".to_string())]);
    assert!(inj.take_queue().is_empty());
    assert_eq!(inj.mode(), MODE_KEYS);
    assert_eq!(mode_name(MODE_CLIPBOARD), "Буфер обмена (Ctrl+V)");
    assert_eq!(mode_name(9), "Авто — буфер обмена");
    assert!(!clipboard_first(MODE_KEYS));
    assert!(clipboard_first(MODE_CLIPBOARD));
}

#[test]
fn replacements() {
    assert_eq!(replace_plan(0, ""), Replace::Nothing);
    assert_eq!(replace_plan(0, "a"), Replace::Type);
    assert_eq!(replace_plan(121, "a"), Replace::Refuse);
    assert_eq!(replace_plan(120, ""), Replace::Erase { back: 120, then_type: false });
    assert_eq!(replace_plan(2, "ab"), Replace::Erase { back: 2, then_type: true });
}

fn plan_str(steps: &[KeyStep]) -> Vec<String> {
    steps
        .iter()
        .map(|s| match s {
            KeyStep::Enter => "E".to_string(),
            KeyStep::Pause => "P".to_string(),
            KeyStep::Units(u) => format!("{u:X?}"),
        })
        .collect()
}

#[test]
fn keyboard_plan() {
    assert_eq!(plan_str(&key_plan("ab\nc", false)), vec!["[61, 62]", "E", "[63]"]);
    assert_eq!(plan_str(&key_plan("a😀\n", true)), vec!["[61]", "P", "[D83D, DE00]", "E"]);
    assert_eq!(plan_str(&key_plan("", false)), vec!["[]"]);
}

#[test]
fn server_routing() {
    let mut slot = ServerSlot::new();
    assert_eq!(transcribe(&mut slot, false, "m.bin", "ru"), Route::Cli);
    assert_eq!(transcribe(&mut slot, true, "m.bin", "ru"), Route::Start);
    slot.started("m.bin", "ru", 5555);
    assert_eq!(transcribe(&mut slot, true, "m.bin", "ru"), Route::Reuse { port: 5555 });
    assert!(!prewarm(&slot, true, "m.bin", "ru"));
    assert!(prewarm(&slot, true, "m.bin", "en"));
    assert_eq!(transcribe(&mut slot, true, "m.bin", "en"), Route::Start);
    assert_eq!(slot.port(), None);
    slot.started("m.bin", "en", 6000);
    shutdown(&mut slot);
    assert_eq!(slot.port(), None);
}

#[test]
fn server_command_lines() {
    assert_eq!(decoding_args(), vec!["-bs", "1", "-nf"]);
    let extra = decoding_args();
    assert_eq!(
        server_args("m.bin", "ru", "8", &extra, "5555"),
        vec!["-m", "m.bin", "-l", "ru", "-t", "8", "-bs", "1", "-nf", "--host", "127.0.0.1", "--port", "5555"]
    );
    assert_eq!(cli_args("m", "a.wav", "ru", "4", "out").len(), 17);
    assert_eq!(content_type(), "multipart/form-data; boundary=----tvoiceBoundary8f3ac21");
}

#[test]
fn multipart_framing() {
    let body = multipart_body(b"RIFF");
    let text = String::from_utf8(body).unwrap();
    assert!(text.starts_with("------tvoiceBoundary8f3ac21\r\nContent-Disposition: form-data; name=\"file\"; filename=\"audio.wav\"\r\nContent-Type: audio/wav\r\n\r\nRIFF\r\n"));
    assert!(text.contains("name=\"response_format\"\r\n\r\ntext\r\n"));
    assert!(text.contains("name=\"temperature\"\r\n\r\n0.0\r\n"));
    assert!(text.ends_with("------tvoiceBoundary8f3ac21--\r\n"));
}

#[test]
fn tray_routing() {
    assert_eq!(command_event(0x0001_0002), Some(TrayEvent::Dictate));
    assert_eq!(command_event(3), Some(TrayEvent::Quit));
    assert_eq!(command_event(9), None);
    assert_eq!(icon_action(0x0203), IconAction::Event(TrayEvent::Show));
    assert_eq!(icon_action(0x0205), IconAction::Menu);
    assert_eq!(icon_action(0x0200), IconAction::Ignore);
    assert_eq!(dictate_item(true), "Остановить диктовку");
    assert_eq!(tip_units("TVOICE", 4), vec![0x54, 0x56, 0x4F, 0]);
    assert_eq!(tip_units("ab", 128), vec![0x61, 0x62, 0]);
    let mut t = Tray::new();
    t.send(TrayEvent::Show);
    t.set_dictating(true);
    assert_eq!(t.dictate_label(), "Остановить диктовку");
    assert_eq!(t.drain(), vec![TrayEvent::Show]);
    assert!(t.drain().is_empty());
}

#[test]
fn user_input_watch() {
    let mut w = InputWatch::new();
    ignore_vk(&mut w, 0x20);
    w.on_key(0x20, false, 100);
    assert!(!touched_since(&w, 50));
    w.on_key(0x41, true, 100);
    assert!(!touched_since(&w, 50));
    w.on_key(0x41, false, 120);
    assert!(touched_since(&w, 50));
    assert!(!touched_since(&w, 120));
    w.on_mouse(0x0200, false, 200);
    assert!(!touched_since(&w, 120));
    w.on_mouse(0x0204, false, 200);
    assert!(touched_since(&w, 120));
    w.on_key(0x1_0020, false, 300);
    assert!(!touched_since(&w, 200));
}

#[test]
fn caret_freshness() {
    let mut w = CaretWatch::new();
    set_active(&mut w, true);
    assert!(w.is_active());
    assert_eq!(position(&w, 0), None);
    w.record(Some(Found { pos: Point { x: 5, y: 6 }, at_ms: 1000, source: "Win32" }));
    assert_eq!(position(&w, 2499), Some((Point { x: 5, y: 6 }, "Win32")));
    assert_eq!(position(&w, 2500), None);
    assert_eq!(position(&w, 10), Some((Point { x: 5, y: 6 }, "Win32")));
}

#[test]
fn permission_verdicts() {
    assert!(allow_value("allow"));
    assert!(!allow_value("Deny"));
    assert_eq!(fmt_allow(None), "нет данных");
    let r = report_from(Some(true), Some(false), Some(true), PermissionState::Allowed);
    assert_eq!(r.effective, PermissionState::Denied);
    assert_eq!(r.details.len(), 5);
    assert_eq!(r.details[4], "→ Пользователь отключил микрофон для аккаунта.");
    assert_eq!(r.details[0], "AppCapability API: Разрешён");
    let ok = report_from(None, Some(true), None, PermissionState::Unknown);
    assert_eq!(ok.effective, PermissionState::Allowed);
    assert_eq!(ok.details.len(), 4);
    let ask = report_from(None, None, None, PermissionState::Unknown);
    assert_eq!(ask.effective, PermissionState::PromptRequired);
    let unknown = report_from(Some(true), None, None, PermissionState::Unknown);
    assert_eq!(unknown.effective, PermissionState::Unknown);
    assert_eq!(PermissionState::PromptRequired.label(), "Требуется запрос");
}

#[test]
fn device_choice() {
    let d = |id: &str, def: bool| DeviceInfo { id: id.into(), name: id.into(), is_default: def };
    assert_eq!(pick_device(&[d("a", false), d("b", true)]), Some(1));
    assert_eq!(pick_device(&[d("a", false), d("b", false)]), Some(0));
    assert_eq!(pick_device(&[]), None);
}

#[test]
fn capture_formats() {
    assert!(tvoice::mic::is_float_format(3, 32));
    assert!(tvoice::mic::is_float_format(0xFFFE, 32));
    assert!(!tvoice::mic::is_float_format(0xFFFE, 16));
    assert!(!tvoice::mic::is_float_format(1, 16));
    assert_eq!(tvoice::mic::aligned_buffer(480, 48000), 100001);
    assert_eq!(tvoice::mic::aligned_buffer(441, 44100), 100001);
    assert_eq!(tvoice::mic::aligned_buffer(1, 3), 3333334);
}

#[test]
fn recognition_answers_are_cleaned() {
    assert_eq!(tvoice::streaming::clean_hypothesis("  Привет, мир. \n"), "Привет, мир.");
    assert_eq!(tvoice::streaming::clean_hypothesis(" Субтитры сделал DimaTorzok "), "");
    assert_eq!(tvoice::streaming::clean_hypothesis("   "), "");
}

#[test]
fn recording_names() {
    assert_eq!(tvoice::log::recording_name(2024, 3, 9, 7, 5, 0), "tvoice_20240309_070500.wav");
}

#[test]
fn queued_requests_come_out_in_call_order() {
    let mut inj = Injector::new();
    set_mode(&mut inj, MODE_KEYS);
    queue_replace(&mut inj, 2, "а");
    queue_text(&mut inj, "б");
    queue_replace(&mut inj, 5, "в");
    assert_eq!(inj.mode(), MODE_KEYS);
    assert_eq!(
        inj.take_queue(),
        vec![(2, "а".to_string()), (0, "б".to_string()), (5, "в".to_string())]
    );
    assert!(inj.take_queue().is_empty());
}

use tvoice::bench::{normalize as bench_normalize, word_errors};
use tvoice::log::{entry, shorten, stamp};
use tvoice::text::{
    chars_of, contains_seq, encode_utf16, ends_with_seq, starts_with_seq, str_eq,
    string_of, trim_chars, write_decimal, write_hex2,
};
use tvoice::transcribe::{normalize, squeeze};
use tvoice::words::{join_with_spaces, split_words};

fn s(v: &[char]) -> String {
    v.iter().collect()
}

#[test]
fn chars_and_strings() {
    let c = chars_of("привет");
    assert_eq!(c.len(), 6);
    assert_eq!(string_of(&c), "привет");
    assert!(str_eq("abc", "abc"));
    assert!(!str_eq("abc", "abd"));
}

#[test]
fn searching() {
    let hay = chars_of("whisper-bin-x64.zip");
    assert!(contains_seq(&hay, &chars_of("x64")));
    assert!(!contains_seq(&hay, &chars_of("x86")));
    assert!(contains_seq(&hay, &[]));
    assert!(starts_with_seq(&hay, &chars_of("whisper")));
    assert!(ends_with_seq(&hay, &chars_of(".zip")));
    assert!(!ends_with_seq(&chars_of("ab"), &chars_of("abc")));
}

#[test]
fn numbers_as_text() {
    assert_eq!(s(&write_decimal(0)), "0");
    assert_eq!(s(&write_decimal(1234567)), "1234567");
    assert_eq!(s(&write_hex2(7)), "07");
    assert_eq!(s(&write_hex2(0xBA)), "BA");
    assert_eq!(s(&write_hex2(0x1F3)), "1F3");
    assert_eq!(s(&tvoice::text::concat(&chars_of("ab"), &chars_of("cd"))), "abcd");
}

#[test]
fn trimming() {
    assert_eq!(s(&trim_chars(&chars_of("  a b \t\n"))), "a b");
    assert_eq!(s(&trim_chars(&chars_of("   "))), "");
    assert_eq!(s(&trim_chars(&chars_of("\u{3000}x\u{3000}"))), "x");
}

#[test]
fn utf16_encoding() {
    assert_eq!(encode_utf16(&chars_of("aЖ")), vec![0x61, 0x416]);
    assert_eq!(encode_utf16(&chars_of("😀")), vec![0xD83D, 0xDE00]);
    assert_eq!(encode_utf16(&chars_of("a😀b")), "a😀b".encode_utf16().collect::<Vec<u16>>());
}

#[test]
fn words_split_and_join() {
    let w = split_words(&chars_of("  раз  два\tтри\n"));
    assert_eq!(w.len(), 3);
    assert_eq!(s(&w[1]), "два");
    assert_eq!(s(&join_with_spaces(&w)), "раз два три");
    assert!(split_words(&chars_of(" \t ")).is_empty());
}

#[test]
fn squeeze_collapses_whitespace() {
    assert_eq!(squeeze("  a   b\n\tc  "), "a b c");
    assert_eq!(squeeze(""), "");
    assert_eq!(squeeze("   "), "");
}

#[test]
fn normalize_glues_segments_inside_words() {
    assert_eq!(normalize("это не набор готов\nых"), "это не набор готовых");
    assert_eq!(normalize("Первое.\nВторое"), "Первое. Второе");
    assert_eq!(normalize(" Привет,\n как дела?\n"), "Привет, как дела?");
    assert_eq!(normalize("a\r\nb"), "ab");
}

#[test]
fn bench_word_errors() {
    let n = bench_normalize("Привет, Мир! —");
    assert_eq!(n.len(), 2);
    assert_eq!(s(&n[0]), "привет");
    assert_eq!(word_errors("раз два три", "раз два три"), (0, 3));
    assert_eq!(word_errors("раз два три", "раз три"), (1, 3));
    assert_eq!(word_errors("раз два", "раз пять два шесть"), (2, 2));
    assert_eq!(word_errors("", "что-то"), (1, 0));
    assert_eq!(word_errors("Раз, ДВА.", "раз два"), (0, 2));
}

#[test]
fn log_lines() {
    assert_eq!(stamp(9, 5, 7, 42), "09:05:07.042");
    assert_eq!(stamp(23, 59, 59, 999), "23:59:59.999");
    assert_eq!(entry("09:05:07.042", "старт"), "[09:05:07.042] старт\n");
}

#[test]
fn shorten_names() {
    assert_eq!(shorten("Микрофон", 20), "Микрофон");
    assert_eq!(shorten("Микрофон (Realtek)", 10), "Микрофон…");
    assert_eq!(shorten("abcdef", 0), "…");
    assert_eq!(shorten("abcdef", 6), "abcdef");
    assert_eq!(shorten("abcdefg", 6), "abcde…");
}

#[test]
fn bench_model_choice() {
    assert_eq!(tvoice::bench::pick_model(Some("small"), Some("base"), &[true, true, true]), Some(2));
    assert_eq!(tvoice::bench::pick_model(Some("small"), Some("base"), &[true, true, false]), Some(1));
    assert_eq!(tvoice::bench::pick_model(Some("nope"), None, &[false, false, false, true]), Some(3));
    assert_eq!(tvoice::bench::pick_model(None, None, &[false; 5]), None);
}

#[test]
fn bench_noise_generator() {
    let mut x = 0x2545_F491u32;
    for _ in 0..5 {
        let mut y = x;
        y ^= y << 13;
        y ^= y >> 17;
        y ^= y << 5;
        x = tvoice::bench::xorshift32(x);
        assert_eq!(x, y);
    }
    assert_eq!(tvoice::bench::xorshift32(1), 270369);
}

#[test]
fn bench_variants() {
    let v = tvoice::bench::decoding_variants("подсказка");
    assert_eq!(v.len(), 4);
    assert_eq!(v[0].1, vec!["-bs", "1", "-nf"]);
    assert_eq!(v[2].0, "перебор 5 + откат по температуре");
    assert_eq!(v[3].1, vec!["-bs", "5", "-nf", "-sns", "--prompt", "подсказка"]);
}

#[test]
fn normalize_keeps_characters_and_settles() {
    let raw = "  Привет,\r\nмир!\nкак  де\nла ?\t";
    let once = normalize(raw);
    assert_eq!(once, "Привет, мир! как дела ?");
    let kept: String = raw.chars().filter(|c| !c.is_whitespace()).collect();
    let kept_once: String = once.chars().filter(|c| !c.is_whitespace()).collect();
    assert_eq!(kept, kept_once);
    assert_eq!(normalize(&once), once);
    assert_eq!(normalize(""), "");
}

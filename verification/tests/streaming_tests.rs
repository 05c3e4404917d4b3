use tvoice::streaming::{
    common_prefix, cut_len, is_hallucination, same_word, simulate, Step, StreamLoop, Target, Update,
};
use tvoice::text::chars_of;
use tvoice::vad::Segment;

fn drafts(v: &[&str]) -> Vec<String> {
    v.iter().map(|s| s.to_string()).collect()
}

#[test]
fn prefix_counts_characters() {
    assert_eq!(common_prefix("привет мир", "привет мама"), 8);
    assert_eq!(common_prefix("", "abc"), 0);
    assert_eq!(common_prefix("abc", "abc"), 3);
}

#[test]
fn same_word_ignores_punctuation_case_and_yo() {
    assert!(same_word(&chars_of("привет!"), &chars_of("Привет.")));
    assert!(same_word(&chars_of("пришёл"), &chars_of("пришел")));
    assert!(!same_word(&chars_of("пришёл"), &chars_of("ушёл")));
    assert!(same_word(&chars_of("—"), &chars_of("—")));
    assert!(!same_word(&chars_of("—"), &chars_of("-")));
}

#[test]
fn drafts_grow_without_rewriting() {
    let out = simulate(&drafts(&["привет", "привет как", "привет как дела"]));
    assert_eq!(out[0], (0, 6, "привет".to_string()));
    // A correction never starts with a space: the boundary moves one character back.
    assert_eq!(out[1], (1, 5, "привет как".to_string()));
    assert_eq!(out[2], (1, 6, "привет как дела".to_string()));
}

#[test]
fn unchanged_draft_edits_nothing() {
    let out = simulate(&drafts(&["раз два", "раз два", "  "]));
    assert_eq!(out[1], (0, 0, "раз два".to_string()));
    assert_eq!(out[2], (0, 0, "раз два".to_string()));
}

#[test]
fn frozen_start_survives_a_jumping_comma() {
    let out = simulate(&drafts(&[
        "один два три четыре пять шесть",
        "один, два три четыре пять шесть семь",
    ]));
    // "один два" are frozen (all but the last four words): only the tail changes.
    assert_eq!(out[1].2, "один два три четыре пять шесть семь");
    assert_eq!(out[1], (1, 6, "один два три четыре пять шесть семь".to_string()));
}

#[test]
fn target_commits_and_spaces_next_phrase() {
    let mut t = Target::new(true);
    assert!(matches!(t.update("привет", false), Update::Edit { back: 0, .. }));
    t.commit();
    assert_eq!(t.shown(), "");
    match t.update("мир", false) {
        Update::Edit { back, add } => {
            assert_eq!(back, 0);
            assert_eq!(add, " мир");
        }
        _ => panic!("expected an edit"),
    }
    assert_eq!(t.session_text(), "привет мир");
    assert_eq!(t.draft(), "мир");
}

#[test]
fn touching_the_input_commits_instead_of_erasing() {
    let mut t = Target::new(true);
    t.update("привет мир", false);
    assert!(matches!(t.update("привет мама", true), Update::Interrupted));
    assert_eq!(t.shown(), "");
    assert_eq!(t.session_text(), "привет мир");
}

#[test]
fn empty_hypothesis_changes_nothing() {
    let mut t = Target::new(false);
    assert!(matches!(t.update(" \n ", false), Update::NoWords));
}

#[test]
fn cut_len_adds_half_a_second_within_the_window() {
    let seg = Segment { has_speech: true, speech_end: 16000, silence: 4000, analysed: 20000, speech: 16000 };
    assert_eq!(cut_len(&seg, 16000), 20000);
    let seg2 = Segment { has_speech: true, speech_end: 8000, silence: 24000, analysed: 32000, speech: 8000 };
    assert_eq!(cut_len(&seg2, 16000), 16000);
}

#[test]
fn hallucinations_are_recognised() {
    assert!(is_hallucination("Продолжение следует..."));
    assert!(is_hallucination("Subscribe to the channel"));
    assert!(is_hallucination("Редактор субтитров А.Синецкая"));
    assert!(!is_hallucination("Привет, как дела?"));
    assert!(!is_hallucination(""));
    assert!(is_hallucination("СПАСИБО ЗА ПРОСМОТР"));
    assert!(is_hallucination("AMARA.ORG community"));
}

#[test]
fn stop_loop_drains_once() {
    let mut l = StreamLoop::new();
    assert!(l.begin_tick(true));
    assert!(!l.begin_tick(true));
}

#[test]
fn step_waits_while_nothing_is_analysed() {
    let mut l = StreamLoop::new();
    let o = tvoice::streaming::Observation {
        stop_asked: false,
        seg: Segment { has_speech: false, speech_end: 0, silence: 0, analysed: 0, speech: 0 },
        quiet: 0,
        rate: 16000,
        draft_due: false,
        gap: None,
    };
    assert!(matches!(l.step(&o), Step::Wait));
}

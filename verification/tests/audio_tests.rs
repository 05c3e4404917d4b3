use tvoice::hud::icon_rgba;
use tvoice::sound::{peak, reverse_frames, trim_silence, Cue, Cues};
use tvoice::vad::{segment, spans, SpeechGate};
use tvoice::wav::{find_data_chunk, frame_sums, grow_data_bytes, parse_header, pcm_bytes, wav_header, WavError};

#[test]
fn header_reads_back() {
    let h = wav_header(2, 16000, 640);
    assert_eq!(h.len(), 44);
    assert_eq!(&h[0..4], b"RIFF");
    assert_eq!(&h[8..16], b"WAVEfmt ");
    assert_eq!(&h[36..40], b"data");
    let info = parse_header(&h).ok().unwrap();
    assert_eq!(info.channels, 2);
    assert_eq!(info.rate, 16000);
    assert_eq!(info.data_start, 44);
    assert_eq!(find_data_chunk(&h), Some(44));
}

#[test]
fn header_errors() {
    assert!(matches!(parse_header(b"RIFF"), Err(WavError::NotWav)));
    let mut h = wav_header(1, 8000, 0);
    h[8] = b'X';
    assert!(matches!(parse_header(&h), Err(WavError::NotWav)));
    let mut h = wav_header(1, 8000, 0);
    h[34] = 8;
    assert!(matches!(parse_header(&h), Err(WavError::NotPcm16 { bits: 8 })));
}

#[test]
fn samples_as_bytes_and_mixdown() {
    assert_eq!(pcm_bytes(&[1, -1, 256]), vec![1, 0, 0xFF, 0xFF, 0, 1]);
    let bytes = pcm_bytes(&[100, -50, 7, 3, 1]);
    assert_eq!(frame_sums(&bytes, 2), vec![50, 10]);
    assert_eq!(grow_data_bytes(10, 5), 20);
    assert_eq!(grow_data_bytes(u32::MAX - 1, 5), u32::MAX);
}

#[test]
fn speech_gate_needs_rise_and_hangs() {
    let mut g = SpeechGate::new();
    assert!(!g.next(true, true));
    assert!(!g.next(true, true));
    assert!(g.next(true, true));
    for _ in 0..15 {
        assert!(g.next(false, false));
    }
    assert!(!g.next(false, false));
}

#[test]
fn segment_of_marks() {
    let flags = [false, true, true, false, false];
    let s = segment(&flags, 10, 0);
    assert!(s.has_speech);
    assert_eq!(s.speech_end, 30);
    assert_eq!(s.silence, 20);
    assert_eq!(s.analysed, 50);
    assert_eq!(s.speech, 20);
    let later = segment(&flags, 10, 30);
    assert!(!later.has_speech);
    assert_eq!(later.analysed, 20);
    assert_eq!(spans(&[true, false, true, true], 5), vec![(0, 5), (10, 20)]);
}

#[test]
fn peak_and_silence_trim() {
    assert_eq!(peak(&[3, -32768, 100]), 32768);
    assert_eq!(peak(&[]), 0);
    let mut v: Vec<i16> = vec![0, 1, 5, 200, -300, 7, 2, 0];
    trim_silence(&mut v, 2);
    assert_eq!(v, vec![5, 200, -300, 7]);
    let mut quiet: Vec<i16> = vec![1, 2, 3];
    trim_silence(&mut quiet, 1);
    assert_eq!(quiet, vec![1, 2, 3]);
    let mut edge: Vec<i16> = vec![i16::MIN, 0];
    trim_silence(&mut edge, 1);
    assert_eq!(edge, vec![i16::MIN]);
    let mut boundary: Vec<i16> = vec![0, 128, 0];
    trim_silence(&mut boundary, 1);
    assert_eq!(boundary, vec![128]);
    let mut below: Vec<i16> = vec![0, 127, -127, 0];
    trim_silence(&mut below, 1);
    assert_eq!(below, vec![0, 127, -127, 0]);
}

#[test]
fn reversing_keeps_channels_and_undoes_itself() {
    let orig: Vec<i16> = vec![1, 2, 3, 4, 5, 6, 7];
    let mut v = orig.clone();
    reverse_frames(&mut v, 2);
    assert_eq!(v, vec![5, 6, 3, 4, 1, 2, 7]);
    reverse_frames(&mut v, 2);
    assert_eq!(v, orig);
}

#[test]
fn cues_follow_capture() {
    let mut c = Cues::new();
    tvoice::sound::play_enter(&mut c);
    tvoice::sound::set_active(&mut c, true);
    tvoice::sound::play_enter(&mut c);
    tvoice::sound::play_exit(&mut c);
    tvoice::sound::set_active(&mut c, false);
    assert_eq!(c.take(), vec![Cue::Start, Cue::Stop]);
    assert!(c.take().is_empty());
}

#[test]
fn icon_pixels_to_rgba() {
    let px = [0x80_40_20_10u32, 0x00_11_22_33, 0xFF_FF_80_00];
    assert_eq!(icon_rgba(&px), vec![0x7F, 0x3F, 0x1F, 0x80, 0, 0, 0, 0, 0xFF, 0x80, 0x00, 0xFF]);
}

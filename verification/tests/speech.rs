use parla::speech::{segment_windows, AudioPipelineStatus, Transcript};

#[test]
fn windows_are_clamped_and_short_ones_dropped() {
    let w = segment_windows(
        10000,
        &[(0, 4000), (100, 20000), (9000, 5000), (20000, 30000), (5000, 9800)],
    );
    assert_eq!(w, vec![(100, 10000), (5000, 9800)]);
    assert!(segment_windows(0, &[(0, 10000)]).is_empty());
    assert_eq!(segment_windows(4800, &[(0, 4800)]), vec![(0, 4800)]);
    assert!(segment_windows(4799, &[(0, 4800)]).is_empty());
}

#[test]
fn transcripts_are_joined_with_spaces() {
    let mut t = Transcript::new();
    assert_eq!(t.text_string(), "");
    t.add("");
    t.add("Hola");
    t.add("");
    t.add("mundo");
    assert_eq!(t.text_string(), "Hola mundo");
}

#[test]
fn idle_status_has_nothing_ready() {
    let s = AudioPipelineStatus::idle();
    assert!(!s.is_recording && !s.is_playing && !s.vad_active);
    assert!(!s.stt_ready && !s.tts_ready && !s.speech_detected);
}

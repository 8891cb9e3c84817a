use parla::speech::speech_segments;
use parla::vad::SpeechTracker;

#[test]
fn segment_opens_padded_and_closes_after_silence() {
    let mut t = SpeechTracker::new();
    assert!(!t.is_speaking());
    assert!(t.process_chunk(true, 512).is_empty());
    assert!(t.is_speaking());
    // 17 silent chunks are 8704 samples: not yet enough silence.
    for _ in 0..17 {
        assert!(t.process_chunk(false, 512).is_empty());
    }
    assert!(t.is_speaking());
    let segs = t.process_chunk(false, 512);
    assert_eq!(segs.len(), 1);
    assert_eq!(segs[0].start_sample, 0);
    assert_eq!(segs[0].end_sample, 9216 + 512 + 8000);
    assert!(!t.is_speaking());
}

#[test]
fn speech_resets_the_silence_count() {
    let mut t = SpeechTracker::new();
    for _ in 0..20 {
        assert!(t.process_chunk(false, 512).is_empty());
    }
    assert!(t.process_chunk(true, 512).is_empty());
    for _ in 0..10 {
        assert!(t.process_chunk(false, 512).is_empty());
    }
    assert!(t.process_chunk(true, 512).is_empty());
    for _ in 0..17 {
        assert!(t.process_chunk(false, 512).is_empty());
    }
    let segs = t.process_chunk(false, 512);
    assert_eq!(segs.len(), 1);
    // Speech began at sample 20 * 512 = 10240; padded back by 8000.
    assert_eq!(segs[0].start_sample, 2240);
    // The closing chunk started at sample (20 + 1 + 10 + 1 + 17) * 512.
    assert_eq!(segs[0].end_sample, 49 * 512 + 512 + 8000);
}

#[test]
fn reset_forgets_an_open_segment() {
    let mut t = SpeechTracker::new();
    t.process_chunk(true, 512);
    t.reset();
    assert!(!t.is_speaking());
    for _ in 0..30 {
        assert!(t.process_chunk(false, 512).is_empty());
    }
}

#[test]
fn segments_of_a_recording() {
    let mut decisions = vec![false; 5];
    decisions.extend(vec![true; 3]);
    decisions.extend(vec![false; 18]);
    decisions.extend(vec![true; 2]);
    let segs = speech_segments(&decisions);
    // The last segment is still open at the end and is not reported.
    assert_eq!(segs.len(), 1);
    assert_eq!(segs[0].start_sample, 0);
    assert_eq!(segs[0].end_sample, 26 * 512 + 8000);
    for s in &segs {
        assert!(s.start_sample < s.end_sample);
    }
    assert!(speech_segments(&[]).is_empty());
}

#[test]
fn tracker_counts_samples() {
    let mut t = SpeechTracker::new();
    assert_eq!(t.current_sample(), 0);
    t.process_chunk(false, 512);
    t.process_chunk(true, 100);
    assert_eq!(t.current_sample(), 612);
    t.reset();
    assert_eq!(t.current_sample(), 0);
}

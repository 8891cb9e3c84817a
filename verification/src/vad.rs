//! Speech segmentation of 16 kHz audio.  A voice activity model says, for
//! each chunk, whether it holds speech; the tracker here turns that stream
//! of decisions into speech segments: a segment opens, padded back in time,
//! at the first speech chunk, and closes, padded forward, once enough
//! silence has followed.

use vstd::prelude::*;

verus! {

/// A detected speech segment, in samples from the start of the recording.
pub struct SpeechSegment {
    pub start_sample: usize,
    pub end_sample: usize,
}

/// Silence, in samples, that closes a segment: 0.55 s at 16 kHz.
pub const MIN_SILENCE_SAMPLES: usize = 8800;

/// Padding, in samples, added before and after a segment: 0.5 s at 16 kHz.
pub const SPEECH_PAD_SAMPLES: usize = 8000;

/// The tracker's state as plain values.
pub struct TrackerView {
    pub triggered: bool,
    pub current: int,
    pub start: Option<int>,
    pub silence: int,
}

/// `a - b`, or 0 where that would be negative.
pub open spec fn saturating_sub(a: int, b: int) -> int {
    if a >= b {
        a - b
    } else {
        0
    }
}

/// One chunk of `len` samples: the next state and the segment it closes,
/// if any.
pub open spec fn track(s: TrackerView, speech: bool, len: int) -> (TrackerView, Option<(int, int)>) {
    if speech {
        (
            TrackerView {
                triggered: true,
                current: s.current + len,
                start: if s.triggered {
                    s.start
                } else {
                    Some(saturating_sub(s.current, SPEECH_PAD_SAMPLES as int))
                },
                silence: 0,
            },
            None,
        )
    } else if s.triggered {
        if s.silence + len >= MIN_SILENCE_SAMPLES as int {
            (
                TrackerView { triggered: false, current: s.current + len, start: None, silence: 0 },
                match s.start {
                    Some(st) => Some((st, s.current + len + SPEECH_PAD_SAMPLES as int)),
                    None => None,
                },
            )
        } else {
            (
                TrackerView {
                    triggered: true,
                    current: s.current + len,
                    start: s.start,
                    silence: s.silence + len,
                },
                None,
            )
        }
    } else {
        (TrackerView { current: s.current + len, ..s }, None)
    }
}

/// The state of a fresh or reset tracker.
pub open spec fn initial_tracker() -> TrackerView {
    TrackerView { triggered: false, current: 0, start: None, silence: 0 }
}

/// Turns per-chunk speech decisions into speech segments.
pub struct SpeechTracker {
    triggered: bool,
    current_sample: usize,
    speech_start_sample: Option<usize>,
    silence_samples: usize,
}

impl View for SpeechTracker {
    type V = TrackerView;

    closed spec fn view(&self) -> TrackerView {
        TrackerView {
            triggered: self.triggered,
            current: self.current_sample as int,
            start: match self.speech_start_sample {
                Some(s) => Some(s as int),
                None => None,
            },
            silence: self.silence_samples as int,
        }
    }
}

/// The tracker's invariant: a segment is open exactly while speech is
/// being tracked, it starts no later than the current position, and the
/// silence counted lies within the audio seen.
pub open spec fn tracker_wf(s: TrackerView) -> bool {
    &&& s.triggered == (s.start is Some)
    &&& match s.start {
        Some(st) => 0 <= st <= s.current,
        None => true,
    }
    &&& 0 <= s.silence <= s.current
    &&& (!s.triggered ==> s.silence == 0)
}

/// The state after a chunk can be held in machine integers.
pub open spec fn chunk_fits(s: TrackerView, len: int) -> bool {
    s.current + len + SPEECH_PAD_SAMPLES as int <= usize::MAX
}

impl SpeechTracker {
    pub fn new() -> (t: Self)
        ensures
            t@ == initial_tracker(),
            tracker_wf(t@),
    {
        SpeechTracker {
            triggered: false,
            current_sample: 0,
            speech_start_sample: None,
            silence_samples: 0,
        }
    }

    /// Take one chunk of `chunk_len` samples that the model judged to be
    /// speech or not; returns the segment it closes, if any.
    pub fn process_chunk(&mut self, is_speech: bool, chunk_len: usize) -> (segments: Vec<SpeechSegment>)
        requires
            tracker_wf(old(self)@),
            chunk_fits(old(self)@, chunk_len as int),
        ensures
            tracker_wf(final(self)@),
            final(self)@ == track(old(self)@, is_speech, chunk_len as int).0,
            match track(old(self)@, is_speech, chunk_len as int).1 {
                Some((st, en)) => segments@.len() == 1 && segments@[0].start_sample == st
                    && segments@[0].end_sample == en,
                None => segments@.len() == 0,
            },
    {
        let mut segments: Vec<SpeechSegment> = Vec::new();
        if is_speech {
            self.silence_samples = 0;
            if !self.triggered {
                self.triggered = true;
                let start = if self.current_sample >= SPEECH_PAD_SAMPLES {
                    self.current_sample - SPEECH_PAD_SAMPLES
                } else {
                    0
                };
                self.speech_start_sample = Some(start);
            }
        } else if self.triggered {
            self.silence_samples = self.silence_samples + chunk_len;
            if self.silence_samples >= MIN_SILENCE_SAMPLES {
                let end = self.current_sample + chunk_len + SPEECH_PAD_SAMPLES;
                match self.speech_start_sample.take() {
                    Some(start) => {
                        segments.push(SpeechSegment { start_sample: start, end_sample: end });
                    },
                    None => {},
                }
                self.triggered = false;
                self.silence_samples = 0;
            }
        }
        self.current_sample = self.current_sample + chunk_len;
        segments
    }

    /// Forget everything seen.
    pub fn reset(&mut self)
        ensures
            final(self)@ == initial_tracker(),
            tracker_wf(final(self)@),
    {
        self.triggered = false;
        self.current_sample = 0;
        self.speech_start_sample = None;
        self.silence_samples = 0;
    }

    /// How many samples the tracker has seen.
    pub fn current_sample(&self) -> (r: usize)
        ensures
            r == self@.current,
    {
        self.current_sample
    }

    /// Whether speech is being tracked now.
    pub fn is_speaking(&self) -> (b: bool)
        ensures
            b == self@.triggered,
    {
        self.triggered
    }
}

/// Law: a closed segment starts before it ends, ends after all the audio
/// seen so far (by the padding), and leaves the tracker idle.
pub proof fn lemma_segment_ordered(s: TrackerView, speech: bool, len: int)
    requires
        tracker_wf(s),
        len >= 0,
    ensures
        match track(s, speech, len).1 {
            Some((st, en)) => 0 <= st < en && en == track(s, speech, len).0.current
                + SPEECH_PAD_SAMPLES as int && !track(s, speech, len).0.triggered,
            None => true,
        },
        tracker_wf(track(s, speech, len).0),
{
}

/// Law: a speech chunk never closes a segment, and leaves a segment open.
pub proof fn lemma_speech_keeps_open(s: TrackerView, len: int)
    requires
        tracker_wf(s),
        len >= 0,
    ensures
        track(s, true, len).1 is None,
        track(s, true, len).0.triggered,
        s.triggered ==> track(s, true, len).0.start == s.start,
{
}

/// Law: without speech, an idle tracker stays idle and only advances.
pub proof fn lemma_silence_when_idle(s: TrackerView, len: int)
    requires
        tracker_wf(s),
        !s.triggered,
        len >= 0,
    ensures
        track(s, false, len).1 is None,
        !track(s, false, len).0.triggered,
        track(s, false, len).0.current == s.current + len,
{
}

} // verus!

//! The recording side of the audio pipeline: speech segments of a whole
//! recording, the windows of it that are worth transcribing, the joining of
//! their transcripts, and the pipeline's status flags.

use vstd::prelude::*;
use vstd::string::{StrSliceExecFns, StringExecFns};
use crate::vad::{
    initial_tracker, track, tracker_wf, SpeechSegment, SpeechTracker, TrackerView,
    SPEECH_PAD_SAMPLES,
};

verus! {

/// Samples per chunk given to the voice activity model (32 ms at 16 kHz).
pub const VAD_CHUNK_SAMPLES: usize = 512;

/// Windows shorter than this (0.3 s at 16 kHz) are not transcribed.
pub const MIN_WINDOW_SAMPLES: usize = 4800;

// ── Segments of a recording ──────────────────────────────────────────────

/// The tracker state and the segments closed after a run of chunk
/// decisions, each chunk of `len` samples.
pub open spec fn track_all(decisions: Seq<bool>, len: int) -> (TrackerView, Seq<(int, int)>)
    decreases decisions.len(),
{
    if decisions.len() == 0 {
        (initial_tracker(), Seq::empty())
    } else {
        let (s, segs) = track_all(decisions.drop_last(), len);
        let (t, closed) = track(s, decisions.last(), len);
        (
            t,
            match closed {
                Some(seg) => segs.push(seg),
                None => segs,
            },
        )
    }
}

/// After `n` chunks the tracker is at sample `n * len` and well formed.
pub proof fn lemma_track_all_position(decisions: Seq<bool>, len: int)
    requires
        len >= 0,
    ensures
        track_all(decisions, len).0.current == decisions.len() * len,
        tracker_wf(track_all(decisions, len).0),
    decreases decisions.len(),
{
    if decisions.len() > 0 {
        lemma_track_all_position(decisions.drop_last(), len);
        assert((decisions.len() - 1) * len + len == decisions.len() * len) by (nonlinear_arith);
    }
}

/// The plain values of a list of segments.
pub open spec fn segment_views(v: Seq<SpeechSegment>) -> Seq<(int, int)> {
    v.map_values(|s: SpeechSegment| (s.start_sample as int, s.end_sample as int))
}

/// The speech segments of a recording, given the model's decision for
/// each full chunk of 512 samples, in order.
pub fn speech_segments(decisions: &[bool]) -> (r: Vec<SpeechSegment>)
    requires
        decisions@.len() * VAD_CHUNK_SAMPLES + SPEECH_PAD_SAMPLES <= usize::MAX,
    ensures
        segment_views(r@) == track_all(decisions@, VAD_CHUNK_SAMPLES as int).1,
{
    let mut tracker = SpeechTracker::new();
    let mut out: Vec<SpeechSegment> = Vec::new();
    let mut i: usize = 0;
    while i < decisions.len()
        invariant
            i <= decisions@.len(),
            decisions@.len() * VAD_CHUNK_SAMPLES + SPEECH_PAD_SAMPLES <= usize::MAX,
            tracker@ == track_all(decisions@.take(i as int), VAD_CHUNK_SAMPLES as int).0,
            segment_views(out@) == track_all(decisions@.take(i as int), VAD_CHUNK_SAMPLES as int).1,
        decreases decisions@.len() - i,
    {
        proof {
            lemma_track_all_position(decisions@.take(i as int), VAD_CHUNK_SAMPLES as int);
            assert(decisions@.take(i + 1).drop_last() == decisions@.take(i as int));
            assert(i * 512 + 512 <= decisions@.len() * 512) by (nonlinear_arith)
                requires
                    i < decisions@.len(),
            ;
        }
        let segs = tracker.process_chunk(decisions[i], VAD_CHUNK_SAMPLES);
        let ghost before = out@;
        if segs.len() > 0 {
            let s = &segs[0];
            out.push(SpeechSegment { start_sample: s.start_sample, end_sample: s.end_sample });
        }
        assert(segment_views(out@) =~= track_all(decisions@.take(i + 1), VAD_CHUNK_SAMPLES as int).1);
        i += 1;
    }
    assert(decisions@.take(decisions@.len() as int) == decisions@);
    out
}

/// Law: every segment of a recording starts before it ends, and ends at
/// most half a second of padding past the recording.
pub proof fn lemma_segments_ordered(decisions: Seq<bool>, len: int, k: int)
    requires
        len >= 0,
        0 <= k < track_all(decisions, len).1.len(),
    ensures
        0 <= track_all(decisions, len).1[k].0 < track_all(decisions, len).1[k].1,
        track_all(decisions, len).1[k].1 <= decisions.len() * len + SPEECH_PAD_SAMPLES as int,
    decreases decisions.len(),
{
    let prev = decisions.drop_last();
    lemma_track_all_position(prev, len);
    lemma_track_all_position(decisions, len);
    let (s, segs) = track_all(prev, len);
    if k < segs.len() {
        lemma_segments_ordered(prev, len, k);
        assert(prev.len() * len <= decisions.len() * len) by (nonlinear_arith)
            requires
                prev.len() <= decisions.len(),
                len >= 0,
        ;
    }
}

// ── Transcription windows ────────────────────────────────────────────────

/// The windows of a recording of `total` samples to transcribe: each
/// segment clamped to the recording, dropping empty ones and ones shorter
/// than 0.3 s.
pub open spec fn usable_windows(total: int, segs: Seq<(usize, usize)>) -> Seq<(int, int)>
    decreases segs.len(),
{
    if segs.len() == 0 {
        Seq::empty()
    } else {
        let prev = usable_windows(total, segs.drop_last());
        let s = if segs.last().0 < total {
            segs.last().0 as int
        } else {
            total
        };
        let e = if segs.last().1 < total {
            segs.last().1 as int
        } else {
            total
        };
        if s >= e || e - s < MIN_WINDOW_SAMPLES as int {
            prev
        } else {
            prev.push((s, e))
        }
    }
}

/// The plain values of a list of windows.
pub open spec fn window_views(v: Seq<(usize, usize)>) -> Seq<(int, int)> {
    v.map_values(|w: (usize, usize)| (w.0 as int, w.1 as int))
}

/// The windows of a recording of `total` samples that are worth
/// transcribing.
pub fn segment_windows(total: usize, segments: &[(usize, usize)]) -> (r: Vec<(usize, usize)>)
    ensures
        window_views(r@) == usable_windows(total as int, segments@),
{
    let mut out: Vec<(usize, usize)> = Vec::new();
    let mut i: usize = 0;
    while i < segments.len()
        invariant
            i <= segments@.len(),
            window_views(out@) == usable_windows(total as int, segments@.take(i as int)),
        decreases segments@.len() - i,
    {
        assert(segments@.take(i + 1).drop_last() == segments@.take(i as int));
        let (a, b) = segments[i];
        let start = if a < total {
            a
        } else {
            total
        };
        let end = if b < total {
            b
        } else {
            total
        };
        if start < end && end - start >= MIN_WINDOW_SAMPLES {
            out.push((start, end));
        }
        assert(window_views(out@) =~= usable_windows(total as int, segments@.take(i + 1)));
        i += 1;
    }
    assert(segments@.take(segments@.len() as int) == segments@);
    out
}

/// Law: every window lies inside the recording and is at least 0.3 s long.
pub proof fn lemma_windows_inside(total: int, segs: Seq<(usize, usize)>, k: int)
    requires
        total >= 0,
        0 <= k < usable_windows(total, segs).len(),
    ensures
        0 <= usable_windows(total, segs)[k].0,
        usable_windows(total, segs)[k].0 + MIN_WINDOW_SAMPLES as int <= usable_windows(total, segs)[k].1,
        usable_windows(total, segs)[k].1 <= total,
    decreases segs.len(),
{
    if segs.len() > 0 && k < usable_windows(total, segs.drop_last()).len() {
        lemma_windows_inside(total, segs.drop_last(), k);
    }
}

// ── Joining transcripts ──────────────────────────────────────────────────

/// Transcripts joined with single spaces, empty ones left out.
pub open spec fn joined_transcript(texts: Seq<Seq<char>>) -> Seq<char>
    decreases texts.len(),
{
    if texts.len() == 0 {
        Seq::empty()
    } else {
        let prev = joined_transcript(texts.drop_last());
        let t = texts.last();
        if t.len() == 0 {
            prev
        } else if prev.len() == 0 {
            t
        } else {
            prev + " "@ + t
        }
    }
}

/// The transcript of a recording, built window by window.
pub struct Transcript {
    text: String,
    pieces: Ghost<Seq<Seq<char>>>,
}

impl Transcript {
    /// The pieces added so far.
    pub closed spec fn pieces(&self) -> Seq<Seq<char>> {
        self.pieces@
    }

    /// The text so far.
    pub closed spec fn text(&self) -> Seq<char> {
        self.text@
    }

    pub closed spec fn wf(&self) -> bool {
        self.text@ == joined_transcript(self.pieces@)
    }

    pub fn new() -> (t: Self)
        ensures
            t.wf(),
            t.pieces() == Seq::<Seq<char>>::empty(),
    {
        Transcript { text: String::new(), pieces: Ghost(Seq::empty()) }
    }

    /// Add the transcript of the next window.
    pub fn add(&mut self, piece: &str)
        requires
            old(self).wf(),
        ensures
            final(self).wf(),
            final(self).pieces() == old(self).pieces().push(piece@),
    {
        let ghost ps = self.pieces@.push(piece@);
        assert(ps.drop_last() =~= self.pieces@);
        if piece.unicode_len() > 0 {
            if self.text.as_str().unicode_len() > 0 {
                self.text.append(" ");
            }
            self.text.append(piece);
        }
        self.pieces = Ghost(ps);
    }

    /// The joined text.
    pub fn text_string(&self) -> (r: String)
        requires
            self.wf(),
        ensures
            r@ == joined_transcript(self.pieces()),
    {
        self.text.clone()
    }
}

// ── Pipeline status ──────────────────────────────────────────────────────

/// What the audio pipeline is doing and which engines are ready.
pub struct AudioPipelineStatus {
    pub is_recording: bool,
    pub is_playing: bool,
    pub vad_active: bool,
    pub stt_ready: bool,
    pub tts_ready: bool,
    pub speech_detected: bool,
}

impl AudioPipelineStatus {
    /// The status reported when the pipeline cannot be reached: nothing
    /// running, nothing ready.
    pub fn idle() -> (s: Self)
        ensures
            !s.is_recording && !s.is_playing && !s.vad_active && !s.stt_ready && !s.tts_ready
                && !s.speech_detected,
    {
        AudioPipelineStatus {
            is_recording: false,
            is_playing: false,
            vad_active: false,
            stt_ready: false,
            tts_ready: false,
            speech_detected: false,
        }
    }
}

} // verus!

//! Talking to the model server: the chunks a generation hands out, the
//! reading of its server-sent event stream line by line, and the collection
//! of a whole reply from the chunks.

use vstd::prelude::*;
use vstd::string::{StrSliceExecFns, StringExecFns};
use crate::parser::{trim, trimmed_string};
use crate::text::{chars_of, str_eq};

verus! {

/// What a generation hands out: a piece of text, the end with the whole
/// text, or an error.
pub enum GenChunk {
    Text(String),
    Done { full_text: String },
    Error(String),
}

/// Whether a model is loaded.
pub struct LlmStatus {
    pub loaded: bool,
}

// ── Server-sent events ───────────────────────────────────────────────────

/// What one line of the event stream says, before its payload is decoded.
pub enum SseLine {
    /// Nothing to act on: an empty line, a line that is not data, or empty
    /// data.
    Skip,
    /// The stream's end marker.
    Stop,
    /// A data payload, trimmed.
    Data(String),
}

/// The prefix of a data line.
pub open spec fn data_prefix() -> Seq<char> {
    "data:"@
}

/// What a line says, as plain values: `None` to skip, `Some(None)` to stop,
/// `Some(Some(p))` for a payload `p`.
pub open spec fn sse_line(line: Seq<char>) -> Option<Option<Seq<char>>> {
    if line.len() < data_prefix().len() || line.take(data_prefix().len() as int) != data_prefix() {
        None
    } else {
        let p = trim(line.skip(data_prefix().len() as int));
        if p == "[DONE]"@ {
            Some(None)
        } else if p.len() == 0 {
            None
        } else {
            Some(Some(p))
        }
    }
}

/// The plain value of a classified line.
pub open spec fn sse_line_view(l: SseLine) -> Option<Option<Seq<char>>> {
    match l {
        SseLine::Skip => None,
        SseLine::Stop => Some(None),
        SseLine::Data(p) => Some(Some(p@)),
    }
}

/// Classify one line of the event stream.
pub fn classify_sse_line(line: &str) -> (r: SseLine)
    ensures
        sse_line_view(r) == sse_line(line@),
{
    let v = chars_of(line);
    proof {
        reveal_strlit("data:");
    }
    if v.len() < 5 || v[0] != 'd' || v[1] != 'a' || v[2] != 't' || v[3] != 'a' || v[4] != ':' {
        proof {
            if v@.len() >= 5 {
                let t = v@.take(5);
                assert(t[0] == v@[0] && t[1] == v@[1] && t[2] == v@[2] && t[3] == v@[3] && t[4]
                    == v@[4]);
            }
        }
        return SseLine::Skip;
    }
    assert(v@.take(5) =~= data_prefix());
    let payload = trimmed_string(&v, 5, v.len());
    assert(v@.subrange(5, v@.len() as int) == v@.skip(5));
    if str_eq(payload.as_str(), "[DONE]") {
        SseLine::Stop
    } else if payload.as_str().unicode_len() == 0 {
        SseLine::Skip
    } else {
        SseLine::Data(payload)
    }
}

/// The text delta that `serde_json` reads from an event payload at
/// `choices[0].delta.content`: `None` where the payload is not JSON,
/// `Some(None)` where it holds no string there.
pub uninterp spec fn sse_delta(payload: Seq<char>) -> Option<Option<Seq<char>>>;

/// `serde_json::from_str::<serde_json::Value>` on an event payload, then
/// `get("choices")`, `get(0)`, `get("delta")`, `get("content")` and
/// `as_str`.  The result is named, not described.
#[verifier::external_body]
fn delta_content(payload: &str) -> (r: Result<Option<String>, ()>)
    ensures
        match r {
            Ok(Some(s)) => sse_delta(payload@) == Some(Some(s@)),
            Ok(None) => sse_delta(payload@) == Some(None::<Seq<char>>),
            Err(_) => sse_delta(payload@) is None,
        },
{
    match serde_json::from_str::<serde_json::Value>(payload) {
        Ok(v) => Ok(v.get("choices").and_then(|c| c.get(0)).and_then(|c| c.get("delta")).and_then(
            |d| d.get("content"),
        ).and_then(|s| s.as_str()).map(String::from)),
        Err(_) => Err(()),
    }
}

/// What the generation does with one line of the stream.
pub enum StreamEvent {
    /// Go on to the next line.
    Skip,
    /// The stream is over.
    Stop,
    /// A piece of text to add to the reply and hand out.
    Text(String),
}

/// The plain value of a stream event: `None` to skip, `Some(None)` to stop,
/// `Some(Some(t))` for text `t`.
pub open spec fn stream_event_view(e: StreamEvent) -> Option<Option<Seq<char>>> {
    match e {
        StreamEvent::Skip => None,
        StreamEvent::Stop => Some(None),
        StreamEvent::Text(t) => Some(Some(t@)),
    }
}

/// The event for a decoded delta: text where there is a non-empty one,
/// otherwise skip (a payload that is not JSON is skipped too).
pub open spec fn delta_event(delta: Option<Option<Seq<char>>>) -> Option<Option<Seq<char>>> {
    match delta {
        Some(Some(t)) => if t.len() > 0 {
            Some(Some(t))
        } else {
            None
        },
        _ => None,
    }
}

/// The event for a line of the stream.
pub open spec fn line_event(line: Seq<char>) -> Option<Option<Seq<char>>> {
    match sse_line(line) {
        None => None,
        Some(None) => Some(None),
        Some(Some(p)) => delta_event(sse_delta(p)),
    }
}

/// The event for a decoded delta (`Err` where the payload was not JSON).
pub fn event_for_delta(delta: Result<Option<String>, ()>) -> (r: StreamEvent)
    ensures
        stream_event_view(r) == delta_event(
            match delta {
                Ok(Some(s)) => Some(Some(s@)),
                Ok(None) => Some(None),
                Err(_) => None,
            },
        ),
{
    match delta {
        Ok(Some(t)) => {
            if t.as_str().unicode_len() > 0 {
                StreamEvent::Text(t)
            } else {
                StreamEvent::Skip
            }
        },
        _ => StreamEvent::Skip,
    }
}

/// The reply as read from the stream so far.
pub struct StreamReader {
    full_text: String,
}

impl StreamReader {
    /// The text read so far.
    pub closed spec fn text(&self) -> Seq<char> {
        self.full_text@
    }

    pub fn new() -> (r: Self)
        ensures
            r.text() == Seq::<char>::empty(),
    {
        StreamReader { full_text: String::new() }
    }

    /// Read one line of the stream: text is added to the reply.
    pub fn read_line(&mut self, line: &str) -> (r: StreamEvent)
        ensures
            stream_event_view(r) == line_event(line@),
            final(self).text() == match line_event(line@) {
                Some(Some(t)) => old(self).text() + t,
                _ => old(self).text(),
            },
    {
        let event = match classify_sse_line(line) {
            SseLine::Skip => StreamEvent::Skip,
            SseLine::Stop => StreamEvent::Stop,
            SseLine::Data(p) => event_for_delta(delta_content(p.as_str())),
        };
        match &event {
            StreamEvent::Text(t) => self.full_text.append(t.as_str()),
            _ => {},
        }
        event
    }

    /// The reply read so far.
    pub fn full_text(&self) -> (r: String)
        ensures
            r@ == self.text(),
    {
        self.full_text.clone()
    }
}

// ── Collecting a reply from its chunks ───────────────────────────────────

/// Where collecting a reply stands after a chunk.
pub enum Collected {
    /// More chunks are to come.
    Pending,
    /// The reply is complete.
    Finished,
    /// The generation failed with this message.
    Failed(String),
}

/// Take one chunk into the reply: text is appended, the end replaces the
/// reply with the whole text, an error leaves it as it is.
pub fn absorb_chunk(full_text: &mut String, chunk: GenChunk) -> (r: Collected)
    ensures
        match chunk {
            GenChunk::Text(t) => r is Pending && final(full_text)@ == old(full_text)@ + t@,
            GenChunk::Done { full_text: ft } => r is Finished && final(full_text)@ == ft@,
            GenChunk::Error(e) => (match r {
                Collected::Failed(m) => m@ == e@,
                _ => false,
            }) && final(full_text)@ == old(full_text)@,
        },
{
    match chunk {
        GenChunk::Text(t) => {
            full_text.append(t.as_str());
            Collected::Pending
        },
        GenChunk::Done { full_text: ft } => {
            *full_text = ft;
            Collected::Finished
        },
        GenChunk::Error(e) => Collected::Failed(e),
    }
}

} // verus!

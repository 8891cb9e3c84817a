use parla::llm::{
    absorb_chunk, classify_sse_line, event_for_delta, Collected, GenChunk, SseLine, StreamEvent,
    StreamReader,
};

#[test]
fn sse_lines_are_classified() {
    assert!(matches!(classify_sse_line(""), SseLine::Skip));
    assert!(matches!(classify_sse_line(": keep-alive"), SseLine::Skip));
    assert!(matches!(classify_sse_line("event: message"), SseLine::Skip));
    assert!(matches!(classify_sse_line("data: [DONE]"), SseLine::Stop));
    assert!(matches!(classify_sse_line("data:[DONE]  "), SseLine::Stop));
    assert!(matches!(classify_sse_line("data:   "), SseLine::Skip));
    match classify_sse_line("data:  {\"x\":1} ") {
        SseLine::Data(p) => assert_eq!(p, "{\"x\":1}"),
        _ => panic!("expected data"),
    }
}

#[test]
fn stream_reader_collects_deltas() {
    let mut r = StreamReader::new();
    let e = r.read_line(r#"data: {"choices":[{"delta":{"content":"Hola"}}]}"#);
    assert!(matches!(e, StreamEvent::Text(ref t) if t == "Hola"));
    let e = r.read_line(r#"data: {"choices":[{"delta":{"role":"assistant"}}]}"#);
    assert!(matches!(e, StreamEvent::Skip));
    let e = r.read_line(r#"data: {"choices":[{"delta":{"content":""}}]}"#);
    assert!(matches!(e, StreamEvent::Skip));
    let e = r.read_line("data: {oops");
    assert!(matches!(e, StreamEvent::Skip));
    let e = r.read_line(r#"data: {"choices":[{"delta":{"content":" mundo"}}]}"#);
    assert!(matches!(e, StreamEvent::Text(ref t) if t == " mundo"));
    assert_eq!(r.full_text(), "Hola mundo");
    assert!(matches!(r.read_line("data: [DONE]"), StreamEvent::Stop));
    assert_eq!(r.full_text(), "Hola mundo");
}

#[test]
fn delta_events() {
    assert!(matches!(event_for_delta(Ok(Some("a".to_string()))), StreamEvent::Text(ref t) if t == "a"));
    assert!(matches!(event_for_delta(Ok(Some(String::new()))), StreamEvent::Skip));
    assert!(matches!(event_for_delta(Ok(None)), StreamEvent::Skip));
    assert!(matches!(event_for_delta(Err(())), StreamEvent::Skip));
}

#[test]
fn chunks_are_collected_into_the_reply() {
    let mut full = String::new();
    assert!(matches!(absorb_chunk(&mut full, GenChunk::Text("Ho".to_string())), Collected::Pending));
    assert!(matches!(absorb_chunk(&mut full, GenChunk::Text("la".to_string())), Collected::Pending));
    assert_eq!(full, "Hola");
    assert!(matches!(
        absorb_chunk(&mut full, GenChunk::Done { full_text: "Hola!".to_string() }),
        Collected::Finished
    ));
    assert_eq!(full, "Hola!");
    match absorb_chunk(&mut full, GenChunk::Error("boom".to_string())) {
        Collected::Failed(m) => assert_eq!(m, "boom"),
        _ => panic!("expected failure"),
    }
    assert_eq!(full, "Hola!");
}

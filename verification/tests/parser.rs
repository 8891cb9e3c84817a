use parla::{extract_json_object, is_sentence_terminator, StreamingJsonParser};

#[test]
fn streaming_extracts_sentences_progressively() {
    let mut p = StreamingJsonParser::new();
    p.push(r#"{"tutor_message":{"target_lang":"¡Hola! Bienvenido"#);
    assert_eq!(p.take_sentences(), vec!["¡Hola!"]);

    p.push(r#" al café. ¿Qué te"#);
    assert_eq!(p.take_sentences(), vec!["Bienvenido al café."]);

    p.push(r#" gustaría ordenar?","native_lang":"Hello"}}"#);
    assert_eq!(p.take_sentences(), vec!["¿Qué te gustaría ordenar?"]);
    assert!(p.is_finished());
}

#[test]
fn streaming_handles_escaped_quote() {
    let mut p = StreamingJsonParser::new();
    p.push(r#"{"tutor_message":{"target_lang":"He said \"hola\" to me. Great."}}"#);
    let _ = p.take_sentences();
    assert!(p.is_finished());
    assert_eq!(p.captured(), r#"He said "hola" to me. Great."#);
}

#[test]
fn chunking_does_not_change_what_is_captured() {
    let text = r#"{"tutor_message":{"target_lang":"Uno. Dos\u00e9 tres\n!"}}"#;
    let mut whole = StreamingJsonParser::new();
    whole.push(text);
    let chars: Vec<char> = text.chars().collect();
    let mut pieces = StreamingJsonParser::new();
    for c in chars {
        let s = c.to_string();
        assert!(pieces.accepts(&s));
        pieces.push(&s);
    }
    assert_eq!(whole.captured(), "Uno. Dosé tres\n!");
    assert_eq!(pieces.captured(), whole.captured());
    assert_eq!(pieces.is_finished(), whole.is_finished());
}

#[test]
fn key_split_across_chunks_is_found() {
    let mut p = StreamingJsonParser::new();
    p.push(r#"{"tutor_mes"#);
    p.push(r#"sage": {"target_"#);
    p.push(r#"lang" : "Hi."#);
    assert_eq!(p.captured(), "Hi.");
    assert!(!p.is_finished());
    // The terminator ends the text but the string is still open: not yet a sentence.
    assert!(p.take_sentences().is_empty());
    p.push("\"");
    assert_eq!(p.take_sentences(), vec!["Hi."]);
    assert!(p.take_sentences().is_empty());
}

#[test]
fn decimal_point_does_not_cut() {
    let mut p = StreamingJsonParser::new();
    p.push(r#"{"tutor_message":{"target_lang":"Pi is 3.14 roughly?! Yes"}}"#);
    assert_eq!(p.take_sentences(), vec!["Pi is 3.14 roughly?!", "Yes"]);
}

#[test]
fn unicode_escape_waits_for_four_bytes() {
    let mut p = StreamingJsonParser::new();
    p.push(r#"{"tutor_message":{"target_lang":"a\u00"#);
    assert_eq!(p.captured(), "a");
    p.push("f1b\"");
    assert_eq!(p.captured(), "añb");
    assert!(p.is_finished());
}

#[test]
fn unicode_escape_with_plus_sign_and_invalid_digits() {
    let mut p = StreamingJsonParser::new();
    p.push(r#"{"tutor_message":{"target_lang":"\u+041\uzzzzx\ud800y"}}"#);
    // "+041" parses as 0x41; "zzzz" and the surrogate d800 produce nothing.
    assert_eq!(p.captured(), "Axy");
}

#[test]
fn escape_straddling_a_multibyte_character_is_refused() {
    let p = StreamingJsonParser::new();
    assert!(!p.accepts(r#"{"tutor_message":{"target_lang":"\u12€"#));
    assert!(p.accepts(r#"{"tutor_message":{"target_lang":"\u1€x"#));
}

#[test]
fn simple_escapes_are_decoded() {
    let mut p = StreamingJsonParser::new();
    p.push(r#"{"tutor_message":{"target_lang":"a\tb\\c\/d\qe"}}"#);
    assert_eq!(p.captured(), "a\tb\\c/dqe");
}

#[test]
fn sentences_are_trimmed_and_nonempty() {
    let mut p = StreamingJsonParser::new();
    p.push("{\"tutor_message\":{\"target_lang\":\"  Hola.   ¿Qué tal?\u{3000}Bien\"}}");
    let s = p.take_sentences();
    assert_eq!(s, vec!["Hola.", "¿Qué tal?", "Bien"]);
    assert!(p.take_sentences().is_empty());
}

#[test]
fn nothing_is_captured_before_the_key() {
    let mut p = StreamingJsonParser::new();
    p.push(r#"{"target_lang":"no","tutor":1}"#);
    assert_eq!(p.captured(), "");
    assert!(!p.is_finished());
    assert!(p.take_sentences().is_empty());
}

#[test]
fn terminators() {
    assert!(is_sentence_terminator('.'));
    assert!(is_sentence_terminator('!'));
    assert!(is_sentence_terminator('?'));
    assert!(is_sentence_terminator('…'));
    assert!(is_sentence_terminator('¿'));
    assert!(is_sentence_terminator('¡'));
    assert!(is_sentence_terminator('\n'));
    assert!(!is_sentence_terminator(','));
}

#[test]
fn json_object_is_extracted_from_surrounding_text() {
    let raw = "Here you go:\n```\n{\"a\": \"}{\", \"b\": {\"c\": \"\\\"}\"}}\n```";
    assert_eq!(
        extract_json_object(raw),
        Some("{\"a\": \"}{\", \"b\": {\"c\": \"\\\"}\"}}")
    );
    assert_eq!(extract_json_object("no object"), None);
    assert_eq!(extract_json_object("{ unclosed"), None);
    // A stray closing brace before the object is skipped.
    assert_eq!(extract_json_object("} {x}"), Some("{x}"));
}

#[test]
fn taking_as_text_arrives_equals_taking_at_the_end() {
    let chunks = [
        r#"{"tutor_message":{"target_lang":"Uno. Dos"#,
        r#"! ¿Tres?  "#,
        r#"  Pi es 3."#,
        r#"14… Fin"#,
        r#"al","native_lang":"x"}}"#,
    ];
    let mut progressive = StreamingJsonParser::new();
    let mut sentences = Vec::new();
    for c in chunks {
        progressive.push(c);
        sentences.extend(progressive.take_sentences());
    }
    let mut once = StreamingJsonParser::new();
    for c in chunks {
        once.push(c);
    }
    let all = once.take_sentences();
    assert_eq!(sentences, all);
    assert_eq!(all, vec!["Uno.", "Dos!", "¿Tres?", "Pi es 3.14…", "Final"]);
}

#[test]
fn stray_closing_brace_before_the_object_is_skipped() {
    assert_eq!(extract_json_object(r#"} {"a":1}"#), Some(r#"{"a":1}"#));
    assert_eq!(extract_json_object(r#"}} ``` {"a":{"b":"}"}} tail"#), Some(r#"{"a":{"b":"}"}}"#));
    assert_eq!(extract_json_object("}"), None);
}

fn finished_sentences(target: &str) -> Vec<String> {
    let mut p = StreamingJsonParser::new();
    p.push(&format!("{{\"tutor_message\":{{\"target_lang\":\"{target}\"}}}}"));
    assert!(p.is_finished());
    p.take_sentences()
}

#[test]
fn newline_and_inverted_marks_close_sentences() {
    assert_eq!(finished_sentences("Hola\\n Adiós."), vec!["Hola", "Adiós."]);
    assert_eq!(finished_sentences("Hi. \\n Yo"), vec!["Hi.", "Yo"]);
    assert_eq!(finished_sentences("Vale ¡ Sí"), vec!["Vale ¡", "Sí"]);
    // A run of terminators followed by text does not close a sentence.
    assert_eq!(finished_sentences("Hi.\\nYo"), vec!["Hi.\nYo"]);
}

#[test]
fn every_visible_character_is_handed_out_once() {
    let chunks = [
        r#"{"tutor_message":{"target_lang":"Uno. Dos"#,
        r#"! ¿Tres?\n  Cua"#,
        r#"tro… ¡Cinco! Seis"#,
        r#"","native_lang":"x"}}"#,
    ];
    let mut p = StreamingJsonParser::new();
    let mut out = String::new();
    for c in chunks {
        p.push(c);
        for s in p.take_sentences() {
            assert!(!s.is_empty());
            out.push_str(&s);
        }
    }
    assert!(p.is_finished());
    let visible = |s: &str| s.chars().filter(|c| !c.is_whitespace()).collect::<String>();
    assert_eq!(visible(&out), visible(p.captured()));
}

#[test]
fn sentences_without_newlines_end_with_a_terminator() {
    let s = finished_sentences("Uno. ¿Dos? ¡Tres! Cuatro… cinco");
    assert_eq!(s, vec!["Uno.", "¿Dos?", "¡Tres!", "Cuatro…", "cinco"]);
    for x in &s[..s.len() - 1] {
        assert!(x.ends_with(['.', '!', '?', '…', '¡', '¿']));
    }
}

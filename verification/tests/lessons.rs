use parla::db::ProfileRow;
use parla::lessons::{
    build_lesson_generation_prompt,
    lesson_system_prompt, lessons_from_response, string_list_or_empty, tutor_led_system_prompt,
    FREE_GREETING, TUTOR_LED_CLOSING,
};
use parla::text::replace_text;
use parla::{build_system_prompt, GrammarFocus, LessonContext, VocabItem};

fn profile() -> ProfileRow {
    ProfileRow {
        native_language: "English".to_string(),
        target_language: "Spanish".to_string(),
        cefr_level: "B1".to_string(),
        goals_json: r#"["Travel","Work"]"#.to_string(),
    }
}

#[test]
fn replace_matches_str_replace() {
    assert_eq!(replace_text("a-b-c", "-", "+"), "a+b+c");
    assert_eq!(replace_text("aaa", "aa", "b"), "ba");
    assert_eq!(replace_text("abc", "", "x"), "xaxbxcx");
    assert_eq!(replace_text("", "", "x"), "x");
    assert_eq!(replace_text("abc", "zz", "x"), "abc");
    for (s, p, r) in [("héllo héllo", "é", "e"), ("abab", "ab", ""), ("xyz", "xyz", "123")] {
        assert_eq!(replace_text(s, p, r), s.replace(p, r));
    }
}

#[test]
fn string_lists_decode_or_are_empty() {
    assert_eq!(string_list_or_empty(r#"["a", "b"]"#), vec!["a".to_string(), "b".to_string()]);
    assert!(string_list_or_empty("not json").is_empty());
    assert!(string_list_or_empty("[1, 2]").is_empty());
    assert!(string_list_or_empty("[]").is_empty());
}

#[test]
fn tutor_led_prompt_replaces_the_greeting() {
    let p = tutor_led_system_prompt(&profile());
    let free = build_system_prompt("Spanish", "Learner", "English", "B1", &["Travel", "Work"], None);
    assert_eq!(p, free.replace(FREE_GREETING, TUTOR_LED_CLOSING));
    assert!(p.ends_with(TUTOR_LED_CLOSING));
    assert!(!p.contains(FREE_GREETING));
    assert!(p.contains("- Goals: Travel, Work\n"));
}

#[test]
fn tutor_led_prompt_with_unreadable_goals() {
    let mut prof = profile();
    prof.goals_json = "oops".to_string();
    let p = tutor_led_system_prompt(&prof);
    assert!(p.contains("- Goals: \n"));
}

#[test]
fn lesson_prompt_uses_stored_lesson() {
    let p = lesson_system_prompt(
        &profile(),
        "At the café",
        Some("Ordering breakfast"),
        r#"["Order a drink","Ask the price"]"#,
        r#"["el café","la cuenta"]"#,
        r#"["es_gustar"]"#,
    );
    let objectives = ["Order a drink", "Ask the price"];
    let vocab = [
        VocabItem { target: "el café", native: "" },
        VocabItem { target: "la cuenta", native: "" },
    ];
    let grammar = [GrammarFocus { title: "es_gustar", explanation: "" }];
    let ctx = LessonContext {
        topic: "At the café",
        scenario: "Ordering breakfast",
        objectives: &objectives,
        vocabulary: &vocab,
        grammar: &grammar,
    };
    let expected =
        build_system_prompt("Spanish", "Learner", "English", "B1", &["Travel", "Work"], Some(&ctx));
    assert_eq!(p, expected);
    assert!(p.contains("- el café ()\n"));
    assert!(p.contains("- es_gustar: \n"));
}

#[test]
fn lesson_prompt_without_scenario_or_lists() {
    let p = lesson_system_prompt(&profile(), "Free talk", None, "", "x", "[]");
    assert!(p.contains("## This Lesson\n- Topic: Free talk\n- Scenario: \n- Objectives:\n\n"));
    assert!(!p.contains("## Vocabulary to Introduce"));
    assert!(!p.contains("## Grammar Focus"));
}

#[test]
fn lesson_plan_is_read_from_reply() {
    let reply = r#"Sure! Here is the plan:
[{"title":"Greetings","topic":"basics","cefr_level":"A2","description":"Say hello","scenario":"Meeting","objectives":["say hi"],"target_vocabulary":["hola"],"target_grammar":["es_hay"]},
 {"title":7,"objectives":[]}]
Enjoy."#;
    let lessons = lessons_from_response(reply, "A1").unwrap();
    assert_eq!(lessons.len(), 2);
    let a = &lessons[0];
    assert_eq!(a.sequence_order, 1);
    assert_eq!(a.cefr_level, "A2");
    assert_eq!(a.topic, "basics");
    assert_eq!(a.title, "Greetings");
    assert_eq!(a.description, "Say hello");
    assert_eq!(a.scenario, "Meeting");
    assert_eq!(a.objectives_json, r#"["say hi"]"#);
    assert_eq!(a.target_vocabulary_json, r#"["hola"]"#);
    assert_eq!(a.target_grammar_json, r#"["es_hay"]"#);
    let b = &lessons[1];
    assert_eq!(b.sequence_order, 2);
    assert_eq!(b.cefr_level, "A1");
    assert_eq!(b.topic, "general");
    assert_eq!(b.title, "Untitled Lesson");
    assert_eq!(b.description, "");
    assert_eq!(b.scenario, "");
    assert_eq!(b.objectives_json, "[]");
    assert_eq!(b.target_vocabulary_json, "null");
    assert_eq!(b.target_grammar_json, "null");
}

#[test]
fn lesson_plan_errors() {
    assert_eq!(
        lessons_from_response("no plan here", "A1").err(),
        Some("no JSON array in LLM response".to_string())
    );
    assert_eq!(
        lessons_from_response("[ unfinished", "A1").err(),
        Some("no closing ] in LLM response".to_string())
    );
    let e = lessons_from_response("[not json]", "A1").unwrap_err();
    assert!(e.starts_with("parse lessons JSON: "));
    assert!(lessons_from_response("[]", "A1").unwrap().is_empty());
}

#[test]
fn lesson_plan_request_messages() {
    let m = build_lesson_generation_prompt("Spanish", "English", "A2", &["Travel"]);
    assert_eq!(m.len(), 2);
    assert_eq!(m[0].role, parla::ChatRole::System);
    assert_eq!(m[0].content, build_system_prompt("Spanish", "Learner", "English", "A2", &["Travel"], None));
    assert_eq!(m[1].role, parla::ChatRole::User);
    assert_eq!(
        m[1].content,
        "Plan a learning path of 10 lessons for a A2 learner of Spanish. Reply with a JSON array of objects with the keys title, topic, cefr_level, description, scenario, objectives, target_vocabulary and target_grammar."
    );
}

use parla::prompt::{join_strs, role_name, RESPONSE_FORMAT};
use parla::{build_system_prompt, ChatMessage, ChatRole, GrammarFocus, LessonContext, VocabItem};

const RULES_REST: &str = " at this level.\n3. INTRODUCE VOCABULARY NATURALLY by using the target words in context. When you use a new word for the first time, briefly gloss it.\n4. CORRECT GENTLY. When the student makes an error: acknowledge what they communicated, show the correct form, give a brief (1-sentence) explanation, and continue the conversation. Don't correct every small error.\n5. SCAFFOLD appropriately. If the student seems stuck, offer a suggestion.\n6. PACE YOURSELF. Introduce 2-3 new vocabulary items at a time, not all at once.\n7. Keep tutor_message.target_lang short — 1 to 3 sentences per turn — so the student can respond.\n\n";

fn rules(target: &str, native: &str, tp: u32, np: u32) -> String {
    format!(
        "## Conversation Rules\n\n1. STAY IN CHARACTER while teaching. Don't break the scene to lecture.\n2. LANGUAGE MIX: Speak primarily in {target}. Keep explanations of new concepts in {native}. Aim for ~{tp}% {target}, {np}% {native}{RULES_REST}"
    )
}

#[test]
fn free_conversation_prompt_is_exact() {
    let p = build_system_prompt("Spanish", "Ana", "English", "A1 (Beginner)", &["Travel", "Food"], None);
    let expected = format!(
        "You are a warm, patient, expert Spanish tutor having a one-on-one conversation with your student. Your name is Duo.\n\n\
         ## Your Student\n- Name: Ana\n- Native language: English\n- Current level: A1 (Beginner)\n- Goals: Travel, Food\n\n\
         ## Mode: Free Conversation\nThis is an open-ended conversation. There is no specific lesson topic.\n\
         Follow the student's lead — talk about whatever they want.\n\
         Still teach naturally: introduce useful vocabulary, correct mistakes gently,\n\
         and note grammar patterns as they come up.\n\n{}{}\nStart by greeting the student warmly and asking what they'd like to talk about.",
        rules("Spanish", "English", 70, 30),
        RESPONSE_FORMAT
    );
    assert_eq!(p, expected);
}

#[test]
fn lesson_prompt_is_exact() {
    let objectives = ["Order a drink", "Pay"];
    let vocab = [VocabItem { target: "la cuenta", native: "the bill" }];
    let grammar = [GrammarFocus { title: "Gustar", explanation: "Reverse construction" }];
    let ctx = LessonContext {
        topic: "Café",
        scenario: "Breakfast in Madrid",
        objectives: &objectives,
        vocabulary: &vocab,
        grammar: &grammar,
    };
    let p = build_system_prompt("Spanish", "Ana", "English", "B2", &[], Some(&ctx));
    let expected = format!(
        "You are a warm, patient, expert Spanish tutor having a one-on-one conversation with your student. Your name is Duo.\n\n\
         ## Your Student\n- Name: Ana\n- Native language: English\n- Current level: B2\n- Goals: \n\n\
         ## This Lesson\n- Topic: Café\n- Scenario: Breakfast in Madrid\n- Objectives:\n  1. Order a drink\n  2. Pay\n\n\
         ## Vocabulary to Introduce\nIntroduce these naturally during conversation (don't dump them all at once):\n- la cuenta (the bill)\n\n\
         ## Grammar Focus\n- Gustar: Reverse construction\n\n{}{}\nStart by greeting the student warmly, set the scene briefly, and begin the lesson.",
        rules("Spanish", "English", 85, 15),
        RESPONSE_FORMAT
    );
    assert_eq!(p, expected);
}

#[test]
fn language_mix_follows_level_letter() {
    let c = build_system_prompt("French", "Bo", "German", "C1", &["Work"], None);
    assert!(c.contains("Aim for ~95% French, 5% German at this level."));
    let other = build_system_prompt("French", "Bo", "German", "beginner", &["Work"], None);
    assert!(other.contains("Aim for ~70% French, 30% German at this level."));
    let empty = build_system_prompt("French", "Bo", "German", "", &["Work"], None);
    assert!(empty.contains("Aim for ~70% French, 30% German at this level."));
}

#[test]
fn many_objectives_are_numbered_in_decimal() {
    let objectives: Vec<String> = (1..=12).map(|i| format!("obj{i}")).collect();
    let refs: Vec<&str> = objectives.iter().map(|s| s.as_str()).collect();
    let ctx = LessonContext { topic: "T", scenario: "S", objectives: &refs, vocabulary: &[], grammar: &[] };
    let p = build_system_prompt("Korean", "Kim", "English", "A2", &[], Some(&ctx));
    assert!(p.contains("  9. obj9\n  10. obj10\n  11. obj11\n  12. obj12\n\n## Conversation Rules"));
    assert!(!p.contains("## Vocabulary to Introduce"));
    assert!(!p.contains("## Grammar Focus"));
}

#[test]
fn chat_messages_and_roles() {
    let m = ChatMessage::system("x".to_string());
    assert_eq!(m.role, ChatRole::System);
    assert_eq!(m.content, "x");
    assert_eq!(ChatMessage::user("u".to_string()).role, ChatRole::User);
    assert_eq!(ChatMessage::assistant("a".to_string()).role, ChatRole::Assistant);
    assert_eq!(role_name(ChatRole::System), "system");
    assert_eq!(role_name(ChatRole::User), "user");
    assert_eq!(role_name(ChatRole::Assistant), "assistant");
}

#[test]
fn joining_strings() {
    assert_eq!(join_strs(&["a", "b", "c"], ", "), "a, b, c");
    assert_eq!(join_strs(&[], ", "), "");
    assert_eq!(join_strs(&["solo"], "-"), "solo");
}

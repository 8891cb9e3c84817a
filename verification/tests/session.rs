use parla::session::stored_message;
use parla::session::student_message_text;
use parla::db::NewVocabulary as VocabularyRow;
use parla::parser::NewVocabulary;
use parla::session::{
    stored_translation, title_source, vocabulary_rows, ConversationHistory, TargetLanguage,
};
use parla::{build_system_prompt, ChatMessage, ChatRole};

fn default_prompt() -> String {
    build_system_prompt("Spanish", "Learner", "English", "A1 (Beginner)", &["Conversation"], None)
}

#[test]
fn new_history_has_default_prompt_and_nothing_else() {
    let h = ConversationHistory::new();
    assert_eq!(h.counts(), (0, 0));
    assert_eq!(h.get_conversation_id(), None);
    let msgs = h.messages_with_system();
    assert_eq!(msgs.len(), 1);
    assert_eq!(msgs[0].role, ChatRole::System);
    assert_eq!(msgs[0].content, default_prompt());
}

#[test]
fn messages_follow_the_system_prompt_in_order() {
    let mut h = ConversationHistory::new();
    h.set_system_prompt("Be brief.".to_string());
    h.push(ChatMessage::user("Hola".to_string()));
    h.push(ChatMessage::assistant("¡Hola!".to_string()));
    let msgs = h.messages_with_system();
    assert_eq!(msgs.len(), 3);
    assert_eq!(msgs[0].role, ChatRole::System);
    assert_eq!(msgs[0].content, "Be brief.");
    assert_eq!(msgs[1].role, ChatRole::User);
    assert_eq!(msgs[1].content, "Hola");
    assert_eq!(msgs[2].role, ChatRole::Assistant);
    assert_eq!(msgs[2].content, "¡Hola!");
}

#[test]
fn clear_keeps_the_prompt_and_forgets_the_rest() {
    let mut h = ConversationHistory::new();
    h.set_system_prompt("Prompt".to_string());
    h.push(ChatMessage::user("a".to_string()));
    h.set_conversation_id(42);
    assert_eq!(h.increment_messages(), 1);
    assert_eq!(h.increment_errors(), 1);
    assert_eq!(h.get_conversation_id(), Some(42));
    h.clear();
    assert_eq!(h.counts(), (0, 0));
    assert_eq!(h.get_conversation_id(), None);
    let msgs = h.messages_with_system();
    assert_eq!(msgs.len(), 1);
    assert_eq!(msgs[0].content, "Prompt");
}

#[test]
fn counting_a_turn() {
    let mut h = ConversationHistory::new();
    assert_eq!(h.count_turn(false), (2, 0));
    assert_eq!(h.count_turn(true), (4, 1));
    assert_eq!(h.counts(), (4, 1));
}

#[test]
fn target_language_is_replaced() {
    let mut t = TargetLanguage::new("es");
    assert_eq!(t.get(), "es");
    t.set("ko");
    assert_eq!(t.get(), "ko");
}

#[test]
fn vocabulary_is_stored_under_conversation_topic() {
    let items = vec![NewVocabulary {
        target_text: "café".to_string(),
        native_text: "coffee".to_string(),
        pronunciation: Some("ka-FEH".to_string()),
        part_of_speech: None,
        example_target: Some("Un café, por favor.".to_string()),
        example_native: None,
    }];
    let rows: Vec<VocabularyRow> = vocabulary_rows(&items, Some(7));
    assert_eq!(rows.len(), 1);
    assert_eq!(rows[0].target_text, "café");
    assert_eq!(rows[0].native_text, "coffee");
    assert_eq!(rows[0].pronunciation.as_deref(), Some("ka-FEH"));
    assert_eq!(rows[0].part_of_speech, None);
    assert_eq!(rows[0].topic, "conversation");
    assert_eq!(rows[0].example_target.as_deref(), Some("Un café, por favor."));
    assert_eq!(rows[0].example_native, None);
    assert_eq!(rows[0].conversation_id, Some(7));
    assert!(vocabulary_rows(&[], None).is_empty());
}

#[test]
fn title_comes_from_translation_when_there_is_one() {
    assert_eq!(title_source("¡Hola!", "Hello!"), "Hello!");
    assert_eq!(title_source("¡Hola!", ""), "¡Hola!");
}

#[test]
fn empty_translation_is_not_stored() {
    assert_eq!(stored_translation(""), None);
    assert_eq!(stored_translation("Hello"), Some("Hello".to_string()));
}

#[test]
fn stored_messages_become_chat_messages() {
    let m = stored_message("student", "Hola".to_string()).unwrap();
    assert_eq!(m.role, ChatRole::User);
    assert_eq!(m.content, "Hola");
    let m = stored_message("tutor", "¡Hola!".to_string()).unwrap();
    assert_eq!(m.role, ChatRole::Assistant);
    assert!(stored_message("system", "x".to_string()).is_none());
}

#[test]
fn student_text_is_trimmed_or_refused() {
    assert_eq!(student_message_text("  Hola  \n"), Ok("Hola".to_string()));
    assert_eq!(student_message_text(" \t "), Err("empty student message".to_string()));
    assert_eq!(student_message_text(""), Err("empty student message".to_string()));
}

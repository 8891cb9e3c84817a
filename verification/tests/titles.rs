use parla::titles::{clean_generated_title, conversation_title, fallback_title};

#[test]
fn conversation_without_topic_is_named_by_mode() {
    assert_eq!(conversation_title(None, "free"), "free conversation");
    assert_eq!(conversation_title(Some("At the market".to_string()), "free"), "At the market");
    assert_eq!(conversation_title(None, "lesson"), "lesson conversation");
}

#[test]
fn short_message_is_its_own_fallback_title() {
    assert_eq!(fallback_title("Hola, ¿cómo estás?"), "Hola, ¿cómo estás?");
    assert_eq!(fallback_title(""), "");
    let forty = "a".repeat(40);
    assert_eq!(fallback_title(&forty), forty);
}

#[test]
fn long_message_is_cut_at_the_last_space() {
    assert_eq!(
        fallback_title("I would like to order a coffee with milk please"),
        "I would like to order a coffee with…"
    );
    assert_eq!(
        fallback_title("Quisiera un café con leche y también algo"),
        "Quisiera un café con leche y también…"
    );
}

#[test]
fn long_message_without_space_is_cut_at_forty_bytes() {
    let long = "b".repeat(50);
    assert_eq!(fallback_title(&long), format!("{}…", "b".repeat(40)));
}

#[test]
fn generated_title_is_cleaned() {
    assert_eq!(
        clean_generated_title("  \"**Ordering Coffee**\"  \n"),
        Some("Ordering Coffee".to_string())
    );
    assert_eq!(clean_generated_title("Weekend Plans"), Some("Weekend Plans".to_string()));
    // Quotes are stripped before asterisks: quotes inside asterisks stay.
    assert_eq!(clean_generated_title("*\"Title\"*"), Some("\"Title\"".to_string()));
}

#[test]
fn empty_or_long_generated_title_is_refused() {
    assert_eq!(clean_generated_title("   "), None);
    assert_eq!(clean_generated_title("\"\"\"**"), None);
    assert_eq!(clean_generated_title(""), None);
    assert_eq!(clean_generated_title(&"x".repeat(101)), None);
    assert_eq!(clean_generated_title(&"x".repeat(100)), Some("x".repeat(100)));
    // 51 two-byte characters are 102 bytes.
    assert_eq!(clean_generated_title(&"é".repeat(51)), None);
    assert_eq!(clean_generated_title(&"é".repeat(50)), Some("é".repeat(50)));
}

use parla::lang::{macos_voice_for_lang, whisper_lang_code};
use parla::{detect_language_from_text, language_name_to_code};

#[test]
fn language_names_map_to_codes() {
    assert_eq!(language_name_to_code("Spanish"), "es");
    assert_eq!(language_name_to_code("ESPAÑOL"), "es");
    assert_eq!(language_name_to_code("français"), "fr");
    assert_eq!(language_name_to_code("Deutsch"), "de");
    assert_eq!(language_name_to_code("Italiano"), "it");
    assert_eq!(language_name_to_code("한국어"), "ko");
    assert_eq!(language_name_to_code("Português"), "pt");
    assert_eq!(language_name_to_code("Mandarin"), "zh");
    assert_eq!(language_name_to_code("中文"), "zh");
    assert_eq!(language_name_to_code("日本語"), "ja");
    assert_eq!(language_name_to_code("TÜRKÇE"), "tr");
    assert_eq!(language_name_to_code("English"), "en");
}

#[test]
fn unknown_language_name_is_english() {
    assert_eq!(language_name_to_code("Klingon"), "en");
    assert_eq!(language_name_to_code(""), "en");
    assert_eq!(language_name_to_code("es"), "en");
}

#[test]
fn script_detection_finds_cjk_languages() {
    assert_eq!(detect_language_from_text("안녕하세요"), Some("ko"));
    assert_eq!(detect_language_from_text("ᄀ"), Some("ko"));
    assert_eq!(detect_language_from_text("你好"), Some("zh"));
    assert_eq!(detect_language_from_text("こんにちは"), Some("ja"));
    assert_eq!(detect_language_from_text("カタカナ"), Some("ja"));
}

#[test]
fn script_detection_first_identifying_character_wins() {
    assert_eq!(detect_language_from_text("Hello 日本"), Some("zh"));
    assert_eq!(detect_language_from_text("abc ひ 한"), Some("ja"));
    assert_eq!(detect_language_from_text("Je suis 한국 사람"), Some("ko"));
}

#[test]
fn latin_text_has_no_detected_language() {
    assert_eq!(detect_language_from_text("Hola, ¿qué tal?"), None);
    assert_eq!(detect_language_from_text(""), None);
    assert_eq!(detect_language_from_text("Çok güzel"), None);
}

#[test]
fn voices_for_language_codes() {
    assert_eq!(macos_voice_for_lang("ko"), Some("Yuna"));
    assert_eq!(macos_voice_for_lang("ja"), Some("Kyoko"));
    assert_eq!(macos_voice_for_lang("zh"), Some("Ting-Ting"));
    assert_eq!(macos_voice_for_lang("es"), Some("Monica"));
    assert_eq!(macos_voice_for_lang("fr"), Some("Thomas"));
    assert_eq!(macos_voice_for_lang("de"), Some("Anna"));
    assert_eq!(macos_voice_for_lang("it"), Some("Alice"));
    assert_eq!(macos_voice_for_lang("pt"), Some("Luciana"));
    assert_eq!(macos_voice_for_lang("tr"), Some("Yelda"));
    assert_eq!(macos_voice_for_lang("en"), None);
    assert_eq!(macos_voice_for_lang("xx"), None);
}

#[test]
fn whisper_codes_are_the_same_codes() {
    assert_eq!(whisper_lang_code("ko"), "ko");
    assert_eq!(whisper_lang_code("pt"), "pt");
    assert_eq!(whisper_lang_code("nl"), "nl");
}

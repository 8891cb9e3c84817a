//! Verified core of the Parla language tutor.

pub mod db;
pub mod grammar_seeds;
pub mod json;
pub mod kokoro;
pub mod lang;
pub mod lessons;
pub mod llm;
pub mod models;
pub mod parser;
pub mod piper;
pub mod prompt;
pub mod session;
pub mod speech;
pub mod streaming;
pub mod text;
pub mod time_order;
pub mod titles;
pub mod vad;

pub use parser::{
    extract_json_object, find_from, is_sentence_terminator, Correction, GrammarNote,
    InternalNotes, ParsedTutorResponse, StreamingJsonParser, SuggestedResponse, TutorMessage,
};
pub use prompt::{
    build_system_prompt, ChatMessage, ChatRole, GrammarFocus, LessonContext, VocabItem,
};
pub use text::{chars_of, is_whitespace, string_of};
pub use lang::{detect_language_from_text, language_name_to_code};

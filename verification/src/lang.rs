//! Language codes: from the names stored with a profile, from the script of
//! a text, and the system voice used for each code.

use vstd::prelude::*;
use crate::text::{lowercase, str_eq, to_lowercase};
use crate::grammar_seeds::seed_code;

verus! {

/// The short code for a lowercased language name; English for anything not
/// recognised.
pub open spec fn name_code(lower: Seq<char>) -> Seq<char> {
    if lower == "english"@ {
        "en"@
    } else if lower == "spanish"@ || lower == "español"@ {
        "es"@
    } else if lower == "french"@ || lower == "français"@ {
        "fr"@
    } else if lower == "german"@ || lower == "deutsch"@ {
        "de"@
    } else if lower == "italian"@ || lower == "italiano"@ {
        "it"@
    } else if lower == "korean"@ || lower == "한국어"@ {
        "ko"@
    } else if lower == "portuguese"@ || lower == "português"@ {
        "pt"@
    } else if lower == "mandarin"@ || lower == "chinese"@ || lower == "中文"@ {
        "zh"@
    } else if lower == "japanese"@ || lower == "日本語"@ {
        "ja"@
    } else if lower == "turkish"@ || lower == "türkçe"@ {
        "tr"@
    } else {
        "en"@
    }
}

/// Law: every language name the grammar seeds know by name (Spanish,
/// French, German, Italian, Portuguese, Japanese, Korean, Mandarin or
/// Chinese, Turkish) gets the same code here as there, so a profile's
/// language is spoken and seeded as the same language.
pub proof fn lemma_names_match_seed_languages(lower: Seq<char>)
    requires
        lower.len() > 2,
        seed_code(lower) != "es"@ || lower == "spanish"@,
    ensures
        name_code(lower) == seed_code(lower),
        name_code(lower) != "en"@,
{
    reveal_strlit("english");
    reveal_strlit("spanish");
    reveal_strlit("español");
    reveal_strlit("french");
    reveal_strlit("français");
    reveal_strlit("german");
    reveal_strlit("deutsch");
    reveal_strlit("italian");
    reveal_strlit("italiano");
    reveal_strlit("korean");
    reveal_strlit("한국어");
    reveal_strlit("portuguese");
    reveal_strlit("português");
    reveal_strlit("mandarin");
    reveal_strlit("chinese");
    reveal_strlit("中文");
    reveal_strlit("japanese");
    reveal_strlit("日本語");
    reveal_strlit("turkish");
    reveal_strlit("türkçe");
    reveal_strlit("es");
    reveal_strlit("fr");
    reveal_strlit("de");
    reveal_strlit("it");
    reveal_strlit("pt");
    reveal_strlit("ja");
    reveal_strlit("ko");
    reveal_strlit("zh");
    reveal_strlit("tr");
    reveal_strlit("en");
    assert("english"@[0] == 'e');
    assert("spanish"@[0] == 's');
    assert("español"@[0] == 'e');
    assert("español"@[1] == 's' && "english"@[1] == 'n');
    assert("french"@[0] == 'f');
    assert("français"@[0] == 'f');
    assert("german"@[0] == 'g');
    assert("deutsch"@[0] == 'd');
    assert("italian"@[0] == 'i');
    assert("italiano"@[0] == 'i');
    assert("korean"@[0] == 'k');
    assert("portuguese"@[0] == 'p');
    assert("português"@[0] == 'p');
    assert("mandarin"@[0] == 'm');
    assert("chinese"@[0] == 'c');
    assert("japanese"@[0] == 'j');
    assert("turkish"@[0] == 't');
    assert("türkçe"@[0] == 't');
    if lower == "spanish"@ {
        assert(name_code(lower) == "es"@);
        assert(seed_code(lower) == "es"@);
    } else if lower == "french"@ {
        assert(name_code(lower) == "fr"@);
        assert(seed_code(lower) == "fr"@);
    } else if lower == "german"@ {
        assert(name_code(lower) == "de"@);
        assert(seed_code(lower) == "de"@);
    } else if lower == "italian"@ {
        assert(name_code(lower) == "it"@);
        assert(seed_code(lower) == "it"@);
    } else if lower == "portuguese"@ {
        assert(name_code(lower) == "pt"@);
        assert(seed_code(lower) == "pt"@);
    } else if lower == "japanese"@ {
        assert(name_code(lower) == "ja"@);
        assert(seed_code(lower) == "ja"@);
    } else if lower == "korean"@ {
        assert(name_code(lower) == "ko"@);
        assert(seed_code(lower) == "ko"@);
    } else if lower == "mandarin"@ {
        assert(name_code(lower) == "zh"@);
        assert(seed_code(lower) == "zh"@);
    } else if lower == "chinese"@ {
        assert(name_code(lower) == "zh"@);
        assert(seed_code(lower) == "zh"@);
    } else if lower == "turkish"@ {
        assert(name_code(lower) == "tr"@);
        assert(seed_code(lower) == "tr"@);
    } else {
        assert(lower.len() != 2);
        assert(seed_code(lower) == "es"@);
    }
    assert("en"@[0] == 'e' && "en"@[1] == 'n');
}

/// Law: a language's own name and its English name give the same code,
/// for each of the nine languages the tutor teaches.
pub proof fn lemma_native_names_agree()
    ensures
        name_code("español"@) == name_code("spanish"@) && name_code("español"@) == "es"@,
        name_code("français"@) == name_code("french"@) && name_code("français"@) == "fr"@,
        name_code("deutsch"@) == name_code("german"@) && name_code("deutsch"@) == "de"@,
        name_code("italiano"@) == name_code("italian"@) && name_code("italiano"@) == "it"@,
        name_code("한국어"@) == name_code("korean"@) && name_code("한국어"@) == "ko"@,
        name_code("português"@) == name_code("portuguese"@) && name_code("português"@) == "pt"@,
        name_code("中文"@) == name_code("chinese"@) && name_code("中文"@) == "zh"@,
        name_code("日本語"@) == name_code("japanese"@) && name_code("日本語"@) == "ja"@,
        name_code("türkçe"@) == name_code("turkish"@) && name_code("türkçe"@) == "tr"@,
{
    reveal_strlit("english");
    reveal_strlit("spanish");
    reveal_strlit("español");
    reveal_strlit("french");
    reveal_strlit("français");
    reveal_strlit("german");
    reveal_strlit("deutsch");
    reveal_strlit("italian");
    reveal_strlit("italiano");
    reveal_strlit("korean");
    reveal_strlit("한국어");
    reveal_strlit("portuguese");
    reveal_strlit("português");
    reveal_strlit("mandarin");
    reveal_strlit("chinese");
    reveal_strlit("中文");
    reveal_strlit("japanese");
    reveal_strlit("日本語");
    reveal_strlit("turkish");
    reveal_strlit("türkçe");
    reveal_strlit("es");
    reveal_strlit("fr");
    reveal_strlit("de");
    reveal_strlit("it");
    reveal_strlit("pt");
    reveal_strlit("ja");
    reveal_strlit("ko");
    reveal_strlit("zh");
    reveal_strlit("tr");
    reveal_strlit("en");
    assert("english"@[0] == 'e');
    assert("spanish"@[0] == 's');
    assert("español"@[0] == 'e');
    assert("español"@[1] == 's' && "english"@[1] == 'n');
    assert("french"@[0] == 'f');
    assert("français"@[0] == 'f');
    assert("german"@[0] == 'g');
    assert("deutsch"@[0] == 'd');
    assert("italian"@[0] == 'i');
    assert("italiano"@[0] == 'i');
    assert("korean"@[0] == 'k');
    assert("한국어"@[0] == '한');
    assert("portuguese"@[0] == 'p');
    assert("português"@[0] == 'p');
    assert("mandarin"@[0] == 'm');
    assert("chinese"@[0] == 'c');
    assert("japanese"@[0] == 'j');
    assert("日本語"@[0] == '日');
    assert("turkish"@[0] == 't');
    assert("türkçe"@[0] == 't');
}

/// The short code for an already lowercased language name.
pub fn lowered_name_to_code(lower: &str) -> (r: &'static str)
    ensures
        r@ == name_code(lower@),
{
    if str_eq(lower, "english") {
        "en"
    } else if str_eq(lower, "spanish") || str_eq(lower, "español") {
        "es"
    } else if str_eq(lower, "french") || str_eq(lower, "français") {
        "fr"
    } else if str_eq(lower, "german") || str_eq(lower, "deutsch") {
        "de"
    } else if str_eq(lower, "italian") || str_eq(lower, "italiano") {
        "it"
    } else if str_eq(lower, "korean") || str_eq(lower, "한국어") {
        "ko"
    } else if str_eq(lower, "portuguese") || str_eq(lower, "português") {
        "pt"
    } else if str_eq(lower, "mandarin") || str_eq(lower, "chinese") || str_eq(lower, "中文") {
        "zh"
    } else if str_eq(lower, "japanese") || str_eq(lower, "日本語") {
        "ja"
    } else if str_eq(lower, "turkish") || str_eq(lower, "türkçe") {
        "tr"
    } else {
        "en"
    }
}

/// Map a full language name (as stored with a profile), in any letter case,
/// to its short code; English when the name is not recognised.
pub fn language_name_to_code(name: &str) -> (r: &str)
    ensures
        r@ == name_code(lowercase(name@)),
{
    let lower = to_lowercase(name);
    lowered_name_to_code(lower.as_str())
}

/// Script classes that identify a language on their own.
pub open spec fn is_korean_char(c: char) -> bool {
    let n = c as u32;
    (0xac00 <= n <= 0xd7af) || (0x1100 <= n <= 0x11ff) || (0x3130 <= n <= 0x318f)
}

pub open spec fn is_chinese_char(c: char) -> bool {
    let n = c as u32;
    (0x4e00 <= n <= 0x9fff) || (0x3400 <= n <= 0x4dbf)
}

pub open spec fn is_japanese_char(c: char) -> bool {
    let n = c as u32;
    (0x3040 <= n <= 0x309f) || (0x30a0 <= n <= 0x30ff)
}

/// The language that one character's script identifies, if any.
pub open spec fn char_language(c: char) -> Option<Seq<char>> {
    if is_korean_char(c) {
        Some("ko"@)
    } else if is_chinese_char(c) {
        Some("zh"@)
    } else if is_japanese_char(c) {
        Some("ja"@)
    } else {
        None
    }
}

/// The language identified by the first character of `s` (from `i` on)
/// whose script identifies one.
pub open spec fn script_language_from(s: Seq<char>, i: int) -> Option<Seq<char>>
    decreases s.len() - i,
{
    if i < 0 || i >= s.len() {
        None
    } else if char_language(s[i]) is Some {
        char_language(s[i])
    } else {
        script_language_from(s, i + 1)
    }
}

pub open spec fn script_language(s: Seq<char>) -> Option<Seq<char>> {
    script_language_from(s, 0)
}

/// Executable form of `char_language`.
fn language_of_char(c: char) -> (r: Option<&'static str>)
    ensures
        match r {
            Some(code) => char_language(c) == Some(code@),
            None => char_language(c) is None,
        },
{
    let n = c as u32;
    if (0xac00 <= n && n <= 0xd7af) || (0x1100 <= n && n <= 0x11ff) || (0x3130 <= n && n
        <= 0x318f) {
        Some("ko")
    } else if (0x4e00 <= n && n <= 0x9fff) || (0x3400 <= n && n <= 0x4dbf) {
        Some("zh")
    } else if (0x3040 <= n && n <= 0x309f) || (0x30a0 <= n && n <= 0x30ff) {
        Some("ja")
    } else {
        None
    }
}

/// Detect a language from the Unicode script of a text: the first Hangul,
/// Han or kana character decides ("ko", "zh" or "ja"); `None` for text
/// without any of them (Latin script is ambiguous).
pub fn detect_language_from_text(text: &str) -> (r: Option<&'static str>)
    ensures
        match r {
            Some(code) => script_language(text@) == Some(code@),
            None => script_language(text@) is None,
        },
{
    let n = text.unicode_len();
    let mut i: usize = 0;
    while i < n
        invariant
            n == text@.len(),
            i <= n,
            script_language(text@) == script_language_from(text@, i as int),
        decreases n - i,
    {
        let c = text.get_char(i);
        match language_of_char(c) {
            Some(code) => {
                return Some(code);
            },
            None => {},
        }
        i += 1;
    }
    None
}

/// The system voice used for a language code, where one is chosen; `None`
/// for English and for unknown codes, which use the system default.
pub open spec fn voice_for(lang: Seq<char>) -> Option<Seq<char>> {
    if lang == "ko"@ {
        Some("Yuna"@)
    } else if lang == "ja"@ {
        Some("Kyoko"@)
    } else if lang == "zh"@ {
        Some("Ting-Ting"@)
    } else if lang == "es"@ {
        Some("Monica"@)
    } else if lang == "fr"@ {
        Some("Thomas"@)
    } else if lang == "de"@ {
        Some("Anna"@)
    } else if lang == "it"@ {
        Some("Alice"@)
    } else if lang == "pt"@ {
        Some("Luciana"@)
    } else if lang == "tr"@ {
        Some("Yelda"@)
    } else {
        None
    }
}

/// The system voice for a language code.
pub fn macos_voice_for_lang(lang: &str) -> (r: Option<&'static str>)
    ensures
        match r {
            Some(v) => voice_for(lang@) == Some(v@),
            None => voice_for(lang@) is None,
        },
{
    if str_eq(lang, "ko") {
        Some("Yuna")
    } else if str_eq(lang, "ja") {
        Some("Kyoko")
    } else if str_eq(lang, "zh") {
        Some("Ting-Ting")
    } else if str_eq(lang, "es") {
        Some("Monica")
    } else if str_eq(lang, "fr") {
        Some("Thomas")
    } else if str_eq(lang, "de") {
        Some("Anna")
    } else if str_eq(lang, "it") {
        Some("Alice")
    } else if str_eq(lang, "pt") {
        Some("Luciana")
    } else if str_eq(lang, "tr") {
        Some("Yelda")
    } else {
        None
    }
}

/// The speech recognizer's code for a language code: the codes of this
/// library are the recognizer's own, so every code maps to itself.
pub fn whisper_lang_code(lang: &str) -> (r: String)
    ensures
        r@ == lang@,
{
    crate::text::owned(lang)
}

} // verus!

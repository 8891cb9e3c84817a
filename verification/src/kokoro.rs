//! Token ids for the Kokoro voice model: each phoneme character known to
//! the model's vocabulary becomes its id, the sequence is cut to the
//! model's context and framed with the padding token, and the voice's style
//! vector is picked by the framed length.

use vstd::prelude::*;
use vstd::string::{StrSliceExecFns, StringExecFns};
use crate::prompt::{join, join_strs, push_decimal, decimal, views};
use crate::text::chars_of;

verus! {

/// The Kokoro v1.0 phoneme vocabulary: the token id of a phoneme
/// character, if the model knows it.
pub open spec fn kokoro_token(c: char) -> Option<i64> {
    match c {
        '$' => Some(0i64),
        ';' => Some(1i64),
        ':' => Some(2i64),
        ',' => Some(3i64),
        '.' => Some(4i64),
        '!' => Some(5i64),
        '?' => Some(6i64),
        '\u{2014}' => Some(9i64),
        '\u{2026}' => Some(10i64),
        '"' => Some(11i64),
        '(' => Some(12i64),
        ')' => Some(13i64),
        '\u{201C}' => Some(14i64),
        '\u{201D}' => Some(15i64),
        ' ' => Some(16i64),
        '\u{0303}' => Some(17i64),
        '\u{02A3}' => Some(18i64),
        '\u{02A5}' => Some(19i64),
        '\u{02A6}' => Some(20i64),
        '\u{02A8}' => Some(21i64),
        '\u{1D5D}' => Some(22i64),
        '\u{AB67}' => Some(23i64),
        'A' => Some(24i64),
        'I' => Some(25i64),
        'O' => Some(31i64),
        'Q' => Some(33i64),
        'S' => Some(35i64),
        'T' => Some(36i64),
        'W' => Some(39i64),
        'Y' => Some(41i64),
        '\u{1D4A}' => Some(42i64),
        'a' => Some(43i64),
        'b' => Some(44i64),
        'c' => Some(45i64),
        'd' => Some(46i64),
        'e' => Some(47i64),
        'f' => Some(48i64),
        'h' => Some(50i64),
        'i' => Some(51i64),
        'j' => Some(52i64),
        'k' => Some(53i64),
        'l' => Some(54i64),
        'm' => Some(55i64),
        'n' => Some(56i64),
        'o' => Some(57i64),
        'p' => Some(58i64),
        'q' => Some(59i64),
        'r' => Some(60i64),
        's' => Some(61i64),
        't' => Some(62i64),
        'u' => Some(63i64),
        'v' => Some(64i64),
        'w' => Some(65i64),
        'x' => Some(66i64),
        'y' => Some(67i64),
        'z' => Some(68i64),
        '\u{0251}' => Some(69i64),
        '\u{0250}' => Some(70i64),
        '\u{0252}' => Some(71i64),
        '\u{00E6}' => Some(72i64),
        '\u{03B2}' => Some(75i64),
        '\u{0254}' => Some(76i64),
        '\u{0255}' => Some(77i64),
        '\u{00E7}' => Some(78i64),
        '\u{0256}' => Some(80i64),
        '\u{00F0}' => Some(81i64),
        '\u{02A4}' => Some(82i64),
        '\u{0259}' => Some(83i64),
        '\u{025A}' => Some(85i64),
        '\u{025B}' => Some(86i64),
        '\u{025C}' => Some(87i64),
        '\u{025F}' => Some(90i64),
        '\u{0261}' => Some(92i64),
        '\u{0265}' => Some(99i64),
        '\u{0268}' => Some(101i64),
        '\u{026A}' => Some(102i64),
        '\u{029D}' => Some(103i64),
        '\u{026F}' => Some(110i64),
        '\u{0270}' => Some(111i64),
        '\u{014B}' => Some(112i64),
        '\u{0273}' => Some(113i64),
        '\u{0272}' => Some(114i64),
        '\u{0274}' => Some(115i64),
        '\u{00F8}' => Some(116i64),
        '\u{0278}' => Some(118i64),
        '\u{03B8}' => Some(119i64),
        '\u{0153}' => Some(120i64),
        '\u{0279}' => Some(123i64),
        '\u{027E}' => Some(125i64),
        '\u{027B}' => Some(126i64),
        '\u{0281}' => Some(128i64),
        '\u{027D}' => Some(129i64),
        '\u{0282}' => Some(130i64),
        '\u{0283}' => Some(131i64),
        '\u{0288}' => Some(132i64),
        '\u{02A7}' => Some(133i64),
        '\u{028A}' => Some(135i64),
        '\u{028B}' => Some(136i64),
        '\u{028C}' => Some(138i64),
        '\u{0263}' => Some(139i64),
        '\u{0264}' => Some(140i64),
        '\u{03C7}' => Some(142i64),
        '\u{028E}' => Some(143i64),
        '\u{0292}' => Some(147i64),
        '\u{0294}' => Some(148i64),
        '\u{02C8}' => Some(156i64),
        '\u{02CC}' => Some(157i64),
        '\u{02D0}' => Some(158i64),
        '\u{02B0}' => Some(162i64),
        '\u{02B2}' => Some(164i64),
        '\u{2193}' => Some(169i64),
        '\u{2192}' => Some(171i64),
        '\u{2197}' => Some(172i64),
        '\u{2198}' => Some(173i64),
        '\u{1D7B}' => Some(177i64),
        _ => None,
    }
}

/// The token id of a phoneme character.
pub fn kokoro_token_id(c: char) -> (r: Option<i64>)
    ensures
        r == kokoro_token(c),
{
    match c {
        '$' => Some(0i64),
        ';' => Some(1i64),
        ':' => Some(2i64),
        ',' => Some(3i64),
        '.' => Some(4i64),
        '!' => Some(5i64),
        '?' => Some(6i64),
        '\u{2014}' => Some(9i64),
        '\u{2026}' => Some(10i64),
        '"' => Some(11i64),
        '(' => Some(12i64),
        ')' => Some(13i64),
        '\u{201C}' => Some(14i64),
        '\u{201D}' => Some(15i64),
        ' ' => Some(16i64),
        '\u{0303}' => Some(17i64),
        '\u{02A3}' => Some(18i64),
        '\u{02A5}' => Some(19i64),
        '\u{02A6}' => Some(20i64),
        '\u{02A8}' => Some(21i64),
        '\u{1D5D}' => Some(22i64),
        '\u{AB67}' => Some(23i64),
        'A' => Some(24i64),
        'I' => Some(25i64),
        'O' => Some(31i64),
        'Q' => Some(33i64),
        'S' => Some(35i64),
        'T' => Some(36i64),
        'W' => Some(39i64),
        'Y' => Some(41i64),
        '\u{1D4A}' => Some(42i64),
        'a' => Some(43i64),
        'b' => Some(44i64),
        'c' => Some(45i64),
        'd' => Some(46i64),
        'e' => Some(47i64),
        'f' => Some(48i64),
        'h' => Some(50i64),
        'i' => Some(51i64),
        'j' => Some(52i64),
        'k' => Some(53i64),
        'l' => Some(54i64),
        'm' => Some(55i64),
        'n' => Some(56i64),
        'o' => Some(57i64),
        'p' => Some(58i64),
        'q' => Some(59i64),
        'r' => Some(60i64),
        's' => Some(61i64),
        't' => Some(62i64),
        'u' => Some(63i64),
        'v' => Some(64i64),
        'w' => Some(65i64),
        'x' => Some(66i64),
        'y' => Some(67i64),
        'z' => Some(68i64),
        '\u{0251}' => Some(69i64),
        '\u{0250}' => Some(70i64),
        '\u{0252}' => Some(71i64),
        '\u{00E6}' => Some(72i64),
        '\u{03B2}' => Some(75i64),
        '\u{0254}' => Some(76i64),
        '\u{0255}' => Some(77i64),
        '\u{00E7}' => Some(78i64),
        '\u{0256}' => Some(80i64),
        '\u{00F0}' => Some(81i64),
        '\u{02A4}' => Some(82i64),
        '\u{0259}' => Some(83i64),
        '\u{025A}' => Some(85i64),
        '\u{025B}' => Some(86i64),
        '\u{025C}' => Some(87i64),
        '\u{025F}' => Some(90i64),
        '\u{0261}' => Some(92i64),
        '\u{0265}' => Some(99i64),
        '\u{0268}' => Some(101i64),
        '\u{026A}' => Some(102i64),
        '\u{029D}' => Some(103i64),
        '\u{026F}' => Some(110i64),
        '\u{0270}' => Some(111i64),
        '\u{014B}' => Some(112i64),
        '\u{0273}' => Some(113i64),
        '\u{0272}' => Some(114i64),
        '\u{0274}' => Some(115i64),
        '\u{00F8}' => Some(116i64),
        '\u{0278}' => Some(118i64),
        '\u{03B8}' => Some(119i64),
        '\u{0153}' => Some(120i64),
        '\u{0279}' => Some(123i64),
        '\u{027E}' => Some(125i64),
        '\u{027B}' => Some(126i64),
        '\u{0281}' => Some(128i64),
        '\u{027D}' => Some(129i64),
        '\u{0282}' => Some(130i64),
        '\u{0283}' => Some(131i64),
        '\u{0288}' => Some(132i64),
        '\u{02A7}' => Some(133i64),
        '\u{028A}' => Some(135i64),
        '\u{028B}' => Some(136i64),
        '\u{028C}' => Some(138i64),
        '\u{0263}' => Some(139i64),
        '\u{0264}' => Some(140i64),
        '\u{03C7}' => Some(142i64),
        '\u{028E}' => Some(143i64),
        '\u{0292}' => Some(147i64),
        '\u{0294}' => Some(148i64),
        '\u{02C8}' => Some(156i64),
        '\u{02CC}' => Some(157i64),
        '\u{02D0}' => Some(158i64),
        '\u{02B0}' => Some(162i64),
        '\u{02B2}' => Some(164i64),
        '\u{2193}' => Some(169i64),
        '\u{2192}' => Some(171i64),
        '\u{2197}' => Some(172i64),
        '\u{2198}' => Some(173i64),
        '\u{1D7B}' => Some(177i64),
        _ => None,
    }
}

// ── The vocabulary ───────────────────────────────────────────────────────

/// The token ids of Kokoro v1.0's phoneme vocabulary: 0 to 6, 9 to 25, and
/// the ids its IPA symbols take up to 177.
pub open spec fn is_kokoro_id(k: i64) -> bool {
    (0 <= k <= 6) || (9 <= k <= 25) || k == 31 || k == 33 || (35 <= k <= 36) || k == 39 || (41 <= k <= 48) || (50 <= k <= 72) || (75 <= k <= 78) || (80 <= k <= 83) || (85 <= k <= 87) || k == 90 || k == 92 || k == 99 || (101 <= k <= 103) || (110 <= k <= 116) || (118 <= k <= 120) || k == 123 || (125 <= k <= 126) || (128 <= k <= 133) || (135 <= k <= 136) || (138 <= k <= 140) || (142 <= k <= 143) || (147 <= k <= 148) || (156 <= k <= 158) || k == 162 || k == 164 || k == 169 || (171 <= k <= 173) || k == 177
}

/// Law: every id of the vocabulary belongs to some phoneme character, and
/// every id a character gets is one of the vocabulary's.
pub proof fn lemma_kokoro_ids(k: i64, c: char)
    ensures
        is_kokoro_id(k) ==> exists|d: char| kokoro_token(d) == Some(k),
        kokoro_token(c) matches Some(j) ==> is_kokoro_id(j),
{
    if k == 0 {
        assert(kokoro_token('$') == Some(0i64));
    } else if k == 1 {
        assert(kokoro_token(';') == Some(1i64));
    } else if k == 2 {
        assert(kokoro_token(':') == Some(2i64));
    } else if k == 3 {
        assert(kokoro_token(',') == Some(3i64));
    } else if k == 4 {
        assert(kokoro_token('.') == Some(4i64));
    } else if k == 5 {
        assert(kokoro_token('!') == Some(5i64));
    } else if k == 6 {
        assert(kokoro_token('?') == Some(6i64));
    } else if k == 9 {
        assert(kokoro_token('\u{2014}') == Some(9i64));
    } else if k == 10 {
        assert(kokoro_token('\u{2026}') == Some(10i64));
    } else if k == 11 {
        assert(kokoro_token('"') == Some(11i64));
    } else if k == 12 {
        assert(kokoro_token('(') == Some(12i64));
    } else if k == 13 {
        assert(kokoro_token(')') == Some(13i64));
    } else if k == 14 {
        assert(kokoro_token('\u{201C}') == Some(14i64));
    } else if k == 15 {
        assert(kokoro_token('\u{201D}') == Some(15i64));
    } else if k == 16 {
        assert(kokoro_token(' ') == Some(16i64));
    } else if k == 17 {
        assert(kokoro_token('\u{0303}') == Some(17i64));
    } else if k == 18 {
        assert(kokoro_token('\u{02A3}') == Some(18i64));
    } else if k == 19 {
        assert(kokoro_token('\u{02A5}') == Some(19i64));
    } else if k == 20 {
        assert(kokoro_token('\u{02A6}') == Some(20i64));
    } else if k == 21 {
        assert(kokoro_token('\u{02A8}') == Some(21i64));
    } else if k == 22 {
        assert(kokoro_token('\u{1D5D}') == Some(22i64));
    } else if k == 23 {
        assert(kokoro_token('\u{AB67}') == Some(23i64));
    } else if k == 24 {
        assert(kokoro_token('A') == Some(24i64));
    } else if k == 25 {
        assert(kokoro_token('I') == Some(25i64));
    } else if k == 31 {
        assert(kokoro_token('O') == Some(31i64));
    } else if k == 33 {
        assert(kokoro_token('Q') == Some(33i64));
    } else if k == 35 {
        assert(kokoro_token('S') == Some(35i64));
    } else if k == 36 {
        assert(kokoro_token('T') == Some(36i64));
    } else if k == 39 {
        assert(kokoro_token('W') == Some(39i64));
    } else if k == 41 {
        assert(kokoro_token('Y') == Some(41i64));
    } else if k == 42 {
        assert(kokoro_token('\u{1D4A}') == Some(42i64));
    } else if k == 43 {
        assert(kokoro_token('a') == Some(43i64));
    } else if k == 44 {
        assert(kokoro_token('b') == Some(44i64));
    } else if k == 45 {
        assert(kokoro_token('c') == Some(45i64));
    } else if k == 46 {
        assert(kokoro_token('d') == Some(46i64));
    } else if k == 47 {
        assert(kokoro_token('e') == Some(47i64));
    } else if k == 48 {
        assert(kokoro_token('f') == Some(48i64));
    } else if k == 50 {
        assert(kokoro_token('h') == Some(50i64));
    } else if k == 51 {
        assert(kokoro_token('i') == Some(51i64));
    } else if k == 52 {
        assert(kokoro_token('j') == Some(52i64));
    } else if k == 53 {
        assert(kokoro_token('k') == Some(53i64));
    } else if k == 54 {
        assert(kokoro_token('l') == Some(54i64));
    } else if k == 55 {
        assert(kokoro_token('m') == Some(55i64));
    } else if k == 56 {
        assert(kokoro_token('n') == Some(56i64));
    } else if k == 57 {
        assert(kokoro_token('o') == Some(57i64));
    } else if k == 58 {
        assert(kokoro_token('p') == Some(58i64));
    } else if k == 59 {
        assert(kokoro_token('q') == Some(59i64));
    } else if k == 60 {
        assert(kokoro_token('r') == Some(60i64));
    } else if k == 61 {
        assert(kokoro_token('s') == Some(61i64));
    } else if k == 62 {
        assert(kokoro_token('t') == Some(62i64));
    } else if k == 63 {
        assert(kokoro_token('u') == Some(63i64));
    } else if k == 64 {
        assert(kokoro_token('v') == Some(64i64));
    } else if k == 65 {
        assert(kokoro_token('w') == Some(65i64));
    } else if k == 66 {
        assert(kokoro_token('x') == Some(66i64));
    } else if k == 67 {
        assert(kokoro_token('y') == Some(67i64));
    } else if k == 68 {
        assert(kokoro_token('z') == Some(68i64));
    } else if k == 69 {
        assert(kokoro_token('\u{0251}') == Some(69i64));
    } else if k == 70 {
        assert(kokoro_token('\u{0250}') == Some(70i64));
    } else if k == 71 {
        assert(kokoro_token('\u{0252}') == Some(71i64));
    } else if k == 72 {
        assert(kokoro_token('\u{00E6}') == Some(72i64));
    } else if k == 75 {
        assert(kokoro_token('\u{03B2}') == Some(75i64));
    } else if k == 76 {
        assert(kokoro_token('\u{0254}') == Some(76i64));
    } else if k == 77 {
        assert(kokoro_token('\u{0255}') == Some(77i64));
    } else if k == 78 {
        assert(kokoro_token('\u{00E7}') == Some(78i64));
    } else if k == 80 {
        assert(kokoro_token('\u{0256}') == Some(80i64));
    } else if k == 81 {
        assert(kokoro_token('\u{00F0}') == Some(81i64));
    } else if k == 82 {
        assert(kokoro_token('\u{02A4}') == Some(82i64));
    } else if k == 83 {
        assert(kokoro_token('\u{0259}') == Some(83i64));
    } else if k == 85 {
        assert(kokoro_token('\u{025A}') == Some(85i64));
    } else if k == 86 {
        assert(kokoro_token('\u{025B}') == Some(86i64));
    } else if k == 87 {
        assert(kokoro_token('\u{025C}') == Some(87i64));
    } else if k == 90 {
        assert(kokoro_token('\u{025F}') == Some(90i64));
    } else if k == 92 {
        assert(kokoro_token('\u{0261}') == Some(92i64));
    } else if k == 99 {
        assert(kokoro_token('\u{0265}') == Some(99i64));
    } else if k == 101 {
        assert(kokoro_token('\u{0268}') == Some(101i64));
    } else if k == 102 {
        assert(kokoro_token('\u{026A}') == Some(102i64));
    } else if k == 103 {
        assert(kokoro_token('\u{029D}') == Some(103i64));
    } else if k == 110 {
        assert(kokoro_token('\u{026F}') == Some(110i64));
    } else if k == 111 {
        assert(kokoro_token('\u{0270}') == Some(111i64));
    } else if k == 112 {
        assert(kokoro_token('\u{014B}') == Some(112i64));
    } else if k == 113 {
        assert(kokoro_token('\u{0273}') == Some(113i64));
    } else if k == 114 {
        assert(kokoro_token('\u{0272}') == Some(114i64));
    } else if k == 115 {
        assert(kokoro_token('\u{0274}') == Some(115i64));
    } else if k == 116 {
        assert(kokoro_token('\u{00F8}') == Some(116i64));
    } else if k == 118 {
        assert(kokoro_token('\u{0278}') == Some(118i64));
    } else if k == 119 {
        assert(kokoro_token('\u{03B8}') == Some(119i64));
    } else if k == 120 {
        assert(kokoro_token('\u{0153}') == Some(120i64));
    } else if k == 123 {
        assert(kokoro_token('\u{0279}') == Some(123i64));
    } else if k == 125 {
        assert(kokoro_token('\u{027E}') == Some(125i64));
    } else if k == 126 {
        assert(kokoro_token('\u{027B}') == Some(126i64));
    } else if k == 128 {
        assert(kokoro_token('\u{0281}') == Some(128i64));
    } else if k == 129 {
        assert(kokoro_token('\u{027D}') == Some(129i64));
    } else if k == 130 {
        assert(kokoro_token('\u{0282}') == Some(130i64));
    } else if k == 131 {
        assert(kokoro_token('\u{0283}') == Some(131i64));
    } else if k == 132 {
        assert(kokoro_token('\u{0288}') == Some(132i64));
    } else if k == 133 {
        assert(kokoro_token('\u{02A7}') == Some(133i64));
    } else if k == 135 {
        assert(kokoro_token('\u{028A}') == Some(135i64));
    } else if k == 136 {
        assert(kokoro_token('\u{028B}') == Some(136i64));
    } else if k == 138 {
        assert(kokoro_token('\u{028C}') == Some(138i64));
    } else if k == 139 {
        assert(kokoro_token('\u{0263}') == Some(139i64));
    } else if k == 140 {
        assert(kokoro_token('\u{0264}') == Some(140i64));
    } else if k == 142 {
        assert(kokoro_token('\u{03C7}') == Some(142i64));
    } else if k == 143 {
        assert(kokoro_token('\u{028E}') == Some(143i64));
    } else if k == 147 {
        assert(kokoro_token('\u{0292}') == Some(147i64));
    } else if k == 148 {
        assert(kokoro_token('\u{0294}') == Some(148i64));
    } else if k == 156 {
        assert(kokoro_token('\u{02C8}') == Some(156i64));
    } else if k == 157 {
        assert(kokoro_token('\u{02CC}') == Some(157i64));
    } else if k == 158 {
        assert(kokoro_token('\u{02D0}') == Some(158i64));
    } else if k == 162 {
        assert(kokoro_token('\u{02B0}') == Some(162i64));
    } else if k == 164 {
        assert(kokoro_token('\u{02B2}') == Some(164i64));
    } else if k == 169 {
        assert(kokoro_token('\u{2193}') == Some(169i64));
    } else if k == 171 {
        assert(kokoro_token('\u{2192}') == Some(171i64));
    } else if k == 172 {
        assert(kokoro_token('\u{2197}') == Some(172i64));
    } else if k == 173 {
        assert(kokoro_token('\u{2198}') == Some(173i64));
    } else if k == 177 {
        assert(kokoro_token('\u{1D7B}') == Some(177i64));
    }
}

/// Law: the lowercase ASCII letters other than `g` (whose phoneme is the
/// IPA `ɡ`) are ids 43 to 68 in alphabetical order.
pub proof fn lemma_kokoro_letters(c: char)
    requires
        'a' <= c <= 'z',
    ensures
        c != 'g' ==> kokoro_token(c) == Some((43 + (c as u32 - 'a' as u32)) as i64),
        c == 'g' ==> kokoro_token(c) is None,
{
}

/// Law: no two phoneme characters share an id.
pub proof fn lemma_kokoro_ids_distinct(c: char, d: char)
    requires
        kokoro_token(c) is Some,
        kokoro_token(c) == kokoro_token(d),
    ensures
        c == d,
{
}

/// Longest token sequence the model takes, before framing.
pub const MAX_TOKENS: usize = 510;

/// Floats in one style vector.
pub const STYLE_WIDTH: usize = 256;

/// The token ids of the known phoneme characters of `s`, in order; unknown
/// characters are dropped.
pub open spec fn token_ids(s: Seq<char>) -> Seq<i64>
    decreases s.len(),
{
    if s.len() == 0 {
        Seq::empty()
    } else {
        token_ids(s.drop_last()) + match kokoro_token(s.last()) {
            Some(t) => seq![t],
            None => Seq::empty(),
        }
    }
}

/// Convert a phoneme string to token ids, dropping unknown characters.
pub fn phonemize_to_tokens(phonemes: &str) -> (r: Vec<i64>)
    ensures
        r@ == token_ids(phonemes@),
{
    let v = chars_of(phonemes);
    let mut out: Vec<i64> = Vec::new();
    let mut i: usize = 0;
    while i < v.len()
        invariant
            i <= v@.len(),
            v@ == phonemes@,
            out@ == token_ids(v@.take(i as int)),
        decreases v@.len() - i,
    {
        assert(v@.take(i + 1).drop_last() == v@.take(i as int));
        let ghost before = out@;
        match kokoro_token_id(v[i]) {
            Some(t) => out.push(t),
            None => {},
        }
        assert(out@ =~= token_ids(v@.take(i + 1)));
        i += 1;
    }
    assert(v@.take(v@.len() as int) == v@);
    out
}

/// The model input for a token sequence: at most the first 510 tokens,
/// framed by the padding token 0 on both sides.
pub open spec fn framed(tokens: Seq<i64>) -> Seq<i64> {
    let kept = if tokens.len() > MAX_TOKENS as int {
        tokens.take(MAX_TOKENS as int)
    } else {
        tokens
    };
    seq![0i64] + kept + seq![0i64]
}

/// Frame a token sequence for the model.
pub fn frame_tokens(tokens: &Vec<i64>) -> (r: Vec<i64>)
    ensures
        r@ == framed(tokens@),
{
    let n = if tokens.len() > MAX_TOKENS {
        MAX_TOKENS
    } else {
        tokens.len()
    };
    let mut out: Vec<i64> = Vec::new();
    out.push(0);
    let mut i: usize = 0;
    while i < n
        invariant
            n <= tokens@.len(),
            i <= n,
            out@ == seq![0i64] + tokens@.take(i as int),
        decreases n - i,
    {
        out.push(tokens[i]);
        assert(tokens@.take(i + 1) == tokens@.take(i as int).push(tokens@[i as int]));
        assert(out@ =~= seq![0i64] + tokens@.take(i + 1));
        i += 1;
    }
    out.push(0);
    assert(tokens@.take(tokens@.len() as int) == tokens@);
    assert(out@ =~= framed(tokens@));
    out
}

/// The model input for the phonemized sentences of a text, or `None` where
/// there is nothing to say: no phonemes, or none the model knows.
pub open spec fn kokoro_input(sentences: Seq<Seq<char>>) -> Option<Seq<i64>> {
    let phonemes = join(sentences, " "@);
    if phonemes.len() == 0 || token_ids(phonemes).len() == 0 {
        None
    } else {
        Some(framed(token_ids(phonemes)))
    }
}

/// Law: two phonemized sentences are read as one phoneme string with a
/// single space between them.
pub proof fn lemma_kokoro_sentences_joined_by_space(s1: Seq<char>, s2: Seq<char>)
    ensures
        kokoro_input(seq![s1, s2]) == kokoro_input(seq![s1 + " "@ + s2]),
        kokoro_input(seq![s1, s2]) == (if token_ids(s1 + " "@ + s2).len() == 0 {
            None
        } else {
            Some(framed(token_ids(s1 + " "@ + s2)))
        }),
{
    assert(seq![s1, s2].drop_last() =~= seq![s1]);
    assert(seq![s1, s2].last() == s2);
    assert(seq![s1][0] == s1);
    assert(join(seq![s1], " "@) == s1);
    assert(seq![s1 + " "@ + s2][0] == s1 + " "@ + s2);
    assert(join(seq![s1, s2], " "@) == s1 + " "@ + s2);
    assert(join(seq![s1 + " "@ + s2], " "@) == s1 + " "@ + s2);
    reveal_strlit(" ");
    assert((s1 + " "@ + s2).len() > 0);
}

/// The token ids to run the model on, from the phonemized sentences of a
/// text.
pub fn kokoro_input_ids(phoneme_sentences: &[&str]) -> (r: Option<Vec<i64>>)
    ensures
        match r {
            Some(ids) => kokoro_input(views(phoneme_sentences@)) == Some(ids@),
            None => kokoro_input(views(phoneme_sentences@)) is None,
        },
{
    let phonemes = join_strs(phoneme_sentences, " ");
    if phonemes.as_str().unicode_len() == 0 {
        return None;
    }
    let tokens = phonemize_to_tokens(phonemes.as_str());
    if tokens.len() == 0 {
        return None;
    }
    Some(frame_tokens(&tokens))
}

/// Where the style vector for `token_count` framed tokens starts in voice
/// data of `voice_len` floats: the entry of that index, or the last entry
/// where there are fewer; `None` where the data does not hold it.
pub open spec fn style_offset(token_count: int, voice_len: int) -> Option<int> {
    let entries = voice_len / STYLE_WIDTH as int;
    let last = if entries >= 1 {
        entries - 1
    } else {
        0
    };
    let idx = if token_count < last {
        token_count
    } else {
        last
    };
    let offset = idx * STYLE_WIDTH as int;
    if offset + STYLE_WIDTH as int > voice_len {
        None
    } else {
        Some(offset)
    }
}

/// The start of the style vector for `token_count` framed tokens, or the
/// error where the voice data is too small.
pub fn style_vector_offset(token_count: usize, voice_len: usize) -> (r: Result<usize, String>)
    requires
        voice_len + STYLE_WIDTH <= usize::MAX,
    ensures
        match r {
            Ok(o) => style_offset(token_count as int, voice_len as int) == Some(o as int),
            Err(e) => style_offset(token_count as int, voice_len as int) is None
                && e@ == "voice data too small for this token count"@,
        },
{
    let max_entries = voice_len / STYLE_WIDTH;
    let last = if max_entries >= 1 {
        max_entries - 1
    } else {
        0
    };
    let idx = if token_count < last {
        token_count
    } else {
        last
    };
    assert(idx * 256 <= voice_len) by (nonlinear_arith)
        requires
            idx <= last,
            last == if max_entries >= 1 { max_entries - 1 } else { 0 },
            max_entries == voice_len / 256,
    ;
    let offset = idx * STYLE_WIDTH;
    if offset + STYLE_WIDTH > voice_len {
        Err(crate::text::owned("voice data too small for this token count"))
    } else {
        Ok(offset)
    }
}

/// The error for voice data of `byte_len` bytes that holds fewer than one
/// style vector of floats, `float_count` of them.
pub open spec fn voice_size_error(byte_len: nat, float_count: int) -> Option<Seq<char>> {
    if float_count < STYLE_WIDTH as int {
        Some("voice file too small: "@ + decimal(byte_len) + " bytes, expected at least 1024"@)
    } else {
        None
    }
}

/// Check that voice data holds at least one style vector.
pub fn check_voice_size(byte_len: u64, float_count: usize) -> (r: Result<(), String>)
    ensures
        match r {
            Ok(()) => voice_size_error(byte_len as nat, float_count as int) is None,
            Err(e) => voice_size_error(byte_len as nat, float_count as int) == Some(e@),
        },
{
    if float_count < STYLE_WIDTH {
        let mut e = String::new();
        e.append("voice file too small: ");
        push_decimal(&mut e, byte_len);
        e.append(" bytes, expected at least 1024");
        Err(e)
    } else {
        Ok(())
    }
}

} // verus!

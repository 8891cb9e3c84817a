//! Streaming parser that watches generated JSON text as it arrives and
//! extracts complete sentences of `tutor_message.target_lang` the moment they
//! form, so speech synthesis can start sentence by sentence without waiting
//! for the full response.
//!
//! The scanner is specified as a small-step machine (`step`) iterated to a
//! fixed point (`scan_from`).  A parser that has been fed some text is always
//! in the state that scanning that text from the start produces, whatever the
//! chunks were (`lemma_scan_resume`, `lemma_chunking_irrelevant`).
//!
//! Positions count characters.  Every marker the scanner looks for is ASCII,
//! so searching characters finds what searching UTF-8 bytes would.  The one place where bytes matter, the four bytes after `\u`, is
//! modelled with `utf8_len`.

use vstd::prelude::*;
use vstd::string::StrSliceExecFns;
use crate::text::{is_ws, is_whitespace, chars_of, is_scalar_value};

verus! {

// ── Character classes ─────────────────────────────────────────────────────

/// Sentence-boundary punctuation: `.`, `!`, `?`, `…`, the inverted `¡` and
/// `¿` that open a new sentence-level unit in Spanish, and a newline.
pub open spec fn is_terminator(c: char) -> bool {
    c == '.' || c == '!' || c == '?' || c == '…' || c == '¡' || c == '¿' || c == '\n'
}

/// Sentence-boundary punctuation for Spanish/English/French and the like.
/// Includes the inverted punctuation that starts Spanish exclamations and
/// questions, since those open a new sentence-level unit.  A newline also
/// counts.
pub fn is_sentence_terminator(c: char) -> (b: bool)
    ensures
        b == is_terminator(c),
{
    c == '.' || c == '!' || c == '?' || c == '…' || c == '¡' || c == '¿' || c == '\n'
}

/// Number of bytes of the UTF-8 encoding of `c`.
pub open spec fn utf8_len(c: char) -> int {
    let n = c as u32;
    if n < 0x80 {
        1
    } else if n < 0x800 {
        2
    } else if n < 0x10000 {
        3
    } else {
        4
    }
}

pub(crate) fn char_utf8_len(c: char) -> (n: usize)
    ensures
        n == utf8_len(c),
{
    let v = c as u32;
    if v < 0x80 {
        1
    } else if v < 0x800 {
        2
    } else if v < 0x10000 {
        3
    } else {
        4
    }
}

// ── Keys the scanner looks for ───────────────────────────────────────────

/// `"tutor_message"`, quotes included.
pub open spec fn tutor_message_key() -> Seq<char> {
    seq!['"', 't', 'u', 't', 'o', 'r', '_', 'm', 'e', 's', 's', 'a', 'g', 'e', '"']
}

/// `"target_lang"`, quotes included.
pub open spec fn target_lang_key() -> Seq<char> {
    seq!['"', 't', 'a', 'r', 'g', 'e', 't', '_', 'l', 'a', 'n', 'g', '"']
}

fn tutor_message_key_exec() -> (v: Vec<char>)
    ensures
        v@ == tutor_message_key(),
{
    let v = vec!['"', 't', 'u', 't', 'o', 'r', '_', 'm', 'e', 's', 's', 'a', 'g', 'e', '"'];
    assert(v@ == tutor_message_key());
    v
}

fn target_lang_key_exec() -> (v: Vec<char>)
    ensures
        v@ == target_lang_key(),
{
    let v = vec!['"', 't', 'a', 'r', 'g', 'e', 't', '_', 'l', 'a', 'n', 'g', '"'];
    assert(v@ == target_lang_key());
    v
}

// ── Substring search ─────────────────────────────────────────────────────

/// `needle` occurs in `hay` starting at index `i`.
pub open spec fn occurs_at(hay: Seq<char>, i: int, needle: Seq<char>) -> bool {
    0 <= i && i + needle.len() <= hay.len() && hay.subrange(i, i + needle.len()) == needle
}

/// First index at or after `from` where `needle` occurs; `None` when `from`
/// is past the end, the needle is empty, or there is no occurrence.
pub open spec fn find_spec(hay: Seq<char>, from: int, needle: Seq<char>) -> Option<int>
    decreases hay.len() - from,
{
    if from < 0 || from >= hay.len() || needle.len() == 0 || from + needle.len() > hay.len() {
        None
    } else if occurs_at(hay, from, needle) {
        Some(from)
    } else {
        find_spec(hay, from + 1, needle)
    }
}

/// A found index is an occurrence, and no earlier one exists from `from` on.
pub proof fn lemma_find_spec_first(hay: Seq<char>, from: int, needle: Seq<char>)
    ensures
        find_spec(hay, from, needle) matches Some(i) ==> {
            &&& from <= i
            &&& occurs_at(hay, i, needle)
            &&& forall|j: int| from <= j < i ==> !occurs_at(hay, j, needle)
        },
    decreases hay.len() - from,
{
    if from < 0 || from >= hay.len() || needle.len() == 0 || from + needle.len() > hay.len() {
    } else if occurs_at(hay, from, needle) {
    } else {
        lemma_find_spec_first(hay, from + 1, needle);
    }
}

/// A match found in a prefix is the match found once more text arrives.
pub proof fn lemma_find_spec_extend(hay: Seq<char>, ext: Seq<char>, from: int, needle: Seq<char>)
    requires
        find_spec(hay, from, needle) is Some,
    ensures
        find_spec(hay + ext, from, needle) == find_spec(hay, from, needle),
    decreases hay.len() - from,
{
    let h2 = hay + ext;
    assert(h2.subrange(from, from + needle.len()) == hay.subrange(from, from + needle.len()));
    if occurs_at(hay, from, needle) {
    } else {
        lemma_find_spec_extend(hay, ext, from + 1, needle);
    }
}

/// Substring search starting at `from` (a character index).
pub fn find_from(haystack: &Vec<char>, from: usize, needle: &Vec<char>) -> (r: Option<usize>)
    ensures
        r matches Some(i) ==> find_spec(haystack@, from as int, needle@) == Some(i as int),
        r is None ==> find_spec(haystack@, from as int, needle@) is None,
{
    let n = needle.len();
    let len = haystack.len();
    if from >= len || n == 0 || n > len {
        return None;
    }
    let mut i = from;
    while i <= len - n
        invariant
            from <= i,
            n == needle@.len(),
            len == haystack@.len(),
            0 < n <= len,
            from < len,
            find_spec(haystack@, from as int, needle@) == find_spec(haystack@, i as int, needle@),
        decreases len - i,
    {
        let mut j: usize = 0;
        let mut same = true;
        while j < n
            invariant
                i + n <= len,
                n == needle@.len(),
                len == haystack@.len(),
                j <= n,
                same == (forall|k: int| 0 <= k < j ==> haystack@[i + k] == needle@[k]),
            decreases n - j,
        {
            if haystack[i + j] != needle[j] {
                same = false;
            }
            j += 1;
        }
        if same {
            assert(haystack@.subrange(i as int, i + n) == needle@);
            return Some(i);
        } else {
            assert(!occurs_at(haystack@, i as int, needle@)) by {
                if occurs_at(haystack@, i as int, needle@) {
                    assert forall|k: int| 0 <= k < n implies haystack@[i + k] == needle@[k] by {
                        assert(haystack@.subrange(i as int, i + n)[k] == haystack@[i + k]);
                    }
                }
            }
        }
        i += 1;
    }
    None
}

// ── The `\uXXXX` escape ─────────────────────────────────────────────────

/// How the four bytes that follow `\u` split into characters: the text may
/// still be too short (`Short`), a character may straddle the fourth byte
/// (`Straddle`, where byte slicing would fail), or the first `k` characters
/// hold exactly four bytes (`Span(k)`).
pub enum HexSpan {
    Short,
    Straddle,
    Span(int),
}

/// Split of the first `budget` bytes of `s` into whole characters.
pub open spec fn hex_span(s: Seq<char>, budget: int) -> HexSpan
    decreases s.len(),
{
    if budget <= 0 {
        HexSpan::Span(0)
    } else if s.len() == 0 {
        HexSpan::Short
    } else if utf8_len(s[0]) > budget {
        HexSpan::Straddle
    } else {
        match hex_span(s.drop_first(), budget - utf8_len(s[0])) {
            HexSpan::Span(k) => HexSpan::Span(k + 1),
            r => r,
        }
    }
}

/// A span found with `k` characters uses at most `budget` characters of `s`.
pub proof fn lemma_hex_span_bounds(s: Seq<char>, budget: int)
    ensures
        hex_span(s, budget) matches HexSpan::Span(k) ==> {
            &&& 0 <= k <= s.len()
            &&& budget > 0 ==> 0 < k <= budget
        },
    decreases s.len(),
{
    if budget <= 0 {
    } else if s.len() == 0 {
    } else if utf8_len(s[0]) > budget {
    } else {
        lemma_hex_span_bounds(s.drop_first(), budget - utf8_len(s[0]));
    }
}

/// Once decided, the split does not change when more text arrives.
pub proof fn lemma_hex_span_extend(s: Seq<char>, ext: Seq<char>, budget: int)
    requires
        !(hex_span(s, budget) is Short),
    ensures
        hex_span(s + ext, budget) == hex_span(s, budget),
    decreases s.len(),
{
    if budget <= 0 {
    } else if s.len() == 0 {
    } else {
        assert((s + ext)[0] == s[0]);
        if utf8_len(s[0]) > budget {
        } else {
            assert((s + ext).drop_first() == s.drop_first() + ext);
            lemma_hex_span_extend(s.drop_first(), ext, budget - utf8_len(s[0]));
        }
    }
}

/// Value of a hexadecimal digit.
pub open spec fn hex_digit(c: char) -> Option<int> {
    if '0' <= c && c <= '9' {
        Some(c as int - '0' as int)
    } else if 'a' <= c && c <= 'f' {
        Some(c as int - 'a' as int + 10)
    } else if 'A' <= c && c <= 'F' {
        Some(c as int - 'A' as int + 10)
    } else {
        None
    }
}

/// Value of a sequence of hexadecimal digits.
pub open spec fn hex_digits_value(d: Seq<char>) -> Option<int>
    decreases d.len(),
{
    if d.len() == 0 {
        Some(0)
    } else {
        match (hex_digits_value(d.drop_last()), hex_digit(d.last())) {
            (Some(a), Some(b)) => Some(a * 16 + b),
            _ => None,
        }
    }
}

/// `u32::from_str_radix(h, 16)`: an optional `+` followed by at least one
/// hexadecimal digit, with a value that fits in a `u32`.
pub open spec fn from_hex_str(h: Seq<char>) -> Option<int> {
    let d = if h.len() > 0 && h[0] == '+' { h.drop_first() } else { h };
    if d.len() == 0 {
        None
    } else {
        match hex_digits_value(d) {
            Some(v) => if v <= u32::MAX { Some(v) } else { None },
            None => None,
        }
    }
}

/// The character a `\u` escape with hex text `h` produces, if any.
pub open spec fn decode_unicode_escape(h: Seq<char>) -> Option<char> {
    match from_hex_str(h) {
        Some(v) => if is_scalar_value(v as u32) { Some((v as u32) as char) } else { None },
        None => None,
    }
}

/// The character a simple escape `\\c` produces.
pub open spec fn unescape(c: char) -> char {
    if c == 'n' {
        '\n'
    } else if c == 't' {
        '\t'
    } else if c == 'r' {
        '\r'
    } else {
        c
    }
}

// ── The scanner as a small-step machine ──────────────────────────────────

/// Where the scanner is relative to the JSON being emitted.
#[derive(Debug, Clone, Copy, PartialEq, Eq, Structural)]
pub enum ScanState {
    /// Has not located `"tutor_message"` yet.
    SearchingTutorMessage,
    /// Inside the `tutor_message` object, searching for `"target_lang"`.
    SearchingTargetLang,
    /// Located `"target_lang"`; waiting for the opening quote.
    AwaitingOpenQuote,
    /// Inside the string value; characters go to the captured text.
    InsideString,
    /// The last character was a backslash inside the string.
    InsideStringEscape,
    /// Seen the closing quote; nothing more is captured.
    Finished,
}

/// One move of the scanner: wait for more text, fail (where byte slicing of
/// the text would fail), or advance to a new state and position, possibly
/// emitting one captured character.
pub enum Step {
    Stop,
    Panic,
    Advance(ScanState, int, Option<char>),
}

/// The move the scanner makes in state `st` at position `pos` of `buf`.
pub open spec fn step(st: ScanState, buf: Seq<char>, pos: int) -> Step {
    if pos < 0 || pos >= buf.len() {
        Step::Stop
    } else {
        match st {
            ScanState::SearchingTutorMessage => match find_spec(buf, pos, tutor_message_key()) {
                Some(i) => Step::Advance(
                    ScanState::SearchingTargetLang,
                    i + tutor_message_key().len(),
                    None,
                ),
                None => Step::Stop,
            },
            ScanState::SearchingTargetLang => match find_spec(buf, pos, target_lang_key()) {
                Some(i) => Step::Advance(
                    ScanState::AwaitingOpenQuote,
                    i + target_lang_key().len(),
                    None,
                ),
                None => Step::Stop,
            },
            ScanState::AwaitingOpenQuote => if buf[pos] == '"' {
                Step::Advance(ScanState::InsideString, pos + 1, None)
            } else {
                Step::Advance(ScanState::AwaitingOpenQuote, pos + 1, None)
            },
            ScanState::InsideString => if buf[pos] == '\\' {
                Step::Advance(ScanState::InsideStringEscape, pos + 1, None)
            } else if buf[pos] == '"' {
                Step::Advance(ScanState::Finished, pos + 1, None)
            } else {
                Step::Advance(ScanState::InsideString, pos + 1, Some(buf[pos]))
            },
            ScanState::InsideStringEscape => if buf[pos] == 'u' {
                match hex_span(buf.subrange(pos + 1, buf.len() as int), 4) {
                    HexSpan::Short => Step::Stop,
                    HexSpan::Straddle => Step::Panic,
                    HexSpan::Span(k) => Step::Advance(
                        ScanState::InsideString,
                        pos + 1 + k,
                        decode_unicode_escape(buf.subrange(pos + 1, pos + 1 + k)),
                    ),
                }
            } else {
                Step::Advance(ScanState::InsideString, pos + 1, Some(unescape(buf[pos])))
            },
            ScanState::Finished => Step::Stop,
        }
    }
}

/// The characters an optional emitted character contributes.
pub open spec fn opt_seq(o: Option<char>) -> Seq<char> {
    match o {
        Some(c) => seq![c],
        None => Seq::empty(),
    }
}

/// Result of scanning to a fixed point.
pub struct Scanned {
    pub panicked: bool,
    pub state: ScanState,
    pub pos: int,
    pub out: Seq<char>,
}

/// Scan `buf` from state `st` at `pos` until the scanner waits for more text
/// (or fails); `out` is everything captured on the way.
pub open spec fn scan_from(st: ScanState, buf: Seq<char>, pos: int) -> Scanned
    decreases buf.len() - pos,
{
    match step(st, buf, pos) {
        Step::Stop => Scanned { panicked: false, state: st, pos, out: Seq::empty() },
        Step::Panic => Scanned { panicked: true, state: st, pos, out: Seq::empty() },
        Step::Advance(st2, p2, o) => if pos < p2 <= buf.len() {
            let r = scan_from(st2, buf, p2);
            Scanned { panicked: r.panicked, state: r.state, pos: r.pos, out: opt_seq(o) + r.out }
        } else {
            Scanned { panicked: false, state: st, pos, out: Seq::empty() }
        },
    }
}

/// The scanner run over a whole text from the beginning.
pub open spec fn parse(text: Seq<char>) -> Scanned {
    scan_from(ScanState::SearchingTutorMessage, text, 0)
}

/// Every advance moves forward and stays within the text.
pub proof fn lemma_step_bounds(st: ScanState, buf: Seq<char>, pos: int)
    ensures
        step(st, buf, pos) matches Step::Advance(_, p2, _) ==> pos < p2 <= buf.len(),
{
    if 0 <= pos < buf.len() {
        match st {
            ScanState::SearchingTutorMessage => {
                lemma_find_spec_first(buf, pos, tutor_message_key());
            },
            ScanState::SearchingTargetLang => {
                lemma_find_spec_first(buf, pos, target_lang_key());
            },
            ScanState::InsideStringEscape => {
                lemma_hex_span_bounds(buf.subrange(pos + 1, buf.len() as int), 4);
            },
            _ => {},
        }
    }
}

/// A move that advances or fails is the same move once more text arrives.
pub proof fn lemma_step_extend(st: ScanState, buf: Seq<char>, ext: Seq<char>, pos: int)
    requires
        !(step(st, buf, pos) is Stop),
    ensures
        step(st, buf + ext, pos) == step(st, buf, pos),
{
    let b2 = buf + ext;
    assert(b2[pos] == buf[pos]);
    match st {
        ScanState::SearchingTutorMessage => {
            lemma_find_spec_extend(buf, ext, pos, tutor_message_key());
        },
        ScanState::SearchingTargetLang => {
            lemma_find_spec_extend(buf, ext, pos, target_lang_key());
        },
        ScanState::InsideStringEscape => {
            if buf[pos] == 'u' {
                let s = buf.subrange(pos + 1, buf.len() as int);
                assert(b2.subrange(pos + 1, b2.len() as int) == s + ext);
                lemma_hex_span_extend(s, ext, 4);
                lemma_hex_span_bounds(s, 4);
                if let HexSpan::Span(k) = hex_span(s, 4) {
                    assert(b2.subrange(pos + 1, pos + 1 + k) == buf.subrange(pos + 1, pos + 1 + k));
                }
            }
        },
        _ => {},
    }
}

/// Resuming: scanning a longer text gives what scanning the shorter text gave,
/// followed by what scanning the longer text gives from where the shorter
/// scan stopped.  A failure on the shorter text is a failure on the longer.
pub proof fn lemma_scan_resume(st: ScanState, buf: Seq<char>, ext: Seq<char>, pos: int)
    ensures
        ({
            let r = scan_from(st, buf, pos);
            let full = scan_from(st, buf + ext, pos);
            if r.panicked {
                full.panicked
            } else {
                let rest = scan_from(r.state, buf + ext, r.pos);
                full == Scanned { out: r.out + rest.out, ..rest }
            }
        }),
    decreases buf.len() - pos,
{
    let r = scan_from(st, buf, pos);
    lemma_step_bounds(st, buf, pos);
    match step(st, buf, pos) {
        Step::Stop => {
            let rest = scan_from(st, buf + ext, pos);
            assert(r.out + rest.out == rest.out);
        },
        Step::Panic => {
            lemma_step_extend(st, buf, ext, pos);
        },
        Step::Advance(st2, p2, o) => {
            lemma_step_extend(st, buf, ext, pos);
            lemma_scan_resume(st2, buf, ext, p2);
            let r2 = scan_from(st2, buf, p2);
            if !r2.panicked {
                let rest = scan_from(r2.state, buf + ext, r2.pos);
                assert(opt_seq(o) + (r2.out + rest.out) == (opt_seq(o) + r2.out) + rest.out);
            }
        },
    }
}

// ── Sentence cutting ─────────────────────────────────────────────────────

/// `s` without its leading White_Space characters.
pub open spec fn trim_start(s: Seq<char>) -> Seq<char>
    decreases s.len(),
{
    if s.len() > 0 && is_ws(s[0]) {
        trim_start(s.drop_first())
    } else {
        s
    }
}

/// `s` without its trailing White_Space characters.
pub open spec fn trim_end(s: Seq<char>) -> Seq<char>
    decreases s.len(),
{
    if s.len() > 0 && is_ws(s.last()) {
        trim_end(s.drop_last())
    } else {
        s
    }
}

/// `str::trim`: `s` without leading and trailing White_Space characters.
pub open spec fn trim(s: Seq<char>) -> Seq<char> {
    trim_end(trim_start(s))
}

/// End of the run of terminators that starts at `i`.
pub open spec fn terminator_run_end(r: Seq<char>, i: int) -> int
    decreases r.len() - i,
{
    if 0 <= i < r.len() && is_terminator(r[i]) {
        terminator_run_end(r, i + 1)
    } else {
        i
    }
}

/// End of the run of White_Space characters that starts at `i`.
pub open spec fn ws_run_end(r: Seq<char>, i: int) -> int
    decreases r.len() - i,
{
    if 0 <= i < r.len() && is_ws(r[i]) {
        ws_run_end(r, i + 1)
    } else {
        i
    }
}

/// A run ends at or after where it starts, and within the text.
pub proof fn lemma_run_ends(r: Seq<char>, i: int)
    requires
        0 <= i <= r.len(),
    ensures
        i <= terminator_run_end(r, i) <= r.len(),
        i <= ws_run_end(r, i) <= r.len(),
        forall|j: int| i <= j < terminator_run_end(r, i) ==> is_terminator(#[trigger] r[j]),
        forall|j: int| i <= j < ws_run_end(r, i) ==> is_ws(#[trigger] r[j]),
        terminator_run_end(r, i) < r.len() ==> !is_terminator(r[terminator_run_end(r, i)]),
        ws_run_end(r, i) < r.len() ==> !is_ws(r[ws_run_end(r, i)]),
    decreases r.len() - i,
{
    if i < r.len() {
        lemma_run_ends(r, i + 1);
    }
}

/// The text from the last cut up to the end of a terminator run, trimmed;
/// empty where the run lies in the White_Space already skipped after the
/// last cut (a newline there).
pub open spec fn cut_piece(r: Seq<char>, last_cut: int, end: int) -> Seq<char> {
    if last_cut <= end {
        trim(r.subrange(last_cut, end))
    } else {
        Seq::empty()
    }
}

/// The sentence list and new cut position for remaining text `r`, scanning
/// from index `i` with the last cut at `last_cut`.  A run of terminators
/// closes a sentence when a White_Space character follows it, or when it
/// ends the text and the string is finished; the sentence is the trimmed
/// text since the last cut, and the next cut skips the White_Space that
/// follows.  When the string is finished, the rest is a final sentence.
/// Empty sentences are dropped.
pub open spec fn cut_from(r: Seq<char>, fin: bool, i: int, last_cut: int) -> (Seq<Seq<char>>, int)
    decreases r.len() - i,
{
    if i < 0 || i >= r.len() {
        if fin && last_cut < r.len() {
            let t = trim(r.subrange(last_cut, r.len() as int));
            (if t.len() > 0 { seq![t] } else { Seq::empty() }, r.len() as int)
        } else {
            (Seq::empty(), last_cut)
        }
    } else if !is_terminator(r[i]) {
        cut_from(r, fin, i + 1, last_cut)
    } else {
        let end = terminator_run_end(r, i + 1);
        if end <= i || end > r.len() {
            (Seq::empty(), last_cut)
        } else {
            let committed = if end < r.len() { is_ws(r[end]) } else { fin };
            if committed {
                let sent = cut_piece(r, last_cut, end);
                let rest = cut_from(r, fin, end, ws_run_end(r, end));
                (if sent.len() > 0 { seq![sent] + rest.0 } else { rest.0 }, rest.1)
            } else {
                cut_from(r, fin, end, last_cut)
            }
        }
    }
}

/// The sentences ready in remaining text `r` and how far they reach.
pub open spec fn cut_sentences(r: Seq<char>, fin: bool) -> (Seq<Seq<char>>, int) {
    cut_from(r, fin, 0, 0)
}

/// `trim_start` removes exactly the leading White_Space run.
pub proof fn lemma_trim_start_at(s: Seq<char>, k: int)
    requires
        0 <= k <= s.len(),
        forall|j: int| 0 <= j < k ==> is_ws(#[trigger] s[j]),
        k == s.len() || !is_ws(s[k]),
    ensures
        trim_start(s) == s.subrange(k, s.len() as int),
    decreases k,
{
    if k == 0 {
        assert(s.subrange(0, s.len() as int) == s);
    } else {
        let t = s.drop_first();
        assert forall|j: int| 0 <= j < k - 1 implies is_ws(#[trigger] t[j]) by {
            assert(t[j] == s[j + 1]);
        }
        if k < s.len() {
            assert(t[k - 1] == s[k]);
        }
        lemma_trim_start_at(t, k - 1);
        assert(t.subrange(k - 1, t.len() as int) == s.subrange(k, s.len() as int));
    }
}

/// `trim_end` removes exactly the trailing White_Space run.
pub proof fn lemma_trim_end_at(t: Seq<char>, m: int)
    requires
        0 <= m <= t.len(),
        forall|j: int| m <= j < t.len() ==> is_ws(#[trigger] t[j]),
        m == 0 || !is_ws(t[m - 1]),
    ensures
        trim_end(t) == t.subrange(0, m),
    decreases t.len() - m,
{
    if m == t.len() {
        assert(t.subrange(0, t.len() as int) == t);
    } else {
        let u = t.drop_last();
        assert forall|j: int| m <= j < u.len() implies is_ws(#[trigger] u[j]) by {
            assert(u[j] == t[j]);
        }
        if m > 0 {
            assert(u[m - 1] == t[m - 1]);
        }
        lemma_trim_end_at(u, m);
        assert(u.subrange(0, m) == t.subrange(0, m));
    }
}

/// The cut position never moves backwards and stays within the text.
pub proof fn lemma_cut_from_bounds(r: Seq<char>, fin: bool, i: int, last_cut: int)
    requires
        0 <= last_cut <= r.len(),
    ensures
        0 <= cut_from(r, fin, i, last_cut).1 <= r.len(),
        fin ==> cut_from(r, fin, i, last_cut).1 == r.len(),
    decreases r.len() - i,
{
    if i < 0 || i >= r.len() {
    } else if !is_terminator(r[i]) {
        lemma_cut_from_bounds(r, fin, i + 1, last_cut);
    } else {
        let end = terminator_run_end(r, i + 1);
        lemma_run_ends(r, i + 1);
        if end <= i || end > r.len() {
        } else {
            let committed = if end < r.len() { is_ws(r[end]) } else { fin };
            if committed {
                lemma_run_ends(r, end);
                lemma_cut_from_bounds(r, fin, end, ws_run_end(r, end));
            } else {
                lemma_cut_from_bounds(r, fin, end, last_cut);
            }
        }
    }
}

/// A sentence as handed out: not empty, no White_Space at either end.
pub open spec fn is_clean_sentence(t: Seq<char>) -> bool {
    t.len() > 0 && !is_ws(t[0]) && !is_ws(t.last())
}

proof fn lemma_trim_start_first(s: Seq<char>)
    ensures
        trim_start(s).len() > 0 ==> !is_ws(trim_start(s)[0]),
        trim_start(s).len() <= s.len(),
    decreases s.len(),
{
    if s.len() > 0 && is_ws(s[0]) {
        lemma_trim_start_first(s.drop_first());
    }
}

proof fn lemma_trim_end_prefix(t: Seq<char>)
    ensures
        trim_end(t).len() <= t.len(),
        forall|j: int| 0 <= j < trim_end(t).len() ==> trim_end(t)[j] == t[j],
        trim_end(t).len() > 0 ==> !is_ws(trim_end(t).last()),
    decreases t.len(),
{
    if t.len() > 0 && is_ws(t.last()) {
        let u = t.drop_last();
        lemma_trim_end_prefix(u);
        assert forall|j: int| 0 <= j < trim_end(t).len() implies trim_end(t)[j] == t[j] by {
            assert(trim_end(t)[j] == u[j]);
        }
    }
}

/// A non-empty trimmed text has no White_Space at either end.
pub proof fn lemma_trim_clean(s: Seq<char>)
    ensures
        trim(s).len() > 0 ==> is_clean_sentence(trim(s)),
{
    lemma_trim_start_first(s);
    lemma_trim_end_prefix(trim_start(s));
}

/// Every sentence the cutter produces is clean.
pub proof fn lemma_cut_from_clean(r: Seq<char>, fin: bool, i: int, last_cut: int)
    ensures
        forall|k: int| 0 <= k < cut_from(r, fin, i, last_cut).0.len() ==> is_clean_sentence(
            #[trigger] cut_from(r, fin, i, last_cut).0[k],
        ),
    decreases r.len() - i,
{
    let res = cut_from(r, fin, i, last_cut);
    if i < 0 || i >= r.len() {
        if fin && last_cut < r.len() {
            let t = trim(r.subrange(last_cut, r.len() as int));
            lemma_trim_clean(r.subrange(last_cut, r.len() as int));
            if t.len() > 0 {
                assert(res.0 == seq![t]);
                assert(res.0[0] == t);
            } else {
                assert(res.0.len() == 0);
            }
        } else {
            assert(res.0.len() == 0);
        }
    } else if !is_terminator(r[i]) {
        lemma_cut_from_clean(r, fin, i + 1, last_cut);
        assert(res == cut_from(r, fin, i + 1, last_cut));
    } else {
        let end = terminator_run_end(r, i + 1);
        if end <= i || end > r.len() {
            assert(res.0.len() == 0);
        } else {
            let committed = if end < r.len() { is_ws(r[end]) } else { fin };
            if committed {
                let sent = cut_piece(r, last_cut, end);
                if last_cut <= end {
                    lemma_trim_clean(r.subrange(last_cut, end));
                }
                lemma_cut_from_clean(r, fin, end, ws_run_end(r, end));
                let rest = cut_from(r, fin, end, ws_run_end(r, end));
                if sent.len() > 0 {
                    assert(res.0 == seq![sent] + rest.0);
                    assert forall|k: int| 0 <= k < res.0.len() implies is_clean_sentence(
                        #[trigger] res.0[k],
                    ) by {
                        if k > 0 {
                            assert(res.0[k] == rest.0[k - 1]);
                        } else {
                            assert(res.0[k] == sent);
                        }
                    }
                } else {
                    assert(res.0 == rest.0);
                }
            } else {
                lemma_cut_from_clean(r, fin, end, last_cut);
                assert(res == cut_from(r, fin, end, last_cut));
            }
        }
    }
}

/// Law: every sentence handed out is non-empty and has no leading or
/// trailing whitespace.
pub proof fn lemma_sentences_clean(r: Seq<char>, fin: bool)
    ensures
        forall|k: int| 0 <= k < cut_sentences(r, fin).0.len() ==> is_clean_sentence(
            #[trigger] cut_sentences(r, fin).0[k],
        ),
{
    lemma_cut_from_clean(r, fin, 0, 0);
}

/// Law: once the string is finished, taking sentences hands out all of the
/// pending text.
pub proof fn lemma_finished_drains(r: Seq<char>)
    ensures
        cut_sentences(r, true).1 == r.len(),
{
    lemma_cut_from_bounds(r, true, 0, 0);
}

/// Law: with nothing pending there is nothing to hand out.
pub proof fn lemma_nothing_pending(fin: bool)
    ensures
        cut_sentences(Seq::<char>::empty(), fin) == (Seq::<Seq<char>>::empty(), 0int),
{
}

/// Law: more text only extends what was captured, and after the closing
/// quote nothing more is captured.
pub proof fn lemma_capture_grows(a: Seq<char>, b: Seq<char>)
    requires
        !parse(a + b).panicked,
    ensures
        !parse(a).panicked,
        parse(a).out.len() <= parse(a + b).out.len(),
        parse(a + b).out.subrange(0, parse(a).out.len() as int) == parse(a).out,
        parse(a).state == ScanState::Finished ==> parse(a + b).out == parse(a).out && parse(
            a + b,
        ).state == ScanState::Finished,
{
    lemma_scan_resume(ScanState::SearchingTutorMessage, a, b, 0);
    let ra = parse(a);
    if !ra.panicked {
        let rest = scan_from(ra.state, a + b, ra.pos);
        assert((ra.out + rest.out).subrange(0, ra.out.len() as int) == ra.out);
        if ra.state == ScanState::Finished {
            assert(ra.out + Seq::<char>::empty() == ra.out);
        }
    }
}

/// Law: feeding the text in chunks or all at once leaves the parser in the
/// same state: what it captured and whether it finished depend only on the
/// concatenation of the chunks.
pub proof fn lemma_chunking_irrelevant(p: &StreamingJsonParser, q: &StreamingJsonParser)
    requires
        p.wf(),
        q.wf(),
        p.text() == q.text(),
    ensures
        p.captured_text() == q.captured_text(),
        p.done() == q.done(),
{
}

// ── Locating the JSON object ─────────────────────────────────────────────

/// Scanning for the first top-level `{...}`: position `i`, brace depth,
/// whether inside a string, whether the last character was a backslash
/// inside a string, and where the current top-level object started.  A
/// closing brace outside any object is stray text before the object and is
/// skipped.  Returns the object's first and last index.
pub open spec fn object_scan(
    s: Seq<char>,
    i: int,
    depth: int,
    in_str: bool,
    escape: bool,
    start: Option<int>,
) -> Option<(int, int)>
    decreases s.len() - i,
{
    if i < 0 || i >= s.len() {
        None
    } else {
        let c = s[i];
        if in_str {
            if escape {
                object_scan(s, i + 1, depth, true, false, start)
            } else if c == '\\' {
                object_scan(s, i + 1, depth, true, true, start)
            } else if c == '"' {
                object_scan(s, i + 1, depth, false, false, start)
            } else {
                object_scan(s, i + 1, depth, true, false, start)
            }
        } else if c == '"' {
            object_scan(s, i + 1, depth, true, escape, start)
        } else if c == '{' {
            object_scan(s, i + 1, depth + 1, false, escape, if depth == 0 { Some(i) } else { start })
        } else if c == '}' {
            if depth <= 0 {
                object_scan(s, i + 1, depth, false, escape, start)
            } else if depth - 1 == 0 && start is Some {
                Some((start->0, i))
            } else {
                object_scan(s, i + 1, depth - 1, false, escape, start)
            }
        } else {
            object_scan(s, i + 1, depth, false, escape, start)
        }
    }
}

/// The first top-level JSON object in `s`, as first and last index.
pub open spec fn json_object_span(s: Seq<char>) -> Option<(int, int)> {
    object_scan(s, 0, 0, false, false, None)
}

proof fn lemma_object_scan_shape(
    s: Seq<char>,
    i: int,
    depth: int,
    in_str: bool,
    escape: bool,
    start: Option<int>,
)
    requires
        start matches Some(a) ==> 0 <= a < i && s[a] == '{',
    ensures
        object_scan(s, i, depth, in_str, escape, start) matches Some((a, b)) ==> {
            &&& 0 <= a < b < s.len()
            &&& s[a] == '{'
            &&& s[b] == '}'
        },
    decreases s.len() - i,
{
    if i < 0 || i >= s.len() {
    } else {
        let c = s[i];
        if in_str {
            if escape {
                lemma_object_scan_shape(s, i + 1, depth, true, false, start);
            } else if c == '\\' {
                lemma_object_scan_shape(s, i + 1, depth, true, true, start);
            } else if c == '"' {
                lemma_object_scan_shape(s, i + 1, depth, false, false, start);
            } else {
                lemma_object_scan_shape(s, i + 1, depth, true, false, start);
            }
        } else if c == '"' {
            lemma_object_scan_shape(s, i + 1, depth, true, escape, start);
        } else if c == '{' {
            lemma_object_scan_shape(
                s,
                i + 1,
                depth + 1,
                false,
                escape,
                if depth == 0 { Some(i) } else { start },
            );
        } else if c == '}' {
            if depth <= 0 {
                lemma_object_scan_shape(s, i + 1, depth, false, escape, start);
            } else if depth - 1 == 0 && start is Some {
            } else {
                lemma_object_scan_shape(s, i + 1, depth - 1, false, escape, start);
            }
        } else {
            lemma_object_scan_shape(s, i + 1, depth, false, escape, start);
        }
    }
}

/// Law: a located object starts with `{` and ends with `}`.
pub proof fn lemma_json_object_shape(s: Seq<char>)
    ensures
        json_object_span(s) matches Some((a, b)) ==> {
            &&& 0 <= a < b < s.len()
            &&& s[a] == '{'
            &&& s[b] == '}'
        },
{
    lemma_object_scan_shape(s, 0, 0, false, false, None);
}

// ── Executable scanner ───────────────────────────────────────────────────

enum ExecHexSpan {
    Short,
    Straddle,
    Span(usize),
}

spec fn hex_matches(e: ExecHexSpan, h: HexSpan) -> bool {
    match (e, h) {
        (ExecHexSpan::Short, HexSpan::Short) => true,
        (ExecHexSpan::Straddle, HexSpan::Straddle) => true,
        (ExecHexSpan::Span(a), HexSpan::Span(b)) => a == b,
        _ => false,
    }
}

spec fn shift_span(k: int, h: HexSpan) -> HexSpan {
    match h {
        HexSpan::Span(j) => HexSpan::Span(j + k),
        r => r,
    }
}

/// Split of the four bytes after position `start - 1`.
fn exec_hex_span(buf: &Vec<char>, start: usize) -> (r: ExecHexSpan)
    requires
        start <= buf@.len(),
    ensures
        hex_matches(r, hex_span(buf@.subrange(start as int, buf@.len() as int), 4)),
{
    let len = buf.len();
    let mut budget: usize = 4;
    let mut i = start;
    let mut k: usize = 0;
    while budget > 0
        invariant
            len == buf@.len(),
            start <= i <= len,
            k == i - start,
            budget <= 4,
            k + budget <= 4,
            hex_span(buf@.subrange(start as int, len as int), 4) == shift_span(
                k as int,
                hex_span(buf@.subrange(i as int, len as int), budget as int),
            ),
        decreases budget,
    {
        if i >= len {
            return ExecHexSpan::Short;
        }
        let l = char_utf8_len(buf[i]);
        let ghost s = buf@.subrange(i as int, len as int);
        assert(s[0] == buf@[i as int]);
        assert(s.drop_first() == buf@.subrange(i + 1, len as int));
        if l > budget {
            return ExecHexSpan::Straddle;
        }
        budget = budget - l;
        i += 1;
        k += 1;
    }
    ExecHexSpan::Span(k)
}

fn exec_hex_digit(c: char) -> (r: Option<u32>)
    ensures
        r matches Some(v) ==> hex_digit(c) == Some(v as int) && v < 16,
        r is None ==> hex_digit(c) is None,
{
    if '0' <= c && c <= '9' {
        Some((c as u32) - ('0' as u32))
    } else if 'a' <= c && c <= 'f' {
        Some((c as u32) - ('a' as u32) + 10)
    } else if 'A' <= c && c <= 'F' {
        Some((c as u32) - ('A' as u32) + 10)
    } else {
        None
    }
}

/// Character produced by the `\u` escape whose hex text is `buf[start..end]`.
fn exec_decode_unicode_escape(buf: &Vec<char>, start: usize, end: usize) -> (r: Option<char>)
    requires
        start <= end <= buf@.len(),
        end - start <= 4,
    ensures
        r == decode_unicode_escape(buf@.subrange(start as int, end as int)),
{
    let ghost h = buf@.subrange(start as int, end as int);
    let mut d = start;
    if start < end && buf[start] == '+' {
        d = start + 1;
    }
    let ghost dig = if h.len() > 0 && h[0] == '+' { h.drop_first() } else { h };
    assert(dig == buf@.subrange(d as int, end as int));
    if d == end {
        return None;
    }
    let mut j = d;
    let mut v: u32 = 0;
    let mut ok = true;
    while j < end
        invariant
            d <= j <= end,
            end <= buf@.len(),
            end - d <= 4,
            dig == buf@.subrange(d as int, end as int),
            v < if j - d == 0 { 1int } else if j - d == 1 { 16 } else if j - d == 2 { 256 } else if j
                - d == 3 { 4096 } else { 65536 },
            hex_digits_value(dig.take(j - d)) == if ok { Some(v as int) } else { None::<int> },
        decreases end - j,
    {
        let c = buf[j];
        let dv = exec_hex_digit(c);
        assert(dig.take(j - d + 1).drop_last() == dig.take(j - d));
        assert(dig.take(j - d + 1).last() == c);
        match dv {
            Some(x) => {
                if ok {
                    v = v * 16 + x;
                }
            },
            None => {
                ok = false;
            },
        }
        j += 1;
    }
    assert(dig.take(end - d) == dig);
    if !ok {
        return None;
    }
    char::from_u32(v)
}

enum ExecStep {
    Stop,
    Panic,
    Advance(ScanState, usize, Option<char>),
}

spec fn step_matches(e: ExecStep, s: Step) -> bool {
    match (e, s) {
        (ExecStep::Stop, Step::Stop) => true,
        (ExecStep::Panic, Step::Panic) => true,
        (ExecStep::Advance(a, p, o), Step::Advance(b, q, u)) => a == b && p == q && o == u,
        _ => false,
    }
}

/// The move of the scanner in state `st` at `pos`.
fn exec_step(st: ScanState, buf: &Vec<char>, pos: usize, tmk: &Vec<char>, tlk: &Vec<char>) -> (r:
    ExecStep)
    requires
        tmk@ == tutor_message_key(),
        tlk@ == target_lang_key(),
        pos < buf@.len(),
    ensures
        step_matches(r, step(st, buf@, pos as int)),
{
    let len = buf.len();
    proof {
        lemma_step_bounds(st, buf@, pos as int);
    }
    match st {
        ScanState::SearchingTutorMessage => match find_from(buf, pos, tmk) {
            Some(i) => {
                proof {
                    lemma_find_spec_first(buf@, pos as int, tmk@);
                }
                ExecStep::Advance(ScanState::SearchingTargetLang, i + tmk.len(), None)
            },
            None => ExecStep::Stop,
        },
        ScanState::SearchingTargetLang => match find_from(buf, pos, tlk) {
            Some(i) => {
                proof {
                    lemma_find_spec_first(buf@, pos as int, tlk@);
                }
                ExecStep::Advance(ScanState::AwaitingOpenQuote, i + tlk.len(), None)
            },
            None => ExecStep::Stop,
        },
        ScanState::AwaitingOpenQuote => if buf[pos] == '"' {
            ExecStep::Advance(ScanState::InsideString, pos + 1, None)
        } else {
            ExecStep::Advance(ScanState::AwaitingOpenQuote, pos + 1, None)
        },
        ScanState::InsideString => {
            let c = buf[pos];
            if c == '\\' {
                ExecStep::Advance(ScanState::InsideStringEscape, pos + 1, None)
            } else if c == '"' {
                ExecStep::Advance(ScanState::Finished, pos + 1, None)
            } else {
                ExecStep::Advance(ScanState::InsideString, pos + 1, Some(c))
            }
        },
        ScanState::InsideStringEscape => {
            let c = buf[pos];
            if c == 'u' {
                proof {
                    lemma_hex_span_bounds(buf@.subrange(pos + 1, buf@.len() as int), 4);
                }
                match exec_hex_span(buf, pos + 1) {
                    ExecHexSpan::Short => ExecStep::Stop,
                    ExecHexSpan::Straddle => ExecStep::Panic,
                    ExecHexSpan::Span(k) => {
                        let ch = exec_decode_unicode_escape(buf, pos + 1, pos + 1 + k);
                        ExecStep::Advance(ScanState::InsideString, pos + 1 + k, ch)
                    },
                }
            } else {
                let out = if c == 'n' {
                    '\n'
                } else if c == 't' {
                    '\t'
                } else if c == 'r' {
                    '\r'
                } else {
                    c
                };
                ExecStep::Advance(ScanState::InsideString, pos + 1, Some(out))
            }
        },
        ScanState::Finished => ExecStep::Stop,
    }
}

/// Runs the scanner from `st` at `pos` until it waits for more text or
/// fails, appending captured characters to `out`.  Returns whether it
/// failed, and the state and position it stopped at.
fn scan_core(buf: &Vec<char>, st: ScanState, pos: usize, out: &mut Vec<char>) -> (r: (
    bool,
    ScanState,
    usize,
))
    requires
        pos <= buf@.len(),
    ensures
        r.0 == scan_from(st, buf@, pos as int).panicked,
        !r.0 ==> r.1 == scan_from(st, buf@, pos as int).state,
        !r.0 ==> r.2 == scan_from(st, buf@, pos as int).pos,
        !r.0 ==> final(out)@ == old(out)@ + scan_from(st, buf@, pos as int).out,
        r.2 <= buf@.len(),
{
    let tmk = tutor_message_key_exec();
    let tlk = target_lang_key_exec();
    let ghost total = scan_from(st, buf@, pos as int);
    let ghost out0 = out@;
    let mut cur = st;
    let mut p = pos;
    let len = buf.len();
    let ghost mut acc: Seq<char> = Seq::empty();
    loop
        invariant
            p <= buf@.len(),
            len == buf@.len(),
            total == scan_from(st, buf@, pos as int),
            out0 == old(out)@,
            tmk@ == tutor_message_key(),
            tlk@ == target_lang_key(),
            out@ == out0 + acc,
            total.panicked == scan_from(cur, buf@, p as int).panicked,
            total.state == scan_from(cur, buf@, p as int).state,
            total.pos == scan_from(cur, buf@, p as int).pos,
            total.out == acc + scan_from(cur, buf@, p as int).out,
        decreases buf@.len() - p,
    {
        if p >= len {
            assert(step(cur, buf@, p as int) is Stop);
            assert(acc + Seq::<char>::empty() == acc);
            return (false, cur, p);
        }
        proof {
            lemma_step_bounds(cur, buf@, p as int);
        }
        match exec_step(cur, buf, p, &tmk, &tlk) {
            ExecStep::Stop => {
                assert(acc + Seq::<char>::empty() == acc);
                return (false, cur, p);
            },
            ExecStep::Panic => {
                return (true, cur, p);
            },
            ExecStep::Advance(st2, p2, o) => {
                let ghost rest = scan_from(st2, buf@, p2 as int);
                proof {
                    assert(acc + (opt_seq(o) + rest.out) == (acc + opt_seq(o)) + rest.out);
                    acc = acc + opt_seq(o);
                }
                match o {
                    Some(c) => {
                        out.push(c);
                    },
                    None => {
                        assert(out@ == out@ + Seq::<char>::empty());
                    },
                }
                cur = st2;
                p = p2;
            },
        }
    }
}


/// The trimmed text of `v[a..b]`.
pub(crate) fn trimmed_string(v: &Vec<char>, a: usize, b: usize) -> (s: String)
    requires
        a <= b <= v@.len(),
    ensures
        s@ == trim(v@.subrange(a as int, b as int)),
{
    let ghost sub = v@.subrange(a as int, b as int);
    let mut lo = a;
    while lo < b && is_whitespace(v[lo])
        invariant
            a <= lo <= b <= v@.len(),
            sub == v@.subrange(a as int, b as int),
            forall|j: int| 0 <= j < lo - a ==> is_ws(#[trigger] sub[j]),
        decreases b - lo,
    {
        lo += 1;
    }
    proof {
        lemma_trim_start_at(sub, lo - a);
    }
    let ghost t = sub.subrange(lo - a, sub.len() as int);
    assert(t == v@.subrange(lo as int, b as int));
    let mut hi = b;
    while hi > lo && is_whitespace(v[hi - 1])
        invariant
            lo <= hi <= b <= v@.len(),
            t == v@.subrange(lo as int, b as int),
            forall|j: int| hi - lo <= j < t.len() ==> is_ws(#[trigger] t[j]),
        decreases hi - lo,
    {
        hi -= 1;
    }
    proof {
        lemma_trim_end_at(t, hi - lo);
    }
    let mut s = String::new();
    let mut k = lo;
    while k < hi
        invariant
            lo <= k <= hi <= v@.len(),
            s@ == v@.subrange(lo as int, k as int),
        decreases hi - k,
    {
        s.push(v[k]);
        assert(v@.subrange(lo as int, k as int).push(v@[k as int]) == v@.subrange(
            lo as int,
            k + 1,
        ));
        k += 1;
    }
    assert(t.subrange(0, hi - lo) == v@.subrange(lo as int, hi as int));
    s
}


/// Find the first top-level JSON object in `s` and return it as a slice.
/// Walks the text tracking brace depth while respecting string escapes.
pub fn extract_json_object(s: &str) -> (r: Option<&str>)
    ensures
        r is Some <==> json_object_span(s@) is Some,
        r matches Some(t) ==> (json_object_span(s@) matches Some((a, b)) && t@ == s@.subrange(
            a,
            b + 1,
        )),
{
    let chars = chars_of(s);
    let n = chars.len();
    let mut start: Option<usize> = None;
    let mut depth: usize = 0;
    let mut in_str = false;
    let mut escape = false;
    let mut i: usize = 0;
    proof {
        lemma_object_scan_shape(s@, 0, 0, false, false, None);
    }
    while i < n
        invariant
            n == chars@.len(),
            chars@ == s@,
            i <= n,
            0 <= depth <= i,
            start matches Some(a) ==> a < i,
            json_object_span(s@) == object_scan(
                s@,
                i as int,
                depth as int,
                in_str,
                escape,
                match start {
                    Some(a) => Some(a as int),
                    None => None,
                },
            ),
        decreases n - i,
    {
        let c = chars[i];
        if in_str {
            if escape {
                escape = false;
            } else if c == '\\' {
                escape = true;
            } else if c == '"' {
                in_str = false;
            }
        } else if c == '"' {
            in_str = true;
        } else if c == '{' {
            if depth == 0 {
                start = Some(i);
            }
            depth += 1;
        } else if c == '}' && depth > 0 {
            depth -= 1;
            if depth == 0 {
                if let Some(st) = start {
                    proof {
                        lemma_object_scan_shape(s@, 0, 0, false, false, None);
                    }
                    return Some(s.substring_char(st, i + 1));
                }
            }
        }
        i += 1;
    }
    None
}

// ── The parser ───────────────────────────────────────────────────────────

/// Incremental parser for streamed model output.  Feed it chunks of raw
/// text; call `take_sentences` to pull any complete sentences of the tutor's
/// target-language message that have become available since the last call.
pub struct StreamingJsonParser {
    /// Everything emitted so far by the model.
    buffer: Vec<char>,
    /// State of the scanner.
    state: ScanState,
    /// Decoded text of `tutor_message.target_lang` captured so far.
    captured: String,
    /// The same text, character by character.
    captured_chars: Vec<char>,
    /// How many characters of the captured text were already handed out as
    /// sentences.
    emitted_len: usize,
    /// How far the buffer has been scanned.
    scan_pos: usize,
}

impl StreamingJsonParser {
    /// All text pushed so far.
    pub closed spec fn text(&self) -> Seq<char> {
        self.buffer@
    }

    /// The captured value of `tutor_message.target_lang`, unescaped.
    pub closed spec fn captured_text(&self) -> Seq<char> {
        self.captured@
    }

    /// How many captured characters were already handed out as sentences.
    pub closed spec fn emitted(&self) -> int {
        self.emitted_len as int
    }

    /// Whether the closing quote of the captured string was seen.
    pub closed spec fn done(&self) -> bool {
        self.state == ScanState::Finished
    }

    pub closed spec fn inv(&self) -> bool {
        let r = parse(self.buffer@);
        &&& self.state == r.state
        &&& self.scan_pos == r.pos
        &&& self.scan_pos <= self.buffer@.len()
        &&& self.captured_chars@ == self.captured@
    }

    /// The parser's state is the one scanning all pushed text produces.
    pub open spec fn wf(&self) -> bool {
        &&& self.inv()
        &&& !parse(self.text()).panicked
        &&& self.captured_text() == parse(self.text()).out
        &&& self.done() == (parse(self.text()).state == ScanState::Finished)
        &&& 0 <= self.emitted() <= self.captured_text().len()
    }

    /// An empty parser.
    pub fn new() -> (p: Self)
        ensures
            p.wf(),
            p.text() == Seq::<char>::empty(),
            p.emitted() == 0,
    {
        let p = StreamingJsonParser {
            buffer: Vec::new(),
            state: ScanState::SearchingTutorMessage,
            captured: String::new(),
            captured_chars: Vec::new(),
            emitted_len: 0,
            scan_pos: 0,
        };
        assert(p.captured_chars@ == p.captured@);
        p
    }

    /// Whether pushing `chunk` is accepted: false exactly when scanning the
    /// text with the chunk appended would slice the text inside a character
    /// (a `\u` escape whose fourth byte falls inside a multi-byte character).
    pub fn accepts(&self, chunk: &str) -> (b: bool)
        requires
            self.wf(),
        ensures
            b == !parse(self.text() + chunk@).panicked,
    {
        let mut buf: Vec<char> = Vec::new();
        let mut i: usize = 0;
        while i < self.buffer.len()
            invariant
                i <= self.buffer@.len(),
                buf@ == self.buffer@.take(i as int),
            decreases self.buffer@.len() - i,
        {
            buf.push(self.buffer[i]);
            assert(self.buffer@.take(i as int).push(self.buffer@[i as int]) == self.buffer@.take(
                i + 1,
            ));
            i += 1;
        }
        assert(self.buffer@.take(self.buffer@.len() as int) == self.buffer@);
        let chunk_chars = chars_of(chunk);
        let mut j: usize = 0;
        while j < chunk_chars.len()
            invariant
                j <= chunk_chars@.len(),
                buf@ == self.buffer@ + chunk_chars@.take(j as int),
            decreases chunk_chars@.len() - j,
        {
            buf.push(chunk_chars[j]);
            assert(chunk_chars@.take(j as int).push(chunk_chars@[j as int]) == chunk_chars@.take(
                j + 1,
            ));
            j += 1;
        }
        assert(chunk_chars@.take(chunk_chars@.len() as int) == chunk_chars@);
        proof {
            lemma_scan_resume(ScanState::SearchingTutorMessage, self.buffer@, chunk@, 0);
        }
        let mut scratch: Vec<char> = Vec::new();
        let r = scan_core(&buf, self.state, self.scan_pos, &mut scratch);
        !r.0
    }

    /// Feed a chunk of streamed text into the parser.
    pub fn push(&mut self, chunk: &str)
        requires
            old(self).wf(),
            !parse(old(self).text() + chunk@).panicked,
        ensures
            final(self).wf(),
            final(self).text() == old(self).text() + chunk@,
            final(self).emitted() == old(self).emitted(),
    {
        let chunk_chars = chars_of(chunk);
        let mut j: usize = 0;
        let ghost b0 = self.buffer@;
        while j < chunk_chars.len()
            invariant
                j <= chunk_chars@.len(),
                b0 == old(self).buffer@,
                self.buffer@ == b0 + chunk_chars@.take(j as int),
                chunk_chars@ == chunk@,
                self.state == old(self).state,
                self.scan_pos == old(self).scan_pos,
                self.captured == old(self).captured,
                self.captured_chars == old(self).captured_chars,
                self.emitted_len == old(self).emitted_len,
            decreases chunk_chars@.len() - j,
        {
            self.buffer.push(chunk_chars[j]);
            assert(chunk_chars@.take(j as int).push(chunk_chars@[j as int]) == chunk_chars@.take(
                j + 1,
            ));
            j += 1;
        }
        assert(chunk_chars@.take(chunk_chars@.len() as int) == chunk_chars@);
        proof {
            lemma_scan_resume(ScanState::SearchingTutorMessage, b0, chunk@, 0);
        }
        let ghost before = self.captured_chars@;
        let start_len = self.captured_chars.len();
        let r = scan_core(&self.buffer, self.state, self.scan_pos, &mut self.captured_chars);
        self.state = r.1;
        self.scan_pos = r.2;
        let mut k = start_len;
        while k < self.captured_chars.len()
            invariant
                start_len == before.len(),
                start_len <= k <= self.captured_chars@.len(),
                self.buffer@ == b0 + chunk@,
                self.state == r.1,
                self.scan_pos == r.2,
                self.emitted_len == old(self).emitted_len,
                self.captured_chars@ == before + scan_from(old(self).state, b0 + chunk@, old(self).scan_pos as int).out,
                self.captured@ == self.captured_chars@.take(k as int),
            decreases self.captured_chars@.len() - k,
        {
            let c = self.captured_chars[k];
            self.captured.push(c);
            assert(self.captured_chars@.take(k as int).push(c) == self.captured_chars@.take(k + 1));
            k += 1;
        }
        assert(self.captured_chars@.take(self.captured_chars@.len() as int)
            == self.captured_chars@);
    }

    /// The not yet handed out part of the captured text.
    pub open spec fn pending(&self) -> Seq<char> {
        self.captured_text().subrange(self.emitted(), self.captured_text().len() as int)
    }

    /// Pull any newly complete sentences of `tutor_message.target_lang`.
    /// Each returned string is one sentence, stripped of leading and trailing
    /// whitespace.
    pub fn take_sentences(&mut self) -> (out: Vec<String>)
        requires
            old(self).wf(),
        ensures
            final(self).wf(),
            final(self).text() == old(self).text(),
            final(self).captured_text() == old(self).captured_text(),
            final(self).done() == old(self).done(),
            out@.map_values(|s: String| s@) == cut_sentences(old(self).pending(), old(self).done()).0,
            final(self).emitted() == old(self).emitted() + cut_sentences(
                old(self).pending(),
                old(self).done(),
            ).1,
            forall|k: int| 0 <= k < out@.len() ==> is_clean_sentence(#[trigger] out@[k]@),
            forall|k: int|
                0 <= k < out@.len() && (k + 1 < out@.len() || !old(self).done())
                    ==> crate::streaming::closed_properly(old(self).pending(), #[trigger] out@[k]@),
            old(self).done() ==> final(self).emitted() == final(self).captured_text().len(),
    {
        let base = self.emitted_len;
        let n = self.captured_chars.len();
        let m = n - base;
        let fin = self.state == ScanState::Finished;
        let ghost r = self.captured_chars@.subrange(base as int, n as int);
        assert(r == old(self).pending());
        let ghost total = cut_from(r, fin, 0, 0);
        let mut out: Vec<String> = Vec::new();
        let mut i: usize = 0;
        let mut last_cut: usize = 0;
        while i < m
            invariant
                base + m == n,
                n == self.captured_chars@.len(),
                r == self.captured_chars@.subrange(base as int, n as int),
                total == cut_from(r, fin, 0, 0),
                i <= m,
                last_cut <= m,
                last_cut <= i || (forall|j: int| i <= j < last_cut ==> is_ws(#[trigger] r[j])),
                total.0 == out@.map_values(|s: String| s@) + cut_from(r, fin, i as int, last_cut as int).0,
                total.1 == cut_from(r, fin, i as int, last_cut as int).1,
            decreases m - i,
        {
            let c = self.captured_chars[base + i];
            assert(c == r[i as int]);
            if is_sentence_terminator(c) {
                proof {
                    lemma_run_ends(r, i + 1);
                    if last_cut > i {
                        assert(is_ws(r[i as int]));
                    }
                }
                let mut end = i + 1;
                while end < m && is_sentence_terminator(self.captured_chars[base + end])
                    invariant
                        i < end <= m,
                        base + m == n,
                        n == self.captured_chars@.len(),
                        r == self.captured_chars@.subrange(base as int, n as int),
                        terminator_run_end(r, i + 1) == terminator_run_end(r, end as int),
                    decreases m - end,
                {
                    assert(self.captured_chars@[base + end] == r[end as int]);
                    end += 1;
                }
                if end < m {
                    assert(self.captured_chars@[base + end] == r[end as int]);
                }
                let committed = if end < m {
                    is_whitespace(self.captured_chars[base + end])
                } else {
                    fin
                };
                if committed {
                    let sent = if last_cut <= end {
                        assert(self.captured_chars@.subrange(base + last_cut, base + end)
                            == r.subrange(last_cut as int, end as int));
                        trimmed_string(&self.captured_chars, base + last_cut, base + end)
                    } else {
                        String::new()
                    };
                    assert(sent@ == cut_piece(r, last_cut as int, end as int));
                    let ghost before = out@.map_values(|s: String| s@);
                    let ghost rest = cut_from(r, fin, end as int, ws_run_end(r, end as int));
                    if !sent.as_str().is_empty() {
                        assert(sent@.len() > 0);
                        out.push(sent);
                        assert(out@.map_values(|s: String| s@) == before.push(sent@));
                        assert(before + (seq![sent@] + rest.0) == before.push(sent@) + rest.0);
                    } else {
                        assert(sent@.len() == 0);
                    }
                    let mut adv = end;
                    while adv < m && is_whitespace(self.captured_chars[base + adv])
                        invariant
                            end <= adv <= m,
                            base + m == n,
                            n == self.captured_chars@.len(),
                            r == self.captured_chars@.subrange(base as int, n as int),
                            ws_run_end(r, end as int) == ws_run_end(r, adv as int),
                            forall|j: int| end <= j < adv ==> is_ws(#[trigger] r[j]),
                        decreases m - adv,
                    {
                        assert(self.captured_chars@[base + adv] == r[adv as int]);
                        adv += 1;
                    }
                    if adv < m {
                        assert(self.captured_chars@[base + adv] == r[adv as int]);
                    }
                    last_cut = adv;
                }
                i = end;
            } else {
                proof {
                    if last_cut > i {
                        assert(is_ws(r[i as int]));
                    }
                }
                i += 1;
            }
        }
        if fin && last_cut < m {
            let tail = trimmed_string(&self.captured_chars, base + last_cut, base + m);
            assert(self.captured_chars@.subrange(base + last_cut, base + m) == r.subrange(
                last_cut as int,
                m as int,
            ));
            let ghost before = out@.map_values(|s: String| s@);
            if !tail.as_str().is_empty() {
                assert(tail@.len() > 0);
                out.push(tail);
                assert(out@.map_values(|s: String| s@) == before.push(tail@));
                assert(before + seq![tail@] == before.push(tail@));
            } else {
                assert(tail@.len() == 0);
                assert(before + Seq::<Seq<char>>::empty() == before);
            }
            last_cut = m;
        } else {
            assert(out@.map_values(|s: String| s@) + Seq::<Seq<char>>::empty() == out@.map_values(
                |s: String| s@,
            ));
        }
        proof {
            lemma_cut_from_bounds(r, fin, 0, 0);
            lemma_sentences_clean(r, fin);
            crate::streaming::lemma_sentences_closed(r, fin);
            let views = out@.map_values(|s: String| s@);
            assert(views == cut_sentences(r, fin).0);
            assert forall|k: int| 0 <= k < out@.len() implies is_clean_sentence(#[trigger] out@[k]@) by {
                assert(views[k] == out@[k]@);
            }
            assert forall|k: int|
                0 <= k < out@.len() && (k + 1 < out@.len() || !fin)
                    implies crate::streaming::closed_properly(r, #[trigger] out@[k]@) by {
                assert(views[k] == out@[k]@);
            }
        }
        self.emitted_len = base + last_cut;
        out
    }

    /// True once the whole `target_lang` string has been captured.
    pub fn is_finished(&self) -> (b: bool)
        requires
            self.wf(),
        ensures
            b == self.done(),
    {
        self.state == ScanState::Finished
    }

    /// Everything captured so far from `target_lang`, unescaped.
    pub fn captured(&self) -> (s: &str)
        requires
            self.wf(),
        ensures
            s@ == self.captured_text(),
    {
        self.captured.as_str()
    }
}

// ── Structured response ──────────────────────────────────────────────────

/// The tutor's structured reply, recovered at the end of generation.
#[derive(Debug, Clone)]
pub struct ParsedTutorResponse {
    pub tutor_message: TutorMessage,
    pub correction: Option<Correction>,
    pub new_vocabulary: Vec<NewVocabulary>,
    pub grammar_note: Option<GrammarNote>,
    pub suggested_responses: Vec<SuggestedResponse>,
    pub internal_notes: Option<InternalNotes>,
}

/// What the tutor says, with its translation.
#[derive(Debug, Clone)]
pub struct TutorMessage {
    pub target_lang: String,
    pub native_lang: String,
}

/// A correction of the student's last message.
#[derive(Debug, Clone)]
pub struct Correction {
    pub original: String,
    pub corrected: String,
    pub explanation: String,
}

/// A word or phrase the tutor introduced.
#[derive(Debug, Clone)]
pub struct NewVocabulary {
    pub target_text: String,
    pub native_text: String,
    pub pronunciation: Option<String>,
    pub part_of_speech: Option<String>,
    pub example_target: Option<String>,
    pub example_native: Option<String>,
}

/// A grammar point the tutor explained.
#[derive(Debug, Clone)]
pub struct GrammarNote {
    pub title: String,
    pub explanation: String,
}

/// A reply the student could give next.
#[derive(Debug, Clone)]
pub struct SuggestedResponse {
    pub target_lang: String,
    pub native_lang: String,
}

/// The tutor's own assessment of the turn.
#[derive(Debug, Clone)]
pub struct InternalNotes {
    pub estimated_comprehension: Option<String>,
    pub lesson_progress_pct: Option<i32>,
}

} // verus!

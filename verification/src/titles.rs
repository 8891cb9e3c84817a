//! Conversation titles: the label of a conversation without a topic, the
//! cleanup of a title the model proposed, and the fallback cut from the
//! student's first message.

use vstd::prelude::*;
use vstd::string::StringExecFns;
use crate::parser::{char_utf8_len, trim, trimmed_string, utf8_len};
use crate::text::{chars_of, string_of};

verus! {

// ── Byte lengths ─────────────────────────────────────────────────────────

/// Bytes of the UTF-8 encoding of a text (`str::len`).
pub open spec fn utf8_bytes(s: Seq<char>) -> int
    decreases s.len(),
{
    if s.len() == 0 {
        0
    } else {
        utf8_bytes(s.drop_last()) + utf8_len(s.last())
    }
}

/// How many leading characters, counting on from `i`, fit in `n` bytes.
pub open spec fn chars_within_from(s: Seq<char>, n: int, i: int) -> int
    decreases s.len() - i,
{
    if 0 <= i < s.len() && utf8_bytes(s.take(i + 1)) <= n {
        chars_within_from(s, n, i + 1)
    } else {
        i
    }
}

/// How many leading characters of `s` fit in `n` bytes.
pub open spec fn chars_within(s: Seq<char>, n: int) -> int {
    chars_within_from(s, n, 0)
}

/// Byte length of a prefix grows with the prefix.
pub proof fn lemma_prefix_bytes_monotone(s: Seq<char>, j: int, k: int)
    requires
        0 <= j <= k <= s.len(),
    ensures
        utf8_bytes(s.take(j)) <= utf8_bytes(s.take(k)),
    decreases k - j,
{
    if j < k {
        assert(s.take(k).drop_last() == s.take(k - 1));
        lemma_prefix_bytes_monotone(s, j, k - 1);
    }
}

/// The number of leading characters of `v` within `n` bytes, and their
/// byte length.
fn count_chars_within(v: &Vec<char>, n: usize) -> (r: (usize, usize))
    requires
        n <= 1024,
    ensures
        r.0 == chars_within(v@, n as int),
        r.1 == utf8_bytes(v@.take(r.0 as int)),
        r.1 <= n,
        r.0 <= v@.len(),
        (r.0 == v@.len()) == (utf8_bytes(v@) <= n),
{
    let mut i: usize = 0;
    let mut acc: usize = 0;
    assert(v@.take(0) =~= Seq::<char>::empty());
    while i < v.len() && acc + char_utf8_len(v[i]) <= n
        invariant
            i <= v@.len(),
            n <= 1024,
            acc <= n,
            acc == utf8_bytes(v@.take(i as int)),
            chars_within(v@, n as int) == chars_within_from(v@, n as int, i as int),
        decreases v@.len() - i,
    {
        assert(v@.take(i + 1).drop_last() == v@.take(i as int));
        acc = acc + char_utf8_len(v[i]);
        i += 1;
    }
    proof {
        if i < v@.len() {
            assert(v@.take(i + 1).drop_last() == v@.take(i as int));
            assert(utf8_bytes(v@.take(i + 1)) > n);
            lemma_prefix_bytes_monotone(v@, i + 1, v@.len() as int);
        }
    }
    assert(v@.take(v@.len() as int) == v@);
    assert(chars_within_from(v@, n as int, i as int) == i);
    (i, acc)
}

// ── Titles ───────────────────────────────────────────────────────────────

/// The label of a conversation: its topic, or "<mode> conversation" when it
/// has none.
pub open spec fn conversation_label(topic: Option<Seq<char>>, mode: Seq<char>) -> Seq<char> {
    match topic {
        Some(t) => t,
        None => mode + " conversation"@,
    }
}

/// The title shown for a conversation in the list.
pub fn conversation_title(topic: Option<String>, mode: &str) -> (r: String)
    ensures
        r@ == conversation_label(
            match topic {
                Some(t) => Some(t@),
                None => None,
            },
            mode@,
        ),
{
    match topic {
        Some(t) => t,
        None => {
            let mut s = String::new();
            s.append(mode);
            s.append(" conversation");
            s
        },
    }
}

/// Index of the last occurrence of `c` in `s`.
pub open spec fn last_index_of(s: Seq<char>, c: char) -> Option<int>
    decreases s.len(),
{
    if s.len() == 0 {
        None
    } else if s.last() == c {
        Some(s.len() - 1)
    } else {
        last_index_of(s.drop_last(), c)
    }
}

pub(crate) fn find_last(v: &Vec<char>, end: usize, c: char) -> (r: Option<usize>)
    requires
        end <= v@.len(),
    ensures
        match r {
            Some(i) => last_index_of(v@.take(end as int), c) == Some(i as int),
            None => last_index_of(v@.take(end as int), c) is None,
        },
{
    let mut i = end;
    while i > 0 && v[i - 1] != c
        invariant
            i <= end <= v@.len(),
            last_index_of(v@.take(end as int), c) == last_index_of(v@.take(i as int), c),
        decreases i,
    {
        assert(v@.take(i as int).drop_last() == v@.take(i - 1));
        i -= 1;
    }
    if i == 0 {
        None
    } else {
        Some(i - 1)
    }
}

/// Byte limit of the fallback title before it is cut.
pub open spec fn fallback_limit() -> int {
    40
}

/// Whether a message can be cut at its fortieth byte: it is no longer than
/// that, or that byte position falls between two characters.
pub open spec fn fallback_cut_allowed(s: Seq<char>) -> bool {
    utf8_bytes(s) <= fallback_limit() || utf8_bytes(s.take(chars_within(s, fallback_limit())))
        == fallback_limit()
}

/// The fallback title for a conversation: the student's message when it is
/// at most 40 bytes long; otherwise its first 40 bytes, cut back to the last
/// space among them when there is one, followed by an ellipsis.
pub open spec fn fallback_title_text(s: Seq<char>) -> Seq<char> {
    if utf8_bytes(s) <= fallback_limit() {
        s
    } else {
        let head = s.take(chars_within(s, fallback_limit()));
        let kept = match last_index_of(head, ' ') {
            Some(e) => head.take(e),
            None => head,
        };
        kept + "…"@
    }
}

/// Title for a new conversation when the model gave none, cut from the
/// student's message.
pub fn fallback_title(student_text: &str) -> (r: String)
    requires
        fallback_cut_allowed(student_text@),
    ensures
        r@ == fallback_title_text(student_text@),
{
    let v = chars_of(student_text);
    let (k, _bytes) = count_chars_within(&v, 40);
    if k == v.len() {
        return string_of(v.as_slice());
    }
    let end = match find_last(&v, k, ' ') {
        Some(e) => e,
        None => k,
    };
    proof {
        let head = v@.take(k as int);
        match last_index_of(head, ' ') {
            Some(e) => {
                lemma_last_index_bounds(head, ' ');
                assert(head.take(e) =~= v@.take(e));
            },
            None => {},
        }
    }
    let mut s = string_of(&v.as_slice()[0..end]);
    assert(v@.subrange(0, end as int) == v@.take(end as int));
    s.append("…");
    s
}

/// The index `last_index_of` gives lies inside the text.
pub proof fn lemma_last_index_bounds(s: Seq<char>, c: char)
    ensures
        match last_index_of(s, c) {
            Some(i) => 0 <= i < s.len() && s[i] == c,
            None => forall|i: int| 0 <= i < s.len() ==> s[i] != c,
        },
    decreases s.len(),
{
    if s.len() > 0 && s.last() != c {
        lemma_last_index_bounds(s.drop_last(), c);
        let t = s.drop_last();
        assert forall|i: int| 0 <= i < t.len() implies t[i] == s[i] by {}
    }
}

/// `s` without the leading run of `c`.
pub open spec fn strip_start(s: Seq<char>, c: char) -> Seq<char>
    decreases s.len(),
{
    if s.len() > 0 && s[0] == c {
        strip_start(s.drop_first(), c)
    } else {
        s
    }
}

/// `s` without the trailing run of `c`.
pub open spec fn strip_end(s: Seq<char>, c: char) -> Seq<char>
    decreases s.len(),
{
    if s.len() > 0 && s.last() == c {
        strip_end(s.drop_last(), c)
    } else {
        s
    }
}

/// `str::trim_matches` with one character: both runs removed.
pub open spec fn strip_char(s: Seq<char>, c: char) -> Seq<char> {
    strip_end(strip_start(s, c), c)
}

/// The text of a model-proposed title after cleanup: surrounding
/// whitespace, then surrounding double quotes, then surrounding asterisks
/// removed.
pub open spec fn cleaned_title(s: Seq<char>) -> Seq<char> {
    strip_char(strip_char(trim(s), '"'), '*')
}

/// Longest title accepted, in bytes.
pub open spec fn title_limit() -> int {
    100
}

/// A model-proposed title is kept when, cleaned, it is not empty and at
/// most 100 bytes long.
pub open spec fn accepted_title(s: Seq<char>) -> Option<Seq<char>> {
    let t = cleaned_title(s);
    if t.len() == 0 || utf8_bytes(t) > title_limit() {
        None
    } else {
        Some(t)
    }
}

proof fn lemma_strip_start_at(s: Seq<char>, c: char, k: int)
    requires
        0 <= k <= s.len(),
        forall|j: int| 0 <= j < k ==> s[j] == c,
        k == s.len() || s[k] != c,
    ensures
        strip_start(s, c) == s.subrange(k, s.len() as int),
    decreases k,
{
    if k == 0 {
        assert(s.subrange(0, s.len() as int) == s);
    } else {
        let t = s.drop_first();
        assert forall|j: int| 0 <= j < k - 1 implies t[j] == c by {
            assert(t[j] == s[j + 1]);
        }
        if k < s.len() {
            assert(t[k - 1] == s[k]);
        }
        lemma_strip_start_at(t, c, k - 1);
        assert(t.subrange(k - 1, t.len() as int) == s.subrange(k, s.len() as int));
    }
}

proof fn lemma_strip_end_at(t: Seq<char>, c: char, m: int)
    requires
        0 <= m <= t.len(),
        forall|j: int| m <= j < t.len() ==> t[j] == c,
        m == 0 || t[m - 1] != c,
    ensures
        strip_end(t, c) == t.subrange(0, m),
    decreases t.len() - m,
{
    if m == t.len() {
        assert(t.subrange(0, t.len() as int) == t);
    } else {
        let u = t.drop_last();
        assert forall|j: int| m <= j < u.len() implies u[j] == c by {
            assert(u[j] == t[j]);
        }
        if m > 0 {
            assert(u[m - 1] == t[m - 1]);
        }
        lemma_strip_end_at(u, c, m);
        assert(u.subrange(0, m) == t.subrange(0, m));
    }
}

/// `v` with the runs of `c` at both ends removed.
fn strip_char_vec(v: &Vec<char>, c: char) -> (r: Vec<char>)
    ensures
        r@ == strip_char(v@, c),
{
    let mut lo: usize = 0;
    while lo < v.len() && v[lo] == c
        invariant
            lo <= v@.len(),
            forall|j: int| 0 <= j < lo ==> v@[j] == c,
        decreases v@.len() - lo,
    {
        lo += 1;
    }
    proof {
        lemma_strip_start_at(v@, c, lo as int);
    }
    let ghost t = v@.subrange(lo as int, v@.len() as int);
    let mut hi: usize = v.len();
    while hi > lo && v[hi - 1] == c
        invariant
            lo <= hi <= v@.len(),
            t == v@.subrange(lo as int, v@.len() as int),
            forall|j: int| hi - lo <= j < t.len() ==> t[j] == c,
        decreases hi - lo,
    {
        hi -= 1;
    }
    proof {
        lemma_strip_end_at(t, c, hi - lo);
    }
    let mut r: Vec<char> = Vec::new();
    let mut k = lo;
    while k < hi
        invariant
            lo <= k <= hi <= v@.len(),
            r@ == v@.subrange(lo as int, k as int),
        decreases hi - k,
    {
        r.push(v[k]);
        assert(v@.subrange(lo as int, k as int).push(v@[k as int]) == v@.subrange(lo as int, k + 1));
        k += 1;
    }
    assert(t.subrange(0, hi - lo) == v@.subrange(lo as int, hi as int));
    r
}

/// Clean up a title the model proposed: `None` when nothing is left or it is
/// longer than 100 bytes.
pub fn clean_generated_title(text: &str) -> (r: Option<String>)
    ensures
        match r {
            Some(t) => accepted_title(text@) == Some(t@),
            None => accepted_title(text@) is None,
        },
{
    let v = chars_of(text);
    let trimmed = trimmed_string(&v, 0, v.len());
    assert(v@.subrange(0, v@.len() as int) == v@);
    let tv = chars_of(trimmed.as_str());
    let unquoted = strip_char_vec(&tv, '"');
    let cleaned = strip_char_vec(&unquoted, '*');
    assert(cleaned@ == cleaned_title(text@));
    if cleaned.len() == 0 {
        return None;
    }
    let (k, _bytes) = count_chars_within(&cleaned, 100);
    if k < cleaned.len() {
        None
    } else {
        Some(string_of(cleaned.as_slice()))
    }
}

} // verus!

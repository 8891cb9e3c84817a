//! Choosing model files among the names found in the models directory.

use vstd::prelude::*;
use vstd::string::StrSliceExecFns;
use crate::parser::{find_from, find_spec, lemma_find_spec_first, occurs_at};
use crate::text::{chars_of, lowercase, to_lowercase};

verus! {

/// `pat` occurs somewhere in `s`.
pub open spec fn contains(s: Seq<char>, pat: Seq<char>) -> bool {
    exists|i: int| occurs_at(s, i, pat)
}

/// `s` ends with `suffix`.
pub open spec fn ends_with(s: Seq<char>, suffix: Seq<char>) -> bool {
    suffix.len() <= s.len() && s.skip(s.len() - suffix.len()) == suffix
}

/// `s` starts with `prefix`.
pub open spec fn starts_with(s: Seq<char>, prefix: Seq<char>) -> bool {
    prefix.len() <= s.len() && s.take(prefix.len() as int) == prefix
}

/// Without a match from `from` on, there is none at any index from there.
proof fn lemma_find_spec_none(hay: Seq<char>, from: int, needle: Seq<char>)
    requires
        0 <= from,
        needle.len() > 0,
        find_spec(hay, from, needle) is None,
    ensures
        forall|j: int| from <= j ==> !occurs_at(hay, j, needle),
    decreases hay.len() - from,
{
    if from >= hay.len() || from + needle.len() > hay.len() {
    } else {
        lemma_find_spec_none(hay, from + 1, needle);
    }
}

/// Whether `pat` (not empty) occurs in `v`.
fn contains_chars(v: &Vec<char>, pat: &str) -> (r: bool)
    requires
        pat@.len() > 0,
    ensures
        r == contains(v@, pat@),
{
    let p = chars_of(pat);
    match find_from(v, 0, &p) {
        Some(_) => {
            proof {
                lemma_find_spec_first(v@, 0, p@);
            }
            true
        },
        None => {
            proof {
                lemma_find_spec_none(v@, 0, p@);
            }
            false
        },
    }
}

/// Whether `v` ends with `suffix`.
pub(crate) fn ends_with_chars(v: &Vec<char>, suffix: &str) -> (r: bool)
    ensures
        r == ends_with(v@, suffix@),
{
    let s = chars_of(suffix);
    if s.len() > v.len() {
        return false;
    }
    let n = v.len();
    let off = v.len() - s.len();
    let mut i: usize = 0;
    while i < s.len()
        invariant
            n == v@.len(),
            s@ == suffix@,
            off + s@.len() == v@.len(),
            i <= s@.len(),
            forall|k: int| 0 <= k < i ==> v@[off + k] == s@[k],
        decreases s@.len() - i,
    {
        if v[off + i] != s[i] {
            assert(v@.skip(off as int)[i as int] == v@[off + i]);
            return false;
        }
        i += 1;
    }
    assert(v@.skip(off as int) =~= s@);
    true
}

/// Whether `v` starts with `prefix`.
fn starts_with_chars(v: &Vec<char>, prefix: &str) -> (r: bool)
    ensures
        r == starts_with(v@, prefix@),
{
    let p = chars_of(prefix);
    if p.len() > v.len() {
        return false;
    }
    let mut i: usize = 0;
    while i < p.len()
        invariant
            p@ == prefix@,
            p@.len() <= v@.len(),
            i <= p@.len(),
            forall|k: int| 0 <= k < i ==> v@[k] == p@[k],
        decreases p@.len() - i,
    {
        if v[i] != p[i] {
            assert(v@.take(p@.len() as int)[i as int] == v@[i as int]);
            return false;
        }
        i += 1;
    }
    assert(v@.take(p@.len() as int) =~= p@);
    true
}

// ── The language model ───────────────────────────────────────────────────

/// A file is a Gemma model when its lowercased name contains "gemma" and
/// ends in ".gguf".
pub open spec fn is_gemma_name(lower: Seq<char>) -> bool {
    contains(lower, "gemma"@) && ends_with(lower, ".gguf"@)
}

/// Preference among Gemma files by quantisation, lower first: Q4_K_M,
/// Q5_K_M, Q4_0, anything else.
pub open spec fn gemma_rank(lower: Seq<char>) -> int {
    if contains(lower, "q4_k_m"@) {
        0
    } else if contains(lower, "q5_k_m"@) {
        1
    } else if contains(lower, "q4_0"@) {
        2
    } else {
        3
    }
}

/// The index of the Gemma file to load among `names` (lowercased): the
/// first of the best rank, or `None` where no name is a Gemma model.
pub open spec fn gemma_choice(lower: Seq<Seq<char>>) -> Option<int> {
    if exists|i: int| 0 <= i < lower.len() && is_gemma_name(#[trigger] lower[i]) {
        Some(
            choose|i: int|
                0 <= i < lower.len() && is_gemma_name(lower[i]) && (forall|j: int|
                    0 <= j < lower.len() && is_gemma_name(#[trigger] lower[j]) ==> gemma_rank(lower[i])
                        <= gemma_rank(lower[j])) && (forall|j: int|
                    0 <= j < i && is_gemma_name(#[trigger] lower[j]) ==> gemma_rank(lower[j])
                        > gemma_rank(lower[i])),
        )
    } else {
        None
    }
}

/// The first index from `i` on of a Gemma file of rank `r`.
pub open spec fn first_of_rank(lower: Seq<Seq<char>>, r: int, i: int) -> Option<int>
    decreases lower.len() - i,
{
    if i < 0 || i >= lower.len() {
        None
    } else if is_gemma_name(lower[i]) && gemma_rank(lower[i]) == r {
        Some(i)
    } else {
        first_of_rank(lower, r, i + 1)
    }
}

proof fn lemma_first_of_rank(lower: Seq<Seq<char>>, r: int, i: int)
    requires
        0 <= i,
    ensures
        match first_of_rank(lower, r, i) {
            Some(m) => i <= m < lower.len() && is_gemma_name(lower[m]) && gemma_rank(lower[m]) == r
                && forall|j: int| i <= j < m ==> !(is_gemma_name(#[trigger] lower[j]) && gemma_rank(
                lower[j]) == r),
            None => forall|j: int| i <= j < lower.len() ==> !(is_gemma_name(#[trigger] lower[j])
                && gemma_rank(lower[j]) == r),
        },
    decreases lower.len() - i,
{
    if i < lower.len() {
        lemma_first_of_rank(lower, r, i + 1);
    }
}

/// Where there is a Gemma file, the file `gemma_choice` describes exists:
/// the first of the best rank.
proof fn lemma_gemma_choice_witness(lower: Seq<Seq<char>>)
    requires
        exists|i: int| 0 <= i < lower.len() && is_gemma_name(#[trigger] lower[i]),
    ensures
        gemma_choice(lower) matches Some(m) && 0 <= m < lower.len() && is_gemma_name(lower[m])
            && (forall|j: int|
            0 <= j < lower.len() && is_gemma_name(#[trigger] lower[j]) ==> gemma_rank(lower[m])
                <= gemma_rank(lower[j])),
{
    let i0 = choose|i: int| 0 <= i < lower.len() && is_gemma_name(lower[i]);
    lemma_first_of_rank(lower, 0, 0);
    lemma_first_of_rank(lower, 1, 0);
    lemma_first_of_rank(lower, 2, 0);
    lemma_first_of_rank(lower, 3, 0);
    let r = if first_of_rank(lower, 0, 0) is Some {
        0int
    } else if first_of_rank(lower, 1, 0) is Some {
        1int
    } else if first_of_rank(lower, 2, 0) is Some {
        2int
    } else {
        3int
    };
    assert(0 <= gemma_rank(lower[i0]) <= 3);
    assert(first_of_rank(lower, r, 0) is Some);
    let w = first_of_rank(lower, r, 0)->Some_0;
    assert(forall|j: int|
        0 <= j < lower.len() && is_gemma_name(#[trigger] lower[j]) ==> gemma_rank(lower[w])
            <= gemma_rank(lower[j]));
    assert(forall|j: int|
        0 <= j < w && is_gemma_name(#[trigger] lower[j]) ==> gemma_rank(lower[j]) > gemma_rank(
            lower[w],
        ));
    let m = gemma_choice(lower)->Some_0;
    assert(0 <= m < lower.len() && is_gemma_name(lower[m]) && (forall|j: int|
        0 <= j < lower.len() && is_gemma_name(#[trigger] lower[j]) ==> gemma_rank(lower[m])
            <= gemma_rank(lower[j])));
}

/// Law: the Gemma file picked is one of the names, a Gemma model, and of
/// the best quantisation present: where a Q4_K_M file is present, the pick
/// is a Q4_K_M file; else where a Q5_K_M file is present, a Q5_K_M file; and
/// where no Gemma file is present, nothing is picked.
pub proof fn lemma_gemma_pick_best(lower: Seq<Seq<char>>, k: int)
    requires
        0 <= k < lower.len(),
    ensures
        is_gemma_name(lower[k]) ==> (gemma_choice(lower) matches Some(m) && 0 <= m < lower.len()
            && is_gemma_name(lower[m]) && gemma_rank(lower[m]) <= gemma_rank(lower[k])),
        is_gemma_name(lower[k]) && contains(lower[k], "q4_k_m"@) ==> (gemma_choice(
            lower,
        ) matches Some(m) && contains(lower[m], "q4_k_m"@)),
        (forall|j: int| 0 <= j < lower.len() ==> !is_gemma_name(#[trigger] lower[j]))
            ==> gemma_choice(lower) is None,
{
    if is_gemma_name(lower[k]) {
        lemma_gemma_choice_witness(lower);
    }
}

/// The lowercased names.
pub open spec fn lowered(names: Seq<String>) -> Seq<Seq<char>> {
    names.map_values(|n: String| lowercase(n@))
}

fn gemma_rank_of(v: &Vec<char>) -> (r: u8)
    ensures
        r as int == gemma_rank(v@),
{
    proof {
        reveal_strlit("q4_k_m");
        reveal_strlit("q5_k_m");
        reveal_strlit("q4_0");
    }
    if contains_chars(v, "q4_k_m") {
        0
    } else if contains_chars(v, "q5_k_m") {
        1
    } else if contains_chars(v, "q4_0") {
        2
    } else {
        3
    }
}

/// Pick the Gemma model file among the names in the models directory.
pub fn pick_gemma_model(names: &[String]) -> (r: Option<usize>)
    ensures
        match r {
            Some(i) => gemma_choice(lowered(names@)) == Some(i as int),
            None => gemma_choice(lowered(names@)) is None,
        },
{
    let ghost lower = lowered(names@);
    let mut best: Option<(usize, u8)> = None;
    let mut i: usize = 0;
    while i < names.len()
        invariant
            i <= names@.len(),
            lower == lowered(names@),
            lower.len() == names@.len(),
            match best {
                None => forall|j: int| 0 <= j < i ==> !is_gemma_name(#[trigger] lower[j]),
                Some((b, rank)) => {
                    &&& b < i
                    &&& is_gemma_name(lower[b as int])
                    &&& rank as int == gemma_rank(lower[b as int])
                    &&& forall|j: int|
                        0 <= j < i && is_gemma_name(#[trigger] lower[j]) ==> rank as int <= gemma_rank(
                            lower[j],
                        )
                    &&& forall|j: int|
                        0 <= j < b && is_gemma_name(#[trigger] lower[j]) ==> gemma_rank(lower[j])
                            > rank as int
                },
            },
        decreases names@.len() - i,
    {
        let l = to_lowercase(names[i].as_str());
        let v = chars_of(l.as_str());
        assert(v@ == lower[i as int]);
        proof {
            reveal_strlit("gemma");
        }
        if contains_chars(&v, "gemma") && ends_with_chars(&v, ".gguf") {
            let rank = gemma_rank_of(&v);
            match best {
                Some((_, br)) => {
                    if rank < br {
                        best = Some((i, rank));
                    }
                },
                None => {
                    best = Some((i, rank));
                },
            }
        }
        i += 1;
    }
    match best {
        Some((b, rank)) => {
            assert(0 <= b < lower.len() && is_gemma_name(lower[b as int]));
            let ghost c = gemma_choice(lower);
            proof {
                let k = c->Some_0;
                assert(k == b as int) by {
                    if k < b as int {
                        assert(gemma_rank(lower[k]) > rank as int);
                    } else if k > b as int {
                        assert(gemma_rank(lower[b as int]) > gemma_rank(lower[k]));
                    }
                }
            }
            Some(b)
        },
        None => None,
    }
}

// ── The speech recognition model ─────────────────────────────────────────

/// Whisper model files by preference: multilingual models first, largest
/// first, then the English-only ones.
pub open spec fn whisper_preferences() -> Seq<Seq<char>> {
    seq![
        "ggml-large-v3-turbo.bin"@,
        "ggml-large-v3.bin"@,
        "ggml-medium.bin"@,
        "ggml-small.bin"@,
        "ggml-base.bin"@,
        "ggml-tiny.bin"@,
        "ggml-small.en.bin"@,
        "ggml-base.en.bin"@,
        "ggml-medium.en.bin"@,
    ]
}

/// An English-only Whisper model: its file name ends in `.en.bin`.
pub open spec fn is_english_only(name: Seq<char>) -> bool {
    ends_with(name, ".en.bin"@)
}

proof fn lemma_preference_kinds()
    ensures
        forall|i: int| 0 <= i < 6 ==> !is_english_only(#[trigger] whisper_preferences()[i]),
        forall|i: int| 6 <= i < 9 ==> is_english_only(#[trigger] whisper_preferences()[i]),
        whisper_preferences().len() == 9,
{
    let p = whisper_preferences();
    reveal_strlit(".en.bin");
    reveal_strlit("ggml-large-v3-turbo.bin");
    assert(p[0].skip(16)[0] != ".en.bin"@[0]);
    assert(!is_english_only(p[0]));
    reveal_strlit("ggml-large-v3.bin");
    assert(p[1].skip(10)[0] != ".en.bin"@[0]);
    assert(!is_english_only(p[1]));
    reveal_strlit("ggml-medium.bin");
    assert(p[2].skip(8)[0] != ".en.bin"@[0]);
    assert(!is_english_only(p[2]));
    reveal_strlit("ggml-small.bin");
    assert(p[3].skip(7)[0] != ".en.bin"@[0]);
    assert(!is_english_only(p[3]));
    reveal_strlit("ggml-base.bin");
    assert(p[4].skip(6)[0] != ".en.bin"@[0]);
    assert(!is_english_only(p[4]));
    reveal_strlit("ggml-tiny.bin");
    assert(p[5].skip(6)[0] != ".en.bin"@[0]);
    assert(!is_english_only(p[5]));
    reveal_strlit("ggml-small.en.bin");
    assert(p[6].skip(10) =~= ".en.bin"@);
    assert(is_english_only(p[6]));
    reveal_strlit("ggml-base.en.bin");
    assert(p[7].skip(9) =~= ".en.bin"@);
    assert(is_english_only(p[7]));
    reveal_strlit("ggml-medium.en.bin");
    assert(p[8].skip(11) =~= ".en.bin"@);
    assert(is_english_only(p[8]));
    assert forall|i: int| 0 <= i < 6 implies !is_english_only(#[trigger] whisper_preferences()[i]) by {
        assert(i == 0 || i == 1 || i == 2 || i == 3 || i == 4 || i == 5);
    }
    assert forall|i: int| 6 <= i < 9 implies is_english_only(#[trigger] whisper_preferences()[i]) by {
        assert(i == 6 || i == 7 || i == 8);
    }
}

/// Law: multilingual models are preferred to English-only ones: no
/// English-only name comes before a multilingual one in the preference
/// list, and the list starts with a multilingual model.
pub proof fn lemma_multilingual_first(i: int, j: int)
    requires
        0 <= i < j < whisper_preferences().len(),
    ensures
        is_english_only(whisper_preferences()[i]) ==> is_english_only(whisper_preferences()[j]),
        !is_english_only(whisper_preferences()[0]),
{
    lemma_preference_kinds();
}

/// Law: when any multilingual model is present, the pick is a preferred
/// multilingual model, never an English-only one or another file.
pub proof fn lemma_pick_prefers_multilingual(present: Seq<bool>, entries: Seq<Seq<char>>, k: int)
    requires
        present.len() == whisper_preferences().len(),
        0 <= k < present.len(),
        present[k],
        !is_english_only(whisper_preferences()[k]),
    ensures
        whisper_choice(present, entries) matches Some((preferred, m)) && preferred && 0 <= m
            < present.len() && present[m] && !is_english_only(whisper_preferences()[m]),
{
    lemma_preference_kinds();
    let m = choose|m: int| 0 <= m < present.len() && present[m] && forall|j: int| 0 <= j < m ==> !#[trigger] present[j];
    assert(m <= k);
    assert(m < 6);
}

/// The preferred Whisper model file names, in order.
pub fn whisper_model_names() -> (r: Vec<&'static str>)
    ensures
        r@.len() == whisper_preferences().len(),
        forall|i: int| 0 <= i < r@.len() ==> #[trigger] r@[i]@ == whisper_preferences()[i],
{
    let r = vec![
        "ggml-large-v3-turbo.bin",
        "ggml-large-v3.bin",
        "ggml-medium.bin",
        "ggml-small.bin",
        "ggml-base.bin",
        "ggml-tiny.bin",
        "ggml-small.en.bin",
        "ggml-base.en.bin",
        "ggml-medium.en.bin",
    ];
    r
}

/// Which Whisper model file to load.
pub enum WhisperPick {
    /// The preferred name at this index.
    Preferred(usize),
    /// The directory entry at this index.
    Entry(usize),
}

/// A directory entry that looks like a Whisper model: "ggml-*.bin".
pub open spec fn is_whisper_name(name: Seq<char>) -> bool {
    starts_with(name, "ggml-"@) && ends_with(name, ".bin"@)
}

/// The first preferred name present; otherwise the first entry that looks
/// like a Whisper model.
pub open spec fn whisper_choice(present: Seq<bool>, entries: Seq<Seq<char>>) -> Option<(bool, int)> {
    if exists|k: int| 0 <= k < present.len() && present[k] {
        Some((true, choose|k: int| 0 <= k < present.len() && present[k] && forall|j: int| 0 <= j < k ==> !#[trigger] present[j]))
    } else if exists|i: int| 0 <= i < entries.len() && is_whisper_name(entries[i]) {
        Some((false, choose|i: int| 0 <= i < entries.len() && is_whisper_name(entries[i]) && forall|j: int| 0 <= j < i ==> !is_whisper_name(#[trigger] entries[j])))
    } else {
        None
    }
}

/// The plain values of a list of names.
pub open spec fn name_views(names: Seq<String>) -> Seq<Seq<char>> {
    names.map_values(|n: String| n@)
}

/// Pick the Whisper model file, given which preferred names exist in the
/// models directory and the names of its entries.
pub fn pick_whisper_model(present: &[bool], entries: &[String]) -> (r: Option<WhisperPick>)
    ensures
        match r {
            Some(WhisperPick::Preferred(k)) => whisper_choice(present@, name_views(entries@)) == Some((true, k as int)),
            Some(WhisperPick::Entry(i)) => whisper_choice(present@, name_views(entries@)) == Some((false, i as int)),
            None => whisper_choice(present@, name_views(entries@)) is None,
        },
{
    let mut k: usize = 0;
    while k < present.len()
        invariant
            k <= present@.len(),
            forall|j: int| 0 <= j < k ==> !#[trigger] present@[j],
        decreases present@.len() - k,
    {
        if present[k] {
            let ghost c = whisper_choice(present@, name_views(entries@));
            proof {
                let m = c->Some_0.1;
                assert(m == k as int) by {
                    if m < k as int {
                        assert(!present@[m]);
                    } else if m > k as int {
                        assert(!present@[k as int]);
                    }
                }
            }
            return Some(WhisperPick::Preferred(k));
        }
        k += 1;
    }
    let ghost ev = name_views(entries@);
    let mut i: usize = 0;
    while i < entries.len()
        invariant
            i <= entries@.len(),
            ev == name_views(entries@),
            forall|j: int| 0 <= j < i ==> !is_whisper_name(#[trigger] ev[j]),
            forall|j: int| 0 <= j < present@.len() ==> !#[trigger] present@[j],
        decreases entries@.len() - i,
    {
        let v = chars_of(entries[i].as_str());
        assert(v@ == ev[i as int]);
        if starts_with_chars(&v, "ggml-") && ends_with_chars(&v, ".bin") {
            let ghost c = whisper_choice(present@, ev);
            proof {
                let m = c->Some_0.1;
                assert(m == i as int) by {
                    if m < i as int {
                        assert(!is_whisper_name(ev[m]));
                    } else if m > i as int {
                        assert(!is_whisper_name(ev[i as int]));
                    }
                }
            }
            return Some(WhisperPick::Entry(i));
        }
        i += 1;
    }
    None
}

} // verus!

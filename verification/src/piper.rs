//! Token ids for Piper VITS voices: phonemes are mapped through the voice's
//! substitutions, then each known phoneme becomes its ids followed by the
//! blank, between the begin and end markers.

use vstd::prelude::*;
use vstd::string::StrSliceExecFns;
use crate::prompt::{join, join_strs, views};
use crate::text::{chars_of, replace_all, replace_text, string_of};
use crate::lessons::first_index_from;
use crate::models::{ends_with, ends_with_chars};

verus! {

/// The number of speakers a voice has when its configuration names none.
pub fn default_num_speakers() -> (n: u32)
    ensures
        n == 1,
{
    1
}

/// `m` with `(k, v)` entered; a later entry for a key replaces an earlier.
pub open spec fn entries_map(es: Seq<(Seq<char>, Seq<i64>)>) -> Map<Seq<char>, Seq<i64>>
    decreases es.len(),
{
    if es.len() == 0 {
        Map::empty()
    } else {
        entries_map(es.drop_last()).insert(es.last().0, es.last().1)
    }
}

/// A voice's table from phoneme (a string) to token ids.
pub struct PhonemeIdMap {
    entries: Vec<(String, Vec<i64>)>,
}

/// The plain values of the table's entries.
pub open spec fn entry_views(v: Seq<(String, Vec<i64>)>) -> Seq<(Seq<char>, Seq<i64>)> {
    v.map_values(|e: (String, Vec<i64>)| (e.0@, e.1@))
}

impl View for PhonemeIdMap {
    type V = Map<Seq<char>, Seq<i64>>;

    closed spec fn view(&self) -> Map<Seq<char>, Seq<i64>> {
        entries_map(entry_views(self.entries@))
    }
}

/// A copy of a list of ids.
fn copy_ids(v: &Vec<i64>) -> (r: Vec<i64>)
    ensures
        r@ == v@,
{
    let mut r: Vec<i64> = Vec::new();
    let mut i: usize = 0;
    while i < v.len()
        invariant
            i <= v@.len(),
            r@ == v@.take(i as int),
        decreases v@.len() - i,
    {
        r.push(v[i]);
        assert(v@.take(i + 1) == v@.take(i as int).push(v@[i as int]));
        i += 1;
    }
    assert(v@.take(v@.len() as int) == v@);
    r
}

/// Whether two character sequences are equal.
fn chars_eq(a: &Vec<char>, b: &Vec<char>) -> (r: bool)
    ensures
        r == (a@ == b@),
{
    if a.len() != b.len() {
        return false;
    }
    let mut i: usize = 0;
    while i < a.len()
        invariant
            a@.len() == b@.len(),
            i <= a@.len(),
            forall|k: int| 0 <= k < i ==> a@[k] == b@[k],
        decreases a@.len() - i,
    {
        if a[i] != b[i] {
            return false;
        }
        i += 1;
    }
    assert(a@ =~= b@);
    true
}

impl PhonemeIdMap {
    /// An empty table.
    pub fn new() -> (m: Self)
        ensures
            m@ == Map::<Seq<char>, Seq<i64>>::empty(),
    {
        let m = PhonemeIdMap { entries: Vec::new() };
        assert(entry_views(m.entries@) =~= Seq::<(Seq<char>, Seq<i64>)>::empty());
        m
    }

    /// Enter the ids of a phoneme, replacing any it had.
    pub fn insert(&mut self, phoneme: String, ids: Vec<i64>)
        ensures
            final(self)@ == old(self)@.insert(phoneme@, ids@),
    {
        let ghost e = (phoneme@, ids@);
        self.entries.push((phoneme, ids));
        assert(entry_views(self.entries@).drop_last() =~= entry_views(old(self).entries@));
        assert(entry_views(self.entries@).last() == e);
    }

    /// The ids of a phoneme, if the table has it.
    pub fn get(&self, phoneme: &Vec<char>) -> (r: Option<Vec<i64>>)
        ensures
            match r {
                Some(ids) => self@.contains_key(phoneme@) && self@[phoneme@] == ids@,
                None => !self@.contains_key(phoneme@),
            },
    {
        let ghost es = entry_views(self.entries@);
        let mut i = self.entries.len();
        while i > 0
            invariant
                i <= self.entries@.len(),
                es == entry_views(self.entries@),
                forall|k: int| i <= k < es.len() ==> es[k].0 != phoneme@,
            decreases i,
        {
            let key = chars_of(self.entries[i - 1].0.as_str());
            if chars_eq(&key, phoneme) {
                proof {
                    lemma_last_entry_wins(es, i - 1);
                }
                return Some(copy_ids(&self.entries[i - 1].1));
            }
            i -= 1;
        }
        proof {
            lemma_absent_key(es, phoneme@);
        }
        None
    }
}

/// The entry at `j`, with no later entry for its key, gives the key's value.
proof fn lemma_last_entry_wins(es: Seq<(Seq<char>, Seq<i64>)>, j: int)
    requires
        0 <= j < es.len(),
        forall|k: int| j < k < es.len() ==> es[k].0 != es[j].0,
    ensures
        entries_map(es).contains_key(es[j].0),
        entries_map(es)[es[j].0] == es[j].1,
    decreases es.len(),
{
    if j < es.len() - 1 {
        let p = es.drop_last();
        assert forall|k: int| j < k < p.len() implies p[k].0 != p[j].0 by {
            assert(p[k] == es[k]);
        }
        lemma_last_entry_wins(p, j);
    }
}

/// A key no entry has is not in the table.
proof fn lemma_absent_key(es: Seq<(Seq<char>, Seq<i64>)>, key: Seq<char>)
    requires
        forall|k: int| 0 <= k < es.len() ==> es[k].0 != key,
    ensures
        !entries_map(es).contains_key(key),
    decreases es.len(),
{
    if es.len() > 0 {
        let p = es.drop_last();
        assert forall|k: int| 0 <= k < p.len() implies p[k].0 != key by {
            assert(p[k] == es[k]);
        }
        lemma_absent_key(p, key);
    }
}

/// The ids of `key`, or `default` where the table has none.
pub open spec fn ids_or(m: Map<Seq<char>, Seq<i64>>, key: Seq<char>, default: Seq<i64>) -> Seq<i64> {
    if m.contains_key(key) {
        m[key]
    } else {
        default
    }
}

/// The ids of the phonemes of `s`, each followed by the blank; phonemes the
/// table does not have are skipped.
pub open spec fn body_ids(m: Map<Seq<char>, Seq<i64>>, s: Seq<char>) -> Seq<i64>
    decreases s.len(),
{
    if s.len() == 0 {
        Seq::empty()
    } else {
        body_ids(m, s.drop_last()) + if m.contains_key(seq![s.last()]) {
            m[seq![s.last()]] + ids_or(m, "_"@, seq![0i64])
        } else {
            Seq::empty()
        }
    }
}

/// The token ids of a phoneme string: the begin marker, the body, the end
/// marker (by default 1, 2 and blank 0).
pub open spec fn phoneme_ids(m: Map<Seq<char>, Seq<i64>>, s: Seq<char>) -> Seq<i64> {
    ids_or(m, "^"@, seq![1i64]) + body_ids(m, s) + ids_or(m, "$"@, seq![2i64])
}

fn lookup_or(m: &PhonemeIdMap, key: &str, default: i64) -> (r: Vec<i64>)
    ensures
        r@ == ids_or(m@, key@, seq![default]),
{
    let k = chars_of(key);
    match m.get(&k) {
        Some(ids) => ids,
        None => {
            let v: Vec<i64> = vec![default];
            assert(v@ =~= seq![default]);
            v
        },
    }
}

fn extend_ids(out: &mut Vec<i64>, more: &Vec<i64>)
    ensures
        final(out)@ == old(out)@ + more@,
{
    let mut i: usize = 0;
    while i < more.len()
        invariant
            i <= more@.len(),
            out@ == old(out)@ + more@.take(i as int),
        decreases more@.len() - i,
    {
        out.push(more[i]);
        assert(more@.take(i + 1) == more@.take(i as int).push(more@[i as int]));
        i += 1;
    }
    assert(more@.take(more@.len() as int) == more@);
}

/// Convert a phoneme string to Piper token ids.
pub fn phonemes_to_ids(m: &PhonemeIdMap, phonemes: &str) -> (ids: Vec<i64>)
    ensures
        ids@ == phoneme_ids(m@, phonemes@),
{
    let bos = lookup_or(m, "^", 1);
    let eos = lookup_or(m, "$", 2);
    let pad = lookup_or(m, "_", 0);
    let v = chars_of(phonemes);
    let mut ids: Vec<i64> = Vec::new();
    extend_ids(&mut ids, &bos);
    let mut i: usize = 0;
    while i < v.len()
        invariant
            i <= v@.len(),
            v@ == phonemes@,
            pad@ == ids_or(m@, "_"@, seq![0i64]),
            ids@ == bos@ + body_ids(m@, v@.take(i as int)),
        decreases v@.len() - i,
    {
        let ghost t = v@.take(i + 1);
        assert(t.drop_last() == v@.take(i as int));
        assert(t.last() == v@[i as int]);
        let key: Vec<char> = vec![v[i]];
        assert(key@ =~= seq![v@[i as int]]);
        match m.get(&key) {
            Some(mapped) => {
                extend_ids(&mut ids, &mapped);
                extend_ids(&mut ids, &pad);
            },
            None => {},
        }
        assert(ids@ =~= bos@ + body_ids(m@, t));
        i += 1;
    }
    assert(v@.take(v@.len() as int) == v@);
    extend_ids(&mut ids, &eos);
    ids
}

/// The phoneme substitutions applied in the given order.
pub open spec fn substituted(s: Seq<char>, pairs: Seq<(Seq<char>, Seq<char>)>) -> Seq<char>
    decreases pairs.len(),
{
    if pairs.len() == 0 {
        s
    } else {
        replace_all(substituted(s, pairs.drop_last()), pairs.last().0, pairs.last().1)
    }
}

/// The plain values of substitution pairs.
pub open spec fn pair_views(v: Seq<(String, String)>) -> Seq<(Seq<char>, Seq<char>)> {
    v.map_values(|p: (String, String)| (p.0@, p.1@))
}

/// Apply a voice's phoneme substitutions, in the order given.
pub fn apply_phoneme_map(phonemes: String, pairs: &[(String, String)]) -> (r: String)
    ensures
        r@ == substituted(phonemes@, pair_views(pairs@)),
{
    let mut result = phonemes;
    let mut i: usize = 0;
    while i < pairs.len()
        invariant
            i <= pairs@.len(),
            result@ == substituted(phonemes@, pair_views(pairs@.take(i as int))),
        decreases pairs@.len() - i,
    {
        assert(pair_views(pairs@.take(i + 1)).drop_last() =~= pair_views(pairs@.take(i as int)));
        let (from, to) = (&pairs[i].0, &pairs[i].1);
        result = replace_text(result.as_str(), from.as_str(), to.as_str());
        i += 1;
    }
    assert(pairs@.take(pairs@.len() as int) == pairs@);
    result
}

/// The model input for a text's phonemes, or `None` where there is nothing
/// to say: no phonemes, or no phoneme the voice knows (only the begin and
/// end markers would be left).
pub open spec fn voice_input(
    m: Map<Seq<char>, Seq<i64>>,
    pairs: Seq<(Seq<char>, Seq<char>)>,
    sentences: Seq<Seq<char>>,
) -> Option<Seq<i64>> {
    let phonemes = join(sentences, " "@);
    if phonemes.len() == 0 {
        None
    } else {
        let ids = phoneme_ids(m, substituted(phonemes, pairs));
        if ids.len() <= 2 {
            None
        } else {
            Some(ids)
        }
    }
}

/// Two phonemized sentences are joined with one space.
proof fn lemma_join_two(s1: Seq<char>, s2: Seq<char>)
    ensures
        join(seq![s1, s2], " "@) == s1 + " "@ + s2,
        join(seq![s1 + " "@ + s2], " "@) == s1 + " "@ + s2,
{
    assert(seq![s1, s2].drop_last() =~= seq![s1]);
    assert(seq![s1, s2].last() == s2);
    assert(seq![s1][0] == s1);
    assert(join(seq![s1], " "@) == s1);
    assert(seq![s1 + " "@ + s2][0] == s1 + " "@ + s2);
}

/// Law: the voice reads two phonemized sentences as one phoneme string with
/// a single space between them: the same ids as for that joined string,
/// namely its phoneme ids after the substitutions when they hold more than
/// the begin and end markers.
pub proof fn lemma_voice_sentences_joined_by_space(
    m: Map<Seq<char>, Seq<i64>>,
    pairs: Seq<(Seq<char>, Seq<char>)>,
    s1: Seq<char>,
    s2: Seq<char>,
)
    ensures
        voice_input(m, pairs, seq![s1, s2]) == voice_input(m, pairs, seq![s1 + " "@ + s2]),
        voice_input(m, pairs, seq![s1, s2]) == (if phoneme_ids(
            m,
            substituted(s1 + " "@ + s2, pairs),
        ).len() <= 2 {
            None
        } else {
            Some(phoneme_ids(m, substituted(s1 + " "@ + s2, pairs)))
        }),
{
    lemma_join_two(s1, s2);
    reveal_strlit(" ");
    assert((s1 + " "@ + s2).len() > 0);
}

/// The token ids to run a Piper voice on, from the phonemized sentences of
/// a text.
pub fn piper_input_ids(
    m: &PhonemeIdMap,
    pairs: &[(String, String)],
    phoneme_sentences: &[&str],
) -> (r: Option<Vec<i64>>)
    ensures
        match r {
            Some(ids) => voice_input(m@, pair_views(pairs@), views(phoneme_sentences@)) == Some(ids@),
            None => voice_input(m@, pair_views(pairs@), views(phoneme_sentences@)) is None,
        },
{
    let phonemes = join_strs(phoneme_sentences, " ");
    if phonemes.as_str().unicode_len() == 0 {
        return None;
    }
    let mapped = apply_phoneme_map(phonemes, pairs);
    let ids = phonemes_to_ids(m, mapped.as_str());
    if ids.len() <= 2 {
        None
    } else {
        Some(ids)
    }
}

// ── Voice files ──────────────────────────────────────────────────────────

/// The text of `s` before its first `c`, or all of it.
pub open spec fn before_first(s: Seq<char>, c: char) -> Seq<char> {
    match first_index_from(s, c, 0) {
        Some(i) => s.take(i),
        None => s,
    }
}

/// The language of a voice model file: a file named like
/// `en_US-lessac-medium.onnx` (not `.onnx.json`) is a voice for the text
/// before its first `_`, when that is not empty.
pub open spec fn voice_language(name: Seq<char>) -> Option<Seq<char>> {
    if ends_with(name, ".onnx"@) && !ends_with(name, ".onnx.json"@) && before_first(name, '_').len()
        > 0 {
        Some(before_first(name, '_'))
    } else {
        None
    }
}

/// The language a voice model file is for, by its name.
pub fn piper_voice_language(file_name: &str) -> (r: Option<String>)
    ensures
        match r {
            Some(l) => voice_language(file_name@) == Some(l@),
            None => voice_language(file_name@) is None,
        },
{
    let v = chars_of(file_name);
    if !ends_with_chars(&v, ".onnx") || ends_with_chars(&v, ".onnx.json") {
        return None;
    }
    let mut i: usize = 0;
    while i < v.len() && v[i] != '_'
        invariant
            i <= v@.len(),
            v@ == file_name@,
            first_index_from(v@, '_', 0) == first_index_from(v@, '_', i as int),
        decreases v@.len() - i,
    {
        i += 1;
    }
    if i == 0 {
        return None;
    }
    let lang = string_of(&v.as_slice()[0..i]);
    assert(v@.subrange(0, i as int) == v@.take(i as int));
    if i == v.len() {
        assert(v@.take(i as int) == v@);
    }
    Some(lang)
}

} // verus!

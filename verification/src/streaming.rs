//! Taking sentences while the text still arrives hands out the same
//! sentences as taking them once at the end.

use vstd::prelude::*;
use crate::parser::{
    cut_from, cut_piece, cut_sentences, is_terminator, lemma_run_ends, terminator_run_end, trim, trim_end, trim_start,
    ws_run_end,
};
use crate::text::is_ws;
use crate::parser::{lemma_capture_grows, StreamingJsonParser};

verus! {

/// A run of terminators that ends inside `a` ends at the same place in any
/// extension of `a`.
proof fn lemma_run_ends_prefix(a: Seq<char>, b: Seq<char>, j: int)
    requires
        0 <= j <= a.len(),
    ensures
        terminator_run_end(a, j) < a.len() ==> terminator_run_end(a + b, j) == terminator_run_end(
            a,
            j,
        ),
        ws_run_end(a, j) < a.len() ==> ws_run_end(a + b, j) == ws_run_end(a, j),
        ws_run_end(a, j) <= ws_run_end(a + b, j),
        forall|k: int| ws_run_end(a, j) <= k < ws_run_end(a + b, j) ==> is_ws(#[trigger] (a + b)[k]),
    decreases a.len() - j,
{
    let c = a + b;
    lemma_run_ends(c, j);
    if j < a.len() {
        assert(c[j] == a[j]);
        lemma_run_ends_prefix(a, b, j + 1);
    } else {
        lemma_run_ends(a, j);
    }
}

/// Skipping characters that are not terminators does not change the cut.
proof fn lemma_cut_skip(c: Seq<char>, f: bool, i: int, j: int, lc: int)
    requires
        0 <= i <= j <= c.len(),
        forall|k: int| i <= k < j ==> !is_terminator(#[trigger] c[k]),
    ensures
        cut_from(c, f, i, lc) == cut_from(c, f, j, lc),
    decreases j - i,
{
    if i < j {
        lemma_cut_skip(c, f, i + 1, j, lc);
    }
}

/// Leading White_Space does not change a trimmed text.
proof fn lemma_trim_ws_prefix(s: Seq<char>, k: int)
    requires
        0 <= k <= s.len(),
        forall|j: int| 0 <= j < k ==> is_ws(#[trigger] s[j]),
    ensures
        trim(s) == trim(s.skip(k)),
    decreases k,
{
    if k > 0 {
        let t = s.drop_first();
        assert forall|j: int| 0 <= j < k - 1 implies is_ws(#[trigger] t[j]) by {
            assert(t[j] == s[j + 1]);
        }
        lemma_trim_ws_prefix(t, k - 1);
        assert(t.skip(k - 1) == s.skip(k));
        assert(trim_start(s) == trim_start(t));
    } else {
        assert(s.skip(0) == s);
    }
}

/// A trimmed text of White_Space alone is empty.
proof fn lemma_trim_all_ws(s: Seq<char>)
    requires
        forall|j: int| 0 <= j < s.len() ==> is_ws(#[trigger] s[j]),
    ensures
        trim(s) == Seq::<char>::empty(),
{
    lemma_trim_ws_prefix(s, s.len() as int);
    assert(s.skip(s.len() as int) =~= Seq::<char>::empty());
}

/// Moving the last cut over White_Space does not change the sentences.
proof fn lemma_cut_ws(c: Seq<char>, f: bool, i: int, lc: int, lc2: int)
    requires
        0 <= i,
        0 <= lc <= lc2 <= c.len(),
        forall|k: int| lc <= k < lc2 ==> is_ws(#[trigger] c[k]),
    ensures
        cut_from(c, f, i, lc).0 == cut_from(c, f, i, lc2).0,
    decreases c.len() - i,
{
    if i >= c.len() {
        if f && lc < c.len() {
            let s = c.subrange(lc, c.len() as int);
            assert forall|j: int| 0 <= j < lc2 - lc implies is_ws(#[trigger] s[j]) by {
                assert(s[j] == c[lc + j]);
            }
            lemma_trim_ws_prefix(s, lc2 - lc);
            assert(s.skip(lc2 - lc) == c.subrange(lc2, c.len() as int));
            if lc2 == c.len() {
                assert(c.subrange(lc2, c.len() as int) =~= Seq::<char>::empty());
            }
        }
    } else if !is_terminator(c[i]) {
        lemma_cut_ws(c, f, i + 1, lc, lc2);
    } else {
        let end = terminator_run_end(c, i + 1);
        lemma_run_ends(c, i + 1);
        let committed = if end < c.len() { is_ws(c[end]) } else { f };
        if committed {
            if lc <= end {
                let s = c.subrange(lc, end);
                if lc2 <= end {
                    assert forall|j: int| 0 <= j < lc2 - lc implies is_ws(#[trigger] s[j]) by {
                        assert(s[j] == c[lc + j]);
                    }
                    lemma_trim_ws_prefix(s, lc2 - lc);
                    assert(s.skip(lc2 - lc) == c.subrange(lc2, end));
                } else {
                    assert forall|j: int| 0 <= j < s.len() implies is_ws(#[trigger] s[j]) by {
                        assert(s[j] == c[lc + j]);
                    }
                    lemma_trim_all_ws(s);
                }
            }
        } else {
            lemma_cut_ws(c, f, end, lc, lc2);
        }
    }
}

/// A run that starts inside another run ends where that one ends.
proof fn lemma_run_end_mid(c: Seq<char>, x: int, y: int)
    requires
        0 <= x <= y <= terminator_run_end(c, x),
    ensures
        terminator_run_end(c, y) == terminator_run_end(c, x),
    decreases y - x,
{
    if x < y {
        lemma_run_end_mid(c, x + 1, y);
    }
}

/// A White_Space run seen from inside ends where it ends.
proof fn lemma_ws_end_mid(c: Seq<char>, x: int, y: int)
    requires
        0 <= x <= y <= ws_run_end(c, x),
    ensures
        ws_run_end(c, y) == ws_run_end(c, x),
    decreases y - x,
{
    if x < y {
        lemma_ws_end_mid(c, x + 1, y);
    }
}

/// With the last cut at the end of the White_Space run that starts at `i`,
/// scanning that run changes nothing: newlines in it close only empty
/// sentences.
proof fn lemma_cut_skip_ws(c: Seq<char>, f: bool, i: int, lc: int)
    requires
        0 <= i <= c.len(),
        lc == ws_run_end(c, i),
    ensures
        cut_from(c, f, i, lc) == cut_from(c, f, lc, lc),
    decreases lc - i,
{
    lemma_run_ends(c, i);
    if i < lc {
        if !is_terminator(c[i]) {
            lemma_ws_end_mid(c, i, i + 1);
            lemma_cut_skip_ws(c, f, i + 1, lc);
        } else {
            let end = terminator_run_end(c, i + 1);
            lemma_run_ends(c, i + 1);
            if end < lc {
                assert(is_ws(c[end]));
                lemma_ws_end_mid(c, i, end);
                lemma_cut_skip_ws(c, f, end, lc);
                assert(cut_piece(c, lc, end) == Seq::<char>::empty());
            } else if end == lc {
                if end == c.len() && f {
                    assert(c.subrange(lc, end) =~= Seq::<char>::empty());
                    lemma_trim_all_ws(c.subrange(lc, end));
                    lemma_run_ends(c, end);
                }
            } else {
                assert(is_terminator(c[lc]));
                lemma_run_end_mid(c, i + 1, lc + 1);
            }
        }
    }
}

/// Runs in a text without its first `k` characters end `k` earlier.
proof fn lemma_run_ends_shift(c: Seq<char>, k: int, j: int)
    requires
        0 <= k <= j <= c.len(),
    ensures
        terminator_run_end(c.skip(k), j - k) == terminator_run_end(c, j) - k,
        ws_run_end(c.skip(k), j - k) == ws_run_end(c, j) - k,
    decreases c.len() - j,
{
    if j < c.len() {
        assert(c.skip(k)[j - k] == c[j]);
        lemma_run_ends_shift(c, k, j + 1);
    }
}

/// Cutting a text without its first `k` characters, from a cut at or after
/// `k`, gives the same sentences.
proof fn lemma_cut_shift(c: Seq<char>, f: bool, k: int, i: int, lc: int)
    requires
        0 <= k <= i,
        k <= lc <= c.len(),
    ensures
        cut_from(c.skip(k), f, i - k, lc - k).0 == cut_from(c, f, i, lc).0,
        cut_from(c.skip(k), f, i - k, lc - k).1 == cut_from(c, f, i, lc).1 - k,
    decreases c.len() - i,
{
    let d = c.skip(k);
    if i >= c.len() {
        assert(d.subrange(lc - k, d.len() as int) == c.subrange(lc, c.len() as int));
    } else {
        assert(d[i - k] == c[i]);
        if !is_terminator(c[i]) {
            lemma_cut_shift(c, f, k, i + 1, lc);
        } else {
            let end = terminator_run_end(c, i + 1);
            lemma_run_ends(c, i + 1);
            lemma_run_ends_shift(c, k, i + 1);
            if end < c.len() {
                assert(d[end - k] == c[end]);
            }
            let committed = if end < c.len() { is_ws(c[end]) } else { f };
            if committed {
                lemma_run_ends(c, end);
                lemma_run_ends_shift(c, k, end);
                if lc <= end {
                    assert(d.subrange(lc - k, end - k) == c.subrange(lc, end));
                }
                lemma_cut_shift(c, f, k, end, ws_run_end(c, end));
            } else {
                lemma_cut_shift(c, f, k, end, lc);
            }
        }
    }
}

/// The cut of `a + b` continues the cut of `a` (taken before the string
/// was finished) from where that cut stopped.
proof fn lemma_cut_extend(a: Seq<char>, b: Seq<char>, f: bool, i: int, lc: int)
    requires
        0 <= i <= a.len(),
        0 <= lc <= a.len(),
        forall|k: int| i <= k < lc ==> is_ws(#[trigger] a[k]),
        cut_from(a + b, f, i, lc).0 == cut_from(a + b, f, lc, lc).0,
    ensures
        cut_from(a + b, f, i, lc).0 == cut_from(a, false, i, lc).0 + cut_from(
            a + b,
            f,
            cut_from(a, false, i, lc).1,
            cut_from(a, false, i, lc).1,
        ).0,
    decreases a.len() - i,
{
    let c = a + b;
    let (s, k) = cut_from(a, false, i, lc);
    if i == a.len() {
        assert(s == Seq::<Seq<char>>::empty());
        assert(s + cut_from(c, f, k, k).0 == cut_from(c, f, k, k).0);
    } else {
        assert(c[i] == a[i]);
        if !is_terminator(a[i]) {
            if lc > i {
                assert(is_ws(a[i]));
            }
            lemma_cut_skip(c, f, i, i + 1, lc);
            lemma_cut_extend(a, b, f, i + 1, lc);
        } else {
            let end = terminator_run_end(a, i + 1);
            lemma_run_ends(a, i + 1);
            lemma_run_ends(c, i + 1);
            lemma_run_ends_prefix(a, b, i + 1);
            if end == a.len() {
                assert(cut_from(a, false, end, lc) == (Seq::<Seq<char>>::empty(), lc));
                assert(s == Seq::<Seq<char>>::empty());
                assert(k == lc);
                assert(s + cut_from(c, f, k, k).0 == cut_from(c, f, k, k).0);
            } else {
                assert(c[end] == a[end]);
                let committed = is_ws(a[end]);
                if committed {
                    if lc <= end {
                        assert(c.subrange(lc, end) == a.subrange(lc, end));
                    }
                    let sent = cut_piece(a, lc, end);
                    assert(cut_piece(c, lc, end) == sent);
                    lemma_run_ends(a, end);
                    lemma_run_ends(c, end);
                    lemma_run_ends_prefix(a, b, end);
                    let w = ws_run_end(a, end);
                    let wc = ws_run_end(c, end);
                    assert forall|q: int| end <= q < w implies is_ws(#[trigger] a[q]) by {
                        assert(a[q] == c[q]);
                    }
                    // The cut after the run, in `c`, may reach past `a`.
                    lemma_cut_ws(c, f, end, w, wc);
                    lemma_cut_skip_ws(c, f, end, wc);
                    lemma_ws_end_mid(c, end, w);
                    lemma_cut_ws(c, f, w, w, wc);
                    lemma_cut_skip_ws(c, f, w, wc);
                    lemma_cut_extend(a, b, f, end, w);
                    let rest_a = cut_from(a, false, end, w);
                    if sent.len() > 0 {
                        assert(s == seq![sent] + rest_a.0);
                        assert((seq![sent] + rest_a.0) + cut_from(c, f, k, k).0 == seq![sent] + (
                        rest_a.0 + cut_from(c, f, k, k).0));
                    }
                } else {
                    lemma_cut_extend(a, b, f, end, lc);
                }
            }
        }
    }
}

/// Law: taking the sentences of a string that is still arriving, then
/// taking the sentences of what is pending once more text (and perhaps the
/// closing quote) has arrived, hands out exactly the sentences that one
/// take at the end would hand out.
pub proof fn lemma_takes_compose(a: Seq<char>, b: Seq<char>, fin: bool)
    ensures
        cut_sentences(a, false).0 + cut_sentences((a + b).skip(cut_sentences(a, false).1), fin).0
            == cut_sentences(a + b, fin).0,
{
    let c = a + b;
    crate::parser::lemma_cut_from_bounds(a, false, 0, 0);
    lemma_cut_extend(a, b, fin, 0, 0);
    let k = cut_sentences(a, false).1;
    lemma_cut_shift(c, fin, k, k, k);
}

/// Law, for the parser: sentences taken from a parser `p0` whose string is
/// still open (leaving `p1`), followed by the sentences pending in `p2`, a
/// later state of `p1` that was only fed more text, are exactly the
/// sentences one take would hand out for everything captured since `p0`.
pub proof fn lemma_parser_takes_compose(
    p0: &StreamingJsonParser,
    p1: &StreamingJsonParser,
    p2: &StreamingJsonParser,
)
    requires
        p0.wf(),
        p1.wf(),
        p2.wf(),
        !p0.done(),
        p1.text() == p0.text(),
        p1.emitted() == p0.emitted() + cut_sentences(p0.pending(), false).1,
        p1.text().len() <= p2.text().len(),
        p2.text().subrange(0, p1.text().len() as int) == p1.text(),
        p2.emitted() == p1.emitted(),
    ensures
        cut_sentences(p0.pending(), false).0 + cut_sentences(p2.pending(), p2.done()).0
            == cut_sentences(
            p2.captured_text().subrange(p0.emitted(), p2.captured_text().len() as int),
            p2.done(),
        ).0,
{
    let t1 = p1.text();
    let ext = p2.text().skip(t1.len() as int);
    assert(p2.text() == t1 + ext);
    lemma_capture_grows(t1, ext);
    let cap1 = p1.captured_text();
    let cap2 = p2.captured_text();
    let e0 = p0.emitted();
    let a = p0.pending();
    let b = cap2.subrange(cap1.len() as int, cap2.len() as int);
    assert(cap1 == p0.captured_text());
    assert(a + b == cap2.subrange(e0, cap2.len() as int));
    crate::parser::lemma_cut_from_bounds(a, false, 0, 0);
    let k1 = cut_sentences(a, false).1;
    assert((a + b).skip(k1) == p2.pending());
    lemma_takes_compose(a, b, p2.done());
}

// ── Nothing lost, nothing repeated ───────────────────────────────────────

/// The characters of `s` that are not White_Space, in order.
pub open spec fn non_ws(s: Seq<char>) -> Seq<char>
    decreases s.len(),
{
    if s.len() == 0 {
        Seq::empty()
    } else if is_ws(s.last()) {
        non_ws(s.drop_last())
    } else {
        non_ws(s.drop_last()).push(s.last())
    }
}

/// Sentences joined end to end.
pub open spec fn joined(ss: Seq<Seq<char>>) -> Seq<char>
    decreases ss.len(),
{
    if ss.len() == 0 {
        Seq::empty()
    } else {
        ss[0] + joined(ss.drop_first())
    }
}

proof fn lemma_non_ws_add(a: Seq<char>, b: Seq<char>)
    ensures
        non_ws(a + b) == non_ws(a) + non_ws(b),
    decreases b.len(),
{
    if b.len() == 0 {
        assert(a + b == a);
        assert(non_ws(a) + Seq::<char>::empty() == non_ws(a));
    } else {
        lemma_non_ws_add(a, b.drop_last());
        assert((a + b).drop_last() == a + b.drop_last());
        assert((a + b).last() == b.last());
        if !is_ws(b.last()) {
            assert((non_ws(a) + non_ws(b.drop_last())).push(b.last()) == non_ws(a) + non_ws(
                b.drop_last(),
            ).push(b.last()));
        }
    }
}

proof fn lemma_non_ws_all_ws(s: Seq<char>)
    requires
        forall|j: int| 0 <= j < s.len() ==> is_ws(#[trigger] s[j]),
    ensures
        non_ws(s) == Seq::<char>::empty(),
    decreases s.len(),
{
    if s.len() > 0 {
        let t = s.drop_last();
        assert forall|j: int| 0 <= j < t.len() implies is_ws(#[trigger] t[j]) by {
            assert(t[j] == s[j]);
        }
        lemma_non_ws_all_ws(t);
    }
}

proof fn lemma_non_ws_trim_start(s: Seq<char>)
    ensures
        non_ws(trim_start(s)) == non_ws(s),
    decreases s.len(),
{
    if s.len() > 0 && is_ws(s[0]) {
        lemma_non_ws_trim_start(s.drop_first());
        assert(s == seq![s[0]] + s.drop_first());
        lemma_non_ws_add(seq![s[0]], s.drop_first());
        assert(seq![s[0]].drop_last() =~= Seq::<char>::empty());
        assert(seq![s[0]].last() == s[0]);
        assert(non_ws(Seq::<char>::empty()) == Seq::<char>::empty());
        assert(non_ws(seq![s[0]]) == non_ws(seq![s[0]].drop_last()));
    }
}

proof fn lemma_non_ws_trim_end(s: Seq<char>)
    ensures
        non_ws(trim_end(s)) == non_ws(s),
    decreases s.len(),
{
    if s.len() > 0 && is_ws(s.last()) {
        lemma_non_ws_trim_end(s.drop_last());
    }
}

/// Trimming keeps every character that is not White_Space.
proof fn lemma_non_ws_trim(s: Seq<char>)
    ensures
        non_ws(trim(s)) == non_ws(s),
{
    lemma_non_ws_trim_start(s);
    lemma_non_ws_trim_end(trim_start(s));
}

proof fn lemma_joined_add(x: Seq<Seq<char>>, y: Seq<Seq<char>>)
    ensures
        joined(x + y) == joined(x) + joined(y),
    decreases x.len(),
{
    if x.len() == 0 {
        assert(x + y == y);
        assert(Seq::<char>::empty() + joined(y) == joined(y));
    } else {
        assert((x + y).drop_first() == x.drop_first() + y);
        lemma_joined_add(x.drop_first(), y);
        assert((x + y)[0] == x[0]);
    }
}

/// The White_Space run from `end` reaches past any White_Space stretch
/// that starts there.
proof fn lemma_ws_run_covers(r: Seq<char>, end: int, lc: int)
    requires
        0 <= end <= lc <= r.len(),
        forall|k: int| end <= k < lc ==> is_ws(#[trigger] r[k]),
    ensures
        lc <= ws_run_end(r, end),
    decreases lc - end,
{
    lemma_run_ends(r, end);
    if end < lc {
        assert(is_ws(r[end]));
        lemma_ws_run_covers(r, end + 1, lc);
        assert(ws_run_end(r, end) == ws_run_end(r, end + 1));
    }
}

proof fn lemma_cut_keeps(r: Seq<char>, i: int, lc: int)
    requires
        0 <= i,
        0 <= lc <= r.len(),
        forall|k: int| i <= k < lc ==> is_ws(#[trigger] r[k]),
    ensures
        non_ws(joined(cut_from(r, true, i, lc).0)) == non_ws(r.subrange(lc, r.len() as int)),
    decreases r.len() - i,
{
    let res = cut_from(r, true, i, lc);
    if i >= r.len() {
        if lc < r.len() {
            let sub = r.subrange(lc, r.len() as int);
            let t = trim(sub);
            lemma_non_ws_trim(sub);
            if t.len() > 0 {
                assert(res.0 == seq![t]);
                assert(seq![t].drop_first() =~= Seq::<Seq<char>>::empty());
                assert(joined(Seq::<Seq<char>>::empty()) == Seq::<char>::empty());
                assert(seq![t][0] == t);
                assert(joined(seq![t]) == seq![t][0] + joined(seq![t].drop_first()));
                assert(joined(res.0) == t + Seq::<char>::empty());
                assert(t + Seq::<char>::empty() == t);
            } else {
                assert(t =~= Seq::<char>::empty());
            }
        } else {
            assert(r.subrange(lc, r.len() as int) =~= Seq::<char>::empty());
        }
    } else if !is_terminator(r[i]) {
        lemma_cut_keeps(r, i + 1, lc);
    } else {
        let end = terminator_run_end(r, i + 1);
        lemma_run_ends(r, i + 1);
        let committed = if end < r.len() { is_ws(r[end]) } else { true };
        if committed {
            lemma_run_ends(r, end);
            let w = ws_run_end(r, end);
            lemma_cut_keeps(r, end, w);
            let rest = cut_from(r, true, end, w);
            let piece = cut_piece(r, lc, end);
            if piece.len() > 0 {
                assert(res.0 == seq![piece] + rest.0);
                assert((seq![piece] + rest.0).drop_first() == rest.0);
                lemma_non_ws_add(piece, joined(rest.0));
            } else {
                assert(res.0 == rest.0);
            }
            let tail = r.subrange(w, r.len() as int);
            if lc <= end {
                let head = r.subrange(lc, end);
                let gap = r.subrange(end, w);
                assert(r.subrange(lc, r.len() as int) == head + gap + tail);
                lemma_non_ws_trim(head);
                assert forall|j: int| 0 <= j < gap.len() implies is_ws(#[trigger] gap[j]) by {
                    assert(gap[j] == r[end + j]);
                }
                lemma_non_ws_all_ws(gap);
                lemma_non_ws_add(head + gap, tail);
                lemma_non_ws_add(head, gap);
                if piece.len() == 0 {
                    assert(piece =~= Seq::<char>::empty());
                }
            } else {
                lemma_ws_run_covers(r, end, lc);
                let gap = r.subrange(lc, w);
                assert(r.subrange(lc, r.len() as int) == gap + tail);
                assert forall|j: int| 0 <= j < gap.len() implies is_ws(#[trigger] gap[j]) by {
                    assert(gap[j] == r[lc + j]);
                }
                lemma_non_ws_all_ws(gap);
                lemma_non_ws_add(gap, tail);
            }
        } else {
            lemma_cut_keeps(r, end, lc);
        }
    }
}

/// Law: once the string is finished, the sentences handed out hold every
/// character of the pending text that is not White_Space, each once and in
/// order.
pub proof fn lemma_nothing_lost(r: Seq<char>)
    ensures
        non_ws(joined(cut_sentences(r, true).0)) == non_ws(r),
{
    lemma_cut_keeps(r, 0, 0);
    assert(r.subrange(0, r.len() as int) == r);
}

/// Law, for the parser: sentences taken from `p0` while its string was
/// open, followed by the sentences taken from `p2` once the string is
/// finished, hold every character captured since `p0` that is not
/// White_Space, each once and in order.
pub proof fn lemma_parser_nothing_lost(
    p0: &StreamingJsonParser,
    p1: &StreamingJsonParser,
    p2: &StreamingJsonParser,
)
    requires
        p0.wf(),
        p1.wf(),
        p2.wf(),
        !p0.done(),
        p2.done(),
        p1.text() == p0.text(),
        p1.emitted() == p0.emitted() + cut_sentences(p0.pending(), false).1,
        p1.text().len() <= p2.text().len(),
        p2.text().subrange(0, p1.text().len() as int) == p1.text(),
        p2.emitted() == p1.emitted(),
    ensures
        non_ws(joined(cut_sentences(p0.pending(), false).0 + cut_sentences(p2.pending(), true).0))
            == non_ws(p2.captured_text().subrange(p0.emitted(), p2.captured_text().len() as int)),
{
    lemma_parser_takes_compose(p0, p1, p2);
    lemma_nothing_lost(p2.captured_text().subrange(p0.emitted(), p2.captured_text().len() as int));
}

// ── Where sentences end ──────────────────────────────────────────────────

proof fn lemma_trim_start_keeps_last(s: Seq<char>)
    requires
        s.len() > 0,
        !is_ws(s.last()),
    ensures
        trim_start(s).len() > 0,
        trim_start(s).last() == s.last(),
    decreases s.len(),
{
    if is_ws(s[0]) {
        assert(s.len() > 1);
        assert(s.drop_first().last() == s.last());
        lemma_trim_start_keeps_last(s.drop_first());
    }
}

/// Trimming a text that ends in a character that is not White_Space keeps
/// that character last.
proof fn lemma_trim_keeps_last(s: Seq<char>)
    requires
        s.len() > 0,
        !is_ws(s.last()),
    ensures
        trim(s).len() > 0,
        trim(s).last() == s.last(),
{
    lemma_trim_start_keeps_last(s);
}

/// `trim_start` drops at most the White_Space before a visible character.
proof fn lemma_trim_start_skip(s: Seq<char>, k: int)
    requires
        0 <= k < s.len(),
        !is_ws(s[k]),
    ensures
        exists|m: int| 0 <= m <= k && trim_start(s) == s.skip(m),
    decreases s.len(),
{
    if is_ws(s[0]) {
        let t = s.drop_first();
        assert(t[k - 1] == s[k]);
        lemma_trim_start_skip(t, k - 1);
        let m = choose|m: int| 0 <= m <= k - 1 && trim_start(t) == t.skip(m);
        assert(t.skip(m) == s.skip(m + 1));
    } else {
        assert(s.skip(0) == s);
    }
}

/// `trim_end` keeps everything up to the last visible character.
proof fn lemma_trim_end_upto(t: Seq<char>, j: int)
    requires
        0 <= j < t.len(),
        !is_ws(t[j]),
        forall|q: int| j < q < t.len() ==> is_ws(#[trigger] t[q]),
    ensures
        trim_end(t) == t.take(j + 1),
    decreases t.len(),
{
    if j < t.len() - 1 {
        let u = t.drop_last();
        assert forall|q: int| j < q < u.len() implies is_ws(#[trigger] u[q]) by {
            assert(u[q] == t[q]);
        }
        lemma_trim_end_upto(u, j);
        assert(u.take(j + 1) == t.take(j + 1));
    } else {
        assert(t.take(j + 1) == t);
    }
}

/// A trimmed text ends with its last visible character.
proof fn lemma_trim_last_visible(s: Seq<char>, k: int)
    requires
        0 <= k < s.len(),
        !is_ws(s[k]),
        forall|q: int| k < q < s.len() ==> is_ws(#[trigger] s[q]),
    ensures
        trim(s).len() > 0,
        trim(s).last() == s[k],
{
    lemma_trim_start_skip(s, k);
    let m = choose|m: int| 0 <= m <= k && trim_start(s) == s.skip(m);
    let t = s.skip(m);
    assert forall|q: int| k - m < q < t.len() implies is_ws(#[trigger] t[q]) by {
        assert(t[q] == s[q + m]);
    }
    assert(t[k - m] == s[k]);
    lemma_trim_end_upto(t, k - m);
}

/// The last character in `[i, e)` that is not a newline, where there is one.
proof fn lemma_last_non_newline(r: Seq<char>, i: int, e: int)
    requires
        0 <= i <= e <= r.len(),
        exists|j: int| i <= j < e && r[j] != '\n',
    ensures
        exists|q: int| i <= q < e && r[q] != '\n' && forall|j: int| q < j < e ==> r[j] == '\n',
    decreases e - i,
{
    if r[e - 1] != '\n' {
        assert(forall|j: int| e - 1 < j < e ==> r[j] == '\n');
    } else {
        let j0 = choose|j: int| i <= j < e && r[j] != '\n';
        assert(j0 < e - 1);
        lemma_last_non_newline(r, i, e - 1);
        let q = choose|q: int| i <= q < e - 1 && r[q] != '\n' && forall|j: int| q < j < e - 1 ==> r[j] == '\n';
        assert forall|j: int| q < j < e implies r[j] == '\n' by {
            if j == e - 1 {
            }
        }
    }
}

/// `t` is the trimmed text from `a` up to `e`, closed by the whole run of
/// newlines `[b, e)`, which White_Space or the end of the text follows.
pub open spec fn closed_by_newlines(r: Seq<char>, t: Seq<char>, a: int, b: int, e: int) -> bool {
    &&& 0 <= a <= b < e <= r.len()
    &&& t == trim(r.subrange(a, e))
    &&& forall|j: int| b <= j < e ==> r[j] == '\n'
    &&& (b == 0 || !is_terminator(r[b - 1]))
    &&& (e == r.len() || (is_ws(r[e]) && !is_terminator(r[e])))
}

/// How a sentence handed out ends: with a terminator, or it was closed by a
/// whole run of newlines.
pub open spec fn closed_properly(r: Seq<char>, t: Seq<char>) -> bool {
    ||| is_terminator(t.last())
    ||| exists|a: int, b: int, e: int| #[trigger] closed_by_newlines(r, t, a, b, e)
}

proof fn lemma_cut_ends(r: Seq<char>, fin: bool, i: int, lc: int)
    requires
        0 <= i,
        0 <= lc <= r.len(),
        forall|k: int| i <= k < lc ==> is_ws(#[trigger] r[k]),
        i == 0 || i >= r.len() || !is_terminator(r[i - 1]) || !is_terminator(r[i]),
    ensures
        forall|k: int|
            0 <= k < cut_from(r, fin, i, lc).0.len() && (k + 1 < cut_from(r, fin, i, lc).0.len()
                || !fin) ==> closed_properly(r, #[trigger] cut_from(r, fin, i, lc).0[k]),
    decreases r.len() - i,
{
    let res = cut_from(r, fin, i, lc);
    if i >= r.len() {
        if fin && lc < r.len() {
            assert(res.0.len() <= 1);
        } else {
            assert(res.0.len() == 0);
        }
    } else if !is_terminator(r[i]) {
        lemma_cut_ends(r, fin, i + 1, lc);
        assert(res == cut_from(r, fin, i + 1, lc));
    } else {
        let end = terminator_run_end(r, i + 1);
        lemma_run_ends(r, i + 1);
        let committed = if end < r.len() { is_ws(r[end]) } else { fin };
        if committed {
            lemma_run_ends(r, end);
            let w = ws_run_end(r, end);
            lemma_cut_ends(r, fin, end, w);
            let rest = cut_from(r, fin, end, w);
            let piece = cut_piece(r, lc, end);
            if piece.len() > 0 {
                assert(lc <= end);
                let sub = r.subrange(lc, end);
                assert(closed_properly(r, piece)) by {
                    if exists|j: int| i <= j < end && r[j] != '\n' {
                        lemma_last_non_newline(r, i, end);
                        let q = choose|q: int| i <= q < end && r[q] != '\n' && forall|j: int| q < j < end ==> r[j] == '\n';
                        assert(is_terminator(r[q]));
                        assert(!is_ws(r[q]));
                        assert(q >= lc) by {
                            if q < lc {
                                assert(is_ws(r[q]));
                            }
                        }
                        assert forall|p: int| q - lc < p < sub.len() implies is_ws(#[trigger] sub[p]) by {
                            assert(sub[p] == r[p + lc]);
                            assert(r[p + lc] == '\n');
                        }
                        assert(sub[q - lc] == r[q]);
                        lemma_trim_last_visible(sub, q - lc);
                    } else {
                        assert(lc <= i) by {
                            if lc > i {
                                assert forall|p: int| 0 <= p < sub.len() implies is_ws(#[trigger] sub[p]) by {
                                    assert(sub[p] == r[p + lc]);
                                    if p + lc < end {
                                        assert(r[p + lc] == '\n');
                                    }
                                }
                                lemma_trim_all_ws(sub);
                            }
                        }
                        assert(forall|j: int| i <= j < end ==> r[j] == '\n');
                        if end < r.len() {
                            assert(!is_terminator(r[end]));
                        }
                        assert(closed_by_newlines(r, piece, lc, i, end));
                    }
                }
                assert(res.0 == seq![piece] + rest.0);
                assert forall|k: int|
                    0 <= k < res.0.len() && (k + 1 < res.0.len() || !fin) implies closed_properly(
                    r,
                    #[trigger] res.0[k],
                ) by {
                    if k > 0 {
                        assert(res.0[k] == rest.0[k - 1]);
                    }
                }
            } else {
                assert(res.0 == rest.0);
            }
        } else {
            lemma_cut_ends(r, fin, end, lc);
            assert(res == cut_from(r, fin, end, lc));
        }
    }
}

/// Law: every sentence handed out, except the last one of a finished
/// string (which may be the rest flushed without a terminator), ends with
/// the terminator that closed it, or was closed by a whole run of newlines
/// followed by White_Space or the end of the pending text.
pub proof fn lemma_sentences_closed(r: Seq<char>, fin: bool)
    ensures
        forall|k: int|
            0 <= k < cut_sentences(r, fin).0.len() && (k + 1 < cut_sentences(r, fin).0.len()
                || !fin) ==> closed_properly(r, #[trigger] cut_sentences(r, fin).0[k]),
{
    lemma_cut_ends(r, fin, 0, 0);
}

/// Law: when the pending text holds no newline, every sentence handed out
/// ends with a terminator (`.`, `!`, `?`, `…`, `¡` or `¿`), except the last
/// one of a finished string, which may be the rest flushed without one.
pub proof fn lemma_sentences_end_with_terminator(r: Seq<char>, fin: bool)
    requires
        forall|k: int| 0 <= k < r.len() ==> r[k] != '\n',
    ensures
        forall|k: int|
            0 <= k < cut_sentences(r, fin).0.len() && (k + 1 < cut_sentences(r, fin).0.len()
                || !fin) ==> is_terminator(#[trigger] cut_sentences(r, fin).0[k].last()),
{
    lemma_sentences_closed(r, fin);
    assert forall|k: int|
        0 <= k < cut_sentences(r, fin).0.len() && (k + 1 < cut_sentences(r, fin).0.len() || !fin)
        implies is_terminator(#[trigger] cut_sentences(r, fin).0[k].last()) by {
        let t = cut_sentences(r, fin).0[k];
        if !is_terminator(t.last()) {
            let (a, b, e) = choose|a: int, b: int, e: int| closed_by_newlines(r, t, a, b, e);
            assert(r[b] == '\n');
        }
    }
}

// ── Any number of takes ──────────────────────────────────────────────────

/// The sentences taken at each state of a run, in order.
pub open spec fn taken(ps: Seq<StreamingJsonParser>) -> Seq<Seq<char>>
    decreases ps.len(),
{
    if ps.len() == 0 {
        Seq::empty()
    } else {
        cut_sentences(ps[0].pending(), ps[0].done()).0 + taken(ps.drop_first())
    }
}

/// A run of parser states: each state is the one before after its take of
/// sentences and then any number of pushes.
pub open spec fn run_of_takes(ps: Seq<StreamingJsonParser>) -> bool {
    &&& forall|j: int| 0 <= j < ps.len() ==> (#[trigger] ps[j]).wf()
    &&& forall|j: int|
        0 <= j < ps.len() - 1 ==> {
            &&& (#[trigger] ps[j]).text().len() <= ps[j + 1].text().len()
            &&& ps[j + 1].text().subrange(0, ps[j].text().len() as int) == ps[j].text()
            &&& ps[j + 1].emitted() == ps[j].emitted() + cut_sentences(ps[j].pending(), ps[j].done()).1
        }
}

proof fn lemma_run_tail(ps: Seq<StreamingJsonParser>)
    requires
        run_of_takes(ps),
        ps.len() >= 1,
    ensures
        run_of_takes(ps.drop_first()),
{
    let q = ps.drop_first();
    assert forall|j: int| 0 <= j < q.len() implies (#[trigger] q[j]).wf() by {
        assert(q[j] == ps[j + 1]);
    }
    assert forall|j: int| 0 <= j < q.len() - 1 implies {
        &&& (#[trigger] q[j]).text().len() <= q[j + 1].text().len()
        &&& q[j + 1].text().subrange(0, q[j].text().len() as int) == q[j].text()
        &&& q[j + 1].emitted() == q[j].emitted() + cut_sentences(q[j].pending(), q[j].done()).1
    } by {
        assert(q[j] == ps[j + 1] && q[j + 1] == ps[j + 2]);
    }
}

proof fn lemma_run_text_prefix(ps: Seq<StreamingJsonParser>)
    requires
        run_of_takes(ps),
        ps.len() >= 1,
    ensures
        ps[0].text().len() <= ps.last().text().len(),
        ps.last().text().subrange(0, ps[0].text().len() as int) == ps[0].text(),
    decreases ps.len(),
{
    if ps.len() > 1 {
        lemma_run_tail(ps);
        let q = ps.drop_first();
        lemma_run_text_prefix(q);
        assert(q[0] == ps[1] && q.last() == ps.last());
        let t0 = ps[0].text();
        let t1 = ps[1].text();
        let tl = ps.last().text();
        assert(ps[0].wf());
        assert(tl.subrange(0, t0.len() as int) == t1.subrange(0, t1.len() as int).subrange(
            0,
            t0.len() as int,
        ));
    }
}

/// One take at `p0`, then the sentences of what is pending at a later
/// state `pl` whose cut starts where that take stopped, make one take over
/// everything captured since `p0`.
proof fn lemma_take_then_rest(p0: &StreamingJsonParser, pl: &StreamingJsonParser, e1: int)
    requires
        p0.wf(),
        pl.wf(),
        e1 == p0.emitted() + cut_sentences(p0.pending(), p0.done()).1,
        p0.text().len() <= pl.text().len(),
        pl.text().subrange(0, p0.text().len() as int) == p0.text(),
    ensures
        e1 <= pl.captured_text().len(),
        cut_sentences(p0.pending(), p0.done()).0 + cut_sentences(
            pl.captured_text().subrange(e1, pl.captured_text().len() as int),
            pl.done(),
        ).0 == cut_sentences(
            pl.captured_text().subrange(p0.emitted(), pl.captured_text().len() as int),
            pl.done(),
        ).0,
{
    let t0 = p0.text();
    let tl = pl.text();
    let ext = tl.skip(t0.len() as int);
    assert(tl == t0 + ext);
    lemma_capture_grows(t0, ext);
    let cap0 = p0.captured_text();
    let c = pl.captured_text();
    let e0 = p0.emitted();
    let a = p0.pending();
    crate::parser::lemma_cut_from_bounds(a, p0.done(), 0, 0);
    let k0 = cut_sentences(a, p0.done()).1;
    if p0.done() {
        crate::parser::lemma_finished_drains(a);
        assert(c == cap0);
        assert(c.subrange(e1, c.len() as int) =~= Seq::<char>::empty());
        crate::parser::lemma_nothing_pending(pl.done());
        assert(c.subrange(e0, c.len() as int) == a);
        assert(cut_sentences(a, true).0 + Seq::<Seq<char>>::empty() == cut_sentences(a, true).0);
    } else {
        let b = c.subrange(cap0.len() as int, c.len() as int);
        assert(a + b == c.subrange(e0, c.len() as int));
        assert((a + b).skip(k0) == c.subrange(e1, c.len() as int));
        lemma_takes_compose(a, b, pl.done());
    }
}

/// Law: the sentences taken over a whole run of takes and pushes are
/// exactly the sentences one take at the last state would hand out for
/// everything captured since the first.
pub proof fn lemma_takes_of_run(ps: Seq<StreamingJsonParser>)
    requires
        run_of_takes(ps),
        ps.len() >= 1,
    ensures
        taken(ps) == cut_sentences(
            ps.last().captured_text().subrange(ps[0].emitted(), ps.last().captured_text().len() as int),
            ps.last().done(),
        ).0,
    decreases ps.len(),
{
    assert(ps[0].wf());
    if ps.len() == 1 {
        assert(ps.drop_first() =~= Seq::<StreamingJsonParser>::empty());
        assert(taken(Seq::<StreamingJsonParser>::empty()) == Seq::<Seq<char>>::empty());
        assert(taken(ps.drop_first()) == Seq::<Seq<char>>::empty());
        assert(taken(ps) == cut_sentences(ps[0].pending(), ps[0].done()).0 + Seq::<Seq<char>>::empty());
        assert(ps.last() == ps[0]);
    } else {
        let q = ps.drop_first();
        lemma_run_tail(ps);
        lemma_takes_of_run(q);
        lemma_run_text_prefix(ps);
        assert(q[0] == ps[1] && q.last() == ps.last());
        assert(ps.last().wf()) by {
            assert(ps[ps.len() - 1].wf());
        }
        assert(ps[1].emitted() == ps[0].emitted() + cut_sentences(ps[0].pending(), ps[0].done()).1);
        lemma_take_then_rest(&ps[0], &ps.last(), ps[1].emitted());
    }
}

/// Law: over any run of pushes and takes that ends with a take after the
/// string closed, the sentences handed out hold every character captured
/// since the first state that is not White_Space, each once and in order.
pub proof fn lemma_run_nothing_lost(ps: Seq<StreamingJsonParser>)
    requires
        run_of_takes(ps),
        ps.len() >= 1,
        ps.last().done(),
    ensures
        non_ws(joined(taken(ps))) == non_ws(
            ps.last().captured_text().subrange(ps[0].emitted(), ps.last().captured_text().len() as int),
        ),
{
    lemma_takes_of_run(ps);
    lemma_nothing_lost(
        ps.last().captured_text().subrange(ps[0].emitted(), ps.last().captured_text().len() as int),
    );
}

} // verus!

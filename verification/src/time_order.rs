//! Timestamps sort as the times they stand for: a later time gives a text
//! that is not smaller in string order.

use vstd::prelude::*;
use crate::db::{civil_from_days, iso_timestamp, padded, text_le};
use crate::prompt::{decimal, digit_char};

verus! {

// ── Dates grow with the day count ────────────────────────────────────────

/// A number that orders dates as (year, month, day) does.
pub open spec fn date_key(days: int) -> int {
    let (y, m, d) = civil_from_days(days);
    (12 * y + m) * 32 + d
}

/// `(doe - doe/1460 + doe/36524 - doe/146096)`, the count the year of the
/// era is taken from.
pub open spec fn era_days(doe: int) -> int {
    doe - doe / 1460 + doe / 36524 - doe / 146096
}

/// Dividing the next number by `k` gives the same quotient, or one more
/// exactly when `k` divides the next number.
proof fn lemma_div_step(x: int, k: int)
    requires
        x >= 0,
        k > 0,
    ensures
        ((x + 1) / k == x / k && (x + 1) % k != 0) || ((x + 1) / k == x / k + 1 && (x + 1) % k
            == 0),
{
    let q = x / k;
    let r = x % k;
    assert(x == q * k + r && 0 <= r < k) by (nonlinear_arith)
        requires
            q == x / k,
            r == x % k,
            k > 0,
            x >= 0,
    ;
    if r + 1 < k {
        assert((x + 1) / k == q && (x + 1) % k == r + 1) by (nonlinear_arith)
            requires
                x == q * k + r,
                0 <= r,
                r + 1 < k,
        ;
    } else {
        assert((x + 1) / k == q + 1 && (x + 1) % k == 0) by (nonlinear_arith)
            requires
                x == q * k + r,
                r == k - 1,
                k > 0,
        ;
    }
}

proof fn lemma_era_days_step(doe: int)
    requires
        0 <= doe,
    ensures
        era_days(doe) <= era_days(doe + 1) <= era_days(doe) + 2,
{
    lemma_div_step(doe, 1460);
    lemma_div_step(doe, 36524);
    lemma_div_step(doe, 146096);
    if (doe + 1) % 146096 == 0 {
        let q = (doe + 1) / 146096;
        assert(doe + 1 == q * 146096) by (nonlinear_arith)
            requires
                q == (doe + 1) / 146096,
                (doe + 1) % 146096 == 0,
                doe >= 0,
        ;
        assert((doe + 1) % 36524 == 0) by (nonlinear_arith)
            requires
                doe + 1 == q * 146096,
        ;
    }
}

/// The March-based parts of a day count's date: year, month from March
/// (0 to 11) and day of the month.
pub open spec fn march_date(days: int) -> (int, int, int) {
    let z = days + 719468;
    let era = z / 146097;
    let doe = z - era * 146097;
    let yoe = era_days(doe) / 365;
    let doy = doe - (365 * yoe + yoe / 4 - yoe / 100);
    let mp = (5 * doy + 2) / 153;
    (yoe + era * 400, mp, doy - (153 * mp + 2) / 5 + 1)
}

proof fn lemma_march_date(days: int)
    requires
        days >= 0,
    ensures
        date_key(days) == (12 * march_date(days).0 + march_date(days).1 + 3) * 32 + march_date(
            days,
        ).2,
        0 <= march_date(days).1 <= 11,
        1 <= march_date(days).2 <= 31,
        civil_from_days(days).0 >= 0,
{
    let z = days + 719468;
    let era = z / 146097;
    assert(era * 146097 <= z && z < era * 146097 + 146097) by (nonlinear_arith)
        requires
            era == z / 146097,
            z >= 0,
    ;
    let doe = z - era * 146097;
    let yoe = era_days(doe) / 365;
    assert(0 <= yoe <= 399) by (nonlinear_arith)
        requires
            0 <= doe < 146097,
            yoe == (doe - doe / 1460 + doe / 36524 - doe / 146096) / 365,
    ;
    assert(0 <= 365 * yoe + yoe / 4 - yoe / 100 <= doe) by (nonlinear_arith)
        requires
            0 <= doe < 146097,
            yoe == (doe - doe / 1460 + doe / 36524 - doe / 146096) / 365,
    ;
    let doy = doe - (365 * yoe + yoe / 4 - yoe / 100);
    assert(doy <= 365) by (nonlinear_arith)
        requires
            0 <= doe < 146097,
            yoe == (doe - doe / 1460 + doe / 36524 - doe / 146096) / 365,
            doy == doe - (365 * yoe + yoe / 4 - yoe / 100),
    ;
    let mp = (5 * doy + 2) / 153;
    let start = (153 * mp + 2) / 5;
    assert(start <= doy) by (nonlinear_arith)
        requires
            mp == (5 * doy + 2) / 153,
            start == (153 * mp + 2) / 5,
            doy >= 0,
    ;
    assert(doy < (153 * (mp + 1) + 2) / 5) by (nonlinear_arith)
        requires
            mp == (5 * doy + 2) / 153,
            doy >= 0,
    ;
    assert(0 <= mp <= 11);
    assert((153 * (mp + 1) + 2) / 5 - start <= 31) by (nonlinear_arith)
        requires
            start == (153 * mp + 2) / 5,
            0 <= mp <= 11,
    ;
}

/// One day later, the date is later.
proof fn lemma_date_key_step(days: int)
    requires
        days >= 0,
    ensures
        date_key(days) < date_key(days + 1),
{
    lemma_march_date(days);
    lemma_march_date(days + 1);
    let z = days + 719468;
    let era = z / 146097;
    assert(era * 146097 <= z && z < era * 146097 + 146097) by (nonlinear_arith)
        requires
            era == z / 146097,
            z >= 0,
    ;
    let doe = z - era * 146097;
    let (y0, mp, d) = march_date(days);
    let (y1, mp1, d1) = march_date(days + 1);
    let yoe = era_days(doe) / 365;
    assert(0 <= yoe <= 399) by (nonlinear_arith)
        requires
            0 <= doe < 146097,
            yoe == (doe - doe / 1460 + doe / 36524 - doe / 146096) / 365,
    ;
    if doe < 146096 {
        assert((z + 1) / 146097 == era) by (nonlinear_arith)
            requires
                era * 146097 <= z,
                z + 1 < era * 146097 + 146097,
        ;
        lemma_era_days_step(doe);
        let yoe1 = era_days(doe + 1) / 365;
        assert(yoe <= yoe1 <= yoe + 1) by (nonlinear_arith)
            requires
                yoe == era_days(doe) / 365,
                yoe1 == era_days(doe + 1) / 365,
                era_days(doe) <= era_days(doe + 1) <= era_days(doe) + 2,
                era_days(doe) >= 0,
        ;
        if yoe1 == yoe {
            let doy = doe - (365 * yoe + yoe / 4 - yoe / 100);
            assert(mp <= mp1 <= mp + 1) by (nonlinear_arith)
                requires
                    mp == (5 * doy + 2) / 153,
                    mp1 == (5 * (doy + 1) + 2) / 153,
                    doy >= 0,
            ;
            if mp1 == mp {
                assert(d1 == d + 1);
            }
        }
    } else {
        assert((z + 1) / 146097 == era + 1) by (nonlinear_arith)
            requires
                z + 1 == era * 146097 + 146097,
        ;
        assert(era_days(0) == 0);
    }
}

/// Law: a later day count has a later date.
pub proof fn lemma_date_key_monotone(d1: int, d2: int)
    requires
        0 <= d1 < d2,
    ensures
        date_key(d1) < date_key(d2),
    decreases d2 - d1,
{
    lemma_date_key_step(d1);
    if d1 + 1 < d2 {
        lemma_date_key_monotone(d1 + 1, d2);
    }
}

// ── Fixed-width numbers sort as numbers ──────────────────────────────────

/// `x` comes before `y` in string order at their first difference, both
/// being of one length.
pub open spec fn lex_less(x: Seq<char>, y: Seq<char>) -> bool {
    x.len() == y.len() && exists|i: int|
        0 <= i < x.len() && x.take(i) == y.take(i) && (x[i] as u32) < (y[i] as u32)
}

proof fn lemma_digit_code(x: nat)
    requires
        x < 10,
    ensures
        digit_char(x) as u32 == 48 + x,
{
}

/// Two digits, zero padded.
pub open spec fn two_digits(n: nat) -> Seq<char> {
    seq![digit_char(n / 10), digit_char(n % 10)]
}

/// Four digits, zero padded.
pub open spec fn four_digits(n: nat) -> Seq<char> {
    seq![digit_char(n / 1000), digit_char((n / 100) % 10), digit_char((n / 10) % 10), digit_char(n % 10)]
}

proof fn lemma_padded2(n: nat)
    requires
        n < 100,
    ensures
        padded(n, 2) == two_digits(n),
{
    if n < 10 {
        assert(decimal(n) == seq![digit_char(n)]);
        assert(padded(n, 2) =~= two_digits(n));
    } else {
        assert(decimal(n / 10) == seq![digit_char(n / 10)]);
        assert(decimal(n) == decimal(n / 10) + seq![digit_char(n % 10)]);
        assert(padded(n, 2) =~= two_digits(n));
    }
}

proof fn lemma_padded4(n: nat)
    requires
        n < 10000,
    ensures
        padded(n, 4) == four_digits(n),
{
    if n < 10 {
        assert(decimal(n) == seq![digit_char(n)]);
        assert(padded(n, 4) =~= four_digits(n));
    } else if n < 100 {
        assert(decimal(n / 10) == seq![digit_char(n / 10)]);
        assert(decimal(n) == decimal(n / 10) + seq![digit_char(n % 10)]);
        assert(padded(n, 4) =~= four_digits(n));
    } else if n < 1000 {
        assert(decimal(n / 100) == seq![digit_char(n / 100)]);
        assert(decimal(n / 10) == decimal(n / 100) + seq![digit_char((n / 10) % 10)]);
        assert(decimal(n) == decimal(n / 10) + seq![digit_char(n % 10)]);
        assert(n / 10 / 10 == n / 100);
        assert(padded(n, 4) =~= four_digits(n));
    } else {
        assert(decimal(n / 1000) == seq![digit_char(n / 1000)]);
        assert(decimal(n / 100) == decimal(n / 1000) + seq![digit_char((n / 100) % 10)]);
        assert(decimal(n / 10) == decimal(n / 100) + seq![digit_char((n / 10) % 10)]);
        assert(decimal(n) == decimal(n / 10) + seq![digit_char(n % 10)]);
        assert(n / 10 / 10 == n / 100);
        assert(n / 100 / 10 == n / 1000);
        assert(padded(n, 4) =~= four_digits(n));
    }
}

proof fn lemma_two_digits_less(a: nat, b: nat)
    requires
        a < b < 100,
    ensures
        lex_less(two_digits(a), two_digits(b)),
{
    let x = two_digits(a);
    let y = two_digits(b);
    lemma_digit_code(a / 10);
    lemma_digit_code(b / 10);
    lemma_digit_code(a % 10);
    lemma_digit_code(b % 10);
    if a / 10 < b / 10 {
        assert(x.take(0) =~= y.take(0));
    } else {
        assert(a / 10 == b / 10);
        assert(a % 10 < b % 10);
        assert(x.take(1) =~= y.take(1));
        assert((x[1] as u32) < (y[1] as u32));
    }
}

proof fn lemma_four_digits_less(a: nat, b: nat)
    requires
        a < b < 10000,
    ensures
        lex_less(four_digits(a), four_digits(b)),
{
    let x = four_digits(a);
    let y = four_digits(b);
    lemma_digit_code(a / 1000);
    lemma_digit_code(b / 1000);
    lemma_digit_code((a / 100) % 10);
    lemma_digit_code((b / 100) % 10);
    lemma_digit_code((a / 10) % 10);
    lemma_digit_code((b / 10) % 10);
    lemma_digit_code(a % 10);
    lemma_digit_code(b % 10);
    if a / 1000 < b / 1000 {
        assert(x.take(0) =~= y.take(0));
    } else if (a / 100) % 10 < (b / 100) % 10 {
        assert(a / 1000 == b / 1000);
        assert(x.take(1) =~= y.take(1));
        assert((x[1] as u32) < (y[1] as u32));
    } else if (a / 10) % 10 < (b / 10) % 10 {
        assert(a / 1000 == b / 1000 && (a / 100) % 10 == (b / 100) % 10) by (nonlinear_arith)
            requires
                a < b < 10000,
                a / 1000 >= b / 1000,
                (a / 100) % 10 >= (b / 100) % 10,
        ;
        assert(x.take(2) =~= y.take(2));
        assert((x[2] as u32) < (y[2] as u32));
    } else {
        assert(a / 1000 == b / 1000 && (a / 100) % 10 == (b / 100) % 10 && (a / 10) % 10 == (b
            / 10) % 10 && a % 10 < b % 10) by (nonlinear_arith)
            requires
                a < b < 10000,
                a / 1000 >= b / 1000,
                (a / 100) % 10 >= (b / 100) % 10,
                (a / 10) % 10 >= (b / 10) % 10,
        ;
        assert(x.take(3) =~= y.take(3));
        assert((x[3] as u32) < (y[3] as u32));
    }
}

// ── Timestamps ───────────────────────────────────────────────────────────

proof fn lemma_lex_less_ne(x: Seq<char>, y: Seq<char>)
    requires
        lex_less(x, y),
    ensures
        x != y,
{
    let i = choose|i: int| 0 <= i < x.len() && x.take(i) == y.take(i) && (x[i] as u32) < (y[i] as u32);
    assert(x[i] != y[i]);
}

/// Appending pieces of equal length keeps string order, and the later
/// pieces decide only where the earlier ones are equal.
proof fn lemma_concat(x1: Seq<char>, x2: Seq<char>, a1: Seq<char>, a2: Seq<char>)
    requires
        x1.len() == x2.len(),
        a1.len() == a2.len(),
        lex_less(x1, x2) || (x1 == x2 && (a1 == a2 || lex_less(a1, a2))),
    ensures
        x1 + a1 == x2 + a2 || lex_less(x1 + a1, x2 + a2),
        lex_less(x1, x2) ==> lex_less(x1 + a1, x2 + a2),
        (x1 == x2 && lex_less(a1, a2)) ==> lex_less(x1 + a1, x2 + a2),
        lex_less(x1 + a1, x2 + a2) ==> x1 + a1 != x2 + a2,
{
    if lex_less(x1, x2) {
        let i = choose|i: int| 0 <= i < x1.len() && x1.take(i) == x2.take(i) && (x1[i] as u32) < (x2[i] as u32);
        assert((x1 + a1).take(i) == x1.take(i));
        assert((x2 + a2).take(i) == x2.take(i));
        assert((x1 + a1)[i] == x1[i]);
        assert((x2 + a2)[i] == x2[i]);
    } else if lex_less(a1, a2) {
        let j = choose|j: int| 0 <= j < a1.len() && a1.take(j) == a2.take(j) && (a1[j] as u32) < (a2[j] as u32);
        let i = x1.len() + j;
        assert((x1 + a1).take(i) =~= x1 + a1.take(j));
        assert((x2 + a2).take(i) =~= x2 + a2.take(j));
        assert((x1 + a1)[i] == a1[j]);
        assert((x2 + a2)[i] == a2[j]);
    }
    if lex_less(x1 + a1, x2 + a2) {
        lemma_lex_less_ne(x1 + a1, x2 + a2);
    }
}

proof fn lemma_text_le_refl(x: Seq<char>)
    ensures
        text_le(x, x),
    decreases x.len(),
{
    if x.len() > 0 {
        lemma_text_le_refl(x.drop_first());
    }
}

proof fn lemma_lex_less_text_le(x: Seq<char>, y: Seq<char>)
    requires
        lex_less(x, y),
    ensures
        text_le(x, y),
    decreases x.len(),
{
    let i = choose|i: int| 0 <= i < x.len() && x.take(i) == y.take(i) && (x[i] as u32) < (y[i] as u32);
    if i > 0 {
        assert(x[0] == x.take(i)[0] && y[0] == y.take(i)[0]);
        let xs = x.drop_first();
        let ys = y.drop_first();
        assert(xs.take(i - 1) =~= x.take(i).drop_first());
        assert(ys.take(i - 1) =~= y.take(i).drop_first());
        assert(xs[i - 1] == x[i] && ys[i - 1] == y[i]);
        lemma_lex_less_text_le(xs, ys);
    } else {
        assert(x[0] != y[0]);
    }
}

/// A timestamp's text from its parts: year, month, day, hour, minute,
/// second.
pub open spec fn stamp_text(a: (nat, nat, nat, nat, nat, nat)) -> Seq<char> {
    four_digits(a.0) + "-"@ + two_digits(a.1) + "-"@ + two_digits(a.2) + "T"@ + two_digits(a.3)
        + ":"@ + two_digits(a.4) + ":"@ + two_digits(a.5) + "Z"@
}

/// The date part of a timestamp's text.
pub open spec fn date_text(a: (nat, nat, nat, nat, nat, nat)) -> Seq<char> {
    four_digits(a.0) + "-"@ + two_digits(a.1) + "-"@ + two_digits(a.2)
}

/// The time part of a timestamp's text.
pub open spec fn clock_text(a: (nat, nat, nat, nat, nat, nat)) -> Seq<char> {
    "T"@ + two_digits(a.3) + ":"@ + two_digits(a.4) + ":"@ + two_digits(a.5) + "Z"@
}

/// Parts compared in order, the first difference deciding.
pub open spec fn parts_le(a: (nat, nat, nat, nat, nat, nat), b: (nat, nat, nat, nat, nat, nat)) -> bool {
    a.0 < b.0 || (a.0 == b.0 && (a.1 < b.1 || (a.1 == b.1 && (a.2 < b.2 || (a.2 == b.2 && (a.3
        < b.3 || (a.3 == b.3 && (a.4 < b.4 || (a.4 == b.4 && a.5 <= b.5)))))))))
}

proof fn lemma_date_text_order(a: (nat, nat, nat, nat, nat, nat), b: (nat, nat, nat, nat, nat, nat))
    requires
        a.0 < 10000 && b.0 < 10000,
        a.1 < 100 && a.2 < 100 && b.1 < 100 && b.2 < 100,
        a.0 < b.0 || (a.0 == b.0 && (a.1 < b.1 || (a.1 == b.1 && a.2 < b.2))),
    ensures
        lex_less(date_text(a), date_text(b)),
        date_text(a).len() == 10,
{
    reveal_strlit("-");
    let x0 = four_digits(a.0);
    let y0 = four_digits(b.0);
    if a.0 < b.0 {
        lemma_four_digits_less(a.0, b.0);
    }
    lemma_concat(x0, y0, "-"@, "-"@);
    let x1 = x0 + "-"@;
    let y1 = y0 + "-"@;
    if a.1 < b.1 {
        lemma_two_digits_less(a.1, b.1);
    }
    lemma_concat(x1, y1, two_digits(a.1), two_digits(b.1));
    let x2 = x1 + two_digits(a.1);
    let y2 = y1 + two_digits(b.1);
    lemma_concat(x2, y2, "-"@, "-"@);
    let x3 = x2 + "-"@;
    let y3 = y2 + "-"@;
    if a.2 < b.2 {
        lemma_two_digits_less(a.2, b.2);
    }
    lemma_concat(x3, y3, two_digits(a.2), two_digits(b.2));
    let x4 = x3 + two_digits(a.2);
    let y4 = y3 + two_digits(b.2);
    assert(x4 == date_text(a));
    assert(y4 == date_text(b));
}

proof fn lemma_clock_text_order(a: (nat, nat, nat, nat, nat, nat), b: (nat, nat, nat, nat, nat, nat))
    requires
        a.3 < 100 && a.4 < 100 && a.5 < 100 && b.3 < 100 && b.4 < 100 && b.5 < 100,
        a.3 < b.3 || (a.3 == b.3 && (a.4 < b.4 || (a.4 == b.4 && a.5 <= b.5))),
    ensures
        clock_text(a) == clock_text(b) || lex_less(clock_text(a), clock_text(b)),
        clock_text(a).len() == 10,
        clock_text(b).len() == 10,
{
    reveal_strlit("T");
    reveal_strlit(":");
    reveal_strlit("Z");
    let x0 = "T"@;
    let y0 = "T"@;

    if a.3 < b.3 {
        lemma_two_digits_less(a.3, b.3);
    }
    lemma_concat(x0, y0, two_digits(a.3), two_digits(b.3));
    let x1 = x0 + two_digits(a.3);
    let y1 = y0 + two_digits(b.3);
    lemma_concat(x1, y1, ":"@, ":"@);
    let x2 = x1 + ":"@;
    let y2 = y1 + ":"@;
    if a.4 < b.4 {
        lemma_two_digits_less(a.4, b.4);
    }
    lemma_concat(x2, y2, two_digits(a.4), two_digits(b.4));
    let x3 = x2 + two_digits(a.4);
    let y3 = y2 + two_digits(b.4);
    lemma_concat(x3, y3, ":"@, ":"@);
    let x4 = x3 + ":"@;
    let y4 = y3 + ":"@;
    if a.5 < b.5 {
        lemma_two_digits_less(a.5, b.5);
    }
    lemma_concat(x4, y4, two_digits(a.5), two_digits(b.5));
    let x5 = x4 + two_digits(a.5);
    let y5 = y4 + two_digits(b.5);
    lemma_concat(x5, y5, "Z"@, "Z"@);
    let x6 = x5 + "Z"@;
    let y6 = y5 + "Z"@;
    assert(x6 == clock_text(a));
    assert(y6 == clock_text(b));
}

proof fn lemma_stamp_text_order(a: (nat, nat, nat, nat, nat, nat), b: (nat, nat, nat, nat, nat, nat))
    requires
        a.0 < 10000 && b.0 < 10000,
        a.1 < 100 && a.2 < 100 && a.3 < 100 && a.4 < 100 && a.5 < 100,
        b.1 < 100 && b.2 < 100 && b.3 < 100 && b.4 < 100 && b.5 < 100,
        parts_le(a, b),
    ensures
        text_le(stamp_text(a), stamp_text(b)),
{
    assert(stamp_text(a) =~= date_text(a) + clock_text(a));
    assert(stamp_text(b) =~= date_text(b) + clock_text(b));
    reveal_strlit("-");
    assert(date_text(a).len() == date_text(b).len());
    if a.0 < b.0 || (a.0 == b.0 && (a.1 < b.1 || (a.1 == b.1 && a.2 < b.2))) {
        lemma_date_text_order(a, b);
        lemma_clock_text_order(a, a);
        lemma_clock_text_order(b, b);
    } else {
        assert(a.0 == b.0 && a.1 == b.1 && a.2 == b.2);
        assert(date_text(a) == date_text(b));
        lemma_clock_text_order(a, b);
    }
    lemma_concat(date_text(a), date_text(b), clock_text(a), clock_text(b));
    if stamp_text(a) == stamp_text(b) {
        lemma_text_le_refl(stamp_text(a));
    } else {
        lemma_lex_less_text_le(stamp_text(a), stamp_text(b));
    }
}

/// Times before 253402300800 (10000-01-01T00:00:00Z) fall in years of at
/// most four digits.
pub proof fn lemma_year_bound(t: int)
    requires
        0 <= t < 253402300800,
    ensures
        0 <= civil_from_days(t / 86400).0 < 10000,
{
    let days = t / 86400;
    assert(0 <= days <= 2932896) by (nonlinear_arith)
        requires
            0 <= t < 253402300800,
            days == t / 86400,
    ;
    lemma_march_date(days);
    let z = days + 719468;
    let era = z / 146097;
    assert(era * 146097 <= z && z < era * 146097 + 146097 && era <= 24) by (nonlinear_arith)
        requires
            era == z / 146097,
            0 <= z <= 3652364,
    ;
    let doe = z - era * 146097;
    let yoe = era_days(doe) / 365;
    assert(0 <= yoe <= 399) by (nonlinear_arith)
        requires
            0 <= doe < 146097,
            yoe == (doe - doe / 1460 + doe / 36524 - doe / 146096) / 365,
    ;
    let doy = doe - (365 * yoe + yoe / 4 - yoe / 100);
    let mp = (5 * doy + 2) / 153;
    if era == 24 && yoe == 399 {
        assert(doy <= 305);
        assert(mp <= 9) by (nonlinear_arith)
            requires
                mp == (5 * doy + 2) / 153,
                doy <= 305,
        ;
    }
}

/// Law: a later time gives a timestamp that is not smaller in string
/// order, for times before the year 10000.
pub proof fn lemma_timestamps_sorted(t1: int, t2: int)
    requires
        0 <= t1 <= t2 < 253402300800,
    ensures
        text_le(iso_timestamp(t1), iso_timestamp(t2)),
{
    lemma_year_bound(t2);
    let d1 = t1 / 86400;
    let d2 = t2 / 86400;
    let r1 = t1 % 86400;
    let r2 = t2 % 86400;
    assert(0 <= d1 <= d2 && 0 <= r1 < 86400 && 0 <= r2 < 86400) by (nonlinear_arith)
        requires
            0 <= t1 <= t2,
            d1 == t1 / 86400,
            d2 == t2 / 86400,
            r1 == t1 % 86400,
            r2 == t2 % 86400,
    ;
    assert(d1 == d2 ==> r1 <= r2) by (nonlinear_arith)
        requires
            t1 <= t2,
            0 <= t1,
            d1 == t1 / 86400,
            d2 == t2 / 86400,
            r1 == t1 % 86400,
            r2 == t2 % 86400,
    ;
    crate::db::lemma_civil_round_trip(d1);
    crate::db::lemma_civil_round_trip(d2);
    lemma_march_date(d1);
    lemma_march_date(d2);
    let (y1, m1, e1) = civil_from_days(d1);
    let (y2, m2, e2) = civil_from_days(d2);
    if d1 < d2 {
        lemma_date_key_monotone(d1, d2);
    }
    assert(y1 < y2 || (y1 == y2 && (m1 < m2 || (m1 == m2 && e1 < e2))) || (y1 == y2 && m1 == m2
        && e1 == e2 && d1 == d2)) by (nonlinear_arith)
        requires
            d1 < d2 ==> (12 * y1 + m1) * 32 + e1 < (12 * y2 + m2) * 32 + e2,
            d1 == d2 ==> y1 == y2 && m1 == m2 && e1 == e2,
            d1 <= d2,
            1 <= m1 <= 12,
            1 <= m2 <= 12,
            1 <= e1 <= 31,
            1 <= e2 <= 31,
    ;
    let h1 = r1 / 3600;
    let h2 = r2 / 3600;
    let n1 = (r1 % 3600) / 60;
    let n2 = (r2 % 3600) / 60;
    let s1 = r1 % 60;
    let s2 = r2 % 60;
    assert(h1 < 24 && h2 < 24 && n1 < 60 && n2 < 60 && s1 < 60 && s2 < 60 && h1 >= 0 && h2 >= 0
        && n1 >= 0 && n2 >= 0 && s1 >= 0 && s2 >= 0) by (nonlinear_arith)
        requires
            0 <= r1 < 86400,
            0 <= r2 < 86400,
            h1 == r1 / 3600,
            h2 == r2 / 3600,
            n1 == (r1 % 3600) / 60,
            n2 == (r2 % 3600) / 60,
            s1 == r1 % 60,
            s2 == r2 % 60,
    ;
    assert(r1 <= r2 ==> (h1 < h2 || (h1 == h2 && (n1 < n2 || (n1 == n2 && s1 <= s2)))))
        by (nonlinear_arith)
        requires
            0 <= r1,
            0 <= r2,
            h1 == r1 / 3600,
            h2 == r2 / 3600,
            n1 == (r1 % 3600) / 60,
            n2 == (r2 % 3600) / 60,
            s1 == r1 % 60,
            s2 == r2 % 60,
    ;
    let a = (y1 as nat, m1 as nat, e1 as nat, h1 as nat, n1 as nat, s1 as nat);
    let b = (y2 as nat, m2 as nat, e2 as nat, h2 as nat, n2 as nat, s2 as nat);
    lemma_padded4(y1 as nat);
    lemma_padded4(y2 as nat);
    lemma_padded2(m1 as nat);
    lemma_padded2(m2 as nat);
    lemma_padded2(e1 as nat);
    lemma_padded2(e2 as nat);
    lemma_padded2(h1 as nat);
    lemma_padded2(h2 as nat);
    lemma_padded2(n1 as nat);
    lemma_padded2(n2 as nat);
    lemma_padded2(s1 as nat);
    lemma_padded2(s2 as nat);
    assert(iso_timestamp(t1) == stamp_text(a));
    assert(iso_timestamp(t2) == stamp_text(b));
    lemma_stamp_text_order(a, b);
}

/// A timestamp before the year 10000 is twenty characters long.
pub proof fn lemma_stamp_len(t: int)
    requires
        0 <= t < 253402300800,
    ensures
        iso_timestamp(t).len() == 20,
{
    lemma_year_bound(t);
    let d = t / 86400;
    let r = t % 86400;
    assert(0 <= d && 0 <= r < 86400) by (nonlinear_arith)
        requires
            0 <= t,
            d == t / 86400,
            r == t % 86400,
    ;
    crate::db::lemma_civil_round_trip(d);
    let (y, m, e) = civil_from_days(d);
    assert(r / 3600 < 24 && (r % 3600) / 60 < 60 && r % 60 < 60 && r / 3600 >= 0 && (r % 3600)
        / 60 >= 0 && r % 60 >= 0) by (nonlinear_arith)
        requires
            0 <= r < 86400,
    ;
    lemma_padded4(y as nat);
    lemma_padded2(m as nat);
    lemma_padded2(e as nat);
    lemma_padded2((r / 3600) as nat);
    lemma_padded2(((r % 3600) / 60) as nat);
    lemma_padded2((r % 60) as nat);
    reveal_strlit("-");
    reveal_strlit("T");
    reveal_strlit(":");
    reveal_strlit("Z");
}

} // verus!

//! Rows exchanged with the SQLite store, timestamps, and the small decisions
//! the store makes about flashcards.  The SQL itself runs at the edge of the
//! program; what it computes on the values it reads and writes is here.

use vstd::prelude::*;
use vstd::string::StringExecFns;
use crate::prompt::{decimal, push_decimal};
use crate::text::{chars_of, string_of, str_eq};

verus! {

// ── Row and parameter types ──────────────────────────────────────────────

/// A learner profile to store.
#[derive(Debug)]
pub struct NewProfile {
    pub native_language: String,
    pub target_language: String,
    pub cefr_level: String,
    pub goals: Vec<String>,
}

/// A stored learner profile; `goals_json` is a JSON array of strings.
#[derive(Debug)]
pub struct ProfileRow {
    pub native_language: String,
    pub target_language: String,
    pub cefr_level: String,
    pub goals_json: String,
}

/// A message to store.
#[derive(Debug)]
pub struct NewMessage {
    pub conversation_id: i64,
    pub role: String,
    pub content: String,
    pub translation: Option<String>,
    pub input_method: String,
}

/// A correction to store.
#[derive(Debug)]
pub struct NewCorrection {
    pub message_id: i64,
    pub conversation_id: i64,
    pub original_text: String,
    pub corrected_text: String,
    pub explanation: String,
    pub error_type: String,
}

/// A vocabulary item to insert or update.
#[derive(Debug)]
pub struct NewVocabulary {
    pub target_text: String,
    pub native_text: String,
    pub pronunciation: Option<String>,
    pub part_of_speech: Option<String>,
    pub topic: String,
    pub example_target: Option<String>,
    pub example_native: Option<String>,
    pub conversation_id: Option<i64>,
}

/// A stored message.
#[derive(Debug)]
pub struct MessageRow {
    pub role: String,
    pub content: String,
    pub translation: Option<String>,
}

/// A stored conversation, as the sidebar lists it.
#[derive(Debug)]
pub struct ConversationRow {
    pub id: i64,
    pub mode: String,
    pub topic: Option<String>,
}

/// A recently seen vocabulary item with its flashcard status.
#[derive(Debug)]
pub struct VocabRow {
    pub target_text: String,
    pub native_text: String,
    pub status: String,
}

/// A flashcard as the card browser lists it.
#[derive(Debug)]
pub struct FlashcardListRow {
    pub id: i64,
    pub word: String,
    pub meaning: String,
    pub pronunciation: Option<String>,
    pub example_target: Option<String>,
    pub example_native: Option<String>,
    pub status: String,
    pub due_date: String,
    pub review_count: i32,
    pub topic: String,
}

/// A grammar concept to seed.
#[derive(Debug)]
pub struct NewGrammarConcept {
    pub slug: String,
    pub name: String,
    pub description: String,
    pub cefr_level: String,
}

impl NewGrammarConcept {
    /// Slug, name, description and CEFR level.
    pub open spec fn view_tuple(self) -> (Seq<char>, Seq<char>, Seq<char>, Seq<char>) {
        (self.slug@, self.name@, self.description@, self.cefr_level@)
    }
}

/// A lesson to store; the list fields are JSON arrays.
#[derive(Debug)]
pub struct NewLesson {
    pub sequence_order: i32,
    pub cefr_level: String,
    pub topic: String,
    pub title: String,
    pub description: String,
    pub scenario: String,
    pub objectives_json: String,
    pub target_vocabulary_json: String,
    pub target_grammar_json: String,
}

/// The plain values of a lesson to store.
pub struct NewLessonView {
    pub sequence_order: i32,
    pub cefr_level: Seq<char>,
    pub topic: Seq<char>,
    pub title: Seq<char>,
    pub description: Seq<char>,
    pub scenario: Seq<char>,
    pub objectives_json: Seq<char>,
    pub target_vocabulary_json: Seq<char>,
    pub target_grammar_json: Seq<char>,
}

impl View for NewLesson {
    type V = NewLessonView;

    open spec fn view(&self) -> NewLessonView {
        NewLessonView {
            sequence_order: self.sequence_order,
            cefr_level: self.cefr_level@,
            topic: self.topic@,
            title: self.title@,
            description: self.description@,
            scenario: self.scenario@,
            objectives_json: self.objectives_json@,
            target_vocabulary_json: self.target_vocabulary_json@,
            target_grammar_json: self.target_grammar_json@,
        }
    }
}

// ── Calendar ─────────────────────────────────────────────────────────────

/// Civil date (year, month, day) of a day count since 1970-01-01, by Howard
/// Hinnant's `civil_from_days` for the proleptic Gregorian calendar.
pub open spec fn civil_from_days(days: int) -> (int, int, int) {
    let z = days + 719468;
    let era = z / 146097;
    let doe = z - era * 146097;
    let yoe = (doe - doe / 1460 + doe / 36524 - doe / 146096) / 365;
    let y = yoe + era * 400;
    let doy = doe - (365 * yoe + yoe / 4 - yoe / 100);
    let mp = (5 * doy + 2) / 153;
    let d = doy - (153 * mp + 2) / 5 + 1;
    let m = if mp < 10 { mp + 3 } else { mp - 9 };
    (if m <= 2 { y + 1 } else { y }, m, d)
}

/// Whether a year is a leap year in the Gregorian calendar.
pub open spec fn is_leap(y: int) -> bool {
    (y % 4 == 0 && y % 100 != 0) || y % 400 == 0
}

/// Days in month `m` of year `y`.
pub open spec fn days_in_month(y: int, m: int) -> int {
    if m == 2 {
        if is_leap(y) {
            29
        } else {
            28
        }
    } else if m == 4 || m == 6 || m == 9 || m == 11 {
        30
    } else {
        31
    }
}

/// Day count since 1970-01-01 of a civil date, by Howard Hinnant's
/// `days_from_civil` (for years from 0 on).
pub open spec fn days_from_civil(y: int, m: int, d: int) -> int {
    let yy = if m <= 2 { y - 1 } else { y };
    let era = yy / 400;
    let yoe = yy - era * 400;
    let mp = if m > 2 { m - 3 } else { m + 9 };
    let doy = (153 * mp + 2) / 5 + d - 1;
    let doe = yoe * 365 + yoe / 4 - yoe / 100 + doy;
    era * 146097 + doe - 719468
}

/// Law: the date of a day count maps back to the day count, and it is a
/// valid date: its month is 1 to 12 and its day lies within that month
/// (February 29 only in leap years).
pub proof fn lemma_civil_round_trip(days: int)
    requires
        days >= 0,
    ensures
        days_from_civil(civil_from_days(days).0, civil_from_days(days).1, civil_from_days(days).2)
            == days,
        1 <= civil_from_days(days).1 <= 12,
        1 <= civil_from_days(days).2 <= days_in_month(
            civil_from_days(days).0,
            civil_from_days(days).1,
        ),
{
    let z = days + 719468;
    let era = z / 146097;
    assert(era * 146097 <= z && z < era * 146097 + 146097) by (nonlinear_arith)
        requires
            era == z / 146097,
            z >= 0,
    ;
    let doe = z - era * 146097;
    let yoe = (doe - doe / 1460 + doe / 36524 - doe / 146096) / 365;
    assert(0 <= yoe <= 399) by (nonlinear_arith)
        requires
            0 <= doe < 146097,
            yoe == (doe - doe / 1460 + doe / 36524 - doe / 146096) / 365,
    ;
    assert(0 <= 365 * yoe + yoe / 4 - yoe / 100 <= doe) by (nonlinear_arith)
        requires
            0 <= doe < 146097,
            yoe == (doe - doe / 1460 + doe / 36524 - doe / 146096) / 365,
    ;
    let doy = doe - (365 * yoe + yoe / 4 - yoe / 100);
    assert(doy <= 365) by (nonlinear_arith)
        requires
            0 <= doe < 146097,
            yoe == (doe - doe / 1460 + doe / 36524 - doe / 146096) / 365,
            doy == doe - (365 * yoe + yoe / 4 - yoe / 100),
    ;
    let mp = (5 * doy + 2) / 153;
    assert(0 <= mp <= 11);
    let start = (153 * mp + 2) / 5;
    assert(start <= doy) by (nonlinear_arith)
        requires
            mp == (5 * doy + 2) / 153,
            start == (153 * mp + 2) / 5,
            doy >= 0,
    ;
    assert(doy < (153 * (mp + 1) + 2) / 5) by (nonlinear_arith)
        requires
            mp == (5 * doy + 2) / 153,
            doy >= 0,
    ;
    let d = doy - start + 1;
    let m = if mp < 10 { mp + 3 } else { mp - 9 };
    let y0 = yoe + era * 400;
    let y = if m <= 2 { y0 + 1 } else { y0 };
    assert(civil_from_days(days) == (y, m, d));
    let yy = if m <= 2 { y - 1 } else { y };
    assert(yy == y0);
    assert(yy / 400 == era && yy - era * 400 == yoe) by (nonlinear_arith)
        requires
            yy == yoe + era * 400,
            0 <= yoe <= 399,
            era >= 0,
    ;
    let mp2 = if m > 2 { m - 3 } else { m + 9 };
    assert(mp2 == mp);
    // Month lengths: the start of each month in a March-based year.
    if mp == 0 { assert(start == 0); assert((153 * 1 + 2) / 5 == 31); }
    else if mp == 1 { assert(start == 31); assert((153 * 2 + 2) / 5 == 61); }
    else if mp == 2 { assert(start == 61); assert((153 * 3 + 2) / 5 == 92); }
    else if mp == 3 { assert(start == 92); assert((153 * 4 + 2) / 5 == 122); }
    else if mp == 4 { assert(start == 122); assert((153 * 5 + 2) / 5 == 153); }
    else if mp == 5 { assert(start == 153); assert((153 * 6 + 2) / 5 == 184); }
    else if mp == 6 { assert(start == 184); assert((153 * 7 + 2) / 5 == 214); }
    else if mp == 7 { assert(start == 214); assert((153 * 8 + 2) / 5 == 245); }
    else if mp == 8 { assert(start == 245); assert((153 * 9 + 2) / 5 == 275); }
    else if mp == 9 { assert(start == 275); assert((153 * 10 + 2) / 5 == 306); }
    else if mp == 10 { assert(start == 306); assert((153 * 11 + 2) / 5 == 337); }
    else { assert(start == 337); }
    if doy == 365 {
        assert(((yoe + 1) % 4 == 0 && (yoe + 1) % 100 != 0) || yoe + 1 == 400) by (nonlinear_arith)
            requires
                0 <= doe < 146097,
                yoe == (doe - doe / 1460 + doe / 36524 - doe / 146096) / 365,
                doe - (365 * yoe + yoe / 4 - yoe / 100) == 365,
        ;
        assert(is_leap(era * 400 + yoe + 1)) by (nonlinear_arith)
            requires
                ((yoe + 1) % 4 == 0 && (yoe + 1) % 100 != 0) || yoe + 1 == 400,
                era >= 0,
                0 <= yoe <= 399,
        ;
        assert(y == era * 400 + yoe + 1);
    }
}

/// Days since 1970-01-01 to (year, month, day).
pub fn epoch_days_to_ymd(days: u64) -> (r: (u64, u64, u64))
    requires
        days + 719468 <= u64::MAX,
    ensures
        (r.0 as int, r.1 as int, r.2 as int) == civil_from_days(days as int),
        1 <= r.1 <= 12,
        1 <= r.2 <= 31,
        r.2 <= days_in_month(r.0 as int, r.1 as int),
        days_from_civil(r.0 as int, r.1 as int, r.2 as int) == days,
{
    proof {
        lemma_civil_round_trip(days as int);
    }
    let z = days + 719468;
    let era = z / 146097;
    assert(era * 146097 <= z) by (nonlinear_arith)
        requires
            era == z / 146097,
    ;
    let doe = z - era * 146097;
    assert(doe < 146097) by (nonlinear_arith)
        requires
            era == z / 146097,
            doe == z - era * 146097,
    ;
    assert(doe / 1460 <= doe && doe / 146096 <= doe / 36524) by (nonlinear_arith)
        requires
            doe < 146097,
    ;
    let yoe = (doe - doe / 1460 + doe / 36524 - doe / 146096) / 365;
    assert(yoe <= 399) by (nonlinear_arith)
        requires
            doe < 146097,
            yoe == (doe - doe / 1460 + doe / 36524 - doe / 146096) / 365,
    ;
    assert(era * 400 <= z) by (nonlinear_arith)
        requires
            era == z / 146097,
    ;
    let y = yoe + era * 400;
    assert(365 * yoe + yoe / 4 - yoe / 100 <= doe) by (nonlinear_arith)
        requires
            doe < 146097,
            yoe == (doe - doe / 1460 + doe / 36524 - doe / 146096) / 365,
    ;
    let doy = doe - (365 * yoe + yoe / 4 - yoe / 100);
    assert(doy <= 365) by (nonlinear_arith)
        requires
            doe < 146097,
            yoe == (doe - doe / 1460 + doe / 36524 - doe / 146096) / 365,
            doy == doe - (365 * yoe + yoe / 4 - yoe / 100),
    ;
    let mp = (5 * doy + 2) / 153;
    assert(mp <= 11);
    assert((153 * mp + 2) / 5 <= doy) by (nonlinear_arith)
        requires
            mp == (5 * doy + 2) / 153,
    ;
    let d = doy - (153 * mp + 2) / 5 + 1;
    assert(1 <= d <= 31) by (nonlinear_arith)
        requires
            mp == (5 * doy + 2) / 153,
            d == doy - (153 * mp + 2) / 5 + 1,
            doy <= 365,
    ;
    let m = if mp < 10 { mp + 3 } else { mp - 9 };
    let y = if m <= 2 { y + 1 } else { y };
    (y, m, d)
}

/// `n` in decimal, padded with zeros on the left to at least `width` digits.
pub open spec fn padded(n: nat, width: nat) -> Seq<char> {
    let digits = decimal(n);
    if digits.len() < width {
        Seq::new((width - digits.len()) as nat, |i: int| '0') + digits
    } else {
        digits
    }
}

fn push_padded(s: &mut String, n: u64, width: usize)
    requires
        width <= 4,
    ensures
        final(s)@ == old(s)@ + padded(n as nat, width as nat),
{
    let mut digits = String::new();
    push_decimal(&mut digits, n);
    let len = digits.as_str().unicode_len();
    let ghost before = s@;
    if len < width {
        let mut k: usize = 0;
        while k < width - len
            invariant
                len < width,
                k <= width - len,
                s@ == before + Seq::new(k as nat, |i: int| '0'),
            decreases width - len - k,
        {
            s.push('0');
            assert(Seq::new(k as nat, |i: int| '0').push('0') == Seq::new(
                (k + 1) as nat,
                |i: int| '0',
            ));
            k += 1;
        }
    }
    s.append(digits.as_str());
}

/// Seconds since the Unix epoch as `YYYY-MM-DDTHH:MM:SSZ` (UTC).
pub open spec fn iso_timestamp(secs: int) -> Seq<char> {
    let days = secs / 86400;
    let rem = secs % 86400;
    let (y, mo, d) = civil_from_days(days);
    padded(y as nat, 4) + "-"@ + padded(mo as nat, 2) + "-"@ + padded(d as nat, 2) + "T"@
        + padded((rem / 3600) as nat, 2) + ":"@ + padded(((rem % 3600) / 60) as nat, 2) + ":"@
        + padded((rem % 60) as nat, 2) + "Z"@
}

/// Format a Unix time in seconds as `YYYY-MM-DDTHH:MM:SSZ` (UTC).
pub fn timestamp_iso(secs: u64) -> (s: String)
    ensures
        s@ == iso_timestamp(secs as int),
        secs < 253402300800 ==> s@.len() == 20,
{
    proof {
        if secs < 253402300800 {
            crate::time_order::lemma_stamp_len(secs as int);
        }
    }
    let days = secs / 86400;
    let rem = secs % 86400;
    let h = rem / 3600;
    let m = (rem % 3600) / 60;
    let sec = rem % 60;
    let (y, mo, day) = epoch_days_to_ymd(days);
    let mut s = String::new();
    push_padded(&mut s, y, 4);
    s.append("-");
    push_padded(&mut s, mo, 2);
    s.append("-");
    push_padded(&mut s, day, 2);
    s.append("T");
    push_padded(&mut s, h, 2);
    s.append(":");
    push_padded(&mut s, m, 2);
    s.append(":");
    push_padded(&mut s, sec, 2);
    s.append("Z");
    s
}

/// The system clock's time, carried as an opaque value.
#[verifier::external_type_specification]
#[verifier::external_body]
pub struct ExSystemTime(std::time::SystemTime);

/// The error of a clock reading before the reference time.
#[verifier::external_type_specification]
#[verifier::external_body]
pub struct ExSystemTimeError(std::time::SystemTimeError);

/// `SystemTime::now`: the system clock's reading.  It depends on the clock,
/// so nothing is stated of it.
#[verifier::external_body]
fn clock_now() -> std::time::SystemTime {
    std::time::SystemTime::now()
}

/// `SystemTime::duration_since(UNIX_EPOCH)`: the time elapsed since
/// 1970-01-01, or an error where the time is earlier.  Nothing is stated of
/// the values: they depend on the clock.
#[verifier::external_body]
fn since_unix_epoch(t: &std::time::SystemTime) -> Result<std::time::Duration, std::time::SystemTimeError> {
    t.duration_since(std::time::UNIX_EPOCH)
}

/// `Duration::as_secs`: the whole seconds of a duration, which is opaque
/// here, so nothing is stated of them.
#[verifier::external_body]
fn whole_secs(d: &std::time::Duration) -> u64 {
    d.as_secs()
}

/// Seconds since the Unix epoch by the system clock, or `None` where the
/// clock reads earlier than 1970.
fn unix_time_secs() -> Option<u64> {
    match since_unix_epoch(&clock_now()) {
        Ok(d) => Some(whole_secs(&d)),
        Err(_) => None,
    }
}

/// The current UTC time as `YYYY-MM-DDTHH:MM:SSZ`; `None` where the system
/// clock reads earlier than 1970.
pub fn now_iso() -> (r: Option<String>)
    ensures
        r matches Some(s) ==> exists|t: u64|
            s@ == iso_timestamp(t as int) && (t < 253402300800 ==> s@.len() == 20),
{
    match unix_time_secs() {
        Some(t) => Some(timestamp_iso(t)),
        None => None,
    }
}

/// A padded number is never shorter than its width.
proof fn lemma_padded_len(n: nat, width: nat)
    ensures
        padded(n, width).len() >= width,
{
}

/// The first ten characters of a timestamp: the date, while years have four
/// digits.
pub open spec fn date_part(stamp: Seq<char>) -> Seq<char> {
    stamp.take(10)
}

/// Today's UTC date as `YYYY-MM-DD`; `None` where the system clock reads
/// earlier than 1970.
pub fn today_iso() -> (r: Option<String>)
    ensures
        r matches Some(s) ==> exists|t: u64| s@ == date_part(iso_timestamp(t as int)),
{
    let full = match now_iso() {
        Some(f) => f,
        None => return None,
    };
    let ghost t = choose|t: u64| full@ == iso_timestamp(t as int);
    proof {
        let secs = t as int;
        let rem = secs % 86400;
        let (y, mo, d) = civil_from_days(secs / 86400);
        lemma_padded_len(y as nat, 4);
        lemma_padded_len(mo as nat, 2);
        lemma_padded_len(d as nat, 2);
        lemma_padded_len((rem / 3600) as nat, 2);
        lemma_padded_len(((rem % 3600) / 60) as nat, 2);
        lemma_padded_len((rem % 60) as nat, 2);
        reveal_strlit("-");
        reveal_strlit("T");
        reveal_strlit(":");
        reveal_strlit("Z");
    }
    let chars = chars_of(full.as_str());
    Some(string_of(&chars.as_slice()[0..10]))
}

// ── Flashcards ───────────────────────────────────────────────────────────

/// Lexicographic order of texts by code point, which is the byte order of
/// their UTF-8 encodings (the order `str` comparison uses).
pub open spec fn text_le(a: Seq<char>, b: Seq<char>) -> bool
    decreases a.len(),
{
    if a.len() == 0 {
        true
    } else if b.len() == 0 {
        false
    } else if a[0] != b[0] {
        (a[0] as u32) < (b[0] as u32)
    } else {
        text_le(a.drop_first(), b.drop_first())
    }
}

/// `a <= b` for texts.
pub fn text_less_eq(a: &str, b: &str) -> (r: bool)
    ensures
        r == text_le(a@, b@),
{
    let x = chars_of(a);
    let y = chars_of(b);
    let mut i: usize = 0;
    assert(a@.skip(0) == a@ && b@.skip(0) == b@);
    while i < x.len() && i < y.len() && x[i] == y[i]
        invariant
            i <= x@.len(),
            i <= y@.len(),
            x@ == a@,
            y@ == b@,
            text_le(a@, b@) == text_le(a@.skip(i as int), b@.skip(i as int)),
        decreases x@.len() - i,
    {
        assert(a@.skip(i as int).drop_first() == a@.skip(i + 1));
        assert(b@.skip(i as int).drop_first() == b@.skip(i + 1));
        i += 1;
    }
    if i == x.len() {
        return true;
    }
    if i == y.len() {
        return false;
    }
    assert(a@.skip(i as int)[0] == x@[i as int]);
    assert(b@.skip(i as int)[0] == y@[i as int]);
    (x[i] as u32) < (y[i] as u32)
}

/// The status the card browser shows: `New` for new cards, `Due` when due,
/// `Mature` for mature cards, `Learning` otherwise.
pub open spec fn display_status(status: Seq<char>, due_date: Seq<char>, now: Seq<char>) -> Seq<char> {
    if status == "new"@ {
        "New"@
    } else if text_le(due_date, now) {
        "Due"@
    } else if status == "mature"@ {
        "Mature"@
    } else {
        "Learning"@
    }
}

/// Law: a card is shown as due exactly when it is not new and its due
/// date has come (sorts no later than now), whatever its SRS status; a new
/// card is always shown as new, and the other labels only go to cards not
/// yet due.
pub proof fn lemma_due_cards_shown_due(status: Seq<char>, due_date: Seq<char>, now: Seq<char>)
    ensures
        (display_status(status, due_date, now) == "Due"@) == (status != "new"@ && text_le(
            due_date,
            now,
        )),
        (display_status(status, due_date, now) == "New"@) == (status == "new"@),
        display_status(status, due_date, now) == "Mature"@ ==> status == "mature"@ && !text_le(
            due_date,
            now,
        ),
        display_status(status, due_date, now) == "Learning"@ ==> status != "mature"@ && status
            != "new"@ && !text_le(due_date, now),
{
    reveal_strlit("Due");
    reveal_strlit("New");
    reveal_strlit("Mature");
    reveal_strlit("Learning");
    assert("Due"@[0] == 'D' && "New"@[0] == 'N' && "Mature"@[0] == 'M' && "Learning"@[0] == 'L');
    assert("Due"@ != "New"@ && "Due"@ != "Mature"@ && "Due"@ != "Learning"@);
    assert("New"@ != "Mature"@ && "New"@ != "Learning"@ && "Mature"@ != "Learning"@);
}

/// Law: a card that is not new, due at an earlier time than now (both as
/// timestamps before the year 10000), is shown as due.
pub proof fn lemma_past_due_shown_due(status: Seq<char>, due: int, now: int)
    requires
        status != "new"@,
        0 <= due <= now < 253402300800,
    ensures
        display_status(status, iso_timestamp(due), iso_timestamp(now)) == "Due"@,
{
    crate::time_order::lemma_timestamps_sorted(due, now);
    lemma_due_cards_shown_due(status, iso_timestamp(due), iso_timestamp(now));
}

/// The status the card browser shows for a card with SRS `status`, due at
/// `due_date`, at time `now` (both timestamps in the same format).
pub fn flashcard_display_status(status: &str, due_date: &str, now: &str) -> (r: &'static str)
    ensures
        r@ == display_status(status@, due_date@, now@),
{
    let is_due = text_less_eq(due_date, now);
    if str_eq(status, "new") {
        "New"
    } else if is_due {
        "Due"
    } else if str_eq(status, "mature") {
        "Mature"
    } else {
        "Learning"
    }
}

/// Review dots for the card browser: five flags, the first
/// `min(review_count, 5)` set.
pub fn review_dots(review_count: i32) -> (dots: Vec<bool>)
    ensures
        dots@.len() == 5,
        forall|i: int| 0 <= i < 5 ==> dots@[i] == (i < review_count && i < 5),
{
    let shown = if review_count < 5 { review_count } else { 5 };
    let mut dots: Vec<bool> = Vec::new();
    let mut i: i32 = 0;
    while i < 5
        invariant
            0 <= i <= 5,
            shown == if review_count < 5 { review_count } else { 5 },
            dots@.len() == i,
            forall|k: int| 0 <= k < i ==> dots@[k] == (k < review_count && k < 5),
        decreases 5 - i,
    {
        dots.push(i < shown);
        i += 1;
    }
    dots
}

/// Strength shown for a vocabulary item by its flashcard status: mature 4,
/// review 3, learning 2, new 1, anything else 0.
pub open spec fn strength_of(status: Seq<char>) -> i32 {
    if status == "mature"@ {
        4
    } else if status == "review"@ {
        3
    } else if status == "learning"@ {
        2
    } else if status == "new"@ {
        1
    } else {
        0
    }
}

/// Strength shown for a vocabulary item by its flashcard status.
pub fn vocab_strength(status: &str) -> (r: i32)
    ensures
        r == strength_of(status@),
{
    if str_eq(status, "mature") {
        4
    } else if str_eq(status, "review") {
        3
    } else if str_eq(status, "learning") {
        2
    } else if str_eq(status, "new") {
        1
    } else {
        0
    }
}

// ── Reviews ──────────────────────────────────────────────────────────────

/// How the learner rated their recall of a flashcard.
#[derive(Debug, Clone, Copy, PartialEq, Eq, Structural)]
pub enum Rating {
    Again,
    Hard,
    Good,
    Easy,
}

/// The rating a text names: "again", "hard", "good" or "easy".
pub open spec fn rating_named(name: Seq<char>) -> Option<Rating> {
    if name == "again"@ {
        Some(Rating::Again)
    } else if name == "hard"@ {
        Some(Rating::Hard)
    } else if name == "good"@ {
        Some(Rating::Good)
    } else if name == "easy"@ {
        Some(Rating::Easy)
    } else {
        None
    }
}

/// Read a review rating; any other text is refused with
/// "invalid rating: <text>".
pub fn parse_rating(rating: &str) -> (r: Result<Rating, String>)
    ensures
        match r {
            Ok(x) => rating_named(rating@) == Some(x),
            Err(e) => rating_named(rating@) is None && e@ == "invalid rating: "@ + rating@,
        },
{
    if str_eq(rating, "again") {
        Ok(Rating::Again)
    } else if str_eq(rating, "hard") {
        Ok(Rating::Hard)
    } else if str_eq(rating, "good") {
        Ok(Rating::Good)
    } else if str_eq(rating, "easy") {
        Ok(Rating::Easy)
    } else {
        let mut e = String::new();
        e.append("invalid rating: ");
        e.append(rating);
        Err(e)
    }
}

} // verus!

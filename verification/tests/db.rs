use parla::db::{parse_rating, Rating};
use parla::db::{
    epoch_days_to_ymd, flashcard_display_status, now_iso, review_dots, text_less_eq,
    timestamp_iso, today_iso, vocab_strength,
};

#[test]
fn epoch_days_to_dates() {
    assert_eq!(epoch_days_to_ymd(0), (1970, 1, 1));
    assert_eq!(epoch_days_to_ymd(31), (1970, 2, 1));
    assert_eq!(epoch_days_to_ymd(11016), (2000, 2, 29));
    assert_eq!(epoch_days_to_ymd(19723), (2024, 1, 1));
    assert_eq!(epoch_days_to_ymd(19782), (2024, 2, 29));
    assert_eq!(epoch_days_to_ymd(20088), (2024, 12, 31));
}

#[test]
fn timestamps_are_iso_utc() {
    assert_eq!(timestamp_iso(0), "1970-01-01T00:00:00Z");
    assert_eq!(timestamp_iso(1704067200), "2024-01-01T00:00:00Z");
    assert_eq!(timestamp_iso(951782400 + 3600 * 13 + 60 * 7 + 9), "2000-02-29T13:07:09Z");
    assert_eq!(timestamp_iso(86399), "1970-01-01T23:59:59Z");
}

#[test]
fn now_and_today_have_iso_shape() {
    let now = now_iso().unwrap();
    assert_eq!(now.len(), 20);
    assert!(now.ends_with('Z'));
    let today = today_iso().unwrap();
    assert_eq!(today.len(), 10);
    assert_eq!(&today[4..5], "-");
}

#[test]
fn text_order_is_byte_order() {
    assert!(text_less_eq("2024-01-01", "2024-01-02"));
    assert!(text_less_eq("2024-01-01", "2024-01-01"));
    assert!(!text_less_eq("2024-01-02", "2024-01-01"));
    assert!(text_less_eq("", "a"));
    assert!(!text_less_eq("ab", "a"));
    assert!(text_less_eq("Z", "a"));
}

#[test]
fn flashcard_status_shown() {
    let now = "2024-05-01T10:00:00Z";
    assert_eq!(flashcard_display_status("new", "2024-04-01T00:00:00Z", now), "New");
    assert_eq!(flashcard_display_status("learning", "2024-04-01T00:00:00Z", now), "Due");
    assert_eq!(flashcard_display_status("mature", "2024-06-01T00:00:00Z", now), "Mature");
    assert_eq!(flashcard_display_status("review", "2024-06-01T00:00:00Z", now), "Learning");
}

#[test]
fn review_dots_fill_up_to_five() {
    assert_eq!(review_dots(0), vec![false; 5]);
    assert_eq!(review_dots(3), vec![true, true, true, false, false]);
    assert_eq!(review_dots(9), vec![true; 5]);
    assert_eq!(review_dots(-2), vec![false; 5]);
}

#[test]
fn vocabulary_strength_by_status() {
    assert_eq!(vocab_strength("mature"), 4);
    assert_eq!(vocab_strength("review"), 3);
    assert_eq!(vocab_strength("learning"), 2);
    assert_eq!(vocab_strength("new"), 1);
    assert_eq!(vocab_strength("suspended"), 0);
}

#[test]
fn ratings_are_read() {
    assert_eq!(parse_rating("again"), Ok(Rating::Again));
    assert_eq!(parse_rating("hard"), Ok(Rating::Hard));
    assert_eq!(parse_rating("good"), Ok(Rating::Good));
    assert_eq!(parse_rating("easy"), Ok(Rating::Easy));
    assert_eq!(parse_rating("Good"), Err("invalid rating: Good".to_string()));
    assert_eq!(parse_rating(""), Err("invalid rating: ".to_string()));
}

#[test]
fn consecutive_days_are_consecutive_dates() {
    let mut prev = epoch_days_to_ymd(0);
    for d in 1..3000u64 {
        let cur = epoch_days_to_ymd(d);
        let leap = |y: u64| (y % 4 == 0 && y % 100 != 0) || y % 400 == 0;
        let dim = match prev.1 {
            2 => if leap(prev.0) { 29 } else { 28 },
            4 | 6 | 9 | 11 => 30,
            _ => 31,
        };
        assert!(prev.2 <= dim);
        if prev.2 < dim {
            assert_eq!(cur, (prev.0, prev.1, prev.2 + 1));
        } else if prev.1 < 12 {
            assert_eq!(cur, (prev.0, prev.1 + 1, 1));
        } else {
            assert_eq!(cur, (prev.0 + 1, 1, 1));
        }
        prev = cur;
    }
}

#[test]
fn later_times_sort_later() {
    let times = [0u64, 59, 60, 3599, 86399, 86400, 951782400, 1704067199, 1704067200, 253402300799];
    for w in times.windows(2) {
        assert!(timestamp_iso(w[0]) < timestamp_iso(w[1]));
    }
    assert_eq!(timestamp_iso(253402300799), "9999-12-31T23:59:59Z");
}

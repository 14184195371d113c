use komf::expiry::{compute_expiry, Retention, SECONDS_PER_DAY};

const T: i64 = 1_500_000_000;

#[test]
fn week_is_seven_days() {
    assert_eq!(compute_expiry("week", T), T + 7 * SECONDS_PER_DAY);
}

#[test]
fn month_is_twenty_eight_days() {
    assert_eq!(compute_expiry("month", T), T + 28 * 86400);
}

#[test]
fn day_empty_and_unknown_are_one_day() {
    assert_eq!(compute_expiry("day", T), T + 86400);
    assert_eq!(compute_expiry("", T), T + 86400);
    assert_eq!(compute_expiry("bogus", T), T + 86400);
    assert_eq!(compute_expiry("Week", T), T + 86400);
}

#[test]
fn keywords_select_windows() {
    assert_eq!(Retention::from_keyword("week"), Retention::Week);
    assert_eq!(Retention::from_keyword("month"), Retention::Month);
    assert_eq!(Retention::from_keyword("day"), Retention::Day);
    assert_eq!(Retention::from_keyword("weeks"), Retention::Day);
    assert_eq!(Retention::Month.days(), 28);
    assert_eq!(Retention::Week.seconds(), 604800);
}

#[test]
fn expiry_at_latest_upload_time() {
    let t = komf::expiry::LATEST_UPLOAD_TIME;
    assert_eq!(compute_expiry("month", t), i64::MAX);
}

use chrono::{Duration, Utc};
use gitpilot::display::theme::{dim, error, heading, info, relative_time, relative_time_at, success, warning};

fn ago(d: Duration) -> i64 {
    (Utc::now() - d).timestamp()
}

#[test]
fn relative_time_just_now() {
    assert_eq!(relative_time(ago(Duration::seconds(30))), "just now");
}

#[test]
fn relative_time_one_minute() {
    assert_eq!(relative_time(ago(Duration::seconds(90))), "1 minute ago");
}

#[test]
fn relative_time_plural_minutes() {
    assert_eq!(relative_time(ago(Duration::minutes(5))), "5 minutes ago");
}

#[test]
fn relative_time_one_hour() {
    assert_eq!(relative_time(ago(Duration::minutes(65))), "1 hour ago");
}

#[test]
fn relative_time_plural_hours() {
    assert_eq!(relative_time(ago(Duration::hours(3))), "3 hours ago");
}

#[test]
fn relative_time_one_day() {
    assert_eq!(relative_time(ago(Duration::hours(25))), "1 day ago");
}

#[test]
fn relative_time_plural_days() {
    assert_eq!(relative_time(ago(Duration::days(3))), "3 days ago");
}

#[test]
fn relative_time_one_week() {
    assert_eq!(relative_time(ago(Duration::days(10))), "1 week ago");
}

#[test]
fn relative_time_plural_weeks() {
    assert_eq!(relative_time(ago(Duration::days(21))), "3 weeks ago");
}

#[test]
fn relative_time_months() {
    assert_eq!(relative_time(ago(Duration::days(60))), "2 months ago");
}

#[test]
fn relative_time_one_year() {
    assert_eq!(relative_time(ago(Duration::days(400))), "1 year ago");
}

#[test]
fn relative_time_plural_years() {
    assert_eq!(relative_time(ago(Duration::days(800))), "2 years ago");
}

#[test]
fn relative_time_at_boundaries() {
    assert_eq!(relative_time_at(1000, 941), "just now");
    assert_eq!(relative_time_at(1000, 940), "1 minute ago");
    assert_eq!(relative_time_at(0, 3600), "just now");
    assert_eq!(relative_time_at(86400 * 7, 0), "1 week ago");
    assert_eq!(relative_time_at(86400 * 30, 0), "1 month ago");
    assert_eq!(relative_time_at(86400 * 365, 0), "1 year ago");
    assert_eq!(relative_time_at(i64::MAX, i64::MIN), "584942417355 years ago");
}

#[test]
fn color_fns_contain_input_text() {
    assert!(success("ok").contains("ok"));
    assert!(error("bad").contains("bad"));
    assert!(warning("warn").contains("warn"));
    assert!(heading("head").contains("head"));
    assert!(dim("quiet").contains("quiet"));
    assert!(info("note").contains("note"));
}

#[test]
fn color_fns_exact_escapes() {
    assert_eq!(heading("h"), "\x1b[1mh\x1b[0m");
    assert_eq!(dim("d"), "\x1b[2md\x1b[0m");
    assert_eq!(success("s"), "\x1b[32ms\x1b[39m");
    assert_eq!(warning("w"), "\x1b[33mw\x1b[39m");
    assert_eq!(error("e"), "\x1b[31me\x1b[39m");
    assert_eq!(info("i"), "\x1b[36mi\x1b[39m");
}

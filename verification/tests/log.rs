use gitpilot::commands::log::{commit_entry, log_line, parse_since, refs_of, since_cutoff, since_from, Since};
use gitpilot::display::theme::{dim, info};
use gitpilot::git::commits::{commit_summary, contains_ignore_case, filter_commits, CommitSummary, LogFilter, LogScan};
use gitpilot::text::parse_i64;

fn commit(msg: &str, author: &str, date: i64) -> CommitSummary {
    commit_summary("0123456789abcdef0123456789abcdef01234567", Some(msg), Some(author), date)
}

fn no_filter() -> LogFilter {
    LogFilter { author: None, since: None, grep: None }
}

#[test]
fn commit_to_summary_short_id_is_7_chars() {
    let c = commit("test", "Test User", 1_700_000_000);
    assert_eq!(c.short_id.len(), 7);
    assert_eq!(c.short_id, "0123456");
    assert_eq!(c.message, "test");
    assert_eq!(c.author, "Test User");
    assert_eq!(c.date, 1_700_000_000);
}

#[test]
fn commit_summary_defaults() {
    let c = commit_summary("abc", None, None, 5);
    assert_eq!(c.short_id, "abc");
    assert_eq!(c.message, "");
    assert_eq!(c.author, "?");
    let far = commit_summary("abc", None, None, i64::MAX);
    assert!(far.date < i64::MAX);
}

#[test]
fn filtered_by_author() {
    let commits = vec![commit("from alice", "Test User", 2), commit("from bob", "Test User", 1)];
    let f = LogFilter { author: Some("Test User".to_string()), since: None, grep: None };
    assert_eq!(filter_commits(&commits, 10, 10_000, &f).len(), 2);
    let f2 = LogFilter { author: Some("nobody".to_string()), since: None, grep: None };
    assert_eq!(filter_commits(&commits, 10, 10_000, &f2).len(), 0);
    let f3 = LogFilter { author: Some("test user".to_string()), since: None, grep: None };
    assert_eq!(filter_commits(&commits, 10, 10_000, &f3).len(), 2);
}

#[test]
fn filtered_by_grep() {
    let commits = vec![
        commit("chore: cleanup", "u", 3),
        commit("fix: repair widget", "u", 2),
        commit("feat: add widget", "u", 1),
    ];
    let f = LogFilter { author: None, since: None, grep: Some("widget".to_string()) };
    let r = filter_commits(&commits, 10, 10_000, &f);
    assert_eq!(r.len(), 2);
    assert_eq!(r[0].message, "fix: repair widget");
}

#[test]
fn filtered_by_grep_ignores_case() {
    let commits = vec![commit("chore: cleanup", "u", 3), commit("fix: repair Widget", "u", 2)];
    let f = LogFilter { author: None, since: None, grep: Some("WIDGET".to_string()) };
    let r = filter_commits(&commits, 10, 10_000, &f);
    assert_eq!(r.len(), 1);
    assert_eq!(r[0].message, "fix: repair Widget");
}

#[test]
fn filtered_by_since_excludes_old_commits() {
    let now = chrono::Utc::now().timestamp();
    let commits = vec![commit("recent commit", "u", now)];
    let future = LogFilter { author: None, since: Some(now + 365 * 86400), grep: None };
    assert_eq!(filter_commits(&commits, 10, 10_000, &future).len(), 0);
    let past = LogFilter { author: None, since: Some(now - 365 * 86400), grep: None };
    assert_eq!(filter_commits(&commits, 10, 10_000, &past).len(), 1);
}

#[test]
fn filtered_respects_count_and_scan_limit() {
    let commits: Vec<CommitSummary> = (0..10).map(|i| commit(&format!("c{}", i), "u", i)).collect();
    let r = filter_commits(&commits, 3, 10_000, &no_filter());
    assert_eq!(r.iter().map(|c| c.message.as_str()).collect::<Vec<_>>(), vec!["c0", "c1", "c2"]);
    let r2 = filter_commits(&commits, 10, 4, &no_filter());
    assert_eq!(r2.len(), 4);
    let f = LogFilter { author: None, since: None, grep: Some("c9".to_string()) };
    assert_eq!(filter_commits(&commits, 10, 5, &f).len(), 0);
}

#[test]
fn log_scan_step_by_step() {
    let mut scan = LogScan::new();
    assert!(scan.wants_more(1, 5));
    scan.offer(&commit("x", "u", 0), &no_filter());
    assert_eq!(scan.checked, 1);
    assert!(!scan.wants_more(1, 5));
}

#[test]
fn case_insensitive_contains() {
    assert!(contains_ignore_case("Hello World", "WORLD"));
    assert!(!contains_ignore_case("Hello", "bye"));
    assert!(contains_ignore_case("anything", ""));
}

#[test]
fn parse_i64_like_std() {
    for s in ["0", "42", "-7", "+7", "", "-", "+", "1a", " 1", "9223372036854775807", "9223372036854775808", "-9223372036854775808", "-9223372036854775809", "0007", "99999999999999999999999"] {
        assert_eq!(parse_i64(s), s.parse::<i64>().ok(), "{:?}", s);
    }
}

#[test]
fn parse_since_forms() {
    assert_eq!(parse_since("3d"), Ok(Since::SecondsAgo(3 * 86400)));
    assert_eq!(parse_since("2w"), Ok(Since::SecondsAgo(14 * 86400)));
    assert_eq!(parse_since("1m"), Ok(Since::SecondsAgo(30 * 86400)));
    assert_eq!(parse_since("-1d"), Ok(Since::SecondsAgo(-86400)));
    assert_eq!(parse_since("2024-01-02"), Ok(Since::At(1704153600)));
    assert_eq!(
        parse_since("yesterday"),
        Err("Invalid date format: 'yesterday'. Use YYYY-MM-DD, Nd, Nw, or Nm".to_string())
    );
    assert!(parse_since("xd").is_err());
}

#[test]
fn since_cutoff_moments() {
    assert_eq!(since_cutoff(1000, 0, Since::SecondsAgo(400)), Some(600));
    assert_eq!(since_cutoff(1000, 1, Since::SecondsAgo(400)), Some(601));
    assert_eq!(since_cutoff(1000, 0, Since::At(5)), Some(5));
    assert_eq!(since_cutoff(1000, 999_999_999, Since::At(5)), Some(5));
    assert_eq!(since_cutoff(1000, 0, Since::SecondsAgo(9_223_372_036_854_776)), None);
    assert_eq!(since_cutoff(1000, 0, Since::SecondsAgo(8_334_601_229_800)), Some(-8_334_601_228_800));
    assert_eq!(since_cutoff(1000, 0, Since::SecondsAgo(8_334_601_229_801)), None);
}

#[test]
fn since_cutoff_matches_chrono_arithmetic() {
    let now = chrono::DateTime::from_timestamp(1_700_000_000, 500).unwrap();
    let moment = now - chrono::Duration::days(3);
    let first = since_cutoff(now.timestamp(), now.timestamp_subsec_nanos(), Since::SecondsAgo(3 * 86400)).unwrap();
    let at = |s: i64| chrono::DateTime::from_timestamp(s, 0).unwrap();
    assert!(!(at(first) < moment));
    assert!(at(first - 1) < moment);
}

#[test]
fn since_from_uses_the_date_reading() {
    assert_eq!(since_from("2024-01-02", Some(77)), Ok(Since::At(77)));
    assert_eq!(since_from("5d", Some(77)), Ok(Since::SecondsAgo(5 * 86400)));
    assert_eq!(
        since_from("2024-01-02", None),
        Err("Invalid date format: '2024-01-02'. Use YYYY-MM-DD, Nd, Nw, or Nm".to_string())
    );
}

#[test]
fn commit_entry_fields() {
    let c = commit_summary("0123456789", Some("msg"), Some("Ann"), 86400);
    let pairs = vec![("0123456789".to_string(), "main".to_string()), ("x".to_string(), "other".to_string())];
    let e = commit_entry(&c, &pairs);
    assert_eq!(e.hash, "0123456");
    assert_eq!(e.author, "Ann");
    assert_eq!(e.date, "1970-01-02T00:00:00+00:00");
    assert_eq!(e.message, "msg");
    assert_eq!(e.refs, vec!["main".to_string()]);
}

#[test]
fn log_line_layout() {
    let c = commit("msg", "Ann", 0);
    let line = log_line(&c, &vec![], 30);
    assert_eq!(line, format!("{}  {}  Ann  msg", info("0123456"), dim("just now")));
    let with_refs = log_line(&c, &vec!["main".to_string(), "origin/main".to_string()], 30);
    assert!(with_refs.ends_with(&format!("  {}", info("[main, origin/main]"))));
}

#[test]
fn commit_times_at_the_edges_of_chrono_range() {
    assert_eq!(commit_summary("a", None, None, 8_210_266_876_799).date, 8_210_266_876_799);
    assert_eq!(commit_summary("a", None, None, -8_334_601_228_800).date, -8_334_601_228_800);
    assert_ne!(commit_summary("a", None, None, 8_210_266_876_800).date, 8_210_266_876_800);
    assert_ne!(commit_summary("a", None, None, -8_334_601_228_801).date, -8_334_601_228_801);
}

#[test]
fn refs_grouped_by_commit() {
    let pairs = vec![
        ("aaa".to_string(), "main".to_string()),
        ("bbb".to_string(), "feature".to_string()),
        ("aaa".to_string(), "origin/main".to_string()),
    ];
    assert_eq!(refs_of(&pairs, "aaa"), vec!["main".to_string(), "origin/main".to_string()]);
    assert_eq!(refs_of(&pairs, "bbb"), vec!["feature".to_string()]);
    assert!(refs_of(&pairs, "ccc").is_empty());
}

#[test]
fn chrono_range_is_the_valid_range() {
    assert_eq!(chrono::DateTime::<chrono::Utc>::MIN_UTC.timestamp(), -8_334_601_228_800);
    assert_eq!(chrono::DateTime::<chrono::Utc>::MAX_UTC.timestamp(), 8_210_266_876_799);
    assert_eq!(
        chrono::NaiveDate::MIN.and_hms_opt(0, 0, 0).unwrap().and_utc().timestamp(),
        -8_334_601_228_800
    );
    assert!(chrono::DateTime::from_timestamp(-8_334_601_228_800, 0).is_some());
    assert!(chrono::DateTime::from_timestamp(-8_334_601_228_801, 0).is_none());
    assert!(chrono::DateTime::from_timestamp(-8_334_601_315_200, 0).is_none());
}

use gitpilot::commands::review::{review, review_rules, scan_diff, truncate, Pattern};
use gitpilot::config::Config;
use gitpilot::display::theme::{dim, error, warning};
use gitpilot::git::diff::{process_diff, DiffEvent};

#[test]
fn truncate_short_unchanged() {
    assert_eq!(truncate("short", 20), "short");
}

#[test]
fn truncate_at_limit_unchanged() {
    assert_eq!(truncate("hello", 5), "hello");
}

#[test]
fn truncate_over_limit_adds_ellipsis() {
    let s = "a".repeat(70);
    let result = truncate(&s, 60);
    assert!(result.ends_with('…'));
    assert!(result.chars().count() <= 60);
}

#[test]
fn truncate_zero_returns_ellipsis() {
    assert_eq!(truncate("anything", 0), "…");
}

#[test]
fn truncate_counts_characters_not_bytes() {
    assert_eq!(truncate("ééééé", 5), "ééééé");
    assert_eq!(truncate("éééééé", 5), "éééé…");
}

fn pattern(p: &str) -> Pattern {
    match Pattern::new(p) {
        Ok(p) => p,
        Err(e) => panic!("{}", e),
    }
}

#[test]
fn secret_pattern_aws_matches() {
    let pat = pattern(r"AWS_SECRET");
    assert!(pat.is_match("AWS_SECRET_KEY=abc123"));
    assert!(!pat.is_match("aws_key=foo"));
}

#[test]
fn secret_pattern_github_token_matches() {
    let pat = pattern(r"ghp_[A-Za-z0-9]+");
    assert!(pat.is_match("token = ghp_abcABC123"));
    assert!(!pat.is_match("token = ghs_abc"));
}

#[test]
fn secret_pattern_password_matches() {
    let pat = pattern(r"password\s*=");
    assert!(pat.is_match("password = secret"));
    assert!(pat.is_match("password=secret"));
    assert!(!pat.is_match("user_password_hash"));
}

#[test]
fn debug_pattern_println_matches() {
    let pat = pattern(r"println!\s*\(");
    assert!(pat.is_match("println!(\"debug\")"));
    assert!(pat.is_match("println! (\"debug\")"));
    assert!(pat.is_match("eprintln!(\"ok\")"));
    assert!(!pat.is_match("log::info!(\"ok\")"));
}

#[test]
fn debug_pattern_console_log_matches() {
    let pat = pattern(r"console\.log\s*\(");
    assert!(pat.is_match("console.log(\"debug\")"));
    assert!(!pat.is_match("console.warn(\"ok\")"));
}

#[test]
fn todo_pattern_matches_word_boundary() {
    let pat = pattern(r"\bTODO\b");
    assert!(pat.is_match("// TODO: fix this"));
    assert!(!pat.is_match("TODOLIST"));
}

#[test]
fn fixme_pattern_matches() {
    let pat = pattern(r"\bFIXME\b");
    assert!(pat.is_match("// FIXME: broken"));
}

#[test]
fn hack_pattern_matches() {
    let pat = pattern(r"\bHACK\b");
    assert!(pat.is_match("// HACK: workaround"));
    assert!(!pat.is_match("shackle"));
}

#[test]
fn invalid_pattern_is_an_error() {
    assert!(Pattern::new("(unclosed").is_err());
}

fn file(path: &str) -> DiffEvent {
    DiffEvent::File { path: path.to_string() }
}

fn line(path: &str, origin: char, content: &str) -> DiffEvent {
    DiffEvent::Line { path: path.to_string(), origin, content: content.to_string() }
}

#[test]
fn review_rules_default_set() {
    let config = Config::default();
    let (rules, warnings) = review_rules(&config.review_secrets_patterns);
    assert!(warnings.is_empty());
    assert_eq!(rules.len(), 5 + 5 + 4);
    assert_eq!(rules[0].category, "Potential secret");
    assert!(rules[0].is_error);
    assert_eq!(rules[5].category, "Debug: println!");
    assert_eq!(rules[13].category, "Marker: XXX");
    assert_eq!(rules[13].severity, dim("info"));
}

#[test]
fn review_rules_warn_about_invalid_patterns() {
    let (rules, warnings) = review_rules(&vec!["(".to_string(), "ok".to_string()]);
    assert_eq!(warnings.len(), 1);
    assert!(warnings[0].contains("Invalid review pattern '('"));
    assert_eq!(rules.len(), 1 + 5 + 4);
}

#[test]
fn review_finds_secret_and_fails() {
    let diff = process_diff(&vec![
        file("src/a.rs"),
        line("src/a.rs", '+', "let password = \"x\";\n"),
        line("src/a.rs", '-', "old TODO line\n"),
        line("src/a.rs", '+', "  // TODO: later  \n"),
    ]);
    let report = review(&diff, &Config::default());
    assert!(!report.nothing_staged);
    assert_eq!(report.exit_code, 1);
    assert_eq!(report.findings.len(), 2);
    let f0 = &report.findings[0];
    assert_eq!(f0.severity, error("error"));
    assert_eq!(f0.category, "Potential secret");
    assert_eq!(f0.file, "src/a.rs");
    assert_eq!(f0.line, "1");
    assert_eq!(f0.snippet, "let password = \"x\";");
    let f1 = &report.findings[1];
    assert_eq!(f1.category, "Marker: TODO");
    assert_eq!(f1.line, "3");
    assert_eq!(f1.snippet, "// TODO: later");
}

#[test]
fn review_warnings_do_not_fail() {
    let diff = process_diff(&vec![file("app.js"), line("app.js", '+', "console.log(1)\n")]);
    let report = review(&diff, &Config::default());
    assert_eq!(report.exit_code, 0);
    assert_eq!(report.findings.len(), 1);
    assert_eq!(report.findings[0].severity, warning("warning"));
    assert_eq!(report.findings[0].category, "Debug: console.log");
}

#[test]
fn review_nothing_staged() {
    let diff = process_diff(&vec![]);
    let report = review(&diff, &Config::default());
    assert!(report.nothing_staged);
    assert!(report.findings.is_empty());
    assert_eq!(report.exit_code, 0);
}

#[test]
fn review_large_diff_warning_first() {
    let mut events = vec![file("big.txt")];
    for _ in 0..501 {
        events.push(line("big.txt", '+', "x\n"));
    }
    let diff = process_diff(&events);
    let report = review(&diff, &Config::default());
    assert_eq!(report.findings.len(), 1);
    assert_eq!(report.findings[0].category, "Large diff");
    assert_eq!(report.findings[0].snippet, "501 lines changed");
    assert_eq!(report.exit_code, 0);
}

#[test]
fn scan_ignores_removed_and_context_lines() {
    let diff = process_diff(&vec![
        file("a"),
        line("a", '-', "AWS_SECRET=1\n"),
        line("a", ' ', "AWS_SECRET=2\n"),
    ]);
    let (rules, _) = review_rules(&Config::default().review_secrets_patterns);
    let (findings, has_error) = scan_diff(&diff.files, &rules);
    assert!(findings.is_empty());
    assert!(!has_error);
}

use gitpilot::commands::cleanup::{candidate_label, cleanup_candidates, delete_prompt};
use gitpilot::git::branches::{age_in_days, branch_info, classify, list_branch_infos, BranchFacts, BranchState};

#[test]
fn branch_state_equality() {
    assert_eq!(BranchState::Merged, BranchState::Merged);
    assert_eq!(BranchState::Gone, BranchState::Gone);
    assert_eq!(BranchState::Stale, BranchState::Stale);
    assert_eq!(BranchState::Active, BranchState::Active);
    assert_ne!(BranchState::Merged, BranchState::Active);
}

#[test]
fn classify_precedence() {
    assert_eq!(classify(true, Some(true), 100, 30), BranchState::Gone);
    assert_eq!(classify(false, Some(true), 100, 30), BranchState::Merged);
    assert_eq!(classify(false, Some(false), 31, 30), BranchState::Stale);
    assert_eq!(classify(false, None, 31, 30), BranchState::Stale);
    assert_eq!(classify(false, None, 29, 30), BranchState::Active);
    assert_eq!(classify(false, Some(false), 0, 30), BranchState::Active);
}

#[test]
fn age_rounds_toward_zero() {
    assert_eq!(age_in_days(86400 * 2 + 5, 0), 2);
    assert_eq!(age_in_days(0, 86400 + 1), -1);
    assert_eq!(age_in_days(100, 50), 0);
}

fn facts(name: &str, time: i64, gone: bool, merged: Option<bool>) -> BranchFacts {
    BranchFacts { name: name.to_string(), commit_time: time, summary: Some("msg".to_string()), gone, merged }
}

#[test]
fn branch_info_fields() {
    let now = 10 * 86400;
    let b = branch_info(&facts("feature", 86400, false, Some(false)), now, 5);
    assert_eq!(b.name, "feature");
    assert_eq!(b.age_days, 9);
    assert_eq!(b.state, BranchState::Stale);
    assert_eq!(b.last_commit_msg, "msg");
    assert_eq!(b.last_commit_date, 86400);
    let none = BranchFacts { summary: None, ..facts("x", now, false, None) };
    assert_eq!(branch_info(&none, now, 5).last_commit_msg, "");
}

#[test]
fn listing_keeps_order_and_recent_branch_is_active() {
    let now = chrono::Utc::now().timestamp();
    let infos = list_branch_infos(&vec![facts("main", now, false, Some(true)), facts("feature/x", now, false, None)], 30);
    assert_eq!(infos.len(), 2);
    assert_eq!(infos[0].state, BranchState::Merged);
    assert_eq!(infos[1].name, "feature/x");
    assert_eq!(infos[1].state, BranchState::Active);
    assert_eq!(infos[1].age_days, 0);
}

#[test]
fn cleanup_skips_current_protected_and_active() {
    let now = 100 * 86400;
    let infos: Vec<_> = vec![
        facts("main", 0, false, Some(true)),
        facts("old", 0, false, Some(false)),
        facts("current", 0, true, None),
        facts("fresh", now, false, Some(false)),
        facts("done", now, false, Some(true)),
    ]
    .iter()
    .map(|f| branch_info(f, now, 30))
    .collect();
    let protected = vec!["main".to_string(), "master".to_string(), "develop".to_string()];
    let c = cleanup_candidates(&infos, "current", &protected);
    let names: Vec<&str> = c.iter().map(|b| b.name.as_str()).collect();
    assert_eq!(names, vec!["old", "done"]);
    assert_eq!(candidate_label(&c[0]), "old (Stale)");
    assert_eq!(candidate_label(&c[1]), "done (Merged)");
}

#[test]
fn delete_prompt_plural() {
    assert_eq!(delete_prompt(1), "Delete 1 branch? This cannot be undone.");
    assert_eq!(delete_prompt(3), "Delete 3 branches? This cannot be undone.");
}

#[test]
fn stale_at_exactly_the_threshold() {
    assert_eq!(classify(false, None, 30, 30), BranchState::Stale);
    assert_eq!(classify(false, Some(false), 30, 30), BranchState::Stale);
    let now: i64 = 1_700_000_000;
    let b = branch_info(&facts("old", now - 30 * 86400, false, None), now, 30);
    assert_eq!(b.age_days, 30);
    assert_eq!(b.state, BranchState::Stale);
    let b = branch_info(&facts("young", now - 30 * 86400 + 1, false, None), now, 30);
    assert_eq!(b.age_days, 29);
    assert_eq!(b.state, BranchState::Active);
}

#[test]
fn list_branches_returns_default_branch() {
    let now = chrono::Utc::now().timestamp();
    let branches = list_branch_infos(&vec![facts("main", now, false, None)], 30);
    assert_eq!(branches.len(), 1);
}

#[test]
fn list_branches_active_state_for_recent_commit() {
    let now = chrono::Utc::now().timestamp();
    let branches = list_branch_infos(&vec![facts("main", now, false, None)], 30);
    assert_eq!(branches[0].state, BranchState::Active);
    assert_eq!(branches[0].age_days, 0);
}

#[test]
fn list_branches_multiple_branches() {
    let now = chrono::Utc::now().timestamp();
    let branches = list_branch_infos(&vec![facts("feature/x", now, false, None), facts("main", now, false, None)], 30);
    assert_eq!(branches.len(), 2);
    let names: Vec<&str> = branches.iter().map(|b| b.name.as_str()).collect();
    assert!(names.iter().any(|n| n.contains("feature/x")));
}

#[test]
fn list_branches_records_last_commit_message() {
    let now = chrono::Utc::now().timestamp();
    let f = BranchFacts { summary: Some("my special message".to_string()), ..facts("main", now, false, None) };
    let branches = list_branch_infos(&vec![f], 30);
    assert_eq!(branches[0].last_commit_msg, "my special message");
}

#[test]
fn huge_threshold_is_never_stale() {
    assert_eq!(classify(false, None, i64::MAX, u64::MAX), BranchState::Active);
    assert_eq!(classify(false, None, i64::MAX, i64::MAX as u64), BranchState::Stale);
}

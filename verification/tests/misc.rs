use gitpilot::commands::init::hook_update;
use gitpilot::commands::stash::{action_word, done_message, is_conflict_failure, stash_action, stash_label, stash_outcome, StashAction, StashOutcome};
use gitpilot::commands::status::{is_clean, stash_message, upstream_message};
use gitpilot::commands::summary::{changes_line, commits_heading, file_line};
use gitpilot::commands::switch::{branch_of_choice, is_blocked_by_changes, switch_action, switch_choices, SwitchAction};
use gitpilot::commands::sync::{strategy_word, sync_args, sync_failure};
use gitpilot::commands::undo::{not_enough_history, reset_mode, reset_mode_name, short_id, undo_item, undo_label, undo_labels, ResetMode};
use gitpilot::config::{Config, SyncStrategy};
use gitpilot::display::tables::{branch_rows, can_cut, commit_rows, file_rows, truncate};
use gitpilot::display::theme::{dim, error, heading, success, warning};
use gitpilot::git::branches::{BranchInfo, BranchState};
use gitpilot::git::commits::commit_summary;
use gitpilot::git::diff::{process_diff, DiffEvent};
use gitpilot::git::status::{repo_status, StatusEntry, StatusFlags, UpstreamStatus};
use gitpilot::update::newer_release;

fn strings(v: &[&str]) -> Vec<String> {
    v.iter().map(|s| s.to_string()).collect()
}

#[test]
fn config_defaults() {
    let c = Config::default();
    assert_eq!(c.base_branch, "main");
    assert_eq!(c.protected_branches, strings(&["main", "master", "develop"]));
    assert_eq!(c.stale_days, 30);
    assert_eq!(
        c.review_secrets_patterns,
        strings(&["AWS_SECRET", r"api_key\s*=", "-----BEGIN", "ghp_[A-Za-z0-9]+", r"password\s*="])
    );
    assert_eq!(c.sync_strategy, SyncStrategy::Rebase);
}

#[test]
fn hook_install_and_idempotence() {
    let fresh = hook_update(None).unwrap();
    assert_eq!(fresh, "#!/bin/sh\ngitpilot review\n");
    assert_eq!(hook_update(Some(&fresh)), None);
    assert_eq!(hook_update(Some("#!/bin/sh\necho hi")).unwrap(), "#!/bin/sh\necho hi\ngitpilot review\n");
    assert_eq!(hook_update(Some("x\n")).unwrap(), "x\ngitpilot review\n");
}

#[test]
fn stash_helpers() {
    assert_eq!(stash_label(2, "WIP on main"), "stash@{2}: WIP on main");
    assert_eq!(stash_action(0), StashAction::Apply);
    assert_eq!(stash_action(7), StashAction::Cancel);
    assert_eq!(action_word(StashAction::Pop), "popped");
    assert!(is_conflict_failure("1 conflict prevents checkout"));
    assert!(!is_conflict_failure("object not found"));
}

#[test]
fn stash_outcomes() {
    assert!(matches!(stash_outcome(StashAction::Drop, None), StashOutcome::Done));
    match stash_outcome(StashAction::Apply, Some("1 conflict prevents checkout")) {
        StashOutcome::Conflict(w) => assert_eq!(w, warning("Conflicts when applying stash: 1 conflict prevents checkout")),
        _ => panic!("expected a conflict warning"),
    }
    match stash_outcome(StashAction::Pop, Some("merge failed")) {
        StashOutcome::Conflict(w) => assert_eq!(w, warning("Conflicts when popping stash: merge failed")),
        _ => panic!("expected a conflict warning"),
    }
    assert!(matches!(stash_outcome(StashAction::Drop, Some("merge conflict")), StashOutcome::Failed));
    assert!(matches!(stash_outcome(StashAction::Apply, Some("object not found")), StashOutcome::Failed));
    assert_eq!(done_message(StashAction::Apply), success("Stash applied."));
    assert_eq!(done_message(StashAction::Cancel), dim("Cancelled."));
}

fn flags() -> StatusFlags {
    StatusFlags {
        index_new: false,
        index_modified: false,
        index_deleted: false,
        index_renamed: false,
        index_typechange: false,
        wt_new: false,
        wt_modified: false,
        wt_deleted: false,
        wt_typechange: false,
        wt_renamed: false,
    }
}

#[test]
fn repo_status_sorts_entries() {
    let entries = vec![
        StatusEntry { path: Some("a".to_string()), flags: StatusFlags { index_new: true, wt_modified: true, ..flags() } },
        StatusEntry { path: None, flags: StatusFlags { wt_new: true, ..flags() } },
        StatusEntry { path: Some("c".to_string()), flags: StatusFlags { index_deleted: true, index_renamed: true, ..flags() } },
        StatusEntry { path: Some("d".to_string()), flags: StatusFlags { wt_deleted: true, wt_renamed: true, ..flags() } },
    ];
    let s = repo_status(None, &entries, 2, None);
    assert_eq!(s.branch, "HEAD (detached)");
    assert_eq!(s.staged.len(), 2);
    assert_eq!((s.staged[0].path.as_str(), s.staged[0].status.as_str()), ("a", "added"));
    assert_eq!(s.staged[1].status, "deleted");
    assert_eq!(s.unstaged.len(), 2);
    assert_eq!(s.unstaged[0].status, "modified");
    assert_eq!(s.unstaged[1].status, "deleted");
    assert_eq!(s.untracked.len(), 1);
    assert_eq!(s.untracked[0].path, "?");
    assert_eq!(s.stash_count, 2);
    assert!(!is_clean(&s));
    assert!(is_clean(&repo_status(Some("main".to_string()), &vec![], 0, None)));
}

#[test]
fn status_messages() {
    assert_eq!(upstream_message(&None), dim("no upstream tracking branch"));
    assert_eq!(upstream_message(&Some(UpstreamStatus { ahead: 0, behind: 0 })), success("up to date with upstream"));
    assert_eq!(upstream_message(&Some(UpstreamStatus { ahead: 2, behind: 1 })), warning("↑2 ahead, ↓1 behind upstream"));
    assert_eq!(stash_message(1), warning("Stash: 1 entry"));
    assert_eq!(stash_message(3), warning("Stash: 3 entries"));
}

#[test]
fn summary_lines() {
    let d = process_diff(&vec![
        DiffEvent::File { path: "a".to_string() },
        DiffEvent::Line { path: "a".to_string(), origin: '+', content: "x\n".to_string() },
    ]);
    assert_eq!(
        changes_line(&d),
        format!("{} +{} -{} across 1 file", heading("Changes:"), success("1"), error("0"))
    );
    assert_eq!(file_line(&d.files[0]), format!("  a +{} -{}", success("1"), error("0")));
    assert_eq!(commits_heading(2), format!("{} (2 commits)", heading("Commits on this branch:")));
}

#[test]
fn switch_choices_and_actions() {
    let locals = strings(&["main", "feature"]);
    let remotes = strings(&["origin/HEAD", "origin/main", "origin/feature", "origin/other", "upstream/x", "origin/other"]);
    assert_eq!(switch_choices(&locals, &remotes, "main", false), strings(&["* main", "feature"]));
    assert_eq!(
        switch_choices(&locals, &remotes, "main", true),
        strings(&["* main", "feature", "other", "upstream/x"])
    );
    assert_eq!(branch_of_choice("* main"), "main");
    assert_eq!(branch_of_choice("feature"), "feature");
    assert_eq!(switch_action("main", "main", true, false), SwitchAction::AlreadyOn);
    assert_eq!(switch_action("x", "main", true, true), SwitchAction::CheckoutLocal);
    assert_eq!(switch_action("x", "main", false, false), SwitchAction::CheckoutLocal);
    assert_eq!(switch_action("x", "main", false, true), SwitchAction::CreateTracking);
    assert!(is_blocked_by_changes("your local changes would be overwritten"));
    assert!(!is_blocked_by_changes("reference not found"));
}

#[test]
fn sync_plan() {
    assert_eq!(sync_args(SyncStrategy::Rebase, "main"), strings(&["rebase", "origin/main"]));
    assert_eq!(sync_args(SyncStrategy::Merge, "dev"), strings(&["merge", "origin/dev"]));
    assert_eq!(strategy_word(SyncStrategy::Merge), "merge");
    assert_eq!(
        sync_failure(SyncStrategy::Merge),
        "git merge failed. Resolve conflicts, then commit the merge."
    );
}

#[test]
fn undo_texts() {
    let c = commit_summary("abcdef0123", Some(&"m".repeat(70)), Some("Ann"), 0);
    assert_eq!(undo_item(&c), format!("abcdef0 {} — Ann", "m".repeat(60)));
    assert_eq!(undo_label(1), "Undo 1 commit");
    assert_eq!(undo_labels(3), strings(&["Undo 1 commit", "Undo 2 commits", "Undo 3 commits"]));
    assert_eq!(reset_mode(1), ResetMode::Mixed);
    assert_eq!(reset_mode(5), ResetMode::Hard);
    assert_eq!(reset_mode_name(ResetMode::Soft), "soft");
    assert_eq!(not_enough_history(1), "Not enough history: only 1 commit available.");
    assert_eq!(not_enough_history(0), "Not enough history: only 0 commits available.");
    assert_eq!(short_id("0123456789"), "0123456");
}

#[test]
fn table_rows() {
    let c = commit_summary("0123456789", Some(&"x".repeat(61)), Some("Ann"), 86400);
    let rows = commit_rows(&vec![c]);
    assert_eq!(rows[0].hash, "0123456");
    assert_eq!(rows[0].date, "1970-01-02");
    assert_eq!(rows[0].message, format!("{}…", "x".repeat(59)));
    let b = BranchInfo {
        name: "f".to_string(),
        state: BranchState::Gone,
        last_commit_date: 0,
        last_commit_msg: "short".to_string(),
        age_days: -2,
    };
    let br = branch_rows(&vec![b]);
    assert_eq!((br[0].status.as_str(), br[0].age.as_str(), br[0].last_commit.as_str()), ("Gone", "-2", "short"));
    let s = repo_status(None, &vec![StatusEntry { path: Some("p".to_string()), flags: StatusFlags { wt_new: true, ..flags() } }], 0, None);
    let fr = file_rows(&s.untracked);
    assert_eq!((fr[0].status.as_str(), fr[0].path.as_str()), ("untracked", "p"));
}

#[test]
fn byte_truncation() {
    assert_eq!(truncate("hello", 5), "hello");
    assert_eq!(truncate("hello!", 5), "hell…");
    assert!(can_cut("aéb", 4));
    assert!(can_cut("ééé", 3));
    assert_eq!(truncate("ééé", 3), "é…");
    assert!(!can_cut("aéb", 3));
}

#[test]
fn update_notice() {
    assert_eq!(newer_release("1.2.0", "1.2.0"), None);
    assert_eq!(newer_release("1.3.0", "1.2.0"), Some("1.3.0".to_string()));
}

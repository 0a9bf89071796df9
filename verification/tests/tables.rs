use gitpilot::commands::review::{findings_table, FindingRow};
use gitpilot::display::tables::{branch_table, commit_table, file_table};
use gitpilot::git::branches::{BranchInfo, BranchState};
use gitpilot::git::commits::commit_summary;
use gitpilot::git::status::FileChange;

fn lines(v: &[&str]) -> String {
    v.join("\n")
}

#[test]
fn file_table_layout() {
    let t = file_table(&vec![FileChange { path: "p".to_string(), status: "untracked".to_string() }]);
    assert_eq!(
        t,
        lines(&[
            "+-----------+------+",
            "| Status    | File |",
            "+-----------+------+",
            "| untracked | p    |",
            "+-----------+------+",
        ])
    );
}

#[test]
fn file_table_empty_has_header_only() {
    let t = file_table(&vec![]);
    assert_eq!(t, lines(&["+--------+------+", "| Status | File |", "+--------+------+"]));
}

#[test]
fn commit_table_layout() {
    let c = commit_summary("0123456789", Some("fix"), Some("Ann"), 86400);
    let t = commit_table(&vec![c]);
    assert_eq!(
        t,
        lines(&[
            "+---------+--------+------------+---------+",
            "| Hash    | Author | Date       | Message |",
            "+---------+--------+------------+---------+",
            "| 0123456 | Ann    | 1970-01-02 | fix     |",
            "+---------+--------+------------+---------+",
        ])
    );
}

#[test]
fn branch_table_layout() {
    let b = BranchInfo {
        name: "f".to_string(),
        state: BranchState::Gone,
        last_commit_date: 0,
        last_commit_msg: "short".to_string(),
        age_days: -2,
    };
    let t = branch_table(&vec![b]);
    assert_eq!(
        t,
        lines(&[
            "+--------+--------+------------+-------------+",
            "| Branch | Status | Age (days) | Last Commit |",
            "+--------+--------+------------+-------------+",
            "| f      | Gone   | -2         | short       |",
            "+--------+--------+------------+-------------+",
        ])
    );
}

#[test]
fn findings_table_layout() {
    let f = FindingRow {
        severity: "warning".to_string(),
        category: "Large diff".to_string(),
        file: String::new(),
        line: String::new(),
        snippet: "600 lines changed".to_string(),
    };
    let t = findings_table(&vec![f]);
    assert_eq!(
        t,
        lines(&[
            "+----------+------------+------+------+-------------------+",
            "| Severity | Category   | File | Line | Snippet           |",
            "+----------+------------+------+------+-------------------+",
            "| warning  | Large diff |      |      | 600 lines changed |",
            "+----------+------------+------+------+-------------------+",
        ])
    );
}

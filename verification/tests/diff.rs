use gitpilot::git::diff::{process_diff, DiffEvent};

fn file(path: &str) -> DiffEvent {
    DiffEvent::File { path: path.to_string() }
}

fn line(path: &str, origin: char, content: &str) -> DiffEvent {
    DiffEvent::Line { path: path.to_string(), origin, content: content.to_string() }
}

#[test]
fn process_diff_empty() {
    let d = process_diff(&vec![]);
    assert!(d.files.is_empty());
    assert_eq!(d.total_additions, 0);
    assert_eq!(d.total_deletions, 0);
}

#[test]
fn process_diff_counts_and_patch() {
    let d = process_diff(&vec![
        file("a.txt"),
        line("a.txt", '-', "old\n"),
        line("a.txt", '+', "new\n"),
        line("a.txt", ' ', "same\n"),
        file("b.txt"),
        line("b.txt", '+', "alpha\n"),
        line("b.txt", '+', "beta\n"),
    ]);
    assert_eq!(d.files.len(), 2);
    assert_eq!(d.files[0].path, "a.txt");
    assert_eq!(d.files[0].additions, 1);
    assert_eq!(d.files[0].deletions, 1);
    assert_eq!(d.files[0].patch, "-old\n+new\n");
    assert!(d.files[0].patch.contains("+new"));
    assert!(d.files[0].patch.contains("-old"));
    assert_eq!(d.files[1].additions, 2);
    assert_eq!(d.total_additions, 3);
    assert_eq!(d.total_deletions, 1);
}

#[test]
fn process_diff_keeps_first_seen_order_and_merges_repeats() {
    let d = process_diff(&vec![
        file("z"),
        file("a"),
        file("z"),
        line("a", '+', "1\n"),
        line("z", '+', "2\n"),
        line("unknown", '+', "3\n"),
    ]);
    let paths: Vec<&str> = d.files.iter().map(|f| f.path.as_str()).collect();
    assert_eq!(paths, vec!["z", "a"]);
    assert_eq!(d.files[0].patch, "+2\n");
    assert_eq!(d.total_additions, 2);
}

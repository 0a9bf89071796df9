use gitpilot::commands::clone::{
    clone_args, default_branch_label, destination_name, detect_key_files, detect_stack,
    infer_name_from_url, parse_repo_spec, remotes_label, suggested_commands,
};

fn present(names: &[&str]) -> Vec<String> {
    names.iter().map(|s| s.to_string()).collect()
}

#[test]
fn parse_https_url() {
    let (url, name) = parse_repo_spec("https://github.com/owner/repo.git");
    assert_eq!(url, "https://github.com/owner/repo.git");
    assert_eq!(name, "repo");
}

#[test]
fn parse_https_url_no_git_suffix() {
    let (url, name) = parse_repo_spec("https://github.com/owner/myrepo");
    assert_eq!(url, "https://github.com/owner/myrepo");
    assert_eq!(name, "myrepo");
}

#[test]
fn parse_ssh_url() {
    let (url, name) = parse_repo_spec("git@github.com:owner/repo.git");
    assert_eq!(url, "git@github.com:owner/repo.git");
    assert_eq!(name, "repo");
}

#[test]
fn parse_shorthand() {
    let (url, name) = parse_repo_spec("owner/repo");
    assert_eq!(url, "https://github.com/owner/repo");
    assert_eq!(name, "repo");
}

#[test]
fn parse_shorthand_with_git_suffix() {
    let (url, name) = parse_repo_spec("owner/repo.git");
    assert_eq!(url, "https://github.com/owner/repo.git");
    assert_eq!(name, "repo");
}

#[test]
fn parse_http_url_and_repeated_suffix() {
    let (url, name) = parse_repo_spec("http://example.com/a/b/tool.git.git");
    assert_eq!(url, "http://example.com/a/b/tool.git.git");
    assert_eq!(name, "tool");
}

#[test]
fn parse_shorthand_without_slash() {
    let (url, name) = parse_repo_spec("repo");
    assert_eq!(url, "https://github.com/repo");
    assert_eq!(name, "repo");
}

#[test]
fn infer_name_from_ssh_url_without_path() {
    assert_eq!(infer_name_from_url("git@host:repo.git"), "repo");
    assert_eq!(infer_name_from_url("https://host/dir/"), "");
}

#[test]
fn shorthand_name_equals_name_of_expanded_url() {
    for spec in ["owner/repo", "owner/repo.git", "a/b/c", "plain"] {
        let (url, name) = parse_repo_spec(spec);
        assert_eq!(infer_name_from_url(&url), name);
    }
}

#[test]
fn stack_detection_rust() {
    assert_eq!(detect_stack(&present(&["Cargo.toml"])), "Rust");
}

#[test]
fn stack_detection_node() {
    assert_eq!(detect_stack(&present(&["package.json"])), "Node.js");
}

#[test]
fn stack_detection_go() {
    assert_eq!(detect_stack(&present(&["go.mod"])), "Go");
}

#[test]
fn stack_detection_python_pyproject() {
    assert_eq!(detect_stack(&present(&["pyproject.toml"])), "Python");
}

#[test]
fn stack_detection_python_requirements() {
    assert_eq!(detect_stack(&present(&["requirements.txt"])), "Python");
}

#[test]
fn stack_detection_java_maven() {
    assert_eq!(detect_stack(&present(&["pom.xml"])), "Java (Maven)");
}

#[test]
fn stack_detection_java_gradle() {
    assert_eq!(detect_stack(&present(&["build.gradle"])), "Java (Gradle)");
}

#[test]
fn stack_detection_ruby() {
    assert_eq!(detect_stack(&present(&["Gemfile"])), "Ruby");
}

#[test]
fn stack_detection_php() {
    assert_eq!(detect_stack(&present(&["composer.json"])), "PHP");
}

#[test]
fn stack_detection_unknown() {
    assert_eq!(detect_stack(&present(&[])), "Unknown");
}

#[test]
fn stack_detection_rust_takes_priority_over_node() {
    assert_eq!(detect_stack(&present(&["Cargo.toml", "package.json"])), "Rust");
}

#[test]
fn key_files_none_present() {
    let files = detect_key_files(&present(&[]));
    assert!(files.is_empty());
}

#[test]
fn key_files_readme_and_makefile() {
    let files = detect_key_files(&present(&["README.md", "Makefile"]));
    assert!(files.contains(&"README.md".to_string()));
    assert!(files.contains(&"Makefile".to_string()));
}

#[test]
fn key_files_github_workflows_dir() {
    let files = detect_key_files(&present(&[".github/workflows", ".github"]));
    assert!(files.contains(&".github/workflows".to_string()));
}

#[test]
fn key_files_all_candidates() {
    let files = detect_key_files(&present(&[
        "README.md",
        "CONTRIBUTING.md",
        "Makefile",
        "Dockerfile",
        ".env.example",
        "CHANGELOG.md",
        ".github/workflows",
        ".github",
        ".github/CODEOWNERS",
    ]));
    assert_eq!(files.len(), 8);
}

#[test]
fn key_files_keep_candidate_order() {
    let files = detect_key_files(&present(&["Makefile", "unrelated.txt", "README.md"]));
    assert_eq!(files, vec!["README.md".to_string(), "Makefile".to_string()]);
}

#[test]
fn clone_args_with_branch_and_depth() {
    let args = clone_args("https://x/y.git", "y", Some("dev"), Some(3));
    assert_eq!(args, vec!["clone", "https://x/y.git", "--branch", "dev", "--depth", "3", "y"]);
    let plain = clone_args("u", "d", None, None);
    assert_eq!(plain, vec!["clone", "u", "d"]);
}

#[test]
fn clone_destination_and_labels() {
    assert_eq!(destination_name(Some("here"), "repo"), "here");
    assert_eq!(destination_name(None, "repo"), "repo");
    assert_eq!(default_branch_label(None), "unknown");
    assert_eq!(default_branch_label(Some("main")), "main");
    assert_eq!(remotes_label(&vec![]), "none");
    assert_eq!(remotes_label(&present(&["origin", "upstream"])), "origin, upstream");
    assert_eq!(
        suggested_commands("repo"),
        vec!["cd repo", "git pilot summary", "git pilot log --count 15", "git pilot init --hook"]
    );
}

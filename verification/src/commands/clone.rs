//! `clone`: turning a repository spec into a clone URL and a destination
//! name, and describing what the cloned tree looks like.
use vstd::prelude::*;
use crate::text::{
    after_last, chars_of, last_index_of, lemma_after_last_twice, lemma_last_index_concat, contains_string, decimal, decimal_string, has_prefix, join, join_seqs,
    start_after_last, strings_view, substring, to_string, trim_end_all, trim_end_len,
};

verus! {

broadcast use vstd::string::group_string_axioms;

/// The spec is already a URL (SSH or HTTP(S)) rather than `owner/repo` shorthand.
pub open spec fn is_url_spec(spec: Seq<char>) -> bool {
    "git@"@.is_prefix_of(spec) || "https://"@.is_prefix_of(spec) || "http://"@.is_prefix_of(spec)
}

/// The repository name that a clone URL names: its last path component,
/// where an SSH URL's path starts after the last `:`, without trailing `.git`.
pub open spec fn url_name(url: Seq<char>) -> Seq<char> {
    let segment = if "git@"@.is_prefix_of(url) {
        after_last(url, ':')
    } else {
        after_last(url, '/')
    };
    trim_end_all(after_last(segment, '/'), ".git"@)
}

/// The URL that `git clone` is given for a spec.
pub open spec fn spec_clone_url(spec: Seq<char>) -> Seq<char> {
    if is_url_spec(spec) {
        spec
    } else {
        "https://github.com/"@ + spec
    }
}

/// The directory name inferred for a spec.
pub open spec fn spec_clone_name(spec: Seq<char>) -> Seq<char> {
    if is_url_spec(spec) {
        url_name(spec)
    } else {
        trim_end_all(after_last(spec, '/'), ".git"@)
    }
}

/// The last `/`-separated component of `s` with trailing `.git` removed.
fn leaf_name(s: &str) -> (r: String)
    ensures
        r@ == trim_end_all(after_last(s@, '/'), ".git"@),
{
    let v = chars_of(s);
    let k = start_after_last(&v, '/');
    let leaf = substring(s, k, v.len());
    let lv = chars_of(leaf.as_str());
    let suffix = chars_of(".git");
    let e = trim_end_len(&lv, &suffix);
    let r = substring(leaf.as_str(), 0, e);
    assert(r@ == lv@.take(e as int));
    r
}

/// Infers the repository name from a clone URL.
pub fn infer_name_from_url(url: &str) -> (r: String)
    ensures
        r@ == url_name(url@),
{
    let v = chars_of(url);
    let git_at = chars_of("git@");
    if has_prefix(&v, &git_at) {
        let j = start_after_last(&v, ':');
        let segment = substring(url, j, v.len());
        leaf_name(segment.as_str())
    } else {
        let j = start_after_last(&v, '/');
        let segment = substring(url, j, v.len());
        leaf_name(segment.as_str())
    }
}

/// Parses a repository spec into the URL to clone and the inferred
/// destination name. Accepts full HTTP(S) URLs, SSH URLs (`git@host:owner/repo`)
/// and `owner/repo` shorthand, which is taken to name a GitHub repository.
pub fn parse_repo_spec(spec: &str) -> (r: (String, String))
    ensures
        r.0@ == spec_clone_url(spec@),
        r.1@ == spec_clone_name(spec@),
{
    let v = chars_of(spec);
    let is_url = has_prefix(&v, &chars_of("git@")) || has_prefix(&v, &chars_of("https://"))
        || has_prefix(&v, &chars_of("http://"));
    if is_url {
        let name = infer_name_from_url(spec);
        (to_string(spec), name)
    } else {
        let name = leaf_name(spec);
        let mut url = to_string("https://github.com/");
        url.append(spec);
        (url, name)
    }
}

/// The stack that the files at the top of a tree suggest, in order of
/// precedence: the first marker file present decides.
pub open spec fn stack_of(present: Seq<Seq<char>>) -> Seq<char> {
    if present.contains("Cargo.toml"@) {
        "Rust"@
    } else if present.contains("package.json"@) {
        "Node.js"@
    } else if present.contains("go.mod"@) {
        "Go"@
    } else if present.contains("pyproject.toml"@) || present.contains("requirements.txt"@) {
        "Python"@
    } else if present.contains("pom.xml"@) {
        "Java (Maven)"@
    } else if present.contains("build.gradle"@) {
        "Java (Gradle)"@
    } else if present.contains("Gemfile"@) {
        "Ruby"@
    } else if present.contains("composer.json"@) {
        "PHP"@
    } else {
        "Unknown"@
    }
}

/// The files whose presence `detect_stack` looks for.
pub fn stack_marker_files() -> (r: Vec<&'static str>)
    ensures
        r@.map_values(|f: &str| f@) == seq![
            "Cargo.toml"@,
            "package.json"@,
            "go.mod"@,
            "pyproject.toml"@,
            "requirements.txt"@,
            "pom.xml"@,
            "build.gradle"@,
            "Gemfile"@,
            "composer.json"@,
        ],
{
    let r = vec![
        "Cargo.toml",
        "package.json",
        "go.mod",
        "pyproject.toml",
        "requirements.txt",
        "pom.xml",
        "build.gradle",
        "Gemfile",
        "composer.json",
    ];
    assert(r@.map_values(|f: &str| f@) =~= seq![
        "Cargo.toml"@,
        "package.json"@,
        "go.mod"@,
        "pyproject.toml"@,
        "requirements.txt"@,
        "pom.xml"@,
        "build.gradle"@,
        "Gemfile"@,
        "composer.json"@,
    ]);
    r
}

/// The likely stack of a cloned tree, given the names (relative to its top)
/// of the files that exist there.
pub fn detect_stack(present: &Vec<String>) -> (r: &'static str)
    ensures
        r@ == stack_of(strings_view(present@)),
{
    if contains_string(present, "Cargo.toml") {
        "Rust"
    } else if contains_string(present, "package.json") {
        "Node.js"
    } else if contains_string(present, "go.mod") {
        "Go"
    } else if contains_string(present, "pyproject.toml") || contains_string(present, "requirements.txt") {
        "Python"
    } else if contains_string(present, "pom.xml") {
        "Java (Maven)"
    } else if contains_string(present, "build.gradle") {
        "Java (Gradle)"
    } else if contains_string(present, "Gemfile") {
        "Ruby"
    } else if contains_string(present, "composer.json") {
        "PHP"
    } else {
        "Unknown"
    }
}

/// The files worth pointing out in a fresh clone, in the order they are listed.
pub open spec fn key_file_candidates() -> Seq<Seq<char>> {
    seq![
        "README.md"@,
        "CONTRIBUTING.md"@,
        "Makefile"@,
        "Dockerfile"@,
        ".env.example"@,
        "CHANGELOG.md"@,
        ".github/workflows"@,
        ".github/CODEOWNERS"@,
    ]
}

/// The candidates that are present, in the candidates' order.
pub open spec fn present_candidates(candidates: Seq<Seq<char>>, present: Seq<Seq<char>>) -> Seq<Seq<char>>
    decreases candidates.len(),
{
    if candidates.len() == 0 {
        seq![]
    } else if present.contains(candidates.last()) {
        present_candidates(candidates.drop_last(), present).push(candidates.last())
    } else {
        present_candidates(candidates.drop_last(), present)
    }
}

/// The files (or directories) that `detect_key_files` looks for.
pub fn key_file_names() -> (r: Vec<&'static str>)
    ensures
        r@.map_values(|f: &str| f@) == key_file_candidates(),
{
    let r = vec![
        "README.md",
        "CONTRIBUTING.md",
        "Makefile",
        "Dockerfile",
        ".env.example",
        "CHANGELOG.md",
        ".github/workflows",
        ".github/CODEOWNERS",
    ];
    assert(r@.map_values(|f: &str| f@) =~= key_file_candidates());
    r
}

/// The key files of a cloned tree, given the names of the paths that exist
/// there: the candidates that are present, in the candidates' order.
pub fn detect_key_files(present: &Vec<String>) -> (r: Vec<String>)
    ensures
        strings_view(r@) == present_candidates(key_file_candidates(), strings_view(present@)),
{
    let candidates = key_file_names();
    let ghost cm = candidates@.map_values(|f: &str| f@);
    let ghost pm = strings_view(present@);
    let mut out: Vec<String> = Vec::new();
    let mut i: usize = 0;
    assert(cm.take(0) =~= Seq::<Seq<char>>::empty());
    while i < candidates.len()
        invariant
            i <= candidates.len(),
            cm == candidates@.map_values(|f: &str| f@),
            pm == strings_view(present@),
            strings_view(out@) == present_candidates(cm.take(i as int), pm),
        decreases candidates.len() - i,
    {
        assert(cm.take(i + 1).drop_last() =~= cm.take(i as int));
        assert(cm.take(i + 1).last() == candidates@[i as int]@);
        if contains_string(present, candidates[i]) {
            let ghost before = out@;
            out.push(to_string(candidates[i]));
            assert(strings_view(out@) =~= strings_view(before).push(cm[i as int]));
        }
        i = i + 1;
    }
    assert(cm.take(candidates.len() as int) =~= cm);
    out
}

/// The destination of a clone: the one asked for, else the inferred name.
pub fn destination_name(into: Option<&str>, inferred: &str) -> (r: String)
    ensures
        r@ == match into {
            Some(d) => d@,
            None => inferred@,
        },
{
    match into {
        Some(d) => to_string(d),
        None => to_string(inferred),
    }
}

/// The arguments of `git` that clone `url` into `dest`: optionally a branch
/// and a depth.
pub open spec fn clone_args_spec(url: Seq<char>, dest: Seq<char>, branch: Option<Seq<char>>, depth: Option<u32>) -> Seq<Seq<char>> {
    seq!["clone"@, url] + match branch {
        Some(b) => seq!["--branch"@, b],
        None => seq![],
    } + match depth {
        Some(d) => seq!["--depth"@, decimal(d as nat)],
        None => seq![],
    } + seq![dest]
}

/// The arguments of `git` that clone `url` into `dest`.
pub fn clone_args(url: &str, dest: &str, branch: Option<&str>, depth: Option<u32>) -> (r: Vec<String>)
    ensures
        strings_view(r@) == clone_args_spec(
            url@,
            dest@,
            match branch {
                Some(b) => Some(b@),
                None => None,
            },
            depth,
        ),
{
    let mut args = vec![to_string("clone"), to_string(url)];
    match branch {
        Some(b) => {
            args.push(to_string("--branch"));
            args.push(to_string(b));
        },
        None => {},
    }
    match depth {
        Some(d) => {
            args.push(to_string("--depth"));
            args.push(decimal_string(d as u128));
        },
        None => {},
    }
    args.push(to_string(dest));
    assert(strings_view(args@) =~= clone_args_spec(
        url@,
        dest@,
        match branch {
            Some(b) => Some(b@),
            None => None,
        },
        depth,
    ));
    args
}

/// The commands suggested after cloning into `dest`.
pub fn suggested_commands(dest: &str) -> (r: Vec<String>)
    ensures
        strings_view(r@) == seq![
            "cd "@ + dest@,
            "git pilot summary"@,
            "git pilot log --count 15"@,
            "git pilot init --hook"@,
        ],
{
    let mut cd = to_string("cd ");
    cd.append(dest);
    let r = vec![
        cd,
        to_string("git pilot summary"),
        to_string("git pilot log --count 15"),
        to_string("git pilot init --hook"),
    ];
    assert(strings_view(r@) =~= seq![
        "cd "@ + dest@,
        "git pilot summary"@,
        "git pilot log --count 15"@,
        "git pilot init --hook"@,
    ]);
    r
}

/// The default branch as reported: the name of HEAD's branch, or `unknown`.
pub fn default_branch_label(head: Option<&str>) -> (r: String)
    ensures
        r@ == match head {
            Some(h) => h@,
            None => "unknown"@,
        },
{
    match head {
        Some(h) => to_string(h),
        None => to_string("unknown"),
    }
}

/// The remotes as reported: their names joined by `, `, or `none`.
pub fn remotes_label(remotes: &Vec<String>) -> (r: String)
    ensures
        r@ == if remotes@.len() == 0 {
            "none"@
        } else {
            join_seqs(strings_view(remotes@), ", "@)
        },
{
    if remotes.len() == 0 {
        to_string("none")
    } else {
        join(remotes, ", ")
    }
}

/// Shorthand names a repository by the same name as the URL it expands to.
pub proof fn shorthand_name_matches_url(spec: Seq<char>)
    requires
        !is_url_spec(spec),
    ensures
        spec_clone_name(spec) == url_name(spec_clone_url(spec)),
{
    reveal_strlit("https://github.com/");
    reveal_strlit("git@");
    let prefix = "https://github.com/"@;
    let url = prefix + spec;
    assert(!"git@"@.is_prefix_of(url)) by {
        if "git@"@.is_prefix_of(url) {
            assert(url[0] == 'h');
            assert("git@"@[0] == url.subrange(0, 4)[0]);
        }
    }
    lemma_last_index_concat(prefix, spec, '/');
    assert(last_index_of(prefix, '/') == prefix.len() - 1) by {
        assert(prefix.last() == '/');
    }
    crate::text::lemma_after_last_index(spec, '/');
    if last_index_of(spec, '/') >= 0 {
        assert(after_last(url, '/') =~= after_last(spec, '/'));
    } else {
        assert(after_last(url, '/') =~= after_last(spec, '/'));
    }
    lemma_after_last_twice(spec, '/');
}

} // verus!

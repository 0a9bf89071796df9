//! gitpilot's settings and their defaults.
use vstd::prelude::*;
use crate::text::{strings_view, to_string};

verus! {

/// How `sync` brings the current branch up to date with its base.
#[derive(PartialEq, Eq, Structural, Clone, Copy, Debug)]
pub enum SyncStrategy {
    Rebase,
    Merge,
}

/// gitpilot's settings.
pub struct Config {
    /// The branch that summaries, cleanup and sync compare against.
    pub base_branch: String,
    /// Branches that cleanup never offers to delete.
    pub protected_branches: Vec<String>,
    /// Branches whose last commit is older than this many days are stale.
    pub stale_days: u64,
    /// Regular expressions that review reports as potential secrets.
    pub review_secrets_patterns: Vec<String>,
    /// Review warns about a staged diff that changes more lines than this.
    pub review_diff_threshold: usize,
    /// How sync integrates the base branch.
    pub sync_strategy: SyncStrategy,
}

/// The regular expressions that review flags as secrets by default.
pub open spec fn default_secret_patterns() -> Seq<Seq<char>> {
    seq!["AWS_SECRET"@, "api_key\\s*="@, "-----BEGIN"@, "ghp_[A-Za-z0-9]+"@, "password\\s*="@]
}

impl Default for Config {
    /// The defaults: base branch `main`; `main`, `master` and `develop`
    /// protected; stale after 30 days; the usual secret patterns; a large diff
    /// is one of more than 500 lines; sync rebases.
    fn default() -> (r: Self)
        ensures
            r.base_branch@ == "main"@,
            strings_view(r.protected_branches@) == seq!["main"@, "master"@, "develop"@],
            r.stale_days == 30,
            strings_view(r.review_secrets_patterns@) == default_secret_patterns(),
            r.review_diff_threshold == 500,
            r.sync_strategy == SyncStrategy::Rebase,
    {
        let protected_branches = vec![to_string("main"), to_string("master"), to_string("develop")];
        let review_secrets_patterns = vec![
            to_string("AWS_SECRET"),
            to_string("api_key\\s*="),
            to_string("-----BEGIN"),
            to_string("ghp_[A-Za-z0-9]+"),
            to_string("password\\s*="),
        ];
        assert(strings_view(protected_branches@) =~= seq!["main"@, "master"@, "develop"@]);
        assert(strings_view(review_secrets_patterns@) =~= default_secret_patterns());
        Config {
            base_branch: to_string("main"),
            protected_branches,
            stale_days: 30,
            review_secrets_patterns,
            review_diff_threshold: 500,
            sync_strategy: SyncStrategy::Rebase,
        }
    }
}

} // verus!

//! `sync`: the Git command that brings the current branch up to date.
use vstd::prelude::*;
use crate::config::SyncStrategy;
use crate::text::to_string;

verus! {

broadcast use vstd::string::group_string_axioms;

/// The name of a strategy, which is also the Git command that applies it.
pub open spec fn strategy_name(s: SyncStrategy) -> Seq<char> {
    match s {
        SyncStrategy::Rebase => "rebase"@,
        SyncStrategy::Merge => "merge"@,
    }
}

/// The name of a strategy.
pub fn strategy_word(s: SyncStrategy) -> (r: String)
    ensures
        r@ == strategy_name(s),
{
    match s {
        SyncStrategy::Rebase => to_string("rebase"),
        SyncStrategy::Merge => to_string("merge"),
    }
}

/// The arguments of `git` that integrate `origin/<base>`: `rebase` or `merge`, then the ref.
pub fn sync_args(s: SyncStrategy, base: &str) -> (r: Vec<String>)
    ensures
        r@.len() == 2,
        r@[0]@ == strategy_name(s),
        r@[1]@ == "origin/"@ + base@,
{
    let mut remote_ref = to_string("origin/");
    remote_ref.append(base);
    vec![strategy_word(s), remote_ref]
}

/// What to do when the integration fails.
pub open spec fn failure_hint(s: SyncStrategy) -> Seq<char> {
    match s {
        SyncStrategy::Rebase => "Resolve conflicts, then run `git rebase --continue` or `git rebase --abort`."@,
        SyncStrategy::Merge => "Resolve conflicts, then commit the merge."@,
    }
}

/// The error when the integration fails.
pub fn sync_failure(s: SyncStrategy) -> (r: String)
    ensures
        r@ == "git "@ + strategy_name(s) + " failed. "@ + failure_hint(s),
{
    let mut r = to_string("git ");
    r.append(strategy_word(s).as_str());
    r.append(" failed. ");
    match s {
        SyncStrategy::Rebase => r.append("Resolve conflicts, then run `git rebase --continue` or `git rebase --abort`."),
        SyncStrategy::Merge => r.append("Resolve conflicts, then commit the merge."),
    }
    r
}

} // verus!

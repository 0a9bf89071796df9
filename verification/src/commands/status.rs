//! `status`: the messages about upstream, stashes and a clean tree.
use vstd::prelude::*;
use crate::display::theme::{dim, dim_text, fg_text, success, warning};
use crate::git::status::{RepoStatus, UpstreamStatus};
use crate::text::{decimal, decimal_string, to_string};

verus! {

broadcast use vstd::string::group_string_axioms;

/// What is said of the upstream branch.
pub open spec fn upstream_text(up: Option<UpstreamStatus>) -> Seq<char> {
    match up {
        None => dim_text("no upstream tracking branch"@),
        Some(u) => if u.ahead == 0 && u.behind == 0 {
            fg_text(seq!['3', '2'], "up to date with upstream"@)
        } else {
            fg_text(
                seq!['3', '3'],
                "↑"@ + decimal(u.ahead as nat) + " ahead, ↓"@ + decimal(u.behind as nat)
                    + " behind upstream"@,
            )
        },
    }
}

/// What is said of the upstream branch.
pub fn upstream_message(up: &Option<UpstreamStatus>) -> (r: String)
    ensures
        r@ == upstream_text(*up),
{
    match up {
        None => dim("no upstream tracking branch"),
        Some(u) => {
            if u.ahead == 0 && u.behind == 0 {
                success("up to date with upstream")
            } else {
                let mut m = to_string("↑");
                m.append(decimal_string(u.ahead as u128).as_str());
                m.append(" ahead, ↓");
                m.append(decimal_string(u.behind as u128).as_str());
                m.append(" behind upstream");
                warning(m.as_str())
            }
        },
    }
}

/// What is said of the stashes: `Stash: <n> entry` or `entries`, as a warning.
pub fn stash_message(n: usize) -> (r: String)
    ensures
        r@ == fg_text(
            seq!['3', '3'],
            "Stash: "@ + decimal(n as nat) + " entr"@ + if n == 1 {
                "y"@
            } else {
                "ies"@
            },
        ),
{
    let mut m = to_string("Stash: ");
    m.append(decimal_string(n as u128).as_str());
    m.append(" entr");
    if n == 1 {
        m.append("y");
    } else {
        m.append("ies");
    }
    warning(m.as_str())
}

/// Whether the working tree is clean: nothing staged, unstaged or untracked.
pub fn is_clean(s: &RepoStatus) -> (b: bool)
    ensures
        b == (s.staged@.len() == 0 && s.unstaged@.len() == 0 && s.untracked@.len() == 0),
{
    s.staged.len() == 0 && s.unstaged.len() == 0 && s.untracked.len() == 0
}

} // verus!

//! `switch`: the branches offered, and what choosing one does.
use vstd::prelude::*;
use crate::text::{chars_of, contains_string, has_prefix, str_contains, str_eq, string_from, strings_view, to_string, contains_seq};

verus! {

broadcast use vstd::string::group_string_axioms;

/// How a local branch is offered: the current one marked with `* `.
pub open spec fn local_label(name: Seq<char>, current: Seq<char>) -> Seq<char> {
    if name == current {
        "* "@ + name
    } else {
        name
    }
}

/// A remote branch's name without its `origin/` prefix.
pub open spec fn without_origin(name: Seq<char>) -> Seq<char> {
    if "origin/"@.is_prefix_of(name) {
        name.skip(7)
    } else {
        name
    }
}

/// The local branches, labelled, in order.
pub open spec fn local_choices(locals: Seq<Seq<char>>, current: Seq<char>) -> Seq<Seq<char>>
    decreases locals.len(),
{
    if locals.len() == 0 {
        seq![]
    } else {
        local_choices(locals.drop_last(), current).push(local_label(locals.last(), current))
    }
}

/// The choices extended with the remote branches (named without
/// `origin/`), skipping `HEAD`, the current branch and names already offered.
pub open spec fn with_remotes(choices: Seq<Seq<char>>, remotes: Seq<Seq<char>>, current: Seq<char>) -> Seq<Seq<char>>
    decreases remotes.len(),
{
    if remotes.len() == 0 {
        choices
    } else {
        let acc = with_remotes(choices, remotes.drop_last(), current);
        let name = without_origin(remotes.last());
        if name != "HEAD"@ && name != current && !acc.contains(name) {
            acc.push(name)
        } else {
            acc
        }
    }
}

/// The branches that `switch` offers.
pub open spec fn switch_choices_spec(locals: Seq<Seq<char>>, remotes: Seq<Seq<char>>, current: Seq<char>, include_remote: bool) -> Seq<Seq<char>> {
    if include_remote {
        with_remotes(local_choices(locals, current), remotes, current)
    } else {
        local_choices(locals, current)
    }
}

/// The branches that `switch` offers: every local branch (the current one
/// marked `* `), then, when asked, the remote branches that are not yet offered.
pub fn switch_choices(locals: &Vec<String>, remotes: &Vec<String>, current: &str, include_remote: bool) -> (r: Vec<String>)
    ensures
        strings_view(r@) == switch_choices_spec(strings_view(locals@), strings_view(remotes@), current@, include_remote),
{
    let ghost lm = strings_view(locals@);
    let ghost rm = strings_view(remotes@);
    let mut out: Vec<String> = Vec::new();
    let mut i: usize = 0;
    assert(strings_view(out@) =~= local_choices(lm.take(0), current@));
    while i < locals.len()
        invariant
            i <= locals.len(),
            lm == strings_view(locals@),
            strings_view(out@) == local_choices(lm.take(i as int), current@),
        decreases locals.len() - i,
    {
        assert(lm.take(i + 1).drop_last() =~= lm.take(i as int));
        let name = &locals[i];
        let label = if str_eq(name.as_str(), current) {
            let mut l = to_string("* ");
            l.append(name.as_str());
            l
        } else {
            name.clone()
        };
        let ghost before = out@;
        out.push(label);
        assert(strings_view(out@) =~= strings_view(before).push(label@));
        i = i + 1;
    }
    assert(lm.take(locals.len() as int) =~= lm);
    if !include_remote {
        return out;
    }
    let ghost base = strings_view(out@);
    let mut j: usize = 0;
    assert(rm.take(0) =~= Seq::<Seq<char>>::empty());
    while j < remotes.len()
        invariant
            j <= remotes.len(),
            rm == strings_view(remotes@),
            strings_view(out@) == with_remotes(base, rm.take(j as int), current@),
        decreases remotes.len() - j,
    {
        assert(rm.take(j + 1).drop_last() =~= rm.take(j as int));
        let rv = chars_of(remotes[j].as_str());
        let name = if has_prefix(&rv, &chars_of("origin/")) {
            proof {
                reveal_strlit("origin/");
            }
            string_from(&rv, 7, rv.len())
        } else {
            remotes[j].clone()
        };
        assert(name@ == without_origin(rm[j as int]));
        if !str_eq(name.as_str(), "HEAD") && !str_eq(name.as_str(), current) && !contains_string(&out, name.as_str()) {
            let ghost before = out@;
            out.push(name);
            assert(strings_view(out@) =~= strings_view(before).push(without_origin(rm[j as int])));
        }
        j = j + 1;
    }
    assert(rm.take(remotes.len() as int) =~= rm);
    out
}

/// The branch that a choice names: the choice without its `* ` mark.
pub open spec fn chosen_branch(choice: Seq<char>) -> Seq<char> {
    if "* "@.is_prefix_of(choice) {
        choice.skip(2)
    } else {
        choice
    }
}

/// The branch that a choice names.
pub fn branch_of_choice(choice: &str) -> (r: String)
    ensures
        r@ == chosen_branch(choice@),
{
    let v = chars_of(choice);
    if has_prefix(&v, &chars_of("* ")) {
        proof {
            reveal_strlit("* ");
        }
        string_from(&v, 2, v.len())
    } else {
        to_string(choice)
    }
}

/// What switching to a branch takes.
#[derive(PartialEq, Eq, Structural, Clone, Copy, Debug)]
pub enum SwitchAction {
    /// The branch is the current one: nothing to do.
    AlreadyOn,
    /// Check out the local branch.
    CheckoutLocal,
    /// Create a local branch tracking `origin/<name>`, then check it out.
    CreateTracking,
}

/// What switching to `name` takes: nothing when it is current; a local
/// checkout when a local branch of that name exists, or when remote branches
/// were not offered; else a new tracking branch.
pub fn switch_action(name: &str, current: &str, local_exists: bool, include_remote: bool) -> (r: SwitchAction)
    ensures
        r == if name@ == current@ {
            SwitchAction::AlreadyOn
        } else if local_exists || !include_remote {
            SwitchAction::CheckoutLocal
        } else {
            SwitchAction::CreateTracking
        },
{
    if str_eq(name, current) {
        SwitchAction::AlreadyOn
    } else if local_exists || !include_remote {
        SwitchAction::CheckoutLocal
    } else {
        SwitchAction::CreateTracking
    }
}

/// A checkout failed because uncommitted changes are in the way.
pub open spec fn blocked_by_changes(msg: Seq<char>) -> bool {
    contains_seq(msg, "unstaged"@) || contains_seq(msg, "overwritten"@) || contains_seq(msg, "local changes"@)
}

/// Whether a checkout error says that uncommitted changes are in the way.
pub fn is_blocked_by_changes(msg: &str) -> (b: bool)
    ensures
        b == blocked_by_changes(msg@),
{
    str_contains(msg, "unstaged") || str_contains(msg, "overwritten") || str_contains(msg, "local changes")
}

} // verus!

//! `init`: installing the pre-commit hook.
use vstd::prelude::*;
use crate::text::{contains_seq, str_contains, str_ends_with, to_string};

verus! {

broadcast use vstd::string::group_string_axioms;

/// The new content of the pre-commit hook, or `None` when the existing hook
/// already runs `gitpilot review`: a new hook is a shell script that runs it;
/// an existing one gets the line appended, after a newline if it lacks one.
pub open spec fn hook_update_spec(existing: Option<Seq<char>>) -> Option<Seq<char>> {
    match existing {
        None => Some("#!/bin/sh\n"@ + "gitpilot review\n"@),
        Some(e) => if contains_seq(e, "gitpilot review"@) {
            None
        } else if "\n"@.is_suffix_of(e) {
            Some(e + "gitpilot review\n"@)
        } else {
            Some(e + "\n"@ + "gitpilot review\n"@)
        },
    }
}

/// Computes the new content of the pre-commit hook from the existing one.
pub fn hook_update(existing: Option<&str>) -> (r: Option<String>)
    ensures
        r matches Some(s) ==> hook_update_spec(match existing { Some(e) => Some(e@), None => None }) == Some(s@),
        r is None ==> hook_update_spec(match existing { Some(e) => Some(e@), None => None }) is None,
{
    match existing {
        None => {
            let mut s = to_string("#!/bin/sh\n");
            s.append("gitpilot review\n");
            Some(s)
        },
        Some(e) => {
            if str_contains(e, "gitpilot review") {
                None
            } else {
                let mut s = to_string(e);
                if !str_ends_with(e, "\n") {
                    s.append("\n");
                }
                s.append("gitpilot review\n");
                Some(s)
            }
        },
    }
}

/// After an update the hook runs `gitpilot review`, and updating it again
/// changes nothing.
pub proof fn hook_update_idempotent(existing: Option<Seq<char>>)
    ensures
        match hook_update_spec(existing) {
            Some(s) => contains_seq(s, "gitpilot review"@) && hook_update_spec(Some(s)) is None,
            None => true,
        },
{
    reveal_strlit("gitpilot review");
    reveal_strlit("gitpilot review\n");
    let line = "gitpilot review\n"@;
    match hook_update_spec(existing) {
        Some(s) => {
            let x = match existing {
                None => "#!/bin/sh\n"@,
                Some(e) => if "\n"@.is_suffix_of(e) {
                    e
                } else {
                    e + "\n"@
                },
            };
            assert(s =~= x + line);
            let i = x.len() as int;
            assert(s.subrange(i, i + 15) =~= "gitpilot review"@);
            assert(crate::text::occurs_at(s, "gitpilot review"@, i));
        },
        None => {},
    }
}

/// A hook that already runs `gitpilot review`, anywhere in it, is left
/// unchanged.
pub proof fn hook_left_alone_when_it_runs_review(e: Seq<char>, i: int)
    requires
        0 <= i,
        i + "gitpilot review"@.len() <= e.len(),
        e.subrange(i, i + "gitpilot review"@.len()) == "gitpilot review"@,
    ensures
        hook_update_spec(Some(e)) is None,
{
    assert(crate::text::occurs_at(e, "gitpilot review"@, i));
}

/// A hook that does not run `gitpilot review` keeps its text, which the
/// update extends so that it ends with the line `gitpilot review`; a missing
/// hook becomes a shell script ending with that line.
pub proof fn hook_update_appends_review(existing: Option<Seq<char>>)
    requires
        existing matches Some(e) ==> !(exists|i: int|
            0 <= i && i + "gitpilot review"@.len() <= e.len() && #[trigger] e.subrange(i, i + "gitpilot review"@.len())
                == "gitpilot review"@),
    ensures
        hook_update_spec(existing) matches Some(s) && "gitpilot review\n"@.is_suffix_of(s) && (existing matches Some(
            e,
        ) ==> e.is_prefix_of(s)),
{
    match existing {
        Some(e) => {
            assert(!contains_seq(e, "gitpilot review"@)) by {
                if contains_seq(e, "gitpilot review"@) {
                    let i = choose|i: int| crate::text::occurs_at(e, "gitpilot review"@, i);
                    assert(e.subrange(i, i + "gitpilot review"@.len()) == "gitpilot review"@);
                }
            }
            let s = hook_update_spec(existing).unwrap();
            if "\n"@.is_suffix_of(e) {
                assert(s =~= e + "gitpilot review\n"@);
                assert(s.subrange(s.len() - "gitpilot review\n"@.len(), s.len() as int) =~= "gitpilot review\n"@);
                assert(s.subrange(0, e.len() as int) =~= e);
            } else {
                assert(s.subrange(s.len() - "gitpilot review\n"@.len(), s.len() as int) =~= "gitpilot review\n"@);
                assert(s.subrange(0, e.len() as int) =~= e);
            }
        },
        None => {
            let s = hook_update_spec(existing).unwrap();
            assert(s.subrange(s.len() - "gitpilot review\n"@.len(), s.len() as int) =~= "gitpilot review\n"@);
        },
    }
}

} // verus!

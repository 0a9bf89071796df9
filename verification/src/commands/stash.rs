//! `stash`: labels, actions and how a failed apply is read.
use vstd::prelude::*;
use crate::display::theme::{dim, dim_text, fg_text, success, warning};
use crate::text::{contains_seq, decimal, decimal_string, str_contains, to_string};

verus! {

broadcast use vstd::string::group_string_axioms;

/// How a stash is offered: `stash@{<index>}: <message>`.
pub fn stash_label(index: usize, message: &str) -> (r: String)
    ensures
        r@ == "stash@{"@ + decimal(index as nat) + "}: "@ + message@,
{
    let mut r = to_string("stash@{");
    r.append(decimal_string(index as u128).as_str());
    r.append("}: ");
    r.append(message);
    r
}

/// What can be done with a chosen stash.
#[derive(PartialEq, Eq, Structural, Clone, Copy, Debug)]
pub enum StashAction {
    Apply,
    Pop,
    Drop,
    Cancel,
}

/// The action at position `choice` of the menu Apply, Pop, Drop, Cancel;
/// any other position cancels.
pub fn stash_action(choice: usize) -> (r: StashAction)
    ensures
        r == if choice == 0 {
            StashAction::Apply
        } else if choice == 1 {
            StashAction::Pop
        } else if choice == 2 {
            StashAction::Drop
        } else {
            StashAction::Cancel
        },
{
    if choice == 0 {
        StashAction::Apply
    } else if choice == 1 {
        StashAction::Pop
    } else if choice == 2 {
        StashAction::Drop
    } else {
        StashAction::Cancel
    }
}

/// The word that JSON output uses for what was done.
pub open spec fn action_done(a: StashAction) -> Seq<char> {
    match a {
        StashAction::Apply => "applied"@,
        StashAction::Pop => "popped"@,
        StashAction::Drop => "dropped"@,
        StashAction::Cancel => "cancelled"@,
    }
}

/// The word that JSON output uses for what was done.
pub fn action_word(a: StashAction) -> (r: String)
    ensures
        r@ == action_done(a),
{
    match a {
        StashAction::Apply => to_string("applied"),
        StashAction::Pop => to_string("popped"),
        StashAction::Drop => to_string("dropped"),
        StashAction::Cancel => to_string("cancelled"),
    }
}

/// An apply or pop failed with conflicts: reported as a warning, not an error.
pub open spec fn conflict_failure(msg: Seq<char>) -> bool {
    contains_seq(msg, "conflict"@) || contains_seq(msg, "merge"@)
}

/// Whether an apply or pop error reports conflicts.
pub fn is_conflict_failure(msg: &str) -> (b: bool)
    ensures
        b == conflict_failure(msg@),
{
    str_contains(msg, "conflict") || str_contains(msg, "merge")
}

/// What is printed when an action went through.
pub open spec fn done_text(a: StashAction) -> Seq<char> {
    match a {
        StashAction::Apply => fg_text(seq!['3', '2'], "Stash applied."@),
        StashAction::Pop => fg_text(seq!['3', '2'], "Stash popped."@),
        StashAction::Drop => fg_text(seq!['3', '2'], "Stash dropped."@),
        StashAction::Cancel => dim_text("Cancelled."@),
    }
}

/// What is printed when an action went through.
pub fn done_message(a: StashAction) -> (r: String)
    ensures
        r@ == done_text(a),
{
    match a {
        StashAction::Apply => success("Stash applied."),
        StashAction::Pop => success("Stash popped."),
        StashAction::Drop => success("Stash dropped."),
        StashAction::Cancel => dim("Cancelled."),
    }
}

/// How a stash action ended.
pub enum StashOutcome {
    /// It went through.
    Done,
    /// An apply or pop met conflicts: this warning is printed and the command succeeds.
    Conflict(String),
    /// It failed: the error is the command's error.
    Failed,
}

/// The word for an action in the conflict warning.
pub open spec fn conflict_verb(a: StashAction) -> Seq<char> {
    if a == StashAction::Apply {
        "applying"@
    } else {
        "popping"@
    }
}

/// How a stash action ended, from the message of its failure, if any: an
/// apply or pop whose failure reports conflicts ends with a warning; any
/// other failure fails the command.
pub fn stash_outcome(a: StashAction, failure: Option<&str>) -> (r: StashOutcome)
    ensures
        failure is None ==> r is Done,
        failure matches Some(m) ==> if (a == StashAction::Apply || a == StashAction::Pop) && conflict_failure(m@) {
            r matches StashOutcome::Conflict(w) && w@ == fg_text(
                seq!['3', '3'],
                "Conflicts when "@ + conflict_verb(a) + " stash: "@ + m@,
            )
        } else {
            r is Failed
        },
{
    match failure {
        None => StashOutcome::Done,
        Some(m) => {
            if (a == StashAction::Apply || a == StashAction::Pop) && is_conflict_failure(m) {
                let mut w = to_string("Conflicts when ");
                if a == StashAction::Apply {
                    w.append("applying");
                } else {
                    w.append("popping");
                }
                w.append(" stash: ");
                w.append(m);
                StashOutcome::Conflict(warning(w.as_str()))
            } else {
                StashOutcome::Failed
            }
        },
    }
}

} // verus!

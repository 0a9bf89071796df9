//! `undo`: the menus and messages of undoing recent commits.
use vstd::prelude::*;
use crate::git::commits::CommitSummary;
use crate::text::{chars_of, decimal, decimal_string, string_from, to_string};

verus! {

broadcast use vstd::string::group_string_axioms;

/// `"s"` unless the count is one.
pub open spec fn plural(n: nat) -> Seq<char> {
    if n == 1 {
        Seq::empty()
    } else {
        "s"@
    }
}

fn push_plural(s: &mut String, n: usize)
    ensures
        final(s)@ == old(s)@ + plural(n as nat),
{
    if n != 1 {
        s.append("s");
    }
    assert(final(s)@ =~= old(s)@ + plural(n as nat));
}

/// How a recent commit is listed: short id, the first 60 characters of the
/// message, and the author.
pub fn undo_item(c: &CommitSummary) -> (r: String)
    ensures
        r@ == c.short_id@ + " "@ + c.message@.take(if c.message@.len() < 60 {
            c.message@.len() as int
        } else {
            60
        }) + " — "@ + c.author@,
{
    let mv = chars_of(c.message.as_str());
    let k = if mv.len() < 60 {
        mv.len()
    } else {
        60
    };
    let mut r = c.short_id.clone();
    r.append(" ");
    r.append(string_from(&mv, 0, k).as_str());
    r.append(" — ");
    r.append(c.author.as_str());
    r
}

/// The menu entry for undoing `n` commits.
pub fn undo_label(n: usize) -> (r: String)
    ensures
        r@ == "Undo "@ + decimal(n as nat) + " commit"@ + plural(n as nat),
{
    let mut r = to_string("Undo ");
    r.append(decimal_string(n as u128).as_str());
    r.append(" commit");
    push_plural(&mut r, n);
    r
}

/// The menu of how many commits to undo: one entry for each of 1..=`available`.
pub fn undo_labels(available: usize) -> (r: Vec<String>)
    ensures
        r@.len() == available,
        forall|i: int| 0 <= i < available ==> (#[trigger] r@[i])@ == "Undo "@ + decimal((i + 1) as nat) + " commit"@ + plural((i + 1) as nat),
{
    let mut out: Vec<String> = Vec::new();
    let mut n: usize = 0;
    while n < available
        invariant
            n <= available,
            out@.len() == n,
            forall|i: int| 0 <= i < n ==> (#[trigger] out@[i])@ == "Undo "@ + decimal((i + 1) as nat) + " commit"@ + plural((i + 1) as nat),
        decreases available - n,
    {
        out.push(undo_label(n + 1));
        n = n + 1;
    }
    out
}

/// How far `git reset` goes.
#[derive(PartialEq, Eq, Structural, Clone, Copy, Debug)]
pub enum ResetMode {
    /// Keep the changes staged.
    Soft,
    /// Keep the changes unstaged.
    Mixed,
    /// Discard the changes.
    Hard,
}

/// The mode at position `choice` of the menu Soft, Mixed, Hard; any later position is Hard.
pub fn reset_mode(choice: usize) -> (r: ResetMode)
    ensures
        r == if choice == 0 {
            ResetMode::Soft
        } else if choice == 1 {
            ResetMode::Mixed
        } else {
            ResetMode::Hard
        },
{
    if choice == 0 {
        ResetMode::Soft
    } else if choice == 1 {
        ResetMode::Mixed
    } else {
        ResetMode::Hard
    }
}

/// The name of a reset mode.
pub open spec fn mode_name(m: ResetMode) -> Seq<char> {
    match m {
        ResetMode::Soft => "soft"@,
        ResetMode::Mixed => "mixed"@,
        ResetMode::Hard => "hard"@,
    }
}

/// The name of a reset mode.
pub fn reset_mode_name(m: ResetMode) -> (r: String)
    ensures
        r@ == mode_name(m),
{
    match m {
        ResetMode::Soft => to_string("soft"),
        ResetMode::Mixed => to_string("mixed"),
        ResetMode::Hard => to_string("hard"),
    }
}

/// The error when the history ends after `found` commits.
pub fn not_enough_history(found: usize) -> (r: String)
    ensures
        r@ == "Not enough history: only "@ + decimal(found as nat) + " commit"@ + plural(found as nat)
            + " available."@,
{
    let mut r = to_string("Not enough history: only ");
    r.append(decimal_string(found as u128).as_str());
    r.append(" commit");
    push_plural(&mut r, found);
    r.append(" available.");
    r
}

/// The first seven characters of a commit id.
pub fn short_id(id_hex: &str) -> (r: String)
    ensures
        r@ == id_hex@.take(if id_hex@.len() < 7 { id_hex@.len() as int } else { 7 }),
{
    let v = chars_of(id_hex);
    let k = if v.len() < 7 {
        v.len()
    } else {
        7
    };
    string_from(&v, 0, k)
}

} // verus!

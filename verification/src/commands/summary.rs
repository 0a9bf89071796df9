//! `summary`: the lines that summarise a branch's changes.
use vstd::prelude::*;
use crate::commands::undo::plural;
use crate::display::theme::{bold_text, error, fg_text, heading, success};
use crate::git::diff::{DiffSummary, FileDiff};
use crate::text::{decimal, decimal_string, to_string};

verus! {

broadcast use vstd::string::group_string_axioms;

/// `Changes: +<added> -<removed> across <n> file(s)`.
pub fn changes_line(d: &DiffSummary) -> (r: String)
    ensures
        r@ == bold_text("Changes:"@) + " +"@ + fg_text(seq!['3', '2'], decimal(d.total_additions as nat))
            + " -"@ + fg_text(seq!['3', '1'], decimal(d.total_deletions as nat)) + " across "@
            + decimal(d.files@.len()) + " file"@ + plural(d.files@.len()),
{
    let mut r = heading("Changes:");
    r.append(" +");
    r.append(success(decimal_string(d.total_additions as u128).as_str()).as_str());
    r.append(" -");
    r.append(error(decimal_string(d.total_deletions as u128).as_str()).as_str());
    r.append(" across ");
    r.append(decimal_string(d.files.len() as u128).as_str());
    r.append(" file");
    if d.files.len() != 1 {
        r.append("s");
    }
    assert(r@ =~= bold_text("Changes:"@) + " +"@ + fg_text(seq!['3', '2'], decimal(d.total_additions as nat))
        + " -"@ + fg_text(seq!['3', '1'], decimal(d.total_deletions as nat)) + " across "@
        + decimal(d.files@.len()) + " file"@ + plural(d.files@.len()));
    r
}

/// One file of the summary: `  <path> +<added> -<removed>`.
pub fn file_line(f: &FileDiff) -> (r: String)
    ensures
        r@ == "  "@ + f.path@ + " +"@ + fg_text(seq!['3', '2'], decimal(f.additions as nat)) + " -"@
            + fg_text(seq!['3', '1'], decimal(f.deletions as nat)),
{
    let mut r = to_string("  ");
    r.append(f.path.as_str());
    r.append(" +");
    r.append(success(decimal_string(f.additions as u128).as_str()).as_str());
    r.append(" -");
    r.append(error(decimal_string(f.deletions as u128).as_str()).as_str());
    r
}

/// The heading of the branch's commits: `Commits on this branch: (<n> commit(s))`.
pub fn commits_heading(n: usize) -> (r: String)
    ensures
        r@ == bold_text("Commits on this branch:"@) + " ("@ + decimal(n as nat) + " commit"@ + plural(
            n as nat,
        ) + ")"@,
{
    let mut r = heading("Commits on this branch:");
    r.append(" (");
    r.append(decimal_string(n as u128).as_str());
    r.append(" commit");
    if n != 1 {
        r.append("s");
    }
    r.append(")");
    assert(r@ =~= bold_text("Commits on this branch:"@) + " ("@ + decimal(n as nat) + " commit"@
        + plural(n as nat) + ")"@);
    r
}

} // verus!

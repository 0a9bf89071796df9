//! The state of the working tree: staged, unstaged and untracked files.
use vstd::prelude::*;
use crate::text::to_string;

verus! {

broadcast use vstd::string::group_string_axioms;

/// A changed file and how it changed.
pub struct FileChange {
    pub path: String,
    pub status: String,
}

/// How far the current branch and its upstream have diverged.
pub struct UpstreamStatus {
    pub ahead: usize,
    pub behind: usize,
}

/// The state of the repository that `status` shows.
pub struct RepoStatus {
    pub branch: String,
    pub staged: Vec<FileChange>,
    pub unstaged: Vec<FileChange>,
    pub untracked: Vec<FileChange>,
    pub stash_count: usize,
    pub upstream: Option<UpstreamStatus>,
}

/// The status bits that Git reports for one path.
#[derive(PartialEq, Eq, Structural, Clone, Copy, Debug)]
pub struct StatusFlags {
    pub index_new: bool,
    pub index_modified: bool,
    pub index_deleted: bool,
    pub index_renamed: bool,
    pub index_typechange: bool,
    pub wt_new: bool,
    pub wt_modified: bool,
    pub wt_deleted: bool,
    pub wt_typechange: bool,
    pub wt_renamed: bool,
}

/// One entry of Git's status list: the path (when it is valid UTF-8) and its bits.
pub struct StatusEntry {
    pub path: Option<String>,
    pub flags: StatusFlags,
}

/// The abstract content of a `FileChange`: (path, status).
pub open spec fn change_model(c: FileChange) -> (Seq<char>, Seq<char>) {
    (c.path@, c.status@)
}

/// The abstract changes.
pub open spec fn changes_model(cs: Seq<FileChange>) -> Seq<(Seq<char>, Seq<char>)> {
    cs.map_values(|c: FileChange| change_model(c))
}

/// How a path shows in lists: its text, or `?` when Git gave none.
pub open spec fn entry_path(e: StatusEntry) -> Seq<char> {
    match e.path {
        Some(p) => p@,
        None => "?"@,
    }
}

/// How a staged change is labelled, if the index changed the path at all:
/// added, deleted, renamed, or else modified.
pub open spec fn staged_label(f: StatusFlags) -> Option<Seq<char>> {
    if f.index_new || f.index_modified || f.index_deleted || f.index_renamed || f.index_typechange {
        Some(
            if f.index_new {
                "added"@
            } else if f.index_deleted {
                "deleted"@
            } else if f.index_renamed {
                "renamed"@
            } else {
                "modified"@
            },
        )
    } else {
        None
    }
}

/// How an unstaged change is labelled, if the working tree changed a
/// tracked path: deleted, renamed, or else modified.
pub open spec fn unstaged_label(f: StatusFlags) -> Option<Seq<char>> {
    if f.wt_modified || f.wt_deleted || f.wt_typechange || f.wt_renamed {
        Some(
            if f.wt_deleted {
                "deleted"@
            } else if f.wt_renamed {
                "renamed"@
            } else {
                "modified"@
            },
        )
    } else {
        None
    }
}

/// How an untracked path is labelled, if it is untracked.
pub open spec fn untracked_label(f: StatusFlags) -> Option<Seq<char>> {
    if f.wt_new {
        Some("untracked"@)
    } else {
        None
    }
}

/// The changes of one kind among `entries`, in order: each entry that `label`
/// labels, with that label.
pub open spec fn changes_of(entries: Seq<StatusEntry>, label: spec_fn(StatusFlags) -> Option<Seq<char>>) -> Seq<(Seq<char>, Seq<char>)>
    decreases entries.len(),
{
    if entries.len() == 0 {
        seq![]
    } else {
        let rest = changes_of(entries.drop_last(), label);
        match label(entries.last().flags) {
            Some(l) => rest.push((entry_path(entries.last()), l)),
            None => rest,
        }
    }
}

fn staged_status(f: StatusFlags) -> (r: Option<String>)
    ensures
        match r {
            Some(s) => staged_label(f) == Some(s@),
            None => staged_label(f) is None,
        },
{
    if f.index_new || f.index_modified || f.index_deleted || f.index_renamed || f.index_typechange {
        Some(
            if f.index_new {
                to_string("added")
            } else if f.index_deleted {
                to_string("deleted")
            } else if f.index_renamed {
                to_string("renamed")
            } else {
                to_string("modified")
            },
        )
    } else {
        None
    }
}

fn unstaged_status(f: StatusFlags) -> (r: Option<String>)
    ensures
        match r {
            Some(s) => unstaged_label(f) == Some(s@),
            None => unstaged_label(f) is None,
        },
{
    if f.wt_modified || f.wt_deleted || f.wt_typechange || f.wt_renamed {
        Some(
            if f.wt_deleted {
                to_string("deleted")
            } else if f.wt_renamed {
                to_string("renamed")
            } else {
                to_string("modified")
            },
        )
    } else {
        None
    }
}

fn untracked_status(f: StatusFlags) -> (r: Option<String>)
    ensures
        match r {
            Some(s) => untracked_label(f) == Some(s@),
            None => untracked_label(f) is None,
        },
{
    if f.wt_new {
        Some(to_string("untracked"))
    } else {
        None
    }
}

fn push_change(out: &mut Vec<FileChange>, path: &String, status: Option<String>)
    ensures
        changes_model(final(out)@) == match status {
            Some(s) => changes_model(old(out)@).push((path@, s@)),
            None => changes_model(old(out)@),
        },
{
    match status {
        Some(s) => {
            let ghost sv = s@;
            out.push(FileChange { path: path.clone(), status: s });
            assert(changes_model(out@) =~= changes_model(old(out)@).push((path@, sv)));
        },
        None => {},
    }
}

/// The state of the repository from what Git reports: the current branch
/// (`HEAD (detached)` when there is none), every status entry sorted into
/// staged, unstaged and untracked changes (an entry may be in several), the
/// number of stashes and the upstream divergence.
pub fn repo_status(branch: Option<String>, entries: &Vec<StatusEntry>, stash_count: usize, upstream: Option<UpstreamStatus>) -> (r: RepoStatus)
    ensures
        r.branch@ == match branch {
            Some(b) => b@,
            None => "HEAD (detached)"@,
        },
        changes_model(r.staged@) == changes_of(entries@, |f: StatusFlags| staged_label(f)),
        changes_model(r.unstaged@) == changes_of(entries@, |f: StatusFlags| unstaged_label(f)),
        changes_model(r.untracked@) == changes_of(entries@, |f: StatusFlags| untracked_label(f)),
        r.stash_count == stash_count,
        r.upstream == upstream,
{
    let ghost sl = |f: StatusFlags| staged_label(f);
    let ghost ul = |f: StatusFlags| unstaged_label(f);
    let ghost tl = |f: StatusFlags| untracked_label(f);
    let mut staged: Vec<FileChange> = Vec::new();
    let mut unstaged: Vec<FileChange> = Vec::new();
    let mut untracked: Vec<FileChange> = Vec::new();
    let mut i: usize = 0;
    assert(entries@.take(0) =~= Seq::<StatusEntry>::empty());
    while i < entries.len()
        invariant
            i <= entries.len(),
            sl == (|f: StatusFlags| staged_label(f)),
            ul == (|f: StatusFlags| unstaged_label(f)),
            tl == (|f: StatusFlags| untracked_label(f)),
            changes_model(staged@) == changes_of(entries@.take(i as int), sl),
            changes_model(unstaged@) == changes_of(entries@.take(i as int), ul),
            changes_model(untracked@) == changes_of(entries@.take(i as int), tl),
        decreases entries.len() - i,
    {
        assert(entries@.take(i + 1).drop_last() =~= entries@.take(i as int));
        assert(entries@.take(i + 1).last() == entries@[i as int]);
        let e = &entries[i];
        let path = match &e.path {
            Some(p) => p.clone(),
            None => to_string("?"),
        };
        assert(path@ == entry_path(entries@[i as int]));
        let ghost cur = entries@.take(i + 1);
        push_change(&mut staged, &path, staged_status(e.flags));
        assert(changes_model(staged@) == changes_of(cur, sl));
        push_change(&mut unstaged, &path, unstaged_status(e.flags));
        assert(changes_model(unstaged@) == changes_of(cur, ul));
        push_change(&mut untracked, &path, untracked_status(e.flags));
        assert(changes_model(untracked@) == changes_of(cur, tl));
        i = i + 1;
    }
    assert(entries@.take(entries.len() as int) =~= entries@);
    let branch = match branch {
        Some(b) => b,
        None => to_string("HEAD (detached)"),
    };
    RepoStatus { branch, staged, unstaged, untracked, stash_count, upstream }
}

proof fn lemma_changes_of_lists(entries: Seq<StatusEntry>, label: spec_fn(StatusFlags) -> Option<Seq<char>>, k: int)
    requires
        0 <= k < entries.len(),
        label(entries[k].flags) is Some,
    ensures
        changes_of(entries, label).contains((entry_path(entries[k]), label(entries[k].flags).unwrap())),
    decreases entries.len(),
{
    let rest = changes_of(entries.drop_last(), label);
    if k < entries.len() - 1 {
        lemma_changes_of_lists(entries.drop_last(), label, k);
        assert(entries.drop_last()[k] == entries[k]);
        let w = choose|w: int| 0 <= w < rest.len() && rest[w] == (entry_path(entries[k]), label(entries[k].flags).unwrap());
        assert(changes_of(entries, label)[w] == rest[w]);
    } else {
        assert(changes_of(entries, label) == rest.push((entry_path(entries[k]), label(entries[k].flags).unwrap())));
        assert(changes_of(entries, label)[rest.len() as int] == (entry_path(entries[k]), label(entries[k].flags).unwrap()));
    }
}

proof fn lemma_changes_of_sources(entries: Seq<StatusEntry>, label: spec_fn(StatusFlags) -> Option<Seq<char>>, m: int)
    requires
        0 <= m < changes_of(entries, label).len(),
    ensures
        exists|k: int|
            0 <= k < entries.len() && #[trigger] label(entries[k].flags) == Some(changes_of(entries, label)[m].1)
                && entry_path(entries[k]) == changes_of(entries, label)[m].0,
    decreases entries.len(),
{
    let rest = changes_of(entries.drop_last(), label);
    if m < rest.len() {
        lemma_changes_of_sources(entries.drop_last(), label, m);
        let k = choose|k: int|
            0 <= k < entries.drop_last().len() && #[trigger] label(entries.drop_last()[k].flags) == Some(rest[m].1)
                && entry_path(entries.drop_last()[k]) == rest[m].0;
        assert(entries[k] == entries.drop_last()[k]);
        assert(label(entries[k].flags) == Some(changes_of(entries, label)[m].1));
    } else {
        let k = entries.len() - 1;
        assert(label(entries[k].flags) == Some(changes_of(entries, label)[m].1));
    }
}

/// Every entry that the index changed in any way (new, modified, deleted,
/// renamed or type-changed) is listed among the staged changes, labelled
/// added, deleted, renamed or else modified, in that precedence.
pub proof fn staged_lists_every_index_change(entries: Seq<StatusEntry>, k: int)
    requires
        0 <= k < entries.len(),
        entries[k].flags.index_new || entries[k].flags.index_modified || entries[k].flags.index_deleted
            || entries[k].flags.index_renamed || entries[k].flags.index_typechange,
    ensures
        changes_of(entries, |f: StatusFlags| staged_label(f)).contains(
            (
                entry_path(entries[k]),
                if entries[k].flags.index_new {
                    "added"@
                } else if entries[k].flags.index_deleted {
                    "deleted"@
                } else if entries[k].flags.index_renamed {
                    "renamed"@
                } else {
                    "modified"@
                },
            ),
        ),
{
    lemma_changes_of_lists(entries, |f: StatusFlags| staged_label(f), k);
}

/// Only entries that the index changed are listed among the staged changes.
pub proof fn staged_lists_only_index_changes(entries: Seq<StatusEntry>, m: int)
    requires
        0 <= m < changes_of(entries, |f: StatusFlags| staged_label(f)).len(),
    ensures
        exists|k: int|
            0 <= k < entries.len() && #[trigger] entry_path(entries[k]) == changes_of(entries, |f: StatusFlags| staged_label(f))[m].0
                && (entries[k].flags.index_new || entries[k].flags.index_modified || entries[k].flags.index_deleted
                || entries[k].flags.index_renamed || entries[k].flags.index_typechange),
{
    lemma_changes_of_sources(entries, |f: StatusFlags| staged_label(f), m);
}

} // verus!

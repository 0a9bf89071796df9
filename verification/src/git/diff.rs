//! Summarising a diff: per-file line counts and patches, in the order in
//! which the diff first names each file.
use vstd::prelude::*;

verus! {

broadcast use vstd::string::group_string_axioms;

/// One changed file of a diff.
pub struct FileDiff {
    pub path: String,
    pub additions: usize,
    pub deletions: usize,
    /// The added and removed lines, each prefixed by `+` or `-`.
    pub patch: String,
}

/// A whole diff.
pub struct DiffSummary {
    pub files: Vec<FileDiff>,
    pub total_additions: usize,
    pub total_deletions: usize,
}

impl DiffSummary {
    /// The totals are the sums of the per-file counts.
    pub open spec fn wf(&self) -> bool {
        &&& self.total_additions == sum_additions(files_model(self.files@))
        &&& self.total_deletions == sum_deletions(files_model(self.files@))
    }
}

/// What a diff reports, in the order in which it reports it: a file
/// (a delta), or one line of a file's hunks with its origin character
/// (`+` added, `-` removed, anything else context).
pub enum DiffEvent {
    File { path: String },
    Line { path: String, origin: char, content: String },
}

/// The abstract content of a `FileDiff`.
pub struct FileModel {
    pub path: Seq<char>,
    pub additions: nat,
    pub deletions: nat,
    pub patch: Seq<char>,
}

impl View for FileDiff {
    type V = FileModel;

    open spec fn view(&self) -> FileModel {
        FileModel {
            path: self.path@,
            additions: self.additions as nat,
            deletions: self.deletions as nat,
            patch: self.patch@,
        }
    }
}

/// The abstract files of a `DiffSummary`.
pub open spec fn files_model(files: Seq<FileDiff>) -> Seq<FileModel> {
    files.map_values(|f: FileDiff| f@)
}

/// Position of the file with path `p` (the last one, were there several), or -1.
pub open spec fn path_index(files: Seq<FileModel>, p: Seq<char>) -> int
    decreases files.len(),
{
    if files.len() == 0 {
        -1
    } else if files.last().path == p {
        files.len() - 1
    } else {
        path_index(files.drop_last(), p)
    }
}

/// No two files share a path.
pub open spec fn distinct_paths(files: Seq<FileModel>) -> bool {
    forall|i: int, j: int|
        0 <= i < files.len() && 0 <= j < files.len() && i != j ==> files[i].path != files[j].path
}

/// The effect of one event: a new file is appended the first time its path
/// is seen; an added or removed line of a known file is counted and appended,
/// with its origin, to that file's patch; everything else changes nothing.
pub open spec fn apply_event(files: Seq<FileModel>, e: DiffEvent) -> Seq<FileModel> {
    match e {
        DiffEvent::File { path } => {
            if path_index(files, path@) >= 0 {
                files
            } else {
                files.push(FileModel { path: path@, additions: 0, deletions: 0, patch: seq![] })
            }
        },
        DiffEvent::Line { path, origin, content } => {
            let i = path_index(files, path@);
            if i < 0 {
                files
            } else if origin == '+' {
                files.update(
                    i,
                    FileModel {
                        additions: files[i].additions + 1,
                        patch: files[i].patch + seq!['+'] + content@,
                        ..files[i]
                    },
                )
            } else if origin == '-' {
                files.update(
                    i,
                    FileModel {
                        deletions: files[i].deletions + 1,
                        patch: files[i].patch + seq!['-'] + content@,
                        ..files[i]
                    },
                )
            } else {
                files
            }
        },
    }
}

/// The files described by a sequence of events.
pub open spec fn diff_model(events: Seq<DiffEvent>) -> Seq<FileModel>
    decreases events.len(),
{
    if events.len() == 0 {
        seq![]
    } else {
        apply_event(diff_model(events.drop_last()), events.last())
    }
}

/// Sum of the added-line counts of `files`.
pub open spec fn sum_additions(files: Seq<FileModel>) -> nat
    decreases files.len(),
{
    if files.len() == 0 {
        0
    } else {
        sum_additions(files.drop_last()) + files.last().additions
    }
}

/// Sum of the removed-line counts of `files`.
pub open spec fn sum_deletions(files: Seq<FileModel>) -> nat
    decreases files.len(),
{
    if files.len() == 0 {
        0
    } else {
        sum_deletions(files.drop_last()) + files.last().deletions
    }
}

proof fn lemma_path_index(files: Seq<FileModel>, p: Seq<char>)
    ensures
        -1 <= path_index(files, p) < files.len(),
        path_index(files, p) >= 0 ==> files[path_index(files, p)].path == p,
        path_index(files, p) < 0 ==> forall|k: int| 0 <= k < files.len() ==> files[k].path != p,
    decreases files.len(),
{
    if files.len() > 0 && files.last().path != p {
        let d = files.drop_last();
        lemma_path_index(d, p);
        assert forall|k: int| 0 <= k < files.len() - 1 implies files[k] == d[k] by {}
    }
}

proof fn lemma_sum_bounds(files: Seq<FileModel>, i: int)
    requires
        0 <= i < files.len(),
    ensures
        files[i].additions <= sum_additions(files),
        files[i].deletions <= sum_deletions(files),
    decreases files.len(),
{
    if i < files.len() - 1 {
        lemma_sum_bounds(files.drop_last(), i);
    }
}

proof fn lemma_sum_update(files: Seq<FileModel>, i: int, f: FileModel)
    requires
        0 <= i < files.len(),
    ensures
        sum_additions(files.update(i, f)) == sum_additions(files) - files[i].additions
            + f.additions,
        sum_deletions(files.update(i, f)) == sum_deletions(files) - files[i].deletions
            + f.deletions,
    decreases files.len(),
{
    if i < files.len() - 1 {
        lemma_sum_update(files.drop_last(), i, f);
        assert(files.update(i, f).drop_last() =~= files.drop_last().update(i, f));
    } else {
        assert(files.update(i, f).drop_last() =~= files.drop_last());
    }
}

proof fn lemma_apply_event(files: Seq<FileModel>, e: DiffEvent)
    requires
        distinct_paths(files),
    ensures
        distinct_paths(apply_event(files, e)),
        sum_additions(apply_event(files, e)) + sum_deletions(apply_event(files, e))
            <= sum_additions(files) + sum_deletions(files) + 1,
{
    match e {
        DiffEvent::File { path } => {
            lemma_path_index(files, path@);
            let r = apply_event(files, e);
            if path_index(files, path@) < 0 {
                assert(r.drop_last() =~= files);
            }
        },
        DiffEvent::Line { path, origin, content } => {
            lemma_path_index(files, path@);
            let i = path_index(files, path@);
            if i >= 0 && (origin == '+' || origin == '-') {
                lemma_sum_update(files, i, apply_event(files, e)[i]);
            }
        },
    }
}

proof fn lemma_diff_model(events: Seq<DiffEvent>)
    ensures
        distinct_paths(diff_model(events)),
        sum_additions(diff_model(events)) + sum_deletions(diff_model(events)) <= events.len(),
    decreases events.len(),
{
    if events.len() > 0 {
        lemma_diff_model(events.drop_last());
        lemma_apply_event(diff_model(events.drop_last()), events.last());
    }
}

/// Finds the file with path `p` among `files` (searching from the end).
fn find_file(files: &Vec<FileDiff>, p: &String) -> (r: Option<usize>)
    ensures
        match r {
            Some(i) => i as int == path_index(files_model(files@), p@) && i < files.len(),
            None => path_index(files_model(files@), p@) == -1,
        },
{
    let mut i: usize = files.len();
    assert(files_model(files@).take(files.len() as int) =~= files_model(files@));
    while i > 0
        invariant
            i <= files.len(),
            path_index(files_model(files@), p@) == path_index(
                files_model(files@).take(i as int),
                p@,
            ),
        decreases i,
    {
        if files[i - 1].path == *p {
            assert(files_model(files@).take(i as int).last().path == p@);
            return Some(i - 1);
        }
        assert(files_model(files@).take(i as int).drop_last() =~= files_model(files@).take(
            i - 1,
        ));
        i = i - 1;
    }
    None
}

/// Summarises a diff from the events that walking it reports: one entry per
/// file, in the order in which the files are first reported, with the number
/// of added and removed lines and a patch made of those lines.
pub fn process_diff(events: &Vec<DiffEvent>) -> (r: DiffSummary)
    ensures
        files_model(r.files@) == diff_model(events@),
        r.total_additions == sum_additions(diff_model(events@)),
        r.total_deletions == sum_deletions(diff_model(events@)),
        distinct_paths(files_model(r.files@)),
        r.wf(),
{
    let mut files: Vec<FileDiff> = Vec::new();
    let mut total_additions: usize = 0;
    let mut total_deletions: usize = 0;
    let mut n: usize = 0;
    assert(files_model(files@) =~= diff_model(events@.take(0)));
    while n < events.len()
        invariant
            n <= events.len(),
            files_model(files@) == diff_model(events@.take(n as int)),
            total_additions == sum_additions(files_model(files@)),
            total_deletions == sum_deletions(files_model(files@)),
            distinct_paths(files_model(files@)),
            total_additions + total_deletions <= n,
        decreases events.len() - n,
    {
        let ghost before = files_model(files@);
        proof {
            assert(events@.take(n + 1).drop_last() =~= events@.take(n as int));
        }
        match &events[n] {
            DiffEvent::File { path } => {
                proof {
                    lemma_path_index(before, path@);
                }
                if find_file(&files, path).is_none() {
                    let f = FileDiff {
                        path: path.clone(),
                        additions: 0,
                        deletions: 0,
                        patch: String::new(),
                    };
                    files.push(f);
                    assert(files_model(files@) =~= before.push(
                        FileModel { path: path@, additions: 0, deletions: 0, patch: seq![] },
                    ));
                    assert(files_model(files@).drop_last() =~= before);
                }
            },
            DiffEvent::Line { path, origin, content } => {
                proof {
                    lemma_path_index(before, path@);
                }
                match find_file(&files, path) {
                    Some(i) => {
                        if *origin == '+' || *origin == '-' {
                            let ghost old_files = files@;
                            proof {
                                lemma_sum_bounds(before, i as int);
                            }
                            let mut f = files.remove(i);
                            assert(f == old_files[i as int]);
                            if *origin == '+' {
                                f.additions = f.additions + 1;
                                total_additions = total_additions + 1;
                                f.patch.append("+");
                            } else {
                                f.deletions = f.deletions + 1;
                                total_deletions = total_deletions + 1;
                                f.patch.append("-");
                            }
                            f.patch.append(content.as_str());
                            let ghost new_f = f;
                            files.insert(i, f);
                            assert(files@ =~= old_files.update(i as int, new_f));
                            proof {
                                reveal_strlit("+");
                                reveal_strlit("-");
                                let after = apply_event(before, events@[n as int]);
                                assert(before[i as int] == old_files[i as int]@);
                                assert(events@[n as int] == DiffEvent::Line { path: *path, origin: *origin, content: *content });
                                assert(path_index(before, path@) == i);
                                assert(new_f@.patch =~= after[i as int].patch);
                                assert(new_f@ == after[i as int]);
                                assert(files_model(files@) =~= after);
                                lemma_sum_update(before, i as int, after[i as int]);
                            }
                        }
                    },
                    None => {},
                }
            },
        }
        assert(files_model(files@) == apply_event(before, events@[n as int]));
        proof {
            lemma_apply_event(before, events@[n as int]);
        }
        n = n + 1;
    }
    assert(events@.take(events.len() as int) =~= events@);
    DiffSummary { files, total_additions, total_deletions }
}

/// Every file of a diff summary is one that the diff reported as a file,
/// and no two files of the summary share a path.
pub proof fn diff_files_were_reported(events: Seq<DiffEvent>, k: int)
    requires
        0 <= k < diff_model(events).len(),
    ensures
        exists|j: int|
            0 <= j < events.len() && (#[trigger] events[j] matches DiffEvent::File { path } && path@
                == diff_model(events)[k].path),
        distinct_paths(diff_model(events)),
    decreases events.len(),
{
    lemma_diff_model(events);
    let prev = diff_model(events.drop_last());
    let e = events.last();
    if k < prev.len() {
        assert(diff_model(events)[k].path == prev[k].path) by {
            match e {
                DiffEvent::File { path } => {},
                DiffEvent::Line { path, origin, content } => {
                    lemma_path_index(prev, path@);
                },
            }
        }
        diff_files_were_reported(events.drop_last(), k);
        let j = choose|j: int|
            0 <= j < events.drop_last().len() && (#[trigger] events.drop_last()[j] matches DiffEvent::File { path } && path@
                == prev[k].path);
        assert(events[j] == events.drop_last()[j]);
    } else {
        let j = events.len() - 1;
        assert(events[j] == e);
        match e {
            DiffEvent::File { path } => {},
            DiffEvent::Line { path, origin, content } => {
                lemma_path_index(prev, path@);
            },
        }
    }
}

} // verus!

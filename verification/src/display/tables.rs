//! The rows of the tables that gitpilot prints.
use vstd::prelude::*;
use vstd::string::StringSliceAdditionalSpecFns;
use vstd::utf8::{decode_utf8, encode_utf8, encode_utf8_decode_utf8, is_char_boundary};
use crate::commands::cleanup::{state_label, state_name};
use crate::git::branches::{branches_model, BranchInfo, BranchModel};
use crate::git::commits::{commits_model, CommitModel, CommitSummary};
use crate::git::status::{changes_model, FileChange};
use crate::text::{int_string, int_text, to_string};

verus! {

broadcast use vstd::string::group_string_axioms;

/// A row of a table of changed files.
pub struct FileRow {
    pub status: String,
    pub path: String,
}

/// A row of a table of commits.
pub struct CommitRow {
    pub hash: String,
    pub author: String,
    pub date: String,
    pub message: String,
}

/// A row of a table of branches.
pub struct BranchRow {
    pub name: String,
    pub status: String,
    pub age: String,
    pub last_commit: String,
}

/// A file table: one row (status, path) per change, in order.
pub fn file_rows(changes: &Vec<FileChange>) -> (r: Vec<FileRow>)
    ensures
        r@.len() == changes@.len(),
        forall|i: int| 0 <= i < r@.len() ==> (#[trigger] r@[i]).status@ == changes@[i].status@ && r@[i].path@ == changes@[i].path@,
{
    let mut rows: Vec<FileRow> = Vec::new();
    let mut i: usize = 0;
    while i < changes.len()
        invariant
            i <= changes.len(),
            rows@.len() == i,
            forall|k: int| 0 <= k < i ==> (#[trigger] rows@[k]).status@ == changes@[k].status@ && rows@[k].path@ == changes@[k].path@,
        decreases changes.len() - i,
    {
        rows.push(FileRow { status: changes[i].status.clone(), path: changes[i].path.clone() });
        i = i + 1;
    }
    rows
}

proof fn lemma_encode_concat(a: Seq<char>, b: Seq<char>)
    ensures
        encode_utf8(a + b) == encode_utf8(a) + encode_utf8(b),
    decreases a.len(),
{
    if a.len() > 0 {
        lemma_encode_concat(a.drop_first(), b);
        assert((a + b).drop_first() =~= a.drop_first() + b);
        assert((a + b)[0] == a[0]);
    } else {
        assert(a + b =~= b);
    }
}

/// How many bytes of a longer text are kept when it is cut for a column of
/// `max` bytes: `max - 1`, to leave room for the ellipsis.
pub open spec fn kept_bytes(max: nat) -> nat {
    if max == 0 {
        0
    } else {
        (max - 1) as nat
    }
}

/// The text can be cut for a column of `max` bytes without splitting a
/// character (cutting it otherwise panics).
pub open spec fn cuttable(s: Seq<char>, max: nat) -> bool {
    encode_utf8(s).len() <= max || is_char_boundary(encode_utf8(s), kept_bytes(max) as int)
}

/// The UTF-8 bytes of `s` cut for a column of `max` bytes: unchanged when
/// it fits, else its first `max - 1` bytes and an ellipsis.
pub open spec fn cut_bytes(s: Seq<char>, max: nat) -> Seq<u8> {
    if encode_utf8(s).len() <= max {
        encode_utf8(s)
    } else {
        encode_utf8(s).take(kept_bytes(max) as int) + encode_utf8(seq!['…'])
    }
}

/// Whether `s` can be cut for a column of `max` bytes.
pub fn can_cut(s: &str, max: usize) -> (b: bool)
    ensures
        b == cuttable(s@, max as nat),
{
    broadcast use vstd::slice::axiom_spec_len;

    proof {
        assert(s.spec_bytes() == encode_utf8(s@));
    }
    s.as_bytes().len() <= max || s.is_char_boundary(if max == 0 {
        0
    } else {
        max - 1
    })
}

/// Cuts `s` for a column of `max` bytes, marking a cut with `…`.
pub fn truncate(s: &str, max: usize) -> (r: String)
    requires
        cuttable(s@, max as nat),
    ensures
        encode_utf8(r@) == cut_bytes(s@, max as nat),
{
    broadcast use vstd::slice::axiom_spec_len;

    proof {
        assert(s.spec_bytes() == encode_utf8(s@));
    }
    if s.as_bytes().len() <= max {
        String::from_str(s)
    } else {
        let keep = if max == 0 {
            0
        } else {
            max - 1
        };
        assert(s.spec_bytes() == encode_utf8(s@));
        let (head, _) = s.split_at(keep);
        assert(head.spec_bytes() == encode_utf8(head@));
        assert(encode_utf8(head@) =~= encode_utf8(s@).take(keep as int));
        let mut r = String::from_str(head);
        r.push('…');
        proof {
            lemma_encode_concat(head@, seq!['…']);
        }
        assert(r@ == head@ + seq!['…']);
        r
    }
}

/// A commit table: one row per commit, in order, with the short id, the
/// author, the date (`YYYY-MM-DD`, UTC) and the message cut to 60 bytes.
pub fn commit_rows(commits: &Vec<CommitSummary>) -> (r: Vec<CommitRow>)
    requires
        forall|i: int| 0 <= i < commits@.len() ==> cuttable(#[trigger] commits@[i].message@, 60),
    ensures
        r@.len() == commits@.len(),
        forall|i: int| 0 <= i < r@.len() ==> {
            &&& (#[trigger] r@[i]).hash@ == commits@[i].short_id@
            &&& r@[i].author@ == commits@[i].author@
            &&& r@[i].date@ == utc_date_text(commits@[i].date)
            &&& encode_utf8(r@[i].message@) == cut_bytes(commits@[i].message@, 60)
        },
{
    let mut rows: Vec<CommitRow> = Vec::new();
    let mut i: usize = 0;
    while i < commits.len()
        invariant
            i <= commits.len(),
            rows@.len() == i,
            forall|k: int| 0 <= k < commits@.len() ==> cuttable(#[trigger] commits@[k].message@, 60),
            forall|k: int| 0 <= k < i ==> {
                &&& (#[trigger] rows@[k]).hash@ == commits@[k].short_id@
                &&& rows@[k].author@ == commits@[k].author@
                &&& rows@[k].date@ == utc_date_text(commits@[k].date)
                &&& encode_utf8(rows@[k].message@) == cut_bytes(commits@[k].message@, 60)
            },
        decreases commits.len() - i,
    {
        let c = &commits[i];
        assert(cuttable(commits@[i as int].message@, 60));
        rows.push(
            CommitRow {
                hash: c.short_id.clone(),
                author: c.author.clone(),
                date: format_date(c.date),
                message: truncate(c.message.as_str(), 60),
            },
        );
        i = i + 1;
    }
    rows
}

/// The date of the moment `secs` (seconds since the Unix epoch) as chrono
/// writes it with `%Y-%m-%d` in UTC; empty for a moment chrono cannot represent.
pub uninterp spec fn utc_date_text(secs: i64) -> Seq<char>;

/// `chrono::DateTime::from_timestamp(secs, 0)` formatted with `%Y-%m-%d`.
/// The text is a function of `secs` alone, named `utc_date_text`.
#[verifier::external_body]
fn format_date(secs: i64) -> (r: String)
    ensures
        r@ == utc_date_text(secs),
{
    match chrono::DateTime::from_timestamp(secs, 0) {
        Some(d) => d.format("%Y-%m-%d").to_string(),
        None => String::new(),
    }
}

/// A branch table: one row per branch, in order, with the name, the state,
/// the age in days and the last commit's message cut to 50 bytes.
pub fn branch_rows(branches: &Vec<BranchInfo>) -> (r: Vec<BranchRow>)
    requires
        forall|i: int| 0 <= i < branches@.len() ==> cuttable(#[trigger] branches@[i].last_commit_msg@, 50),
    ensures
        r@.len() == branches@.len(),
        forall|i: int| 0 <= i < r@.len() ==> {
            &&& (#[trigger] r@[i]).name@ == branches@[i].name@
            &&& r@[i].status@ == state_name(branches@[i].state)
            &&& r@[i].age@ == int_text(branches@[i].age_days as int)
            &&& encode_utf8(r@[i].last_commit@) == cut_bytes(branches@[i].last_commit_msg@, 50)
        },
{
    let mut rows: Vec<BranchRow> = Vec::new();
    let mut i: usize = 0;
    while i < branches.len()
        invariant
            i <= branches.len(),
            rows@.len() == i,
            forall|k: int| 0 <= k < branches@.len() ==> cuttable(#[trigger] branches@[k].last_commit_msg@, 50),
            forall|k: int| 0 <= k < i ==> {
                &&& (#[trigger] rows@[k]).name@ == branches@[k].name@
                &&& rows@[k].status@ == state_name(branches@[k].state)
                &&& rows@[k].age@ == int_text(branches@[k].age_days as int)
                &&& encode_utf8(rows@[k].last_commit@) == cut_bytes(branches@[k].last_commit_msg@, 50)
            },
        decreases branches.len() - i,
    {
        let b = &branches[i];
        assert(cuttable(branches@[i as int].last_commit_msg@, 50));
        rows.push(
            BranchRow {
                name: b.name.clone(),
                status: state_label(b.state),
                age: int_string(b.age_days),
                last_commit: truncate(b.last_commit_msg.as_str(), 50),
            },
        );
        i = i + 1;
    }
    rows
}

/// The text that tabled lays out, in its default style, for a table of
/// text cells whose first record is the header.
pub uninterp spec fn table_text(records: Seq<Seq<Seq<char>>>) -> Seq<char>;

/// `tabled::builder::Builder::from(records).build().to_string()`: the table
/// laid out in tabled's default style, the same layout that `Table::new`
/// gives rows whose headers and fields are these records. The layout takes
/// pages to state and depends on the records alone; it is named `table_text`.
#[verifier::external_body]
pub(crate) fn render_table(records: Vec<Vec<String>>) -> (r: String)
    ensures
        r@ == table_text(records.deep_view()),
{
    tabled::builder::Builder::from(records).build().to_string()
}

/// The text of `s` cut for a column of `max` bytes.
pub open spec fn cut_text(s: Seq<char>, max: nat) -> Seq<char> {
    decode_utf8(cut_bytes(s, max))
}

/// The records of a table of changed files: the header, then status and path of each change.
pub open spec fn file_records(changes: Seq<FileChange>) -> Seq<Seq<Seq<char>>> {
    seq![seq!["Status"@, "File"@]] + changes.map_values(|c: FileChange| seq![c.status@, c.path@])
}

/// The records of a table of commits: the header, then the short id, author,
/// date and cut message of each commit.
pub open spec fn commit_records(commits: Seq<CommitSummary>) -> Seq<Seq<Seq<char>>> {
    seq![seq!["Hash"@, "Author"@, "Date"@, "Message"@]] + commits.map_values(
        |c: CommitSummary| seq![c.short_id@, c.author@, utc_date_text(c.date), cut_text(c.message@, 60)],
    )
}

/// The records of a table of branches: the header, then the name, state,
/// age in days and cut last message of each branch.
pub open spec fn branch_records(branches: Seq<BranchInfo>) -> Seq<Seq<Seq<char>>> {
    seq![seq!["Branch"@, "Status"@, "Age (days)"@, "Last Commit"@]] + branches.map_values(
        |b: BranchInfo| seq![b.name@, state_name(b.state), int_text(b.age_days as int), cut_text(b.last_commit_msg@, 50)],
    )
}

/// A record of two cells.
fn record2(a: &String, b: &String) -> (r: Vec<String>)
    ensures
        r.deep_view() == seq![a@, b@],
{
    let r = vec![a.clone(), b.clone()];
    assert(r.deep_view() =~= seq![a@, b@]);
    r
}

/// A record of four cells.
fn record4(a: &String, b: &String, c: &String, d: &String) -> (r: Vec<String>)
    ensures
        r.deep_view() == seq![a@, b@, c@, d@],
{
    let r = vec![a.clone(), b.clone(), c.clone(), d.clone()];
    assert(r.deep_view() =~= seq![a@, b@, c@, d@]);
    r
}

/// The table of changed files, laid out by tabled.
pub fn file_table(changes: &Vec<FileChange>) -> (r: String)
    ensures
        r@ == table_text(file_records(changes@)),
{
    let rows = file_rows(changes);
    let mut records: Vec<Vec<String>> = Vec::new();
    records.push(record2(&to_string("Status"), &to_string("File")));
    let mut i: usize = 0;
    while i < rows.len()
        invariant
            i <= rows.len(),
            rows@.len() == changes@.len(),
            forall|k: int| 0 <= k < rows@.len() ==> (#[trigger] rows@[k]).status@ == changes@[k].status@ && rows@[k].path@ == changes@[k].path@,
            records.deep_view() == file_records(changes@.take(i as int)),
        decreases rows.len() - i,
    {
        let ghost before = records.deep_view();
        let rec = record2(&rows[i].status, &rows[i].path);
        records.push(rec);
        assert(changes@.take(i + 1).drop_last() =~= changes@.take(i as int));
        assert(records.deep_view() =~= before.push(rec.deep_view()));
        assert(file_records(changes@.take(i + 1)) =~= file_records(changes@.take(i as int)).push(
            seq![changes@[i as int].status@, changes@[i as int].path@],
        ));
        i = i + 1;
    }
    assert(changes@.take(rows.len() as int) =~= changes@);
    render_table(records)
}

proof fn lemma_cut_text(r: Seq<char>, s: Seq<char>, max: nat)
    requires
        encode_utf8(r) == cut_bytes(s, max),
    ensures
        r == cut_text(s, max),
{
    encode_utf8_decode_utf8(r);
}

/// The table of commits, laid out by tabled.
pub fn commit_table(commits: &Vec<CommitSummary>) -> (r: String)
    requires
        forall|i: int| 0 <= i < commits@.len() ==> cuttable(#[trigger] commits@[i].message@, 60),
    ensures
        r@ == table_text(commit_records(commits@)),
{
    let rows = commit_rows(commits);
    let mut records: Vec<Vec<String>> = Vec::new();
    records.push(record4(&to_string("Hash"), &to_string("Author"), &to_string("Date"), &to_string("Message")));
    let mut i: usize = 0;
    while i < rows.len()
        invariant
            i <= rows.len(),
            rows@.len() == commits@.len(),
            forall|k: int| 0 <= k < rows@.len() ==> {
                &&& (#[trigger] rows@[k]).hash@ == commits@[k].short_id@
                &&& rows@[k].author@ == commits@[k].author@
                &&& rows@[k].date@ == utc_date_text(commits@[k].date)
                &&& encode_utf8(rows@[k].message@) == cut_bytes(commits@[k].message@, 60)
            },
            records.deep_view() == commit_records(commits@.take(i as int)),
        decreases rows.len() - i,
    {
        let ghost before = records.deep_view();
        let row = &rows[i];
        proof {
            lemma_cut_text(rows@[i as int].message@, commits@[i as int].message@, 60);
        }
        let rec = record4(&row.hash, &row.author, &row.date, &row.message);
        records.push(rec);
        assert(commits@.take(i + 1).drop_last() =~= commits@.take(i as int));
        assert(records.deep_view() =~= before.push(rec.deep_view()));
        assert(commit_records(commits@.take(i + 1)) =~= commit_records(commits@.take(i as int)).push(
            rec.deep_view(),
        ));
        i = i + 1;
    }
    assert(commits@.take(rows.len() as int) =~= commits@);
    render_table(records)
}

/// The table of branches, laid out by tabled.
pub fn branch_table(branches: &Vec<BranchInfo>) -> (r: String)
    requires
        forall|i: int| 0 <= i < branches@.len() ==> cuttable(#[trigger] branches@[i].last_commit_msg@, 50),
    ensures
        r@ == table_text(branch_records(branches@)),
{
    let rows = branch_rows(branches);
    let mut records: Vec<Vec<String>> = Vec::new();
    records.push(
        record4(&to_string("Branch"), &to_string("Status"), &to_string("Age (days)"), &to_string("Last Commit")),
    );
    let mut i: usize = 0;
    while i < rows.len()
        invariant
            i <= rows.len(),
            rows@.len() == branches@.len(),
            forall|k: int| 0 <= k < rows@.len() ==> {
                &&& (#[trigger] rows@[k]).name@ == branches@[k].name@
                &&& rows@[k].status@ == state_name(branches@[k].state)
                &&& rows@[k].age@ == int_text(branches@[k].age_days as int)
                &&& encode_utf8(rows@[k].last_commit@) == cut_bytes(branches@[k].last_commit_msg@, 50)
            },
            records.deep_view() == branch_records(branches@.take(i as int)),
        decreases rows.len() - i,
    {
        let ghost before = records.deep_view();
        let row = &rows[i];
        proof {
            lemma_cut_text(rows@[i as int].last_commit@, branches@[i as int].last_commit_msg@, 50);
        }
        let rec = record4(&row.name, &row.status, &row.age, &row.last_commit);
        records.push(rec);
        assert(branches@.take(i + 1).drop_last() =~= branches@.take(i as int));
        assert(records.deep_view() =~= before.push(rec.deep_view()));
        assert(branch_records(branches@.take(i + 1)) =~= branch_records(branches@.take(i as int)).push(
            rec.deep_view(),
        ));
        i = i + 1;
    }
    assert(branches@.take(rows.len() as int) =~= branches@);
    render_table(records)
}

} // verus!

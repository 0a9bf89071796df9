//! Commit summaries, and choosing the commits that a log filter selects.
use chrono::TimeZone;
use vstd::prelude::*;
use crate::display::theme::now_timestamp;
use crate::text::{chars_of, contains_seq, str_contains, string_from};

verus! {

broadcast use vstd::string::group_string_axioms;

/// What a log shows of a commit.
pub struct CommitSummary {
    /// The first seven characters of the commit id.
    pub short_id: String,
    /// The full commit id, in hexadecimal.
    pub full_id: String,
    /// The first line of the message.
    pub message: String,
    pub author: String,
    /// The commit time, in seconds since the Unix epoch.
    pub date: i64,
}

impl CommitSummary {
    /// A copy of the summary.
    pub fn copy(&self) -> (r: CommitSummary)
        ensures
            r@ == self@,
    {
        CommitSummary {
            short_id: self.short_id.clone(),
            full_id: self.full_id.clone(),
            message: self.message.clone(),
            author: self.author.clone(),
            date: self.date,
        }
    }
}

/// The abstract content of a `CommitSummary`.
pub struct CommitModel {
    pub short_id: Seq<char>,
    pub full_id: Seq<char>,
    pub message: Seq<char>,
    pub author: Seq<char>,
    pub date: int,
}

impl View for CommitSummary {
    type V = CommitModel;

    open spec fn view(&self) -> CommitModel {
        CommitModel {
            short_id: self.short_id@,
            full_id: self.full_id@,
            message: self.message@,
            author: self.author@,
            date: self.date as int,
        }
    }
}

/// The abstract commits.
pub open spec fn commits_model(commits: Seq<CommitSummary>) -> Seq<CommitModel> {
    commits.map_values(|c: CommitSummary| c@)
}

/// Whether the second `t` (since the Unix epoch) lies in the range of times
/// that chrono represents: from -262143-01-01T00:00:00 UTC, which is
/// `NaiveDate::MIN` at midnight, to +262142-12-31T23:59:59 UTC, the last
/// second of `NaiveDate::MAX` (`DateTime::<Utc>::MIN_UTC.timestamp()` and
/// `MAX_UTC.timestamp()`).
pub open spec fn in_chrono_range(t: int) -> bool {
    -8334601228800 <= t <= 8210266876799
}

/// Whether `secs` lies in the range of times that chrono represents.
pub open spec fn utc_timestamp_valid(secs: i64) -> bool {
    in_chrono_range(secs as int)
}

/// `chrono::Utc.timestamp_opt(secs, 0).single()`: `Some` exactly when the
/// day of `secs` lies between `NaiveDate::MIN` (-262143-01-01) and
/// `NaiveDate::MAX` (+262142-12-31).
#[verifier::external_body]
pub(crate) fn timestamp_is_valid(secs: i64) -> (r: bool)
    ensures
        r == utc_timestamp_valid(secs),
{
    chrono::Utc.timestamp_opt(secs, 0).single().is_some()
}

/// The summary of a commit, from what the repository reports of it: its
/// id in hexadecimal, the first line of its message and its author's name
/// (when they are valid UTF-8), and its time. A missing message reads as
/// empty, a missing name as `?`; a time that chrono cannot represent is
/// replaced by the current time.
pub fn commit_summary(id_hex: &str, summary: Option<&str>, author: Option<&str>, time: i64) -> (r: CommitSummary)
    ensures
        r.short_id@ == id_hex@.take(if id_hex@.len() < 7 { id_hex@.len() as int } else { 7 }),
        r.full_id@ == id_hex@,
        r.message@ == (match summary {
            Some(m) => m@,
            None => Seq::empty(),
        }),
        r.author@ == (match author {
            Some(a) => a@,
            None => "?"@,
        }),
        utc_timestamp_valid(time) ==> r.date == time,
        utc_timestamp_valid(r.date),
{
    let idv = chars_of(id_hex);
    let k = if idv.len() < 7 {
        idv.len()
    } else {
        7
    };
    let short_id = string_from(&idv, 0, k);
    let message = match summary {
        Some(m) => String::from_str(m),
        None => String::new(),
    };
    let author = match author {
        Some(a) => String::from_str(a),
        None => String::from_str("?"),
    };
    let date = if timestamp_is_valid(time) {
        time
    } else {
        now_timestamp()
    };
    CommitSummary { short_id, full_id: String::from_str(id_hex), message, author, date }
}

/// `str::to_lowercase` (Unicode lower case), named.
pub uninterp spec fn str_lowercase(s: Seq<char>) -> Seq<char>;

/// `str::to_lowercase`: the Unicode lower-case mapping of `s`, which takes
/// pages to state and is named `str_lowercase`.
#[verifier::external_body]
fn lowercase(s: &str) -> (r: String)
    ensures
        r@ == str_lowercase(s@),
{
    s.to_lowercase()
}

/// Case-insensitive substring test: `pat` occurs in `s` once both are lower-cased.
pub open spec fn contains_ignoring_case(s: Seq<char>, pat: Seq<char>) -> bool {
    contains_seq(str_lowercase(s), str_lowercase(pat))
}

/// Whether `pat` occurs in `s`, ignoring case.
pub fn contains_ignore_case(s: &str, pat: &str) -> (b: bool)
    ensures
        b == contains_ignoring_case(s@, pat@),
{
    let ls = lowercase(s);
    let lp = lowercase(pat);
    str_contains(ls.as_str(), lp.as_str())
}

/// Which commits a log shows: those whose author contains `author` and whose
/// message contains `grep` (both ignoring case), made at or after `since`
/// (seconds since the Unix epoch). An absent criterion admits every commit.
pub struct LogFilter {
    pub author: Option<String>,
    pub since: Option<i64>,
    pub grep: Option<String>,
}

/// Whether the filter admits the commit.
pub open spec fn admits(f: LogFilter, c: CommitModel) -> bool {
    &&& (f.author matches Some(a) ==> contains_ignoring_case(c.author, a@))
    &&& (f.since matches Some(s) ==> c.date >= s)
    &&& (f.grep matches Some(g) ==> contains_ignoring_case(c.message, g@))
}

/// Whether the filter admits the commit.
pub fn filter_admits(f: &LogFilter, c: &CommitSummary) -> (b: bool)
    ensures
        b == admits(*f, c@),
{
    match &f.author {
        Some(a) => {
            if !contains_ignore_case(c.author.as_str(), a.as_str()) {
                return false;
            }
        },
        None => {},
    }
    match f.since {
        Some(s) => {
            if c.date < s {
                return false;
            }
        },
        None => {},
    }
    match &f.grep {
        Some(g) => {
            if !contains_ignore_case(c.message.as_str(), g.as_str()) {
                return false;
            }
        },
        None => {},
    }
    true
}

/// The commits of `commits` that `f` admits, in order.
pub open spec fn admitted(f: LogFilter, commits: Seq<CommitModel>) -> Seq<CommitModel>
    decreases commits.len(),
{
    if commits.len() == 0 {
        seq![]
    } else if admits(f, commits.last()) {
        admitted(f, commits.drop_last()).push(commits.last())
    } else {
        admitted(f, commits.drop_last())
    }
}

/// The first `n` elements of `s` (all of `s` when it is shorter).
pub open spec fn first_n<A>(s: Seq<A>, n: nat) -> Seq<A> {
    if s.len() <= n {
        s
    } else {
        s.take(n as int)
    }
}

/// What a log shows: of the first `scan_limit` commits walked, the first
/// `count` that the filter admits.
pub open spec fn log_selection(f: LogFilter, commits: Seq<CommitModel>, count: nat, scan_limit: nat) -> Seq<CommitModel> {
    first_n(admitted(f, first_n(commits, scan_limit)), count)
}

/// The state of a walk through the history for a filtered log: how many
/// commits have been looked at, and those kept so far.
pub struct LogScan {
    pub checked: usize,
    pub results: Vec<CommitSummary>,
}

impl LogScan {
    /// A walk that has seen nothing.
    pub fn new() -> (r: LogScan)
        ensures
            r.checked == 0,
            r.results@.len() == 0,
    {
        LogScan { checked: 0, results: Vec::new() }
    }

    /// Whether the walk should look at another commit: fewer than
    /// `scan_limit` commits looked at and fewer than `count` kept.
    pub fn wants_more(&self, count: usize, scan_limit: usize) -> (b: bool)
        ensures
            b == (self.checked < scan_limit && self.results@.len() < count),
    {
        self.checked < scan_limit && self.results.len() < count
    }

    /// Looks at the next commit of the walk: counts it, and keeps it when
    /// the filter admits it.
    pub fn offer(&mut self, c: &CommitSummary, f: &LogFilter)
        requires
            old(self).checked < usize::MAX,
        ensures
            final(self).checked == old(self).checked + 1,
            commits_model(final(self).results@) == if admits(*f, c@) {
                commits_model(old(self).results@).push(c@)
            } else {
                commits_model(old(self).results@)
            },
    {
        self.checked = self.checked + 1;
        if filter_admits(f, c) {
            let ghost before = self.results@;
            self.results.push(c.copy());
            assert(commits_model(self.results@) =~= commits_model(before).push(c@));
        }
    }
}

proof fn lemma_admitted_len(f: LogFilter, s: Seq<CommitModel>)
    ensures
        admitted(f, s).len() <= s.len(),
    decreases s.len(),
{
    if s.len() > 0 {
        lemma_admitted_len(f, s.drop_last());
    }
}

/// The commits that a filtered log shows, from the commits of a history
/// walk in walking order: of the first `scan_limit` commits, the first
/// `count` that the filter admits, in order.
pub fn filter_commits(commits: &Vec<CommitSummary>, count: usize, scan_limit: usize, f: &LogFilter) -> (r: Vec<CommitSummary>)
    ensures
        commits_model(r@) == log_selection(*f, commits_model(commits@), count as nat, scan_limit as nat),
{
    let ghost cm = commits_model(commits@);
    let mut scan = LogScan::new();
    assert(commits_model(scan.results@) =~= admitted(*f, cm.take(0)));
    let mut i: usize = 0;
    let n = commits.len();
    while scan.wants_more(count, scan_limit) && i < n
        invariant
            n == cm.len(),
            cm == commits_model(commits@),
            i <= n,
            scan.checked == i,
            i <= scan_limit,
            commits_model(scan.results@) == admitted(*f, cm.take(i as int)),
            scan.results@.len() <= count,
        decreases n - i,
    {
        assert(cm.take(i + 1).drop_last() =~= cm.take(i as int));
        assert(cm.take(i + 1).last() == commits@[i as int]@);
        scan.offer(&commits[i], f);
        i = i + 1;
    }
    proof {
        lemma_admitted_len(*f, cm.take(i as int));
        if i == scan_limit || i == n {
            assert(first_n(cm, scan_limit as nat) =~= cm.take(i as int));
        } else {
            lemma_admitted_prefix(*f, cm.take(i as int), first_n(cm, scan_limit as nat));
            assert(admitted(*f, first_n(cm, scan_limit as nat)).take(count as int) =~= admitted(*f, cm.take(i as int)));
        }
    }
    scan.results
}

/// Keeping the admitted commits of a longer walk extends those of a prefix.
proof fn lemma_admitted_prefix(f: LogFilter, a: Seq<CommitModel>, b: Seq<CommitModel>)
    requires
        a.is_prefix_of(b),
    ensures
        admitted(f, a).is_prefix_of(admitted(f, b)),
    decreases b.len(),
{
    if b.len() > a.len() {
        assert(a.is_prefix_of(b.drop_last()));
        lemma_admitted_prefix(f, a, b.drop_last());
    } else {
        assert(a =~= b);
    }
}

proof fn lemma_admitted_sound(f: LogFilter, s: Seq<CommitModel>, k: int)
    requires
        0 <= k < admitted(f, s).len(),
    ensures
        admits(f, admitted(f, s)[k]),
        s.contains(admitted(f, s)[k]),
    decreases s.len(),
{
    let rest = admitted(f, s.drop_last());
    if k < rest.len() {
        lemma_admitted_sound(f, s.drop_last(), k);
        let w = choose|j: int| 0 <= j < s.drop_last().len() && s.drop_last()[j] == rest[k];
        assert(s[w] == rest[k]);
    } else {
        assert(s[s.len() - 1] == s.last());
    }
}

/// A filtered log shows at most `count` commits, each admitted by the filter
/// and each one of the first `scan_limit` commits walked.
pub proof fn log_selection_sound(f: LogFilter, commits: Seq<CommitModel>, count: nat, scan_limit: nat)
    ensures
        log_selection(f, commits, count, scan_limit).len() <= count,
        forall|k: int|
            0 <= k < log_selection(f, commits, count, scan_limit).len() ==> admits(
                f,
                #[trigger] log_selection(f, commits, count, scan_limit)[k],
            ) && first_n(commits, scan_limit).contains(log_selection(f, commits, count, scan_limit)[k]),
{
    let scanned = first_n(commits, scan_limit);
    let sel = log_selection(f, commits, count, scan_limit);
    assert forall|k: int| 0 <= k < sel.len() implies admits(f, #[trigger] sel[k]) && scanned.contains(sel[k]) by {
        assert(sel[k] == admitted(f, scanned)[k]);
        lemma_admitted_sound(f, scanned, k);
    }
}

/// The criteria of a filter are independent: a commit is admitted exactly
/// when each given criterion, taken alone, admits it; an author criterion
/// alone admits the commits whose author contains it, a `since` alone those
/// made at or after it, a `grep` alone those whose message contains it (both
/// ignoring case); and no criterion admits everything.
pub proof fn filter_criteria_are_independent(f: LogFilter, c: CommitModel)
    ensures
        admits(f, c) <==> (admits((LogFilter { author: f.author, since: None, grep: None }), c)
            && admits((LogFilter { author: None, since: f.since, grep: None }), c)
            && admits((LogFilter { author: None, since: None, grep: f.grep }), c)),
        admits((LogFilter { author: None, since: None, grep: None }), c),
        f.author matches Some(a) ==> (admits((LogFilter { author: Some(a), since: None, grep: None }), c)
            <==> contains_seq(str_lowercase(c.author), str_lowercase(a@))),
        f.since matches Some(s) ==> (admits((LogFilter { author: None, since: Some(s), grep: None }), c)
            <==> c.date >= s),
        f.grep matches Some(g) ==> (admits((LogFilter { author: None, since: None, grep: Some(g) }), c)
            <==> contains_seq(str_lowercase(c.message), str_lowercase(g@))),
{
}

} // verus!

//! `log`: reading the `--since` option and laying out log lines.
use vstd::prelude::*;
use crate::display::theme::{dim, dim_text, fg_text, info, relative_text, relative_time_at};
use crate::git::commits::{in_chrono_range, CommitSummary};
use crate::text::{chars_of, join, join_seqs, parse_i64, parsed_i64, str_eq, string_from, strings_view, to_string};

verus! {

broadcast use vstd::string::group_string_axioms;

/// The lower bound that `--since` sets on commit times.
#[derive(PartialEq, Eq, Structural, Clone, Copy, Debug)]
pub enum Since {
    /// This many seconds before the current time.
    SecondsAgo(i128),
    /// This moment, in seconds since the Unix epoch.
    At(i64),
}

/// The midnight (UTC) that starts the day that `s` names in the form
/// `YYYY-MM-DD`, as chrono reads that form, in seconds since the Unix epoch.
pub uninterp spec fn ymd_midnight(s: Seq<char>) -> Option<i64>;

/// `chrono::NaiveDate::parse_from_str(s, "%Y-%m-%d")`, taken to midnight UTC
/// and to a Unix timestamp. What chrono accepts as a date takes pages to
/// state; the result is named `ymd_midnight`.
#[verifier::external_body]
fn parse_ymd_midnight(s: &str) -> (r: Option<i64>)
    ensures
        r == ymd_midnight(s@),
{
    match chrono::NaiveDate::parse_from_str(s, "%Y-%m-%d") {
        Ok(d) => Some(d.and_hms_opt(0, 0, 0).unwrap().and_utc().timestamp()),
        Err(_) => None,
    }
}

/// `s` ends with the unit letter `unit` after an `i64`; that number.
pub open spec fn count_with_unit(s: Seq<char>, unit: char) -> Option<i64> {
    if s.len() > 0 && s.last() == unit {
        parsed_i64(s.drop_last())
    } else {
        None
    }
}

/// What a `--since` value means, given what it means read as a date
/// `YYYY-MM-DD` (`date`, its midnight UTC, when it is one): `<n>d`, `<n>w`
/// and `<n>m` are that many days, weeks or 30-day months before now;
/// anything else must be a date.
pub open spec fn since_meaning_given(s: Seq<char>, date: Option<i64>) -> Option<Since> {
    if count_with_unit(s, 'd') is Some {
        Some(Since::SecondsAgo((count_with_unit(s, 'd').unwrap() * 86400) as i128))
    } else if count_with_unit(s, 'w') is Some {
        Some(Since::SecondsAgo((count_with_unit(s, 'w').unwrap() * (7 * 86400)) as i128))
    } else if count_with_unit(s, 'm') is Some {
        Some(Since::SecondsAgo((count_with_unit(s, 'm').unwrap() * (30 * 86400)) as i128))
    } else if date is Some {
        Some(Since::At(date.unwrap()))
    } else {
        None
    }
}

/// What a `--since` value means.
pub open spec fn since_meaning(s: Seq<char>) -> Option<Since> {
    since_meaning_given(s, ymd_midnight(s))
}

/// The message for a `--since` value that means nothing.
pub open spec fn since_error(s: Seq<char>) -> Seq<char> {
    "Invalid date format: '"@ + s + "'. Use YYYY-MM-DD, Nd, Nw, or Nm"@
}

fn count_with(s: &str, unit: char) -> (r: Option<i64>)
    ensures
        r == count_with_unit(s@, unit),
{
    let v = chars_of(s);
    if v.len() > 0 && v[v.len() - 1] == unit {
        let rest = string_from(&v, 0, v.len() - 1);
        assert(rest@ =~= s@.drop_last());
        parse_i64(rest.as_str())
    } else {
        None
    }
}

/// Reads a `--since` value, given what it means read as a date `YYYY-MM-DD`.
pub fn since_from(s: &str, date: Option<i64>) -> (r: Result<Since, String>)
    ensures
        match r {
            Ok(since) => since_meaning_given(s@, date) == Some(since),
            Err(e) => since_meaning_given(s@, date) is None && e@ == since_error(s@),
        },
{
    match count_with(s, 'd') {
        Some(n) => {
            return Ok(Since::SecondsAgo(n as i128 * 86400));
        },
        None => {},
    }
    match count_with(s, 'w') {
        Some(n) => {
            return Ok(Since::SecondsAgo(n as i128 * (7 * 86400)));
        },
        None => {},
    }
    match count_with(s, 'm') {
        Some(n) => {
            return Ok(Since::SecondsAgo(n as i128 * (30 * 86400)));
        },
        None => {},
    }
    match date {
        Some(t) => Ok(Since::At(t)),
        None => {
            let mut e = to_string("Invalid date format: '");
            e.append(s);
            e.append("'. Use YYYY-MM-DD, Nd, Nw, or Nm");
            Err(e)
        },
    }
}

/// Reads a `--since` value.
pub fn parse_since(s: &str) -> (r: Result<Since, String>)
    ensures
        match r {
            Ok(since) => since_meaning(s@) == Some(since),
            Err(e) => since_meaning(s@) is None && e@ == since_error(s@),
        },
{
    let date = parse_ymd_midnight(s);
    since_from(s, date)
}

/// A span of `secs` seconds fits chrono's `TimeDelta` (at most `i64::MAX`
/// milliseconds either way).
pub open spec fn span_in_range(secs: int) -> bool {
    -9223372036854775 <= secs <= 9223372036854775
}

/// The first whole second (since the Unix epoch) that a log limited by
/// `since` shows, seen at the moment `now` seconds and `nanos` nanoseconds
/// after the epoch: a commit is shown unless it is earlier than the moment
/// that `since` names, which keeps the fraction of `now`. `None` where
/// chrono cannot compute that moment (the span or the moment is out of its
/// range), where it panics.
pub open spec fn first_shown_second(now: int, nanos: nat, since: Since) -> Option<int> {
    match since {
        Since::SecondsAgo(secs) => if span_in_range(secs as int) && in_chrono_range(now - secs) {
            Some(now - secs + if nanos > 0 {
                1int
            } else {
                0int
            })
        } else {
            None
        },
        Since::At(t) => Some(t as int),
    }
}

/// The first whole second that a log limited by `since` shows, seen at
/// `now` seconds and `nanos` nanoseconds after the epoch; `None` when
/// chrono cannot compute the moment.
pub fn since_cutoff(now: i64, nanos: u32, since: Since) -> (r: Option<i64>)
    ensures
        r matches Some(c) ==> first_shown_second(now as int, nanos as nat, since) == Some(c as int),
        r is None ==> first_shown_second(now as int, nanos as nat, since) is None,
{
    match since {
        Since::SecondsAgo(secs) => {
            if secs < -9223372036854775 || secs > 9223372036854775 {
                return None;
            }
            let m: i128 = now as i128 - secs;
            if m < -8334601228800 || m > 8210266876799 {
                return None;
            }
            let c: i128 = if nanos > 0 {
                m + 1
            } else {
                m
            };
            Some(c as i64)
        },
        Since::At(t) => Some(t),
    }
}

/// One line of the log: the short id, the commit's age, the author and the
/// message, then the names of the refs that point at the commit, if any.
pub open spec fn log_line_text(c: crate::git::commits::CommitModel, refs: Seq<Seq<char>>, now: int) -> Seq<char> {
    fg_text(seq!['3', '6'], c.short_id) + "  "@ + dim_text(relative_text(now, c.date)) + "  "@
        + c.author + "  "@ + c.message + if refs.len() == 0 {
        Seq::empty()
    } else {
        "  "@ + fg_text(seq!['3', '6'], "["@ + join_seqs(refs, ", "@) + "]"@)
    }
}

/// Lays out one line of the log, as seen at `now`.
pub fn log_line(c: &CommitSummary, refs: &Vec<String>, now: i64) -> (r: String)
    ensures
        r@ == log_line_text(c@, strings_view(refs@), now as int),
{
    let mut line = info(c.short_id.as_str());
    line.append("  ");
    let age = relative_time_at(now, c.date);
    line.append(dim(age.as_str()).as_str());
    line.append("  ");
    line.append(c.author.as_str());
    line.append("  ");
    line.append(c.message.as_str());
    if refs.len() > 0 {
        let mut label = to_string("[");
        label.append(join(refs, ", ").as_str());
        label.append("]");
        line.append("  ");
        line.append(info(label.as_str()).as_str());
    }
    assert(line@ =~= log_line_text(c@, strings_view(refs@), now as int));
    line
}

/// The views of (commit id, ref name) pairs.
pub open spec fn pairs_view(pairs: Seq<(String, String)>) -> Seq<(Seq<char>, Seq<char>)> {
    pairs.map_values(|p: (String, String)| (p.0@, p.1@))
}

/// The names of the refs that point at the commit `full_id`, in the order of
/// `pairs`, a list of (target commit id, ref name).
pub open spec fn refs_at(pairs: Seq<(Seq<char>, Seq<char>)>, full_id: Seq<char>) -> Seq<Seq<char>>
    decreases pairs.len(),
{
    if pairs.len() == 0 {
        seq![]
    } else if pairs.last().0 == full_id {
        refs_at(pairs.drop_last(), full_id).push(pairs.last().1)
    } else {
        refs_at(pairs.drop_last(), full_id)
    }
}

/// The names of the refs that point at the commit `full_id`, in order, from
/// the (target commit id, ref name) pairs of the repository's references.
pub fn refs_of(pairs: &Vec<(String, String)>, full_id: &str) -> (r: Vec<String>)
    ensures
        strings_view(r@) == refs_at(pairs_view(pairs@), full_id@),
{
    let ghost pv = pairs_view(pairs@);
    let mut out: Vec<String> = Vec::new();
    let mut i: usize = 0;
    assert(pv.take(0) =~= Seq::<(Seq<char>, Seq<char>)>::empty());
    while i < pairs.len()
        invariant
            i <= pairs.len(),
            pv == pairs_view(pairs@),
            strings_view(out@) == refs_at(pv.take(i as int), full_id@),
        decreases pairs.len() - i,
    {
        assert(pv.take(i + 1).drop_last() =~= pv.take(i as int));
        assert(pv.take(i + 1).last() == pv[i as int]);
        if str_eq(pairs[i].0.as_str(), full_id) {
            let ghost before = out@;
            out.push(pairs[i].1.clone());
            assert(strings_view(out@) =~= strings_view(before).push(pv[i as int].1));
        }
        i = i + 1;
    }
    assert(pv.take(pairs.len() as int) =~= pv);
    out
}

/// The moment `secs` (seconds since the Unix epoch) as chrono's `to_rfc3339`
/// writes it in UTC; empty for a moment chrono cannot represent.
pub uninterp spec fn rfc3339_text(secs: i64) -> Seq<char>;

/// `chrono::DateTime::from_timestamp(secs, 0)` written by `to_rfc3339`. The
/// text is a function of `secs` alone, named `rfc3339_text`.
#[verifier::external_body]
fn format_rfc3339(secs: i64) -> (r: String)
    ensures
        r@ == rfc3339_text(secs),
{
    match chrono::DateTime::from_timestamp(secs, 0) {
        Some(d) => d.to_rfc3339(),
        None => String::new(),
    }
}

/// A commit as the JSON log lists it.
pub struct CommitEntry {
    pub hash: String,
    pub author: String,
    pub date: String,
    pub message: String,
    pub refs: Vec<String>,
}

/// A commit as the JSON log lists it: its short id, author, RFC 3339 date,
/// message, and the names of the refs that point at it.
pub fn commit_entry(c: &CommitSummary, ref_pairs: &Vec<(String, String)>) -> (r: CommitEntry)
    ensures
        r.hash@ == c.short_id@,
        r.author@ == c.author@,
        r.date@ == rfc3339_text(c.date),
        r.message@ == c.message@,
        strings_view(r.refs@) == refs_at(pairs_view(ref_pairs@), c.full_id@),
{
    CommitEntry {
        hash: c.short_id.clone(),
        author: c.author.clone(),
        date: format_rfc3339(c.date),
        message: c.message.clone(),
        refs: refs_of(ref_pairs, c.full_id.as_str()),
    }
}

} // verus!

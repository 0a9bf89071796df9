//! Terminal styling of messages, and human-readable ages.
use owo_colors::OwoColorize;
use vstd::prelude::*;
use crate::git::commits::utc_timestamp_valid;
use crate::text::{decimal, decimal_string, int_text, to_string};

verus! {

broadcast use vstd::string::group_string_axioms;

/// The ANSI escape sequence `ESC [ code m`.
pub open spec fn ansi(code: Seq<char>) -> Seq<char> {
    seq!['\x1b', '['] + code + seq!['m']
}

/// `s` between the escape sequences `open` and `close`.
pub open spec fn styled(open: Seq<char>, s: Seq<char>, close: Seq<char>) -> Seq<char> {
    ansi(open) + s + ansi(close)
}

/// Bold text: SGR 1, reset with SGR 0.
pub open spec fn bold_text(s: Seq<char>) -> Seq<char> {
    styled(seq!['1'], s, seq!['0'])
}

/// Dimmed text: SGR 2, reset with SGR 0.
pub open spec fn dim_text(s: Seq<char>) -> Seq<char> {
    styled(seq!['2'], s, seq!['0'])
}

/// Text in a foreground colour `code`, reset with SGR 39 (default colour).
pub open spec fn fg_text(code: Seq<char>, s: Seq<char>) -> Seq<char> {
    styled(code, s, seq!['3', '9'])
}

/// `owo_colors::OwoColorize::bold`, displayed: the text between `ESC[1m` and `ESC[0m`.
#[verifier::external_body]
fn owo_bold(s: &str) -> (r: String)
    ensures
        r@ == bold_text(s@),
{
    format!("{}", s.bold())
}

/// `owo_colors::OwoColorize::dimmed`, displayed: the text between `ESC[2m` and `ESC[0m`.
#[verifier::external_body]
fn owo_dimmed(s: &str) -> (r: String)
    ensures
        r@ == dim_text(s@),
{
    format!("{}", s.dimmed())
}

/// `owo_colors::OwoColorize::green`, displayed: the text between `ESC[32m` and `ESC[39m`.
#[verifier::external_body]
fn owo_green(s: &str) -> (r: String)
    ensures
        r@ == fg_text(seq!['3', '2'], s@),
{
    format!("{}", s.green())
}

/// `owo_colors::OwoColorize::yellow`, displayed: the text between `ESC[33m` and `ESC[39m`.
#[verifier::external_body]
fn owo_yellow(s: &str) -> (r: String)
    ensures
        r@ == fg_text(seq!['3', '3'], s@),
{
    format!("{}", s.yellow())
}

/// `owo_colors::OwoColorize::red`, displayed: the text between `ESC[31m` and `ESC[39m`.
#[verifier::external_body]
fn owo_red(s: &str) -> (r: String)
    ensures
        r@ == fg_text(seq!['3', '1'], s@),
{
    format!("{}", s.red())
}

/// `owo_colors::OwoColorize::cyan`, displayed: the text between `ESC[36m` and `ESC[39m`.
#[verifier::external_body]
fn owo_cyan(s: &str) -> (r: String)
    ensures
        r@ == fg_text(seq!['3', '6'], s@),
{
    format!("{}", s.cyan())
}

/// A heading: bold.
pub fn heading(s: &str) -> (r: String)
    ensures
        r@ == bold_text(s@),
{
    owo_bold(s)
}

/// A success message: green.
pub fn success(s: &str) -> (r: String)
    ensures
        r@ == fg_text(seq!['3', '2'], s@),
{
    owo_green(s)
}

/// A warning: yellow.
pub fn warning(s: &str) -> (r: String)
    ensures
        r@ == fg_text(seq!['3', '3'], s@),
{
    owo_yellow(s)
}

/// An error: red.
pub fn error(s: &str) -> (r: String)
    ensures
        r@ == fg_text(seq!['3', '1'], s@),
{
    owo_red(s)
}

/// Secondary text: dimmed.
pub fn dim(s: &str) -> (r: String)
    ensures
        r@ == dim_text(s@),
{
    owo_dimmed(s)
}

/// Information such as names and hashes: cyan.
pub fn info(s: &str) -> (r: String)
    ensures
        r@ == fg_text(seq!['3', '6'], s@),
{
    owo_cyan(s)
}

/// `"s"` unless the count is one.
pub open spec fn plural_s(n: int) -> Seq<char> {
    if n == 1 {
        Seq::empty()
    } else {
        "s"@
    }
}

/// `"<n> <unit>[s] ago"`.
pub open spec fn ago_text(n: int, unit: Seq<char>) -> Seq<char> {
    int_text(n) + " "@ + unit + plural_s(n) + " ago"@
}

/// How long ago something happened that is `secs` seconds old, in the
/// largest whole unit: minutes, hours, days, weeks, months of 30 days or
/// years of 365 days; anything younger than a minute (or in the future) is
/// "just now".
pub open spec fn age_text(secs: int) -> Seq<char> {
    if secs < 60 {
        "just now"@
    } else if secs < 3600 {
        ago_text(secs / 60, "minute"@)
    } else if secs < 86400 {
        ago_text(secs / 3600, "hour"@)
    } else if secs < 7 * 86400int {
        ago_text(secs / 86400, "day"@)
    } else if secs < 30 * 86400int {
        ago_text(secs / (7 * 86400int), "week"@)
    } else if secs < 365 * 86400int {
        ago_text(secs / (30 * 86400int), "month"@)
    } else {
        ago_text(secs / (365 * 86400int), "year"@)
    }
}

/// The age, as seen at `now`, of the moment `dt` (both in seconds since the Unix epoch).
pub open spec fn relative_text(now: int, dt: int) -> Seq<char> {
    age_text(now - dt)
}

fn ago_string(n: u128, unit: &str) -> (r: String)
    ensures
        r@ == ago_text(n as int, unit@),
{
    let mut s = decimal_string(n);
    s.append(" ");
    s.append(unit);
    if n != 1 {
        s.append("s");
    }
    s.append(" ago");
    assert(int_text(n as int) == decimal(n as nat));
    assert(s@ =~= ago_text(n as int, unit@));
    s
}

/// The age of a moment `dt` as seen at `now` (both in seconds since the Unix epoch).
pub fn relative_time_at(now: i64, dt: i64) -> (r: String)
    ensures
        r@ == relative_text(now as int, dt as int),
{
    let secs: i128 = now as i128 - dt as i128;
    if secs < 60 {
        to_string("just now")
    } else if secs < 3600 {
        ago_string((secs / 60) as u128, "minute")
    } else if secs < 86400 {
        ago_string((secs / 3600) as u128, "hour")
    } else if secs < 7 * 86400 {
        ago_string((secs / 86400) as u128, "day")
    } else if secs < 30 * 86400 {
        ago_string((secs / (7 * 86400)) as u128, "week")
    } else if secs < 365 * 86400 {
        ago_string((secs / (30 * 86400)) as u128, "month")
    } else {
        ago_string((secs / (365 * 86400)) as u128, "year")
    }
}

/// `chrono::Utc::now()`, as whole seconds since the Unix epoch. The value is
/// the machine's clock; all that is promised is that, being a `DateTime`
/// of chrono, it lies in the range chrono represents.
#[verifier::external_body]
pub(crate) fn now_timestamp() -> (r: i64)
    ensures
        utc_timestamp_valid(r),
{
    chrono::Utc::now().timestamp()
}

/// The age of the moment `dt` (seconds since the Unix epoch) as of the
/// current time.
pub fn relative_time(dt: i64) -> (r: String)
    ensures
        exists|now: i64| utc_timestamp_valid(now) && #[trigger] relative_text(now as int, dt as int) == r@,
{
    let now = now_timestamp();
    relative_time_at(now, dt)
}

} // verus!

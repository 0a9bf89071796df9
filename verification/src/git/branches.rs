//! Classifying local branches as merged, gone, stale or active.
use vstd::prelude::*;
use crate::display::theme::now_timestamp;
use crate::git::commits::{timestamp_is_valid, utc_timestamp_valid};

verus! {

broadcast use vstd::string::group_string_axioms;

/// Where a local branch stands.
#[derive(PartialEq, Eq, Structural, Clone, Copy, Debug)]
pub enum BranchState {
    /// Its tip is already contained in the base branch.
    Merged,
    /// It tracks an upstream branch that no longer exists.
    Gone,
    /// Its last commit is older than the stale threshold.
    Stale,
    /// None of the above.
    Active,
}

/// A local branch and where it stands.
pub struct BranchInfo {
    pub name: String,
    pub state: BranchState,
    /// Time of the last commit, in seconds since the Unix epoch.
    pub last_commit_date: i64,
    /// First line of the last commit's message.
    pub last_commit_msg: String,
    /// Whole days since the last commit.
    pub age_days: i64,
}

/// The abstract content of a `BranchInfo`.
pub struct BranchModel {
    pub name: Seq<char>,
    pub state: BranchState,
    pub last_commit_date: int,
    pub last_commit_msg: Seq<char>,
    pub age_days: int,
}

impl View for BranchInfo {
    type V = BranchModel;

    open spec fn view(&self) -> BranchModel {
        BranchModel {
            name: self.name@,
            state: self.state,
            last_commit_date: self.last_commit_date as int,
            last_commit_msg: self.last_commit_msg@,
            age_days: self.age_days as int,
        }
    }
}

/// The abstract branches.
pub open spec fn branches_model(branches: Seq<BranchInfo>) -> Seq<BranchModel> {
    branches.map_values(|b: BranchInfo| b@)
}

impl BranchInfo {
    /// A copy of the branch information.
    pub fn copy(&self) -> (r: BranchInfo)
        ensures
            r@ == self@,
    {
        BranchInfo {
            name: self.name.clone(),
            state: self.state,
            last_commit_date: self.last_commit_date,
            last_commit_msg: self.last_commit_msg.clone(),
            age_days: self.age_days,
        }
    }
}

/// What the repository tells about a local branch.
pub struct BranchFacts {
    pub name: String,
    /// Time of the tip commit, in seconds since the Unix epoch.
    pub commit_time: i64,
    /// First line of the tip commit's message, when it is valid UTF-8.
    pub summary: Option<String>,
    /// The branch tracks an upstream reference that no longer exists.
    pub gone: bool,
    /// Whether the tip is an ancestor of (or equal to) the base branch's tip;
    /// `None` when the base branch cannot be found.
    pub merged: Option<bool>,
}

/// `a / b` rounded toward zero, as Rust's integer division does.
pub open spec fn div_toward_zero(a: int, b: int) -> int {
    if a >= 0 {
        a / b
    } else {
        -((-a) / b)
    }
}

/// Where a branch stands: gone before merged, merged before stale; stale
/// when it has had no commit for `stale_days` whole days or more.
pub open spec fn branch_state(gone: bool, merged: Option<bool>, age_days: int, stale_days: u64) -> BranchState {
    if gone {
        BranchState::Gone
    } else if merged == Some(true) {
        BranchState::Merged
    } else if age_days >= stale_days as int {
        BranchState::Stale
    } else {
        BranchState::Active
    }
}

/// Where a branch stands.
pub fn classify(gone: bool, merged: Option<bool>, age_days: i64, stale_days: u64) -> (r: BranchState)
    ensures
        r == branch_state(gone, merged, age_days as int, stale_days),
{
    if gone {
        BranchState::Gone
    } else if merged == Some(true) {
        BranchState::Merged
    } else if age_days as i128 >= stale_days as i128 {
        BranchState::Stale
    } else {
        BranchState::Active
    }
}

/// Whole days from `date` to `now` (seconds since the Unix epoch), rounded toward zero.
pub fn age_in_days(now: i64, date: i64) -> (r: i64)
    ensures
        r == div_toward_zero(now - date, 86400),
{
    let secs: i128 = now as i128 - date as i128;
    if secs >= 0 {
        (secs / 86400) as i64
    } else {
        (0 - ((0 - secs) / 86400)) as i64
    }
}

/// What a branch listing shows of a branch, as of `now`: its last commit's
/// time (the current time, were chrono unable to represent it), message and
/// age in whole days, and where the branch stands.
pub open spec fn info_as_of(facts: BranchFacts, b: BranchModel, now: int, stale_days: u64) -> bool {
    &&& b.name == facts.name@
    &&& b.last_commit_date == if utc_timestamp_valid(facts.commit_time) {
        facts.commit_time as int
    } else {
        now
    }
    &&& b.last_commit_msg == match facts.summary {
        Some(m) => m@,
        None => Seq::<char>::empty(),
    }
    &&& b.age_days == div_toward_zero(now - b.last_commit_date, 86400)
    &&& b.state == branch_state(facts.gone, facts.merged, b.age_days, stale_days)
}

/// A listing of branches, one entry per branch in order, as of `now`.
pub open spec fn listing_as_of(facts: Seq<BranchFacts>, infos: Seq<BranchModel>, now: int, stale_days: u64) -> bool {
    &&& infos.len() == facts.len()
    &&& forall|i: int| 0 <= i < facts.len() ==> info_as_of(facts[i], #[trigger] infos[i], now, stale_days)
}

/// What a branch listing shows of a branch, as of `now`.
pub fn branch_info(facts: &BranchFacts, now: i64, stale_days: u64) -> (r: BranchInfo)
    ensures
        info_as_of(*facts, r@, now as int, stale_days),
{
    let last_commit_date = if timestamp_is_valid(facts.commit_time) {
        facts.commit_time
    } else {
        now
    };
    let last_commit_msg = match &facts.summary {
        Some(m) => m.clone(),
        None => String::new(),
    };
    let age_days = age_in_days(now, last_commit_date);
    let state = classify(facts.gone, facts.merged, age_days, stale_days);
    BranchInfo { name: facts.name.clone(), state, last_commit_date, last_commit_msg, age_days }
}

/// The branch listing, as of a moment read from the clock.
pub fn list_branch_infos(facts: &Vec<BranchFacts>, stale_days: u64) -> (r: Vec<BranchInfo>)
    ensures
        exists|now: i64| utc_timestamp_valid(now) && #[trigger] listing_as_of(facts@, branches_model(r@), now as int, stale_days),
{
    let now = now_timestamp();
    let mut out: Vec<BranchInfo> = Vec::new();
    let mut i: usize = 0;
    while i < facts.len()
        invariant
            i <= facts.len(),
            out@.len() == i,
            forall|k: int| 0 <= k < i ==> info_as_of(facts@[k], #[trigger] out@[k]@, now as int, stale_days),
        decreases facts.len() - i,
    {
        let b = branch_info(&facts[i], now, stale_days);
        out.push(b);
        i = i + 1;
    }
    assert(listing_as_of(facts@, branches_model(out@), now as int, stale_days));
    out
}

} // verus!

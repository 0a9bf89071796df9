//! `cleanup`: which branches may be offered for deletion.
use vstd::prelude::*;
use crate::git::branches::{branches_model, BranchInfo, BranchModel, BranchState};
use crate::text::{contains_string, decimal_string, strings_view, to_string};

verus! {

broadcast use vstd::string::group_string_axioms;

/// A branch may be offered for deletion when it is not the current branch,
/// not protected, and not active.
pub open spec fn cleanup_eligible(b: BranchModel, current: Seq<char>, protected: Seq<Seq<char>>) -> bool {
    b.name != current && !protected.contains(b.name) && b.state != BranchState::Active
}

/// The branches that may be offered for deletion, in order.
pub open spec fn eligible_branches(bs: Seq<BranchModel>, current: Seq<char>, protected: Seq<Seq<char>>) -> Seq<BranchModel>
    decreases bs.len(),
{
    if bs.len() == 0 {
        seq![]
    } else if cleanup_eligible(bs.last(), current, protected) {
        eligible_branches(bs.drop_last(), current, protected).push(bs.last())
    } else {
        eligible_branches(bs.drop_last(), current, protected)
    }
}

/// The branches that cleanup offers for deletion: all but the current
/// branch, the protected branches and the active ones, in order.
pub fn cleanup_candidates(branches: &Vec<BranchInfo>, current: &str, protected: &Vec<String>) -> (r: Vec<BranchInfo>)
    ensures
        branches_model(r@) == eligible_branches(branches_model(branches@), current@, strings_view(protected@)),
{
    let ghost bm = branches_model(branches@);
    let ghost pm = strings_view(protected@);
    let mut out: Vec<BranchInfo> = Vec::new();
    let mut i: usize = 0;
    assert(branches_model(out@) =~= eligible_branches(bm.take(0), current@, pm));
    while i < branches.len()
        invariant
            i <= branches.len(),
            bm == branches_model(branches@),
            pm == strings_view(protected@),
            branches_model(out@) == eligible_branches(bm.take(i as int), current@, pm),
        decreases branches.len() - i,
    {
        assert(bm.take(i + 1).drop_last() =~= bm.take(i as int));
        assert(bm.take(i + 1).last() == branches@[i as int]@);
        let b = &branches[i];
        let is_current = b.name == to_string(current);
        if !is_current && !contains_string(protected, b.name.as_str()) && b.state != BranchState::Active {
            let ghost before = out@;
            out.push(b.copy());
            assert(branches_model(out@) =~= branches_model(before).push(b@));
        }
        i = i + 1;
    }
    assert(bm.take(branches.len() as int) =~= bm);
    out
}

/// Every branch that cleanup offers is eligible: never the current branch,
/// never a protected branch, never an active branch.
pub proof fn cleanup_offers_only_eligible(bs: Seq<BranchModel>, current: Seq<char>, protected: Seq<Seq<char>>, k: int)
    requires
        0 <= k < eligible_branches(bs, current, protected).len(),
    ensures
        cleanup_eligible(eligible_branches(bs, current, protected)[k], current, protected),
        bs.contains(eligible_branches(bs, current, protected)[k]),
    decreases bs.len(),
{
    let rest = eligible_branches(bs.drop_last(), current, protected);
    if k < rest.len() {
        cleanup_offers_only_eligible(bs.drop_last(), current, protected, k);
        let w = choose|j: int| 0 <= j < bs.drop_last().len() && bs.drop_last()[j] == rest[k];
        assert(bs[w] == rest[k]);
    } else {
        assert(bs[bs.len() - 1] == bs.last());
    }
}

/// Every eligible branch is offered by cleanup.
pub proof fn cleanup_offers_every_eligible(bs: Seq<BranchModel>, current: Seq<char>, protected: Seq<Seq<char>>, k: int)
    requires
        0 <= k < bs.len(),
        cleanup_eligible(bs[k], current, protected),
    ensures
        eligible_branches(bs, current, protected).contains(bs[k]),
    decreases bs.len(),
{
    let rest = eligible_branches(bs.drop_last(), current, protected);
    if k < bs.len() - 1 {
        cleanup_offers_every_eligible(bs.drop_last(), current, protected, k);
        let w = choose|j: int| 0 <= j < rest.len() && rest[j] == bs.drop_last()[k];
        assert(eligible_branches(bs, current, protected)[w] == bs[k]);
    } else {
        let all = eligible_branches(bs, current, protected);
        assert(all[all.len() - 1] == bs[k]);
    }
}

/// The name of a branch state, as `Debug` writes it.
pub open spec fn state_name(s: BranchState) -> Seq<char> {
    match s {
        BranchState::Merged => "Merged"@,
        BranchState::Gone => "Gone"@,
        BranchState::Stale => "Stale"@,
        BranchState::Active => "Active"@,
    }
}

/// The name of a branch state.
pub fn state_label(s: BranchState) -> (r: String)
    ensures
        r@ == state_name(s),
{
    match s {
        BranchState::Merged => to_string("Merged"),
        BranchState::Gone => to_string("Gone"),
        BranchState::Stale => to_string("Stale"),
        BranchState::Active => to_string("Active"),
    }
}

/// How a candidate is listed for selection: `name (State)`.
pub fn candidate_label(b: &BranchInfo) -> (r: String)
    ensures
        r@ == b.name@ + " ("@ + state_name(b.state) + ")"@,
{
    let mut r = b.name.clone();
    r.append(" (");
    r.append(state_label(b.state).as_str());
    r.append(")");
    r
}

/// The confirmation question before deleting `n` branches.
pub fn delete_prompt(n: usize) -> (r: String)
    ensures
        r@ == "Delete "@ + crate::text::decimal(n as nat) + " branch"@ + (if n == 1 {
            Seq::<char>::empty()
        } else {
            "es"@
        }) + "? This cannot be undone."@,
{
    let mut r = to_string("Delete ");
    r.append(decimal_string(n as u128).as_str());
    r.append(" branch");
    if n != 1 {
        r.append("es");
    }
    r.append("? This cannot be undone.");
    r
}

/// Cleanup offers every merged, gone or stale branch that is neither the
/// current branch nor protected.
pub proof fn cleanup_offers_merged_gone_stale(bs: Seq<BranchModel>, current: Seq<char>, protected: Seq<Seq<char>>, k: int)
    requires
        0 <= k < bs.len(),
        bs[k].name != current,
        !protected.contains(bs[k].name),
        bs[k].state == BranchState::Merged || bs[k].state == BranchState::Gone || bs[k].state == BranchState::Stale,
    ensures
        eligible_branches(bs, current, protected).contains(bs[k]),
{
    cleanup_offers_every_eligible(bs, current, protected, k);
}

/// Everything cleanup offers is one of the branches, merged, gone or stale,
/// and neither the current branch nor protected.
pub proof fn cleanup_offers_nothing_else(bs: Seq<BranchModel>, current: Seq<char>, protected: Seq<Seq<char>>, k: int)
    requires
        0 <= k < eligible_branches(bs, current, protected).len(),
    ensures
        ({
            let b = eligible_branches(bs, current, protected)[k];
            &&& bs.contains(b)
            &&& b.name != current
            &&& !protected.contains(b.name)
            &&& (b.state == BranchState::Merged || b.state == BranchState::Gone || b.state == BranchState::Stale)
        }),
{
    cleanup_offers_only_eligible(bs, current, protected, k);
}

} // verus!

//! Whether a newer release than the running one has been published.
use vstd::prelude::*;
use crate::text::{str_eq, to_string};

verus! {

/// A newer release is announced when the latest published version differs
/// from the running one.
pub fn newer_release(latest: &str, current: &str) -> (r: Option<String>)
    ensures
        r matches Some(v) ==> v@ == latest@ && latest@ != current@,
        r is None ==> latest@ == current@,
{
    if str_eq(latest, current) {
        None
    } else {
        Some(to_string(latest))
    }
}

} // verus!

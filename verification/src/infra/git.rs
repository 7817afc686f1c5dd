//! Classifying whether one branch can be fast-forwarded to another.

use vstd::prelude::*;

use crate::domain::string_eq;
use crate::domain::traits::FfStatus;

verus! {

/// The status when both branches are at the same commit: `InSync`;
/// otherwise the merge base decides (`None`).
pub fn ff_status_at(from_sha: &String, to_sha: &str) -> (r: Option<FfStatus>)
    ensures
        from_sha@ == to_sha@ <==> r == Some(FfStatus::InSync),
        r is None <==> from_sha@ != to_sha@,
{
    if string_eq(from_sha, to_sha) {
        Some(FfStatus::InSync)
    } else {
        None
    }
}

/// With different commits: `Promotable` when the target's commit is the
/// merge base (the target is an ancestor of the source), else
/// `Diverged`.
pub fn ff_status_from_base(base_sha: &String, to_sha: &str) -> (r: FfStatus)
    ensures
        base_sha@ == to_sha@ ==> r == FfStatus::Promotable,
        base_sha@ != to_sha@ ==> r == FfStatus::Diverged,
{
    if string_eq(base_sha, to_sha) {
        FfStatus::Promotable
    } else {
        FfStatus::Diverged
    }
}

} // verus!

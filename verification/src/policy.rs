//! The constants of the protocol that the validator depends on.
use vstd::prelude::*;

verus! {

/// Number of slots in the committee of one epoch.
pub const ACTIVE_VALIDATORS: u16 = 512;

/// The least number of slots that is strictly more than two thirds of the
/// committee.
pub const TWO_THIRD_VALIDATORS: u16 = 342;

/// Whether `votes` slots are strictly more than two thirds of the committee.
pub open spec fn spec_is_super_majority(votes: nat) -> bool {
    3 * votes > 2 * (ACTIVE_VALIDATORS as nat)
}

/// Decides whether `votes` slots form a super-majority of the committee.
pub fn is_super_majority(votes: u16) -> (r: bool)
    ensures
        r == spec_is_super_majority(votes as nat),
        r == (votes >= TWO_THIRD_VALIDATORS),
{
    votes >= TWO_THIRD_VALIDATORS
}

} // verus!

//! The committee of an epoch: its slots, its validators and their votes.
use vstd::prelude::*;
use crate::crypto::PublicKey;
use crate::policy::{ACTIVE_VALIDATORS, is_super_majority};
use crate::signers::Signers;

verus! {

/// The address of an account.
#[derive(Clone, Copy, Debug, PartialEq, Eq, Hash)]
pub struct Address {
    pub bytes: [u8; 20],
}

/// One slot of the committee.
#[derive(Clone, Copy, Debug, PartialEq, Eq)]
pub struct Slot {
    pub public_key: PublicKey,
    pub reward_address: Address,
    pub staker_address: Address,
}

/// The slots of an epoch, in their order.
pub type Slots = [Slot; 512];

/// A validator of the committee: its key and the number of slots it holds.
#[derive(Clone, Copy, Debug, PartialEq, Eq)]
pub struct Validator {
    pub public_key: PublicKey,
    pub slots: u16,
}

/// The validators of an epoch, in their order.
pub type Validators = Vec<Validator>;

/// The slots that the validators of a list hold together.
pub open spec fn total_slots(validators: Seq<Validator>) -> nat
    decreases validators.len(),
{
    if validators.len() == 0 {
        0
    } else {
        total_slots(validators.drop_last()) + validators.last().slots as nat
    }
}

/// Whether a list of validators is the committee of an epoch: together they
/// hold exactly `ACTIVE_VALIDATORS` slots.
pub open spec fn is_committee(validators: Seq<Validator>) -> bool {
    total_slots(validators) == ACTIVE_VALIDATORS
}

/// The slots of those validators whose index is among `signers`.
pub open spec fn votes(validators: Seq<Validator>, signers: Set<nat>) -> nat
    decreases validators.len(),
{
    if validators.len() == 0 {
        0
    } else {
        votes(validators.drop_last(), signers) + if signers.contains(
            (validators.len() - 1) as nat,
        ) {
            validators.last().slots as nat
        } else {
            0
        }
    }
}

/// The position of `key` in the list: the least index whose validator has
/// that key, or nothing where no validator has it.
pub open spec fn spec_position(validators: Seq<Validator>, key: Seq<u8>) -> Option<nat>
    decreases validators.len(),
{
    if validators.len() == 0 {
        None
    } else {
        match spec_position(validators.drop_last(), key) {
            Some(i) => Some(i),
            None => if validators.last().public_key@ == key {
                Some((validators.len() - 1) as nat)
            } else {
                None
            },
        }
    }
}

/// The votes of any signers are no more than all slots.
pub proof fn lemma_votes_bound(validators: Seq<Validator>, signers: Set<nat>)
    ensures
        votes(validators, signers) <= total_slots(validators),
    decreases validators.len(),
{
    if validators.len() > 0 {
        lemma_votes_bound(validators.drop_last(), signers);
    }
}

/// More signers have no fewer votes.
pub proof fn lemma_votes_monotonic(validators: Seq<Validator>, fewer: Set<nat>, more: Set<nat>)
    requires
        fewer.subset_of(more),
    ensures
        votes(validators, fewer) <= votes(validators, more),
    decreases validators.len(),
{
    if validators.len() > 0 {
        lemma_votes_monotonic(validators.drop_last(), fewer, more);
    }
}

/// A position that was found is the least index at which the key stands;
/// where none was found the key stands nowhere.
pub proof fn lemma_position(validators: Seq<Validator>, key: Seq<u8>)
    ensures
        match spec_position(validators, key) {
            Some(i) => i < validators.len() && validators[i as int].public_key@ == key
                && forall|j: int| 0 <= j < i ==> validators[j].public_key@ != key,
            None => forall|j: int| 0 <= j < validators.len() ==> validators[j].public_key@ != key,
        },
    decreases validators.len(),
{
    if validators.len() > 0 {
        let front = validators.drop_last();
        lemma_position(front, key);
        assert forall|j: int| 0 <= j < front.len() implies front[j] == validators[j] by {}
        match spec_position(front, key) {
            Some(i) => {
                assert(front[i as int] == validators[i as int]);
            },
            None => {
                assert forall|j: int| 0 <= j < front.len() implies validators[j].public_key@
                    != key by {
                    assert(front[j].public_key@ != key);
                }
            },
        }
    }
}

/// Adds up the slots of all validators, where the sum fits 32 bits.
pub fn count_slots(validators: &Vec<Validator>) -> (total: Option<u32>)
    ensures
        match total {
            Some(n) => n == total_slots(validators@),
            None => total_slots(validators@) > u32::MAX,
        },
{
    let mut total: u32 = 0;
    let mut i: usize = 0;
    assert(validators@.take(0) =~= Seq::<Validator>::empty());
    while i < validators.len()
        invariant
            i <= validators.len(),
            total == total_slots(validators@.take(i as int)),
        decreases validators.len() - i,
    {
        proof {
            assert(validators@.take(i + 1).drop_last() =~= validators@.take(i as int));
        }
        let slots = validators[i].slots as u32;
        if slots > u32::MAX - total {
            proof {
                lemma_total_slots_monotonic(validators@, (i + 1) as nat);
            }
            return None;
        }
        total = total + slots;
        i = i + 1;
    }
    assert(validators@.take(i as int) =~= validators@);
    Some(total)
}

/// The slots of the first `n` validators are no more than the slots of all.
pub proof fn lemma_total_slots_monotonic(validators: Seq<Validator>, n: nat)
    requires
        n <= validators.len(),
    ensures
        total_slots(validators.take(n as int)) <= total_slots(validators),
    decreases validators.len(),
{
    if n < validators.len() {
        lemma_total_slots_monotonic(validators.drop_last(), n);
        assert(validators.drop_last().take(n as int) =~= validators.take(n as int));
    } else {
        assert(validators.take(n as int) =~= validators);
    }
}

/// Whether the validators are the committee of an epoch.
pub fn check_committee(validators: &Vec<Validator>) -> (ok: bool)
    ensures
        ok == is_committee(validators@),
{
    match count_slots(validators) {
        Some(n) => n == ACTIVE_VALIDATORS as u32,
        None => false,
    }
}

/// Finds the validator with the key `key`: the first one, where several
/// have it.
pub fn position(validators: &Vec<Validator>, key: &PublicKey) -> (found: Option<usize>)
    ensures
        match spec_position(validators@, key@) {
            Some(i) => found == Some(i as usize),
            None => found.is_none(),
        },
        match found {
            Some(i) => i < validators.len() && validators[i as int].public_key@ == key@
                && forall|j: int| 0 <= j < i ==> validators[j].public_key@ != key@,
            None => forall|j: int| 0 <= j < validators.len() ==> validators[j].public_key@ != key@,
        },
{
    proof {
        lemma_position(validators@, key@);
    }
    let mut i: usize = 0;
    assert(validators@.take(0) =~= Seq::<Validator>::empty());
    while i < validators.len()
        invariant
            i <= validators.len(),
            spec_position(validators@.take(i as int), key@).is_none(),
        decreases validators.len() - i,
    {
        proof {
            assert(validators@.take(i + 1).drop_last() =~= validators@.take(i as int));
        }
        if validators[i].public_key.same(key) {
            proof {
                lemma_position_extends(validators@, (i + 1) as nat, key@);
                assert(spec_position(validators@, key@) == Some(i as nat));
                lemma_position(validators@, key@);
            }
            return Some(i);
        }
        i = i + 1;
    }
    assert(validators@.take(i as int) =~= validators@);
    None
}

/// A position found among the first `n` validators is the position in the
/// whole list.
pub proof fn lemma_position_extends(validators: Seq<Validator>, n: nat, key: Seq<u8>)
    requires
        n <= validators.len(),
        spec_position(validators.take(n as int), key).is_some(),
    ensures
        spec_position(validators, key) == spec_position(validators.take(n as int), key),
    decreases validators.len(),
{
    if n < validators.len() {
        assert(validators.drop_last().take(n as int) =~= validators.take(n as int));
        lemma_position_extends(validators.drop_last(), n, key);
    } else {
        assert(validators.take(n as int) =~= validators);
    }
}

/// Adds up the slots of the validators that are among `signers`. In a
/// committee the sum is at most `ACTIVE_VALIDATORS`.
pub fn count_votes(validators: &Vec<Validator>, signers: &Signers) -> (total: u16)
    requires
        is_committee(validators@),
    ensures
        total == votes(validators@, signers@),
        total <= ACTIVE_VALIDATORS,
{
    let mut total: u16 = 0;
    let mut i: usize = 0;
    assert(validators@.take(0) =~= Seq::<Validator>::empty());
    while i < validators.len()
        invariant
            i <= validators.len(),
            is_committee(validators@),
            total == votes(validators@.take(i as int), signers@),
        decreases validators.len() - i,
    {
        proof {
            assert(validators@.take(i + 1).drop_last() =~= validators@.take(i as int));
            lemma_votes_bound(validators@.take(i + 1), signers@);
            lemma_total_slots_monotonic(validators@, (i + 1) as nat);
        }
        if signers.contains_position(i) {
            total = total + validators[i].slots;
        }
        i = i + 1;
    }
    proof {
        assert(validators@.take(i as int) =~= validators@);
        lemma_votes_bound(validators@, signers@);
    }
    total
}

/// Whether the validators among `signers` hold strictly more than two
/// thirds of the committee's slots.
pub fn has_super_majority(validators: &Vec<Validator>, signers: &Signers) -> (reached: bool)
    requires
        is_committee(validators@),
    ensures
        reached == (3 * votes(validators@, signers@) > 2 * ACTIVE_VALIDATORS),
{
    is_super_majority(count_votes(validators, signers))
}

} // verus!

//! Votes of the committee: how a validator casts its own, and how the votes
//! for one message are checked and aggregated until a super-majority of the
//! slots has voted.
use vstd::prelude::*;
use crate::codec::bytes_equal;
use crate::crypto::{SecretKey, blake2b, bls_signature, bls_verifies};
use crate::policy::ACTIVE_VALIDATORS;
use crate::signed::{AggregateProof, AggregateView, Message, SignedMessage, signing_payload,
    spec_add_signature};
use crate::validators::{Validator, has_super_majority, is_committee, votes};

verus! {

/// Signs `message` as the validator at position `validator_id` of the
/// committee. There is no vote where `secret_key` is not the encoding of a
/// scalar.
pub fn cast_vote<M: Message>(message: M, validator_id: u16, secret_key: &SecretKey) -> (vote: Option<
    SignedMessage<M>,
>)
    ensures
        match bls_signature(
            secret_key@,
            blake2b(signing_payload(M::spec_prefix(), message.content())),
        ) {
            Some(s) => vote.is_some() && vote.unwrap().message == message && vote.unwrap().pk_idx
                == validator_id && vote.unwrap().signature@ == s,
            None => vote.is_none(),
        },
{
    match message.sign(secret_key) {
        Some(signature) => Some(SignedMessage { message, pk_idx: validator_id, signature }),
        None => None,
    }
}

/// The votes of the committee for one message, as they come in.
pub struct VoteAggregator<M: Message> {
    /// The message that is voted for.
    pub message: M,
    /// The votes so far.
    pub proof: AggregateProof<M>,
}

/// What became of a vote.
#[derive(Clone, Copy, Debug, PartialEq, Eq)]
pub struct VoteOutcome {
    /// Whether the vote was for the message, came from a member of the
    /// committee and carried that member's valid signature.
    pub accepted: bool,
    /// Whether the members that have voted by now hold a super-majority of
    /// the slots.
    pub complete: bool,
}

/// Whether a vote is worth checking its signature: it is for `message`, and
/// its signer is a validator of the list.
pub open spec fn spec_is_candidate<M: Message>(
    message: M,
    validators: Seq<Validator>,
    signed: SignedMessage<M>,
) -> bool {
    &&& signed.pk_idx < validators.len()
    &&& signed.message.content() == message.content()
}

/// Whether a vote counts: it is for `message`, its signer is a validator of
/// the list, and the signature is that validator's over the message under
/// the prefix of its kind.
pub open spec fn spec_accepts_vote<M: Message>(
    message: M,
    validators: Seq<Validator>,
    signed: SignedMessage<M>,
) -> bool {
    &&& spec_is_candidate(message, validators, signed)
    &&& bls_verifies(
        validators[signed.pk_idx as int].public_key@,
        blake2b(signing_payload(M::spec_prefix(), signed.message.content())),
        signed.signature@,
    )
}

/// The votes after `signed` came in.
pub open spec fn spec_votes_after<M: Message>(
    message: M,
    proof_: AggregateView,
    validators: Seq<Validator>,
    signed: SignedMessage<M>,
) -> AggregateView {
    if spec_accepts_vote(message, validators, signed) {
        spec_add_signature(
            proof_,
            validators[signed.pk_idx as int].public_key@,
            signed.pk_idx,
            signed.signature@,
        )
    } else {
        proof_
    }
}

/// Whether the signers of a proof hold strictly more than two thirds of the
/// committee's slots.
pub open spec fn spec_complete(validators: Seq<Validator>, proof_: AggregateView) -> bool {
    3 * votes(validators, proof_.signers) > 2 * ACTIVE_VALIDATORS
}

impl<M: Message> VoteAggregator<M> {
    /// The aggregator for `message`, with no vote yet.
    pub fn new(message: M) -> (aggregator: Self)
        ensures
            aggregator.message == message,
            aggregator.proof@ == AggregateProof::<M>::spec_empty(),
    {
        VoteAggregator { message, proof: AggregateProof::new() }
    }

    /// Takes a vote. A vote that counts is added to the proof; any other
    /// vote is dropped. A second vote of the same member changes nothing.
    pub fn add_vote(&mut self, validators: &Vec<Validator>, signed: &SignedMessage<M>) -> (outcome:
        VoteOutcome)
        requires
            is_committee(validators@),
        ensures
            final(self).message == old(self).message,
            outcome.accepted == spec_accepts_vote(old(self).message, validators@, *signed),
            final(self).proof@ == spec_votes_after(
                old(self).message,
                old(self).proof@,
                validators@,
                *signed,
            ),
            outcome.complete == spec_complete(validators@, final(self).proof@),
    {
        let mut accepted = false;
        if self.is_candidate(validators, signed) {
            let key = &validators[signed.pk_idx as usize].public_key;
            if signed.verify(key) {
                accepted = true;
                self.proof.add_signature(key, signed);
            }
        }
        let complete = has_super_majority(validators, &self.proof.signers);
        VoteOutcome { accepted, complete }
    }

    /// Whether a vote is worth checking its signature: it is for the
    /// message of this aggregator, and its signer is a validator of the
    /// list.
    pub fn is_candidate(&self, validators: &Vec<Validator>, signed: &SignedMessage<M>) -> (candidate:
        bool)
        ensures
            candidate == spec_is_candidate(self.message, validators@, *signed),
    {
        if signed.pk_idx as usize >= validators.len() {
            return false;
        }
        let mut theirs: Vec<u8> = Vec::new();
        signed.message.serialize_content(&mut theirs);
        let mut ours: Vec<u8> = Vec::new();
        self.message.serialize_content(&mut ours);
        assert(theirs@ =~= signed.message.content());
        assert(ours@ =~= self.message.content());
        bytes_equal(theirs.as_slice(), ours.as_slice())
    }
}

/// A proof that is complete stays complete whatever vote comes in next:
/// votes are only ever added.
pub proof fn lemma_complete_is_stable<M: Message>(
    message: M,
    proof_: AggregateView,
    validators: Seq<Validator>,
    signed: SignedMessage<M>,
)
    requires
        spec_complete(validators, proof_),
    ensures
        proof_.signers.subset_of(spec_votes_after(message, proof_, validators, signed).signers),
        spec_complete(validators, spec_votes_after(message, proof_, validators, signed)),
{
    crate::validators::lemma_votes_monotonic(
        validators,
        proof_.signers,
        spec_votes_after(message, proof_, validators, signed).signers,
    );
}

impl<M: Message> VoteAggregator<M> {
    /// The proof of the decision: a copy of the votes, once the members that
    /// have voted hold a super-majority of the slots; nothing before.
    pub fn decision(&self, validators: &Vec<Validator>) -> (proof_: Option<AggregateProof<M>>)
        requires
            is_committee(validators@),
        ensures
            proof_.is_some() == spec_complete(validators@, self.proof@),
            proof_.is_some() ==> proof_.unwrap()@ == self.proof@,
    {
        if has_super_majority(validators, &self.proof.signers) {
            Some(self.proof.duplicate())
        } else {
            None
        }
    }
}

} // verus!

//! The decisions of the micro block producer: produce when it is the
//! validator's turn, otherwise wait, and when the wait was in vain ask for
//! a view change and collect the committee's signatures until a
//! super-majority has signed.
use vstd::prelude::*;
use crate::block::ForkProof;
use crate::crypto::{SecretKey, blake2b, bls_signature};
use crate::messages::ViewChange;
use crate::signed::{AggregateProof, AggregateView, Message, SignedMessage, signing_payload};
use crate::validator::{ProduceMicroBlockEvent, ViewChangeProof, VIEW_CHANGE_DELAY};
use crate::validators::{Validator, is_committee};
use crate::votes::{VoteAggregator, cast_vote, spec_complete, spec_votes_after};

verus! {

/// What the producer does at the start of its slot.
#[derive(Clone, Copy, Debug, PartialEq, Eq)]
pub enum SlotStart {
    /// It is the validator's turn: build, sign and emit the micro block.
    Produce,
    /// It is another validator's turn: wait for the block, for so many
    /// seconds.
    Wait(u64),
}

/// What the producer does when the wait for a block was in vain.
pub struct TimeoutOutcome {
    /// The validator's own signed view change, to be sent to the committee.
    pub gossip: Option<SignedMessage<ViewChange>>,
    /// The view change with its proof, where the validator's own vote
    /// completes it.
    pub event: Option<ProduceMicroBlockEvent>,
}

/// The producer of the micro block with number `block_number`.
pub struct ProduceMicroBlock {
    pub validator_id: u16,
    pub block_number: u32,
    pub view_number: u32,
    /// The fork proofs that go into the block.
    pub fork_proofs: Vec<ForkProof>,
    /// The proof of the view change that led to `view_number`, if any.
    pub view_change_proof: Option<ViewChangeProof>,
    pub view_change: Option<ViewChange>,
    /// The votes for the next view change, once the wait was in vain.
    pub next_view_change: Option<VoteAggregator<ViewChange>>,
}

/// The view change that a producer asks for when its wait was in vain.
pub open spec fn spec_next_view_change(block_number: u32, view_number: u32) -> ViewChange {
    ViewChange { block_number, new_view_number: (view_number + 1) as u32 }
}

/// Whether `event` is the view change `view_change` with a proof that holds
/// `proof_`.
pub open spec fn is_view_change_event(
    event: ProduceMicroBlockEvent,
    view_change: ViewChange,
    proof_: AggregateView,
) -> bool {
    match event {
        ProduceMicroBlockEvent::ViewChange(vc, p) => vc == view_change && p@ == proof_,
        _ => false,
    }
}

impl ProduceMicroBlock {
    /// The producer of the block `block_number` under the view
    /// `view_number`.
    pub fn new(
        validator_id: u16,
        block_number: u32,
        fork_proofs: Vec<ForkProof>,
        view_number: u32,
        view_change_proof: Option<ViewChangeProof>,
        view_change: Option<ViewChange>,
    ) -> (producer: ProduceMicroBlock)
        ensures
            producer.validator_id == validator_id,
            producer.block_number == block_number,
            producer.view_number == view_number,
            producer.fork_proofs == fork_proofs,
            producer.view_change_proof == view_change_proof,
            producer.view_change == view_change,
            producer.next_view_change.is_none(),
    {
        ProduceMicroBlock {
            validator_id,
            block_number,
            view_number,
            fork_proofs,
            view_change_proof,
            view_change,
            next_view_change: None,
        }
    }

    /// Decides what to do at the start of the slot. `is_producer` tells
    /// whether the validator is the elected producer of the block under the
    /// current view.
    pub fn start(&self, is_producer: bool) -> (step: SlotStart)
        ensures
            step == if is_producer {
                SlotStart::Produce
            } else {
                SlotStart::Wait(VIEW_CHANGE_DELAY)
            },
    {
        if is_producer {
            SlotStart::Produce
        } else {
            SlotStart::Wait(VIEW_CHANGE_DELAY)
        }
    }

    /// The wait for the block was in vain. The validator signs the change
    /// to the next view, counts its own vote and hands the signed view
    /// change out to be sent to the committee. Nothing happens where no
    /// view follows the current one, where the secret key signs nothing, or
    /// where the producer asked for the view change before.
    pub fn on_timeout(&mut self, validators: &Vec<Validator>, secret_key: &SecretKey) -> (outcome:
        TimeoutOutcome)
        requires
            is_committee(validators@),
        ensures
            final(self).validator_id == old(self).validator_id,
            final(self).block_number == old(self).block_number,
            final(self).view_number == old(self).view_number,
            final(self).fork_proofs == old(self).fork_proofs,
            final(self).view_change_proof == old(self).view_change_proof,
            final(self).view_change == old(self).view_change,
            ({
                let vc = spec_next_view_change(old(self).block_number, old(self).view_number);
                let signature = bls_signature(
                    secret_key@,
                    blake2b(signing_payload(ViewChange::spec_prefix(), vc.content())),
                );
                if old(self).view_number == u32::MAX || old(self).next_view_change.is_some()
                    || signature.is_none() {
                    &&& outcome.gossip.is_none()
                    &&& outcome.event.is_none()
                    &&& final(self).next_view_change == old(self).next_view_change
                } else {
                    &&& outcome.gossip.is_some()
                    &&& outcome.gossip.unwrap().message == vc
                    &&& outcome.gossip.unwrap().pk_idx == old(self).validator_id
                    &&& outcome.gossip.unwrap().signature@ == signature.unwrap()
                    &&& final(self).next_view_change.is_some()
                    &&& final(self).next_view_change.unwrap().message == vc
                    &&& final(self).next_view_change.unwrap().proof@ == spec_votes_after(
                        vc,
                        AggregateProof::<ViewChange>::spec_empty(),
                        validators@,
                        outcome.gossip.unwrap(),
                    )
                    &&& outcome.event.is_some() == spec_complete(
                        validators@,
                        final(self).next_view_change.unwrap().proof@,
                    )
                    &&& outcome.event.is_some() ==> is_view_change_event(
                        outcome.event.unwrap(),
                        vc,
                        final(self).next_view_change.unwrap().proof@,
                    )
                }
            }),
    {
        if self.view_number == u32::MAX || self.next_view_change.is_some() {
            return TimeoutOutcome { gossip: None, event: None };
        }
        let vc = ViewChange { block_number: self.block_number, new_view_number: self.view_number + 1 };
        let signed = match cast_vote(vc, self.validator_id, secret_key) {
            Some(s) => s,
            None => { return TimeoutOutcome { gossip: None, event: None }; },
        };
        let mut aggregator = VoteAggregator::new(vc);
        let vote = aggregator.add_vote(validators, &signed);
        let event = if vote.complete {
            Some(ProduceMicroBlockEvent::ViewChange(vc, aggregator.proof.duplicate()))
        } else {
            None
        };
        self.next_view_change = Some(aggregator);
        TimeoutOutcome { gossip: Some(signed), event }
    }

    /// A signed view change came in from the committee. Once the producer
    /// has asked for the view change itself, votes that count are added;
    /// the view change is emitted with its proof as soon as the vote that
    /// came in has left the proof with a super-majority.
    pub fn on_view_change(&mut self, validators: &Vec<Validator>, signed: &SignedMessage<ViewChange>)
        -> (event: Option<ProduceMicroBlockEvent>)
        requires
            is_committee(validators@),
        ensures
            final(self).validator_id == old(self).validator_id,
            final(self).block_number == old(self).block_number,
            final(self).view_number == old(self).view_number,
            final(self).fork_proofs == old(self).fork_proofs,
            final(self).view_change_proof == old(self).view_change_proof,
            final(self).view_change == old(self).view_change,
            match old(self).next_view_change {
                None => event.is_none() && final(self).next_view_change.is_none(),
                Some(before) => {
                    &&& final(self).next_view_change.is_some()
                    &&& final(self).next_view_change.unwrap().message == before.message
                    &&& final(self).next_view_change.unwrap().proof@ == spec_votes_after(
                        before.message,
                        before.proof@,
                        validators@,
                        *signed,
                    )
                    &&& event.is_some() == spec_complete(
                        validators@,
                        final(self).next_view_change.unwrap().proof@,
                    )
                    &&& event.is_some() ==> is_view_change_event(
                        event.unwrap(),
                        before.message,
                        final(self).next_view_change.unwrap().proof@,
                    )
                },
            },
    {
        let taken = self.next_view_change.take();
        match taken {
            None => None,
            Some(mut aggregator) => {
                let vote = aggregator.add_vote(validators, signed);
                let event = if vote.complete {
                    Some(
                        ProduceMicroBlockEvent::ViewChange(
                            aggregator.message,
                            aggregator.proof.duplicate(),
                        ),
                    )
                } else {
                    None
                };
                self.next_view_change = Some(aggregator);
                event
            },
        }
    }
}

} // verus!

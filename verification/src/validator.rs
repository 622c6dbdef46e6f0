//! The validator itself: what it keeps, and what it decides when consensus,
//! the blockchain or one of its block producers reports an event.
//!
//! The validator does no I/O. Whoever runs it reads the blockchain, hands
//! each event to the function that handles it and carries out what that
//! function returns: start a producer, push a block, write the macro state,
//! publish.
use vstd::prelude::*;
use crate::block::{Block, BlockType, ForkProof, ForkProofView, MacroBlock, MicroBlock,
    block_fork_proofs};
use crate::crypto::{KeyPair, PublicKey};
use crate::macro_state::{PersistedMacroState, TendermintStateUpdate, resume, spec_resume};
use crate::messages::ViewChange;
use crate::policy::ACTIVE_VALIDATORS;
use crate::signed::AggregateProof;
use crate::slash::{ForkProofPool, chain_contents, contents, lemma_apply_chain,
    lemma_revert_chain, proof_views, spec_apply_chain, spec_insert, spec_rebranch,
    spec_remove_all, spec_revert_chain, total_size};
use crate::validators::{Validator as CommitteeMember, position, spec_position};

verus! {

/// The time that a micro block may take before the validators move to the
/// next view, in seconds.
pub const VIEW_CHANGE_DELAY: u64 = 10;

/// The most bytes of fork proofs that go into one block.
pub const FORK_PROOFS_MAX_SIZE: usize = 1_000;

/// The topic on which proposals for macro blocks are gossiped.
pub struct ProposalTopic;

/// The topic on which blocks are gossiped.
pub struct BlockTopic;

impl ProposalTopic {
    /// The topic's name.
    pub fn topic(&self) -> (name: String)
        ensures
            name@ == "tendermint-proposal"@,
    {
        "tendermint-proposal".to_owned()
    }

    /// Whether the gossip layer validates what is published on the topic.
    /// It does not: the validator checks proposer, round and signature.
    pub fn validate(&self) -> (validated: bool)
        ensures
            !validated,
    {
        false
    }
}

impl BlockTopic {
    /// The topic's name.
    pub fn topic(&self) -> (name: String)
        ensures
            name@ == "blocks"@,
    {
        "blocks".to_owned()
    }
}

/// The name of the database that holds the macro state.
pub fn macro_state_db_name() -> (name: &'static str)
    ensures
        name@ == "ValidatorState"@,
{
    "ValidatorState"
}

/// The key under which the macro state is stored.
pub fn macro_state_key() -> (key: &'static str)
    ensures
        key@ == "validatorState"@,
{
    "validatorState"
}

/// How a validator stands with its stake.
#[derive(Clone, Copy, Debug, PartialEq, Eq)]
pub enum ValidatorStakingState {
    Active,
    Parked,
    Inactive,
    NoStake,
}

/// What an active validator knows of its epoch.
#[derive(Clone, Copy, Debug, PartialEq, Eq)]
pub struct ActiveEpochState {
    /// The validator's position in the committee.
    pub validator_id: u16,
}

/// What the validator keeps in step with the blockchain.
pub struct BlockchainState {
    pub fork_proofs: ForkProofPool,
}

/// The proof that a super-majority asked for a view change.
pub type ViewChangeProof = AggregateProof<ViewChange>;

/// What the validator knows of the micro block that is due.
pub struct ProduceMicroBlockState {
    pub view_number: u32,
    pub view_change_proof: Option<ViewChangeProof>,
    pub view_change: Option<ViewChange>,
}

/// What the blockchain answers when a block is pushed.
#[derive(Clone, Copy, Debug, PartialEq, Eq)]
pub enum PushResult {
    Known,
    Extended,
    Rebranched,
    Forked,
    Ignored,
}

/// What the blockchain reports, with the blocks that the report is about.
#[derive(Debug, PartialEq, Eq)]
pub enum BlockchainEvent {
    Extended(Block),
    Finalized(Block),
    EpochFinalized(Block),
    /// The chain changed its branch: the blocks that left the chain, then
    /// the blocks that joined it, each in the order of the chain.
    Rebranched(Vec<Block>, Vec<Block>),
}

/// What the fork detector reports.
#[derive(Debug, PartialEq, Eq)]
pub enum ForkEvent {
    Detected(ForkProof),
}

/// What consensus reports.
#[derive(Clone, Copy, Debug, PartialEq, Eq)]
pub enum ConsensusEvent {
    Established,
    Lost,
    Waiting,
}

/// What the macro block producer reports.
#[derive(Debug, PartialEq, Eq)]
pub enum TendermintReturn {
    /// The round met an error and goes on.
    Error,
    /// The round decided on a block.
    Result(MacroBlock),
    /// The state of the round changed.
    StateUpdate(TendermintStateUpdate),
}

/// What the micro block producer reports.
pub enum ProduceMicroBlockEvent {
    MicroBlock(MicroBlock),
    ViewChange(ViewChange, ViewChangeProof),
}

/// What the validator reads of the blockchain when it makes a decision.
pub struct ChainSnapshot {
    /// The validators of the current epoch.
    pub validators: Vec<CommitteeMember>,
    /// The kind of the block that comes next.
    pub next_block_type: BlockType,
    /// The number of the head block.
    pub block_number: u32,
    /// The view with which the block after the head starts.
    pub next_view_number: u32,
}

/// What is published and registered at the start of an epoch.
pub struct EpochSetup {
    /// The validator's own key, to be advertised on the network.
    pub public_key: PublicKey,
    /// The keys of the committee, in its order.
    pub validator_keys: Vec<PublicKey>,
}

/// The block producer that is to run from now on. Any producer that ran
/// before is dropped first.
pub enum ProducerStart {
    /// The validator is not active, or no block can follow: no producer runs.
    Idle,
    /// The next block is a macro block.
    Macro {
        validator_id: u16,
        /// The state from which the round is taken up, after a crash.
        state: Option<PersistedMacroState>,
    },
    /// The next block is a micro block.
    Micro {
        validator_id: u16,
        fork_proofs: Vec<ForkProof>,
        view_number: u32,
        view_change_proof: Option<ViewChangeProof>,
        view_change: Option<ViewChange>,
        /// The time after which the view is changed, in seconds.
        view_change_delay: u64,
    },
}

/// What the validator does about a report of a producer.
pub enum ProducerAction {
    /// Nothing.
    Nothing,
    /// Push the block to the blockchain; publish it only if the blockchain
    /// accepts it.
    PushBlock(Block),
    /// Write the state to disk, before any vote that belongs to it leaves.
    Persist(PersistedMacroState),
    /// Start the micro block producer again, under the new view.
    Restart(ProducerStart),
}

/// One report to the validator.
pub enum ValidatorEvent {
    /// Consensus reported an event.
    Consensus(ConsensusEvent),
    /// Consensus has stopped reporting.
    ConsensusClosed,
    /// The blockchain reported an event.
    Blockchain(BlockchainEvent),
    /// The fork detector reported an event.
    Fork(ForkEvent),
    /// The macro block producer reported an event.
    Macro(TendermintReturn),
    /// The micro block producer reported an event.
    Micro(ProduceMicroBlockEvent),
}

/// What is to be done about a report.
pub enum Reaction {
    /// Nothing.
    Nothing,
    /// The validator's task ends.
    Terminate,
    /// The epoch is set up, where a setup is given, and then the block
    /// producer is started anew.
    Start(Option<EpochSetup>, ProducerStart),
    /// What the validator does about a report of its block producer.
    Producer(ProducerAction),
}

/// The validator.
pub struct Validator {
    pub signing_key: KeyPair,
    pub epoch_state: Option<ActiveEpochState>,
    pub blockchain_state: BlockchainState,
    pub macro_state: Option<PersistedMacroState>,
    pub micro_state: ProduceMicroBlockState,
}

/// What each block of a chain includes of fork proofs.
pub open spec fn chain_views(chain: Seq<Block>) -> Seq<Seq<ForkProofView>> {
    Seq::new(chain.len(), |i: int| block_fork_proofs(chain[i]))
}

/// The keys of a list of validators, in the list's order.
pub open spec fn committee_keys(validators: Seq<CommitteeMember>) -> Seq<Seq<u8>> {
    Seq::new(validators.len(), |i: int| validators[i].public_key@)
}

/// What each key of a list holds.
pub open spec fn key_views(keys: Seq<PublicKey>) -> Seq<Seq<u8>> {
    Seq::new(keys.len(), |i: int| keys[i]@)
}

/// The epoch state of the validator with key `key` in the epoch of
/// `validators`: active at its position in the list, where it has one
/// among the first `ACTIVE_VALIDATORS`.
pub open spec fn spec_epoch_state(validators: Seq<CommitteeMember>, key: Seq<u8>) -> Option<
    ActiveEpochState,
> {
    match spec_position(validators, key) {
        Some(i) => if i < ACTIVE_VALIDATORS {
            Some(ActiveEpochState { validator_id: i as u16 })
        } else {
            None
        },
        None => None,
    }
}

/// The fork-proof pool after a report of the blockchain.
pub open spec fn spec_pool_after(pool: Seq<ForkProofView>, event: BlockchainEvent) -> Seq<
    ForkProofView,
> {
    match event {
        BlockchainEvent::Extended(block) => spec_remove_all(pool, block_fork_proofs(block)),
        BlockchainEvent::Finalized(block) => spec_remove_all(pool, block_fork_proofs(block)),
        BlockchainEvent::EpochFinalized(block) => spec_remove_all(pool, block_fork_proofs(block)),
        BlockchainEvent::Rebranched(old_chain, new_chain) => spec_rebranch(
            pool,
            chain_views(old_chain@),
            chain_views(new_chain@),
        ),
    }
}

/// Whether a view change that is in flight still applies when the micro
/// block after the head `block_number` starts with `next_view_number`: it
/// is about that block and asks for a later view.
pub open spec fn still_applies(
    view_change: Option<ViewChange>,
    block_number: u32,
    next_view_number: u32,
) -> bool {
    match view_change {
        Some(vc) => vc.block_number == block_number + 1 && vc.new_view_number > next_view_number,
        None => false,
    }
}

/// The view under which the micro block producer starts.
pub open spec fn spec_start_view(
    micro_state: ProduceMicroBlockState,
    block_number: u32,
    next_view_number: u32,
) -> u32 {
    if still_applies(micro_state.view_change, block_number, next_view_number)
        && micro_state.view_change_proof.is_some() {
        micro_state.view_change.unwrap().new_view_number
    } else {
        next_view_number
    }
}

/// Whether the validator takes up a view change that its producer reports:
/// the view change is about the block after the head and asks for a view
/// beyond the current one.
pub open spec fn accepts_view_change(
    view_number: u32,
    block_number: u32,
    view_change: ViewChange,
) -> bool {
    view_change.block_number == block_number + 1 && view_change.new_view_number > view_number
}

/// Whether a block that was pushed with `result` is published: only a
/// block that the local blockchain has accepted is.
pub open spec fn spec_should_publish(result: Option<PushResult>) -> bool {
    result == Some(PushResult::Extended) || result == Some(PushResult::Rebranched)
}

/// Decides whether a block is published after it was pushed to the local
/// blockchain. `result` is nothing where the push failed.
pub fn should_publish(result: Option<PushResult>) -> (publish: bool)
    ensures
        publish == spec_should_publish(result),
{
    match result {
        Some(PushResult::Extended) => true,
        Some(PushResult::Rebranched) => true,
        _ => false,
    }
}

/// The views under which the micro block producer is started again while
/// the head stays at `block_number` and the view changes of `reports` come
/// in, one after the other, beginning under `view_number`.
pub open spec fn spec_restart_views(view_number: u32, block_number: u32, reports: Seq<ViewChange>)
    -> Seq<u32>
    decreases reports.len(),
{
    if reports.len() == 0 {
        Seq::empty()
    } else {
        let before = spec_restart_views(view_number, block_number, reports.drop_last());
        let current = if before.len() == 0 {
            view_number
        } else {
            before.last()
        };
        if accepts_view_change(current, block_number, reports.last()) {
            before.push(reports.last().new_view_number)
        } else {
            before
        }
    }
}

/// Monotonic view numbers. While the head stays where it is, every view
/// under which the micro block producer is started again is beyond the
/// view before it, whatever view changes are reported.
pub proof fn lemma_views_increase(view_number: u32, block_number: u32, reports: Seq<ViewChange>)
    ensures
        forall|i: int|
            0 <= i < spec_restart_views(view_number, block_number, reports).len()
                ==> #[trigger] spec_restart_views(view_number, block_number, reports)[i]
                > view_number,
        forall|i: int, j: int|
            0 <= i < j < spec_restart_views(view_number, block_number, reports).len()
                ==> spec_restart_views(view_number, block_number, reports)[i]
                < spec_restart_views(view_number, block_number, reports)[j],
    decreases reports.len(),
{
    if reports.len() > 0 {
        lemma_views_increase(view_number, block_number, reports.drop_last());
        let before = spec_restart_views(view_number, block_number, reports.drop_last());
        let all = spec_restart_views(view_number, block_number, reports);
        let current = if before.len() == 0 {
            view_number
        } else {
            before.last()
        };
        assert(current >= view_number);
        if accepts_view_change(current, block_number, reports.last()) {
            assert(all == before.push(reports.last().new_view_number));
            assert forall|i: int| 0 <= i < all.len() implies #[trigger] all[i] > view_number by {
                if i < before.len() {
                    assert(all[i] == before[i]);
                }
            }
            assert forall|i: int, j: int| 0 <= i < j < all.len() implies all[i] < all[j] by {
                if j < before.len() {
                    assert(before[i] < before[j]);
                } else if before.len() > 0 && i < before.len() - 1 {
                    assert(before[i] < before[before.len() - 1]);
                }
            }
        }
    }
}

/// Whether the fork proofs `fork_proofs` are what a producer gets from the
/// pool `pool`: the longest run from the front of the pool that fits a
/// block.
pub open spec fn is_batch_of(fork_proofs: Seq<ForkProof>, pool: Seq<ForkProofView>) -> bool {
    &&& fork_proofs.len() <= pool.len()
    &&& proof_views(fork_proofs) == pool.take(fork_proofs.len() as int)
    &&& total_size(proof_views(fork_proofs)) <= FORK_PROOFS_MAX_SIZE
    &&& fork_proofs.len() < pool.len() ==> total_size(pool.take(fork_proofs.len() as int + 1))
        > FORK_PROOFS_MAX_SIZE
}

/// Whether `start` is the start of a micro block producer for the validator
/// `validator_id` with what `after` knows of the block that is due and with
/// a batch of fork proofs from its pool.
pub open spec fn is_micro_start(start: ProducerStart, validator_id: u16, after: Validator) -> bool {
    match start {
        ProducerStart::Micro {
            validator_id: id,
            fork_proofs,
            view_number,
            view_change_proof,
            view_change,
            view_change_delay,
        } => {
            &&& id == validator_id
            &&& view_number == after.micro_state.view_number
            &&& view_change == after.micro_state.view_change
            &&& view_change_proof.is_some() == after.micro_state.view_change_proof.is_some()
            &&& view_change_proof.is_some() ==> view_change_proof.unwrap()@
                == after.micro_state.view_change_proof.unwrap()@
            &&& view_change_delay == VIEW_CHANGE_DELAY
            &&& is_batch_of(fork_proofs@, after.blockchain_state.fork_proofs@)
        },
        _ => false,
    }
}

/// Whether `start` and `after` are what the validator `before` decides when
/// it starts its block producer on `chain`. An inactive validator runs no
/// producer and stays as it is. For a macro block the persisted state is
/// handed on if it is about that block, and dropped in either case. For a
/// micro block the producer starts under the view that follows the head,
/// with no view change; unless a view change that is in flight still
/// applies, which is then kept with its proof and gives the view.
pub open spec fn spec_producer_start(
    before: Validator,
    chain: ChainSnapshot,
    after: Validator,
    start: ProducerStart,
) -> bool {
    &&& after.signing_key == before.signing_key
    &&& after.epoch_state == before.epoch_state
    &&& after.blockchain_state == before.blockchain_state
    &&& match before.epoch_state {
        None => {
            &&& start is Idle
            &&& after.macro_state == before.macro_state
            &&& after.micro_state == before.micro_state
        },
        Some(epoch) => match chain.next_block_type {
            BlockType::Macro => {
                &&& after.macro_state.is_none()
                &&& after.micro_state == before.micro_state
                &&& start == ProducerStart::Macro {
                    validator_id: epoch.validator_id,
                    state: spec_resume(before.macro_state, chain.block_number),
                }
            },
            BlockType::Micro => {
                &&& after.macro_state == before.macro_state
                &&& after.micro_state.view_number == spec_start_view(
                    before.micro_state,
                    chain.block_number,
                    chain.next_view_number,
                )
                &&& after.micro_state.view_number >= chain.next_view_number
                &&& if still_applies(
                    before.micro_state.view_change,
                    chain.block_number,
                    chain.next_view_number,
                ) && before.micro_state.view_change_proof.is_some() {
                    after.micro_state.view_change == before.micro_state.view_change
                        && after.micro_state.view_change_proof
                        == before.micro_state.view_change_proof
                } else {
                    after.micro_state.view_change.is_none()
                        && after.micro_state.view_change_proof.is_none()
                }
                &&& is_micro_start(start, epoch.validator_id, after)
            },
        },
    }
}

/// Whether `after` and `started` are what becomes of the validator `before`
/// when it starts the epoch and then the block producer on `chain`.
pub open spec fn spec_init(before: Validator, chain: ChainSnapshot, after: Validator, started: (EpochSetup, ProducerStart)) -> bool {
    &&& (after.epoch_state == spec_epoch_state(
        chain.validators@,
        before.signing_key.public_key@,
    ))
    &&& (after.signing_key == before.signing_key)
    &&& (after.blockchain_state == before.blockchain_state)
    &&& (started.0.public_key == before.signing_key.public_key)
    &&& (key_views(started.0.validator_keys@) == committee_keys(chain.validators@))
    &&& (spec_producer_start(
        Validator { epoch_state: after.epoch_state, ..before },
        chain,
        after,
        started.1,
    ))
}

/// Whether `after` and `started` are what becomes of the validator `before`
/// when the blockchain reports `event`: the fork-proof pool follows the
/// blockchain, the end of an epoch starts the epoch anew, and then the block
/// producer is started anew.
pub open spec fn spec_on_blockchain_event(before: Validator, event: BlockchainEvent, chain: ChainSnapshot, after: Validator, started: (Option<EpochSetup>, ProducerStart)) -> bool {
    &&& (after.blockchain_state.fork_proofs@ == spec_pool_after(
        before.blockchain_state.fork_proofs@,
        event,
    ))
    &&& (after.signing_key == before.signing_key)
    &&& (started.0.is_some() == (event is EpochFinalized))
    &&& (after.epoch_state == if event is EpochFinalized {
        spec_epoch_state(chain.validators@, before.signing_key.public_key@)
    } else {
        before.epoch_state
    })
    &&& (started.0.is_some() ==> started.0.unwrap().public_key == before.signing_key.public_key && key_views(started.0.unwrap().validator_keys@)
        == committee_keys(chain.validators@))
    &&& (spec_producer_start(
        Validator {
            epoch_state: after.epoch_state,
            blockchain_state: after.blockchain_state,
            ..before
        },
        chain,
        after,
        started.1,
    ))
}

/// Whether `after` is what becomes of the validator `before` when a fork is
/// detected: the proof goes into the pool.
pub open spec fn spec_on_fork_event(before: Validator, event: ForkEvent, after: Validator) -> bool {
    &&& (match event {
        ForkEvent::Detected(fork_proof) => after.blockchain_state.fork_proofs@
            == spec_insert(before.blockchain_state.fork_proofs@, fork_proof@),
    })
    &&& (after.signing_key == before.signing_key)
    &&& (after.epoch_state == before.epoch_state)
    &&& (after.macro_state == before.macro_state)
    &&& (after.micro_state == before.micro_state)
}

/// Whether `after` and `action` are what becomes of the validator `before`
/// when the macro block producer reports `event` while the head block has
/// the number `block_number`.
pub open spec fn spec_on_macro_event(before: Validator, event: TendermintReturn, block_number: u32, after: Validator, action: ProducerAction) -> bool {
    &&& (after.signing_key == before.signing_key)
    &&& (after.epoch_state == before.epoch_state)
    &&& (after.blockchain_state == before.blockchain_state)
    &&& (after.micro_state == before.micro_state)
    &&& (match event {
        TendermintReturn::Error => action is Nothing && after.macro_state == before.macro_state,
        TendermintReturn::Result(block) => action == ProducerAction::PushBlock(
            Block::Macro(block),
        ) && after.macro_state == before.macro_state,
        TendermintReturn::StateUpdate(update) => if block_number < u32::MAX {
            let state = PersistedMacroState {
                height: (block_number + 1) as u32,
                step: update.step,
                round: update.round,
                locked_round: update.locked_round,
                locked_value: update.locked_value,
                valid_round: update.valid_round,
                valid_value: update.valid_value,
            };
            action == ProducerAction::Persist(state) && after.macro_state == Some(
                state,
            )
        } else {
            action is Nothing && after.macro_state == before.macro_state
        },
    })
}

/// Whether `after` and `action` are what becomes of the validator `before`
/// when the micro block producer reports `event` while the head block has
/// the number `block_number`.
pub open spec fn spec_on_micro_event(before: Validator, event: ProduceMicroBlockEvent, block_number: u32, after: Validator, action: ProducerAction) -> bool {
    &&& (after.signing_key == before.signing_key)
    &&& (after.epoch_state == before.epoch_state)
    &&& (after.blockchain_state == before.blockchain_state)
    &&& (after.macro_state == before.macro_state)
    &&& (match event {
        ProduceMicroBlockEvent::MicroBlock(block) => action == ProducerAction::PushBlock(
            Block::Micro(block),
        ) && after.micro_state == before.micro_state,
        ProduceMicroBlockEvent::ViewChange(view_change, view_change_proof) => if before.epoch_state.is_some() && accepts_view_change(
            before.micro_state.view_number,
            block_number,
            view_change,
        ) {
            &&& after.micro_state.view_number == view_change.new_view_number
            &&& after.micro_state.view_number > before.micro_state.view_number
            &&& after.micro_state.view_change == Some(view_change)
            &&& after.micro_state.view_change_proof == Some(view_change_proof)
            &&& match action {
                ProducerAction::Restart(
                    ProducerStart::Micro {
                        validator_id,
                        fork_proofs,
                        view_number,
                        view_change_proof: proof_,
                        view_change: change,
                        view_change_delay,
                    },
                ) => {
                    &&& validator_id == before.epoch_state.unwrap().validator_id
                    &&& view_number == view_change.new_view_number
                    &&& change == Some(view_change)
                    &&& proof_.is_some() && proof_.unwrap()@ == view_change_proof@
                    &&& view_change_delay == VIEW_CHANGE_DELAY
                    &&& proof_views(fork_proofs@) == before.blockchain_state.fork_proofs@.take(fork_proofs.len() as int)
                    &&& total_size(proof_views(fork_proofs@)) <= FORK_PROOFS_MAX_SIZE
                    &&& fork_proofs.len() < before.blockchain_state.fork_proofs@.len()
                        ==> total_size(
                        before.blockchain_state.fork_proofs@.take(
                            fork_proofs.len() + 1,
                        ),
                    ) > FORK_PROOFS_MAX_SIZE
                },
                _ => false,
            }
        } else {
            action is Nothing && after.micro_state == before.micro_state
        },
    })
}

/// Whether `after` and `started` are what becomes of the validator `before`
/// when consensus reports `event`: once consensus is established the epoch
/// and the block producer are started; any other report changes nothing.
pub open spec fn spec_on_consensus_event(
    before: Validator,
    event: ConsensusEvent,
    chain: ChainSnapshot,
    after: Validator,
    started: Option<(EpochSetup, ProducerStart)>,
) -> bool {
    if event == ConsensusEvent::Established {
        started.is_some() && spec_init(before, chain, after, started.unwrap())
    } else {
        started.is_none() && after == before
    }
}

/// Whether `after` and `reaction` are what becomes of the validator `before`
/// when it handles `event`.
pub open spec fn spec_handle(
    before: Validator,
    event: ValidatorEvent,
    chain: ChainSnapshot,
    established: bool,
    after: Validator,
    reaction: Reaction,
) -> bool {
    match event {
        ValidatorEvent::ConsensusClosed => reaction is Terminate && after == before,
        ValidatorEvent::Consensus(e) => match reaction {
            Reaction::Start(Some(setup), start) => spec_on_consensus_event(
                before,
                e,
                chain,
                after,
                Some((setup, start)),
            ),
            Reaction::Nothing => spec_on_consensus_event(before, e, chain, after, None),
            _ => false,
        },
        ValidatorEvent::Blockchain(e) => if established {
            match reaction {
                Reaction::Start(setup, start) => spec_on_blockchain_event(
                    before,
                    e,
                    chain,
                    after,
                    (setup, start),
                ),
                _ => false,
            }
        } else {
            reaction is Nothing && after == before
        },
        ValidatorEvent::Fork(e) => reaction is Nothing && if established {
            spec_on_fork_event(before, e, after)
        } else {
            after == before
        },
        ValidatorEvent::Macro(e) => if established && before.epoch_state.is_some() {
            match reaction {
                Reaction::Producer(action) => spec_on_macro_event(
                    before,
                    e,
                    chain.block_number,
                    after,
                    action,
                ),
                _ => false,
            }
        } else {
            reaction is Nothing && after == before
        },
        ValidatorEvent::Micro(e) => if established && before.epoch_state.is_some() {
            match reaction {
                Reaction::Producer(action) => spec_on_micro_event(
                    before,
                    e,
                    chain.block_number,
                    after,
                    action,
                ),
                _ => false,
            }
        } else {
            reaction is Nothing && after == before
        },
    }
}

impl Validator {
    /// The validator before it has looked at the blockchain: not active,
    /// with an empty fork-proof pool, under the view `view_number`, and with
    /// the macro state that was found on disk.
    pub fn new(signing_key: KeyPair, view_number: u32, macro_state: Option<PersistedMacroState>)
        -> (validator: Validator)
        ensures
            validator.signing_key == signing_key,
            validator.epoch_state.is_none(),
            validator.blockchain_state.fork_proofs@ == Seq::<ForkProofView>::empty(),
            validator.macro_state == macro_state,
            validator.micro_state.view_number == view_number,
            validator.micro_state.view_change_proof.is_none(),
            validator.micro_state.view_change.is_none(),
    {
        Validator {
            signing_key,
            epoch_state: None,
            blockchain_state: BlockchainState { fork_proofs: ForkProofPool::new() },
            macro_state,
            micro_state: ProduceMicroBlockState {
                view_number,
                view_change_proof: None,
                view_change: None,
            },
        }
    }

    /// Whether the validator is in the committee of the current epoch.
    pub fn is_active(&self) -> (active: bool)
        ensures
            active == self.epoch_state.is_some(),
    {
        self.epoch_state.is_some()
    }

    /// The validator's position in the committee. Only an active validator
    /// has one.
    pub fn validator_id(&self) -> (id: u16)
        requires
            self.epoch_state.is_some(),
        ensures
            id == self.epoch_state.unwrap().validator_id,
    {
        match self.epoch_state {
            Some(state) => state.validator_id,
            None => 0,
        }
    }

    /// The key with which the validator signs.
    pub fn signing_key(&self) -> (key: KeyPair)
        ensures
            key == self.signing_key,
    {
        self.signing_key
    }

    /// Looks for the validator's key among the validators of the epoch and
    /// becomes active or inactive accordingly. Returns what is to be
    /// advertised and registered with the network: the validator's own key
    /// and the keys of the committee.
    pub fn init_epoch(&mut self, validators: &Vec<CommitteeMember>) -> (setup: EpochSetup)
        ensures
            final(self).epoch_state == spec_epoch_state(
                validators@,
                old(self).signing_key.public_key@,
            ),
            final(self).signing_key == old(self).signing_key,
            final(self).blockchain_state == old(self).blockchain_state,
            final(self).macro_state == old(self).macro_state,
            final(self).micro_state == old(self).micro_state,
            setup.public_key == old(self).signing_key.public_key,
            key_views(setup.validator_keys@) == committee_keys(validators@),
    {
        proof {
            crate::validators::lemma_position(validators@, self.signing_key.public_key@);
        }
        self.epoch_state = match position(validators, &self.signing_key.public_key) {
            Some(i) => {
                if i < ACTIVE_VALIDATORS as usize {
                    Some(ActiveEpochState { validator_id: i as u16 })
                } else {
                    None
                }
            },
            None => None,
        };
        let mut validator_keys: Vec<PublicKey> = Vec::new();
        let mut i: usize = 0;
        while i < validators.len()
            invariant
                i <= validators.len(),
                validator_keys.len() == i,
                forall|j: int| 0 <= j < i ==> validator_keys[j] == validators[j].public_key,
            decreases validators.len() - i,
        {
            validator_keys.push(validators[i].public_key);
            i = i + 1;
        }
        assert(key_views(validator_keys@) =~= committee_keys(validators@));
        EpochSetup { public_key: self.signing_key.public_key, validator_keys }
    }

    /// Decides which block producer runs from now on. An inactive validator
    /// runs none. For a macro block the persisted state is handed on if it
    /// is about that block, and dropped in either case. For a micro block
    /// the producer gets the fork proofs that fit a block and starts under
    /// the view that follows the head, unless a view change that is in
    /// flight still applies.
    pub fn init_block_producer(&mut self, chain: &ChainSnapshot) -> (start: ProducerStart)
        ensures
            spec_producer_start(*old(self), *chain, *final(self), start),
    {
        let validator_id = match self.epoch_state {
            Some(state) => state.validator_id,
            None => { return ProducerStart::Idle; },
        };
        match chain.next_block_type {
            BlockType::Macro => {
                let state = resume(self.macro_state, chain.block_number);
                self.macro_state = None;
                ProducerStart::Macro { validator_id, state }
            },
            BlockType::Micro => {
                let keep = match (&self.micro_state.view_change, &self.micro_state.view_change_proof) {
                    (Some(vc), Some(_)) => vc.block_number as u64 == chain.block_number as u64 + 1
                        && vc.new_view_number > chain.next_view_number,
                    _ => false,
                };
                if keep {
                    let view = match self.micro_state.view_change {
                        Some(vc) => vc.new_view_number,
                        None => chain.next_view_number,
                    };
                    self.micro_state.view_number = view;
                } else {
                    self.micro_state = ProduceMicroBlockState {
                        view_number: chain.next_view_number,
                        view_change_proof: None,
                        view_change: None,
                    };
                }
                let fork_proofs = self.blockchain_state.fork_proofs.get_fork_proofs_for_block(
                    FORK_PROOFS_MAX_SIZE,
                );
                let view_change_proof = match &self.micro_state.view_change_proof {
                    Some(p) => Some(p.duplicate()),
                    None => None,
                };
                ProducerStart::Micro {
                    validator_id,
                    fork_proofs,
                    view_number: self.micro_state.view_number,
                    view_change_proof,
                    view_change: self.micro_state.view_change,
                    view_change_delay: VIEW_CHANGE_DELAY,
                }
            },
        }
    }

    /// Starts the epoch and the block producer, in that order.
    pub fn init(&mut self, chain: &ChainSnapshot) -> (started: (EpochSetup, ProducerStart))
        ensures
            spec_init(*old(self), *chain, *final(self), started),
    {
        let setup = self.init_epoch(&chain.validators);
        assert(*self == Validator { epoch_state: self.epoch_state, ..*old(self) });
        let start = self.init_block_producer(chain);
        (setup, start)
    }

    /// The blockchain was extended by `block`: the fork proofs that the
    /// block includes leave the pool.
    pub fn on_blockchain_extended(&mut self, block: &Block)
        ensures
            final(self).blockchain_state.fork_proofs@ == spec_remove_all(
                old(self).blockchain_state.fork_proofs@,
                block_fork_proofs(*block),
            ),
            final(self).signing_key == old(self).signing_key,
            final(self).epoch_state == old(self).epoch_state,
            final(self).macro_state == old(self).macro_state,
            final(self).micro_state == old(self).micro_state,
    {
        self.blockchain_state.fork_proofs.apply_block(block);
    }

    /// The blockchain changed its branch: the blocks of the old chain are
    /// reverted, last to first, and then the blocks of the new chain are
    /// applied, first to last.
    pub fn on_blockchain_rebranched(&mut self, old_chain: &Vec<Block>, new_chain: &Vec<Block>)
        ensures
            final(self).blockchain_state.fork_proofs@ == spec_rebranch(
                old(self).blockchain_state.fork_proofs@,
                chain_views(old_chain@),
                chain_views(new_chain@),
            ),
            contents(final(self).blockchain_state.fork_proofs@) == contents(
                old(self).blockchain_state.fork_proofs@,
            ).union(chain_contents(chain_views(old_chain@))).difference(
                chain_contents(chain_views(new_chain@)),
            ),
            final(self).signing_key == old(self).signing_key,
            final(self).epoch_state == old(self).epoch_state,
            final(self).macro_state == old(self).macro_state,
            final(self).micro_state == old(self).micro_state,
    {
        let ghost start = self.blockchain_state.fork_proofs@;
        let ghost leaving = chain_views(old_chain@);
        let ghost joining = chain_views(new_chain@);
        proof {
            lemma_revert_chain(start, leaving);
            lemma_apply_chain(spec_revert_chain(start, leaving), joining);
        }
        let mut k: usize = old_chain.len();
        assert(leaving.take(k as int) =~= leaving);
        while k > 0
            invariant
                k <= old_chain.len(),
                leaving == chain_views(old_chain@),
                spec_revert_chain(self.blockchain_state.fork_proofs@, leaving.take(k as int))
                    == spec_revert_chain(start, leaving),
                self.signing_key == old(self).signing_key,
                self.epoch_state == old(self).epoch_state,
                self.macro_state == old(self).macro_state,
                self.micro_state == old(self).micro_state,
            decreases k,
        {
            proof {
                assert(leaving.take(k as int).drop_last() =~= leaving.take(k - 1));
                assert(leaving.take(k as int).last() == block_fork_proofs(old_chain@[k - 1]));
            }
            self.blockchain_state.fork_proofs.revert_block(&old_chain[k - 1]);
            k = k - 1;
        }
        let ghost reverted = self.blockchain_state.fork_proofs@;
        assert(reverted == spec_revert_chain(start, leaving));
        let mut i: usize = 0;
        while i < new_chain.len()
            invariant
                i <= new_chain.len(),
                joining == chain_views(new_chain@),
                self.blockchain_state.fork_proofs@ == spec_apply_chain(
                    reverted,
                    joining.take(i as int),
                ),
                self.signing_key == old(self).signing_key,
                self.epoch_state == old(self).epoch_state,
                self.macro_state == old(self).macro_state,
                self.micro_state == old(self).micro_state,
            decreases new_chain.len() - i,
        {
            proof {
                assert(joining.take(i + 1).drop_last() =~= joining.take(i as int));
                assert(joining.take(i + 1).last() == block_fork_proofs(new_chain@[i as int]));
            }
            self.blockchain_state.fork_proofs.apply_block(&new_chain[i]);
            i = i + 1;
        }
        assert(joining.take(i as int) =~= joining);
    }

    /// The blockchain reported `event`. The fork-proof pool follows the
    /// blockchain; at the end of an epoch the epoch is started anew; and in
    /// every case the block producer is started anew, after the epoch.
    pub fn on_blockchain_event(&mut self, event: &BlockchainEvent, chain: &ChainSnapshot) -> (started:
        (Option<EpochSetup>, ProducerStart))
        ensures
            spec_on_blockchain_event(*old(self), *event, *chain, *final(self), started),
    {
        let setup = match event {
            BlockchainEvent::Extended(block) => {
                self.on_blockchain_extended(block);
                None
            },
            BlockchainEvent::Finalized(block) => {
                self.on_blockchain_extended(block);
                None
            },
            BlockchainEvent::EpochFinalized(block) => {
                self.on_blockchain_extended(block);
                Some(self.init_epoch(&chain.validators))
            },
            BlockchainEvent::Rebranched(old_chain, new_chain) => {
                self.on_blockchain_rebranched(old_chain, new_chain);
                None
            },
        };
        assert(*self == Validator {
            epoch_state: self.epoch_state,
            blockchain_state: self.blockchain_state,
            ..*old(self)
        });
        let start = self.init_block_producer(chain);
        (setup, start)
    }

    /// A fork was detected: its proof goes into the pool.
    pub fn on_fork_event(&mut self, event: ForkEvent)
        ensures
            spec_on_fork_event(*old(self), event, *final(self)),
    {
        match event {
            ForkEvent::Detected(fork_proof) => {
                self.blockchain_state.fork_proofs.insert(fork_proof);
            },
        }
    }

    /// The macro block producer reported `event` while the head block has
    /// the number `block_number`. An error changes nothing. A decided block
    /// is to be pushed. A new state of the round is kept, in place of any
    /// older one, and is to be written to disk.
    pub fn on_macro_event(&mut self, event: TendermintReturn, block_number: u32) -> (action:
        ProducerAction)
        ensures
            spec_on_macro_event(*old(self), event, block_number, *final(self), action),
    {
        match event {
            TendermintReturn::Error => ProducerAction::Nothing,
            TendermintReturn::Result(block) => ProducerAction::PushBlock(Block::Macro(block)),
            TendermintReturn::StateUpdate(update) => {
                if block_number < u32::MAX {
                    let state = PersistedMacroState::from_update(block_number + 1, update);
                    self.macro_state = Some(state);
                    ProducerAction::Persist(state)
                } else {
                    ProducerAction::Nothing
                }
            },
        }
    }

    /// The micro block producer reported `event` while the head block has
    /// the number `block_number`. A block is to be pushed. A view change is
    /// taken up if the validator is active and the view change is about the
    /// block after the head and asks for a view beyond the current one: the
    /// producer is then started again under the new view, with the proof.
    /// Any other view change is dropped.
    pub fn on_micro_event(&mut self, event: ProduceMicroBlockEvent, block_number: u32) -> (action:
        ProducerAction)
        ensures
            spec_on_micro_event(*old(self), event, block_number, *final(self), action),
    {
        match event {
            ProduceMicroBlockEvent::MicroBlock(block) => ProducerAction::PushBlock(
                Block::Micro(block),
            ),
            ProduceMicroBlockEvent::ViewChange(view_change, view_change_proof) => {
                let validator_id = match self.epoch_state {
                    Some(state) => state.validator_id,
                    None => { return ProducerAction::Nothing; },
                };
                if view_change.block_number as u64 == block_number as u64 + 1
                    && view_change.new_view_number > self.micro_state.view_number {
                    let copy = view_change_proof.duplicate();
                    self.micro_state = ProduceMicroBlockState {
                        view_number: view_change.new_view_number,
                        view_change_proof: Some(view_change_proof),
                        view_change: Some(view_change),
                    };
                    let fork_proofs = self.blockchain_state.fork_proofs.get_fork_proofs_for_block(
                        FORK_PROOFS_MAX_SIZE,
                    );
                    ProducerAction::Restart(
                        ProducerStart::Micro {
                            validator_id,
                            fork_proofs,
                            view_number: view_change.new_view_number,
                            view_change_proof: Some(copy),
                            view_change: Some(view_change),
                            view_change_delay: VIEW_CHANGE_DELAY,
                        },
                    )
                } else {
                    ProducerAction::Nothing
                }
            },
        }
    }

    /// Consensus reported `event`: once it is established, the epoch and
    /// the block producer are started.
    pub fn on_consensus_event(&mut self, event: ConsensusEvent, chain: &ChainSnapshot) -> (started:
        Option<(EpochSetup, ProducerStart)>)
        ensures
            spec_on_consensus_event(*old(self), event, *chain, *final(self), started),
    {
        match event {
            ConsensusEvent::Established => Some(self.init(chain)),
            _ => None,
        }
    }

    /// Handles one report. `established` tells whether consensus is
    /// established at this moment. Reports of consensus are always heard;
    /// reports of the blockchain and of the fork detector only while
    /// consensus is established; reports of a block producer only while
    /// consensus is established and the validator is active.
    pub fn handle(&mut self, event: ValidatorEvent, chain: &ChainSnapshot, established: bool) -> (reaction:
        Reaction)
        ensures
            spec_handle(*old(self), event, *chain, established, *final(self), reaction),
    {
        match event {
            ValidatorEvent::ConsensusClosed => Reaction::Terminate,
            ValidatorEvent::Consensus(e) => {
                match self.on_consensus_event(e, chain) {
                    Some((setup, start)) => Reaction::Start(Some(setup), start),
                    None => Reaction::Nothing,
                }
            },
            ValidatorEvent::Blockchain(e) => {
                if established {
                    let (setup, start) = self.on_blockchain_event(&e, chain);
                    Reaction::Start(setup, start)
                } else {
                    Reaction::Nothing
                }
            },
            ValidatorEvent::Fork(e) => {
                if established {
                    self.on_fork_event(e);
                }
                Reaction::Nothing
            },
            ValidatorEvent::Macro(e) => {
                if established && self.is_active() {
                    Reaction::Producer(self.on_macro_event(e, chain.block_number))
                } else {
                    Reaction::Nothing
                }
            },
            ValidatorEvent::Micro(e) => {
                if established && self.is_active() {
                    Reaction::Producer(self.on_micro_event(e, chain.block_number))
                } else {
                    Reaction::Nothing
                }
            },
        }
    }
}

} // verus!

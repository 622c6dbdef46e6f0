use albatross_validator::block::{
    Block, BlockType, ForkProof, MacroBlock, MacroHeader, MicroBlock, MicroExtrinsics, MicroHeader,
};
use albatross_validator::crypto::{Blake2bHash, KeyPair, PublicKey, SecretKey, Signature};
use albatross_validator::macro_state::{PersistedMacroState, TendermintStateUpdate, TendermintStep};
use albatross_validator::messages::{PbftCommitMessage, ViewChange};
use albatross_validator::micro::{ProduceMicroBlock, SlotStart};
use albatross_validator::votes::{cast_vote, VoteAggregator};
use albatross_validator::signed::{AggregateProof, Message, SignedMessage};
use albatross_validator::validator::{
    macro_state_db_name, macro_state_key, should_publish, BlockTopic, BlockchainEvent, ChainSnapshot,
    ConsensusEvent, ForkEvent, ProduceMicroBlockEvent, ProducerAction, ProducerStart, ProposalTopic,
    PushResult, Reaction, TendermintReturn, Validator, ValidatorEvent, FORK_PROOFS_MAX_SIZE,
    VIEW_CHANGE_DELAY,
};
use albatross_validator::validators::{
    check_committee, count_votes, has_super_majority, position, Validator as CommitteeMember,
};

fn pair(n: u8) -> KeyPair {
    let mut bytes = [0u8; 95];
    bytes[0] = n;
    KeyPair::from_secret(SecretKey { bytes }).expect("scalar")
}

fn key(n: u8) -> PublicKey {
    PublicKey { bytes: [n; 285] }
}

fn local(n: u8) -> KeyPair {
    KeyPair { secret_key: SecretKey { bytes: [n; 95] }, public_key: key(n) }
}

fn committee(keys: &[PublicKey]) -> Vec<CommitteeMember> {
    let slots = 512 / keys.len() as u16;
    keys.iter().map(|k| CommitteeMember { public_key: *k, slots }).collect()
}

fn chain(validators: Vec<CommitteeMember>, next: BlockType, head: u32, view: u32) -> ChainSnapshot {
    ChainSnapshot { validators, next_block_type: next, block_number: head, next_view_number: view }
}

fn fork_proof(n: u8) -> ForkProof {
    ForkProof {
        header1: vec![n; 3],
        header2: vec![n; 3],
        justification1: Signature { bytes: [n; 95] },
        justification2: Signature { bytes: [n; 95] },
    }
}

fn micro(number: u32, proofs: Vec<ForkProof>) -> Block {
    Block::Micro(MicroBlock {
        header: MicroHeader { block_number: number, view_number: 0, timestamp: 0 },
        extrinsics: Some(MicroExtrinsics { fork_proofs: proofs }),
    })
}

fn value(n: u8) -> Blake2bHash {
    Blake2bHash { bytes: [n; 32] }
}

#[test]
fn topics_and_constants() {
    assert_eq!(ProposalTopic.topic(), "tendermint-proposal");
    assert!(!ProposalTopic.validate());
    assert_eq!(BlockTopic.topic(), "blocks");
    assert_eq!(macro_state_db_name(), "ValidatorState");
    assert_eq!(macro_state_key(), "validatorState");
    assert_eq!(VIEW_CHANGE_DELAY, 10);
    assert_eq!(FORK_PROOFS_MAX_SIZE, 1000);
}

#[test]
fn committee_lookups() {
    let members = committee(&[key(1), key(2), key(3), key(2)]);
    assert!(check_committee(&members));
    assert_eq!(position(&members, &key(1)), Some(0));
    assert_eq!(position(&members, &key(2)), Some(1));
    assert_eq!(position(&members, &key(9)), None);
    assert_eq!(position(&vec![], &key(1)), None);
    let mut short = members.clone();
    short[0].slots = 127;
    assert!(!check_committee(&short));
    assert!(!check_committee(&vec![]));
}

#[test]
fn super_majority_is_more_than_two_thirds_of_the_slots() {
    let members = committee(&[key(1), key(2), key(3), key(4)]);
    let mut proof = AggregateProof::<ViewChange>::new();
    assert_eq!(count_votes(&members, &proof.signers), 0);
    proof.signers.insert(0);
    proof.signers.insert(3);
    assert_eq!(count_votes(&members, &proof.signers), 256);
    assert!(!has_super_majority(&members, &proof.signers));
    proof.signers.insert(1);
    assert_eq!(count_votes(&members, &proof.signers), 384);
    assert!(has_super_majority(&members, &proof.signers));
    proof.signers.insert(400);
    assert_eq!(count_votes(&members, &proof.signers), 384);
    let uneven = vec![
        CommitteeMember { public_key: key(1), slots: 341 },
        CommitteeMember { public_key: key(2), slots: 1 },
        CommitteeMember { public_key: key(3), slots: 170 },
    ];
    let mut signers = AggregateProof::<ViewChange>::new().signers;
    signers.insert(0);
    assert!(!has_super_majority(&uneven, &signers));
    signers.insert(1);
    assert!(has_super_majority(&uneven, &signers));
}

#[test]
fn new_validator_is_inactive() {
    let validator = Validator::new(local(1), 4, None);
    assert!(!validator.is_active());
    assert_eq!(validator.micro_state.view_number, 4);
    assert!(validator.micro_state.view_change.is_none());
    assert_eq!(validator.blockchain_state.fork_proofs.len(), 0);
    assert!(validator.signing_key() == local(1));
}

#[test]
fn init_epoch_finds_the_own_key() {
    let members = committee(&[key(5), key(6), key(7), key(8)]);
    let mut validator = Validator::new(local(7), 0, None);
    let setup = validator.init_epoch(&members);
    assert!(validator.is_active());
    assert_eq!(validator.validator_id(), 2);
    assert_eq!(setup.public_key, key(7));
    assert_eq!(setup.validator_keys, vec![key(5), key(6), key(7), key(8)]);
    let strangers = committee(&[key(5), key(6)]);
    let setup = validator.init_epoch(&strangers);
    assert!(!validator.is_active());
    assert_eq!(setup.validator_keys, vec![key(5), key(6)]);
}

#[test]
fn inactive_validator_runs_no_producer() {
    let mut validator = Validator::new(local(1), 0, None);
    let snapshot = chain(committee(&[key(2)]), BlockType::Micro, 10, 0);
    assert!(matches!(validator.init_block_producer(&snapshot), ProducerStart::Idle));
    let (setup, start) = validator.init(&snapshot);
    assert_eq!(setup.public_key, key(1));
    assert!(matches!(start, ProducerStart::Idle));
}

#[test]
fn macro_producer_resumes_the_persisted_state_of_this_height() {
    let state = PersistedMacroState {
        height: 100,
        step: TendermintStep::Precommit,
        round: 2,
        locked_round: Some(2),
        locked_value: Some(value(1)),
        valid_round: None,
        valid_value: None,
    };
    let members = committee(&[key(1), key(2)]);
    let mut validator = Validator::new(local(2), 0, Some(state));
    let (_, start) = validator.init(&chain(members.clone(), BlockType::Macro, 99, 0));
    match start {
        ProducerStart::Macro { validator_id, state: resumed } => {
            assert_eq!(validator_id, 1);
            assert_eq!(resumed, Some(state));
            assert_eq!(resumed.unwrap().precommit_vote(), Some(value(1)));
        }
        _ => panic!("a macro producer was due"),
    }
    assert_eq!(validator.macro_state, None);

    let mut stale = Validator::new(local(2), 0, Some(state));
    let (_, start) = stale.init(&chain(members, BlockType::Macro, 100, 0));
    match start {
        ProducerStart::Macro { state: resumed, .. } => assert_eq!(resumed, None),
        _ => panic!("a macro producer was due"),
    }
    assert_eq!(stale.macro_state, None);
}

#[test]
fn micro_producer_starts_under_the_next_view() {
    let members = committee(&[key(1), key(2)]);
    let mut validator = Validator::new(local(1), 0, None);
    validator.on_fork_event(ForkEvent::Detected(fork_proof(1)));
    let (_, start) = validator.init(&chain(members, BlockType::Micro, 10, 3));
    match start {
        ProducerStart::Micro {
            validator_id,
            fork_proofs,
            view_number,
            view_change_proof,
            view_change,
            view_change_delay,
        } => {
            assert_eq!(validator_id, 0);
            assert_eq!(fork_proofs, vec![fork_proof(1)]);
            assert_eq!(view_number, 3);
            assert!(view_change_proof.is_none());
            assert!(view_change.is_none());
            assert_eq!(view_change_delay, 10);
        }
        _ => panic!("a micro producer was due"),
    }
    assert_eq!(validator.micro_state.view_number, 3);
}

#[test]
fn publish_only_what_the_blockchain_accepted() {
    assert!(should_publish(Some(PushResult::Extended)));
    assert!(should_publish(Some(PushResult::Rebranched)));
    assert!(!should_publish(Some(PushResult::Known)));
    assert!(!should_publish(Some(PushResult::Forked)));
    assert!(!should_publish(Some(PushResult::Ignored)));
    assert!(!should_publish(None));
}

#[test]
fn extended_and_finalized_apply_the_fork_proofs() {
    let members = committee(&[key(1), key(2)]);
    let snapshot = chain(members, BlockType::Micro, 10, 0);
    for which in 0..3 {
        let mut validator = Validator::new(local(1), 0, None);
        validator.on_fork_event(ForkEvent::Detected(fork_proof(1)));
        validator.on_fork_event(ForkEvent::Detected(fork_proof(2)));
        validator.on_fork_event(ForkEvent::Detected(fork_proof(2)));
        assert_eq!(validator.blockchain_state.fork_proofs.len(), 2);
        let block = micro(10, vec![fork_proof(1)]);
        let event = match which {
            0 => BlockchainEvent::Extended(block),
            1 => BlockchainEvent::Finalized(block),
            _ => BlockchainEvent::EpochFinalized(block),
        };
        let (setup, start) = validator.on_blockchain_event(&event, &snapshot);
        assert_eq!(setup.is_some(), which == 2);
        assert_eq!(validator.is_active(), which == 2);
        assert_eq!(matches!(start, ProducerStart::Micro { .. }), which == 2);
        assert!(!validator.blockchain_state.fork_proofs.contains(&fork_proof(1)));
        assert!(validator.blockchain_state.fork_proofs.contains(&fork_proof(2)));
    }
}

#[test]
fn rebranch_restores_the_fork_proofs_of_the_old_chain() {
    let fp = fork_proof(7);
    let members = committee(&[key(1), key(2)]);
    let snapshot = chain(members, BlockType::Micro, 12, 0);
    let mut validator = Validator::new(local(1), 0, None);
    validator.init(&snapshot);
    validator.on_fork_event(ForkEvent::Detected(fp.clone()));
    let a = micro(10, vec![]);
    let b = micro(11, vec![fp.clone()]);
    validator.on_blockchain_event(&BlockchainEvent::Extended(micro(10, vec![])), &snapshot);
    validator.on_blockchain_event(&BlockchainEvent::Extended(micro(11, vec![fp.clone()])), &snapshot);
    assert!(!validator.blockchain_state.fork_proofs.contains(&fp));
    let new_chain = vec![micro(10, vec![]), micro(11, vec![]), micro(12, vec![])];
    let event = BlockchainEvent::Rebranched(vec![a, b], new_chain);
    let (setup, start) = validator.on_blockchain_event(&event, &snapshot);
    assert!(setup.is_none());
    assert!(validator.blockchain_state.fork_proofs.contains(&fp));
    assert_eq!(validator.blockchain_state.fork_proofs.len(), 1);
    match start {
        ProducerStart::Micro { fork_proofs, .. } => assert_eq!(fork_proofs, vec![fp]),
        _ => panic!("a micro producer was due"),
    }
}

#[test]
fn rebranch_is_as_if_only_the_new_chain_had_been_applied() {
    let proofs = [fork_proof(1), fork_proof(2), fork_proof(3), fork_proof(4)];
    let old_chain = || vec![micro(10, vec![fork_proof(1)]), micro(11, vec![fork_proof(2), fork_proof(3)])];
    let new_chain = || vec![micro(10, vec![fork_proof(3)]), micro(11, vec![]), micro(12, vec![fork_proof(4)])];
    let mut rebranched = Validator::new(local(1), 0, None);
    let mut direct = Validator::new(local(1), 0, None);
    for p in &proofs {
        rebranched.on_fork_event(ForkEvent::Detected(p.clone()));
        direct.on_fork_event(ForkEvent::Detected(p.clone()));
    }
    for block in old_chain() {
        rebranched.on_blockchain_extended(&block);
    }
    rebranched.on_blockchain_rebranched(&old_chain(), &new_chain());
    for block in new_chain() {
        direct.on_blockchain_extended(&block);
    }
    for p in &proofs {
        assert_eq!(
            rebranched.blockchain_state.fork_proofs.contains(p),
            direct.blockchain_state.fork_proofs.contains(p)
        );
    }
    assert_eq!(rebranched.blockchain_state.fork_proofs.len(), 2);
    assert_eq!(direct.blockchain_state.fork_proofs.len(), 2);
}

#[test]
fn macro_events() {
    let mut validator = Validator::new(local(1), 0, None);
    assert!(matches!(validator.on_macro_event(TendermintReturn::Error, 9), ProducerAction::Nothing));
    let block = MacroBlock {
        header: MacroHeader { block_number: 10, view_number: 0, timestamp: 1 },
        extrinsics: None,
        is_election: true,
    };
    assert!(block.is_election_block());
    match validator.on_macro_event(TendermintReturn::Result(block), 9) {
        ProducerAction::PushBlock(Block::Macro(pushed)) => assert_eq!(pushed.header.block_number, 10),
        _ => panic!("the block was to be pushed"),
    }
    let update = TendermintStateUpdate {
        step: TendermintStep::Precommit,
        round: 2,
        locked_round: Some(2),
        locked_value: Some(value(3)),
        valid_round: Some(2),
        valid_value: Some(value(3)),
    };
    match validator.on_macro_event(TendermintReturn::StateUpdate(update), 99) {
        ProducerAction::Persist(state) => {
            assert_eq!(state.height, 100);
            assert_eq!(state.round, 2);
            assert_eq!(state.locked_value, Some(value(3)));
            assert_eq!(validator.macro_state, Some(state));
        }
        _ => panic!("the state was to be persisted"),
    }
    let kept = validator.macro_state;
    let action = validator.on_macro_event(TendermintReturn::StateUpdate(update), u32::MAX);
    assert!(matches!(action, ProducerAction::Nothing));
    assert_eq!(validator.macro_state, kept);
}

#[test]
fn view_numbers_only_grow_within_a_height() {
    let members = committee(&[key(1), key(2)]);
    let mut validator = Validator::new(local(1), 0, None);
    validator.init(&chain(members, BlockType::Micro, 10, 0));
    let mut emitted = Vec::new();
    for (block_number, new_view) in [(11u32, 2u32), (11, 1), (11, 2), (12, 9), (10, 9), (11, 3), (11, 0)] {
        let vc = ViewChange { block_number, new_view_number: new_view };
        let event = ProduceMicroBlockEvent::ViewChange(vc, AggregateProof::new());
        match validator.on_micro_event(event, 10) {
            ProducerAction::Restart(ProducerStart::Micro { view_number, view_change, .. }) => {
                assert_eq!(view_change, Some(vc));
                emitted.push(view_number);
            }
            ProducerAction::Nothing => {}
            _ => panic!("a view change restarts the producer or does nothing"),
        }
    }
    assert_eq!(emitted, vec![2, 3]);
    assert_eq!(validator.micro_state.view_number, 3);
}

#[test]
fn a_view_change_in_flight_survives_a_restart_at_the_same_height() {
    let members = committee(&[key(1), key(2)]);
    let mut validator = Validator::new(local(1), 0, None);
    validator.init(&chain(members.clone(), BlockType::Micro, 10, 0));
    let vc = ViewChange { block_number: 11, new_view_number: 2 };
    validator.on_micro_event(ProduceMicroBlockEvent::ViewChange(vc, AggregateProof::new()), 10);
    match validator.init_block_producer(&chain(members.clone(), BlockType::Micro, 10, 0)) {
        ProducerStart::Micro { view_number, view_change, view_change_proof, .. } => {
            assert_eq!(view_number, 2);
            assert_eq!(view_change, Some(vc));
            assert!(view_change_proof.is_some());
        }
        _ => panic!("a micro producer was due"),
    }
    match validator.init_block_producer(&chain(members, BlockType::Micro, 11, 0)) {
        ProducerStart::Micro { view_number, view_change, view_change_proof, .. } => {
            assert_eq!(view_number, 0);
            assert!(view_change.is_none());
            assert!(view_change_proof.is_none());
        }
        _ => panic!("a micro producer was due"),
    }
}

#[test]
fn micro_block_is_pushed() {
    let mut validator = Validator::new(local(1), 0, None);
    let block = MicroBlock {
        header: MicroHeader { block_number: 11, view_number: 0, timestamp: 0 },
        extrinsics: None,
    };
    match validator.on_micro_event(ProduceMicroBlockEvent::MicroBlock(block), 10) {
        ProducerAction::PushBlock(Block::Micro(pushed)) => assert_eq!(pushed.header.block_number, 11),
        _ => panic!("the block was to be pushed"),
    }
}

#[test]
fn consensus_events() {
    let members = committee(&[key(1), key(2)]);
    let snapshot = chain(members, BlockType::Micro, 10, 0);
    let mut validator = Validator::new(local(2), 0, None);
    assert!(validator.on_consensus_event(ConsensusEvent::Lost, &snapshot).is_none());
    assert!(validator.on_consensus_event(ConsensusEvent::Waiting, &snapshot).is_none());
    assert!(!validator.is_active());
    let started = validator.on_consensus_event(ConsensusEvent::Established, &snapshot);
    assert!(matches!(started, Some((_, ProducerStart::Micro { .. }))));
    assert_eq!(validator.validator_id(), 1);
}

fn four_validators(seed: u8) -> (Vec<KeyPair>, Vec<CommitteeMember>) {
    let pairs: Vec<KeyPair> = (0..4).map(|i| pair(seed + i)).collect();
    let keys: Vec<PublicKey> = pairs.iter().map(|p| p.public_key).collect();
    let members = committee(&keys);
    (pairs, members)
}

fn waiting_producer(validator: &mut Validator, members: &[CommitteeMember]) -> ProduceMicroBlock {
    let snapshot = chain(members.to_vec(), BlockType::Micro, 10, 0);
    match validator.init(&snapshot).1 {
        ProducerStart::Micro { validator_id, fork_proofs, view_number, view_change_proof, view_change, .. } => {
            ProduceMicroBlock::new(validator_id, 11, fork_proofs, view_number, view_change_proof, view_change)
        }
        _ => panic!("a micro producer was due"),
    }
}

#[test]
fn view_change_of_four_validators() {
    let (pairs, members) = four_validators(71);
    let mut validator = Validator::new(pairs[1], 0, None);
    let mut producer = waiting_producer(&mut validator, &members);
    assert_eq!(producer.start(true), SlotStart::Produce);
    assert_eq!(producer.start(false), SlotStart::Wait(10));

    // No block within the delay: the validator asks for view 1.
    let outcome = producer.on_timeout(&members, &pairs[1].secret_key);
    let own = outcome.gossip.expect("the view change is sent to the committee");
    assert_eq!(own.message, ViewChange { block_number: 11, new_view_number: 1 });
    assert_eq!(own.pk_idx, 1);
    assert!(outcome.event.is_none());

    // Two of four are no super-majority, three of four are.
    let vote = |index: usize| cast_vote(own.message, index as u16, &pairs[index].secret_key).expect("scalar");
    assert!(producer.on_view_change(&members, &vote(0)).is_none());
    let event = producer.on_view_change(&members, &vote(3)).expect("three of four have signed");
    let (view_change, proof) = match event {
        ProduceMicroBlockEvent::ViewChange(vc, proof) => (vc, proof),
        _ => panic!("a view change was due"),
    };
    assert_eq!(view_change, own.message);
    assert_eq!(proof.signers.to_vec(), vec![0, 1, 3]);
    assert!(proof.verify(&view_change, Some(3)));

    // The validator starts the producer again, under view 1 and with the proof.
    match validator.on_micro_event(ProduceMicroBlockEvent::ViewChange(view_change, proof), 10) {
        ProducerAction::Restart(ProducerStart::Micro { validator_id, view_number, view_change_proof, view_change: vc, .. }) => {
            assert_eq!(validator_id, 1);
            assert_eq!(view_number, 1);
            assert_eq!(vc, Some(view_change));
            assert_eq!(view_change_proof.expect("the proof is attached").signers.to_vec(), vec![0, 1, 3]);
        }
        _ => panic!("the producer was to be started again"),
    }
    assert_eq!(validator.micro_state.view_number, 1);
}

#[test]
fn view_change_is_signed_under_its_prefix() {
    let (pairs, members) = four_validators(75);
    let mut producer = ProduceMicroBlock::new(2, 11, vec![], 0, None, None);
    let own = producer.on_timeout(&members, &pairs[2].secret_key).gossip.expect("signed");
    let payload = Blake2bHash::digest(&[0x01, 0, 0, 0, 11, 0, 0, 0, 1]);
    assert!(pairs[2].public_key.verify_hash(&payload, &own.signature));
    assert!(producer.on_timeout(&members, &pairs[2].secret_key).gossip.is_none());
}

#[test]
fn votes_that_count_for_nothing() {
    let (pairs, members) = four_validators(79);
    let mut producer = ProduceMicroBlock::new(1, 11, vec![], 0, None, None);
    let own = producer.on_timeout(&members, &pairs[1].secret_key).gossip.expect("signed");
    // The own vote again, and a vote under the wrong index.
    assert!(producer.on_view_change(&members, &own).is_none());
    let mut wrong = cast_vote(own.message, 3, &pairs[3].secret_key).expect("scalar");
    wrong.pk_idx = 2;
    assert!(producer.on_view_change(&members, &wrong).is_none());
    // A vote of a validator that the committee does not have.
    wrong.pk_idx = 4;
    assert!(producer.on_view_change(&members, &wrong).is_none());
    let votes = producer.next_view_change.expect("the view change is in flight");
    assert_eq!(votes.proof.signers.to_vec(), vec![1]);
}

#[test]
fn timeout_without_a_next_view() {
    let members = committee(&[key(1), key(2)]);
    let mut producer = ProduceMicroBlock::new(0, 11, vec![], u32::MAX, None, None);
    let outcome = producer.on_timeout(&members, &SecretKey { bytes: [0; 95] });
    assert!(outcome.gossip.is_none() && outcome.event.is_none());
    assert!(producer.next_view_change.is_none());
    let mut unsigned = ProduceMicroBlock::new(0, 11, vec![], 0, None, None);
    let outcome = unsigned.on_timeout(&members, &SecretKey { bytes: [0xFF; 95] });
    assert!(outcome.gossip.is_none() && outcome.event.is_none());
    let vc = ViewChange { block_number: 11, new_view_number: 1 };
    let stray = SignedMessage { message: vc, pk_idx: 0, signature: Signature { bytes: [0; 95] } };
    assert!(unsigned.on_view_change(&members, &stray).is_none());
}

#[test]
fn reports_are_heard_only_when_they_matter() {
    let members = committee(&[key(1), key(2)]);
    let snapshot = chain(members, BlockType::Micro, 10, 0);
    let mut validator = Validator::new(local(1), 0, None);

    // Nothing but consensus is heard before consensus is established.
    let fork = || ValidatorEvent::Fork(ForkEvent::Detected(fork_proof(1)));
    assert!(matches!(validator.handle(fork(), &snapshot, false), Reaction::Nothing));
    assert_eq!(validator.blockchain_state.fork_proofs.len(), 0);
    let extended = || ValidatorEvent::Blockchain(BlockchainEvent::Extended(micro(10, vec![])));
    assert!(matches!(validator.handle(extended(), &snapshot, false), Reaction::Nothing));
    assert!(matches!(
        validator.handle(ValidatorEvent::Macro(TendermintReturn::Error), &snapshot, true),
        Reaction::Nothing
    ));
    assert!(matches!(
        validator.handle(ValidatorEvent::Consensus(ConsensusEvent::Lost), &snapshot, false),
        Reaction::Nothing
    ));
    assert!(!validator.is_active());

    // Consensus is established: the epoch and the producer are started.
    let reaction =
        validator.handle(ValidatorEvent::Consensus(ConsensusEvent::Established), &snapshot, false);
    assert!(matches!(reaction, Reaction::Start(Some(_), ProducerStart::Micro { .. })));
    assert!(validator.is_active());

    assert!(matches!(validator.handle(fork(), &snapshot, true), Reaction::Nothing));
    assert_eq!(validator.blockchain_state.fork_proofs.len(), 1);
    assert!(matches!(
        validator.handle(extended(), &snapshot, true),
        Reaction::Start(None, ProducerStart::Micro { .. })
    ));
    let block = MicroBlock {
        header: MicroHeader { block_number: 11, view_number: 0, timestamp: 0 },
        extrinsics: None,
    };
    let produced = || ValidatorEvent::Micro(ProduceMicroBlockEvent::MicroBlock(MicroBlock {
        header: block.header,
        extrinsics: None,
    }));
    assert!(matches!(
        validator.handle(produced(), &snapshot, true),
        Reaction::Producer(ProducerAction::PushBlock(Block::Micro(_)))
    ));
    assert!(matches!(validator.handle(produced(), &snapshot, false), Reaction::Nothing));
    assert!(matches!(
        validator.handle(ValidatorEvent::Macro(TendermintReturn::Error), &snapshot, true),
        Reaction::Producer(ProducerAction::Nothing)
    ));
    assert!(matches!(
        validator.handle(ValidatorEvent::ConsensusClosed, &snapshot, true),
        Reaction::Terminate
    ));
}

#[test]
fn resumed_precommit_is_signed_and_decided() {
    let pairs = [pair(81), pair(82), pair(83), pair(84)];
    let keys: Vec<PublicKey> = pairs.iter().map(|p| p.public_key).collect();
    let members = committee(&keys);
    let v = value(0x77);
    let persisted = PersistedMacroState {
        height: 100,
        step: TendermintStep::Precommit,
        round: 2,
        locked_round: Some(2),
        locked_value: Some(v),
        valid_round: Some(2),
        valid_value: Some(v),
    };
    let mut validator = Validator::new(pairs[0], 0, Some(persisted));
    let (_, start) = validator.init(&chain(members.clone(), BlockType::Macro, 99, 0));
    let (validator_id, resumed) = match start {
        ProducerStart::Macro { validator_id, state } => (validator_id, state.expect("resumed")),
        _ => panic!("a macro producer was due"),
    };
    assert_eq!(resumed.round, 2);
    let block_hash = resumed.precommit_vote().expect("the node had precommitted");
    assert_eq!(block_hash, v);
    let commit = PbftCommitMessage { block_hash };
    let own = cast_vote(commit, validator_id, &pairs[0].secret_key).expect("scalar");
    assert_eq!(own.pk_idx, 0);

    let mut commits = VoteAggregator::new(commit);
    assert!(commits.decision(&members).is_none());
    assert!(commits.add_vote(&members, &own).accepted);
    let second = cast_vote(commit, 2, &pairs[2].secret_key).expect("scalar");
    let outcome = commits.add_vote(&members, &second);
    assert!(outcome.accepted && !outcome.complete);
    assert!(commits.decision(&members).is_none());
    // A vote for another value does not count.
    let other = cast_vote(PbftCommitMessage { block_hash: value(1) }, 1, &pairs[1].secret_key)
        .expect("scalar");
    let outcome = commits.add_vote(&members, &other);
    assert!(!outcome.accepted && !outcome.complete);
    let third = cast_vote(commit, 3, &pairs[3].secret_key).expect("scalar");
    let outcome = commits.add_vote(&members, &third);
    assert!(outcome.accepted && outcome.complete);
    let proof = commits.decision(&members).expect("three of four have committed");
    assert_eq!(proof.signers.to_vec(), vec![0, 2, 3]);
    assert!(proof.verify(&commit, Some(3)));
}

#[test]
fn candidates_are_votes_for_the_message_by_a_validator() {
    let members = committee(&[key(1), key(2)]);
    let message = ViewChange { block_number: 11, new_view_number: 1 };
    let votes = VoteAggregator::new(message);
    let vote = |message: ViewChange, pk_idx: u16| SignedMessage {
        message,
        pk_idx,
        signature: Signature { bytes: [0; 95] },
    };
    assert!(votes.is_candidate(&members, &vote(message, 0)));
    assert!(votes.is_candidate(&members, &vote(message, 1)));
    assert!(!votes.is_candidate(&members, &vote(message, 2)));
    assert!(!votes.is_candidate(&members, &vote(message, u16::MAX)));
    assert!(!votes.is_candidate(&members, &vote(ViewChange { block_number: 11, new_view_number: 2 }, 0)));
    assert!(!votes.is_candidate(&members, &vote(ViewChange { block_number: 12, new_view_number: 1 }, 0)));
    assert!(!votes.is_candidate(&vec![], &vote(message, 0)));
}

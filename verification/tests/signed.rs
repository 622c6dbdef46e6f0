use albatross_validator::crypto::{Blake2bHash, KeyPair, PublicKey, SecretKey, Signature};
use albatross_validator::messages::{PbftCommitMessage, PbftPrepareMessage, ViewChange};
use albatross_validator::signed::{
    AggregateError, AggregateProof, Message, SignedMessage, PREFIX_PBFT_COMMIT,
    PREFIX_PBFT_PREPARE, PREFIX_POKOSK, PREFIX_VIEW_CHANGE,
};

fn pair(n: u8) -> KeyPair {
    let mut bytes = [0u8; 95];
    bytes[0] = n;
    KeyPair::from_secret(SecretKey { bytes }).expect("scalar")
}

fn signed(message: ViewChange, index: u16, key: &KeyPair) -> SignedMessage<ViewChange> {
    SignedMessage {
        message,
        pk_idx: index,
        signature: message.sign(&key.secret_key).expect("scalar"),
    }
}

fn content<M: Message>(message: &M) -> Vec<u8> {
    let mut out = Vec::new();
    message.serialize_content(&mut out);
    out
}

#[test]
fn prefixes() {
    assert_eq!(PREFIX_VIEW_CHANGE, 0x01);
    assert_eq!(PREFIX_PBFT_PREPARE, 0x02);
    assert_eq!(PREFIX_PBFT_COMMIT, 0x03);
    assert_eq!(PREFIX_POKOSK, 0x04);
    assert_eq!(ViewChange::prefix(), 0x01);
    assert_eq!(PbftPrepareMessage::prefix(), 0x02);
    assert_eq!(PbftCommitMessage::prefix(), 0x03);
}

#[test]
fn view_change_content_is_big_endian() {
    let vc = ViewChange { block_number: 0x0102_0304, new_view_number: 7 };
    assert_eq!(content(&vc), vec![1, 2, 3, 4, 0, 0, 0, 7]);
    assert_eq!(ViewChange::deserialize_content(&vec![9, 1, 2, 3, 4, 0, 0, 0, 7], 1), Some((vc, 9)));
    assert_eq!(ViewChange::deserialize_content(&vec![1, 2, 3, 4, 0, 0, 0], 0), None);
}

#[test]
fn vote_content_is_the_hash() {
    let block_hash = Blake2bHash { bytes: [0x11; 32] };
    let prepare = PbftPrepareMessage { block_hash };
    let commit = PbftCommitMessage { block_hash };
    assert_eq!(content(&prepare), vec![0x11; 32]);
    assert_eq!(content(&commit), vec![0x11; 32]);
    assert_eq!(PbftPrepareMessage::deserialize_content(&vec![0x11; 32], 0), Some((prepare, 32)));
    assert_eq!(PbftCommitMessage::deserialize_content(&vec![0x11; 33], 1), Some((commit, 33)));
    assert_eq!(PbftCommitMessage::deserialize_content(&vec![0x11; 31], 0), None);
}

#[test]
fn hash_with_prefix_is_blake2b_of_prefix_and_content() {
    let vc = ViewChange { block_number: 5, new_view_number: 1 };
    let expected = Blake2bHash::digest(&[1, 0, 0, 0, 5, 0, 0, 0, 1]);
    assert_eq!(vc.hash_with_prefix(), expected);
    let block_hash = Blake2bHash { bytes: [3; 32] };
    let mut payload = vec![2u8];
    payload.extend_from_slice(&[3; 32]);
    assert_eq!(PbftPrepareMessage { block_hash }.hash_with_prefix(), Blake2bHash::digest(&payload));
    payload[0] = 3;
    assert_eq!(PbftCommitMessage { block_hash }.hash_with_prefix(), Blake2bHash::digest(&payload));
}

#[test]
fn signed_message_verifies_under_the_signer_only() {
    let key = pair(11);
    let other = pair(12);
    let message = signed(ViewChange { block_number: 9, new_view_number: 2 }, 0, &key);
    assert!(message.verify(&key.public_key));
    assert!(!message.verify(&other.public_key));
    let mut forged = signed(ViewChange { block_number: 9, new_view_number: 2 }, 0, &key);
    forged.message.new_view_number = 3;
    assert!(!forged.verify(&key.public_key));
}

#[test]
fn domain_separation() {
    let key = pair(13);
    let block_hash = Blake2bHash { bytes: [0x42; 32] };
    let prepare = PbftPrepareMessage { block_hash };
    let commit = PbftCommitMessage { block_hash };
    let signature = prepare.sign(&key.secret_key).expect("scalar");
    let as_prepare = SignedMessage { message: prepare, pk_idx: 0, signature };
    let as_commit = SignedMessage { message: commit, pk_idx: 0, signature };
    assert!(as_prepare.verify(&key.public_key));
    assert!(!as_commit.verify(&key.public_key));
    assert_ne!(prepare.hash_with_prefix(), commit.hash_with_prefix());
}

#[test]
fn view_change_signature_is_no_vote_signature() {
    let key = pair(14);
    let payload = [0u8, 0, 0, 9, 0, 0, 0, 1];
    let vc = ViewChange { block_number: 9, new_view_number: 1 };
    let signature = vc.sign(&key.secret_key).expect("scalar");
    for prefix in [PREFIX_PBFT_PREPARE, PREFIX_PBFT_COMMIT, PREFIX_POKOSK] {
        let mut other = vec![prefix];
        other.extend_from_slice(&payload);
        assert!(!key.public_key.verify_hash(&Blake2bHash::digest(&other), &signature));
    }
    let mut own = vec![PREFIX_VIEW_CHANGE];
    own.extend_from_slice(&payload);
    assert!(key.public_key.verify_hash(&Blake2bHash::digest(&own), &signature));
}

#[test]
fn sign_fails_for_a_key_that_is_no_scalar() {
    let vc = ViewChange { block_number: 1, new_view_number: 1 };
    assert!(vc.sign(&SecretKey { bytes: [0xFF; 95] }).is_none());
    assert!(KeyPair::from_secret(SecretKey { bytes: [0xFF; 95] }).is_none());
}

#[test]
fn signed_message_round_trip() {
    let signature = Signature { bytes: [0x5A; 95] };
    for index in [0u16, 0x7F, 0x80, 511, 0x4080, 0xFFFF] {
        let message = SignedMessage {
            message: ViewChange { block_number: 77, new_view_number: 3 },
            pk_idx: index,
            signature,
        };
        let bytes = message.serialize();
        let back = SignedMessage::<ViewChange>::deserialize(&bytes).expect("well-formed");
        assert_eq!(back.message, message.message);
        assert_eq!(back.pk_idx, index);
        assert_eq!(back.signature, signature);
        assert_eq!(back.serialize(), bytes);
    }
}

#[test]
fn signed_message_layout() {
    let message = SignedMessage {
        message: ViewChange { block_number: 1, new_view_number: 2 },
        pk_idx: 0x80,
        signature: Signature { bytes: [7; 95] },
    };
    let bytes = message.serialize();
    assert_eq!(bytes.len(), 8 + 2 + 95);
    assert_eq!(&bytes[..10], &[0, 0, 0, 1, 0, 0, 0, 2, 0x80, 0x00]);
    assert!(bytes[10..].iter().all(|b| *b == 7));
}

#[test]
fn signed_message_rejects_malformed_bytes() {
    let message = SignedMessage {
        message: ViewChange { block_number: 1, new_view_number: 2 },
        pk_idx: 5,
        signature: Signature { bytes: [7; 95] },
    };
    let bytes = message.serialize();
    assert!(SignedMessage::<ViewChange>::deserialize(&bytes[..bytes.len() - 1].to_vec()).is_none());
    let mut long = bytes.clone();
    long.push(0);
    assert!(SignedMessage::<ViewChange>::deserialize(&long).is_none());
    assert!(SignedMessage::<ViewChange>::deserialize(&vec![]).is_none());
    assert_eq!(SignedMessage::<ViewChange>::parse(&long, 0).map(|p| p.1), Some(bytes.len()));
}

#[test]
fn empty_proof() {
    let proof = AggregateProof::<ViewChange>::new();
    assert_eq!(proof.signers.len(), 0);
    assert_eq!(proof.public_key, PublicKey::identity());
    assert_eq!(proof.signature, Signature::identity());
    let roomy = AggregateProof::<ViewChange>::with_capacity(usize::MAX);
    assert_eq!(roomy.signers.len(), 0);
    assert!(proof.threshold_reached(None));
    assert!(proof.threshold_reached(Some(0)));
    assert!(!proof.threshold_reached(Some(1)));
}

#[test]
fn add_signature_is_idempotent() {
    let key = pair(21);
    let vc = ViewChange { block_number: 4, new_view_number: 1 };
    let vote = signed(vc, 3, &key);
    let mut proof = AggregateProof::<ViewChange>::new();
    assert!(!proof.contains(&vote));
    proof.add_signature(&key.public_key, &vote);
    assert!(proof.contains(&vote));
    assert_eq!(proof.signers.len(), 1);
    let key_after_one = proof.public_key;
    let signature_after_one = proof.signature;
    assert_eq!(key_after_one, key.public_key);
    assert_eq!(signature_after_one, vote.signature);
    proof.add_signature(&key.public_key, &vote);
    assert_eq!(proof.signers.len(), 1);
    assert_eq!(proof.public_key, key_after_one);
    assert_eq!(proof.signature, signature_after_one);
    assert!(proof.verify(&vc, Some(1)));
    assert!(!proof.verify(&vc, Some(2)));
    assert!(proof.verify(&vc, None));
    assert!(!proof.verify(&ViewChange { block_number: 4, new_view_number: 2 }, None));
}

#[test]
fn signers_count_the_distinct_indices_added() {
    let keys = [pair(31), pair(32), pair(33)];
    let vc = ViewChange { block_number: 4, new_view_number: 1 };
    let mut proof = AggregateProof::<ViewChange>::new();
    for index in [2u16, 0, 2, 1, 0, 2] {
        let key = &keys[index as usize];
        proof.add_signature(&key.public_key, &signed(vc, index, key));
    }
    assert_eq!(proof.signers.len(), 3);
    assert_eq!(proof.signers.to_vec(), vec![0, 1, 2]);
    assert!(proof.verify(&vc, Some(3)));
    assert!(!proof.verify(&vc, Some(4)));
}

#[test]
fn contributions_that_cannot_be_aggregated_are_not_added() {
    let key = pair(41);
    let vc = ViewChange { block_number: 4, new_view_number: 1 };
    let mut proof = AggregateProof::<ViewChange>::new();
    let out_of_range = signed(vc, 512, &key);
    proof.add_signature(&key.public_key, &out_of_range);
    assert_eq!(proof.signers.len(), 0);
    let garbage = SignedMessage { message: vc, pk_idx: 1, signature: Signature { bytes: [0xFF; 95] } };
    proof.add_signature(&key.public_key, &garbage);
    assert_eq!(proof.signers.len(), 0);
    assert_eq!(proof.public_key, PublicKey::identity());
    let last_slot = signed(vc, 511, &key);
    proof.add_signature(&key.public_key, &last_slot);
    assert_eq!(proof.signers.to_vec(), vec![511]);
}

#[test]
fn merge_of_disjoint_proofs() {
    let a = pair(51);
    let b = pair(52);
    let vc = ViewChange { block_number: 4, new_view_number: 1 };
    let mut left = AggregateProof::<ViewChange>::new();
    left.add_signature(&a.public_key, &signed(vc, 0, &a));
    let mut right = AggregateProof::<ViewChange>::new();
    right.add_signature(&b.public_key, &signed(vc, 1, &b));
    assert_eq!(left.merge(&right), Ok(()));
    assert_eq!(left.signers.to_vec(), vec![0, 1]);
    assert!(left.verify(&vc, Some(2)));
}

#[test]
fn merge_of_overlapping_proofs() {
    let a = pair(53);
    let vc = ViewChange { block_number: 4, new_view_number: 1 };
    let mut left = AggregateProof::<ViewChange>::new();
    left.add_signature(&a.public_key, &signed(vc, 0, &a));
    let right = left.duplicate();
    let key_before = left.public_key;
    assert_eq!(left.merge(&right), Err(AggregateError::Overlapping));
    assert_eq!(left.signers.to_vec(), vec![0]);
    assert_eq!(left.public_key, key_before);
}

#[test]
fn merge_of_a_malformed_proof() {
    let mut left = AggregateProof::<ViewChange>::new();
    let mut right = AggregateProof::<ViewChange>::new();
    right.public_key = PublicKey { bytes: [0xFF; 285] };
    assert_eq!(left.merge(&right), Err(AggregateError::Malformed));
    assert_eq!(left.public_key, PublicKey::identity());
    assert_eq!(left.signers.len(), 0);
}

#[test]
fn aggregate_proof_round_trip() {
    let a = pair(61);
    let b = pair(62);
    let vc = ViewChange { block_number: 4, new_view_number: 1 };
    let mut proof = AggregateProof::<ViewChange>::new();
    proof.add_signature(&a.public_key, &signed(vc, 300, &a));
    proof.add_signature(&b.public_key, &signed(vc, 2, &b));
    let bytes = proof.serialize();
    assert_eq!(bytes.len(), 2 + 2 * 2 + 285 + 95);
    assert_eq!(&bytes[..6], &[0, 2, 0, 2, 1, 44]);
    let back = AggregateProof::<ViewChange>::deserialize(&bytes).expect("well-formed");
    assert_eq!(back.signers.to_vec(), vec![2, 300]);
    assert_eq!(back.public_key, proof.public_key);
    assert_eq!(back.signature, proof.signature);
    assert_eq!(back.serialize(), bytes);
    assert!(back.verify(&vc, Some(2)));
}

#[test]
fn aggregate_proof_rejects_malformed_bytes() {
    let empty = AggregateProof::<ViewChange>::new().serialize();
    assert_eq!(empty.len(), 2 + 380);
    assert!(AggregateProof::<ViewChange>::deserialize(&empty).is_some());
    assert!(AggregateProof::<ViewChange>::deserialize(&empty[1..].to_vec()).is_none());
    let mut long = empty.clone();
    long.push(0);
    assert!(AggregateProof::<ViewChange>::deserialize(&long).is_none());
    let tail = vec![0u8; 380];
    let with = |head: &[u8]| {
        let mut bytes = head.to_vec();
        bytes.extend_from_slice(&tail);
        AggregateProof::<ViewChange>::deserialize(&bytes).is_some()
    };
    assert!(with(&[0, 2, 0, 1, 0, 2]));
    assert!(!with(&[0, 2, 0, 2, 0, 1]));
    assert!(!with(&[0, 2, 0, 1, 0, 1]));
    assert!(!with(&[0, 1, 2, 0]));
    assert!(with(&[0, 1, 1, 255]));
    assert!(!with(&[0, 2, 0, 1]));
}

#[test]
fn add_sums_takes_the_sums_in() {
    let k = PublicKey { bytes: [1; 285] };
    let s = Signature { bytes: [2; 95] };
    let k2 = PublicKey { bytes: [3; 285] };
    let s2 = Signature { bytes: [4; 95] };
    let mut proof = AggregateProof::<ViewChange>::new();
    proof.add_sums(5, Some(k), Some(s));
    assert_eq!(proof.signers.to_vec(), vec![5]);
    assert_eq!((proof.public_key, proof.signature), (k, s));
    // The same signer again, a missing sum, an index beyond the committee.
    proof.add_sums(5, Some(k2), Some(s2));
    proof.add_sums(6, None, Some(s2));
    proof.add_sums(6, Some(k2), None);
    proof.add_sums(6, None, None);
    proof.add_sums(512, Some(k2), Some(s2));
    proof.add_sums(u16::MAX, Some(k2), Some(s2));
    assert_eq!(proof.signers.to_vec(), vec![5]);
    assert_eq!((proof.public_key, proof.signature), (k, s));
    proof.add_sums(511, Some(k2), Some(s2));
    assert_eq!(proof.signers.to_vec(), vec![5, 511]);
    assert_eq!((proof.public_key, proof.signature), (k2, s2));
}

#[test]
fn merge_sums_takes_the_sums_in() {
    let k = PublicKey { bytes: [1; 285] };
    let s = Signature { bytes: [2; 95] };
    let mut left = AggregateProof::<ViewChange>::new();
    left.add_sums(1, Some(k), Some(s));
    let mut other = AggregateProof::<ViewChange>::new();
    other.add_sums(1, Some(k), Some(s));
    other.add_sums(2, Some(k), Some(s));
    assert_eq!(left.merge_sums(&other.signers, Some(k), Some(s)), Err(AggregateError::Overlapping));
    let mut disjoint = AggregateProof::<ViewChange>::new();
    disjoint.add_sums(2, Some(k), Some(s));
    disjoint.add_sums(3, Some(k), Some(s));
    assert_eq!(left.merge_sums(&disjoint.signers, None, Some(s)), Err(AggregateError::Malformed));
    assert_eq!(left.merge_sums(&disjoint.signers, Some(k), None), Err(AggregateError::Malformed));
    assert_eq!(left.signers.to_vec(), vec![1]);
    let k2 = PublicKey { bytes: [3; 285] };
    let s2 = Signature { bytes: [4; 95] };
    assert_eq!(left.merge_sums(&disjoint.signers, Some(k2), Some(s2)), Ok(()));
    assert_eq!(left.signers.to_vec(), vec![1, 2, 3]);
    assert_eq!((left.public_key, left.signature), (k2, s2));
}

#[test]
fn payload_is_prefix_then_content() {
    let vc = ViewChange { block_number: 11, new_view_number: 1 };
    assert_eq!(vc.payload(), vec![0x01, 0, 0, 0, 11, 0, 0, 0, 1]);
    let block_hash = Blake2bHash { bytes: [9; 32] };
    let mut prepare = vec![0x02u8];
    prepare.extend_from_slice(&[9; 32]);
    let mut commit = prepare.clone();
    commit[0] = 0x03;
    assert_eq!(PbftPrepareMessage { block_hash }.payload(), prepare);
    assert_eq!(PbftCommitMessage { block_hash }.payload(), commit);
}

use albatross_validator::crypto::{Blake2bHash, KeyPair, PublicKey, SecretKey, Signature};

fn secret(n: u8) -> SecretKey {
    let mut bytes = [0u8; 95];
    bytes[0] = n;
    SecretKey { bytes }
}

#[test]
fn identity_public_key_is_the_empty_aggregate() {
    let empty = nimiq_bls::AggregatePublicKey::new();
    assert_eq!(PublicKey::identity().bytes, empty.0.compress().public_key);
}

#[test]
fn identity_signature_is_the_empty_aggregate() {
    let empty = nimiq_bls::AggregateSignature::new();
    assert_eq!(Signature::identity().bytes, empty.0.compress().signature);
}

#[test]
fn digest_of_the_empty_string() {
    let hash = Blake2bHash::digest(&[]);
    assert_eq!(
        hex::encode(hash.bytes),
        "0e5751c026e543b2e8ab2eb06099daa1d1e5df47778f7787faab45cdf12fe3a8"
    );
}

#[test]
fn digest_depends_on_the_data() {
    assert_ne!(Blake2bHash::digest(&[1u8]), Blake2bHash::digest(&[2u8]));
    assert_eq!(Blake2bHash::digest(&[1u8, 2]), Blake2bHash::digest(&[1u8, 2]));
}

#[test]
fn sign_then_verify() {
    let pair = KeyPair::from_secret(secret(7)).expect("scalar");
    let hash = Blake2bHash::digest(b"message");
    let signature = pair.secret_key.sign_hash(&hash).expect("scalar");
    assert!(pair.public_key.verify_hash(&hash, &signature));
    let other = Blake2bHash::digest(b"other message");
    assert!(!pair.public_key.verify_hash(&other, &signature));
    let stranger = KeyPair::from_secret(secret(8)).expect("scalar");
    assert!(!stranger.public_key.verify_hash(&hash, &signature));
}

#[test]
fn malformed_points_do_not_verify_or_aggregate() {
    let garbage_key = PublicKey { bytes: [0xFFu8; 285] };
    let garbage_signature = Signature { bytes: [0xFFu8; 95] };
    let hash = Blake2bHash::digest(b"message");
    assert!(!garbage_key.verify_hash(&hash, &garbage_signature));
    assert!(PublicKey::identity().aggregate(&garbage_key).is_none());
    assert!(Signature::identity().aggregate(&garbage_signature).is_none());
}

#[test]
fn aggregate_with_identity_is_the_key_itself() {
    let pair = KeyPair::from_secret(secret(9)).expect("scalar");
    let sum = PublicKey::identity().aggregate(&pair.public_key).expect("points");
    assert_eq!(sum, pair.public_key);
}

#[test]
fn aggregate_signature_verifies_under_aggregate_key() {
    let a = KeyPair::from_secret(secret(3)).expect("scalar");
    let b = KeyPair::from_secret(secret(5)).expect("scalar");
    let hash = Blake2bHash::digest(b"vote");
    let sa = a.secret_key.sign_hash(&hash).expect("scalar");
    let sb = b.secret_key.sign_hash(&hash).expect("scalar");
    let key = a.public_key.aggregate(&b.public_key).expect("points");
    let signature = sa.aggregate(&sb).expect("points");
    assert!(key.verify_hash(&hash, &signature));
    assert!(!a.public_key.verify_hash(&hash, &signature));
}

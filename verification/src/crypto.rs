//! Keys, signatures and hashes as plain bytes, and the calls into the hash
//! and BLS crates that compute with them.
//!
//! The validator's own logic never looks inside a key or a signature: it
//! stores them, compares them and hands them to the BLS crate. They are kept
//! here in their compressed byte form, and every cryptographic result is
//! named by a spec function of the bytes that went in.
use vstd::prelude::*;

verus! {

/// Length of a Blake2b digest.
pub const HASH_SIZE: usize = 32;

/// Length of a compressed BLS public key.
pub const PUBLIC_KEY_SIZE: usize = 285;

/// Length of a compressed BLS signature.
pub const SIGNATURE_SIZE: usize = 95;

/// Length of a serialized BLS secret key.
pub const SECRET_KEY_SIZE: usize = 95;

/// A Blake2b digest.
#[derive(Clone, Copy, Debug, PartialEq, Eq, Hash)]
pub struct Blake2bHash {
    pub bytes: [u8; 32],
}

/// A BLS public key in compressed form.
#[derive(Clone, Copy, Debug, PartialEq, Eq, Hash)]
pub struct PublicKey {
    pub bytes: [u8; 285],
}

/// A BLS signature in compressed form.
#[derive(Clone, Copy, Debug, PartialEq, Eq, Hash)]
pub struct Signature {
    pub bytes: [u8; 95],
}

/// A BLS secret key in serialized form.
#[derive(Clone, Copy, PartialEq, Eq)]
pub struct SecretKey {
    pub bytes: [u8; 95],
}

/// A secret key together with the public key derived from it.
#[derive(Clone, Copy, PartialEq, Eq)]
pub struct KeyPair {
    pub secret_key: SecretKey,
    pub public_key: PublicKey,
}

impl View for Blake2bHash {
    type V = Seq<u8>;

    open spec fn view(&self) -> Seq<u8> {
        self.bytes@
    }
}

impl View for PublicKey {
    type V = Seq<u8>;

    open spec fn view(&self) -> Seq<u8> {
        self.bytes@
    }
}

impl View for Signature {
    type V = Seq<u8>;

    open spec fn view(&self) -> Seq<u8> {
        self.bytes@
    }
}

impl View for SecretKey {
    type V = Seq<u8>;

    open spec fn view(&self) -> Seq<u8> {
        self.bytes@
    }
}

/// The Blake2b digest (32 bytes of output) of a byte string.
pub uninterp spec fn blake2b(data: Seq<u8>) -> Seq<u8>;

/// Whether `signature` is a valid BLS signature by `public_key` over the
/// 32-byte `hash`. It is false whenever either byte string is not the
/// encoding of a group element.
pub uninterp spec fn bls_verifies(public_key: Seq<u8>, hash: Seq<u8>, signature: Seq<u8>) -> bool;

/// The compressed signature that the secret key `secret_key` makes over the
/// 32-byte `hash`, or nothing when `secret_key` is not the encoding of a scalar.
pub uninterp spec fn bls_signature(secret_key: Seq<u8>, hash: Seq<u8>) -> Option<Seq<u8>>;

/// The compressed public key that belongs to `secret_key`, or nothing when
/// `secret_key` is not the encoding of a scalar.
pub uninterp spec fn bls_public_key(secret_key: Seq<u8>) -> Option<Seq<u8>>;

/// The compressed sum of two compressed public keys, or nothing when either
/// is not the encoding of a group element.
pub uninterp spec fn bls_public_key_sum(aggregate: Seq<u8>, key: Seq<u8>) -> Option<Seq<u8>>;

/// The compressed sum of two compressed signatures, or nothing when either
/// is not the encoding of a group element.
pub uninterp spec fn bls_signature_sum(aggregate: Seq<u8>, signature: Seq<u8>) -> Option<Seq<u8>>;

/// Calls `nimiq_hash::Blake2bHasher` on `data`: a fresh hasher, one write of
/// all of `data`, then `finish`. The digest is a function of `data` alone.
#[verifier::external_body]
pub(crate) fn blake2b_digest(data: &[u8]) -> (digest: [u8; 32])
    ensures
        digest@ == blake2b(data@),
{
    nimiq_hash::Hasher::digest(nimiq_hash::Blake2bHasher::new(), data).0
}

/// Calls `nimiq_bls::PublicKey::verify_hash` after decompressing the key and
/// the signature. Where one of them does not decompress, nothing verifies.
/// The 32 bytes of `hash` are handed over as they are, in the type that the
/// BLS crate takes a hash in; the crate maps them to a point of the curve.
#[verifier::external_body]
pub(crate) fn bls_verify_hash(public_key: &[u8; 285], hash: &[u8; 32], signature: &[u8; 95]) -> (ok:
    bool)
    ensures
        ok == bls_verifies(public_key@, hash@, signature@),
{
    let key = nimiq_bls::CompressedPublicKey { public_key: *public_key }.uncompress();
    let sig = nimiq_bls::CompressedSignature { signature: *signature }.uncompress();
    match (key, sig) {
        (Ok(key), Ok(sig)) => key.verify_hash(nimiq_hash::Blake2sHash::from(*hash), &sig),
        _ => false,
    }
}

/// Calls `nimiq_bls::SecretKey::sign_hash` after reading the secret key from
/// its serialized form, and compresses the signature. The 32 bytes of `hash`
/// are handed over as they are. The signature is a function of the key and
/// the hash alone: signing draws no random number.
#[verifier::external_body]
pub(crate) fn bls_sign_hash(secret_key: &[u8; 95], hash: &[u8; 32]) -> (signature: Option<[u8; 95]>)
    ensures
        match bls_signature(secret_key@, hash@) {
            Some(s) => signature.is_some() && signature.unwrap()@ == s,
            None => signature.is_none(),
        },
{
    let key: nimiq_bls::SecretKey = nimiq_hash::nimiq_serde::Deserialize::deserialize_from_vec(
        &secret_key[..],
    ).ok()?;
    Some(key.sign_hash(nimiq_hash::Blake2sHash::from(*hash)).compress().signature)
}

/// Calls `nimiq_bls::PublicKey::from_secret` after reading the secret key
/// from its serialized form, and compresses the public key.
#[verifier::external_body]
pub(crate) fn bls_derive_public_key(secret_key: &[u8; 95]) -> (public_key: Option<[u8; 285]>)
    ensures
        match bls_public_key(secret_key@) {
            Some(k) => public_key.is_some() && public_key.unwrap()@ == k,
            None => public_key.is_none(),
        },
{
    let key: nimiq_bls::SecretKey = nimiq_hash::nimiq_serde::Deserialize::deserialize_from_vec(
        &secret_key[..],
    ).ok()?;
    Some(nimiq_bls::PublicKey::from_secret(&key).compress().public_key)
}

/// Calls `nimiq_bls::AggregatePublicKey::aggregate` on the two decompressed
/// keys and compresses the sum.
#[verifier::external_body]
pub(crate) fn bls_aggregate_public_key(aggregate: &[u8; 285], key: &[u8; 285]) -> (sum: Option<
    [u8; 285],
>)
    ensures
        match bls_public_key_sum(aggregate@, key@) {
            Some(s) => sum.is_some() && sum.unwrap()@ == s,
            None => sum.is_none(),
        },
{
    let total = nimiq_bls::CompressedPublicKey { public_key: *aggregate }.uncompress().ok()?;
    let key = nimiq_bls::CompressedPublicKey { public_key: *key }.uncompress().ok()?;
    let mut total = nimiq_bls::AggregatePublicKey(total);
    total.aggregate(&key);
    Some(total.0.compress().public_key)
}

/// Calls `nimiq_bls::AggregateSignature::aggregate` on the two decompressed
/// signatures and compresses the sum.
#[verifier::external_body]
pub(crate) fn bls_aggregate_signature(aggregate: &[u8; 95], signature: &[u8; 95]) -> (sum: Option<
    [u8; 95],
>)
    ensures
        match bls_signature_sum(aggregate@, signature@) {
            Some(s) => sum.is_some() && sum.unwrap()@ == s,
            None => sum.is_none(),
        },
{
    let total = nimiq_bls::CompressedSignature { signature: *aggregate }.uncompress().ok()?;
    let signature = nimiq_bls::CompressedSignature { signature: *signature }.uncompress().ok()?;
    let mut total = nimiq_bls::AggregateSignature(total);
    total.aggregate(&signature);
    Some(total.0.compress().signature)
}

/// The encoding of the neutral element of a group whose compressed points
/// take `n` bytes: every byte zero but the last, which carries the
/// point-at-infinity flag.
pub open spec fn identity_encoding(n: nat) -> Seq<u8> {
    Seq::new(n, |i: int| if i == n - 1 { 0x40u8 } else { 0u8 })
}

impl Blake2bHash {
    /// The Blake2b digest of `data`.
    pub fn digest(data: &[u8]) -> (hash: Blake2bHash)
        ensures
            hash@ == blake2b(data@),
    {
        Blake2bHash { bytes: blake2b_digest(data) }
    }

    /// Whether two digests hold the same bytes.
    pub fn same(&self, other: &Blake2bHash) -> (r: bool)
        ensures
            r == (self@ == other@),
    {
        crate::codec::bytes_equal(self.bytes.as_slice(), other.bytes.as_slice())
    }
}

impl PublicKey {
    /// The neutral element: the aggregate of no key at all.
    pub fn identity() -> (key: PublicKey)
        ensures
            key@ == identity_encoding(285),
    {
        let mut bytes = [0u8; 285];
        bytes[284] = 0x40u8;
        assert(bytes@ =~= identity_encoding(285));
        PublicKey { bytes }
    }

    /// Whether two keys hold the same bytes.
    pub fn same(&self, other: &PublicKey) -> (r: bool)
        ensures
            r == (self@ == other@),
    {
        crate::codec::bytes_equal(self.bytes.as_slice(), other.bytes.as_slice())
    }

    /// Whether `signature` is valid for this key over `hash`.
    pub fn verify_hash(&self, hash: &Blake2bHash, signature: &Signature) -> (ok: bool)
        ensures
            ok == bls_verifies(self@, hash@, signature@),
    {
        bls_verify_hash(&self.bytes, &hash.bytes, &signature.bytes)
    }

    /// The sum of this aggregate and `key`, where both are group elements.
    pub fn aggregate(&self, key: &PublicKey) -> (sum: Option<PublicKey>)
        ensures
            match bls_public_key_sum(self@, key@) {
                Some(s) => sum.is_some() && sum.unwrap()@ == s,
                None => sum.is_none(),
            },
    {
        match bls_aggregate_public_key(&self.bytes, &key.bytes) {
            Some(bytes) => Some(PublicKey { bytes }),
            None => None,
        }
    }
}

impl Signature {
    /// The neutral element: the aggregate of no signature at all.
    pub fn identity() -> (signature: Signature)
        ensures
            signature@ == identity_encoding(95),
    {
        let mut bytes = [0u8; 95];
        bytes[94] = 0x40u8;
        assert(bytes@ =~= identity_encoding(95));
        Signature { bytes }
    }

    /// Whether two signatures hold the same bytes.
    pub fn same(&self, other: &Signature) -> (r: bool)
        ensures
            r == (self@ == other@),
    {
        crate::codec::bytes_equal(self.bytes.as_slice(), other.bytes.as_slice())
    }

    /// The sum of this aggregate and `signature`, where both are group elements.
    pub fn aggregate(&self, signature: &Signature) -> (sum: Option<Signature>)
        ensures
            match bls_signature_sum(self@, signature@) {
                Some(s) => sum.is_some() && sum.unwrap()@ == s,
                None => sum.is_none(),
            },
    {
        match bls_aggregate_signature(&self.bytes, &signature.bytes) {
            Some(bytes) => Some(Signature { bytes }),
            None => None,
        }
    }
}

impl SecretKey {
    /// Signs `hash`, where this key is the encoding of a scalar.
    pub fn sign_hash(&self, hash: &Blake2bHash) -> (signature: Option<Signature>)
        ensures
            match bls_signature(self@, hash@) {
                Some(s) => signature.is_some() && signature.unwrap()@ == s,
                None => signature.is_none(),
            },
    {
        match bls_sign_hash(&self.bytes, &hash.bytes) {
            Some(bytes) => Some(Signature { bytes }),
            None => None,
        }
    }
}

impl KeyPair {
    /// The key pair of `secret_key`, where it is the encoding of a scalar.
    pub fn from_secret(secret_key: SecretKey) -> (pair: Option<KeyPair>)
        ensures
            match bls_public_key(secret_key@) {
                Some(k) => pair.is_some() && pair.unwrap().secret_key == secret_key
                    && pair.unwrap().public_key@ == k,
                None => pair.is_none(),
            },
    {
        match bls_derive_public_key(&secret_key.bytes) {
            Some(bytes) => Some(KeyPair { secret_key, public_key: PublicKey { bytes } }),
            None => None,
        }
    }
}

} // verus!

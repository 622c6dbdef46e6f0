//! Messages that validators sign, and the proofs that aggregate their
//! signatures.
//!
//! Every signed artifact is hashed as `Blake2b(prefix ‖ content)`, with one
//! prefix per kind of message, so that a signature made for one kind can
//! never be taken for a signature of another kind over the same content.
use vstd::prelude::*;
use core::marker::PhantomData;
use crate::codec::{push_all, push_uvar, parse_uvar, uvar_bytes, uvar_parse,
    lemma_uvar_parse_of_bytes, lemma_uvar_bytes_of_parse};
use crate::crypto::{Blake2bHash, PublicKey, SecretKey, Signature, blake2b, bls_verifies,
    bls_signature, bls_public_key_sum, bls_signature_sum, identity_encoding};
use crate::policy::ACTIVE_VALIDATORS;
use crate::signers::{Signers, signers_bytes, signers_parse};

verus! {

/// Prefix under which view-change messages are signed.
pub const PREFIX_VIEW_CHANGE: u8 = 0x01;

/// Prefix under which prepare votes are signed.
pub const PREFIX_PBFT_PREPARE: u8 = 0x02;

/// Prefix under which commit votes are signed.
pub const PREFIX_PBFT_COMMIT: u8 = 0x03;

/// Prefix under which a proof of knowledge of a secret key is signed.
pub const PREFIX_POKOSK: u8 = 0x04;

/// The bytes that are hashed for a signature: the prefix of the message's
/// kind, then the message's content.
pub open spec fn signing_payload(prefix: u8, content: Seq<u8>) -> Seq<u8> {
    seq![prefix] + content
}

/// Two payloads under different prefixes are different byte strings,
/// whatever the two contents are; in particular a view-change payload is
/// never the payload of a prepare vote, a commit vote or a proof of
/// knowledge with the same content.
pub proof fn lemma_domain_separation(
    prefix_a: u8,
    content_a: Seq<u8>,
    prefix_b: u8,
    content_b: Seq<u8>,
)
    requires
        prefix_a != prefix_b,
    ensures
        signing_payload(prefix_a, content_a) != signing_payload(prefix_b, content_b),
{
    assert(signing_payload(prefix_a, content_a)[0] == prefix_a);
    assert(signing_payload(prefix_b, content_b)[0] == prefix_b);
}

/// The four prefixes are pairwise different.
pub proof fn lemma_prefixes_distinct()
    ensures
        PREFIX_VIEW_CHANGE != PREFIX_PBFT_PREPARE,
        PREFIX_VIEW_CHANGE != PREFIX_PBFT_COMMIT,
        PREFIX_VIEW_CHANGE != PREFIX_POKOSK,
        PREFIX_PBFT_PREPARE != PREFIX_PBFT_COMMIT,
        PREFIX_PBFT_PREPARE != PREFIX_POKOSK,
        PREFIX_PBFT_COMMIT != PREFIX_POKOSK,
{
}

/// Under one prefix, two payloads are equal only if the contents are.
pub proof fn lemma_payload_injective(prefix: u8, content_a: Seq<u8>, content_b: Seq<u8>)
    requires
        signing_payload(prefix, content_a) == signing_payload(prefix, content_b),
    ensures
        content_a == content_b,
{
    let a = signing_payload(prefix, content_a);
    let b = signing_payload(prefix, content_b);
    assert(a.len() == b.len());
    assert forall|i: int| 0 <= i < content_a.len() implies content_a[i] == content_b[i] by {
        assert(a[i + 1] == content_a[i]);
        assert(b[i + 1] == content_b[i]);
    }
    assert(content_a =~= content_b);
}

/// A message that validators sign. Its kind fixes the prefix; its content is
/// both what is hashed behind the prefix and what goes on the wire.
pub trait Message: Sized {
    /// The prefix of this kind of message.
    spec fn spec_prefix() -> u8;

    /// The serialized message.
    spec fn content(&self) -> Seq<u8>;

    /// The number of bytes that a decoder of this kind of message takes from
    /// the front of `s`, or nothing where `s` does not start with a message.
    spec fn content_len(s: Seq<u8>) -> Option<nat>;

    /// The prefix of this kind of message.
    fn prefix() -> (p: u8)
        ensures
            p == Self::spec_prefix(),
    ;

    /// Appends the serialized message to `out`.
    fn serialize_content(&self, out: &mut Vec<u8>)
        ensures
            final(out)@ == old(out)@ + self.content(),
    ;

    /// Reads a message at `start`, and returns it with the position behind it.
    fn deserialize_content(bytes: &Vec<u8>, start: usize) -> (r: Option<(Self, usize)>)
        requires
            start <= bytes.len(),
        ensures
            match Self::content_len(bytes@.skip(start as int)) {
                Some(n) => r.is_some() && r.unwrap().1 == start + n && start + n <= bytes.len()
                    && r.unwrap().0.content() == bytes@.subrange(start as int, start + n),
                None => r.is_none(),
            },
    ;

    /// A decoder that starts at a serialized message takes exactly that message.
    proof fn lemma_content_len(&self, rest: Seq<u8>)
        ensures
            Self::content_len(self.content() + rest) == Some(self.content().len()),
    ;

    /// What a decoder takes lies within the bytes it was given.
    proof fn lemma_content_len_bound(s: Seq<u8>)
        requires
            Self::content_len(s).is_some(),
        ensures
            Self::content_len(s).unwrap() <= s.len(),
    ;

    /// Two messages with the same serialization are the same message.
    proof fn lemma_content_injective(&self, other: &Self)
        requires
            self.content() == other.content(),
        ensures
            *self == *other,
    ;

    /// The hash that is signed for this message: `Blake2b(prefix ‖ content)`.
    fn hash_with_prefix(&self) -> (hash: Blake2bHash)
        ensures
            hash@ == blake2b(signing_payload(Self::spec_prefix(), self.content())),
    {
        let payload = self.payload();
        Blake2bHash::digest(payload.as_slice())
    }

    /// The bytes that are hashed for a signature of this message: the prefix
    /// of its kind, then its content.
    fn payload(&self) -> (payload: Vec<u8>)
        ensures
            payload@ == signing_payload(Self::spec_prefix(), self.content()),
    {
        let mut payload: Vec<u8> = Vec::new();
        payload.push(Self::prefix());
        self.serialize_content(&mut payload);
        assert(payload@ =~= signing_payload(Self::spec_prefix(), self.content()));
        payload
    }

    /// The signature of `secret_key` over this message's prefixed hash. There
    /// is none where `secret_key` is not the encoding of a scalar.
    fn sign(&self, secret_key: &SecretKey) -> (signature: Option<Signature>)
        ensures
            match bls_signature(
                secret_key@,
                blake2b(signing_payload(Self::spec_prefix(), self.content())),
            ) {
                Some(s) => signature.is_some() && signature.unwrap()@ == s,
                None => signature.is_none(),
            },
    {
        let hash = self.hash_with_prefix();
        secret_key.sign_hash(&hash)
    }
}

/// A message with the signature of one committee member.
pub struct SignedMessage<M: Message> {
    /// The signed message. The prefix is no part of it: it is added for signing only.
    pub message: M,
    /// Index of the signer's public key in the committee.
    pub pk_idx: u16,
    /// Signature over the prefixed hash of the message.
    pub signature: Signature,
}

impl<M: Message> SignedMessage<M> {
    /// The serialized signed message: the message, the signer's index as a
    /// variable-length integer, the signature.
    pub open spec fn bytes(&self) -> Seq<u8> {
        self.message.content() + uvar_bytes(self.pk_idx) + self.signature@
    }

    /// The number of bytes that a decoder takes from the front of `s` for one
    /// signed message, or nothing where `s` does not start with one.
    pub open spec fn bytes_len(s: Seq<u8>) -> Option<nat> {
        match M::content_len(s) {
            None => None,
            Some(n) => match uvar_parse(s.skip(n as int)) {
                None => None,
                Some((_, k)) => if s.len() >= n + k + 95 {
                    Some(n + k + 95)
                } else {
                    None
                },
            },
        }
    }

    /// Whether the signature is valid for `public_key` over this message
    /// under the prefix of its kind.
    pub fn verify(&self, public_key: &PublicKey) -> (ok: bool)
        ensures
            ok == bls_verifies(
                public_key@,
                blake2b(signing_payload(M::spec_prefix(), self.message.content())),
                self.signature@,
            ),
    {
        let hash = self.message.hash_with_prefix();
        public_key.verify_hash(&hash, &self.signature)
    }

    /// The serialized signed message.
    pub fn serialize(&self) -> (out: Vec<u8>)
        ensures
            out@ == self.bytes(),
    {
        let mut out: Vec<u8> = Vec::new();
        self.message.serialize_content(&mut out);
        push_uvar(&mut out, self.pk_idx);
        push_all(&mut out, self.signature.bytes.as_slice());
        assert(out@ =~= self.bytes());
        out
    }

    /// Reads a signed message at `start`, and returns it with the position
    /// behind it.
    pub fn parse(bytes: &Vec<u8>, start: usize) -> (r: Option<(SignedMessage<M>, usize)>)
        requires
            start <= bytes.len(),
        ensures
            match Self::bytes_len(bytes@.skip(start as int)) {
                Some(n) => r.is_some() && r.unwrap().1 == start + n && start + n <= bytes.len()
                    && r.unwrap().0.bytes() == bytes@.subrange(start as int, start + n),
                None => r.is_none(),
            },
    {
        let ghost s = bytes@.skip(start as int);
        let (message, at_index) = match M::deserialize_content(bytes, start) {
            Some(p) => p,
            None => { return None; },
        };
        let ghost n = (at_index - start) as nat;
        proof {
            assert(s.skip(n as int) =~= bytes@.skip(at_index as int));
        }
        let (pk_idx, at_signature) = match parse_uvar(bytes, at_index) {
            Some(p) => p,
            None => { return None; },
        };
        let ghost k = (at_signature - at_index) as nat;
        proof {
            lemma_uvar_bytes_of_parse(bytes@.skip(at_index as int));
            assert(bytes@.skip(at_index as int).subrange(0, k as int) =~= bytes@.subrange(
                at_index as int,
                at_signature as int,
            ));
        }
        if bytes.len() - at_signature < 95 {
            return None;
        }
        let mut signature = Signature { bytes: [0u8; 95] };
        let mut i: usize = 0;
        while i < 95
            invariant
                i <= 95,
                at_signature + 95 <= bytes.len(),
                forall|j: int| 0 <= j < i ==> signature.bytes@[j] == bytes@[at_signature + j],
            decreases 95 - i,
        {
            signature.bytes[i] = bytes[at_signature + i];
            i = i + 1;
        }
        let signed = SignedMessage { message, pk_idx, signature };
        proof {
            assert(signature@ =~= bytes@.subrange(at_signature as int, at_signature + 95));
            assert(signed.bytes() =~= bytes@.subrange(start as int, at_signature + 95));
        }
        Some((signed, at_signature + 95))
    }

    /// Reads a signed message from `bytes`, all of which must belong to it.
    pub fn deserialize(bytes: &Vec<u8>) -> (r: Option<SignedMessage<M>>)
        ensures
            r.is_some() <==> Self::bytes_len(bytes@) == Some(bytes@.len()),
            r.is_some() ==> r.unwrap().bytes() == bytes@,
    {
        assert(bytes@.skip(0) =~= bytes@);
        match Self::parse(bytes, 0) {
            Some((signed, end)) => {
                if end == bytes.len() {
                    assert(bytes@.subrange(0, end as int) =~= bytes@);
                    Some(signed)
                } else {
                    None
                }
            },
            None => None,
        }
    }

    /// A decoder that starts at a serialized signed message takes exactly
    /// that message: what `serialize` writes, `deserialize` reads.
    pub proof fn lemma_bytes_len(&self, rest: Seq<u8>)
        ensures
            Self::bytes_len(self.bytes() + rest) == Some(self.bytes().len()),
    {
        let s = self.bytes() + rest;
        let c = self.message.content();
        let tail = uvar_bytes(self.pk_idx) + self.signature@ + rest;
        assert(s =~= c + tail);
        self.message.lemma_content_len(tail);
        assert(s.skip(c.len() as int) =~= uvar_bytes(self.pk_idx) + (self.signature@ + rest));
        lemma_uvar_parse_of_bytes(self.pk_idx, self.signature@ + rest);
    }

    /// Two signed messages with the same serialization are the same.
    pub proof fn lemma_bytes_injective(&self, other: &Self)
        requires
            self.bytes() == other.bytes(),
        ensures
            self.message == other.message,
            self.pk_idx == other.pk_idx,
            self.signature == other.signature,
    {
        let s = self.bytes();
        let ta = uvar_bytes(self.pk_idx) + self.signature@;
        let tb = uvar_bytes(other.pk_idx) + other.signature@;
        assert(s =~= self.message.content() + ta);
        assert(s =~= other.message.content() + tb);
        self.message.lemma_content_len(ta);
        other.message.lemma_content_len(tb);
        let n = self.message.content().len();
        assert(self.message.content() =~= s.subrange(0, n as int));
        assert(other.message.content() =~= s.subrange(0, n as int));
        self.message.lemma_content_injective(&other.message);
        assert(ta =~= s.skip(n as int));
        assert(tb =~= s.skip(n as int));
        lemma_uvar_parse_of_bytes(self.pk_idx, self.signature@);
        lemma_uvar_parse_of_bytes(other.pk_idx, other.signature@);
        let k = uvar_bytes(self.pk_idx).len();
        assert(self.signature@ =~= ta.skip(k as int));
        assert(other.signature@ =~= tb.skip(k as int));
        assert(self.signature.bytes =~= other.signature.bytes);
    }
}

/// Why two aggregate proofs could not be merged.
#[derive(Clone, Copy, Debug, PartialEq, Eq)]
pub enum AggregateError {
    /// A committee member signed in both proofs.
    Overlapping,
    /// A key or a signature of one of the proofs is not the encoding of a
    /// group element, so there is no sum to take.
    Malformed,
}

/// What an aggregate proof holds.
pub struct AggregateView {
    /// The indices of the committee members whose signatures were aggregated.
    pub signers: Set<nat>,
    /// The compressed sum of their public keys.
    pub public_key: Seq<u8>,
    /// The compressed sum of their signatures.
    pub signature: Seq<u8>,
}

/// Many signatures over one message as a single aggregate signature, with the
/// aggregate public key and the set of signers.
pub struct AggregateProof<M: Message> {
    pub signers: Signers,
    pub public_key: PublicKey,
    pub signature: Signature,
    /// The kind of message that the signatures are over.
    pub _message: PhantomData<M>,
}

/// The proof that results from adding the contribution of committee member
/// `index`: nothing changes where the index is no committee slot, where that
/// member has contributed before, or where the key or the signature is no
/// group element; otherwise the member joins the signers and the key and the
/// signature join the sums.
pub open spec fn spec_add_signature(
    proof_: AggregateView,
    public_key: Seq<u8>,
    index: u16,
    signature: Seq<u8>,
) -> AggregateView {
    spec_add_sums(
        proof_,
        index,
        bls_public_key_sum(proof_.public_key, public_key),
        bls_signature_sum(proof_.signature, signature),
    )
}

/// The proof that results from the contribution of committee member
/// `index`, given the sums of the member's key and signature with what the
/// proof holds, where they exist.
pub open spec fn spec_add_sums(
    proof_: AggregateView,
    index: u16,
    key_sum: Option<Seq<u8>>,
    signature_sum: Option<Seq<u8>>,
) -> AggregateView {
    if index >= ACTIVE_VALIDATORS || proof_.signers.contains(index as nat) {
        proof_
    } else {
        match (key_sum, signature_sum) {
            (Some(k), Some(s)) => AggregateView {
                signers: proof_.signers.insert(index as nat),
                public_key: k,
                signature: s,
            },
            _ => proof_,
        }
    }
}

/// The outcome of merging `other` into `proof_`.
pub open spec fn spec_merge(proof_: AggregateView, other: AggregateView) -> Result<
    AggregateView,
    AggregateError,
> {
    spec_merge_sums(
        proof_,
        other.signers,
        bls_public_key_sum(proof_.public_key, other.public_key),
        bls_signature_sum(proof_.signature, other.signature),
    )
}

/// The outcome of merging a proof with the signers `other_signers` into
/// `proof_`, given the sums of the two keys and of the two signatures, where
/// they exist.
pub open spec fn spec_merge_sums(
    proof_: AggregateView,
    other_signers: Set<nat>,
    key_sum: Option<Seq<u8>>,
    signature_sum: Option<Seq<u8>>,
) -> Result<AggregateView, AggregateError> {
    if !proof_.signers.disjoint(other_signers) {
        Err(AggregateError::Overlapping)
    } else {
        match (key_sum, signature_sum) {
            (Some(k), Some(s)) => Ok(
                AggregateView {
                    signers: proof_.signers.union(other_signers),
                    public_key: k,
                    signature: s,
                },
            ),
            _ => Err(AggregateError::Malformed),
        }
    }
}

/// What an optional key holds.
pub open spec fn key_view(key: Option<PublicKey>) -> Option<Seq<u8>> {
    match key {
        Some(k) => Some(k@),
        None => None,
    }
}

/// What an optional signature holds.
pub open spec fn signature_view(signature: Option<Signature>) -> Option<Seq<u8>> {
    match signature {
        Some(s) => Some(s@),
        None => None,
    }
}

/// The least number of signers that `threshold` asks for.
pub open spec fn spec_threshold(threshold: Option<usize>) -> nat {
    match threshold {
        Some(t) => t as nat,
        None => 0,
    }
}

impl<M: Message> View for AggregateProof<M> {
    type V = AggregateView;

    open spec fn view(&self) -> AggregateView {
        AggregateView {
            signers: self.signers@,
            public_key: self.public_key@,
            signature: self.signature@,
        }
    }
}

impl<M: Message> AggregateProof<M> {
    /// What the proof with no signer holds: the neutral elements.
    pub open spec fn spec_empty() -> AggregateView {
        AggregateView {
            signers: Set::empty(),
            public_key: identity_encoding(285),
            signature: identity_encoding(95),
        }
    }

    /// The proof with no signer.
    pub fn new() -> (proof_: Self)
        ensures
            proof_@ == Self::spec_empty(),
            proof_@.signers == Set::<nat>::empty(),
            proof_@.public_key == identity_encoding(285),
            proof_@.signature == identity_encoding(95),
    {
        Self::with_capacity(0)
    }

    /// The proof with no signer and room for `capacity` of them.
    pub fn with_capacity(capacity: usize) -> (proof_: Self)
        ensures
            proof_@.signers == Set::<nat>::empty(),
            proof_@.public_key == identity_encoding(285),
            proof_@.signature == identity_encoding(95),
    {
        AggregateProof {
            signers: Signers::with_capacity(capacity),
            public_key: PublicKey::identity(),
            signature: Signature::identity(),
            _message: PhantomData,
        }
    }

    /// A copy of this proof.
    pub fn duplicate(&self) -> (copy: Self)
        ensures
            copy@ == self@,
    {
        AggregateProof {
            signers: self.signers.duplicate(),
            public_key: self.public_key,
            signature: self.signature,
            _message: PhantomData,
        }
    }

    /// Whether the signer of `signed` has contributed to this proof.
    pub fn contains(&self, signed: &SignedMessage<M>) -> (found: bool)
        ensures
            found == self@.signers.contains(signed.pk_idx as nat),
    {
        self.signers.contains(signed.pk_idx)
    }

    /// Adds a signed message to the proof. The signature is taken to have
    /// been checked against `public_key` before. Adding the same signer a
    /// second time changes nothing.
    pub fn add_signature(&mut self, public_key: &PublicKey, signed: &SignedMessage<M>)
        ensures
            final(self)@ == spec_add_signature(
                old(self)@,
                public_key@,
                signed.pk_idx,
                signed.signature@,
            ),
    {
        let index = signed.pk_idx;
        if index < ACTIVE_VALIDATORS && !self.signers.contains(index) {
            let key_sum = self.public_key.aggregate(public_key);
            let signature_sum = self.signature.aggregate(&signed.signature);
            self.add_sums(index, key_sum, signature_sum);
        }
    }

    /// Takes in the contribution of committee member `index`, given the sums
    /// of the member's key and signature with what the proof holds. Nothing
    /// changes where the index is no committee slot, where the member has
    /// contributed before, or where a sum is missing.
    pub fn add_sums(
        &mut self,
        index: u16,
        key_sum: Option<PublicKey>,
        signature_sum: Option<Signature>,
    )
        ensures
            final(self)@ == spec_add_sums(
                old(self)@,
                index,
                key_view(key_sum),
                signature_view(signature_sum),
            ),
    {
        if index < ACTIVE_VALIDATORS && !self.signers.contains(index) {
            match (key_sum, signature_sum) {
                (Some(k), Some(s)) => {
                    self.signers.insert(index);
                    self.public_key = k;
                    self.signature = s;
                },
                _ => {},
            }
        }
    }

    /// Takes in a proof with the signers `other_signers`, given the sums of
    /// the two keys and of the two signatures. No committee member may have
    /// signed in both; where one has, or where a sum is missing, this proof
    /// stays as it was.
    pub fn merge_sums(
        &mut self,
        other_signers: &Signers,
        key_sum: Option<PublicKey>,
        signature_sum: Option<Signature>,
    ) -> (r: Result<(), AggregateError>)
        ensures
            match spec_merge_sums(
                old(self)@,
                other_signers@,
                key_view(key_sum),
                signature_view(signature_sum),
            ) {
                Ok(merged) => r.is_ok() && final(self)@ == merged,
                Err(e) => r == Err::<(), AggregateError>(e) && final(self)@ == old(self)@,
            },
    {
        if !self.signers.is_disjoint(other_signers) {
            return Err(AggregateError::Overlapping);
        }
        match (key_sum, signature_sum) {
            (Some(k), Some(s)) => {
                self.signers = self.signers.union(other_signers);
                self.public_key = k;
                self.signature = s;
                Ok(())
            },
            _ => Err(AggregateError::Malformed),
        }
    }

    /// Merges the signers and sums of `other` into this proof. No committee
    /// member may have signed in both; where one has, or where a sum does
    /// not exist, this proof stays as it was.
    pub fn merge(&mut self, other: &AggregateProof<M>) -> (r: Result<(), AggregateError>)
        ensures
            match spec_merge(old(self)@, other@) {
                Ok(merged) => r.is_ok() && final(self)@ == merged,
                Err(e) => r == Err::<(), AggregateError>(e) && final(self)@ == old(self)@,
            },
    {
        if !self.signers.is_disjoint(&other.signers) {
            return Err(AggregateError::Overlapping);
        }
        let key_sum = self.public_key.aggregate(&other.public_key);
        let signature_sum = self.signature.aggregate(&other.signature);
        self.merge_sums(&other.signers, key_sum, signature_sum)
    }

    /// Whether at least `threshold` members have signed; no threshold asks
    /// for no signer.
    pub fn threshold_reached(&self, threshold: Option<usize>) -> (reached: bool)
        ensures
            reached == (self@.signers.len() >= spec_threshold(threshold)),
            self@.signers.finite(),
    {
        let least: usize = match threshold {
            Some(t) => t,
            None => 0,
        };
        self.signers.len() >= least
    }

    /// Whether at least `threshold` members have signed and the aggregate
    /// signature is valid for the aggregate public key over `message` under
    /// the prefix of its kind.
    pub fn verify(&self, message: &M, threshold: Option<usize>) -> (ok: bool)
        ensures
            ok == (self@.signers.len() >= spec_threshold(threshold) && bls_verifies(
                self@.public_key,
                blake2b(signing_payload(M::spec_prefix(), message.content())),
                self@.signature,
            )),
    {
        if !self.threshold_reached(threshold) {
            return false;
        }
        let hash = message.hash_with_prefix();
        self.public_key.verify_hash(&hash, &self.signature)
    }
}

/// What one committee member adds to an aggregate proof.
pub struct Contribution {
    /// The member's public key.
    pub public_key: Seq<u8>,
    /// The member's index in the committee.
    pub index: u16,
    /// The member's signature.
    pub signature: Seq<u8>,
}

/// The proof after each contribution of a list was added, first to last.
pub open spec fn spec_add_all(proof_: AggregateView, adds: Seq<Contribution>) -> AggregateView
    decreases adds.len(),
{
    if adds.len() == 0 {
        proof_
    } else {
        let c = adds.last();
        spec_add_signature(
            spec_add_all(proof_, adds.drop_last()),
            c.public_key,
            c.index,
            c.signature,
        )
    }
}

/// The indices of those contributions of a list that changed the proof when
/// they were added: the indices that were added.
pub open spec fn added_indices(proof_: AggregateView, adds: Seq<Contribution>) -> Set<nat>
    decreases adds.len(),
{
    if adds.len() == 0 {
        Set::empty()
    } else {
        let c = adds.last();
        let before = spec_add_all(proof_, adds.drop_last());
        let earlier = added_indices(proof_, adds.drop_last());
        if spec_add_signature(before, c.public_key, c.index, c.signature) != before {
            earlier.insert(c.index as nat)
        } else {
            earlier
        }
    }
}

/// Whether each contribution of a list can be aggregated at its turn: its
/// index is a committee slot, and its key and signature have a sum with
/// what the proof holds by then.
pub open spec fn all_aggregate(proof_: AggregateView, adds: Seq<Contribution>) -> bool
    decreases adds.len(),
{
    if adds.len() == 0 {
        true
    } else {
        let c = adds.last();
        let before = spec_add_all(proof_, adds.drop_last());
        &&& all_aggregate(proof_, adds.drop_last())
        &&& c.index < ACTIVE_VALIDATORS
        &&& bls_public_key_sum(before.public_key, c.public_key).is_some()
        &&& bls_signature_sum(before.signature, c.signature).is_some()
    }
}

/// The indices of all contributions of a list.
pub open spec fn contributed_indices(adds: Seq<Contribution>) -> Set<nat> {
    Set::new(|v: nat| exists|i: int| 0 <= i < adds.len() && adds[i].index as nat == v)
}

/// Aggregate disjointness. Whatever contributions are added to a proof,
/// each signer is counted once: the signers afterwards are the signers
/// before and the indices that were added, no index was added that was a
/// signer before, and so the number of signers of a proof that started
/// empty is the number of distinct indices added.
pub proof fn lemma_signers_count(proof_: AggregateView, adds: Seq<Contribution>)
    requires
        proof_.signers.finite(),
    ensures
        spec_add_all(proof_, adds).signers == proof_.signers.union(added_indices(proof_, adds)),
        added_indices(proof_, adds).disjoint(proof_.signers),
        added_indices(proof_, adds).finite(),
        spec_add_all(proof_, adds).signers.finite(),
        spec_add_all(proof_, adds).signers.len() == proof_.signers.len() + added_indices(
            proof_,
            adds,
        ).len(),
        proof_.signers == Set::<nat>::empty() ==> spec_add_all(proof_, adds).signers.len()
            == added_indices(proof_, adds).len(),
    decreases adds.len(),
{
    if adds.len() > 0 {
        let c = adds.last();
        let front = adds.drop_last();
        lemma_signers_count(proof_, front);
        let before = spec_add_all(proof_, front);
        let earlier = added_indices(proof_, front);
        let after = spec_add_all(proof_, adds);
        if after != before {
            assert(!before.signers.contains(c.index as nat));
            assert(after.signers == before.signers.insert(c.index as nat));
            assert(after.signers =~= proof_.signers.union(earlier.insert(c.index as nat)));
            assert(!earlier.contains(c.index as nat));
        } else {
            assert(after.signers =~= proof_.signers.union(earlier));
        }
        vstd::set_lib::lemma_set_disjoint_lens(proof_.signers, added_indices(proof_, adds));
    } else {
        assert(proof_.signers.union(Set::<nat>::empty()) =~= proof_.signers);
    }
    if proof_.signers == Set::<nat>::empty() {
        assert(proof_.signers.len() == 0);
    }
}

/// Where every contribution can be aggregated at its turn, the indices
/// added are the indices contributed that were no signers before; a second
/// contribution of the same member changes nothing.
pub proof fn lemma_added_indices(proof_: AggregateView, adds: Seq<Contribution>)
    requires
        proof_.signers.finite(),
        all_aggregate(proof_, adds),
    ensures
        added_indices(proof_, adds) == contributed_indices(adds).difference(proof_.signers),
        spec_add_all(proof_, adds).signers == proof_.signers.union(contributed_indices(adds)),
    decreases adds.len(),
{
    lemma_signers_count(proof_, adds);
    if adds.len() > 0 {
        let c = adds.last();
        let front = adds.drop_last();
        lemma_added_indices(proof_, front);
        lemma_signers_count(proof_, front);
        let before = spec_add_all(proof_, front);
        assert forall|v: nat| contributed_indices(adds).contains(v) <==> (contributed_indices(
            front,
        ).contains(v) || v == c.index as nat) by {
            if contributed_indices(front).contains(v) {
                let i = choose|i: int| 0 <= i < front.len() && front[i].index as nat == v;
                assert(adds[i].index as nat == v);
            }
            if v == c.index as nat {
                assert(adds[adds.len() - 1].index as nat == v);
            }
            if contributed_indices(adds).contains(v) {
                let i = choose|i: int| 0 <= i < adds.len() && adds[i].index as nat == v;
                if i < front.len() {
                    assert(front[i].index as nat == v);
                }
            }
        }
        if before.signers.contains(c.index as nat) {
            assert(spec_add_all(proof_, adds) == before);
        } else {
            assert(spec_add_all(proof_, adds).signers == before.signers.insert(c.index as nat));
            assert(spec_add_all(proof_, adds) != before);
        }
        assert(added_indices(proof_, adds) =~= contributed_indices(adds).difference(
            proof_.signers,
        ));
        assert(spec_add_all(proof_, adds).signers =~= proof_.signers.union(
            contributed_indices(adds),
        ));
    } else {
        assert(added_indices(proof_, adds) =~= contributed_indices(adds).difference(
            proof_.signers,
        ));
        assert(spec_add_all(proof_, adds).signers =~= proof_.signers.union(
            contributed_indices(adds),
        ));
    }
}

/// Adding is idempotent for each signer: once a member is among the
/// signers, another contribution under its index changes nothing, whatever
/// key and signature it carries.
pub proof fn lemma_add_signature_idempotent(
    proof_: AggregateView,
    public_key: Seq<u8>,
    index: u16,
    signature: Seq<u8>,
    again_key: Seq<u8>,
    again_signature: Seq<u8>,
)
    ensures
        proof_.signers.contains(index as nat) ==> spec_add_signature(
            proof_,
            public_key,
            index,
            signature,
        ) == proof_,
        spec_add_signature(proof_, public_key, index, signature) != proof_ ==> spec_add_signature(
            spec_add_signature(proof_, public_key, index, signature),
            again_key,
            index,
            again_signature,
        ) == spec_add_signature(proof_, public_key, index, signature),
{
}

/// A merge counts each signer once: the signers of the merged proof are as
/// many as the signers of the two proofs together.
pub proof fn lemma_merge_counts_once(proof_: AggregateView, other: AggregateView)
    requires
        proof_.signers.finite(),
        other.signers.finite(),
        spec_merge(proof_, other).is_ok(),
    ensures
        spec_merge(proof_, other).unwrap().signers == proof_.signers.union(other.signers),
        spec_merge(proof_, other).unwrap().signers.len() == proof_.signers.len()
            + other.signers.len(),
{
    vstd::set_lib::lemma_set_disjoint_lens(proof_.signers, other.signers);
}

/// The serialized proof: the signers, the aggregate public key, the
/// aggregate signature.
pub open spec fn aggregate_bytes(proof_: AggregateView) -> Seq<u8> {
    signers_bytes(proof_.signers) + proof_.public_key + proof_.signature
}

/// The number of bytes that a decoder takes from the front of `s` for one
/// aggregate proof, or nothing where `s` does not start with one.
pub open spec fn aggregate_bytes_len(s: Seq<u8>) -> Option<nat> {
    match signers_parse(s) {
        None => None,
        Some((_, n)) => if s.len() >= n + 285 + 95 {
            Some(n + 285 + 95)
        } else {
            None
        },
    }
}

/// Whether a view is that of an aggregate proof: the signers lie within the
/// committee, and the key and the signature have their lengths.
pub open spec fn is_aggregate(proof_: AggregateView) -> bool {
    &&& Signers::bounded(proof_.signers)
    &&& proof_.public_key.len() == 285
    &&& proof_.signature.len() == 95
}

/// What `serialize` writes, `deserialize` reads: a decoder that starts at a
/// serialized proof takes exactly that proof.
pub proof fn lemma_aggregate_bytes_len(proof_: AggregateView, rest: Seq<u8>)
    requires
        is_aggregate(proof_),
    ensures
        aggregate_bytes_len(aggregate_bytes(proof_) + rest) == Some(aggregate_bytes(proof_).len()),
{
    let s = aggregate_bytes(proof_) + rest;
    let tail = proof_.public_key + proof_.signature + rest;
    assert(s =~= signers_bytes(proof_.signers) + tail);
    crate::signers::lemma_signers_parse_of_bytes(proof_.signers, tail);
}

/// Two aggregate proofs with the same serialization are the same.
pub proof fn lemma_aggregate_bytes_injective(a: AggregateView, b: AggregateView)
    requires
        is_aggregate(a),
        is_aggregate(b),
        aggregate_bytes(a) == aggregate_bytes(b),
    ensures
        a.signers == b.signers,
        a.public_key == b.public_key,
        a.signature == b.signature,
{
    let s = aggregate_bytes(a);
    let ta = a.public_key + a.signature;
    let tb = b.public_key + b.signature;
    assert(s =~= signers_bytes(a.signers) + ta);
    assert(s =~= signers_bytes(b.signers) + tb);
    crate::signers::lemma_signers_parse_of_bytes(a.signers, ta);
    crate::signers::lemma_signers_parse_of_bytes(b.signers, tb);
    let n = signers_bytes(a.signers).len();
    assert(ta =~= s.skip(n as int));
    assert(tb =~= s.skip(n as int));
    assert(a.public_key =~= ta.subrange(0, 285));
    assert(b.public_key =~= tb.subrange(0, 285));
    assert(a.signature =~= ta.skip(285));
    assert(b.signature =~= tb.skip(285));
}

impl<M: Message> AggregateProof<M> {
    /// The serialized proof.
    pub fn serialize(&self) -> (out: Vec<u8>)
        ensures
            out@ == aggregate_bytes(self@),
            is_aggregate(self@),
    {
        let mut out: Vec<u8> = Vec::new();
        self.signers.serialize_into(&mut out);
        push_all(&mut out, self.public_key.bytes.as_slice());
        push_all(&mut out, self.signature.bytes.as_slice());
        assert(out@ =~= aggregate_bytes(self@));
        out
    }

    /// Reads a proof from `bytes`, all of which must belong to it.
    pub fn deserialize(bytes: &Vec<u8>) -> (r: Option<Self>)
        ensures
            r.is_some() <==> aggregate_bytes_len(bytes@) == Some(bytes@.len()),
            r.is_some() ==> aggregate_bytes(r.unwrap()@) == bytes@ && is_aggregate(r.unwrap()@),
    {
        assert(bytes@.skip(0) =~= bytes@);
        let (signers, at_key) = match Signers::parse(bytes, 0) {
            Some(p) => p,
            None => { return None; },
        };
        proof {
            crate::signers::lemma_signers_bytes_of_parse(bytes@);
        }
        if bytes.len() - at_key != 380 {
            return None;
        }
        let mut public_key = PublicKey { bytes: [0u8; 285] };
        let mut i: usize = 0;
        while i < 285
            invariant
                i <= 285,
                at_key + 380 == bytes.len(),
                forall|j: int| 0 <= j < i ==> public_key.bytes@[j] == bytes@[at_key + j],
            decreases 285 - i,
        {
            public_key.bytes[i] = bytes[at_key + i];
            i = i + 1;
        }
        let mut signature = Signature { bytes: [0u8; 95] };
        let mut i: usize = 0;
        while i < 95
            invariant
                i <= 95,
                at_key + 380 == bytes.len(),
                forall|j: int| 0 <= j < i ==> signature.bytes@[j] == bytes@[at_key + 285 + j],
            decreases 95 - i,
        {
            signature.bytes[i] = bytes[at_key + 285 + i];
            i = i + 1;
        }
        let proof_ = AggregateProof { signers, public_key, signature, _message: PhantomData };
        proof {
            assert(public_key@ =~= bytes@.subrange(at_key as int, at_key + 285));
            assert(signature@ =~= bytes@.subrange(at_key + 285, at_key + 380));
            assert(aggregate_bytes(proof_@) =~= bytes@);
        }
        Some(proof_)
    }
}

} // verus!

//! The kinds of message that validators sign.
use vstd::prelude::*;
use crate::codec::{be_bytes, push_be, read_be, push_all, lemma_be_bytes_len,
    lemma_be_bytes_of_value, lemma_be_value_of_bytes, lemma_be_value_bound, lemma_pow256_values};
use crate::crypto::Blake2bHash;
use crate::signed::{Message, PREFIX_VIEW_CHANGE, PREFIX_PBFT_PREPARE, PREFIX_PBFT_COMMIT};

verus! {

/// The request to move the micro block at `block_number` to the view
/// `new_view_number`, because the producer of the current view did not
/// deliver in time.
#[derive(Clone, Copy, Debug, PartialEq, Eq, Hash)]
pub struct ViewChange {
    /// The number of the block that is due.
    pub block_number: u32,
    /// The view to move to: one more than the view that failed.
    pub new_view_number: u32,
}

/// The vote to prepare the macro block with the given hash.
#[derive(Clone, Copy, Debug, PartialEq, Eq, Hash)]
pub struct PbftPrepareMessage {
    pub block_hash: Blake2bHash,
}

/// The vote to commit the macro block with the given hash.
#[derive(Clone, Copy, Debug, PartialEq, Eq, Hash)]
pub struct PbftCommitMessage {
    pub block_hash: Blake2bHash,
}

/// Reads the 32 bytes of a hash at `start`.
pub fn read_hash(bytes: &Vec<u8>, start: usize) -> (hash: Blake2bHash)
    requires
        start + 32 <= bytes.len(),
    ensures
        hash@ == bytes@.subrange(start as int, start + 32),
{
    let mut hash = Blake2bHash { bytes: [0u8; 32] };
    let mut i: usize = 0;
    while i < 32
        invariant
            i <= 32,
            start + 32 <= bytes.len(),
            forall|j: int| 0 <= j < i ==> hash.bytes@[j] == bytes@[start + j],
        decreases 32 - i,
    {
        hash.bytes[i] = bytes[start + i];
        i = i + 1;
    }
    assert(hash@ =~= bytes@.subrange(start as int, start + 32));
    hash
}

/// What a decoder of a 32-byte hash takes from the front of `s`.
pub open spec fn hash_len(s: Seq<u8>) -> Option<nat> {
    if s.len() >= 32 {
        Some(32)
    } else {
        None
    }
}

impl Message for ViewChange {
    open spec fn spec_prefix() -> u8 {
        PREFIX_VIEW_CHANGE
    }

    open spec fn content(&self) -> Seq<u8> {
        be_bytes(self.block_number as nat, 4) + be_bytes(self.new_view_number as nat, 4)
    }

    open spec fn content_len(s: Seq<u8>) -> Option<nat> {
        if s.len() >= 8 {
            Some(8)
        } else {
            None
        }
    }

    fn prefix() -> (p: u8) {
        PREFIX_VIEW_CHANGE
    }

    fn serialize_content(&self, out: &mut Vec<u8>) {
        push_be(out, self.block_number as u64, 4);
        push_be(out, self.new_view_number as u64, 4);
        assert(out@ =~= old(out)@ + self.content());
    }

    fn deserialize_content(bytes: &Vec<u8>, start: usize) -> (r: Option<(Self, usize)>) {
        if bytes.len() - start < 8 {
            return None;
        }
        let block_number = read_be(bytes, start, 4);
        let new_view_number = read_be(bytes, start + 4, 4);
        proof {
            let a = bytes@.subrange(start as int, start + 4);
            let b = bytes@.subrange(start + 4, start + 8);
            lemma_pow256_values();
            lemma_be_value_bound(a);
            lemma_be_value_bound(b);
            lemma_be_bytes_of_value(a);
            lemma_be_bytes_of_value(b);
            assert(a + b =~= bytes@.subrange(start as int, start + 8));
        }
        let message = ViewChange {
            block_number: block_number as u32,
            new_view_number: new_view_number as u32,
        };
        Some((message, start + 8))
    }

    proof fn lemma_content_len(&self, rest: Seq<u8>) {
        lemma_be_bytes_len(self.block_number as nat, 4);
        lemma_be_bytes_len(self.new_view_number as nat, 4);
    }

    proof fn lemma_content_len_bound(s: Seq<u8>) {
    }

    proof fn lemma_content_injective(&self, other: &Self) {
        let a = be_bytes(self.block_number as nat, 4);
        let b = be_bytes(self.new_view_number as nat, 4);
        let c = be_bytes(other.block_number as nat, 4);
        let d = be_bytes(other.new_view_number as nat, 4);
        lemma_be_bytes_len(self.block_number as nat, 4);
        lemma_be_bytes_len(self.new_view_number as nat, 4);
        lemma_be_bytes_len(other.block_number as nat, 4);
        lemma_be_bytes_len(other.new_view_number as nat, 4);
        assert(a =~= self.content().subrange(0, 4));
        assert(c =~= other.content().subrange(0, 4));
        assert(b =~= self.content().subrange(4, 8));
        assert(d =~= other.content().subrange(4, 8));
        lemma_pow256_values();
        lemma_be_value_of_bytes(self.block_number as nat, 4);
        lemma_be_value_of_bytes(self.new_view_number as nat, 4);
        lemma_be_value_of_bytes(other.block_number as nat, 4);
        lemma_be_value_of_bytes(other.new_view_number as nat, 4);
    }
}

impl Message for PbftPrepareMessage {
    open spec fn spec_prefix() -> u8 {
        PREFIX_PBFT_PREPARE
    }

    open spec fn content(&self) -> Seq<u8> {
        self.block_hash@
    }

    open spec fn content_len(s: Seq<u8>) -> Option<nat> {
        hash_len(s)
    }

    fn prefix() -> (p: u8) {
        PREFIX_PBFT_PREPARE
    }

    fn serialize_content(&self, out: &mut Vec<u8>) {
        push_all(out, self.block_hash.bytes.as_slice());
    }

    fn deserialize_content(bytes: &Vec<u8>, start: usize) -> (r: Option<(Self, usize)>) {
        if bytes.len() - start < 32 {
            return None;
        }
        Some((PbftPrepareMessage { block_hash: read_hash(bytes, start) }, start + 32))
    }

    proof fn lemma_content_len(&self, rest: Seq<u8>) {
    }

    proof fn lemma_content_len_bound(s: Seq<u8>) {
    }

    proof fn lemma_content_injective(&self, other: &Self) {
        assert(self.block_hash.bytes =~= other.block_hash.bytes);
    }
}

impl Message for PbftCommitMessage {
    open spec fn spec_prefix() -> u8 {
        PREFIX_PBFT_COMMIT
    }

    open spec fn content(&self) -> Seq<u8> {
        self.block_hash@
    }

    open spec fn content_len(s: Seq<u8>) -> Option<nat> {
        hash_len(s)
    }

    fn prefix() -> (p: u8) {
        PREFIX_PBFT_COMMIT
    }

    fn serialize_content(&self, out: &mut Vec<u8>) {
        push_all(out, self.block_hash.bytes.as_slice());
    }

    fn deserialize_content(bytes: &Vec<u8>, start: usize) -> (r: Option<(Self, usize)>) {
        if bytes.len() - start < 32 {
            return None;
        }
        Some((PbftCommitMessage { block_hash: read_hash(bytes, start) }, start + 32))
    }

    proof fn lemma_content_len(&self, rest: Seq<u8>) {
    }

    proof fn lemma_content_len_bound(s: Seq<u8>) {
    }

    proof fn lemma_content_injective(&self, other: &Self) {
        assert(self.block_hash.bytes =~= other.block_hash.bytes);
    }
}

} // verus!

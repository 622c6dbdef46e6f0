//! Blocks as the validator reads them.
//!
//! The validator does not check or build blocks: it reads a macro block's
//! number, timestamp and extra data, and a micro block's fork proofs. The
//! types here hold those parts as plain values.
use vstd::prelude::*;
use crate::codec::bytes_equal;
use crate::crypto::Signature;

verus! {

/// The kind of a block.
#[derive(Clone, Copy, Debug, PartialEq, Eq)]
pub enum BlockType {
    Macro,
    Micro,
}

/// Evidence that one producer signed two different micro block headers at
/// the same height.
#[derive(Debug, PartialEq, Eq)]
pub struct ForkProof {
    /// The first header, serialized.
    pub header1: Vec<u8>,
    /// The second header, serialized.
    pub header2: Vec<u8>,
    /// The producer's signature over the first header.
    pub justification1: Signature,
    /// The producer's signature over the second header.
    pub justification2: Signature,
}

/// What a fork proof holds.
pub struct ForkProofView {
    pub header1: Seq<u8>,
    pub header2: Seq<u8>,
    pub justification1: Seq<u8>,
    pub justification2: Seq<u8>,
}

impl View for ForkProof {
    type V = ForkProofView;

    open spec fn view(&self) -> ForkProofView {
        ForkProofView {
            header1: self.header1@,
            header2: self.header2@,
            justification1: self.justification1@,
            justification2: self.justification2@,
        }
    }
}

impl Clone for ForkProof {
    fn clone(&self) -> (copy: Self)
        ensures
            copy@ == self@,
    {
        ForkProof {
            header1: self.header1.clone(),
            header2: self.header2.clone(),
            justification1: self.justification1,
            justification2: self.justification2,
        }
    }
}

/// The number of bytes that a fork proof takes in a block: each header
/// behind two bytes for its length, and the two signatures.
pub open spec fn fork_proof_size(proof_: ForkProofView) -> nat {
    2 + proof_.header1.len() + 2 + proof_.header2.len() + 95 + 95
}

impl ForkProof {
    /// Whether two fork proofs hold the same evidence.
    pub fn same(&self, other: &ForkProof) -> (r: bool)
        ensures
            r == (self@ == other@),
    {
        let r = bytes_equal(self.header1.as_slice(), other.header1.as_slice()) && bytes_equal(
            self.header2.as_slice(),
            other.header2.as_slice(),
        ) && self.justification1.same(&other.justification1) && self.justification2.same(
            &other.justification2,
        );
        r
    }

    /// The number of bytes that this proof takes in a block, where that
    /// number fits the machine's word.
    pub fn serialized_size(&self) -> (size: Option<usize>)
        ensures
            match size {
                Some(n) => n == fork_proof_size(self@),
                None => fork_proof_size(self@) > usize::MAX,
            },
    {
        let a = self.header1.len();
        let b = self.header2.len();
        match a.checked_add(b) {
            Some(headers) => headers.checked_add(194),
            None => None,
        }
    }
}

/// The header of a macro block, as far as the validator reads it.
#[derive(Clone, Copy, Debug, PartialEq, Eq)]
pub struct MacroHeader {
    pub block_number: u32,
    pub view_number: u32,
    pub timestamp: u64,
}

/// The extrinsics of a macro block, as far as the validator reads them.
#[derive(Debug, PartialEq, Eq)]
pub struct MacroExtrinsics {
    /// Opaque bytes. In the genesis block the first eight are the initial
    /// supply, most significant byte first.
    pub extra_data: Vec<u8>,
}

/// A macro block: the block that ends a batch or an epoch.
#[derive(Debug, PartialEq, Eq)]
pub struct MacroBlock {
    pub header: MacroHeader,
    pub extrinsics: Option<MacroExtrinsics>,
    /// Whether the block ends an epoch, and so elects the next committee.
    pub is_election: bool,
}

/// The header of a micro block, as far as the validator reads it.
#[derive(Clone, Copy, Debug, PartialEq, Eq)]
pub struct MicroHeader {
    pub block_number: u32,
    pub view_number: u32,
    pub timestamp: u64,
}

/// The extrinsics of a micro block, as far as the validator reads them.
#[derive(Debug, PartialEq, Eq)]
pub struct MicroExtrinsics {
    pub fork_proofs: Vec<ForkProof>,
}

/// A micro block: an ordinary block between two macro blocks.
#[derive(Debug, PartialEq, Eq)]
pub struct MicroBlock {
    pub header: MicroHeader,
    pub extrinsics: Option<MicroExtrinsics>,
}

/// A block of either kind.
#[derive(Debug, PartialEq, Eq)]
pub enum Block {
    Macro(MacroBlock),
    Micro(MicroBlock),
}

/// The fork proofs that a block includes: those of a micro block's
/// extrinsics, none for any other block.
pub open spec fn block_fork_proofs(block: Block) -> Seq<ForkProofView> {
    match block {
        Block::Micro(MicroBlock { extrinsics: Some(extrinsics), .. }) => Seq::new(
            extrinsics.fork_proofs@.len(),
            |i: int| extrinsics.fork_proofs@[i]@,
        ),
        _ => Seq::empty(),
    }
}

impl MacroBlock {
    /// Whether the block ends an epoch.
    pub fn is_election_block(&self) -> (r: bool)
        ensures
            r == self.is_election,
    {
        self.is_election
    }
}

impl Block {
    /// The block's number.
    pub fn block_number(&self) -> (n: u32)
        ensures
            n == match *self {
                Block::Macro(b) => b.header.block_number,
                Block::Micro(b) => b.header.block_number,
            },
    {
        match self {
            Block::Macro(b) => b.header.block_number,
            Block::Micro(b) => b.header.block_number,
        }
    }

    /// The view number with which the block after this one starts: a macro
    /// block is followed by view 0, a micro block by its own view.
    pub fn next_view_number(&self) -> (n: u32)
        ensures
            n == match *self {
                Block::Macro(_) => 0u32,
                Block::Micro(b) => b.header.view_number,
            },
    {
        match self {
            Block::Macro(_) => 0,
            Block::Micro(b) => b.header.view_number,
        }
    }
}

} // verus!

//! The parameters that the genesis block encodes, and the reward of an epoch.
use vstd::prelude::*;
use crate::block::MacroBlock;
use crate::codec::{be_bytes, read_be, lemma_be_bytes_len, lemma_be_value_8,
    lemma_be_value_of_bytes, lemma_pow256_values};

verus! {

/// An amount of the currency, in its smallest unit.
#[derive(Clone, Copy, Debug, PartialEq, Eq, PartialOrd, Ord, Hash)]
pub struct Coin {
    pub value: u64,
}

impl Coin {
    /// No coins.
    pub fn zero() -> (coin: Coin)
        ensures
            coin.value == 0,
    {
        Coin { value: 0 }
    }

    /// The amount of `value` units.
    pub fn from_u64_unchecked(value: u64) -> (coin: Coin)
        ensures
            coin.value == value,
    {
        Coin { value }
    }
}

/// The initial supply that the extra data of a genesis block encodes: its
/// first eight bytes as a big-endian number, or zero where it has fewer.
pub open spec fn spec_genesis_supply(extra_data: Seq<u8>) -> nat {
    if extra_data.len() < 8 {
        0
    } else {
        (extra_data[0] as nat) * 0x100_0000_0000_0000 + (extra_data[1] as nat)
            * 0x1_0000_0000_0000 + (extra_data[2] as nat) * 0x100_0000_0000 + (extra_data[3] as nat)
            * 0x1_0000_0000 + (extra_data[4] as nat) * 0x100_0000 + (extra_data[5] as nat) * 0x1_0000
            + (extra_data[6] as nat) * 0x100 + (extra_data[7] as nat)
    }
}

/// Whether the genesis block has extra data that is long enough to encode
/// the initial supply. Where it is not, the supply is taken to be zero,
/// which deserves a warning in the log.
pub fn encodes_supply(genesis_block: &MacroBlock) -> (encoded: bool)
    ensures
        encoded == (genesis_block.extrinsics.is_some()
            && genesis_block.extrinsics.unwrap().extra_data@.len() >= 8),
{
    match &genesis_block.extrinsics {
        Some(extrinsics) => extrinsics.extra_data.len() >= 8,
        None => false,
    }
}

/// Parses the genesis supply and timestamp from the genesis block, which is
/// the macro block with number 0 and has extrinsics.
pub fn genesis_parameters(genesis_block: &MacroBlock) -> (parameters: (Coin, u64))
    requires
        genesis_block.header.block_number == 0,
        genesis_block.extrinsics.is_some(),
    ensures
        parameters.0.value == spec_genesis_supply(genesis_block.extrinsics.unwrap().extra_data@),
        parameters.1 == genesis_block.header.timestamp,
{
    let supply = match &genesis_block.extrinsics {
        Some(extrinsics) => {
            if extrinsics.extra_data.len() < 8 {
                Coin::zero()
            } else {
                proof {
                    lemma_be_value_8(extrinsics.extra_data@.subrange(0, 8));
                }
                Coin::from_u64_unchecked(read_be(&extrinsics.extra_data, 0, 8))
            }
        },
        None => Coin::zero(),
    };
    (supply, genesis_block.header.timestamp)
}

/// A genesis block whose extra data starts with the eight big-endian bytes
/// of a supply encodes that supply, whatever follows them.
pub proof fn lemma_genesis_supply_round_trip(supply: u64, rest: Seq<u8>)
    ensures
        spec_genesis_supply(be_bytes(supply as nat, 8) + rest) == supply,
{
    let encoded = be_bytes(supply as nat, 8);
    lemma_be_bytes_len(supply as nat, 8);
    lemma_pow256_values();
    lemma_be_value_of_bytes(supply as nat, 8);
    lemma_be_value_8(encoded);
    assert forall|i: int| 0 <= i < 8 implies (encoded + rest)[i] == encoded[i] by {}
}

/// The reward of an epoch, fees aside: the supply at the time of the epoch's
/// macro block less the supply at the time of the macro block before it.
pub open spec fn spec_block_reward(current_supply: Coin, previous_supply: Coin) -> int {
    current_supply.value - previous_supply.value
}

/// Computes the block reward for an epoch from the supply at the current
/// macro block and the supply at the previous macro block. This does not
/// include the reward from transaction fees. There is no reward where the
/// supply has shrunk.
pub fn block_reward_for_epoch(current_supply: Coin, previous_supply: Coin) -> (reward: Option<Coin>)
    ensures
        match reward {
            Some(r) => r.value == spec_block_reward(current_supply, previous_supply),
            None => spec_block_reward(current_supply, previous_supply) < 0,
        },
{
    if current_supply.value >= previous_supply.value {
        Some(Coin { value: current_supply.value - previous_supply.value })
    } else {
        None
    }
}

} // verus!

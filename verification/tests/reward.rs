use albatross_validator::block::{MacroBlock, MacroExtrinsics, MacroHeader};
use albatross_validator::reward::{
    block_reward_for_epoch, encodes_supply, genesis_parameters, Coin,
};

fn genesis(extra_data: Vec<u8>, timestamp: u64) -> MacroBlock {
    MacroBlock {
        header: MacroHeader { block_number: 0, view_number: 0, timestamp },
        extrinsics: Some(MacroExtrinsics { extra_data }),
        is_election: true,
    }
}

#[test]
fn genesis_with_eight_byte_supply() {
    let block = genesis(vec![0x00, 0x00, 0x00, 0x00, 0x3B, 0x9A, 0xCA, 0x00], 1_600_000_000);
    assert!(encodes_supply(&block));
    assert_eq!(
        genesis_parameters(&block),
        (Coin { value: 1_000_000_000 }, 1_600_000_000)
    );
}

#[test]
fn genesis_with_three_byte_extra_data() {
    let block = genesis(vec![1, 2, 3], 1_600_000_123);
    assert!(!encodes_supply(&block));
    assert_eq!(genesis_parameters(&block), (Coin { value: 0 }, 1_600_000_123));
}

#[test]
fn genesis_with_seven_bytes_and_with_none() {
    assert_eq!(genesis_parameters(&genesis(vec![0xFF; 7], 5)), (Coin { value: 0 }, 5));
    assert_eq!(genesis_parameters(&genesis(vec![], 6)), (Coin { value: 0 }, 6));
}

#[test]
fn genesis_reads_the_first_eight_bytes_only() {
    let mut extra = 42u64.to_be_bytes().to_vec();
    extra.extend_from_slice(&[0xFF, 0xFF, 0xFF]);
    assert_eq!(genesis_parameters(&genesis(extra, 9)), (Coin { value: 42 }, 9));
}

#[test]
fn genesis_supply_round_trip() {
    for supply in [0u64, 1, 255, 256, 1_000_000_000, u64::MAX - 1, u64::MAX] {
        for timestamp in [0u64, 1_600_000_000, u64::MAX] {
            let block = genesis(supply.to_be_bytes().to_vec(), timestamp);
            assert_eq!(genesis_parameters(&block), (Coin { value: supply }, timestamp));
        }
    }
}

#[test]
fn epoch_reward_is_the_growth_of_the_supply() {
    let previous = Coin::from_u64_unchecked(1000);
    let current = Coin::from_u64_unchecked(1250);
    assert_eq!(block_reward_for_epoch(current, previous), Some(Coin { value: 250 }));
}

#[test]
fn epoch_reward_edges() {
    let c = |v| Coin::from_u64_unchecked(v);
    assert_eq!(block_reward_for_epoch(c(7), c(7)), Some(Coin::zero()));
    assert_eq!(block_reward_for_epoch(c(u64::MAX), c(0)), Some(c(u64::MAX)));
    assert_eq!(block_reward_for_epoch(c(1000), c(1250)), None);
}

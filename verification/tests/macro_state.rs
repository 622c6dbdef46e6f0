use albatross_validator::crypto::Blake2bHash;
use albatross_validator::macro_state::{
    parse_pair, push_pair, resume, PersistedMacroState, TendermintStateUpdate, TendermintStep,
};

fn value(n: u8) -> Blake2bHash {
    Blake2bHash { bytes: [n; 32] }
}

fn locked(height: u32, round: u32, v: Blake2bHash) -> PersistedMacroState {
    PersistedMacroState {
        height,
        step: TendermintStep::Precommit,
        round,
        locked_round: Some(round),
        locked_value: Some(v),
        valid_round: Some(round),
        valid_value: Some(v),
    }
}

#[test]
fn crash_safe_tendermint() {
    let v = value(0x56);
    let persisted = PersistedMacroState {
        height: 100,
        step: TendermintStep::Precommit,
        round: 2,
        locked_round: Some(2),
        locked_value: Some(v),
        valid_round: None,
        valid_value: None,
    };
    let stored = persisted.serialize();
    let loaded = PersistedMacroState::deserialize(&stored);
    let resumed = resume(loaded, 99).expect("the state is about block 100");
    assert_eq!(resumed.round, 2);
    assert_eq!(resumed.step, TendermintStep::Precommit);
    assert_eq!(resumed.precommit_vote(), Some(v));
}

#[test]
fn stale_state_is_discarded() {
    let state = locked(100, 2, value(1));
    assert_eq!(resume(Some(state), 99), Some(state));
    assert_eq!(resume(Some(state), 98), None);
    assert_eq!(resume(Some(state), 100), None);
    assert_eq!(resume(None, 99), None);
    assert_eq!(resume(Some(locked(0, 0, value(1))), u32::MAX), None);
}

#[test]
fn precommit_vote_is_the_value_locked_in_this_round() {
    let v = value(7);
    let mut state = locked(10, 3, v);
    assert_eq!(state.precommit_vote(), Some(v));
    state.locked_round = Some(1);
    assert_eq!(state.precommit_vote(), None);
    state.locked_round = Some(3);
    state.step = TendermintStep::Prevote;
    assert_eq!(state.precommit_vote(), None);
    state.step = TendermintStep::Propose;
    assert_eq!(state.precommit_vote(), None);
    state.step = TendermintStep::Precommit;
    state.locked_round = None;
    assert_eq!(state.precommit_vote(), None);
}

#[test]
fn no_other_value_is_precommitted_after_a_crash() {
    let v = value(9);
    for round in [0u32, 1, 5] {
        for locked_round in [None, Some(0u32), Some(1), Some(5)] {
            let state = PersistedMacroState {
                height: 8,
                step: TendermintStep::Precommit,
                round,
                locked_round,
                locked_value: Some(v),
                valid_round: None,
                valid_value: None,
            };
            let resumed = resume(Some(state), 7).expect("same height");
            let vote = resumed.precommit_vote();
            assert!(vote.is_none() || vote == Some(v));
        }
    }
}

#[test]
fn prevote_rule() {
    let v = value(1);
    let w = value(2);
    let mut state = locked(10, 3, v);
    assert!(state.may_prevote(&v, None));
    assert!(!state.may_prevote(&w, None));
    assert!(!state.may_prevote(&w, Some(2)));
    assert!(state.may_prevote(&w, Some(3)));
    assert!(state.may_prevote(&w, Some(4)));
    state.locked_round = None;
    state.locked_value = None;
    assert!(state.may_prevote(&w, None));
}

#[test]
fn serialized_layout() {
    let state = PersistedMacroState {
        height: 0x0102_0304,
        step: TendermintStep::Prevote,
        round: 5,
        locked_round: None,
        locked_value: None,
        valid_round: Some(4),
        valid_value: None,
    };
    assert_eq!(
        state.serialize(),
        vec![1, 2, 3, 4, 1, 0, 0, 0, 5, 0, 0, 1, 0, 0, 0, 4, 0]
    );
}

#[test]
fn serialize_round_trip() {
    let states = [
        locked(100, 2, value(0xAB)),
        PersistedMacroState {
            height: 0,
            step: TendermintStep::Propose,
            round: 0,
            locked_round: None,
            locked_value: None,
            valid_round: None,
            valid_value: None,
        },
        PersistedMacroState {
            height: u32::MAX,
            step: TendermintStep::Prevote,
            round: u32::MAX,
            locked_round: Some(u32::MAX),
            locked_value: None,
            valid_round: None,
            valid_value: Some(value(0)),
        },
    ];
    for state in states {
        let bytes = state.serialize();
        assert_eq!(PersistedMacroState::deserialize(&bytes), Some(state));
        assert_eq!(PersistedMacroState::deserialize(&bytes).unwrap().serialize(), bytes);
    }
}

#[test]
fn deserialize_rejects_malformed_bytes() {
    let good = locked(100, 2, value(3)).serialize();
    assert!(PersistedMacroState::deserialize(&good).is_some());
    assert_eq!(PersistedMacroState::deserialize(&vec![]), None);
    assert_eq!(PersistedMacroState::deserialize(&good[..good.len() - 1].to_vec()), None);
    let mut long = good.clone();
    long.push(0);
    assert_eq!(PersistedMacroState::deserialize(&long), None);
    let mut bad_step = good.clone();
    bad_step[4] = 3;
    assert_eq!(PersistedMacroState::deserialize(&bad_step), None);
    let mut bad_tag = good.clone();
    bad_tag[9] = 2;
    assert_eq!(PersistedMacroState::deserialize(&bad_tag), None);
}

#[test]
fn optional_pair() {
    let mut out = vec![0xEEu8];
    push_pair(&mut out, Some(7), Some(value(5)));
    assert_eq!(out.len(), 1 + 5 + 33);
    assert_eq!(parse_pair(&out, 1), Some((Some(7), Some(value(5)), 39)));
    let mut none = Vec::new();
    push_pair(&mut none, None, None);
    assert_eq!(none, vec![0, 0]);
    assert_eq!(parse_pair(&none, 0), Some((None, None, 2)));
    assert_eq!(parse_pair(&none, 1), None);
    assert_eq!(parse_pair(&vec![1, 0, 0], 0), None);
}

#[test]
fn state_of_an_update() {
    let update = TendermintStateUpdate {
        step: TendermintStep::Prevote,
        round: 4,
        locked_round: Some(1),
        locked_value: Some(value(1)),
        valid_round: Some(2),
        valid_value: Some(value(2)),
    };
    let state = PersistedMacroState::from_update(12, update);
    assert_eq!(state.height, 12);
    assert_eq!(state.step, TendermintStep::Prevote);
    assert_eq!(state.round, 4);
    assert_eq!(state.locked_round, Some(1));
    assert_eq!(state.locked_value, Some(value(1)));
    assert_eq!(state.valid_round, Some(2));
    assert_eq!(state.valid_value, Some(value(2)));
}

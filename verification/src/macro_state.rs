//! The state of the macro block round that is written to disk before every
//! vote, so that a validator that crashed can take up the round where it
//! left it and never signs two different votes.
use vstd::prelude::*;
use crate::codec::{be_bytes, push_be, read_be, push_all, lemma_be_bytes_len,
    lemma_be_bytes_of_value, lemma_be_value_of_bytes, lemma_be_value_bound, lemma_pow256_values};
use crate::crypto::Blake2bHash;
use crate::messages::read_hash;

verus! {

/// The three steps of a round.
#[derive(Clone, Copy, Debug, PartialEq, Eq, Hash)]
pub enum TendermintStep {
    Propose,
    Prevote,
    Precommit,
}

/// What the Tendermint driver reports whenever its state changes.
#[derive(Clone, Copy, Debug, PartialEq, Eq)]
pub struct TendermintStateUpdate {
    pub step: TendermintStep,
    pub round: u32,
    pub locked_round: Option<u32>,
    pub locked_value: Option<Blake2bHash>,
    pub valid_round: Option<u32>,
    pub valid_value: Option<Blake2bHash>,
}

/// The state of a macro block round as it is kept on disk. A value is the
/// hash of a proposal.
#[derive(Clone, Copy, Debug, PartialEq, Eq)]
pub struct PersistedMacroState {
    /// The number of the macro block that the round is about.
    pub height: u32,
    pub step: TendermintStep,
    pub round: u32,
    /// The round in which the node locked on `locked_value`.
    pub locked_round: Option<u32>,
    /// The value that the node has precommitted to.
    pub locked_value: Option<Blake2bHash>,
    pub valid_round: Option<u32>,
    pub valid_value: Option<Blake2bHash>,
}

/// The byte that stands for a step.
pub open spec fn step_byte(step: TendermintStep) -> u8 {
    match step {
        TendermintStep::Propose => 0,
        TendermintStep::Prevote => 1,
        TendermintStep::Precommit => 2,
    }
}

/// The encoding of an optional round: a zero byte for none, else a one byte
/// and the round as four big-endian bytes.
pub open spec fn round_bytes(round: Option<u32>) -> Seq<u8> {
    match round {
        None => seq![0u8],
        Some(r) => seq![1u8] + be_bytes(r as nat, 4),
    }
}

/// The encoding of an optional value: a zero byte for none, else a one byte
/// and the 32 bytes of the hash.
pub open spec fn value_bytes(value: Option<Blake2bHash>) -> Seq<u8> {
    match value {
        None => seq![0u8],
        Some(v) => seq![1u8] + v@,
    }
}

/// The number of bytes that an optional field of `width` bytes takes at the
/// front of `s`, or nothing where `s` does not start with one.
pub open spec fn optional_len(s: Seq<u8>, width: nat) -> Option<nat> {
    if s.len() == 0 {
        None
    } else if s[0] == 0 {
        Some(1)
    } else if s[0] == 1 && s.len() >= 1 + width {
        Some(1 + width)
    } else {
        None
    }
}

/// The number of bytes that an optional round followed by an optional value
/// takes at the front of `s`.
pub open spec fn pair_len(s: Seq<u8>) -> Option<nat> {
    match optional_len(s, 4) {
        None => None,
        Some(a) => match optional_len(s.skip(a as int), 32) {
            None => None,
            Some(b) => Some(a + b),
        },
    }
}

/// The encoding of an optional round followed by an optional value.
pub open spec fn pair_bytes(round: Option<u32>, value: Option<Blake2bHash>) -> Seq<u8> {
    round_bytes(round) + value_bytes(value)
}

/// A decoder that starts at an encoded pair takes exactly that pair.
pub proof fn lemma_pair_len(round: Option<u32>, value: Option<Blake2bHash>, rest: Seq<u8>)
    ensures
        pair_len(pair_bytes(round, value) + rest) == Some(pair_bytes(round, value).len()),
{
    let s = pair_bytes(round, value) + rest;
    let r = round_bytes(round);
    let v = value_bytes(value);
    if round.is_some() {
        lemma_be_bytes_len(round.unwrap() as nat, 4);
    }
    assert(s[0] == r[0]);
    assert(optional_len(s, 4) == Some(r.len()));
    assert(s.skip(r.len() as int) =~= v + rest);
    assert((v + rest)[0] == v[0]);
}

/// Two encoded pairs that stand at the front of the same bytes are the same
/// pair.
pub proof fn lemma_pair_injective(
    round_a: Option<u32>,
    value_a: Option<Blake2bHash>,
    rest_a: Seq<u8>,
    round_b: Option<u32>,
    value_b: Option<Blake2bHash>,
    rest_b: Seq<u8>,
)
    requires
        pair_bytes(round_a, value_a) + rest_a == pair_bytes(round_b, value_b) + rest_b,
    ensures
        round_a == round_b,
        value_a == value_b,
        rest_a == rest_b,
{
    let s = pair_bytes(round_a, value_a) + rest_a;
    let ra = round_bytes(round_a);
    let rb = round_bytes(round_b);
    let va = value_bytes(value_a);
    let vb = value_bytes(value_b);
    lemma_pow256_values();
    if round_a.is_some() {
        lemma_be_bytes_len(round_a.unwrap() as nat, 4);
        lemma_be_value_of_bytes(round_a.unwrap() as nat, 4);
    }
    if round_b.is_some() {
        lemma_be_bytes_len(round_b.unwrap() as nat, 4);
        lemma_be_value_of_bytes(round_b.unwrap() as nat, 4);
    }
    assert(s[0] == ra[0]);
    assert(s[0] == rb[0]);
    assert(ra.len() == rb.len());
    if round_a.is_some() {
        assert(be_bytes(round_a.unwrap() as nat, 4) =~= s.subrange(1, 5));
        assert(be_bytes(round_b.unwrap() as nat, 4) =~= s.subrange(1, 5));
    }
    assert(va + rest_a =~= s.skip(ra.len() as int));
    assert(vb + rest_b =~= s.skip(ra.len() as int));
    let t = s.skip(ra.len() as int);
    assert(t[0] == va[0]);
    assert(t[0] == vb[0]);
    if value_a.is_some() {
        assert(value_a.unwrap()@ =~= t.subrange(1, 33));
        assert(value_b.unwrap()@ =~= t.subrange(1, 33));
        assert(value_a.unwrap().bytes =~= value_b.unwrap().bytes);
    }
    assert(va.len() == vb.len());
    assert(rest_a =~= t.skip(va.len() as int));
    assert(rest_b =~= t.skip(va.len() as int));
}

/// Appends the encoding of an optional round and an optional value to `out`.
pub fn push_pair(out: &mut Vec<u8>, round: Option<u32>, value: Option<Blake2bHash>)
    ensures
        final(out)@ == old(out)@ + pair_bytes(round, value),
{
    match round {
        None => {
            out.push(0u8);
        },
        Some(r) => {
            out.push(1u8);
            push_be(out, r as u64, 4);
        },
    }
    assert(out@ =~= old(out)@ + round_bytes(round));
    match value {
        None => {
            out.push(0u8);
        },
        Some(v) => {
            out.push(1u8);
            push_all(out, v.bytes.as_slice());
        },
    }
    assert(out@ =~= old(out)@ + pair_bytes(round, value));
}

/// Reads an optional round and an optional value at `start`, and returns
/// them with the position behind them.
pub fn parse_pair(bytes: &Vec<u8>, start: usize) -> (r: Option<
    (Option<u32>, Option<Blake2bHash>, usize),
>)
    requires
        start <= bytes.len(),
    ensures
        match pair_len(bytes@.skip(start as int)) {
            Some(n) => r.is_some() && r.unwrap().2 == start + n && start + n <= bytes.len()
                && pair_bytes(r.unwrap().0, r.unwrap().1) == bytes@.subrange(
                start as int,
                start + n,
            ),
            None => r.is_none(),
        },
{
    let ghost s = bytes@.skip(start as int);
    if bytes.len() - start == 0 {
        return None;
    }
    let tag: u8 = bytes[start];
    let (round, at_value): (Option<u32>, usize) = if tag == 0 {
        (None, start + 1)
    } else if tag == 1 && bytes.len() - start >= 5 {
        let raw = read_be(bytes, start + 1, 4);
        proof {
            lemma_pow256_values();
            lemma_be_value_bound(bytes@.subrange(start + 1, start + 5));
            lemma_be_bytes_of_value(bytes@.subrange(start + 1, start + 5));
        }
        (Some(raw as u32), start + 5)
    } else {
        return None;
    };
    proof {
        assert(round_bytes(round) =~= bytes@.subrange(start as int, at_value as int));
        assert(s.skip(at_value - start) =~= bytes@.skip(at_value as int));
    }
    if bytes.len() - at_value == 0 {
        return None;
    }
    let tag: u8 = bytes[at_value];
    let (value, end): (Option<Blake2bHash>, usize) = if tag == 0 {
        (None, at_value + 1)
    } else if tag == 1 && bytes.len() - at_value >= 33 {
        (Some(read_hash(bytes, at_value + 1)), at_value + 33)
    } else {
        return None;
    };
    proof {
        assert(value_bytes(value) =~= bytes@.subrange(at_value as int, end as int));
        assert(pair_bytes(round, value) =~= bytes@.subrange(start as int, end as int));
    }
    Some((round, value, end))
}

impl PersistedMacroState {
    /// The first nine bytes of the serialized state: the height, the step
    /// and the round.
    pub open spec fn head_bytes(&self) -> Seq<u8> {
        be_bytes(self.height as nat, 4) + seq![step_byte(self.step)] + be_bytes(
            self.round as nat,
            4,
        )
    }

    /// The serialized state: the height, the step, the round, then the
    /// locked round and value and the valid round and value.
    pub open spec fn bytes(&self) -> Seq<u8> {
        self.head_bytes() + pair_bytes(self.locked_round, self.locked_value) + pair_bytes(
            self.valid_round,
            self.valid_value,
        )
    }

    /// The number of bytes that a decoder takes from the front of `s` for
    /// one state, or nothing where `s` does not start with one.
    pub open spec fn bytes_len(s: Seq<u8>) -> Option<nat> {
        if s.len() < 9 || s[4] > 2 {
            None
        } else {
            match pair_len(s.skip(9)) {
                None => None,
                Some(a) => match pair_len(s.skip(9 + a as int)) {
                    None => None,
                    Some(b) => Some(9 + a + b),
                },
            }
        }
    }

    /// The state that belongs to a report of the driver at `height`.
    pub fn from_update(height: u32, update: TendermintStateUpdate) -> (state: PersistedMacroState)
        ensures
            state == (PersistedMacroState {
                height,
                step: update.step,
                round: update.round,
                locked_round: update.locked_round,
                locked_value: update.locked_value,
                valid_round: update.valid_round,
                valid_value: update.valid_value,
            }),
    {
        PersistedMacroState {
            height,
            step: update.step,
            round: update.round,
            locked_round: update.locked_round,
            locked_value: update.locked_value,
            valid_round: update.valid_round,
            valid_value: update.valid_value,
        }
    }

    /// The serialized state.
    pub fn serialize(&self) -> (out: Vec<u8>)
        ensures
            out@ == self.bytes(),
    {
        let mut out: Vec<u8> = Vec::new();
        push_be(&mut out, self.height as u64, 4);
        let step: u8 = match self.step {
            TendermintStep::Propose => 0,
            TendermintStep::Prevote => 1,
            TendermintStep::Precommit => 2,
        };
        out.push(step);
        push_be(&mut out, self.round as u64, 4);
        assert(out@ =~= self.head_bytes());
        push_pair(&mut out, self.locked_round, self.locked_value);
        push_pair(&mut out, self.valid_round, self.valid_value);
        out
    }

    /// Reads a state from `bytes`, all of which must belong to it.
    pub fn deserialize(bytes: &Vec<u8>) -> (r: Option<PersistedMacroState>)
        ensures
            r.is_some() <==> Self::bytes_len(bytes@) == Some(bytes@.len()),
            r.is_some() ==> r.unwrap().bytes() == bytes@,
    {
        if bytes.len() < 9 {
            return None;
        }
        let step = match bytes[4] {
            0 => TendermintStep::Propose,
            1 => TendermintStep::Prevote,
            2 => TendermintStep::Precommit,
            _ => { return None; },
        };
        let height = read_be(bytes, 0, 4);
        let round = read_be(bytes, 5, 4);
        proof {
            lemma_pow256_values();
            lemma_be_value_bound(bytes@.subrange(0, 4));
            lemma_be_value_bound(bytes@.subrange(5, 9));
            lemma_be_bytes_of_value(bytes@.subrange(0, 4));
            lemma_be_bytes_of_value(bytes@.subrange(5, 9));
        }
        let (locked_round, locked_value, at_valid) = match parse_pair(bytes, 9) {
            Some(p) => p,
            None => { return None; },
        };
        proof {
            assert(bytes@.skip(9).skip(at_valid - 9) =~= bytes@.skip(at_valid as int));
        }
        let (valid_round, valid_value, end) = match parse_pair(bytes, at_valid) {
            Some(p) => p,
            None => { return None; },
        };
        if end != bytes.len() {
            return None;
        }
        let state = PersistedMacroState {
            height: height as u32,
            step,
            round: round as u32,
            locked_round,
            locked_value,
            valid_round,
            valid_value,
        };
        proof {
            assert(state.head_bytes() =~= bytes@.subrange(0, 9));
            assert(state.bytes() =~= bytes@);
        }
        Some(state)
    }

    /// What `serialize` writes, `deserialize` reads: a decoder that starts
    /// at a serialized state takes exactly that state.
    pub proof fn lemma_bytes_len(&self, rest: Seq<u8>)
        ensures
            Self::bytes_len(self.bytes() + rest) == Some(self.bytes().len()),
    {
        let s = self.bytes() + rest;
        let head = self.head_bytes();
        let locked = pair_bytes(self.locked_round, self.locked_value);
        let valid = pair_bytes(self.valid_round, self.valid_value);
        lemma_be_bytes_len(self.height as nat, 4);
        lemma_be_bytes_len(self.round as nat, 4);
        assert(head.len() == 9);
        assert(s[4] == head[4]);
        assert(head[4] == step_byte(self.step));
        assert(s.skip(9) =~= locked + (valid + rest));
        lemma_pair_len(self.locked_round, self.locked_value, valid + rest);
        assert(s.skip(9 + locked.len() as int) =~= valid + rest);
        lemma_pair_len(self.valid_round, self.valid_value, rest);
    }

    /// Two states with the same serialization are the same state.
    pub proof fn lemma_bytes_injective(&self, other: &Self)
        requires
            self.bytes() == other.bytes(),
        ensures
            *self == *other,
    {
        let s = self.bytes();
        lemma_pow256_values();
        lemma_be_bytes_len(self.height as nat, 4);
        lemma_be_bytes_len(self.round as nat, 4);
        lemma_be_bytes_len(other.height as nat, 4);
        lemma_be_bytes_len(other.round as nat, 4);
        lemma_be_value_of_bytes(self.height as nat, 4);
        lemma_be_value_of_bytes(self.round as nat, 4);
        lemma_be_value_of_bytes(other.height as nat, 4);
        lemma_be_value_of_bytes(other.round as nat, 4);
        assert(be_bytes(self.height as nat, 4) =~= s.subrange(0, 4));
        assert(be_bytes(other.height as nat, 4) =~= s.subrange(0, 4));
        assert(be_bytes(self.round as nat, 4) =~= s.subrange(5, 9));
        assert(be_bytes(other.round as nat, 4) =~= s.subrange(5, 9));
        assert(s[4] == step_byte(self.step));
        assert(s[4] == step_byte(other.step));
        let ta = pair_bytes(self.locked_round, self.locked_value) + pair_bytes(
            self.valid_round,
            self.valid_value,
        );
        let tb = pair_bytes(other.locked_round, other.locked_value) + pair_bytes(
            other.valid_round,
            other.valid_value,
        );
        assert(ta =~= s.skip(9));
        assert(tb =~= s.skip(9));
        lemma_pair_injective(
            self.locked_round,
            self.locked_value,
            pair_bytes(self.valid_round, self.valid_value),
            other.locked_round,
            other.locked_value,
            pair_bytes(other.valid_round, other.valid_value),
        );
        let empty = Seq::<u8>::empty();
        assert(pair_bytes(self.valid_round, self.valid_value) + empty =~= pair_bytes(
            other.valid_round,
            other.valid_value,
        ) + empty);
        lemma_pair_injective(
            self.valid_round,
            self.valid_value,
            empty,
            other.valid_round,
            other.valid_value,
            empty,
        );
    }

    /// Whether the state is about the block that follows the head with
    /// number `head_block_number`.
    pub open spec fn applies_to(&self, head_block_number: u32) -> bool {
        self.height == head_block_number + 1
    }

    /// The value for which a node in this state has cast its precommit of
    /// the current round: the value it locked in this round, where its step
    /// is precommit; nothing otherwise.
    pub open spec fn spec_precommit_vote(&self) -> Option<Blake2bHash> {
        if self.step == TendermintStep::Precommit && self.locked_round == Some(self.round) {
            self.locked_value
        } else {
            None
        }
    }

    /// The value for which the node casts its precommit when it takes up
    /// the round in this state.
    pub fn precommit_vote(&self) -> (vote: Option<Blake2bHash>)
        ensures
            vote == self.spec_precommit_vote(),
    {
        let in_precommit = match self.step {
            TendermintStep::Precommit => true,
            _ => false,
        };
        let locked_now = match self.locked_round {
            Some(r) => r == self.round,
            None => false,
        };
        if in_precommit && locked_now {
            self.locked_value
        } else {
            None
        }
    }

    /// Whether a node in this state may prevote for `proposal`, which was
    /// valid in round `proposal_valid_round` if in any: it may where it has
    /// locked no value, where it has locked this value, or where the
    /// proposal's valid round is no earlier than the round of the lock.
    pub open spec fn spec_may_prevote(
        &self,
        proposal: Blake2bHash,
        proposal_valid_round: Option<u32>,
    ) -> bool {
        match (self.locked_round, self.locked_value) {
            (Some(locked_round), Some(locked_value)) => locked_value@ == proposal@ || (
            proposal_valid_round.is_some() && proposal_valid_round.unwrap() >= locked_round),
            _ => true,
        }
    }

    /// Whether a node in this state may prevote for `proposal`.
    pub fn may_prevote(&self, proposal: &Blake2bHash, proposal_valid_round: Option<u32>) -> (ok:
        bool)
        ensures
            ok == self.spec_may_prevote(*proposal, proposal_valid_round),
    {
        match (self.locked_round, self.locked_value) {
            (Some(locked_round), Some(locked_value)) => {
                if locked_value.same(proposal) {
                    true
                } else {
                    match proposal_valid_round {
                        Some(r) => r >= locked_round,
                        None => false,
                    }
                }
            },
            _ => true,
        }
    }
}

/// The state from which the round of the block after `head_block_number` is
/// taken up: the persisted state where it is about that block, nothing
/// otherwise.
pub open spec fn spec_resume(persisted: Option<PersistedMacroState>, head_block_number: u32)
    -> Option<PersistedMacroState> {
    match persisted {
        Some(state) => if state.applies_to(head_block_number) {
            Some(state)
        } else {
            None
        },
        None => None,
    }
}

/// Decides whether a persisted state is taken up or discarded.
pub fn resume(persisted: Option<PersistedMacroState>, head_block_number: u32) -> (state: Option<
    PersistedMacroState,
>)
    ensures
        state == spec_resume(persisted, head_block_number),
{
    match persisted {
        Some(state) => {
            if state.height as u64 == head_block_number as u64 + 1 {
                Some(state)
            } else {
                None
            }
        },
        None => None,
    }
}

/// No equivocation across a crash. A node that persisted a state in step
/// precommit with a locked value, and takes the round up again at the same
/// height, casts its precommit for that value or for none: never for
/// another value.
pub proof fn lemma_no_equivocation(persisted: PersistedMacroState, head_block_number: u32)
    requires
        persisted.step == TendermintStep::Precommit,
        persisted.locked_value.is_some(),
        persisted.applies_to(head_block_number),
    ensures
        spec_resume(Some(persisted), head_block_number) == Some(persisted),
        persisted.spec_precommit_vote().is_some() ==> persisted.spec_precommit_vote()
            == persisted.locked_value,
        persisted.locked_round == Some(persisted.round) ==> persisted.spec_precommit_vote()
            == persisted.locked_value,
{
}

} // verus!

//! The set of committee indices that contributed to an aggregate, kept in the
//! bit set of `nimiq_collections`.
use vstd::prelude::*;
use nimiq_collections::BitSet;
use crate::codec::{be_bytes, be_parse, parse_be, push_be, lemma_be_parse_of_bytes,
    lemma_be_bytes_of_parse, lemma_be_bytes_len, lemma_pow256_values};
use crate::policy::ACTIVE_VALIDATORS;

verus! {

#[verifier::external_type_specification]
#[verifier::external_body]
pub struct ExBitSet(BitSet);

/// The numbers whose bit is set in a bit set.
pub uninterp spec fn bitset_members(set: BitSet) -> Set<nat>;

/// `BitSet::new` makes a bit set in which no bit is set.
#[verifier::external_body]
fn bitset_new() -> (set: BitSet)
    ensures
        bitset_members(set) == Set::<nat>::empty(),
{
    BitSet::new()
}

/// `BitSet::with_capacity` reserves room for `nbits` bits and sets none.
#[verifier::external_body]
fn bitset_with_capacity(nbits: u16) -> (set: BitSet)
    ensures
        bitset_members(set) == Set::<nat>::empty(),
{
    BitSet::with_capacity(nbits as usize)
}

/// `BitSet::contains` tells whether the bit of `value` is set.
#[verifier::external_body]
fn bitset_contains(set: &BitSet, value: u16) -> (found: bool)
    ensures
        found == bitset_members(*set).contains(value as nat),
{
    set.contains(value as usize)
}

/// `BitSet::insert` sets the bit of `value` and leaves every other bit as it was.
#[verifier::external_body]
fn bitset_insert(set: &mut BitSet, value: u16)
    ensures
        bitset_members(*final(set)) == bitset_members(*old(set)).insert(value as nat),
    no_unwind
{
    set.insert(value as usize)
}

/// `BitSet::len` is the number of bits that are set.
#[verifier::external_body]
fn bitset_len(set: &BitSet) -> (count: usize)
    ensures
        count == bitset_members(*set).len(),
{
    set.len()
}

/// `BitSet::intersection_size` counts the bits that are set in both sets.
#[verifier::external_body]
fn bitset_intersection_size(left: &BitSet, right: &BitSet) -> (count: usize)
    ensures
        count == bitset_members(*left).intersect(bitset_members(*right)).len(),
{
    left.intersection_size(right)
}

/// `|` on two bit sets makes the set of the bits that are set in either.
#[verifier::external_body]
fn bitset_union(left: &BitSet, right: &BitSet) -> (both: BitSet)
    ensures
        bitset_members(both) == bitset_members(*left).union(bitset_members(*right)),
{
    left | right
}

/// `Clone` on a bit set copies every bit.
#[verifier::external_body]
fn bitset_clone(set: &BitSet) -> (copy: BitSet)
    ensures
        bitset_members(copy) == bitset_members(*set),
{
    set.clone()
}

/// The indices of the committee members that have contributed to an
/// aggregate. Every index in it is below `ACTIVE_VALIDATORS`.
pub struct Signers {
    set: BitSet,
}

/// The members of `s` below `bound`, in ascending order.
pub open spec fn ascending(s: Set<nat>, bound: nat) -> Seq<u16>
    decreases bound,
{
    if bound == 0 {
        Seq::empty()
    } else if s.contains((bound - 1) as nat) {
        ascending(s, (bound - 1) as nat).push((bound - 1) as u16)
    } else {
        ascending(s, (bound - 1) as nat)
    }
}

/// Each index of `indices` as two big-endian bytes, one after the other.
pub open spec fn index_list_bytes(indices: Seq<u16>) -> Seq<u8>
    decreases indices.len(),
{
    if indices.len() == 0 {
        Seq::empty()
    } else {
        index_list_bytes(indices.drop_last()) + be_bytes(indices.last() as nat, 2)
    }
}

/// The encoding of a signer set: the number of signers as two big-endian
/// bytes, then each index as two big-endian bytes, in ascending order.
pub open spec fn signers_bytes(s: Set<nat>) -> Seq<u8> {
    let indices = ascending(s, ACTIVE_VALIDATORS as nat);
    be_bytes(indices.len(), 2) + index_list_bytes(indices)
}

/// Whether `indices` is strictly ascending and stays below `ACTIVE_VALIDATORS`.
pub open spec fn is_index_list(indices: Seq<u16>) -> bool {
    &&& forall|i: int, j: int| 0 <= i < j < indices.len() ==> indices[i] < indices[j]
    &&& forall|i: int| 0 <= i < indices.len() ==> indices[i] < ACTIVE_VALIDATORS
}

/// The set that holds exactly the indices of `indices`.
pub open spec fn index_set(indices: Seq<u16>) -> Set<nat> {
    Set::new(|v: nat| exists|i: int| 0 <= i < indices.len() && indices[i] as nat == v)
}

/// What a decoder reads when it takes `count` indices from the front of `s`.
pub open spec fn index_list_parse(s: Seq<u8>, count: nat) -> Option<Seq<u16>>
    decreases count,
{
    if count == 0 {
        Some(Seq::empty())
    } else if s.len() < 2 * count {
        None
    } else {
        match index_list_parse(s, (count - 1) as nat) {
            Some(front) => Some(
                front.push(
                    be_bytes_value16(s.subrange(2 * (count - 1), 2 * count as int)),
                ),
            ),
            None => None,
        }
    }
}

/// The number that two bytes spell, most significant first.
pub open spec fn be_bytes_value16(s: Seq<u8>) -> u16 {
    crate::codec::be_value(s) as u16
}

/// What a decoder reads when it takes a signer set from the front of `s`: the
/// set and the number of bytes it took. It reads nothing when `s` ends early,
/// when an index is out of range, or when the indices do not ascend.
pub open spec fn signers_parse(s: Seq<u8>) -> Option<(Set<nat>, nat)> {
    match be_parse(s, 2) {
        None => None,
        Some((count, _)) => match index_list_parse(s.skip(2), count) {
            None => None,
            Some(indices) => if is_index_list(indices) {
                Some((index_set(indices), 2 + 2 * count))
            } else {
                None
            },
        },
    }
}

impl View for Signers {
    type V = Set<nat>;

    closed spec fn view(&self) -> Set<nat> {
        bitset_members(self.set)
    }
}

impl Signers {
    /// Every index is below `ACTIVE_VALIDATORS`.
    #[verifier::type_invariant]
    spec fn in_range(&self) -> bool {
        forall|v: nat| bitset_members(self.set).contains(v) ==> v < ACTIVE_VALIDATORS
    }

    /// What `in_range` guarantees of every signer set, for use in contracts.
    pub open spec fn bounded(s: Set<nat>) -> bool {
        forall|v: nat| s.contains(v) ==> v < ACTIVE_VALIDATORS
    }

    /// The empty set of signers.
    pub fn new() -> (s: Signers)
        ensures
            s@ == Set::<nat>::empty(),
    {
        Signers { set: bitset_new() }
    }

    /// The empty set of signers, with room for `capacity` indices. No set
    /// needs room for more than `ACTIVE_VALIDATORS`.
    pub fn with_capacity(capacity: usize) -> (s: Signers)
        ensures
            s@ == Set::<nat>::empty(),
    {
        let nbits: u16 = if capacity > ACTIVE_VALIDATORS as usize {
            ACTIVE_VALIDATORS
        } else {
            capacity as u16
        };
        Signers { set: bitset_with_capacity(nbits) }
    }

    /// Whether `index` is among the signers.
    pub fn contains(&self, index: u16) -> (found: bool)
        ensures
            found == self@.contains(index as nat),
    {
        bitset_contains(&self.set, index)
    }

    /// Whether the validator at position `index` of a list is among the
    /// signers. No position at or beyond `ACTIVE_VALIDATORS` is.
    pub fn contains_position(&self, index: usize) -> (found: bool)
        ensures
            found == self@.contains(index as nat),
    {
        if index >= ACTIVE_VALIDATORS as usize {
            proof {
                use_type_invariant(self);
            }
            false
        } else {
            bitset_contains(&self.set, index as u16)
        }
    }

    /// Adds `index`, which must name a committee slot.
    pub fn insert(&mut self, index: u16)
        requires
            index < ACTIVE_VALIDATORS,
        ensures
            final(self)@ == old(self)@.insert(index as nat),
    {
        proof {
            use_type_invariant(&*self);
        }
        bitset_insert(&mut self.set, index);
    }

    /// The number of signers.
    pub fn len(&self) -> (count: usize)
        ensures
            count == self@.len(),
            self@.finite(),
            count <= ACTIVE_VALIDATORS,
    {
        proof {
            use_type_invariant(self);
            lemma_bounded_set_finite(self@, ACTIVE_VALIDATORS as nat);
        }
        bitset_len(&self.set)
    }

    /// Whether no index is in both sets.
    pub fn is_disjoint(&self, other: &Signers) -> (disjoint: bool)
        ensures
            disjoint == self@.disjoint(other@),
    {
        proof {
            use_type_invariant(self);
            lemma_bounded_set_finite(self@, ACTIVE_VALIDATORS as nat);
            let common = self@.intersect(other@);
            vstd::set_lib::lemma_len_intersect::<nat>(self@, other@);
            if common.len() == 0 {
                assert(common =~= Set::<nat>::empty());
                assert forall|v: nat| !(self@.contains(v) && other@.contains(v)) by {
                    assert(!common.contains(v));
                }
            } else {
                assert(common.finite());
                vstd::set::axiom_set_choose_len(common);
                let v = common.choose();
                assert(common.contains(v));
                assert(self@.contains(v) && other@.contains(v));
            }
        }
        bitset_intersection_size(&self.set, &other.set) == 0
    }

    /// The signers of either set.
    pub fn union(&self, other: &Signers) -> (both: Signers)
        ensures
            both@ == self@.union(other@),
    {
        proof {
            use_type_invariant(self);
            use_type_invariant(other);
        }
        Signers { set: bitset_union(&self.set, &other.set) }
    }

    /// A copy of this set.
    pub fn duplicate(&self) -> (copy: Signers)
        ensures
            copy@ == self@,
    {
        proof {
            use_type_invariant(self);
        }
        Signers { set: bitset_clone(&self.set) }
    }

    /// The signers in ascending order.
    pub fn to_vec(&self) -> (indices: Vec<u16>)
        ensures
            indices@ == ascending(self@, ACTIVE_VALIDATORS as nat),
    {
        let mut indices: Vec<u16> = Vec::new();
        let mut i: u16 = 0;
        while i < ACTIVE_VALIDATORS
            invariant
                i <= ACTIVE_VALIDATORS,
                indices@ == ascending(self@, i as nat),
            decreases ACTIVE_VALIDATORS - i,
        {
            if bitset_contains(&self.set, i) {
                indices.push(i);
            }
            i = i + 1;
        }
        indices
    }

    /// Appends the encoding of this set to `out`.
    pub fn serialize_into(&self, out: &mut Vec<u8>)
        ensures
            final(out)@ == old(out)@ + signers_bytes(self@),
            Self::bounded(self@),
    {
        let indices = self.to_vec();
        proof {
            use_type_invariant(self);
            lemma_ascending_is_index_list(self@, ACTIVE_VALIDATORS as nat);
        }
        push_be(out, indices.len() as u64, 2);
        let ghost start = out@;
        let mut i: usize = 0;
        while i < indices.len()
            invariant
                i <= indices.len(),
                out@ == start + index_list_bytes(indices@.subrange(0, i as int)),
            decreases indices.len() - i,
        {
            push_be(out, indices[i] as u64, 2);
            proof {
                let next = indices@.subrange(0, i + 1);
                assert(next.drop_last() =~= indices@.subrange(0, i as int));
                assert(out@ =~= start + index_list_bytes(next));
            }
            i = i + 1;
        }
        proof {
            assert(indices@.subrange(0, indices.len() as int) =~= indices@);
            assert(out@ =~= old(out)@ + signers_bytes(self@));
        }
    }

    /// Reads a signer set at `start`, and returns it with the position behind it.
    pub fn parse(bytes: &Vec<u8>, start: usize) -> (r: Option<(Signers, usize)>)
        requires
            start <= bytes.len(),
        ensures
            match signers_parse(bytes@.skip(start as int)) {
                Some((set, used)) => r.is_some() && r.unwrap().0@ == set && r.unwrap().1 == start
                    + used,
                None => r.is_none(),
            },
    {
        let ghost s = bytes@.skip(start as int);
        let (count64, body) = match parse_be(bytes, start, 2) {
            Some(p) => p,
            None => { return None; },
        };
        proof {
            lemma_pow256_values();
            crate::codec::lemma_be_value_bound(s.subrange(0, 2));
        }
        let count: usize = count64 as usize;
        if (bytes.len() - body) / 2 < count {
            proof {
                lemma_index_list_parse_short(s.skip(2), count as nat);
            }
            return None;
        }
        let mut set = bitset_new();
        let ghost mut read: Seq<u16> = Seq::empty();
        let mut last: u16 = 0;
        let mut i: usize = 0;
        let mut ascending_so_far: bool = true;
        while i < count
            invariant
                i <= count,
                count < 0x1_0000,
                body == start + 2,
                body + 2 * count <= bytes.len(),
                s == bytes@.skip(start as int),
                be_parse(s, 2) == Some((count as nat, 2nat)),
                index_list_parse(s.skip(2), i as nat) == Some(read),
                read.len() == i,
                is_index_list(read),
                bitset_members(set) == index_set(read),
                i > 0 ==> last == read[i - 1],
            decreases count - i,
        {
            let raw: u64 = crate::codec::read_be(bytes, body + 2 * i, 2);
            proof {
                assert(s.skip(2).subrange(2 * i, 2 * (i + 1)) =~= bytes@.subrange(
                    body + 2 * i,
                    body + 2 * i + 2,
                ));
                crate::codec::lemma_be_value_bound(bytes@.subrange(body + 2 * i, body + 2 * i + 2));
                lemma_pow256_values();
                assert(s.skip(2).len() >= 2 * (i + 1));
            }
            let v: u16 = raw as u16;
            let ghost next = read.push(v);
            if v >= ACTIVE_VALIDATORS || (i > 0 && v <= last) {
                proof {
                    assert(index_list_parse(s.skip(2), i as nat) == Some(read));
                    assert(index_list_parse(s.skip(2), (i + 1) as nat) == Some(next));
                    assert(!is_index_list(next)) by {
                        if v < ACTIVE_VALIDATORS {
                            assert(next[i - 1] >= next[i as int]);
                        } else {
                            assert(next[i as int] >= ACTIVE_VALIDATORS);
                        }
                    }
                    lemma_index_list_parse_extends(s.skip(2), (i + 1) as nat, count as nat);
                }
                return None;
            }
            bitset_insert(&mut set, v);
            proof {
                assert(is_index_list(next)) by {
                    assert forall|a: int, b: int| 0 <= a < b < next.len() implies next[a]
                        < next[b] by {
                        if b == i {
                            if a < i - 1 {
                                assert(read[a] < read[i - 1]);
                            }
                        }
                    }
                }
                assert(index_set(next) =~= index_set(read).insert(v as nat)) by {
                    assert forall|x: nat| index_set(next).contains(x) implies index_set(
                        read,
                    ).insert(v as nat).contains(x) by {
                        let k = choose|k: int| 0 <= k < next.len() && next[k] as nat == x;
                        if k < i {
                            assert(read[k] as nat == x);
                        }
                    }
                    assert forall|x: nat| index_set(read).insert(v as nat).contains(
                        x,
                    ) implies index_set(next).contains(x) by {
                        if x == v as nat {
                            assert(next[i as int] as nat == x);
                        } else {
                            let k = choose|k: int| 0 <= k < read.len() && read[k] as nat == x;
                            assert(next[k] as nat == x);
                        }
                    }
                }
                read = next;
            }
            last = v;
            i = i + 1;
        }
        proof {
            assert forall|v: nat| bitset_members(set).contains(v) implies v
                < ACTIVE_VALIDATORS by {
                let k = choose|k: int| 0 <= k < read.len() && read[k] as nat == v;
            }
        }
        Some((Signers { set }, body + 2 * count))
    }
}

/// A set of numbers below `bound` is finite and has at most `bound` members.
pub proof fn lemma_bounded_set_finite(s: Set<nat>, bound: nat)
    requires
        forall|v: nat| s.contains(v) ==> v < bound,
    ensures
        s.finite(),
        s.len() <= bound,
    decreases bound,
{
    if bound == 0 {
        assert(s =~= Set::<nat>::empty());
    } else {
        let top = (bound - 1) as nat;
        let rest = s.remove(top);
        lemma_bounded_set_finite(rest, top);
        if s.contains(top) {
            assert(s =~= rest.insert(top));
        } else {
            assert(s =~= rest);
        }
    }
}

/// `ascending` lists exactly the members below the bound, in strictly
/// ascending order.
pub proof fn lemma_ascending_is_index_list(s: Set<nat>, bound: nat)
    requires
        bound <= ACTIVE_VALIDATORS,
    ensures
        forall|i: int, j: int|
            0 <= i < j < ascending(s, bound).len() ==> ascending(s, bound)[i] < ascending(
                s,
                bound,
            )[j],
        forall|i: int|
            0 <= i < ascending(s, bound).len() ==> (#[trigger] ascending(s, bound)[i]) < bound
                && s.contains(ascending(s, bound)[i] as nat),
        forall|v: nat|
            s.contains(v) && v < bound ==> exists|i: int|
                0 <= i < ascending(s, bound).len() && ascending(s, bound)[i] as nat == v,
        ascending(s, bound).len() <= bound,
    decreases bound,
{
    if bound > 0 {
        let top = (bound - 1) as nat;
        lemma_ascending_is_index_list(s, top);
        let front = ascending(s, top);
        let all = ascending(s, bound);
        assert forall|v: nat| s.contains(v) && v < bound implies exists|i: int|
            0 <= i < all.len() && all[i] as nat == v by {
            if v < top {
                let k = choose|k: int| 0 <= k < front.len() && front[k] as nat == v;
                assert(all[k] as nat == v);
            } else {
                assert(all[all.len() - 1] as nat == v);
            }
        }
    }
}

/// Taking more indices than the bytes hold reads nothing.
pub proof fn lemma_index_list_parse_short(s: Seq<u8>, count: nat)
    requires
        s.len() < 2 * count,
    ensures
        index_list_parse(s, count).is_none(),
{
}

/// Where taking `n` indices reads a list that is no index list, or nothing,
/// taking more reads no index list either.
pub proof fn lemma_index_list_parse_extends(s: Seq<u8>, n: nat, count: nat)
    requires
        n <= count,
        index_list_parse(s, n).is_none() || !is_index_list(index_list_parse(s, n).unwrap()),
    ensures
        index_list_parse(s, count).is_none() || !is_index_list(
            index_list_parse(s, count).unwrap(),
        ),
    decreases count,
{
    if n < count {
        lemma_index_list_parse_extends(s, n, (count - 1) as nat);
        if index_list_parse(s, count).is_some() {
            let front = index_list_parse(s, (count - 1) as nat).unwrap();
            let all = index_list_parse(s, count).unwrap();
            assert(all.drop_last() =~= front);
            if is_index_list(all) {
                assert forall|i: int, j: int| 0 <= i < j < front.len() implies front[i]
                    < front[j] by {
                    assert(all[i] < all[j]);
                }
                assert forall|i: int| 0 <= i < front.len() implies front[i]
                    < ACTIVE_VALIDATORS by {
                    assert(all[i] < ACTIVE_VALIDATORS);
                }
            }
        }
    }
}

/// A list of `n` indices takes `2 * n` bytes.
pub proof fn lemma_index_list_bytes_len(indices: Seq<u16>)
    ensures
        index_list_bytes(indices).len() == 2 * indices.len(),
    decreases indices.len(),
{
    if indices.len() > 0 {
        lemma_index_list_bytes_len(indices.drop_last());
        lemma_be_bytes_len(indices.last() as nat, 2);
    }
}

/// Reading back a list of indices that stands in front of any other bytes
/// gives the list.
pub proof fn lemma_index_list_parse_of_bytes(indices: Seq<u16>, rest: Seq<u8>)
    ensures
        index_list_parse(index_list_bytes(indices) + rest, indices.len()) == Some(indices),
    decreases indices.len(),
{
    let s = index_list_bytes(indices) + rest;
    lemma_index_list_bytes_len(indices);
    if indices.len() > 0 {
        let front = indices.drop_last();
        let last = be_bytes(indices.last() as nat, 2);
        lemma_index_list_bytes_len(front);
        lemma_be_bytes_len(indices.last() as nat, 2);
        assert(s =~= index_list_bytes(front) + (last + rest));
        lemma_index_list_parse_of_bytes(front, last + rest);
        assert(s.subrange(2 * (indices.len() - 1), 2 * indices.len() as int) =~= last);
        lemma_pow256_values();
        crate::codec::lemma_be_value_of_bytes(indices.last() as nat, 2);
        assert(front.push(indices.last()) =~= indices);
    } else {
        assert(indices =~= Seq::<u16>::empty());
    }
}

/// The bytes that a list of indices was read from are its encoding.
pub proof fn lemma_index_list_bytes_of_parse(s: Seq<u8>, count: nat)
    requires
        index_list_parse(s, count).is_some(),
    ensures
        index_list_parse(s, count).unwrap().len() == count,
        2 * count <= s.len(),
        s.subrange(0, 2 * count as int) == index_list_bytes(index_list_parse(s, count).unwrap()),
    decreases count,
{
    if count > 0 {
        lemma_index_list_bytes_of_parse(s, (count - 1) as nat);
        let front = index_list_parse(s, (count - 1) as nat).unwrap();
        let all = index_list_parse(s, count).unwrap();
        let piece = s.subrange(2 * (count - 1), 2 * count as int);
        assert(all.drop_last() =~= front);
        lemma_pow256_values();
        crate::codec::lemma_be_value_bound(piece);
        crate::codec::lemma_be_bytes_of_value(piece);
        assert(s.subrange(0, 2 * count as int) =~= s.subrange(0, 2 * (count - 1)) + piece);
    } else {
        assert(s.subrange(0, 0) =~= index_list_bytes(Seq::<u16>::empty()));
    }
}

/// The members of the set of a strictly ascending list that lie below
/// `bound`, in ascending order, are a front part of the list: the part that
/// lies below `bound`.
pub proof fn lemma_ascending_of_list(indices: Seq<u16>, bound: nat) -> (k: nat)
    requires
        is_index_list(indices),
    ensures
        k <= indices.len(),
        ascending(index_set(indices), bound) == indices.take(k as int),
        forall|i: int| 0 <= i < k ==> indices[i] < bound,
        forall|i: int| k <= i < indices.len() ==> indices[i] >= bound,
    decreases bound,
{
    let set = index_set(indices);
    if bound == 0 {
        assert(ascending(set, 0) =~= indices.take(0));
        0
    } else {
        let below = (bound - 1) as nat;
        let k = lemma_ascending_of_list(indices, below);
        if set.contains(below) {
            let j = choose|j: int| 0 <= j < indices.len() && indices[j] as nat == below;
            assert(j >= k);
            if j > k {
                assert(indices[k as int] < indices[j]);
            }
            assert(j == k);
            assert(ascending(set, bound) =~= indices.take(k as int + 1));
            assert forall|i: int| k + 1 <= i < indices.len() implies indices[i] >= bound by {
                assert(indices[k as int] < indices[i]);
            }
            k + 1
        } else {
            assert forall|i: int| k <= i < indices.len() implies indices[i] >= bound by {
                if indices[i] as nat == below {
                    assert(set.contains(below));
                }
            }
            k
        }
    }
}

/// What `signers_bytes` writes, `signers_parse` reads: a decoder that
/// starts at the encoding of a set within the committee takes exactly that
/// set.
pub proof fn lemma_signers_parse_of_bytes(set: Set<nat>, rest: Seq<u8>)
    requires
        Signers::bounded(set),
    ensures
        signers_parse(signers_bytes(set) + rest) == Some((set, signers_bytes(set).len())),
{
    let indices = ascending(set, ACTIVE_VALIDATORS as nat);
    let s = signers_bytes(set) + rest;
    lemma_ascending_is_index_list(set, ACTIVE_VALIDATORS as nat);
    lemma_pow256_values();
    lemma_be_bytes_len(indices.len(), 2);
    lemma_index_list_bytes_len(indices);
    assert(s =~= be_bytes(indices.len(), 2) + (index_list_bytes(indices) + rest));
    lemma_be_parse_of_bytes(indices.len(), 2, index_list_bytes(indices) + rest);
    assert(s.skip(2) =~= index_list_bytes(indices) + rest);
    lemma_index_list_parse_of_bytes(indices, rest);
    assert(is_index_list(indices));
    assert(index_set(indices) =~= set) by {
        assert forall|v: nat| index_set(indices).contains(v) <==> set.contains(v) by {
            if index_set(indices).contains(v) {
                let i = choose|i: int| 0 <= i < indices.len() && indices[i] as nat == v;
                assert(set.contains(indices[i] as nat));
            }
        }
    }
}

/// What `signers_parse` reads, `signers_bytes` writes: the bytes that a set
/// was read from are its encoding, and the set lies within the committee.
pub proof fn lemma_signers_bytes_of_parse(s: Seq<u8>)
    requires
        signers_parse(s).is_some(),
    ensures
        signers_parse(s).unwrap().1 <= s.len(),
        s.subrange(0, signers_parse(s).unwrap().1 as int) == signers_bytes(
            signers_parse(s).unwrap().0,
        ),
        Signers::bounded(signers_parse(s).unwrap().0),
{
    let (count, _) = be_parse(s, 2).unwrap();
    let indices = index_list_parse(s.skip(2), count).unwrap();
    let set = index_set(indices);
    lemma_be_bytes_of_parse(s, 2);
    lemma_index_list_bytes_of_parse(s.skip(2), count);
    let k = lemma_ascending_of_list(indices, ACTIVE_VALIDATORS as nat);
    assert(k == indices.len()) by {
        if k < indices.len() {
            assert(indices[k as int] < ACTIVE_VALIDATORS);
        }
    }
    assert(indices.take(k as int) =~= indices);
    assert(s.subrange(0, 2 + 2 * count as int) =~= s.subrange(0, 2) + s.skip(2).subrange(
        0,
        2 * count as int,
    ));
    assert forall|v: nat| set.contains(v) implies v < ACTIVE_VALIDATORS by {
        let i = choose|i: int| 0 <= i < indices.len() && indices[i] as nat == v;
    }
}

/// Two sets within the committee that have the same encoding are the same.
pub proof fn lemma_signers_bytes_injective(a: Set<nat>, b: Set<nat>)
    requires
        Signers::bounded(a),
        Signers::bounded(b),
        signers_bytes(a) == signers_bytes(b),
    ensures
        a == b,
{
    lemma_signers_parse_of_bytes(a, Seq::<u8>::empty());
    lemma_signers_parse_of_bytes(b, Seq::<u8>::empty());
}

} // verus!

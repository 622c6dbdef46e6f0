//! Byte-level encodings shared by every wire and storage format of the
//! validator: big-endian integers, raw byte strings and the variable-length
//! integer that carries a signer index.
//!
//! Every format is given twice: as a pair of spec functions (`*_bytes`, which
//! says what the encoding of a value is, and `*_parse`, which says what a
//! decoder reads from the front of a byte string) and as executable code
//! proved against them. The lemmas state that the two are inverse to each
//! other, so formats built from these pieces round-trip bit for bit.
use vstd::prelude::*;

verus! {

/// `256^n`.
pub open spec fn pow256(n: nat) -> nat
    decreases n,
{
    if n == 0 {
        1
    } else {
        256 * pow256((n - 1) as nat)
    }
}

/// The number that a byte string spells in base 256, most significant byte first.
pub open spec fn be_value(s: Seq<u8>) -> nat
    decreases s.len(),
{
    if s.len() == 0 {
        0
    } else {
        be_value(s.drop_last()) * 256 + s.last() as nat
    }
}

/// The `n` low base-256 digits of `v`, most significant first.
pub open spec fn be_bytes(v: nat, n: nat) -> Seq<u8>
    decreases n,
{
    if n == 0 {
        Seq::empty()
    } else {
        be_bytes(v / 256, (n - 1) as nat).push((v % 256) as u8)
    }
}

/// A big-endian encoding of width `n` has `n` bytes.
pub proof fn lemma_be_bytes_len(v: nat, n: nat)
    ensures
        be_bytes(v, n).len() == n,
    decreases n,
{
    if n > 0 {
        lemma_be_bytes_len(v / 256, (n - 1) as nat);
    }
}

/// A byte string of length `n` spells a number below `256^n`.
pub proof fn lemma_be_value_bound(s: Seq<u8>)
    ensures
        be_value(s) < pow256(s.len()),
    decreases s.len(),
{
    if s.len() > 0 {
        lemma_be_value_bound(s.drop_last());
    }
}

/// Decoding the width-`n` encoding of a number below `256^n` gives the number back.
pub proof fn lemma_be_value_of_bytes(v: nat, n: nat)
    requires
        v < pow256(n),
    ensures
        be_value(be_bytes(v, n)) == v,
    decreases n,
{
    if n > 0 {
        let rest = be_bytes(v / 256, (n - 1) as nat);
        lemma_be_value_of_bytes(v / 256, (n - 1) as nat);
        assert(be_bytes(v, n).drop_last() =~= rest);
    }
}

/// Encoding the number that a byte string spells, at the string's own width,
/// gives the string back.
pub proof fn lemma_be_bytes_of_value(s: Seq<u8>)
    ensures
        be_bytes(be_value(s), s.len()) == s,
    decreases s.len(),
{
    if s.len() > 0 {
        let front = s.drop_last();
        lemma_be_bytes_of_value(front);
        let v = be_value(s);
        assert(v / 256 == be_value(front));
        assert(v % 256 == s.last() as nat);
        assert(be_bytes(v, s.len()) =~= s);
    } else {
        assert(be_bytes(be_value(s), 0) =~= s);
    }
}

/// The number that eight bytes spell, written out digit by digit.
pub proof fn lemma_be_value_8(s: Seq<u8>)
    requires
        s.len() == 8,
    ensures
        be_value(s) == (s[0] as nat) * 0x100_0000_0000_0000 + (s[1] as nat) * 0x1_0000_0000_0000
            + (s[2] as nat) * 0x100_0000_0000 + (s[3] as nat) * 0x1_0000_0000 + (s[4] as nat)
            * 0x100_0000 + (s[5] as nat) * 0x1_0000 + (s[6] as nat) * 0x100 + (s[7] as nat),
{
    let s7 = s.drop_last();
    let s6 = s7.drop_last();
    let s5 = s6.drop_last();
    let s4 = s5.drop_last();
    let s3 = s4.drop_last();
    let s2 = s3.drop_last();
    let s1 = s2.drop_last();
    let s0 = s1.drop_last();
    assert(be_value(s0) == 0);
    assert(be_value(s1) == s[0] as nat);
    assert(be_value(s2) == be_value(s1) * 256 + s[1] as nat);
    assert(be_value(s3) == be_value(s2) * 256 + s[2] as nat);
    assert(be_value(s4) == be_value(s3) * 256 + s[3] as nat);
    assert(be_value(s5) == be_value(s4) * 256 + s[4] as nat);
    assert(be_value(s6) == be_value(s5) * 256 + s[5] as nat);
    assert(be_value(s7) == be_value(s6) * 256 + s[6] as nat);
    assert(be_value(s) == be_value(s7) * 256 + s[7] as nat);
}

/// The widths this crate uses, as plain numbers.
pub proof fn lemma_pow256_values()
    ensures
        pow256(0) == 1,
        pow256(1) == 0x100,
        pow256(2) == 0x1_0000,
        pow256(3) == 0x100_0000,
        pow256(4) == 0x1_0000_0000,
        pow256(5) == 0x100_0000_0000,
        pow256(6) == 0x1_0000_0000_0000,
        pow256(7) == 0x100_0000_0000_0000,
        pow256(8) == 0x1_0000_0000_0000_0000,
{
    reveal_with_fuel(pow256, 10);
}

/// Appends the `n` low bytes of `v` to `out`, most significant first.
pub fn push_be(out: &mut Vec<u8>, v: u64, n: usize)
    ensures
        final(out)@ == old(out)@ + be_bytes(v as nat, n as nat),
    decreases n,
{
    if n > 0 {
        push_be(out, v / 256, n - 1);
        out.push((v % 256) as u8);
        assert(out@ =~= old(out)@ + be_bytes(v as nat, n as nat));
    } else {
        assert(out@ =~= old(out)@ + be_bytes(v as nat, 0));
    }
}

/// Reads the `n` bytes of `bytes` that start at `start` as one big-endian number.
pub fn read_be(bytes: &Vec<u8>, start: usize, n: usize) -> (v: u64)
    requires
        n <= 8,
        start + n <= bytes.len(),
    ensures
        v as nat == be_value(bytes@.subrange(start as int, start + n)),
{
    let mut acc: u64 = 0;
    let mut i: usize = 0;
    proof {
        lemma_pow256_values();
    }
    while i < n
        invariant
            i <= n,
            n <= 8,
            start + n <= bytes.len(),
            acc as nat == be_value(bytes@.subrange(start as int, start + i)),
            acc < pow256(i as nat),
        decreases n - i,
    {
        let b: u8 = bytes[start + i];
        proof {
            let next = bytes@.subrange(start as int, start + i + 1);
            assert(next.drop_last() =~= bytes@.subrange(start as int, start + i));
            assert(next.last() == b);
            lemma_pow256_values();
            lemma_pow256_monotonic((i + 1) as nat, 8);
        }
        acc = acc * 256 + b as u64;
        i = i + 1;
    }
    acc
}

/// `256^a <= 256^b` whenever `a <= b`.
pub proof fn lemma_pow256_monotonic(a: nat, b: nat)
    requires
        a <= b,
    ensures
        pow256(a) <= pow256(b),
        pow256(a) >= 1,
    decreases b,
{
    if a < b {
        lemma_pow256_monotonic(a, (b - 1) as nat);
    } else if a > 0 {
        lemma_pow256_monotonic((a - 1) as nat, (a - 1) as nat);
    }
}

/// Appends every byte of `data` to `out`.
pub fn push_all(out: &mut Vec<u8>, data: &[u8])
    ensures
        final(out)@ == old(out)@ + data@,
{
    let mut i: usize = 0;
    while i < data.len()
        invariant
            i <= data.len(),
            out@ == old(out)@ + data@.subrange(0, i as int),
        decreases data.len() - i,
    {
        out.push(data[i]);
        i = i + 1;
        assert(out@ =~= old(out)@ + data@.subrange(0, i as int));
    }
    assert(data@.subrange(0, data.len() as int) =~= data@);
}

/// Whether two byte strings hold the same bytes.
pub fn bytes_equal(a: &[u8], b: &[u8]) -> (same: bool)
    ensures
        same == (a@ == b@),
{
    if a.len() != b.len() {
        return false;
    }
    let mut i: usize = 0;
    while i < a.len()
        invariant
            i <= a.len(),
            a.len() == b.len(),
            forall|j: int| 0 <= j < i ==> a@[j] == b@[j],
        decreases a.len() - i,
    {
        if a[i] != b[i] {
            return false;
        }
        i = i + 1;
    }
    assert(a@ =~= b@);
    true
}


/// What a decoder reads when it takes a big-endian integer of `n` bytes from
/// the front of `s`: the number and `n`, or nothing when `s` is too short.
pub open spec fn be_parse(s: Seq<u8>, n: nat) -> Option<(nat, nat)> {
    if s.len() >= n {
        Some((be_value(s.subrange(0, n as int)), n))
    } else {
        None
    }
}

/// Reading back a width-`n` integer that stands in front of any other bytes
/// gives the integer and consumes exactly its `n` bytes.
pub proof fn lemma_be_parse_of_bytes(v: nat, n: nat, rest: Seq<u8>)
    requires
        v < pow256(n),
    ensures
        be_parse(be_bytes(v, n) + rest, n) == Some((v, n)),
{
    lemma_be_bytes_len(v, n);
    lemma_be_value_of_bytes(v, n);
    assert((be_bytes(v, n) + rest).subrange(0, n as int) =~= be_bytes(v, n));
}

/// The bytes that an integer was read from are its encoding.
pub proof fn lemma_be_bytes_of_parse(s: Seq<u8>, n: nat)
    requires
        be_parse(s, n).is_some(),
    ensures
        s.subrange(0, n as int) == be_bytes(be_parse(s, n).unwrap().0, n),
        be_parse(s, n).unwrap().0 < pow256(n),
{
    lemma_be_bytes_of_value(s.subrange(0, n as int));
    lemma_be_value_bound(s.subrange(0, n as int));
}

/// Reads a big-endian integer of `n` bytes at `start`, and returns it with
/// the position behind it.
pub fn parse_be(bytes: &Vec<u8>, start: usize, n: usize) -> (r: Option<(u64, usize)>)
    requires
        n <= 8,
        start <= bytes.len(),
    ensures
        match be_parse(bytes@.skip(start as int), n as nat) {
            Some((v, used)) => r == Some((v as u64, (start + used) as usize)) && v <= u64::MAX,
            None => r.is_none(),
        },
{
    if bytes.len() - start < n {
        return None;
    }
    let v = read_be(bytes, start, n);
    proof {
        assert(bytes@.skip(start as int).subrange(0, n as int) =~= bytes@.subrange(
            start as int,
            start + n,
        ));
    }
    Some((v, start + n))
}

/// The encoding of a signer index as a variable-length integer: one byte
/// below `0x80`, two bytes below `0x4080`, three bytes above. Each form starts
/// where the shorter one ends, so no index has two encodings.
pub open spec fn uvar_bytes(v: u16) -> Seq<u8> {
    if v < 0x80 {
        seq![v as u8]
    } else if v < 0x4080 {
        let x = (v - 0x80) as nat;
        seq![(0x80 + x / 256) as u8, (x % 256) as u8]
    } else {
        let x = (v - 0x4080) as nat;
        seq![0xC0u8, (x / 256) as u8, (x % 256) as u8]
    }
}

/// What a decoder reads when it takes a signer index from the front of `s`:
/// the index and the number of bytes it took, or nothing when `s` ends early
/// or spells a number that no index can have.
pub open spec fn uvar_parse(s: Seq<u8>) -> Option<(u16, nat)> {
    if s.len() == 0 {
        None
    } else if s[0] < 0x80 {
        Some((s[0] as u16, 1))
    } else if s[0] < 0xC0 {
        if s.len() < 2 {
            None
        } else {
            Some((((s[0] - 0x80) * 256 + s[1] + 0x80) as u16, 2))
        }
    } else if s[0] == 0xC0 {
        if s.len() < 3 || s[1] * 256 + s[2] + 0x4080 > 0xFFFF {
            None
        } else {
            Some(((s[1] * 256 + s[2] + 0x4080) as u16, 3))
        }
    } else {
        None
    }
}

/// Reading back an index that stands in front of any other bytes gives the
/// index and consumes exactly its encoding.
pub proof fn lemma_uvar_parse_of_bytes(v: u16, rest: Seq<u8>)
    ensures
        uvar_parse(uvar_bytes(v) + rest) == Some((v, uvar_bytes(v).len())),
{
    let s = uvar_bytes(v) + rest;
    if v < 0x80 {
        assert(s[0] == v as u8);
    } else if v < 0x4080 {
        let x = (v - 0x80) as nat;
        assert(s[0] == (0x80 + x / 256) as u8);
        assert(s[1] == (x % 256) as u8);
    } else {
        let x = (v - 0x4080) as nat;
        assert(s[0] == 0xC0u8);
        assert(s[1] == (x / 256) as u8);
        assert(s[2] == (x % 256) as u8);
    }
}

/// The bytes that an index was read from are its encoding.
pub proof fn lemma_uvar_bytes_of_parse(s: Seq<u8>)
    requires
        uvar_parse(s).is_some(),
    ensures
        uvar_parse(s).unwrap().1 <= s.len(),
        s.subrange(0, uvar_parse(s).unwrap().1 as int) == uvar_bytes(uvar_parse(s).unwrap().0),
{
    let (v, n) = uvar_parse(s).unwrap();
    assert(s.subrange(0, n as int) =~= uvar_bytes(v));
}

/// Appends the encoding of a signer index to `out`.
pub fn push_uvar(out: &mut Vec<u8>, v: u16)
    ensures
        final(out)@ == old(out)@ + uvar_bytes(v),
{
    if v < 0x80 {
        out.push(v as u8);
    } else if v < 0x4080 {
        let x: u16 = v - 0x80;
        out.push((0x80 + x / 256) as u8);
        out.push((x % 256) as u8);
    } else {
        let x: u16 = v - 0x4080;
        out.push(0xC0u8);
        out.push((x / 256) as u8);
        out.push((x % 256) as u8);
    }
    assert(out@ =~= old(out)@ + uvar_bytes(v));
}

/// Reads a signer index at `start`, and returns it with the position behind it.
pub fn parse_uvar(bytes: &Vec<u8>, start: usize) -> (r: Option<(u16, usize)>)
    requires
        start <= bytes.len(),
    ensures
        match uvar_parse(bytes@.skip(start as int)) {
            Some((v, used)) => r == Some((v, (start + used) as usize)),
            None => r.is_none(),
        },
{
    let avail: usize = bytes.len() - start;
    if avail == 0 {
        return None;
    }
    let b0: u8 = bytes[start];
    if b0 < 0x80 {
        Some((b0 as u16, start + 1))
    } else if b0 < 0xC0 {
        if avail < 2 {
            None
        } else {
            let b1: u8 = bytes[start + 1];
            Some((((b0 - 0x80) as u16) * 256 + b1 as u16 + 0x80, start + 2))
        }
    } else if b0 == 0xC0 {
        if avail < 3 {
            return None;
        }
        let b1: u8 = bytes[start + 1];
        let b2: u8 = bytes[start + 2];
        let v: u32 = b1 as u32 * 256 + b2 as u32 + 0x4080;
        if v > 0xFFFF {
            None
        } else {
            Some((v as u16, start + 3))
        }
    } else {
        None
    }
}

} // verus!

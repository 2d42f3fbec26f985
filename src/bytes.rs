//! Little-endian integers of a fixed width and the length prefix of the
//! wire format, as byte sequences.
use vstd::prelude::*;
use vstd::arithmetic::div_mod::lemma_fundamental_div_mod;

verus! {

pub open spec fn pow256(k: nat) -> nat
    decreases k,
{
    if k == 0 {
        1
    } else {
        256 * pow256((k - 1) as nat)
    }
}

/// The `k` low bytes of `n`, least significant first.
pub open spec fn le_bytes(n: nat, k: nat) -> Seq<u8>
    decreases k,
{
    if k == 0 {
        Seq::empty()
    } else {
        seq![(n % 256) as u8] + le_bytes(n / 256, (k - 1) as nat)
    }
}

/// The number that `s` spells, least significant byte first.
pub open spec fn le_value(s: Seq<u8>) -> nat
    decreases s.len(),
{
    if s.len() == 0 {
        0
    } else {
        s[0] as nat + 256 * le_value(s.drop_first())
    }
}

pub proof fn lemma_pow256_values()
    ensures
        pow256(2) == 0x1_0000,
        pow256(4) == 0x1_0000_0000,
        pow256(8) == 0x1_0000_0000_0000_0000,
{
    reveal_with_fuel(pow256, 9);
}

pub proof fn lemma_pow256_mono(a: nat, b: nat)
    requires
        a <= b,
    ensures
        pow256(a) <= pow256(b),
    decreases b,
{
    if a < b {
        lemma_pow256_mono(a, (b - 1) as nat);
    }
}

pub proof fn lemma_le_bytes_len(n: nat, k: nat)
    ensures
        le_bytes(n, k).len() == k,
    decreases k,
{
    if k > 0 {
        lemma_le_bytes_len(n / 256, (k - 1) as nat);
    }
}

pub proof fn lemma_le_value_bound(s: Seq<u8>)
    ensures
        le_value(s) < pow256(s.len()),
    decreases s.len(),
{
    if s.len() > 0 {
        lemma_le_value_bound(s.drop_first());
    }
}

/// Reading back the `k` bytes written for `n` gives `n` when it fits.
pub proof fn lemma_le_round_trip(n: nat, k: nat)
    requires
        n < pow256(k),
    ensures
        le_value(le_bytes(n, k)) == n,
    decreases k,
{
    if k > 0 {
        lemma_fundamental_div_mod(n as int, 256);
        let t = le_bytes(n / 256, (k - 1) as nat);
        assert((seq![(n % 256) as u8] + t).drop_first() =~= t);
        assert(n / 256 < pow256((k - 1) as nat));
        lemma_le_round_trip(n / 256, (k - 1) as nat);
    }
}

/// Appends the `k` low bytes of `n`, least significant first.
pub fn push_le(out: &mut Vec<u8>, n: u64, k: usize)
    requires
        k <= 8,
    ensures
        final(out)@ == old(out)@ + le_bytes(n as nat, k as nat),
{
    let mut v: u64 = n;
    let mut j: usize = 0;
    while j < k
        invariant
            j <= k,
            old(out)@ + le_bytes(n as nat, k as nat) == out@ + le_bytes(v as nat, (k - j) as nat),
        decreases k - j,
    {
        let ghost before = out@;
        let ghost rest = le_bytes(v as nat / 256, (k - j - 1) as nat);
        out.push((v % 256) as u8);
        assert(before + (seq![(v % 256) as u8] + rest) =~= out@ + rest);
        v = v / 256;
        j = j + 1;
    }
    assert(out@ + le_bytes(v as nat, 0) =~= out@);
}

/// Reads `k` bytes from `start` as a little-endian number.
pub fn read_le(b: &[u8], start: usize, k: usize) -> (r: u64)
    requires
        k <= 8,
        start + k <= b@.len(),
    ensures
        r as nat == le_value(b@.subrange(start as int, start + k)),
{
    let len: usize = b.len();
    let mut acc: u64 = 0;
    let mut i: usize = k;
    proof {
        assert(b@.subrange(start + k, start + k).len() == 0);
    }
    while i > 0
        invariant
            i <= k <= 8,
            start + k <= b@.len() == len,
            acc as nat == le_value(b@.subrange(start + i, start + k)),
        decreases i,
    {
        i = i - 1;
        let ghost tail = b@.subrange(start + i + 1, start + k);
        proof {
            lemma_le_value_bound(tail);
            lemma_pow256_mono(tail.len(), 7);
            lemma_pow256_values();
            assert(pow256(8) == 256 * pow256(7));
            assert(b@.subrange(start + i, start + k).drop_first() =~= tail);
        }
        assert(start + i < b@.len());
        let byte: u8 = b[start + i];
        acc = acc * 256 + byte as u64;
    }
    acc
}

/// Largest count that fits the single-byte form of the length prefix.
pub const SINGLE_BYTE_MAX: u8 = 250;
/// Tag of a length prefix followed by two bytes.
pub const U16_TAG: u8 = 251;
/// Tag of a length prefix followed by four bytes.
pub const U32_TAG: u8 = 252;
/// Tag of a length prefix followed by eight bytes.
pub const U64_TAG: u8 = 253;

/// The length prefix for `n`: one byte below 251, else a tag and the
/// shortest of two, four or eight little-endian bytes that holds `n`.
pub open spec fn varint_bytes(n: nat) -> Seq<u8> {
    if n <= 250 {
        seq![n as u8]
    } else if n < 0x1_0000 {
        seq![251u8] + le_bytes(n, 2)
    } else if n < 0x1_0000_0000 {
        seq![252u8] + le_bytes(n, 4)
    } else {
        seq![253u8] + le_bytes(n, 8)
    }
}

/// Why a byte stream does not start with a message.
#[derive(Debug, Clone, Copy, PartialEq, Eq, Structural)]
pub enum DecodeError {
    /// The stream ends before the message does.
    Truncated,
    /// The length prefix starts with a tag this format does not use.
    InvalidLengthTag,
}

/// The length prefix at the start of `b`, and the bytes it takes.
pub open spec fn varint_decode(b: Seq<u8>) -> Result<(nat, nat), DecodeError> {
    if b.len() == 0 {
        Err(DecodeError::Truncated)
    } else if b[0] <= 250 {
        Ok((b[0] as nat, 1))
    } else if b[0] == 251 {
        if b.len() < 3 { Err(DecodeError::Truncated) } else { Ok((le_value(b.subrange(1, 3)), 3)) }
    } else if b[0] == 252 {
        if b.len() < 5 { Err(DecodeError::Truncated) } else { Ok((le_value(b.subrange(1, 5)), 5)) }
    } else if b[0] == 253 {
        if b.len() < 9 { Err(DecodeError::Truncated) } else { Ok((le_value(b.subrange(1, 9)), 9)) }
    } else {
        Err(DecodeError::InvalidLengthTag)
    }
}

/// Appends the length prefix for `n`.
pub fn push_varint(out: &mut Vec<u8>, n: u64)
    ensures
        final(out)@ == old(out)@ + varint_bytes(n as nat),
{
    let ghost before = out@;
    if n <= SINGLE_BYTE_MAX as u64 {
        out.push(n as u8);
        assert(out@ =~= before + seq![n as u8]);
    } else if n < 0x1_0000 {
        out.push(U16_TAG);
        push_le(out, n, 2);
        assert(out@ =~= before + (seq![251u8] + le_bytes(n as nat, 2)));
    } else if n < 0x1_0000_0000 {
        out.push(U32_TAG);
        push_le(out, n, 4);
        assert(out@ =~= before + (seq![252u8] + le_bytes(n as nat, 4)));
    } else {
        out.push(U64_TAG);
        push_le(out, n, 8);
        assert(out@ =~= before + (seq![253u8] + le_bytes(n as nat, 8)));
    }
}

/// Reads the length prefix at the start of `b`: the count and the bytes it took.
pub fn read_varint(b: &[u8]) -> (r: Result<(u64, usize), DecodeError>)
    ensures
        match (r, varint_decode(b@)) {
            (Ok((n, used)), Ok((sn, sused))) => n as nat == sn && used as nat == sused,
            (Err(e), Err(se)) => e == se,
            _ => false,
        },
{
    let len: usize = b.len();
    if len == 0 {
        return Err(DecodeError::Truncated);
    }
    let tag: u8 = b[0];
    if tag <= SINGLE_BYTE_MAX {
        Ok((tag as u64, 1))
    } else if tag == U16_TAG {
        if len < 3 { Err(DecodeError::Truncated) } else { Ok((read_le(b, 1, 2), 3)) }
    } else if tag == U32_TAG {
        if len < 5 { Err(DecodeError::Truncated) } else { Ok((read_le(b, 1, 4), 5)) }
    } else if tag == U64_TAG {
        if len < 9 { Err(DecodeError::Truncated) } else { Ok((read_le(b, 1, 8), 9)) }
    } else {
        Err(DecodeError::InvalidLengthTag)
    }
}

proof fn lemma_tagged_round_trip(n: nat, k: nat, tag: u8, rest: Seq<u8>)
    requires
        n < pow256(k),
    ensures
        ({
            let b = seq![tag] + le_bytes(n, k) + rest;
            &&& b.len() >= k + 1
            &&& b[0] == tag
            &&& le_value(b.subrange(1, k as int + 1)) == n
        }),
{
    let b = seq![tag] + le_bytes(n, k) + rest;
    lemma_le_bytes_len(n, k);
    assert(b.subrange(1, k as int + 1) =~= le_bytes(n, k));
    lemma_le_round_trip(n, k);
}

/// The length prefix of `n`, followed by anything, reads back as `n` and
/// takes exactly the prefix's bytes.
pub proof fn lemma_varint_round_trip(n: nat, rest: Seq<u8>)
    requires
        n < pow256(8),
    ensures
        varint_decode(varint_bytes(n) + rest) == Ok::<(nat, nat), DecodeError>((n, varint_bytes(n).len())),
{
    lemma_pow256_values();
    let b = varint_bytes(n) + rest;
    if n <= 250 {
        assert(b[0] == n as u8);
    } else if n < 0x1_0000 {
        lemma_tagged_round_trip(n, 2, 251u8, rest);
        lemma_le_bytes_len(n, 2);
        assert(b =~= seq![251u8] + le_bytes(n, 2) + rest);
    } else if n < 0x1_0000_0000 {
        lemma_tagged_round_trip(n, 4, 252u8, rest);
        lemma_le_bytes_len(n, 4);
        assert(b =~= seq![252u8] + le_bytes(n, 4) + rest);
    } else {
        lemma_tagged_round_trip(n, 8, 253u8, rest);
        lemma_le_bytes_len(n, 8);
        assert(b =~= seq![253u8] + le_bytes(n, 8) + rest);
    }
}

} // verus!

//! Byte layouts of fixed-width integers.
use vstd::prelude::*;

verus! {

/// Big-endian layout of a 16-bit value.
pub open spec fn be16(x: u16) -> Seq<u8> {
    seq![(x / 256) as u8, (x % 256) as u8]
}

/// Little-endian layout of a 16-bit value.
pub open spec fn le16(x: u16) -> Seq<u8> {
    seq![(x % 256) as u8, (x / 256) as u8]
}

/// Big-endian layout of a 32-bit value.
pub open spec fn be32(x: u32) -> Seq<u8> {
    seq![
        (x / 0x100_0000) as u8,
        ((x / 0x1_0000) % 256) as u8,
        ((x / 256) % 256) as u8,
        (x % 256) as u8,
    ]
}

/// The unsigned number whose big-endian layout is `s`.
pub open spec fn be_value(s: Seq<u8>) -> nat
    decreases s.len(),
{
    if s.len() == 0 {
        0
    } else {
        be_value(s.drop_last()) * 256 + (s.last() as nat)
    }
}

/// 256 to the power `n`.
pub open spec fn pow256(n: nat) -> nat
    decreases n,
{
    if n == 0 {
        1
    } else {
        256 * pow256((n - 1) as nat)
    }
}

/// A big-endian number of `n` bytes is below 256^n.
pub proof fn lemma_be_value_bound(s: Seq<u8>)
    ensures
        be_value(s) < pow256(s.len()),
    decreases s.len(),
{
    if s.len() > 0 {
        lemma_be_value_bound(s.drop_last());
    }
}

/// 256^n grows with n.
pub proof fn lemma_pow256_mono(a: nat, b: nat)
    requires
        a <= b,
    ensures
        pow256(a) <= pow256(b),
    decreases b,
{
    if a < b {
        lemma_pow256_mono(a, (b - 1) as nat);
    }
}

/// The big-endian number formed by the first `k` bytes of `d`, for `k` up
/// to eight.
pub fn be_prefix(d: &[u8], k: usize) -> (r: u64)
    requires
        k <= 8,
        k <= d@.len(),
    ensures
        r == be_value(d@.take(k as int)),
{
    assert(pow256(8) == 0x1_0000_0000_0000_0000) by {
        reveal_with_fuel(pow256, 9);
    }
    let mut v: u64 = 0;
    for i in 0..k
        invariant
            k <= 8,
            k <= d@.len(),
            pow256(8) == 0x1_0000_0000_0000_0000,
            v == be_value(d@.take(i as int)),
    {
        proof {
            lemma_be_value_bound(d@.take(i as int));
            lemma_pow256_mono((i + 1) as nat, 8);
            assert(d@.take(i + 1).drop_last() == d@.take(i as int));
        }
        v = v * 256 + d[i] as u64;
    }
    v
}

/// Appends the big-endian layout of `x`.
pub fn push_be16(v: &mut Vec<u8>, x: u16)
    ensures
        final(v)@ == old(v)@ + be16(x),
{
    v.push((x / 256) as u8);
    v.push((x % 256) as u8);
}

/// Appends the little-endian layout of `x`.
pub fn push_le16(v: &mut Vec<u8>, x: u16)
    ensures
        final(v)@ == old(v)@ + le16(x),
{
    v.push((x % 256) as u8);
    v.push((x / 256) as u8);
}

/// Appends the big-endian layout of `x`.
pub fn push_be32(v: &mut Vec<u8>, x: u32)
    ensures
        final(v)@ == old(v)@ + be32(x),
{
    v.push((x / 0x100_0000) as u8);
    v.push(((x / 0x1_0000) % 256) as u8);
    v.push(((x / 256) % 256) as u8);
    v.push((x % 256) as u8);
}

/// Appends every byte of `s`, in order.
pub fn push_all(v: &mut Vec<u8>, s: &[u8])
    ensures
        final(v)@ == old(v)@ + s@,
{
    let ghost start = v@;
    let n = s.len();
    for i in 0..n
        invariant
            n == s@.len(),
            v@ == start + s@.take(i as int),
    {
        v.push(s[i]);
        assert(s@.take(i + 1) == s@.take(i as int).push(s@[i as int]));
    }
    assert(s@.take(n as int) == s@);
}

/// The 16-bit value whose big-endian layout is `[hi, lo]`.
pub fn u16_from_be(hi: u8, lo: u8) -> (r: u16)
    ensures
        r == hi * 256 + lo,
        be16(r) == seq![hi, lo],
{
    hi as u16 * 256 + lo as u16
}

/// The 16-bit value whose little-endian layout is `[lo, hi]`.
pub fn u16_from_le(lo: u8, hi: u8) -> (r: u16)
    ensures
        r == hi * 256 + lo,
        le16(r) == seq![lo, hi],
{
    hi as u16 * 256 + lo as u16
}

/// The 32-bit value whose big-endian layout is `[b0, b1, b2, b3]`.
pub fn u32_from_be(b0: u8, b1: u8, b2: u8, b3: u8) -> (r: u32)
    ensures
        r == b0 * 0x100_0000 + b1 * 0x1_0000 + b2 * 256 + b3,
        be32(r) == seq![b0, b1, b2, b3],
{
    let r: u32 = b0 as u32 * 0x100_0000 + b1 as u32 * 0x1_0000 + b2 as u32 * 256 + b3 as u32;
    assert(r / 0x100_0000 == b0 && (r / 0x1_0000) % 256 == b1 && (r / 256) % 256 == b2
        && r % 256 == b3) by (bit_vector)
        requires
            r == b0 as u32 * 0x100_0000 + b1 as u32 * 0x1_0000 + b2 as u32 * 256 + b3 as u32,
    ;
    r
}

/// Reading back a big-endian 16-bit layout gives the value.
pub proof fn lemma_be16_value(x: u16)
    ensures
        be16(x)[0] * 256 + be16(x)[1] == x,
{
}

/// Reading back a little-endian 16-bit layout gives the value.
pub proof fn lemma_le16_value(x: u16)
    ensures
        le16(x)[1] * 256 + le16(x)[0] == x,
{
}

/// Reading back a big-endian 32-bit layout gives the value.
pub proof fn lemma_be32_value(x: u32)
    ensures
        be32(x)[0] * 0x100_0000 + be32(x)[1] * 0x1_0000 + be32(x)[2] * 256 + be32(x)[3] == x,
{
}

} // verus!

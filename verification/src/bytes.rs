//! Big-endian integers, written to and read from byte sequences.

use vstd::prelude::*;

verus! {

/// The four bytes of `n`, most significant first.
#[verifier::opaque]
pub open spec fn be32(n: u32) -> Seq<u8> {
    seq![
        ((n >> 24u32) & 0xff) as u8,
        ((n >> 16u32) & 0xff) as u8,
        ((n >> 8u32) & 0xff) as u8,
        (n & 0xff) as u8,
    ]
}

/// The eight bytes of `n`, most significant first.
#[verifier::opaque]
pub open spec fn be64(n: u64) -> Seq<u8> {
    be32((n >> 32u64) as u32) + be32((n & 0xffff_ffff) as u32)
}

/// The number whose four bytes, most significant first, stand at `at`.
pub open spec fn of_be32(b: Seq<u8>, at: int) -> u32 {
    ((b[at] as u32) << 24u32) | ((b[at + 1] as u32) << 16u32) | ((b[at + 2] as u32) << 8u32) | (b[at
        + 3] as u32)
}

/// The number whose eight bytes, most significant first, stand at `at`.
pub open spec fn of_be64(b: Seq<u8>, at: int) -> u64 {
    ((of_be32(b, at) as u64) << 32u64) | (of_be32(b, at + 4) as u64)
}

/// Append the four bytes of `n`.
pub fn push_be32(v: &mut Vec<u8>, n: u32)
    ensures
        final(v)@ == old(v)@ + be32(n),
{
    reveal(be32);
    let ghost start = v@;
    v.push(((n >> 24u32) & 0xff) as u8);
    v.push(((n >> 16u32) & 0xff) as u8);
    v.push(((n >> 8u32) & 0xff) as u8);
    v.push((n & 0xff) as u8);
    assert(v@ =~= start + be32(n));
}

/// Append the eight bytes of `n`.
pub fn push_be64(v: &mut Vec<u8>, n: u64)
    ensures
        final(v)@ == old(v)@ + be64(n),
{
    reveal(be64);
    let ghost start = v@;
    push_be32(v, (n >> 32u64) as u32);
    push_be32(v, (n & 0xffff_ffff) as u32);
    assert(v@ =~= start + be64(n));
}

/// Read four bytes at `at`.
pub fn get_be32(b: &[u8], at: usize) -> (n: u32)
    requires
        at + 4 <= b@.len(),
    ensures
        n == of_be32(b@, at as int),
{
    ((b[at] as u32) << 24u32) | ((b[at + 1] as u32) << 16u32) | ((b[at + 2] as u32) << 8u32) | (b[at
        + 3] as u32)
}

/// Read eight bytes at `at`.
pub fn get_be64(b: &[u8], at: usize) -> (n: u64)
    requires
        at + 8 <= b@.len(),
    ensures
        n == of_be64(b@, at as int),
{
    let rest: usize = b.len() - at;
    assert(rest >= 8);
    let low: usize = at + 4;
    ((get_be32(b, at) as u64) << 32u64) | (get_be32(b, low) as u64)
}

/// A number takes as many bytes as it is wide.
pub broadcast proof fn be32_len(n: u32)
    ensures
        #[trigger] be32(n).len() == 4,
{
    reveal(be32);
}

/// A number takes as many bytes as it is wide.
pub broadcast proof fn be64_len(n: u64)
    ensures
        #[trigger] be64(n).len() == 8,
{
    reveal(be32);
    reveal(be64);
}

/// What four bytes give back is the number they were written from.
pub proof fn be32_round_trip(b: Seq<u8>, at: int, n: u32)
    requires
        0 <= at,
        at + 4 <= b.len(),
        b.subrange(at, at + 4) == be32(n),
    ensures
        of_be32(b, at) == n,
{
    reveal(be32);
    let s = b.subrange(at, at + 4);
    assert(s[0] == b[at] && s[1] == b[at + 1] && s[2] == b[at + 2] && s[3] == b[at + 3]);
    let w = be32(n);
    assert(s[0] == w[0] && s[1] == w[1] && s[2] == w[2] && s[3] == w[3]);
    assert(((((n >> 24u32) & 0xff) as u8 as u32) << 24u32) | ((((n >> 16u32) & 0xff) as u8 as u32)
        << 16u32) | ((((n >> 8u32) & 0xff) as u8 as u32) << 8u32) | ((n & 0xff) as u8 as u32) == n)
        by (bit_vector);
}

/// What eight bytes give back is the number they were written from.
pub proof fn be64_round_trip(b: Seq<u8>, at: int, n: u64)
    requires
        0 <= at,
        at + 8 <= b.len(),
        b.subrange(at, at + 8) == be64(n),
    ensures
        of_be64(b, at) == n,
{
    reveal(be32);
    reveal(be64);
    let hi = (n >> 32u64) as u32;
    let lo = (n & 0xffff_ffff) as u32;
    let s = b.subrange(at, at + 8);
    assert(b.subrange(at, at + 4) =~= s.take(4));
    assert(be64(n).take(4) =~= be32(hi));
    assert(b.subrange(at + 4, at + 8) =~= s.skip(4));
    assert(be64(n).skip(4) =~= be32(lo));
    be32_round_trip(b, at, hi);
    be32_round_trip(b, at + 4, lo);
    assert(((((n >> 32u64) as u32) as u64) << 32u64) | (((n & 0xffff_ffff) as u32) as u64) == n)
        by (bit_vector);
}

/// A signed number survives being carried as the unsigned one with the same bits.
pub proof fn signed32_round_trip(n: i32)
    ensures
        (n as u32) as i32 == n,
{
    assert((n as u32) as i32 == n) by (bit_vector);
}

/// A signed number survives being carried as the unsigned one with the same bits.
pub proof fn signed64_round_trip(n: i64)
    ensures
        (n as u64) as i64 == n,
{
    assert((n as u64) as i64 == n) by (bit_vector);
}

} // verus!

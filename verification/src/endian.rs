//! Big-endian integers as sequences of bytes.

use vstd::prelude::*;

verus! {

/// The number that four bytes spell in big-endian order.
#[verifier::opaque]
pub open spec fn be_u32(s: Seq<u8>) -> nat
    recommends
        s.len() == 4,
{
    (s[0] as nat) * 0x100_0000 + (s[1] as nat) * 0x1_0000 + (s[2] as nat) * 0x100 + (s[3] as nat)
}

/// The number that eight bytes spell in big-endian order.
#[verifier::opaque]
pub open spec fn be_u64(s: Seq<u8>) -> nat
    recommends
        s.len() == 8,
{
    be_u32(s.subrange(0, 4)) * 0x1_0000_0000 + be_u32(s.subrange(4, 8))
}

/// The four bytes of a 32-bit number, most significant first.
#[verifier::opaque]
pub open spec fn u32_be_bytes(x: u32) -> Seq<u8> {
    seq![
        (x / 0x100_0000) as u8,
        (x / 0x1_0000 % 0x100) as u8,
        (x / 0x100 % 0x100) as u8,
        (x % 0x100) as u8,
    ]
}

/// The eight bytes of a 64-bit number, most significant first.
#[verifier::opaque]
pub open spec fn u64_be_bytes(x: u64) -> Seq<u8> {
    u32_be_bytes((x / 0x1_0000_0000) as u32) + u32_be_bytes((x % 0x1_0000_0000) as u32)
}

/// Four bytes spell a number that fits in 32 bits.
pub proof fn lemma_be_u32_bound(s: Seq<u8>)
    ensures
        be_u32(s) <= u32::MAX,
{
    reveal(be_u32);
}

/// Reading back the bytes of a 32-bit number gives the number.
pub proof fn lemma_u32_round_trip(x: u32)
    ensures
        u32_be_bytes(x).len() == 4,
        be_u32(u32_be_bytes(x)) == x,
{
    reveal(be_u32);
    reveal(u32_be_bytes);
}

/// Reading back the bytes of a 64-bit number gives the number.
pub proof fn lemma_u64_round_trip(x: u64)
    ensures
        u64_be_bytes(x).len() == 8,
        be_u64(u64_be_bytes(x)) == x,
{
    reveal(be_u64);
    reveal(u64_be_bytes);
    let hi: u32 = (x / 0x1_0000_0000) as u32;
    let lo: u32 = (x % 0x1_0000_0000) as u32;
    lemma_u32_round_trip(hi);
    lemma_u32_round_trip(lo);
    assert(u64_be_bytes(x).subrange(0, 4) =~= u32_be_bytes(hi));
    assert(u64_be_bytes(x).subrange(4, 8) =~= u32_be_bytes(lo));
}

} // verus!

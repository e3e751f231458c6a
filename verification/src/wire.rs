//! The fixed eight-byte header: layout, magic and size caps.

use crate::endian::be_u32;
use vstd::prelude::*;

verus! {

/// Bytes in the header: the magic, then the body length.
pub const HEADER_LEN: usize = 8;

/// Largest body any receiver accepts (8 MiB), whatever its soft cap.
pub const MAX_FRAME_LEN_HARD: usize = 8 * 1024 * 1024;

/// A soft cap that suits browser-oriented traffic (256 KiB).
pub const DEFAULT_FRAME_LEN_SOFT: usize = 256 * 1024;

/// The magic that opens every frame: the ASCII letters `NWD1`.
pub const MAGIC: [u8; 4] = [0x4E, 0x57, 0x44, 0x31];

/// The magic as a sequence of bytes.
pub open spec fn magic() -> Seq<u8> {
    seq![0x4Eu8, 0x57u8, 0x44u8, 0x31u8]
}

/// Whether a header opens with the magic.
pub open spec fn has_magic(header: Seq<u8>) -> bool {
    header.len() >= 4 && header.subrange(0, 4) == magic()
}

/// The body length that a header declares.
pub open spec fn declared_len(header: Seq<u8>) -> nat
    recommends
        header.len() == HEADER_LEN,
{
    be_u32(header.subrange(4, 8))
}

/// Compares the first four header bytes with the magic.
pub fn magic_matches(header: &[u8; 8]) -> (ok: bool)
    ensures
        ok == has_magic(header@),
{
    let ok: bool = header[0] == MAGIC[0] && header[1] == MAGIC[1] && header[2] == MAGIC[2]
        && header[3] == MAGIC[3];
    proof {
        if ok {
            assert(header@.subrange(0, 4) =~= magic());
        } else {
            assert(header@.subrange(0, 4)[0] == header@[0]);
            assert(header@.subrange(0, 4)[1] == header@[1]);
            assert(header@.subrange(0, 4)[2] == header@[2]);
            assert(header@.subrange(0, 4)[3] == header@[3]);
        }
    }
    ok
}

/// Reads the big-endian length field of a header.
pub fn read_declared_len(header: &[u8; 8]) -> (len: u32)
    ensures
        len == declared_len(header@),
{
    let b0: u32 = header[4] as u32;
    let b1: u32 = header[5] as u32;
    let b2: u32 = header[6] as u32;
    let b3: u32 = header[7] as u32;
    proof {
        reveal(be_u32);
    }
    b0 * 0x100_0000 + b1 * 0x1_0000 + b2 * 0x100 + b3
}

/// The cap in force: the smaller of the caller's soft cap and the hard
/// ceiling, so that no soft cap can lift the ceiling.
pub open spec fn effective_cap(soft_cap: usize) -> usize {
    if soft_cap < MAX_FRAME_LEN_HARD {
        soft_cap
    } else {
        MAX_FRAME_LEN_HARD
    }
}

/// Whether a declared length passes both caps.
pub open spec fn within_caps(len: nat, soft_cap: usize) -> bool {
    len <= effective_cap(soft_cap)
}

/// Tests a declared length against the soft cap and the hard ceiling.
pub fn check_caps(len: u32, soft_cap: usize) -> (ok: bool)
    ensures
        ok == within_caps(len as nat, soft_cap),
        ok == (len <= soft_cap && len <= MAX_FRAME_LEN_HARD),
{
    let len: usize = len as usize;
    !(len > soft_cap || len > MAX_FRAME_LEN_HARD)
}

} // verus!

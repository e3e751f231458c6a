//! Frames to bytes and back, by the `nwd1` codec.

use crate::endian::{lemma_u32_round_trip, lemma_u64_round_trip, u32_be_bytes, u64_be_bytes};
use crate::frame::{decode_spec, decoded_view, DecodeError, Frame, FrameView, FIXED_BODY_LEN};
use crate::wire::{magic, magic_matches, read_declared_len, HEADER_LEN};
use bytes::Bytes;
use netid64::NetId64;
use vstd::prelude::*;

verus! {

/// Calls `nwd1::encode`. Trusted: for a frame that fits, the result is the
/// magic, the body's length as a big-endian 32-bit number, the id and, after
/// the kind byte, the version, each as a big-endian 64-bit number, and last
/// the payload.
#[verifier::external_body]
fn codec_encode(frame: &Frame) -> (out: Vec<u8>)
    requires
        frame@.fits(),
    ensures
        out@ == frame@.wire(),
{
    let outside = nwd1::Frame {
        id: NetId64::from_raw(frame.id),
        kind: frame.kind,
        ver: frame.ver,
        payload: Bytes::copy_from_slice(&frame.payload),
    };
    nwd1::encode(&outside).to_vec()
}

/// Calls `nwd1::decode`. Trusted: it reports an I/O error on fewer than
/// eight bytes, a wrong magic before it looks at the length, a truncated
/// frame when fewer bytes follow the header than it declares, and else
/// hands back the fields of the declared body, ignoring what follows it.
/// On an entire body of fewer than `FIXED_BODY_LEN` bytes it panics: such
/// a buffer is left out.
#[verifier::external_body]
fn codec_decode(wire: &[u8]) -> (r: Result<Frame, DecodeError>)
    requires
        decode_spec(wire@) != Err::<FrameView, DecodeError>(DecodeError::ShortBody),
    ensures
        decoded_view(r) == decode_spec(wire@),
{
    match nwd1::decode(wire) {
        Ok(f) => Ok(Frame { id: f.id.raw(), kind: f.kind, ver: f.ver, payload: f.payload.to_vec() }),
        Err(nwd1::DecodeError::InvalidMagic) => Err(DecodeError::InvalidMagic),
        Err(nwd1::DecodeError::Truncated) => Err(DecodeError::Truncated),
        Err(nwd1::DecodeError::Io(_)) => Err(DecodeError::Io),
    }
}

/// Encodes a frame into its wire image.
pub fn encode(frame: &Frame) -> (out: Vec<u8>)
    requires
        frame@.fits(),
    ensures
        out@ == frame@.wire(),
        out@.len() == HEADER_LEN + FIXED_BODY_LEN + frame.payload@.len(),
{
    proof {
        lemma_wire_len(frame@);
    }
    codec_encode(frame)
}

/// Decodes the frame at the start of a buffer. A body too short to hold
/// id, kind and version is refused here and never reaches the codec.
pub fn decode(wire: &[u8]) -> (r: Result<Frame, DecodeError>)
    ensures
        decoded_view(r) == decode_spec(wire@),
{
    if wire.len() >= HEADER_LEN {
        let header: [u8; 8] = [
            wire[0],
            wire[1],
            wire[2],
            wire[3],
            wire[4],
            wire[5],
            wire[6],
            wire[7],
        ];
        assert(header@.subrange(0, 4) =~= wire@.subrange(0, 4));
        assert(header@.subrange(4, 8) =~= wire@.subrange(4, 8));
        if magic_matches(&header) {
            let len: usize = read_declared_len(&header) as usize;
            if len <= wire.len() - HEADER_LEN && len < FIXED_BODY_LEN {
                return Err(DecodeError::ShortBody);
            }
        }
    }
    codec_decode(wire)
}

/// The wire image is the header and the fixed fields longer than the payload.
pub proof fn lemma_wire_len(f: FrameView)
    ensures
        f.body().len() == FIXED_BODY_LEN + f.payload.len(),
        f.wire().len() == HEADER_LEN + FIXED_BODY_LEN + f.payload.len(),
{
    lemma_u64_round_trip(f.id);
    lemma_u64_round_trip(f.ver);
    lemma_u32_round_trip(f.len_field());
}

/// Decoding the wire image of a frame that fits gives the frame back, field
/// for field and byte for byte, whatever follows the image in the buffer.
pub proof fn lemma_decode_encode(f: FrameView, rest: Seq<u8>)
    requires
        f.fits(),
    ensures
        decode_spec(f.wire() + rest) == Ok::<FrameView, DecodeError>(f),
{
    let wire: Seq<u8> = f.wire() + rest;
    let body: Seq<u8> = f.body();
    lemma_wire_len(f);
    lemma_u64_round_trip(f.id);
    lemma_u64_round_trip(f.ver);
    lemma_u32_round_trip(f.len_field());
    assert(wire.subrange(0, 4) =~= magic());
    assert(wire.subrange(4, 8) =~= u32_be_bytes(f.len_field()));
    assert(wire.subrange(8, 8 + body.len() as int) =~= body);
    assert(body.subrange(0, 8) =~= u64_be_bytes(f.id));
    assert(body[8] == f.kind);
    assert(body.subrange(9, 17) =~= u64_be_bytes(f.ver));
    assert(body.subrange(17, body.len() as int) =~= f.payload);
}

} // verus!

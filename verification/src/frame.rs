//! The frame and its image on the wire.

use crate::endian::{be_u32, be_u64, u32_be_bytes, u64_be_bytes};
use crate::wire::{has_magic, magic, HEADER_LEN};
use vstd::prelude::*;

verus! {

/// Bytes of a body that come before the payload: id, kind and version.
pub const FIXED_BODY_LEN: usize = 17;

/// One application message.
#[derive(Debug, Clone, PartialEq, Eq)]
pub struct Frame {
    /// Identifier, carried as a 64-bit number and never interpreted here.
    pub id: u64,
    /// What kind of payload this is.
    pub kind: u8,
    /// Version of the payload's schema.
    pub ver: u64,
    /// The application's bytes.
    pub payload: Vec<u8>,
}

/// A frame as a mathematical value.
pub struct FrameView {
    pub id: u64,
    pub kind: u8,
    pub ver: u64,
    pub payload: Seq<u8>,
}

impl View for Frame {
    type V = FrameView;

    open spec fn view(&self) -> FrameView {
        FrameView { id: self.id, kind: self.kind, ver: self.ver, payload: self.payload@ }
    }
}

impl FrameView {
    /// The body: id, kind, version, then the payload.
    pub open spec fn body(self) -> Seq<u8> {
        u64_be_bytes(self.id) + seq![self.kind] + u64_be_bytes(self.ver) + self.payload
    }

    /// Whether the frame can be put on the wire: the body's length fits the
    /// 32-bit length field, and the whole image fits one allocation (which
    /// the first implies where `usize` has 64 bits).
    pub open spec fn fits(self) -> bool {
        &&& FIXED_BODY_LEN + self.payload.len() <= u32::MAX
        &&& HEADER_LEN + FIXED_BODY_LEN + self.payload.len() <= isize::MAX
    }

    /// What the length field holds: the body's length, cut to 32 bits.
    pub open spec fn len_field(self) -> u32 {
        ((FIXED_BODY_LEN + self.payload.len()) % 0x1_0000_0000) as u32
    }

    /// The frame on the wire: magic, length field, body.
    pub open spec fn wire(self) -> Seq<u8> {
        magic() + u32_be_bytes(self.len_field()) + self.body()
    }
}

impl Frame {
    /// Tests whether the frame can be put on the wire.
    pub fn fits(&self) -> (ok: bool)
        ensures
            ok == self@.fits(),
    {
        let len: usize = self.payload.len();
        len <= u32::MAX as usize - FIXED_BODY_LEN && len <= isize::MAX as usize - (HEADER_LEN
            + FIXED_BODY_LEN)
    }
}

/// The frame that a body of at least `FIXED_BODY_LEN` bytes holds.
pub open spec fn body_frame(body: Seq<u8>) -> FrameView
    recommends
        body.len() >= FIXED_BODY_LEN,
{
    FrameView {
        id: be_u64(body.subrange(0, 8)) as u64,
        kind: body[8],
        ver: be_u64(body.subrange(9, 17)) as u64,
        payload: body.subrange(17, body.len() as int),
    }
}

/// Why bytes do not decode to a frame.
#[derive(Debug, Clone, Copy, PartialEq, Eq)]
pub enum DecodeError {
    /// Fewer bytes than a header has.
    Io,
    /// The first four bytes are not the magic.
    InvalidMagic,
    /// Fewer bytes follow the header than it declares.
    Truncated,
    /// The declared body is too short to hold id, kind and version.
    ShortBody,
}

/// What a buffer that starts with a header decodes to. Bytes after the
/// declared body are ignored.
pub open spec fn decode_spec(wire: Seq<u8>) -> Result<FrameView, DecodeError> {
    if wire.len() < 4 {
        Err(DecodeError::Io)
    } else if !has_magic(wire) {
        Err(DecodeError::InvalidMagic)
    } else if wire.len() < 8 {
        Err(DecodeError::Io)
    } else {
        let len = be_u32(wire.subrange(4, 8));
        if wire.len() - 8 < len {
            Err(DecodeError::Truncated)
        } else if len < FIXED_BODY_LEN {
            Err(DecodeError::ShortBody)
        } else {
            Ok(body_frame(wire.subrange(8, 8 + len as int)))
        }
    }
}

/// A decoding result as a mathematical value.
pub open spec fn decoded_view(r: Result<Frame, DecodeError>) -> Result<FrameView, DecodeError> {
    match r {
        Ok(frame) => Ok(frame@),
        Err(e) => Err(e),
    }
}

} // verus!

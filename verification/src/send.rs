//! The sender: from a frame to the bytes that go onto the stream.

use crate::codec::encode;
use crate::frame::{Frame, FIXED_BODY_LEN};
use crate::wire::HEADER_LEN;
use vstd::prelude::*;

verus! {

/// Why a frame cannot be sent.
#[derive(Debug, Clone, Copy, PartialEq, Eq)]
pub enum SendError {
    /// The body's length does not fit the 32-bit length field.
    PayloadTooLarge,
}

impl SendError {
    /// A short text for the failure.
    pub fn description(&self) -> (text: &'static str)
        ensures
            text@ == "nwd1 payload too large"@,
    {
        "nwd1 payload too large"
    }
}

/// The bytes to write for a frame, all in one buffer, so that the stream
/// gets a whole frame or none of it. A frame that does not fit the length
/// field is refused, and nothing is to be written for it.
pub fn frame_bytes(frame: &Frame) -> (r: Result<Vec<u8>, SendError>)
    ensures
        frame@.fits() ==> (r matches Ok(bytes) && bytes@ == frame@.wire() && bytes@.len()
            == HEADER_LEN + FIXED_BODY_LEN + frame.payload@.len()),
        !frame@.fits() ==> r == Err::<Vec<u8>, SendError>(SendError::PayloadTooLarge),
{
    if frame.fits() {
        Ok(encode(frame))
    } else {
        Err(SendError::PayloadTooLarge)
    }
}

} // verus!

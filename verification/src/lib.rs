//! Frame boundaries on an ordered byte stream.
//!
//! A frame travels as four magic bytes, a big-endian 32-bit body length and
//! the body. The crate holds the rules for taking one such frame off a
//! stream and for putting one onto it; it performs no I/O of its own, so any
//! transport that can read exactly `n` bytes and write a buffer can carry it.

pub mod codec;
pub mod endian;
pub mod fill;
pub mod frame;
pub mod recv;
pub mod send;
pub mod stream;
pub mod wire;

pub use crate::frame::{DecodeError, Frame};
pub use crate::recv::{ReadEvent, Receiver, RecvError, Step, TransportFailure};
pub use crate::send::SendError;
pub use crate::stream::{recv_frame, send_frame, ByteReader, NoFailure};
pub use crate::wire::{DEFAULT_FRAME_LEN_SOFT, HEADER_LEN, MAGIC, MAX_FRAME_LEN_HARD};

//! Frames over byte streams held in memory.

use crate::codec::{lemma_decode_encode, lemma_wire_len};
use crate::endian::{be_u32, lemma_be_u32_bound, lemma_u32_round_trip, u32_be_bytes};
use crate::fill::read_spec;
use crate::frame::{body_frame, decode_spec, DecodeError, Frame, FrameView, FIXED_BODY_LEN};
use crate::recv::{
    result_state, step_spec, wanted_spec, ReadEvent, Receiver, RecvError, RecvState, Step,
    TransportFailure,
};
use crate::send::{frame_bytes, SendError};
use crate::wire::{declared_len, has_magic, magic, within_caps, HEADER_LEN, MAX_FRAME_LEN_HARD};
use vstd::prelude::*;
use vstd::slice::{slice_subrange, slice_to_vec};

verus! {

/// Stands where a transport's cause of failure goes. A stream in memory
/// has no failure of its own, so no result ever holds one.
#[derive(Debug, Clone, Copy, PartialEq, Eq)]
pub struct NoFailure;

/// A stream to read from: bytes that are all there, and then the close.
#[derive(Debug)]
pub struct ByteReader {
    data: Vec<u8>,
    pos: usize,
}

impl View for ByteReader {
    type V = Seq<u8>;

    /// The bytes not read yet.
    closed spec fn view(&self) -> Seq<u8> {
        self.data@.subrange(self.pos as int, self.data@.len() as int)
    }
}

impl ByteReader {
    #[verifier::type_invariant]
    spec fn inv(self) -> bool {
        self.pos <= self.data@.len()
    }

    /// A stream that holds `data` and then closes.
    pub fn new(data: Vec<u8>) -> (reader: Self)
        ensures
            reader@ == data@,
    {
        let reader = ByteReader { data, pos: 0 };
        assert(reader@ =~= data@);
        reader
    }

    /// How many bytes are left to read.
    pub fn remaining(&self) -> (n: usize)
        ensures
            n == self@.len(),
    {
        proof {
            use_type_invariant(self);
        }
        self.data.len() - self.pos
    }

    /// Reads exactly `n` bytes, or reports the close with the count of bytes
    /// that were left.
    pub fn read_exact(&mut self, n: usize) -> (event: ReadEvent<NoFailure>)
        ensures
            (event@, final(self)@) == read_spec::<NoFailure>(old(self)@, n as nat),
    {
        proof {
            use_type_invariant(&*self);
        }
        let left: usize = self.data.len() - self.pos;
        if n <= left {
            let bytes: Vec<u8> = slice_to_vec(
                slice_subrange(self.data.as_slice(), self.pos, self.pos + n),
            );
            self.pos = self.pos + n;
            assert(bytes@ =~= old(self)@.take(n as int));
            assert(self@ =~= old(self)@.skip(n as int));
            ReadEvent::Filled(bytes)
        } else {
            self.pos = self.data.len();
            assert(self@ =~= Seq::<u8>::empty());
            ReadEvent::Closed { got: left }
        }
    }
}

/// What a receiver in `state` comes to when its reads are served from a
/// stream that holds `stream` and then closes, and what is left of the
/// stream: each read that is wanted is made and its event taken in, until
/// the receiver has its result.
pub open spec fn drive<E>(state: RecvState<E>, stream: Seq<u8>, soft_cap: usize) -> (
    RecvState<E>,
    Seq<u8>,
)
    decreases state.reads_left(),
{
    match wanted_spec(state) {
        None => (state, stream),
        Some(n) => {
            let (event, rest) = read_spec::<E>(stream, n);
            drive(step_spec(state, event, soft_cap), rest, soft_cap)
        },
    }
}

/// What receiving one frame comes to on a stream that holds `stream` and
/// then closes, and what is left of the stream.
///
/// Nothing there is a clean close. A header cut short is a failure of the
/// transport. A full header is judged by its magic, then by its length
/// against both caps, and on either failure nothing more is read. A body
/// cut short is a failure of the transport. A full body that cannot hold
/// id, kind and version is a decode failure; any other is the frame.
pub open spec fn recv_spec<E>(stream: Seq<u8>, soft_cap: usize) -> (RecvState<E>, Seq<u8>) {
    let header = stream.take(HEADER_LEN as int);
    let after = stream.skip(HEADER_LEN as int);
    let len = declared_len(header);
    if stream.len() == 0 {
        (RecvState::Closed, stream)
    } else if stream.len() < HEADER_LEN {
        (RecvState::Failed(RecvError::Transport(TransportFailure::UnexpectedEof)), Seq::empty())
    } else if !has_magic(header) {
        (RecvState::Failed(RecvError::BadMagic), after)
    } else if !within_caps(len, soft_cap) {
        (RecvState::Failed(RecvError::FrameTooLarge), after)
    } else if after.len() < len {
        (RecvState::Failed(RecvError::Transport(TransportFailure::UnexpectedEof)), Seq::empty())
    } else if len < FIXED_BODY_LEN {
        (RecvState::Failed(RecvError::DecodeFailure), after.skip(len as int))
    } else {
        (RecvState::Done(body_frame(after.take(len as int))), after.skip(len as int))
    }
}

/// Serving a receiver's reads from a stream, step by step, comes to what
/// `recv_spec` says of the stream as a whole.
pub proof fn lemma_drive_is_recv<E>(stream: Seq<u8>, soft_cap: usize)
    ensures
        drive(RecvState::<E>::Start, stream, soft_cap) == recv_spec::<E>(stream, soft_cap),
{
    reveal_with_fuel(drive, 3);
    let start = RecvState::<E>::Start;
    let (event, after) = read_spec::<E>(stream, HEADER_LEN as nat);
    let next = step_spec(start, event, soft_cap);
    assert(drive(start, stream, soft_cap) == drive(next, after, soft_cap));
    if stream.len() >= HEADER_LEN {
        let header = stream.take(HEADER_LEN as int);
        let len = declared_len(header);
        lemma_be_u32_bound(header.subrange(4, 8));
        if has_magic(header) && within_caps(len, soft_cap) {
            let (body_event, rest) = read_spec::<E>(after, len);
            let last = step_spec(next, body_event, soft_cap);
            assert(drive(next, after, soft_cap) == (last, rest));
            if after.len() >= len {
                let wire = header + after.take(len as int);
                assert(wire.subrange(0, 4) =~= header.subrange(0, 4));
                assert(wire.subrange(4, 8) =~= header.subrange(4, 8));
                assert(wire.subrange(8, 8 + len as int) =~= after.take(len as int));
            }
        }
    }
}

/// Receives one frame from a stream in memory.
///
/// `Ok(Some(frame))` is a frame, `Ok(None)` the clean close of a stream with
/// nothing left in it. After any failure the stream is out of step with its
/// frames and must not be read from again.
pub fn recv_frame(reader: &mut ByteReader, soft_cap: usize) -> (r: Result<
    Option<Frame>,
    RecvError<NoFailure>,
>)
    ensures
        (result_state(r), final(reader)@) == recv_spec::<NoFailure>(old(reader)@, soft_cap),
{
    let mut rx: Receiver<NoFailure> = Receiver::new(soft_cap);
    loop
        invariant
            rx.cap() == soft_cap,
            drive(rx@, reader@, soft_cap) == drive(
                RecvState::<NoFailure>::Start,
                old(reader)@,
                soft_cap,
            ),
        decreases rx@.reads_left(),
    {
        let n: usize = rx.wanted();
        let event: ReadEvent<NoFailure> = reader.read_exact(n);
        match rx.step(event) {
            Step::More(next) => {
                rx = next;
            },
            Step::Finished(result) => {
                proof {
                    reveal_with_fuel(drive, 2);
                    lemma_drive_is_recv::<NoFailure>(old(reader)@, soft_cap);
                }
                return result;
            },
        }
    }
}

/// Sends one frame on a stream in memory: its wire image goes behind what
/// the stream holds, whole. A frame that does not fit the length field is
/// refused and the stream stays as it was.
pub fn send_frame(writer: &mut Vec<u8>, frame: &Frame) -> (r: Result<(), SendError>)
    ensures
        frame@.fits() ==> r is Ok && final(writer)@ == old(writer)@ + frame@.wire(),
        frame@.fits() ==> final(writer)@.len() == old(writer)@.len() + HEADER_LEN + FIXED_BODY_LEN
            + frame.payload@.len(),
        !frame@.fits() ==> r == Err::<(), SendError>(SendError::PayloadTooLarge) && final(writer)@
            == old(writer)@,
{
    match frame_bytes(frame) {
        Ok(bytes) => {
            writer.extend_from_slice(bytes.as_slice());
            assert(writer@ =~= old(writer)@ + frame@.wire());
            Ok(())
        },
        Err(e) => Err(e),
    }
}

/// A stream that was closed before any byte was written gives a clean
/// close, whatever the soft cap.
pub proof fn lemma_clean_close<E>(soft_cap: usize)
    ensures
        recv_spec::<E>(Seq::empty(), soft_cap).0 == RecvState::<E>::Closed,
{
}

/// A stream that delivers one to seven bytes and then closes gives a
/// failure of the transport, and so never a clean close.
pub proof fn lemma_truncated_header<E>(stream: Seq<u8>, soft_cap: usize)
    requires
        1 <= stream.len() < HEADER_LEN,
    ensures
        recv_spec::<E>(stream, soft_cap).0 == RecvState::<E>::Failed(
            RecvError::Transport(TransportFailure::UnexpectedEof),
        ),
        recv_spec::<E>(stream, soft_cap).0 != RecvState::<E>::Closed,
{
}

/// A header whose first four bytes differ from the magic in any way gives
/// a bad magic, whatever length it declares, and nothing behind the header
/// is read.
pub proof fn lemma_magic_rejection<E>(stream: Seq<u8>, soft_cap: usize)
    requires
        stream.len() >= HEADER_LEN,
        stream.take(4) != magic(),
    ensures
        recv_spec::<E>(stream, soft_cap) == (
            RecvState::<E>::Failed(RecvError::BadMagic),
            stream.skip(HEADER_LEN as int),
        ),
{
    assert(stream.take(HEADER_LEN as int).subrange(0, 4) =~= stream.take(4));
}

/// Behind a header with the magic, a declared length over the soft cap
/// gives a frame too large, and so does one over the hard ceiling, however
/// large the soft cap. Nothing behind the header is read.
pub proof fn lemma_cap_enforcement<E>(stream: Seq<u8>, soft_cap: usize)
    requires
        stream.len() >= HEADER_LEN,
        stream.take(4) == magic(),
        be_u32(stream.subrange(4, 8)) > soft_cap || be_u32(stream.subrange(4, 8))
            > MAX_FRAME_LEN_HARD,
    ensures
        recv_spec::<E>(stream, soft_cap) == (
            RecvState::<E>::Failed(RecvError::FrameTooLarge),
            stream.skip(HEADER_LEN as int),
        ),
{
    assert(stream.take(HEADER_LEN as int).subrange(0, 4) =~= stream.take(4));
    assert(stream.take(HEADER_LEN as int).subrange(4, 8) =~= stream.subrange(4, 8));
}

/// What was sent is what is received: a stream that starts with the wire
/// image of a frame gives that frame, field for field and byte for byte,
/// where the body is within both caps, and what follows the image is left
/// on the stream.
pub proof fn lemma_round_trip<E>(frame: FrameView, rest: Seq<u8>, soft_cap: usize)
    requires
        FIXED_BODY_LEN + frame.payload.len() <= soft_cap,
        FIXED_BODY_LEN + frame.payload.len() <= MAX_FRAME_LEN_HARD,
    ensures
        recv_spec::<E>(frame.wire() + rest, soft_cap) == (RecvState::<E>::Done(frame), rest),
{
    let stream = frame.wire() + rest;
    let header = stream.take(HEADER_LEN as int);
    let after = stream.skip(HEADER_LEN as int);
    let len = (FIXED_BODY_LEN + frame.payload.len()) as nat;
    lemma_wire_len(frame);
    lemma_u32_round_trip(frame.len_field());
    lemma_decode_encode(frame, rest);
    assert(header.subrange(0, 4) =~= magic());
    assert(header.subrange(4, 8) =~= u32_be_bytes(frame.len_field()));
    assert(stream.subrange(0, 4) =~= header.subrange(0, 4));
    assert(stream.subrange(4, 8) =~= header.subrange(4, 8));
    assert(after.take(len as int) =~= stream.subrange(8, 8 + len as int));
    assert(after.skip(len as int) =~= rest);
}

/// A frame with an empty payload declares a body of exactly the fixed
/// fields and decodes to itself; it is received as it was sent by every
/// receiver whose soft cap lets the fixed fields through.
pub proof fn lemma_empty_payload<E>(frame: FrameView, rest: Seq<u8>, soft_cap: usize)
    requires
        frame.payload.len() == 0,
    ensures
        declared_len((frame.wire() + rest).take(HEADER_LEN as int)) == FIXED_BODY_LEN,
        decode_spec(frame.wire() + rest) == Ok::<FrameView, DecodeError>(frame),
        FIXED_BODY_LEN <= soft_cap ==> recv_spec::<E>(frame.wire() + rest, soft_cap) == (
            RecvState::<E>::Done(frame),
            rest,
        ),
{
    let header = (frame.wire() + rest).take(HEADER_LEN as int);
    lemma_wire_len(frame);
    lemma_u32_round_trip(frame.len_field());
    assert(header.subrange(4, 8) =~= u32_be_bytes(frame.len_field()));
    lemma_decode_encode(frame, rest);
    if FIXED_BODY_LEN <= soft_cap {
        lemma_round_trip::<E>(frame, rest, soft_cap);
    }
}

} // verus!

//! The receiver: a machine that is told what each read came to and says
//! what to read next.

use crate::codec::decode;
use crate::frame::{decode_spec, Frame, FrameView};
use crate::wire::{
    check_caps, declared_len, effective_cap, has_magic, magic_matches, read_declared_len,
    within_caps, HEADER_LEN, MAX_FRAME_LEN_HARD,
};
use vstd::prelude::*;

verus! {

/// What a read of exactly `n` bytes came to.
#[derive(Debug, Clone, PartialEq, Eq)]
pub enum ReadEvent<E> {
    /// All `n` bytes arrived.
    Filled(Vec<u8>),
    /// The stream closed in good order after `got` bytes, fewer than `n`.
    Closed { got: usize },
    /// The transport failed, for the cause given.
    Failed(E),
}

/// An event as a mathematical value.
pub enum Event<E> {
    Filled(Seq<u8>),
    Closed { got: nat },
    Failed(E),
}

impl<E> View for ReadEvent<E> {
    type V = Event<E>;

    open spec fn view(&self) -> Event<E> {
        match *self {
            ReadEvent::Filled(bytes) => Event::Filled(bytes@),
            ReadEvent::Closed { got } => Event::Closed { got: got as nat },
            ReadEvent::Failed(cause) => Event::Failed(cause),
        }
    }
}

/// How a transport let the receiver down.
#[derive(Debug, Clone, Copy, PartialEq, Eq)]
pub enum TransportFailure<E> {
    /// The stream ended inside a frame, or a read fell short of its count.
    UnexpectedEof,
    /// The transport's own failure, handed on as it came.
    Io(E),
}

/// Why no frame was received.
#[derive(Debug, Clone, Copy, PartialEq, Eq)]
pub enum RecvError<E> {
    /// The transport failed or ended inside a frame.
    Transport(TransportFailure<E>),
    /// The header does not open with the magic.
    BadMagic,
    /// The declared length is over the soft cap or the hard ceiling.
    FrameTooLarge,
    /// Header and length were in order, the body did not decode.
    DecodeFailure,
}

impl<E> RecvError<E> {
    /// Whether the peer broke the protocol: the bytes came, and were wrong.
    pub open spec fn protocol_violation(self) -> bool {
        self is BadMagic || self is FrameTooLarge || self is DecodeFailure
    }

    /// Tests whether the peer broke the protocol, as against a transport
    /// that failed.
    pub fn is_protocol_violation(&self) -> (b: bool)
        ensures
            b == self.protocol_violation(),
    {
        match self {
            RecvError::Transport(_) => false,
            _ => true,
        }
    }

    /// A short text for the failure.
    pub fn description(&self) -> (text: &'static str)
        ensures
            text@ == match *self {
                RecvError::Transport(TransportFailure::UnexpectedEof) => "nwd1 stream ended inside a frame"@,
                RecvError::Transport(TransportFailure::Io(_)) => "nwd1 transport failure"@,
                RecvError::BadMagic => "nwd1 bad magic"@,
                RecvError::FrameTooLarge => "nwd1 frame too large"@,
                RecvError::DecodeFailure => "nwd1 decode error"@,
            },
    {
        match self {
            RecvError::Transport(TransportFailure::UnexpectedEof) => "nwd1 stream ended inside a frame",
            RecvError::Transport(TransportFailure::Io(_)) => "nwd1 transport failure",
            RecvError::BadMagic => "nwd1 bad magic",
            RecvError::FrameTooLarge => "nwd1 frame too large",
            RecvError::DecodeFailure => "nwd1 decode error",
        }
    }
}

/// Where a receiver stands.
pub enum RecvState<E> {
    /// Nothing read yet; the header is wanted.
    Start,
    /// The header passed magic and caps; the body is wanted.
    CapOk { header: Seq<u8> },
    /// The stream ended before the first header byte: no frame, no error.
    Closed,
    /// A frame was received.
    Done(FrameView),
    /// The receive failed; the stream is of no further use.
    Failed(RecvError<E>),
}

impl<E> RecvState<E> {
    /// Whether the receiver has its result.
    pub open spec fn terminal(self) -> bool {
        self is Closed || self is Done || self is Failed
    }

    /// What holds of every state that a receiver with this soft cap reaches:
    /// a body is only awaited behind a header with the magic and a length
    /// within both caps.
    pub open spec fn wf(self, soft_cap: usize) -> bool {
        self matches RecvState::CapOk { header } ==> {
            &&& header.len() == HEADER_LEN
            &&& has_magic(header)
            &&& within_caps(declared_len(header), soft_cap)
        }
    }

    /// The reads still ahead, at most.
    pub open spec fn reads_left(self) -> nat {
        match self {
            RecvState::Start => 2,
            RecvState::CapOk { .. } => 1,
            _ => 0,
        }
    }
}

/// How many bytes the next read must deliver; `None` once the receiver has
/// its result.
pub open spec fn wanted_spec<E>(state: RecvState<E>) -> Option<nat> {
    match state {
        RecvState::Start => Some(HEADER_LEN as nat),
        RecvState::CapOk { header } => Some(declared_len(header)),
        _ => None,
    }
}

/// Where a complete header leads.
pub open spec fn header_verdict<E>(header: Seq<u8>, soft_cap: usize) -> RecvState<E> {
    if !has_magic(header) {
        RecvState::Failed(RecvError::BadMagic)
    } else if !within_caps(declared_len(header), soft_cap) {
        RecvState::Failed(RecvError::FrameTooLarge)
    } else {
        RecvState::CapOk { header }
    }
}

/// Where header and complete body lead.
pub open spec fn body_verdict<E>(wire: Seq<u8>) -> RecvState<E> {
    match decode_spec(wire) {
        Ok(frame) => RecvState::Done(frame),
        Err(_) => RecvState::Failed(RecvError::DecodeFailure),
    }
}

/// The state after an event. An event whose byte count is not the one
/// asked for counts as a short read. A receiver that has its result keeps it.
pub open spec fn step_spec<E>(state: RecvState<E>, event: Event<E>, soft_cap: usize) -> RecvState<
    E,
> {
    match state {
        RecvState::Start => match event {
            Event::Failed(cause) => RecvState::Failed(
                RecvError::Transport(TransportFailure::Io(cause)),
            ),
            Event::Closed { got } => if got == 0 {
                RecvState::Closed
            } else {
                RecvState::Failed(RecvError::Transport(TransportFailure::UnexpectedEof))
            },
            Event::Filled(bytes) => if bytes.len() == HEADER_LEN {
                header_verdict(bytes, soft_cap)
            } else {
                RecvState::Failed(RecvError::Transport(TransportFailure::UnexpectedEof))
            },
        },
        RecvState::CapOk { header } => match event {
            Event::Failed(cause) => RecvState::Failed(
                RecvError::Transport(TransportFailure::Io(cause)),
            ),
            Event::Closed { .. } => RecvState::Failed(
                RecvError::Transport(TransportFailure::UnexpectedEof),
            ),
            Event::Filled(bytes) => if bytes.len() == declared_len(header) {
                body_verdict(header + bytes)
            } else {
                RecvState::Failed(RecvError::Transport(TransportFailure::UnexpectedEof))
            },
        },
        _ => state,
    }
}

/// No step leads out of the states that `wf` describes, and every step of a
/// receiver without its result uses up one of its reads: a receive is over
/// after two reads at most.
pub proof fn lemma_step_keeps_wf<E>(state: RecvState<E>, event: Event<E>, soft_cap: usize)
    requires
        state.wf(soft_cap),
    ensures
        step_spec(state, event, soft_cap).wf(soft_cap),
        !state.terminal() ==> step_spec(state, event, soft_cap).reads_left() < state.reads_left(),
        state.terminal() ==> step_spec(state, event, soft_cap) == state,
{
}

/// What a finished receive hands to its caller.
pub open spec fn result_state<E>(r: Result<Option<Frame>, RecvError<E>>) -> RecvState<E> {
    match r {
        Ok(Some(frame)) => RecvState::Done(frame@),
        Ok(None) => RecvState::Closed,
        Err(e) => RecvState::Failed(e),
    }
}

#[derive(Debug)]
enum Phase {
    Start,
    CapOk { header: [u8; 8] },
}

/// The receiver of one frame, between two reads.
#[derive(Debug)]
pub struct Receiver<E> {
    soft_cap: usize,
    phase: Phase,
    cause: core::marker::PhantomData<E>,
}

/// What a step leads to.
#[derive(Debug)]
pub enum Step<E> {
    /// Another read is wanted: as many bytes as the receiver's `wanted` says.
    More(Receiver<E>),
    /// The receive is over: a frame, a clean close (`None`), or the failure.
    Finished(Result<Option<Frame>, RecvError<E>>),
}

impl<E> View for Receiver<E> {
    type V = RecvState<E>;

    closed spec fn view(&self) -> RecvState<E> {
        match self.phase {
            Phase::Start => RecvState::Start,
            Phase::CapOk { header } => RecvState::CapOk { header: header@ },
        }
    }
}

impl<E> View for Step<E> {
    type V = RecvState<E>;

    open spec fn view(&self) -> RecvState<E> {
        match *self {
            Step::More(rx) => rx@,
            Step::Finished(result) => result_state(result),
        }
    }
}

impl<E> Receiver<E> {
    #[verifier::type_invariant]
    spec fn inv(self) -> bool {
        self@.wf(self.soft_cap)
    }

    /// The soft cap that this receiver was made with.
    pub closed spec fn cap(&self) -> usize {
        self.soft_cap
    }

    /// A receiver at the start, with the caller's soft cap.
    pub fn new(soft_cap: usize) -> (rx: Self)
        ensures
            rx@ == RecvState::<E>::Start,
            rx.cap() == soft_cap,
    {
        Receiver { soft_cap, phase: Phase::Start, cause: core::marker::PhantomData }
    }

    /// The soft cap that this receiver was made with.
    pub fn soft_cap(&self) -> (cap: usize)
        ensures
            cap == self.cap(),
    {
        self.soft_cap
    }

    /// How many bytes the next read must deliver: the header, or the body
    /// that the header declared. It is never more than the hard ceiling.
    pub fn wanted(&self) -> (n: usize)
        ensures
            wanted_spec(self@) == Some(n as nat),
            !self@.terminal(),
            self@.wf(self.cap()),
            n == HEADER_LEN || n <= effective_cap(self.cap()),
            n <= MAX_FRAME_LEN_HARD,
    {
        proof {
            use_type_invariant(self);
        }
        match &self.phase {
            Phase::Start => HEADER_LEN,
            Phase::CapOk { header } => read_declared_len(header) as usize,
        }
    }

    /// Takes in what the read of `wanted` bytes came to, and says how the
    /// receive goes on.
    pub fn step(self, event: ReadEvent<E>) -> (out: Step<E>)
        ensures
            out@ == step_spec(self@, event@, self.cap()),
            out is Finished <==> out@.terminal(),
            out matches Step::More(next) ==> next.cap() == self.cap(),
            out@.wf(self.cap()),
            out@.reads_left() < self@.reads_left(),
    {
        proof {
            use_type_invariant(&self);
        }
        let soft_cap: usize = self.soft_cap;
        match self.phase {
            Phase::Start => match event {
                ReadEvent::Failed(cause) => Step::Finished(
                    Err(RecvError::Transport(TransportFailure::Io(cause))),
                ),
                ReadEvent::Closed { got } => if got == 0 {
                    Step::Finished(Ok(None))
                } else {
                    Step::Finished(Err(RecvError::Transport(TransportFailure::UnexpectedEof)))
                },
                ReadEvent::Filled(bytes) => if bytes.len() == HEADER_LEN {
                    let header: [u8; 8] = [
                        bytes[0],
                        bytes[1],
                        bytes[2],
                        bytes[3],
                        bytes[4],
                        bytes[5],
                        bytes[6],
                        bytes[7],
                    ];
                    assert(header@ =~= bytes@);
                    match check_header(&header, soft_cap) {
                        Ok(()) => Step::More(
                            Receiver {
                                soft_cap,
                                phase: Phase::CapOk { header },
                                cause: core::marker::PhantomData,
                            },
                        ),
                        Err(e) => Step::Finished(Err(e)),
                    }
                } else {
                    Step::Finished(Err(RecvError::Transport(TransportFailure::UnexpectedEof)))
                },
            },
            Phase::CapOk { header } => match event {
                ReadEvent::Failed(cause) => Step::Finished(
                    Err(RecvError::Transport(TransportFailure::Io(cause))),
                ),
                ReadEvent::Closed { .. } => Step::Finished(
                    Err(RecvError::Transport(TransportFailure::UnexpectedEof)),
                ),
                ReadEvent::Filled(bytes) => if bytes.len() == read_declared_len(&header) as usize {
                    Step::Finished(decode_body(&header, &bytes))
                } else {
                    Step::Finished(Err(RecvError::Transport(TransportFailure::UnexpectedEof)))
                },
            },
        }
    }
}

/// Checks a complete header: first the magic, then the declared length
/// against both caps.
pub fn check_header<E>(header: &[u8; 8], soft_cap: usize) -> (r: Result<(), RecvError<E>>)
    ensures
        match r {
            Ok(()) => header_verdict::<E>(header@, soft_cap) == (RecvState::<E>::CapOk {
                header: header@,
            }),
            Err(e) => header_verdict::<E>(header@, soft_cap) == RecvState::Failed(e),
        },
{
    if !magic_matches(header) {
        return Err(RecvError::BadMagic);
    }
    let len: u32 = read_declared_len(header);
    if !check_caps(len, soft_cap) {
        return Err(RecvError::FrameTooLarge);
    }
    Ok(())
}

/// Joins header and complete body into one buffer and has it decoded.
pub fn decode_body<E>(header: &[u8; 8], body: &Vec<u8>) -> (r: Result<Option<Frame>, RecvError<E>>)
    ensures
        result_state(r) == body_verdict::<E>(header@ + body@),
{
    let mut wire: Vec<u8> = Vec::new();
    wire.extend_from_slice(header.as_slice());
    wire.extend_from_slice(body.as_slice());
    assert(wire@ =~= header@ + body@);
    match decode(wire.as_slice()) {
        Ok(frame) => Ok(Some(frame)),
        Err(_) => Err(RecvError::DecodeFailure),
    }
}

} // verus!

//! Reading exactly `n` bytes from a transport that hands out what it has.
//!
//! Most transports answer a read with some of the bytes asked for. The
//! receiver wants all of them or the count at which the stream closed: that
//! count tells a close between two frames from a close inside one.

use crate::recv::{Event, ReadEvent};
use vstd::prelude::*;

verus! {

/// A read of exactly `want` bytes that is under way: the bytes got so far,
/// fewer than `want`.
#[derive(Debug)]
pub struct ExactRead {
    want: usize,
    buf: Vec<u8>,
}

/// How a read of exactly `n` bytes stands.
#[derive(Debug)]
pub enum Fill<E> {
    /// Bytes are missing: read at most `missing` more and hand them over.
    More(ExactRead),
    /// The read is over, with this event.
    Done(ReadEvent<E>),
}

/// A read under way, or over, as a mathematical value.
pub enum FillState<E> {
    More { want: nat, got: Seq<u8> },
    Done(Event<E>),
}

impl ExactRead {
    #[verifier::type_invariant]
    spec fn inv(self) -> bool {
        self.buf@.len() < self.want
    }

    /// The count of bytes that the read is for.
    pub closed spec fn want(&self) -> nat {
        self.want as nat
    }

    /// The bytes got so far.
    pub closed spec fn got(&self) -> Seq<u8> {
        self.buf@
    }

    /// How many bytes are missing, and so the most that the next read of the
    /// transport may be for. At least one is.
    pub fn missing(&self) -> (n: usize)
        ensures
            n == self.want() - self.got().len(),
            n >= 1,
    {
        proof {
            use_type_invariant(self);
        }
        self.want - self.buf.len()
    }

    /// Begins a read of exactly `n` bytes.
    pub fn begin<E>(n: usize) -> (fill: Fill<E>)
        ensures
            fill@ == begin_spec::<E>(n as nat),
    {
        if n == 0 {
            Fill::Done(ReadEvent::Filled(Vec::new()))
        } else {
            Fill::More(ExactRead { want: n, buf: Vec::new() })
        }
    }

    /// Takes in the bytes that one read of the transport handed out; none
    /// means that the stream has closed.
    pub fn accept<E>(self, chunk: &[u8]) -> (fill: Fill<E>)
        ensures
            fill@ == accept_spec::<E>(self.want(), self.got(), chunk@),
    {
        proof {
            use_type_invariant(&self);
        }
        let want: usize = self.want;
        let mut buf: Vec<u8> = self.buf;
        let got: usize = buf.len();
        if chunk.len() == 0 {
            Fill::Done(ReadEvent::Closed { got })
        } else if chunk.len() > want - got {
            Fill::Done(ReadEvent::Closed { got: want })
        } else {
            buf.extend_from_slice(chunk);
            assert(buf@ =~= self.got() + chunk@);
            if buf.len() == want {
                Fill::Done(ReadEvent::Filled(buf))
            } else {
                Fill::More(ExactRead { want, buf })
            }
        }
    }
}

impl<E> View for Fill<E> {
    type V = FillState<E>;

    open spec fn view(&self) -> FillState<E> {
        match *self {
            Fill::More(read) => FillState::More { want: read.want(), got: read.got() },
            Fill::Done(event) => FillState::Done(event@),
        }
    }
}

/// How a read of exactly `n` bytes begins: one of no bytes is over at once.
pub open spec fn begin_spec<E>(n: nat) -> FillState<E> {
    if n == 0 {
        FillState::Done(Event::Filled(Seq::empty()))
    } else {
        FillState::More { want: n, got: Seq::empty() }
    }
}

/// How a read under way stands after the transport handed out `chunk`.
///
/// No bytes: the stream has closed, after the bytes got so far. The bytes
/// that were missing: the read is filled. Fewer: the read goes on. More than
/// were missing: the transport broke its word, and the read counts as cut
/// short, with a count that is not zero, so that no receiver takes it for
/// a close between two frames.
pub open spec fn accept_spec<E>(want: nat, got: Seq<u8>, chunk: Seq<u8>) -> FillState<E> {
    if chunk.len() == 0 {
        FillState::Done(Event::Closed { got: got.len() })
    } else if got.len() + chunk.len() > want {
        FillState::Done(Event::Closed { got: want })
    } else if got.len() + chunk.len() == want {
        FillState::Done(Event::Filled(got + chunk))
    } else {
        FillState::More { want, got: got + chunk }
    }
}

/// What a read of exactly `n` bytes comes to on a stream that holds `stream`
/// and then closes, and what is left of the stream. A read that falls short
/// uses up what was there.
pub open spec fn read_spec<E>(stream: Seq<u8>, n: nat) -> (Event<E>, Seq<u8>) {
    if n <= stream.len() {
        (Event::Filled(stream.take(n as int)), stream.skip(n as int))
    } else {
        (Event::Closed { got: stream.len() }, Seq::empty())
    }
}

/// The bytes that one read of at most `max` bytes hands out, on a transport
/// that holds `stream` and then closes and that gives up to `size` bytes at
/// a time, and at least one: none only when nothing is left.
pub open spec fn hand_out(stream: Seq<u8>, max: nat, size: nat) -> Seq<u8> {
    let willing: nat = if size == 0 {
        1
    } else {
        size
    };
    let within: nat = if willing < max {
        willing
    } else {
        max
    };
    if within < stream.len() {
        stream.take(within as int)
    } else {
        stream
    }
}

/// How a read stands, and what is left of the stream, after one read of the
/// transport for each of `sizes`, or fewer if the read is over before.
pub open spec fn fill_run<E>(state: FillState<E>, stream: Seq<u8>, sizes: Seq<nat>) -> (
    FillState<E>,
    Seq<u8>,
)
    decreases sizes.len(),
{
    match state {
        FillState::Done(_) => (state, stream),
        FillState::More { want, got } => if sizes.len() == 0 {
            (state, stream)
        } else {
            let chunk = hand_out(stream, (want - got.len()) as nat, sizes[0]);
            fill_run(
                accept_spec(want, got, chunk),
                stream.skip(chunk.len() as int),
                sizes.skip(1),
            )
        },
    }
}

/// A read under way comes to the same event however the transport cuts the
/// stream into reads, given reads enough: the bytes got so far and the
/// missing ones, or the close at the count of all bytes there were.
pub proof fn lemma_fill_run<E>(want: nat, got: Seq<u8>, stream: Seq<u8>, sizes: Seq<nat>)
    requires
        got.len() < want,
        sizes.len() > want - got.len(),
    ensures
        fill_run::<E>(FillState::More { want, got }, stream, sizes) == (if stream.len() >= want
            - got.len() {
            (
                FillState::<E>::Done(Event::Filled(got + stream.take(want - got.len()))),
                stream.skip(want - got.len()),
            )
        } else {
            (
                FillState::<E>::Done(Event::Closed { got: got.len() + stream.len() }),
                Seq::<u8>::empty(),
            )
        }),
    decreases sizes.len(),
{
    let missing: nat = (want - got.len()) as nat;
    let chunk = hand_out(stream, missing, sizes[0]);
    let k: int = chunk.len() as int;
    let rest = stream.skip(k);
    reveal_with_fuel(fill_run, 2);
    if k == 0 {
        assert(rest =~= Seq::<u8>::empty());
    } else if k == missing {
        assert(chunk =~= stream.take(missing as int));
    } else {
        lemma_fill_run::<E>(want, got + chunk, rest, sizes.skip(1));
        if stream.len() >= missing {
            assert(got + chunk + rest.take(missing - k) =~= got + stream.take(missing as int));
            assert(rest.skip(missing - k) =~= stream.skip(missing as int));
        }
    }
}

/// A read of exactly `n` bytes comes to what `read_spec` says however the
/// transport cuts the stream into reads, given reads enough.
pub proof fn lemma_fill_is_read<E>(n: nat, stream: Seq<u8>, sizes: Seq<nat>)
    requires
        sizes.len() > n,
    ensures
        fill_run(begin_spec::<E>(n), stream, sizes) == (
            FillState::Done(read_spec::<E>(stream, n).0),
            read_spec::<E>(stream, n).1,
        ),
{
    if n == 0 {
        assert(stream.take(0) =~= Seq::<u8>::empty());
        assert(stream.skip(0) =~= stream);
    } else {
        lemma_fill_run::<E>(n, Seq::empty(), stream, sizes);
        assert(Seq::<u8>::empty() + stream.take(n as int) =~= stream.take(n as int));
    }
}

} // verus!

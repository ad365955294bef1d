//! Relaying bytes between a local stream and a QUIC stream.
//!
//! The copying itself is done by the caller.  What is decided here is what
//! follows each read and write: how many bytes count as relayed, when the
//! relay is over, and which error it ends with.

use vstd::prelude::*;
use quinn::{RecvStream, SendStream};

verus! {

/// `quinn::SendStream`, declared so that it can be carried; nothing is
/// known of its inside.
#[verifier::external_type_specification]
#[verifier::external_body]
pub struct ExSendStream(quinn::SendStream);

/// `quinn::RecvStream`, declared so that it can be carried; nothing is
/// known of its inside.
#[verifier::external_type_specification]
#[verifier::external_body]
pub struct ExRecvStream(quinn::RecvStream);

/// The two halves of a bidirectional QUIC stream, kept together so that
/// they can be used as one stream.
pub struct QuinnCompat {
    send: SendStream,
    recv: RecvStream,
}

impl QuinnCompat {
    /// The sending half.
    pub closed spec fn send_half(&self) -> SendStream {
        self.send
    }

    /// The receiving half.
    pub closed spec fn recv_half(&self) -> RecvStream {
        self.recv
    }

    /// Puts the two halves of a stream together.
    pub fn new(send_stream: SendStream, recv_stream: RecvStream) -> (compat: QuinnCompat)
        ensures
            compat.send_half() == send_stream,
            compat.recv_half() == recv_stream,
    {
        QuinnCompat { send: send_stream, recv: recv_stream }
    }

    /// The sending half.
    pub fn send_stream(&self) -> (send: &SendStream)
        ensures
            *send == self.send_half(),
    {
        &self.send
    }

    /// The receiving half.
    pub fn recv_stream(&self) -> (recv: &RecvStream)
        ensures
            *recv == self.recv_half(),
    {
        &self.recv
    }

    /// The sending half, to write to.  The receiving half stays as it is.
    pub fn send_stream_mut(&mut self) -> (send: &mut SendStream)
        ensures
            *send == old(self).send_half(),
            final(self).send_half() == *final(send),
            final(self).recv_half() == old(self).recv_half(),
    {
        &mut self.send
    }

    /// The receiving half, to read from.  The sending half stays as it is.
    pub fn recv_stream_mut(&mut self) -> (recv: &mut RecvStream)
        ensures
            *recv == old(self).recv_half(),
            final(self).recv_half() == *final(recv),
            final(self).send_half() == old(self).send_half(),
    {
        &mut self.recv
    }

    /// Takes the stream apart again.
    pub fn into_inner(self) -> (halves: (SendStream, RecvStream))
        ensures
            halves.0 == self.send_half(),
            halves.1 == self.recv_half(),
    {
        (self.send, self.recv)
    }
}

/// The size of each of the two buffers of a relay, in bytes.
pub const BUFFER_SIZE: usize = 16 * 1024;

/// One of the two directions of a relay between streams `a` and `b`.
#[derive(Debug, Clone, Copy, PartialEq, Eq, Structural)]
pub enum Direction {
    AToB,
    BToA,
}

/// What the relay does next.
#[derive(Debug, PartialEq, Eq)]
pub enum CopyStep<E> {
    /// Write the bytes just read to the other side.
    Write { direction: Direction, len: usize },
    /// Go on reading from both sides.
    Continue,
    /// The relay is over: a side reached its end, or failed with `error`.
    Finished { error: Option<E> },
}

/// The bytes relayed so far in each direction.
#[derive(Debug, Clone, Copy, PartialEq, Eq, Structural)]
pub struct CopyState {
    pub a2b: usize,
    pub b2a: usize,
}

impl CopyState {
    /// Nothing relayed yet.
    pub fn new() -> (s: CopyState)
        ensures
            s == (CopyState { a2b: 0, b2a: 0 }),
    {
        CopyState { a2b: 0, b2a: 0 }
    }

    /// The state after `len` more bytes were read in `direction`.
    pub open spec fn counted(self, direction: Direction, len: usize) -> CopyState {
        match direction {
            Direction::AToB => CopyState { a2b: (self.a2b + len) as usize, b2a: self.b2a },
            Direction::BToA => CopyState { a2b: self.a2b, b2a: (self.b2a + len) as usize },
        }
    }

    /// Takes the result of a read in `direction` and says what follows.
    ///
    /// A read of no bytes is the end of that side and ends the relay
    /// without an error.  A read that failed ends it with that error.  The
    /// bytes of any other read are counted and are to be written to the
    /// other side.
    pub fn on_read<E>(&mut self, direction: Direction, result: Result<usize, E>) -> (step: CopyStep<E>)
        requires
            result is Ok ==> match direction {
                Direction::AToB => old(self).a2b + result->Ok_0 <= usize::MAX,
                Direction::BToA => old(self).b2a + result->Ok_0 <= usize::MAX,
            },
        ensures
            match result {
                Ok(len) => if len == 0 {
                    step == (CopyStep::<E>::Finished { error: None }) && *final(self) == *old(self)
                } else {
                    step == (CopyStep::<E>::Write { direction, len }) && *final(self) == old(
                        self,
                    ).counted(direction, len)
                },
                Err(e) => step == (CopyStep::Finished { error: Some(e) }) && *final(self) == *old(
                    self,
                ),
            },
    {
        match result {
            Ok(len) => {
                if len == 0 {
                    return CopyStep::Finished { error: None };
                }
                match direction {
                    Direction::AToB => {
                        self.a2b = self.a2b + len;
                    },
                    Direction::BToA => {
                        self.b2a = self.b2a + len;
                    },
                }
                CopyStep::Write { direction, len }
            },
            Err(e) => CopyStep::Finished { error: Some(e) },
        }
    }

    /// Takes the result of writing what was read and says what follows: a
    /// write that failed ends the relay with that error.
    pub fn on_write<E>(&self, result: Result<(), E>) -> (step: CopyStep<E>)
        ensures
            match result {
                Ok(_) => step == CopyStep::<E>::Continue,
                Err(e) => step == (CopyStep::Finished { error: Some(e) }),
            },
    {
        match result {
            Ok(()) => CopyStep::Continue,
            Err(e) => CopyStep::Finished { error: Some(e) },
        }
    }

    /// What the relay reports when it is over: the bytes relayed from `a`
    /// to `b`, those from `b` to `a`, and the error that ended it, if one
    /// did.
    pub fn finish<E>(self, error: Option<E>) -> (report: (usize, usize, Option<E>))
        ensures
            report == (self.a2b, self.b2a, error),
    {
        (self.a2b, self.b2a, error)
    }
}

} // verus!

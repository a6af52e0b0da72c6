//! What a connection's caller reports to the dispatcher, and what the
//! dispatcher asks of it in return.

use vstd::prelude::*;
use crate::error::PayloadError;
use crate::message::{RequestHead, ResponseHead};

verus! {

/// Outcome of a non-blocking read of the stream into the read buffer.
#[derive(Clone, Copy, Debug, PartialEq, Eq, Structural)]
pub enum ReadOutcome {
    /// So many bytes were appended to the read buffer.
    Ready(usize),
    /// No bytes are available now.
    Pending,
    /// The peer closed its half of the stream.
    Eof,
    /// The read failed.
    Failed,
}

/// Outcome of a flush of the write buffer to the stream.
#[derive(Clone, Copy, Debug, PartialEq, Eq, Structural)]
pub enum FlushOutcome {
    /// So many bytes left the write buffer.
    Ready(usize),
    /// The stream takes no bytes now.
    Pending,
    /// The write failed.
    Failed,
}

/// Outcome of the stream's shutdown handshake.
#[derive(Clone, Copy, Debug, PartialEq, Eq, Structural)]
pub enum ShutdownOutcome {
    /// The stream is closed.
    Ready,
    /// The handshake is not over.
    Pending,
    /// The handshake failed.
    Failed,
}

/// What the decoder made of the read buffer.
#[derive(Clone, Copy, Debug, PartialEq, Eq, Structural)]
pub enum Decoded {
    /// A complete request head.
    Head(RequestHead),
    /// So many bytes of the current request's body.
    Chunk(usize),
    /// The end of the current request's body.
    Eof,
    /// The buffer holds no complete item.
    NeedMore,
    /// The bytes are malformed.
    Invalid,
}

/// Verdict of the expect service.
#[derive(Clone, Copy, Debug, PartialEq, Eq, Structural)]
pub enum ExpectOutcome {
    /// The request may go on.
    Continue,
    /// The request is refused with this response.
    Reject(ResponseHead),
}

/// Result of the application service.
#[derive(Clone, Copy, Debug, PartialEq, Eq, Structural)]
pub enum ServiceOutcome {
    /// The application's response.
    Response(ResponseHead),
    /// The service failed; this is the response made from its error.
    Error(ResponseHead),
}

/// What the stream of a response body yielded.
#[derive(Debug)]
pub enum BodyOutcome {
    /// The next piece of the body.
    Chunk(Vec<u8>),
    /// The body is complete.
    Eof,
    /// The stream failed before the body was complete.
    Failed,
}

/// What the receiving side of a request body reports to its sender.
#[derive(Clone, Copy, Debug, PartialEq, Eq, Structural)]
pub enum PayloadStatus {
    /// The receiver takes more data.
    Read,
    /// The receiver is full; reading pauses until it drains.
    Pause,
    /// The receiver is gone; what is left of the body is thrown away.
    Dropped,
}

/// Something that happened on a connection.
#[derive(Debug)]
pub enum Event {
    /// The stream was read.
    Read(ReadOutcome),
    /// The decoder ran and took `consumed` bytes off the read buffer.
    Decoded { item: Decoded, consumed: usize },
    /// The expect service gave its verdict.
    Expect(ExpectOutcome),
    /// The application service finished.
    Service(ServiceOutcome),
    /// The response body stream yielded.
    Body(BodyOutcome),
    /// The receiver of the request body changed its status.
    Payload(PayloadStatus),
    /// The encoder wrote the message at the head of the queue as this many
    /// bytes onto the write buffer.
    Encoded(usize),
    /// The write buffer was flushed.
    Flush(FlushOutcome),
    /// The stream's shutdown handshake was attempted.
    Shutdown(ShutdownOutcome),
    /// Time has passed.
    Tick,
}

/// What the caller is to do after an event.
#[derive(Clone, Copy, Debug, PartialEq, Eq, Structural)]
pub enum Command {
    /// Nothing beyond going on.
    Idle,
    /// Hand the request to the expect service.
    CallExpect,
    /// Hand the request to the application service.
    CallService,
    /// Hand the stream and the request to the upgrade service.
    Upgrade,
    /// Push the decoded chunk into the request body's sender.
    FeedPayload,
    /// Close the request body's sender: the body is complete.
    FeedEof,
    /// Close the request body's sender with an error.
    FailPayload(PayloadError),
    /// Throw the decoded chunk away.
    Discard,
}

} // verus!

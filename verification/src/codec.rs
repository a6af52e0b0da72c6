//! The decoder of a connection: request heads and the bodies that follow
//! them, off the front of the read buffer.

use vstd::prelude::*;
use crate::chunked::{decode_spec, ChunkState, ChunkedDecoder, Decode};
use crate::message::{Framing, ParseError, RequestHead};
use crate::payload::{chunk_len, LengthDecoder, PayloadItem};
use crate::request::{parse, parse_spec, Limits, Request, RequestView};

verus! {

/// What a decoder expects next.
#[derive(Clone, Copy, Debug, PartialEq, Eq, Structural)]
pub enum Mode {
    /// A request head.
    Head,
    /// A body of which so many bytes are still to come.
    Length(u64),
    /// A body in chunks.
    Chunked(ChunkState),
}

/// An item decoded from the read buffer.
#[derive(Debug)]
pub enum Frame {
    /// A request head, and what the connection logic reads of it.
    Head(Request, RequestHead),
    /// Bytes of the current request's body.
    Chunk(Vec<u8>),
    /// The end of the current request's body.
    Eof,
    /// The buffer holds no complete item.
    NeedMore,
    /// The bytes are malformed.
    Invalid,
}

/// An item as plain values.
pub enum FrameView {
    Head(RequestView, RequestHead),
    Chunk(Seq<u8>),
    Eof,
    NeedMore,
    Invalid,
}

impl View for Frame {
    type V = FrameView;

    open spec fn view(&self) -> FrameView {
        match *self {
            Frame::Head(req, head) => FrameView::Head(req@, head),
            Frame::Chunk(chunk) => FrameView::Chunk(chunk@),
            Frame::Eof => FrameView::Eof,
            Frame::NeedMore => FrameView::NeedMore,
            Frame::Invalid => FrameView::Invalid,
        }
    }
}

/// What a decoder makes of a buffer.
pub struct Decoding {
    /// The item.
    pub frame: FrameView,
    /// How many bytes are taken off the front of the buffer.
    pub consumed: int,
    /// What the decoder expects afterwards.
    pub mode: Mode,
}

/// What a decoder that expects `mode` makes of the buffer `buf`.
pub open spec fn decoding(mode: Mode, limits: Limits, buf: Seq<u8>) -> Decoding {
    match mode {
        Mode::Head => match parse_spec(buf, limits) {
            Err(_) => Decoding { frame: FrameView::Invalid, consumed: 0, mode },
            Ok(None) => Decoding { frame: FrameView::NeedMore, consumed: 0, mode },
            Ok(Some((req, end))) => match req.head_spec() {
                Ok(head) => Decoding {
                    frame: FrameView::Head(req, head),
                    consumed: end,
                    mode: mode_for(head.framing_spec()),
                },
                Err(_) => Decoding { frame: FrameView::Invalid, consumed: end, mode },
            },
        },
        Mode::Length(left) => if left == 0 {
            Decoding { frame: FrameView::Eof, consumed: 0, mode: Mode::Head }
        } else if buf.len() == 0 {
            Decoding { frame: FrameView::NeedMore, consumed: 0, mode }
        } else {
            let k = chunk_len(left as nat, buf.len()) as int;
            Decoding {
                frame: FrameView::Chunk(buf.take(k)),
                consumed: k,
                mode: Mode::Length((left - k) as u64),
            }
        },
        Mode::Chunked(state) => match decode_spec(state, buf) {
            Decode::NeedMore { state: next, consumed } => Decoding {
                frame: FrameView::NeedMore,
                consumed,
                mode: Mode::Chunked(next),
            },
            Decode::Fail { state: next, consumed } => Decoding {
                frame: FrameView::Invalid,
                consumed,
                mode: Mode::Chunked(next),
            },
            Decode::Chunk { state: next, skipped, len } => Decoding {
                frame: FrameView::Chunk(buf.subrange(skipped, skipped + len)),
                consumed: skipped + len,
                mode: Mode::Chunked(next),
            },
            Decode::Eof { consumed } => Decoding {
                frame: FrameView::Eof,
                consumed,
                mode: Mode::Head,
            },
        },
    }
}

#[derive(Debug)]
enum Body {
    Absent,
    Length(LengthDecoder),
    Chunked(ChunkedDecoder),
}

/// Decoder of the requests of one connection.
#[derive(Debug)]
pub struct Decoder {
    limits: Limits,
    body: Body,
}

/// The mode in which the body of a request with the framing `framing` is
/// read; a request that is refused for its framing has no body to read.
pub open spec fn mode_for(framing: Result<Framing, ParseError>) -> Mode {
    match framing {
        Ok(Framing::Length(n)) => Mode::Length(n),
        Ok(Framing::Chunked) => Mode::Chunked(ChunkState::Size),
        Ok(Framing::NoBody) => Mode::Head,
        Err(_) => Mode::Head,
    }
}

impl Decoder {
    /// What the decoder expects next.
    pub closed spec fn mode(&self) -> Mode {
        match self.body {
            Body::Absent => Mode::Head,
            Body::Length(d) => Mode::Length(d.remaining()),
            Body::Chunked(d) => Mode::Chunked(d.state()),
        }
    }

    /// The bounds on the heads the decoder takes.
    pub closed spec fn limits(&self) -> Limits {
        self.limits
    }

    /// A decoder that expects a request head within `limits`.
    pub fn new(limits: Limits) -> (d: Decoder)
        ensures
            d.mode() == Mode::Head,
            d.limits() == limits,
    {
        Decoder { limits, body: Body::Absent }
    }

    /// Whether the decoder expects a request head.
    pub fn expects_head(&self) -> (r: bool)
        ensures
            r == (self.mode() == Mode::Head),
    {
        match self.body {
            Body::Absent => true,
            _ => false,
        }
    }

    /// Takes the next item off the front of `buf`, and says how many bytes
    /// it took.
    ///
    /// Where a head is expected: a complete head is taken off the buffer
    /// and handed out with what the connection logic reads of it, and the
    /// decoder goes on to expect the body that the head frames; a head
    /// whose headers cannot be read is taken off and reported malformed;
    /// an incomplete or malformed head leaves everything as it is. Where a
    /// body is expected, its next piece or its end is taken off the buffer;
    /// after the end a head is expected again.
    pub fn decode(&mut self, buf: &mut Vec<u8>) -> (r: (Frame, usize))
        ensures
            final(self).limits() == old(self).limits(),
            ({
                let d = decoding(old(self).mode(), old(self).limits(), old(buf)@);
                &&& r.0@ == d.frame
                &&& r.1 == d.consumed
                &&& 0 <= d.consumed <= old(buf)@.len()
                &&& final(buf)@ == old(buf)@.skip(d.consumed)
                &&& final(self).mode() == d.mode
            }),
    {
        let before: usize = buf.len();
        let frame = match &mut self.body {
            Body::Absent => {
                match parse(buf.as_slice(), self.limits) {
                    Err(_) => Frame::Invalid,
                    Ok(None) => Frame::NeedMore,
                    Ok(Some((req, end))) => {
                        let mut rest = buf.split_off(end);
                        std::mem::swap(buf, &mut rest);
                        match req.head() {
                            Ok(head) => {
                                match head.framing() {
                                    Ok(Framing::Length(n)) => {
                                        self.body = Body::Length(LengthDecoder::new(n));
                                    },
                                    Ok(Framing::Chunked) => {
                                        self.body = Body::Chunked(ChunkedDecoder::new());
                                    },
                                    _ => {},
                                }
                                Frame::Head(req, head)
                            },
                            Err(_) => Frame::Invalid,
                        }
                    },
                }
            },
            Body::Length(decoder) => {
                match decoder.decode(buf) {
                    Some(PayloadItem::Chunk(chunk)) => Frame::Chunk(chunk),
                    Some(PayloadItem::Eof) => {
                        self.body = Body::Absent;
                        Frame::Eof
                    },
                    None => Frame::NeedMore,
                }
            },
            Body::Chunked(decoder) => {
                match decoder.decode(buf) {
                    Ok(Some(PayloadItem::Chunk(chunk))) => Frame::Chunk(chunk),
                    Ok(Some(PayloadItem::Eof)) => {
                        self.body = Body::Absent;
                        Frame::Eof
                    },
                    Ok(None) => Frame::NeedMore,
                    Err(_) => Frame::Invalid,
                }
            },
        };
        let after: usize = buf.len();
        (
            frame,
            if after <= before {
                before - after
            } else {
                0
            },
        )
    }
}

} // verus!

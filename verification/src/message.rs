//! What the connection logic reads of requests and responses, and the rules
//! that follow from a head alone: whether it asks for an upgrade, whether the
//! peer lets the connection live on, and how the body is framed.

use vstd::prelude::*;

verus! {

/// Request methods, as far as the connection logic tells them apart.
#[derive(Clone, Copy, Debug, PartialEq, Eq, Structural)]
pub enum Method {
    Get,
    Head,
    Post,
    Put,
    Delete,
    Connect,
    Options,
    Trace,
    Patch,
    /// Any other method.
    Extension,
}

/// Protocol version of a request.
#[derive(Clone, Copy, Debug, PartialEq, Eq, Structural)]
pub enum Version {
    Http10,
    Http11,
}

/// What a `Connection` header asks for.
#[derive(Clone, Copy, Debug, PartialEq, Eq, Structural)]
pub enum ConnectionType {
    /// `Connection: close`
    Close,
    /// `Connection: keep-alive`
    KeepAlive,
    /// `Connection: upgrade`
    Upgrade,
}

/// How the body of a request is delimited.
#[derive(Clone, Copy, Debug, PartialEq, Eq, Structural)]
pub enum Framing {
    /// The request has no body.
    NoBody,
    /// The body is the next so many bytes.
    Length(u64),
    /// The body is sent in chunks.
    Chunked,
}

/// Why inbound bytes were refused.
#[derive(Clone, Copy, Debug, PartialEq, Eq, Structural)]
pub enum ParseError {
    /// The head is malformed or exceeds a limit of the parser.
    Malformed,
    /// The head carries both `Transfer-Encoding: chunked` and
    /// `Content-Length`.
    ConflictingFraming,
}

/// The part of a decoded request head that the connection logic reads.
#[derive(Clone, Copy, Debug, PartialEq, Eq, Structural)]
pub struct RequestHead {
    pub method: Method,
    pub version: Version,
    /// The `Connection` header, if there is one.
    pub connection: Option<ConnectionType>,
    /// Whether an `Upgrade` header is present.
    pub upgrade: bool,
    /// Whether the head carries `Expect: 100-continue`.
    pub expect_continue: bool,
    /// Whether the head carries `Transfer-Encoding: chunked`.
    pub chunked: bool,
    /// The `Content-Length` header, if there is one.
    pub content_length: Option<u64>,
}

/// Size of a response body, as the application announces it.
#[derive(Clone, Copy, Debug, PartialEq, Eq, Structural)]
pub enum BodySize {
    /// No body; framed with length zero.
    Empty,
    /// A body of known length.
    Sized(u64),
    /// A body sent with chunked transfer encoding.
    Chunked,
    /// A lazy byte stream whose length may be known.
    Stream(Option<u64>),
}

/// The part of a response head that the connection logic reads.
#[derive(Clone, Copy, Debug, PartialEq, Eq, Structural)]
pub struct ResponseHead {
    pub status: u16,
    pub body: BodySize,
}

/// A message waiting for the encoder.
#[derive(Debug)]
pub enum Message {
    /// The interim `100 Continue` head.
    Continue,
    /// A response head. With `keep_alive` false the encoder writes
    /// `Connection: close`.
    Head { status: u16, body: BodySize, keep_alive: bool },
    /// A piece of the response body.
    Chunk(Vec<u8>),
    /// The end of the response body.
    Eof,
}

/// Status of the synthesized answer to a malformed request.
pub const STATUS_BAD_REQUEST: u16 = 400;

/// Reason phrase of the synthesized answer to a malformed request.
pub const REASON_BAD_REQUEST: &'static str = "Bad Request";

impl RequestHead {
    /// Whether the head asks to switch protocols: the method is `CONNECT`, or
    /// an `Upgrade` header comes with `Connection: upgrade`.
    pub open spec fn upgrade_spec(self) -> bool {
        self.method == Method::Connect || (self.upgrade && self.connection == Some(
            ConnectionType::Upgrade,
        ))
    }

    /// Whether the peer lets the connection be reused: `Connection:
    /// keep-alive` says yes, any other `Connection` header says no, and
    /// without the header HTTP/1.1 means yes and HTTP/1.0 no.
    pub open spec fn keep_alive_spec(self) -> bool {
        match self.connection {
            Some(ConnectionType::KeepAlive) => true,
            Some(_) => false,
            None => self.version == Version::Http11,
        }
    }

    /// The framing of the request body: a head with both framing headers is
    /// refused, chunked encoding and a content length each select their
    /// framing, and a head with neither has no body.
    pub open spec fn framing_spec(self) -> Result<Framing, ParseError> {
        if self.chunked && self.content_length is Some {
            Err(ParseError::ConflictingFraming)
        } else if self.chunked {
            Ok(Framing::Chunked)
        } else {
            match self.content_length {
                Some(n) => Ok(Framing::Length(n)),
                None => Ok(Framing::NoBody),
            }
        }
    }

    /// Whether the head asks to switch protocols.
    pub fn upgrade(&self) -> (r: bool)
        ensures
            r == self.upgrade_spec(),
    {
        match self.method {
            Method::Connect => true,
            _ => self.upgrade && match self.connection {
                Some(ConnectionType::Upgrade) => true,
                _ => false,
            },
        }
    }

    /// Whether the peer lets the connection be reused after this request.
    pub fn keep_alive(&self) -> (r: bool)
        ensures
            r == self.keep_alive_spec(),
    {
        match self.connection {
            Some(ConnectionType::KeepAlive) => true,
            Some(_) => false,
            None => match self.version {
                Version::Http11 => true,
                Version::Http10 => false,
            },
        }
    }

    /// The framing of the request body, or the reason the head is refused.
    pub fn framing(&self) -> (r: Result<Framing, ParseError>)
        ensures
            r == self.framing_spec(),
    {
        match self.content_length {
            Some(n) => {
                if self.chunked {
                    Err(ParseError::ConflictingFraming)
                } else {
                    Ok(Framing::Length(n))
                }
            },
            None => {
                if self.chunked {
                    Ok(Framing::Chunked)
                } else {
                    Ok(Framing::NoBody)
                }
            },
        }
    }
}

impl BodySize {
    /// Whether nothing follows the head.
    pub open spec fn is_empty_spec(self) -> bool {
        self == BodySize::Empty || self == BodySize::Sized(0) || self == BodySize::Stream(Some(0))
    }

    /// Whether a peer speaking `version` can tell where the body ends
    /// without the connection closing: a known length always delimits it,
    /// chunked encoding only for HTTP/1.1.
    pub open spec fn delimited_spec(self, version: Version) -> bool {
        match self {
            BodySize::Empty => true,
            BodySize::Sized(_) => true,
            BodySize::Stream(Some(_)) => true,
            BodySize::Chunked => version == Version::Http11,
            BodySize::Stream(None) => version == Version::Http11,
        }
    }

    /// The length of the body, where it is announced.
    pub open spec fn announced_spec(self) -> Option<u64> {
        match self {
            BodySize::Empty => Some(0),
            BodySize::Sized(n) => Some(n),
            BodySize::Stream(Some(n)) => Some(n),
            BodySize::Chunked => None,
            BodySize::Stream(None) => None,
        }
    }

    /// The length of the body, where it is announced.
    pub fn announced(&self) -> (r: Option<u64>)
        ensures
            r == self.announced_spec(),
    {
        match self {
            BodySize::Empty => Some(0),
            BodySize::Sized(n) => Some(*n),
            BodySize::Stream(n) => *n,
            BodySize::Chunked => None,
        }
    }

    /// Whether nothing follows the head.
    pub fn is_empty(&self) -> (r: bool)
        ensures
            r == self.is_empty_spec(),
    {
        match self {
            BodySize::Empty => true,
            BodySize::Sized(n) => *n == 0,
            BodySize::Stream(Some(n)) => *n == 0,
            _ => false,
        }
    }

    /// Whether a peer speaking `version` can tell where the body ends.
    pub fn delimited(&self, version: Version) -> (r: bool)
        ensures
            r == self.delimited_spec(version),
    {
        match self {
            BodySize::Chunked => match version {
                Version::Http11 => true,
                Version::Http10 => false,
            },
            BodySize::Stream(None) => match version {
                Version::Http11 => true,
                Version::Http10 => false,
            },
            _ => true,
        }
    }
}

} // verus!

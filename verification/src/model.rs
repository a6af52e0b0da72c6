//! The dispatcher as a mathematical state machine: its state, the step it
//! takes on each event, and the condition that every reachable state meets.

use vstd::prelude::*;
use crate::config::{PeerAddr, ServiceConfig};
use crate::error::{DispatchError, PayloadError};
use crate::event::{
    BodyOutcome,
    Command,
    Decoded,
    Event,
    ExpectOutcome,
    FlushOutcome,
    PayloadStatus,
    ReadOutcome,
    ServiceOutcome,
    ShutdownOutcome,
};
use crate::message::{BodySize, Framing, Message, RequestHead, ResponseHead, Version};
use crate::message::STATUS_BAD_REQUEST;

verus! {

/// Where a connection stands in the request/response cycle.
#[derive(Clone, Copy, Debug, PartialEq, Eq, Structural)]
pub enum State {
    /// Idle, or reading a request head.
    Normal,
    /// The request is with the expect service.
    ExpectCall,
    /// The request is with the application service.
    ServiceCall,
    /// The response head is queued; the body is being sent and flushed.
    SendPayload,
    /// The connection belongs to the upgrade service.
    Upgrade,
    /// The write buffer is drained and the stream closed.
    Shutdown,
}

/// The dispatcher's flags.
#[derive(Clone, Copy, Debug, PartialEq, Eq, Structural)]
pub struct Flags {
    /// The connection may serve another request after the current one.
    pub keepalive: bool,
    /// The services were seen ready before the connection was accepted.
    pub polled: bool,
    /// The connection is shutting down.
    pub shutdown: bool,
    /// Nothing more is read from the stream.
    pub read_disconnect: bool,
    /// Nothing more is written to the stream.
    pub write_disconnect: bool,
    /// The connection is handed to the upgrade service.
    pub upgrade_pending: bool,
    /// A request has arrived on this connection.
    pub started: bool,
}

/// How a connection ended.
#[derive(Clone, Copy, Debug, PartialEq, Eq, Structural)]
pub enum Outcome {
    /// The stream was shut down in order.
    Closed,
    /// The connection was dropped for this reason.
    Failed(DispatchError),
}

impl Outcome {
    /// The outcome as a result: a connection closed in order is no error.
    pub fn result(self) -> (r: Result<(), DispatchError>)
        ensures
            r == (match self {
                Outcome::Closed => Ok::<(), DispatchError>(()),
                Outcome::Failed(kind) => Err::<(), DispatchError>(kind),
            }),
    {
        match self {
            Outcome::Closed => Ok(()),
            Outcome::Failed(kind) => Err(kind),
        }
    }

    /// How a connection ends that was handed to the upgrade service: in
    /// order when the service came to its end, and with an upgrade error
    /// when it failed.
    pub fn of_upgrade(failed: bool) -> (o: Outcome)
        ensures
            o == (if failed {
                Outcome::Failed(DispatchError::Upgrade)
            } else {
                Outcome::Closed
            }),
    {
        if failed {
            Outcome::Failed(DispatchError::Upgrade)
        } else {
            Outcome::Closed
        }
    }
}

/// Most bytes of an unread request body that are thrown away before the
/// connection is given up for reuse.
pub const MAX_DISCARD: usize = 32768;

/// The state of a dispatcher.
pub struct Model {
    pub cfg: ServiceConfig,
    /// Whether an upgrade service is configured.
    pub has_upgrade: bool,
    pub peer_addr: Option<PeerAddr>,
    /// Bytes in the read buffer that the decoder has not consumed.
    pub read_len: usize,
    /// Bytes in the write buffer that have not been flushed.
    pub write_len: usize,
    pub state: State,
    /// The sender of the current request's body, by its receiver's status.
    pub payload: Option<PayloadStatus>,
    /// Messages waiting for the encoder, oldest first.
    pub messages: Seq<Message>,
    /// The time by which the next request head must have arrived.
    pub ka_expire: u64,
    /// The deadline of the idle timer, while it is armed.
    pub ka_timer: Option<u64>,
    pub flags: Flags,
    /// Version of the current request.
    pub version: Version,
    /// Whether the whole response is queued.
    pub response_done: bool,
    /// How many bytes the response body still owes to its announced
    /// length, where it announced one.
    pub body_left: Option<u64>,
    /// Bytes of the current request's body thrown away so far.
    pub discarded: usize,
    /// When a shutdown in progress is abandoned.
    pub disconnect_deadline: Option<u64>,
    /// The first failure that doomed the connection, if any.
    pub error: Option<DispatchError>,
    /// How the connection ended, once it has.
    pub outcome: Option<Outcome>,
    /// How many requests were handed to the services so far. The first
    /// request has number one.
    pub accepted: nat,
    /// For each response queued so far, oldest first, the number of the
    /// request that it answers.
    pub answers: Seq<nat>,
}

impl Model {
    /// The state of a connection accepted at `now`.
    pub open spec fn initial(
        cfg: ServiceConfig,
        has_upgrade: bool,
        peer_addr: Option<PeerAddr>,
        now: u64,
    ) -> Model {
        Model {
            cfg,
            has_upgrade,
            peer_addr,
            read_len: 0,
            write_len: 0,
            state: State::Normal,
            payload: None,
            messages: Seq::empty(),
            ka_expire: (now + cfg.client_request_timeout) as u64,
            ka_timer: Some((now + cfg.client_request_timeout) as u64),
            flags: Flags {
                keepalive: cfg.keep_alive_enabled(),
                polled: true,
                shutdown: false,
                read_disconnect: false,
                write_disconnect: false,
                upgrade_pending: false,
                started: false,
            },
            version: Version::Http11,
            response_done: false,
            body_left: None,
            discarded: 0,
            disconnect_deadline: None,
            error: None,
            outcome: None,
            accepted: 0,
            answers: Seq::empty(),
        }
    }

    /// Whether the dispatcher is done with the connection.
    pub open spec fn terminated(self) -> bool {
        self.outcome is Some || self.state == State::Upgrade
    }

    /// Whether a request is with a service and not yet answered.
    pub open spec fn in_flight(self) -> bool {
        self.state == State::ExpectCall || self.state == State::ServiceCall
    }

    /// Whether body bytes of the current request are being taken.
    pub open spec fn body_open(self) -> bool {
        self.payload is Some && (self.state == State::ServiceCall || self.state
            == State::SendPayload)
    }

    /// Whether nothing waits to be written.
    pub open spec fn flushed(self) -> bool {
        self.messages.len() == 0 && self.write_len == 0
    }

    /// Whether the stream should be read now: the read half is open, the
    /// buffer has room, and either no request is being served or the
    /// current request's body is wanted.
    pub open spec fn can_read(self) -> bool {
        &&& !self.terminated()
        &&& !self.flags.read_disconnect
        &&& self.read_len < self.cfg.max_read_buf
        &&& (self.state == State::Normal || (self.body_open() && self.payload != Some(
            PayloadStatus::Pause,
        )))
    }

    /// Whether the decoder may run now: a request is awaited and the buffer
    /// holds bytes, or the current request's body is wanted. The decoder
    /// then runs until it needs more input.
    pub open spec fn can_decode(self) -> bool {
        &&& !self.terminated()
        &&& ((self.state == State::Normal && self.read_len > 0) || (self.body_open()
            && self.payload != Some(PayloadStatus::Pause)))
    }

    /// Whether the stream's shutdown handshake is due.
    pub open spec fn can_shutdown(self) -> bool {
        &&& self.outcome is None
        &&& self.state == State::Shutdown
        &&& (self.flags.write_disconnect || self.flushed())
    }

    /// The time at which the caller must report a `Tick`, if any: while a
    /// request is awaited, the time by which its head must have arrived;
    /// during shutdown, the time at which the connection is dropped.
    pub open spec fn deadline(self) -> Option<u64> {
        if self.terminated() {
            None
        } else if self.state == State::Shutdown {
            self.disconnect_deadline
        } else if self.state == State::Normal {
            Some(self.ka_expire)
        } else {
            None
        }
    }

    /// Whether `ev`, reported at `now`, fits the buffers and the clock.
    pub open spec fn accepts(self, ev: Event, now: u64) -> bool {
        &&& now + self.cfg.keep_alive <= u64::MAX
        &&& now + self.cfg.client_disconnect_timeout <= u64::MAX
        &&& match ev {
            Event::Read(ReadOutcome::Ready(n)) => self.read_len + n <= self.cfg.max_read_buf,
            Event::Decoded { item, consumed } => consumed <= self.read_len,
            Event::Encoded(n) => self.write_len + n <= usize::MAX,
            Event::Flush(FlushOutcome::Ready(n)) => n <= self.write_len,
            _ => true,
        }
    }

    /// The failure on record once `kind` has happened: the first one stays.
    pub open spec fn first_error(self, kind: DispatchError) -> Option<DispatchError> {
        if self.error is Some {
            self.error
        } else {
            Some(kind)
        }
    }

    /// The state with the failure `kind` on record.
    pub open spec fn blame(self, kind: DispatchError) -> Model {
        Model { error: self.first_error(kind), ..self }
    }

    /// How a connection ends whose stream is closed: in order, unless a
    /// failure is on record.
    pub open spec fn verdict(self) -> Outcome {
        match self.error {
            Some(kind) => Outcome::Failed(kind),
            None => Outcome::Closed,
        }
    }

    /// The state on entering `Shutdown` at `now`.
    pub open spec fn enter_shutdown(self, now: u64) -> Model {
        Model {
            state: State::Shutdown,
            flags: Flags { shutdown: true, keepalive: false, ..self.flags },
            ka_timer: None,
            payload: None,
            response_done: false,
            disconnect_deadline: Some((now + self.cfg.client_disconnect_timeout) as u64),
            ..self
        }
    }

    /// The state when an exchange is over at `now`: back to `Normal` with a
    /// fresh keep-alive deadline where the connection may be reused, into
    /// `Shutdown` where it may not.
    pub open spec fn finish_exchange(self, now: u64) -> Model {
        if self.flags.keepalive {
            Model {
                state: State::Normal,
                ka_expire: (now + self.cfg.keep_alive) as u64,
                ka_timer: if self.read_len == 0 {
                    Some((now + self.cfg.keep_alive) as u64)
                } else {
                    None
                },
                response_done: false,
                discarded: 0,
                ..self
            }
        } else {
            self.enter_shutdown(now)
        }
    }

    /// Whether the current exchange is over: the whole response is queued,
    /// encoded and flushed, and the request body is closed.
    pub open spec fn exchange_complete(self) -> bool {
        &&& self.state == State::SendPayload
        &&& self.response_done
        &&& self.flushed()
        &&& self.payload is None
    }

    /// Ends the exchange if it is over.
    pub open spec fn settle(self, now: u64) -> Model {
        if self.exchange_complete() {
            self.finish_exchange(now)
        } else {
            self
        }
    }

    /// The command that closes the body's sender with `err`, if a sender is
    /// open that still has a receiver.
    pub open spec fn fail_payload(self, err: PayloadError) -> Command {
        match self.payload {
            Some(PayloadStatus::Dropped) => Command::Idle,
            Some(_) => Command::FailPayload(err),
            None => Command::Idle,
        }
    }

    /// Queues a response head and moves to `SendPayload`.
    pub open spec fn send_response(self, res: ResponseHead, keep_alive: bool) -> Model {
        Model {
            messages: self.messages.push(
                Message::Head { status: res.status, body: res.body, keep_alive },
            ),
            flags: Flags { keepalive: keep_alive, ..self.flags },
            answers: self.answers.push(self.accepted),
            state: State::SendPayload,
            response_done: res.body.is_empty_spec(),
            body_left: res.body.announced_spec(),
            ..self
        }
    }

    /// Answers a malformed request: `400` is queued, nothing more is read,
    /// and the connection closes once the answer is flushed.
    pub open spec fn reject_request(self) -> Model {
        Model {
            messages: self.messages.push(
                Message::Head {
                    status: STATUS_BAD_REQUEST,
                    body: BodySize::Empty,
                    keep_alive: false,
                },
            ),
            flags: Flags {
                keepalive: false,
                read_disconnect: true,
                started: true,
                ..self.flags
            },
            state: State::SendPayload,
            response_done: true,
            read_len: 0,
            ka_timer: None,
            payload: None,
            error: self.first_error(DispatchError::Parse),
            ..self
        }
    }

    /// The stream was read.
    pub open spec fn on_read(self, r: ReadOutcome, now: u64) -> (Model, Command) {
        if self.state == State::Shutdown || self.flags.read_disconnect {
            (self, Command::Idle)
        } else {
            match r {
                ReadOutcome::Pending => (self, Command::Idle),
                ReadOutcome::Ready(n) => (
                    Model {
                        read_len: (self.read_len + n) as usize,
                        ka_timer: if n > 0 {
                            None
                        } else {
                            self.ka_timer
                        },
                        ..self
                    },
                    Command::Idle,
                ),
                ReadOutcome::Eof => self.on_read_closed(false, now),
                ReadOutcome::Failed => self.on_read_closed(true, now),
            }
        }
    }

    /// The read half is closed, by the peer or by a failure.
    pub open spec fn on_read_closed(self, failed: bool, now: u64) -> (Model, Command) {
        let s = Model {
            flags: Flags { read_disconnect: true, ..self.flags },
            error: if failed {
                self.first_error(DispatchError::Io)
            } else {
                self.error
            },
            ..self
        };
        if self.state == State::Normal {
            if failed || self.read_len == 0 {
                (s.enter_shutdown(now), Command::Idle)
            } else {
                (s, Command::Idle)
            }
        } else {
            (
                Model {
                    payload: None,
                    flags: Flags { keepalive: false, ..s.flags },
                    ..s
                }.settle(now),
                self.fail_payload(PayloadError::Incomplete),
            )
        }
    }

    /// A request head was decoded.
    pub open spec fn on_head(self, head: RequestHead, consumed: usize, now: u64) -> (
        Model,
        Command,
    ) {
        if self.state != State::Normal {
            (self, Command::Idle)
        } else {
            let base = Model {
                read_len: (self.read_len - consumed) as usize,
                ka_timer: None,
                flags: Flags { started: true, ..self.flags },
                version: head.version,
                ..self
            };
            match head.framing_spec() {
                Err(_) => (base.reject_request(), Command::Idle),
                Ok(framing) => {
                    if head.upgrade_spec() && self.has_upgrade {
                        (
                            Model {
                                state: State::Upgrade,
                                flags: Flags { upgrade_pending: true, ..base.flags },
                                ..base
                            },
                            Command::Upgrade,
                        )
                    } else {
                        let keep_alive = self.cfg.keep_alive_enabled() && head.keep_alive_spec()
                            && !self.flags.read_disconnect;
                        (
                            Model {
                                state: if head.expect_continue {
                                    State::ExpectCall
                                } else {
                                    State::ServiceCall
                                },
                                payload: if framing == Framing::NoBody {
                                    None
                                } else {
                                    Some(PayloadStatus::Read)
                                },
                                flags: Flags { keepalive: keep_alive, ..base.flags },
                                discarded: 0,
                                accepted: self.accepted + 1,
                                ..base
                            },
                            if head.expect_continue {
                                Command::CallExpect
                            } else {
                                Command::CallService
                            },
                        )
                    }
                },
            }
        }
    }

    /// Bytes of the request body were decoded.
    pub open spec fn on_chunk(self, len: usize, consumed: usize, now: u64) -> (Model, Command) {
        if !self.body_open() {
            (self, Command::Idle)
        } else {
            let s = Model { read_len: (self.read_len - consumed) as usize, ..self };
            if self.payload == Some(PayloadStatus::Dropped) {
                if self.discarded + len > MAX_DISCARD {
                    (
                        Model {
                            payload: None,
                            flags: Flags {
                                keepalive: false,
                                read_disconnect: true,
                                ..s.flags
                            },
                            ..s
                        }.settle(now),
                        Command::Discard,
                    )
                } else {
                    (Model { discarded: (self.discarded + len) as usize, ..s }, Command::Discard)
                }
            } else {
                (s, Command::FeedPayload)
            }
        }
    }

    /// The end of the request body was decoded.
    pub open spec fn on_body_end(self, consumed: usize, now: u64) -> (Model, Command) {
        if !self.body_open() {
            (self, Command::Idle)
        } else {
            (
                Model {
                    read_len: (self.read_len - consumed) as usize,
                    payload: None,
                    ..self
                }.settle(now),
                if self.payload == Some(PayloadStatus::Dropped) {
                    Command::Idle
                } else {
                    Command::FeedEof
                },
            )
        }
    }

    /// The decoder found the bytes malformed.
    pub open spec fn on_invalid(self, consumed: usize, now: u64) -> (Model, Command) {
        if self.state == State::Normal {
            (self.reject_request(), Command::Idle)
        } else if self.body_open() {
            (
                Model {
                    read_len: (self.read_len - consumed) as usize,
                    flags: Flags { read_disconnect: true, ..self.flags },
                    ..self
                }.blame(DispatchError::PayloadFraming).enter_shutdown(now),
                self.fail_payload(PayloadError::EncodingCorrupted),
            )
        } else {
            (self, Command::Idle)
        }
    }

    /// The decoder needs more input, having taken `consumed` bytes of
    /// framing. A connection that awaits a request and can read no more is
    /// shut down.
    pub open spec fn on_need_more(self, consumed: usize, now: u64) -> (Model, Command) {
        let s = Model { read_len: (self.read_len - consumed) as usize, ..self };
        if self.state == State::Normal {
            if self.flags.read_disconnect {
                (s.enter_shutdown(now), Command::Idle)
            } else {
                (s, Command::Idle)
            }
        } else if self.body_open() {
            (s, Command::Idle)
        } else {
            (self, Command::Idle)
        }
    }

    /// The decoder ran.
    pub open spec fn on_decoded(self, item: Decoded, consumed: usize, now: u64) -> (
        Model,
        Command,
    ) {
        match item {
            Decoded::Head(head) => self.on_head(head, consumed, now),
            Decoded::Chunk(len) => self.on_chunk(len, consumed, now),
            Decoded::Eof => self.on_body_end(consumed, now),
            Decoded::NeedMore => self.on_need_more(consumed, now),
            Decoded::Invalid => self.on_invalid(consumed, now),
        }
    }

    /// The expect service gave its verdict.
    pub open spec fn on_expect(self, o: ExpectOutcome, now: u64) -> (Model, Command) {
        if self.state != State::ExpectCall {
            (self, Command::Idle)
        } else {
            match o {
                ExpectOutcome::Continue => (
                    Model {
                        messages: self.messages.push(Message::Continue),
                        state: State::ServiceCall,
                        ..self
                    },
                    Command::CallService,
                ),
                ExpectOutcome::Reject(res) => (
                    Model {
                        payload: None,
                        flags: Flags { read_disconnect: true, ..self.flags },
                        ..self
                    }.blame(DispatchError::ServiceCall).send_response(res, false),
                    Command::Idle,
                ),
            }
        }
    }

    /// The application service finished.
    pub open spec fn on_service(self, o: ServiceOutcome, now: u64) -> (Model, Command) {
        if self.state != State::ServiceCall {
            (self, Command::Idle)
        } else {
            match o {
                ServiceOutcome::Response(res) => (
                    self.send_response(
                        res,
                        self.flags.keepalive && res.body.delimited_spec(self.version)
                            && !self.flags.write_disconnect,
                    ),
                    Command::Idle,
                ),
                ServiceOutcome::Error(res) => (
                    self.blame(DispatchError::ServiceCall).send_response(res, false),
                    Command::Idle,
                ),
            }
        }
    }

    /// Whether `len` more bytes are more than the response body announced.
    pub open spec fn overruns(self, len: nat) -> bool {
        self.body_left matches Some(left) && len > left
    }

    /// Whether the response body, ending now, is shorter than it announced.
    pub open spec fn falls_short(self) -> bool {
        self.body_left matches Some(left) && left > 0
    }

    /// The response body stream yielded. A body that does not keep to its
    /// announced length costs the connection its keep-alive.
    pub open spec fn on_body(self, o: BodyOutcome, now: u64) -> (Model, Command) {
        if self.state != State::SendPayload || self.response_done {
            (self, Command::Idle)
        } else {
            match o {
                BodyOutcome::Chunk(bytes) => (
                    Model {
                        messages: self.messages.push(Message::Chunk(bytes)),
                        body_left: match self.body_left {
                            Some(left) => if bytes@.len() <= left {
                                Some((left - bytes@.len()) as u64)
                            } else {
                                Some(0)
                            },
                            None => None,
                        },
                        flags: Flags {
                            keepalive: self.flags.keepalive && !self.overruns(bytes@.len()),
                            ..self.flags
                        },
                        ..self
                    },
                    Command::Idle,
                ),
                BodyOutcome::Eof => (
                    Model {
                        messages: self.messages.push(Message::Eof),
                        response_done: true,
                        flags: Flags {
                            keepalive: self.flags.keepalive && !self.falls_short(),
                            ..self.flags
                        },
                        ..self
                    },
                    Command::Idle,
                ),
                BodyOutcome::Failed => (
                    self.blame(DispatchError::ServiceCall).enter_shutdown(now),
                    self.fail_payload(PayloadError::Incomplete),
                ),
            }
        }
    }

    /// The receiver of the request body changed its status.
    pub open spec fn on_payload(self, status: PayloadStatus) -> (Model, Command) {
        if self.payload is Some {
            (Model { payload: Some(status), ..self }, Command::Idle)
        } else {
            (self, Command::Idle)
        }
    }

    /// The encoder took the oldest message.
    pub open spec fn on_encoded(self, n: usize, now: u64) -> (Model, Command) {
        if self.messages.len() == 0 || self.flags.write_disconnect {
            (self, Command::Idle)
        } else {
            (
                Model {
                    messages: self.messages.drop_first(),
                    write_len: (self.write_len + n) as usize,
                    ..self
                }.settle(now),
                Command::Idle,
            )
        }
    }

    /// The write buffer was flushed.
    pub open spec fn on_flush(self, o: FlushOutcome, now: u64) -> (Model, Command) {
        if self.flags.write_disconnect {
            (self, Command::Idle)
        } else {
            match o {
                FlushOutcome::Pending => (self, Command::Idle),
                FlushOutcome::Ready(n) => (
                    Model { write_len: (self.write_len - n) as usize, ..self }.settle(now),
                    Command::Idle,
                ),
                FlushOutcome::Failed => (
                    Model {
                        flags: Flags { write_disconnect: true, ..self.flags },
                        messages: Seq::empty(),
                        write_len: 0,
                        ..self
                    }.blame(DispatchError::Io).enter_shutdown(now),
                    self.fail_payload(PayloadError::Incomplete),
                ),
            }
        }
    }

    /// The stream's shutdown handshake was attempted.
    pub open spec fn on_shutdown(self, o: ShutdownOutcome) -> (Model, Command) {
        if !self.can_shutdown() {
            (self, Command::Idle)
        } else {
            match o {
                ShutdownOutcome::Pending => (self, Command::Idle),
                ShutdownOutcome::Ready => (
                    Model {
                        outcome: Some(self.verdict()),
                        flags: Flags {
                            read_disconnect: true,
                            write_disconnect: true,
                            ..self.flags
                        },
                        messages: Seq::empty(),
                        write_len: 0,
                        ..self
                    },
                    Command::Idle,
                ),
                ShutdownOutcome::Failed => (
                    Model { outcome: Some(self.blame(DispatchError::Io).verdict()), ..self }.blame(
                        DispatchError::Io,
                    ),
                    Command::Idle,
                ),
            }
        }
    }

    /// Time has passed. A connection that shuts down is dropped when its
    /// time is up. A connection that awaits a request is shut down, without
    /// a response, when the head has not arrived in time.
    pub open spec fn on_tick(self, now: u64) -> (Model, Command) {
        if self.state == State::Shutdown {
            match self.disconnect_deadline {
                Some(d) => if now >= d {
                    (
                        Model {
                            outcome: Some(self.blame(DispatchError::Timeout).verdict()),
                            ..self
                        }.blame(DispatchError::Timeout),
                        Command::Idle,
                    )
                } else {
                    (self, Command::Idle)
                },
                None => (self, Command::Idle),
            }
        } else if self.state == State::Normal && now >= self.ka_expire {
            (self.blame(DispatchError::Timeout).enter_shutdown(now), Command::Idle)
        } else {
            (self, Command::Idle)
        }
    }

    /// The state after `ev`, reported at `now`, and what the caller is to
    /// do. A dispatcher that is done with its connection takes no step.
    pub open spec fn step(self, ev: Event, now: u64) -> (Model, Command) {
        if self.terminated() {
            (self, Command::Idle)
        } else {
            match ev {
                Event::Read(r) => self.on_read(r, now),
                Event::Decoded { item, consumed } => self.on_decoded(item, consumed, now),
                Event::Expect(o) => self.on_expect(o, now),
                Event::Service(o) => self.on_service(o, now),
                Event::Body(o) => self.on_body(o, now),
                Event::Payload(status) => self.on_payload(status),
                Event::Encoded(n) => self.on_encoded(n, now),
                Event::Flush(o) => self.on_flush(o, now),
                Event::Shutdown(o) => self.on_shutdown(o),
                Event::Tick => self.on_tick(now),
            }
        }
    }

    /// Whether `ev` is a signal: an event that neither adds bytes to a
    /// buffer nor takes bytes off one.
    pub open spec fn is_signal(ev: Event) -> bool {
        match ev {
            Event::Read(ReadOutcome::Ready(_)) => false,
            Event::Decoded { .. } => false,
            Event::Encoded(_) => false,
            Event::Flush(FlushOutcome::Ready(_)) => false,
            _ => true,
        }
    }

    /// Whether `now` is a time from which every deadline can be reckoned.
    pub open spec fn clock_fits(self, now: u64) -> bool {
        now + self.cfg.keep_alive <= u64::MAX && now + self.cfg.client_disconnect_timeout
            <= u64::MAX
    }

    /// The state after the events `evs`, each paired with the time of its
    /// report, oldest first.
    pub open spec fn run(self, evs: Seq<(Event, u64)>) -> Model
        decreases evs.len(),
    {
        if evs.len() == 0 {
            self
        } else {
            self.step(evs[0].0, evs[0].1).0.run(evs.drop_first())
        }
    }

    /// Whether each of the events `evs` fits the state it meets.
    pub open spec fn admits(self, evs: Seq<(Event, u64)>) -> bool
        decreases evs.len(),
    {
        evs.len() == 0 || (self.accepts(evs[0].0, evs[0].1) && self.step(
            evs[0].0,
            evs[0].1,
        ).0.admits(evs.drop_first()))
    }

    /// Whether every response head in the queue that grants keep-alive has
    /// the configuration's leave to do so.
    pub open spec fn heads_respect_config(self) -> bool {
        forall|i: int|
            0 <= i < self.messages.len() ==> (#[trigger] self.messages[i] matches Message::Head {
                keep_alive,
                ..
            } ==> (keep_alive ==> self.cfg.keep_alive_enabled()))
    }

    /// Whether the i-th response answers the i-th request, for every
    /// response queued so far.
    pub open spec fn answers_in_order(self) -> bool {
        forall|i: int| 0 <= i < self.answers.len() ==> #[trigger] self.answers[i] == i + 1
    }

    /// What holds of every state a dispatcher can reach.
    pub open spec fn wf(self) -> bool {
        // at most one request is with the services, and every earlier one
        // has its response queued; only a connection that shuts down may
        // leave its last request unanswered
        &&& self.answers.len() <= self.accepted <= self.answers.len() + 1
        &&& (self.in_flight() ==> self.accepted == self.answers.len() + 1)
        &&& (self.state == State::Normal || self.state == State::SendPayload ==> self.accepted
            == self.answers.len())
        // the responses answer the requests in the order of their arrival
        &&& self.answers_in_order()
        // a body sender exists only while a request is being served
        &&& (self.payload is Some ==> self.state == State::ExpectCall || self.state
            == State::ServiceCall || self.state == State::SendPayload)
        // the idle timer is armed only while idle with an empty read buffer
        &&& (self.ka_timer is Some ==> self.state == State::Normal && self.read_len == 0
            && self.ka_timer == Some(self.ka_expire))
        // keep-alive needs the configuration's leave and a working write half
        &&& (self.flags.keepalive ==> self.cfg.keep_alive_enabled()
            && !self.flags.write_disconnect && self.state != State::Shutdown)
        // nothing is left to write when a request is awaited
        &&& (self.state == State::Normal ==> self.flushed() && !self.response_done)
        &&& (self.response_done ==> self.state == State::SendPayload)
        &&& (self.flags.shutdown <==> self.state == State::Shutdown)
        &&& (self.flags.upgrade_pending <==> self.state == State::Upgrade)
        &&& (self.disconnect_deadline is Some <==> self.state == State::Shutdown)
        &&& (self.flags.write_disconnect ==> self.state == State::Shutdown && self.flushed())
        &&& (self.outcome is Some ==> self.state == State::Shutdown && self.outcome == Some(
            self.verdict(),
        ))
        // a failure is never followed by another exchange
        &&& (self.error is Some ==> !self.flags.keepalive && self.state != State::Normal)
        &&& (!self.cfg.keep_alive_enabled() ==> self.accepted <= 1)
        &&& (!self.flags.started ==> (self.state == State::Normal || self.state
            == State::Shutdown) && self.accepted == 0 && self.flushed())
        // without keep-alive a connection serves one request
        &&& (self.flags.started && !self.cfg.keep_alive_enabled() ==> self.state
            != State::Normal)
        &&& self.flags.polled
        &&& self.read_len <= self.cfg.max_read_buf
        &&& self.discarded <= MAX_DISCARD
        &&& self.heads_respect_config()
    }
}

} // verus!

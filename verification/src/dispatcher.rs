//! The per-connection dispatcher: the executable form of the state machine
//! in [`crate::model`].
//!
//! A dispatcher owns the stream and keeps the books of its two buffers. It
//! performs no I/O itself: the caller reads, decodes, runs the services,
//! encodes and flushes as the dispatcher's queries say, and reports each
//! outcome through [`Dispatcher::handle`].

use std::collections::VecDeque;
use vstd::prelude::*;
use crate::config::{PeerAddr, ServiceConfig};
use crate::error::{DispatchError, PayloadError};
use crate::event::{
    BodyOutcome,
    Command,
    Decoded,
    Event,
    ExpectOutcome,
    FlushOutcome,
    PayloadStatus,
    ReadOutcome,
    ServiceOutcome,
    ShutdownOutcome,
};
use crate::laws::{lemma_initial_wf, lemma_step_preserves_wf};
use crate::message::{BodySize, Framing, Message, RequestHead, ResponseHead, Version};
use crate::message::STATUS_BAD_REQUEST;
use crate::model::{Flags, Model, Outcome, State, MAX_DISCARD};

verus! {

/// The state machine and bookkeeping of one connection.
pub struct Dispatcher<Io> {
    io: Io,
    cfg: ServiceConfig,
    has_upgrade: bool,
    peer_addr: Option<PeerAddr>,
    read_len: usize,
    write_len: usize,
    state: State,
    payload: Option<PayloadStatus>,
    messages: VecDeque<Message>,
    ka_expire: u64,
    ka_timer: Option<u64>,
    flags: Flags,
    version: Version,
    response_done: bool,
    body_left: Option<u64>,
    discarded: usize,
    disconnect_deadline: Option<u64>,
    error: Option<DispatchError>,
    outcome: Option<Outcome>,
    accepted: Ghost<nat>,
    answers: Ghost<Seq<nat>>,
}

impl<Io> View for Dispatcher<Io> {
    type V = Model;

    closed spec fn view(&self) -> Model {
        Model {
            cfg: self.cfg,
            has_upgrade: self.has_upgrade,
            peer_addr: self.peer_addr,
            read_len: self.read_len,
            write_len: self.write_len,
            state: self.state,
            payload: self.payload,
            messages: self.messages@,
            ka_expire: self.ka_expire,
            ka_timer: self.ka_timer,
            flags: self.flags,
            version: self.version,
            response_done: self.response_done,
            body_left: self.body_left,
            discarded: self.discarded,
            disconnect_deadline: self.disconnect_deadline,
            error: self.error,
            outcome: self.outcome,
            accepted: self.accepted@,
            answers: self.answers@,
        }
    }
}

impl<Io> Dispatcher<Io> {
    /// The stream the dispatcher owns.
    pub closed spec fn stream(&self) -> Io {
        self.io
    }

    /// Takes charge of a connection accepted at `now`: the dispatcher awaits
    /// a request, with the idle timer armed for the client's first head.
    pub(crate) fn new(
        io: Io,
        cfg: ServiceConfig,
        has_upgrade: bool,
        peer_addr: Option<PeerAddr>,
        now: u64,
    ) -> (d: Dispatcher<Io>)
        requires
            now + cfg.client_request_timeout <= u64::MAX,
        ensures
            d@ == Model::initial(cfg, has_upgrade, peer_addr, now),
            d@.wf(),
            d.stream() == io,
    {
        let expire: u64 = now + cfg.client_request_timeout;
        proof {
            lemma_initial_wf(cfg, has_upgrade, peer_addr, now);
        }
        Dispatcher {
            io,
            cfg,
            has_upgrade,
            peer_addr,
            read_len: 0,
            write_len: 0,
            state: State::Normal,
            payload: None,
            messages: VecDeque::new(),
            ka_expire: expire,
            ka_timer: Some(expire),
            flags: Flags {
                keepalive: cfg.keep_alive > 0,
                polled: true,
                shutdown: false,
                read_disconnect: false,
                write_disconnect: false,
                upgrade_pending: false,
                started: false,
            },
            version: Version::Http11,
            response_done: false,
            body_left: None,
            discarded: 0,
            disconnect_deadline: None,
            error: None,
            outcome: None,
            accepted: Ghost(0nat),
            answers: Ghost(Seq::empty()),
        }
    }

    fn blame(&mut self, kind: DispatchError)
        ensures
            final(self)@ == old(self)@.blame(kind),
            final(self).stream() == old(self).stream(),
    {
        if self.error.is_none() {
            self.error = Some(kind);
        }
    }

    fn verdict(&self) -> (o: Outcome)
        ensures
            o == self@.verdict(),
    {
        match self.error {
            Some(kind) => Outcome::Failed(kind),
            None => Outcome::Closed,
        }
    }

    fn enter_shutdown(&mut self, now: u64)
        requires
            now + old(self).cfg.client_disconnect_timeout <= u64::MAX,
        ensures
            final(self)@ == old(self)@.enter_shutdown(now),
            final(self).stream() == old(self).stream(),
    {
        self.state = State::Shutdown;
        self.flags.shutdown = true;
        self.flags.keepalive = false;
        self.ka_timer = None;
        self.payload = None;
        self.response_done = false;
        self.disconnect_deadline = Some(now + self.cfg.client_disconnect_timeout);
    }

    fn settle(&mut self, now: u64)
        requires
            now + old(self).cfg.client_disconnect_timeout <= u64::MAX,
            now + old(self).cfg.keep_alive <= u64::MAX,
        ensures
            final(self)@ == old(self)@.settle(now),
            final(self).stream() == old(self).stream(),
    {
        let complete = self.state == State::SendPayload && self.response_done
            && self.messages.len() == 0 && self.write_len == 0 && self.payload.is_none();
        if complete {
            if self.flags.keepalive {
                let expire: u64 = now + self.cfg.keep_alive;
                self.state = State::Normal;
                self.ka_expire = expire;
                self.ka_timer = if self.read_len == 0 {
                    Some(expire)
                } else {
                    None
                };
                self.response_done = false;
                self.discarded = 0;
            } else {
                self.enter_shutdown(now);
            }
        }
    }

    fn fail_payload(&self, err: PayloadError) -> (cmd: Command)
        ensures
            cmd == self@.fail_payload(err),
    {
        match self.payload {
            Some(PayloadStatus::Dropped) => Command::Idle,
            Some(_) => Command::FailPayload(err),
            None => Command::Idle,
        }
    }

    fn send_response(&mut self, res: ResponseHead, keep_alive: bool)
        ensures
            final(self)@ == old(self)@.send_response(res, keep_alive),
            final(self).stream() == old(self).stream(),
    {
        self.messages.push_back(Message::Head { status: res.status, body: res.body, keep_alive });
        self.flags.keepalive = keep_alive;
        self.answers = Ghost(self.answers@.push(self.accepted@));
        self.state = State::SendPayload;
        self.response_done = res.body.is_empty();
        self.body_left = res.body.announced();
    }

    fn reject_request(&mut self)
        ensures
            final(self)@ == old(self)@.reject_request(),
            final(self).stream() == old(self).stream(),
    {
        self.messages.push_back(
            Message::Head { status: STATUS_BAD_REQUEST, body: BodySize::Empty, keep_alive: false },
        );
        self.flags.keepalive = false;
        self.flags.read_disconnect = true;
        self.flags.started = true;
        self.state = State::SendPayload;
        self.response_done = true;
        self.read_len = 0;
        self.ka_timer = None;
        self.payload = None;
        self.blame(DispatchError::Parse);
    }

    fn on_read_closed(&mut self, failed: bool, now: u64) -> (cmd: Command)
        requires
            now + old(self).cfg.client_disconnect_timeout <= u64::MAX,
            now + old(self).cfg.keep_alive <= u64::MAX,
        ensures
            (final(self)@, cmd) == old(self)@.on_read_closed(failed, now),
            final(self).stream() == old(self).stream(),
    {
        let cmd = self.fail_payload(PayloadError::Incomplete);
        let ghost before = self@;
        self.flags.read_disconnect = true;
        if failed {
            self.blame(DispatchError::Io);
        }
        assert(self@ == (Model {
            flags: Flags { read_disconnect: true, ..before.flags },
            error: if failed {
                before.first_error(DispatchError::Io)
            } else {
                before.error
            },
            ..before
        }));
        if self.state == State::Normal {
            if failed || self.read_len == 0 {
                self.enter_shutdown(now);
            }
            Command::Idle
        } else {
            self.payload = None;
            self.flags.keepalive = false;
            self.settle(now);
            cmd
        }
    }

    fn on_read(&mut self, r: ReadOutcome, now: u64) -> (cmd: Command)
        requires
            old(self)@.accepts(Event::Read(r), now),
        ensures
            (final(self)@, cmd) == old(self)@.on_read(r, now),
            final(self).stream() == old(self).stream(),
    {
        if self.state == State::Shutdown || self.flags.read_disconnect {
            return Command::Idle;
        }
        match r {
            ReadOutcome::Pending => Command::Idle,
            ReadOutcome::Ready(n) => {
                self.read_len = self.read_len + n;
                if n > 0 {
                    self.ka_timer = None;
                }
                Command::Idle
            },
            ReadOutcome::Eof => self.on_read_closed(false, now),
            ReadOutcome::Failed => self.on_read_closed(true, now),
        }
    }

    fn on_head(&mut self, head: RequestHead, consumed: usize, now: u64) -> (cmd: Command)
        requires
            consumed <= old(self).view().read_len,
        ensures
            (final(self)@, cmd) == old(self)@.on_head(head, consumed, now),
            final(self).stream() == old(self).stream(),
    {
        if self.state != State::Normal {
            return Command::Idle;
        }
        self.read_len = self.read_len - consumed;
        self.ka_timer = None;
        self.flags.started = true;
        self.version = head.version;
        match head.framing() {
            Err(_) => {
                self.reject_request();
                Command::Idle
            },
            Ok(framing) => {
                if head.upgrade() && self.has_upgrade {
                    self.state = State::Upgrade;
                    self.flags.upgrade_pending = true;
                    Command::Upgrade
                } else {
                    self.flags.keepalive = self.cfg.keep_alive > 0 && head.keep_alive()
                        && !self.flags.read_disconnect;
                    self.payload = if framing == Framing::NoBody {
                        None
                    } else {
                        Some(PayloadStatus::Read)
                    };
                    self.discarded = 0;
                    self.accepted = Ghost(self.accepted@ + 1);
                    if head.expect_continue {
                        self.state = State::ExpectCall;
                        Command::CallExpect
                    } else {
                        self.state = State::ServiceCall;
                        Command::CallService
                    }
                }
            },
        }
    }

    fn body_open(&self) -> (r: bool)
        ensures
            r == self@.body_open(),
    {
        self.payload.is_some() && (self.state == State::ServiceCall || self.state
            == State::SendPayload)
    }

    fn on_chunk(&mut self, len: usize, consumed: usize, now: u64) -> (cmd: Command)
        requires
            consumed <= old(self).view().read_len,
            now + old(self).cfg.client_disconnect_timeout <= u64::MAX,
            now + old(self).cfg.keep_alive <= u64::MAX,
        ensures
            (final(self)@, cmd) == old(self)@.on_chunk(len, consumed, now),
            final(self).stream() == old(self).stream(),
    {
        if !self.body_open() {
            return Command::Idle;
        }
        self.read_len = self.read_len - consumed;
        if self.payload == Some(PayloadStatus::Dropped) {
            if self.discarded > MAX_DISCARD || len > MAX_DISCARD - self.discarded {
                self.payload = None;
                self.flags.keepalive = false;
                self.flags.read_disconnect = true;
                self.settle(now);
            } else {
                self.discarded = self.discarded + len;
            }
            Command::Discard
        } else {
            Command::FeedPayload
        }
    }

    fn on_body_end(&mut self, consumed: usize, now: u64) -> (cmd: Command)
        requires
            consumed <= old(self).view().read_len,
            now + old(self).cfg.client_disconnect_timeout <= u64::MAX,
            now + old(self).cfg.keep_alive <= u64::MAX,
        ensures
            (final(self)@, cmd) == old(self)@.on_body_end(consumed, now),
            final(self).stream() == old(self).stream(),
    {
        if !self.body_open() {
            return Command::Idle;
        }
        let cmd = if self.payload == Some(PayloadStatus::Dropped) {
            Command::Idle
        } else {
            Command::FeedEof
        };
        self.read_len = self.read_len - consumed;
        self.payload = None;
        self.settle(now);
        cmd
    }

    fn on_invalid(&mut self, consumed: usize, now: u64) -> (cmd: Command)
        requires
            consumed <= old(self).view().read_len,
            now + old(self).cfg.client_disconnect_timeout <= u64::MAX,
        ensures
            (final(self)@, cmd) == old(self)@.on_invalid(consumed, now),
            final(self).stream() == old(self).stream(),
    {
        if self.state == State::Normal {
            self.reject_request();
            Command::Idle
        } else if self.body_open() {
            let cmd = self.fail_payload(PayloadError::EncodingCorrupted);
            self.read_len = self.read_len - consumed;
            self.flags.read_disconnect = true;
            self.blame(DispatchError::PayloadFraming);
            self.enter_shutdown(now);
            cmd
        } else {
            Command::Idle
        }
    }

    fn on_need_more(&mut self, consumed: usize, now: u64) -> (cmd: Command)
        requires
            consumed <= old(self).view().read_len,
            now + old(self).cfg.client_disconnect_timeout <= u64::MAX,
        ensures
            (final(self)@, cmd) == old(self)@.on_need_more(consumed, now),
            final(self).stream() == old(self).stream(),
    {
        if self.state == State::Normal {
            self.read_len = self.read_len - consumed;
            if self.flags.read_disconnect {
                self.enter_shutdown(now);
            }
        } else if self.body_open() {
            self.read_len = self.read_len - consumed;
        }
        Command::Idle
    }

    fn on_decoded(&mut self, item: Decoded, consumed: usize, now: u64) -> (cmd: Command)
        requires
            old(self)@.accepts(Event::Decoded { item, consumed }, now),
        ensures
            (final(self)@, cmd) == old(self)@.on_decoded(item, consumed, now),
            final(self).stream() == old(self).stream(),
    {
        match item {
            Decoded::Head(head) => self.on_head(head, consumed, now),
            Decoded::Chunk(len) => self.on_chunk(len, consumed, now),
            Decoded::Eof => self.on_body_end(consumed, now),
            Decoded::NeedMore => self.on_need_more(consumed, now),
            Decoded::Invalid => self.on_invalid(consumed, now),
        }
    }

    fn on_expect(&mut self, o: ExpectOutcome, now: u64) -> (cmd: Command)
        ensures
            (final(self)@, cmd) == old(self)@.on_expect(o, now),
            final(self).stream() == old(self).stream(),
    {
        if self.state != State::ExpectCall {
            return Command::Idle;
        }
        match o {
            ExpectOutcome::Continue => {
                self.messages.push_back(Message::Continue);
                self.state = State::ServiceCall;
                Command::CallService
            },
            ExpectOutcome::Reject(res) => {
                self.payload = None;
                self.flags.read_disconnect = true;
                self.blame(DispatchError::ServiceCall);
                self.send_response(res, false);
                Command::Idle
            },
        }
    }

    fn on_service(&mut self, o: ServiceOutcome, now: u64) -> (cmd: Command)
        ensures
            (final(self)@, cmd) == old(self)@.on_service(o, now),
            final(self).stream() == old(self).stream(),
    {
        if self.state != State::ServiceCall {
            return Command::Idle;
        }
        match o {
            ServiceOutcome::Response(res) => {
                let keep_alive = self.flags.keepalive && res.body.delimited(self.version)
                    && !self.flags.write_disconnect;
                self.send_response(res, keep_alive);
            },
            ServiceOutcome::Error(res) => {
                self.blame(DispatchError::ServiceCall);
                self.send_response(res, false);
            },
        }
        Command::Idle
    }

    fn on_body(&mut self, o: BodyOutcome, now: u64) -> (cmd: Command)
        requires
            now + old(self).cfg.client_disconnect_timeout <= u64::MAX,
        ensures
            (final(self)@, cmd) == old(self)@.on_body(o, now),
            final(self).stream() == old(self).stream(),
    {
        if self.state != State::SendPayload || self.response_done {
            return Command::Idle;
        }
        match o {
            BodyOutcome::Chunk(bytes) => {
                match self.body_left {
                    Some(left) => {
                        let len: usize = bytes.len();
                        if len as u64 <= left {
                            self.body_left = Some(left - len as u64);
                        } else {
                            self.body_left = Some(0);
                            self.flags.keepalive = false;
                        }
                    },
                    None => {},
                }
                self.messages.push_back(Message::Chunk(bytes));
                Command::Idle
            },
            BodyOutcome::Eof => {
                match self.body_left {
                    Some(left) => {
                        if left > 0 {
                            self.flags.keepalive = false;
                        }
                    },
                    None => {},
                }
                self.messages.push_back(Message::Eof);
                self.response_done = true;
                Command::Idle
            },
            BodyOutcome::Failed => {
                let cmd = self.fail_payload(PayloadError::Incomplete);
                self.blame(DispatchError::ServiceCall);
                self.enter_shutdown(now);
                cmd
            },
        }
    }

    fn on_payload(&mut self, status: PayloadStatus) -> (cmd: Command)
        ensures
            (final(self)@, cmd) == old(self)@.on_payload(status),
            final(self).stream() == old(self).stream(),
    {
        if self.payload.is_some() {
            self.payload = Some(status);
        }
        Command::Idle
    }

    fn on_encoded(&mut self, n: usize, now: u64) -> (cmd: Command)
        requires
            old(self)@.accepts(Event::Encoded(n), now),
        ensures
            (final(self)@, cmd) == old(self)@.on_encoded(n, now),
            final(self).stream() == old(self).stream(),
    {
        if self.messages.len() == 0 || self.flags.write_disconnect {
            return Command::Idle;
        }
        let _ = self.messages.pop_front();
        self.write_len = self.write_len + n;
        self.settle(now);
        Command::Idle
    }

    fn on_flush(&mut self, o: FlushOutcome, now: u64) -> (cmd: Command)
        requires
            old(self)@.accepts(Event::Flush(o), now),
        ensures
            (final(self)@, cmd) == old(self)@.on_flush(o, now),
            final(self).stream() == old(self).stream(),
    {
        if self.flags.write_disconnect {
            return Command::Idle;
        }
        match o {
            FlushOutcome::Pending => Command::Idle,
            FlushOutcome::Ready(n) => {
                self.write_len = self.write_len - n;
                self.settle(now);
                Command::Idle
            },
            FlushOutcome::Failed => {
                let cmd = self.fail_payload(PayloadError::Incomplete);
                self.flags.write_disconnect = true;
                self.messages.clear();
                self.write_len = 0;
                self.blame(DispatchError::Io);
                self.enter_shutdown(now);
                cmd
            },
        }
    }

    fn on_shutdown(&mut self, o: ShutdownOutcome) -> (cmd: Command)
        ensures
            (final(self)@, cmd) == old(self)@.on_shutdown(o),
            final(self).stream() == old(self).stream(),
    {
        if !self.can_shutdown() {
            return Command::Idle;
        }
        match o {
            ShutdownOutcome::Pending => {},
            ShutdownOutcome::Ready => {
                self.outcome = Some(self.verdict());
                self.flags.read_disconnect = true;
                self.flags.write_disconnect = true;
                self.messages.clear();
                self.write_len = 0;
            },
            ShutdownOutcome::Failed => {
                self.blame(DispatchError::Io);
                self.outcome = Some(self.verdict());
            },
        }
        Command::Idle
    }

    fn on_tick(&mut self, now: u64) -> (cmd: Command)
        requires
            now + old(self).cfg.client_disconnect_timeout <= u64::MAX,
        ensures
            (final(self)@, cmd) == old(self)@.on_tick(now),
            final(self).stream() == old(self).stream(),
    {
        if self.state == State::Shutdown {
            match self.disconnect_deadline {
                Some(d) => {
                    if now >= d {
                        self.blame(DispatchError::Timeout);
                        self.outcome = Some(self.verdict());
                    }
                },
                None => {},
            }
        } else if self.state == State::Normal && now >= self.ka_expire {
            self.blame(DispatchError::Timeout);
            self.enter_shutdown(now);
        }
        Command::Idle
    }

    /// Takes note of `ev`, reported at `now`, and says what the caller is to
    /// do about it. The new state and the command are those of the model's
    /// step; a well-formed dispatcher stays well formed.
    pub fn handle(&mut self, ev: Event, now: u64) -> (cmd: Command)
        requires
            old(self)@.accepts(ev, now),
        ensures
            (final(self)@, cmd) == old(self)@.step(ev, now),
            old(self)@.wf() ==> final(self)@.wf(),
            final(self).stream() == old(self).stream(),
    {
        proof {
            if self@.wf() {
                lemma_step_preserves_wf(self@, ev, now);
            }
        }
        if self.is_terminated() {
            return Command::Idle;
        }
        match ev {
            Event::Read(r) => self.on_read(r, now),
            Event::Decoded { item, consumed } => self.on_decoded(item, consumed, now),
            Event::Expect(o) => self.on_expect(o, now),
            Event::Service(o) => self.on_service(o, now),
            Event::Body(o) => self.on_body(o, now),
            Event::Payload(status) => self.on_payload(status),
            Event::Encoded(n) => self.on_encoded(n, now),
            Event::Flush(o) => self.on_flush(o, now),
            Event::Shutdown(o) => self.on_shutdown(o),
            Event::Tick => self.on_tick(now),
        }
    }

    /// Whether `ev`, reported at `now`, fits the buffers and the clock, so
    /// that [`Dispatcher::handle`] may be called with it.
    pub fn accepts(&self, ev: &Event, now: u64) -> (ok: bool)
        ensures
            ok == self@.accepts(*ev, now),
    {
        if now > u64::MAX - self.cfg.keep_alive {
            return false;
        }
        if now > u64::MAX - self.cfg.client_disconnect_timeout {
            return false;
        }
        match ev {
            Event::Read(ReadOutcome::Ready(n)) => self.read_len <= self.cfg.max_read_buf && *n
                <= self.cfg.max_read_buf - self.read_len,
            Event::Decoded { item, consumed } => *consumed <= self.read_len,
            Event::Encoded(n) => *n <= usize::MAX - self.write_len,
            Event::Flush(FlushOutcome::Ready(n)) => *n <= self.write_len,
            _ => true,
        }
    }

    /// Whether the dispatcher is done with the connection.
    pub fn is_terminated(&self) -> (r: bool)
        ensures
            r == self@.terminated(),
    {
        self.outcome.is_some() || self.state == State::Upgrade
    }

    /// Whether the stream's shutdown handshake is due.
    pub fn can_shutdown(&self) -> (r: bool)
        ensures
            r == self@.can_shutdown(),
    {
        self.outcome.is_none() && self.state == State::Shutdown && (self.flags.write_disconnect
            || (self.messages.len() == 0 && self.write_len == 0))
    }

    /// Whether the stream should be read now.
    pub fn can_read(&self) -> (r: bool)
        ensures
            r == self@.can_read(),
    {
        !self.is_terminated() && !self.flags.read_disconnect && self.read_len
            < self.cfg.max_read_buf && (self.state == State::Normal || (self.body_open()
            && self.payload != Some(PayloadStatus::Pause)))
    }

    /// Whether the decoder may run now; it then runs until it needs more
    /// input.
    pub fn can_decode(&self) -> (r: bool)
        ensures
            r == self@.can_decode(),
    {
        !self.is_terminated() && ((self.state == State::Normal && self.read_len > 0) || (
        self.body_open() && self.payload != Some(PayloadStatus::Pause)))
    }

    /// How many more bytes the read buffer may take.
    pub fn read_capacity(&self) -> (n: usize)
        ensures
            n == (if self@.read_len <= self@.cfg.max_read_buf {
                self@.cfg.max_read_buf - self@.read_len
            } else {
                0
            }),
    {
        if self.read_len <= self.cfg.max_read_buf {
            self.cfg.max_read_buf - self.read_len
        } else {
            0
        }
    }

    /// The time at which the caller must report a `Tick`, if any.
    pub fn deadline(&self) -> (t: Option<u64>)
        ensures
            t == self@.deadline(),
    {
        if self.is_terminated() {
            None
        } else if self.state == State::Shutdown {
            self.disconnect_deadline
        } else if self.state == State::Normal {
            Some(self.ka_expire)
        } else {
            None
        }
    }

    /// The oldest message waiting for the encoder, if any. Once it is
    /// encoded the caller reports `Event::Encoded`, which takes it off the
    /// queue.
    pub fn next_message(&self) -> (m: Option<&Message>)
        ensures
            self@.messages.len() == 0 ==> m is None,
            self@.messages.len() > 0 ==> m == Some(&self@.messages[0]),
    {
        if self.messages.len() > 0 {
            Some(&self.messages[0])
        } else {
            None
        }
    }

    /// How many messages wait for the encoder.
    pub fn pending_messages(&self) -> (n: usize)
        ensures
            n == self@.messages.len(),
    {
        self.messages.len()
    }

    /// Where the connection stands.
    pub fn state(&self) -> (r: State)
        ensures
            r == self@.state,
    {
        self.state
    }

    /// The flags.
    pub fn flags(&self) -> (r: Flags)
        ensures
            r == self@.flags,
    {
        self.flags
    }

    /// The status of the current request body's receiver, while the body
    /// has a sender.
    pub fn payload(&self) -> (r: Option<PayloadStatus>)
        ensures
            r == self@.payload,
    {
        self.payload
    }

    /// Bytes in the read buffer that the decoder has not consumed.
    pub fn read_len(&self) -> (r: usize)
        ensures
            r == self@.read_len,
    {
        self.read_len
    }

    /// Bytes in the write buffer that have not been flushed.
    pub fn write_len(&self) -> (r: usize)
        ensures
            r == self@.write_len,
    {
        self.write_len
    }

    /// The time by which the next request head must have arrived.
    pub fn ka_expire(&self) -> (r: u64)
        ensures
            r == self@.ka_expire,
    {
        self.ka_expire
    }

    /// The deadline of the idle timer, while it is armed.
    pub fn ka_timer(&self) -> (r: Option<u64>)
        ensures
            r == self@.ka_timer,
    {
        self.ka_timer
    }

    /// Whether the whole response is queued.
    pub fn response_done(&self) -> (r: bool)
        ensures
            r == self@.response_done,
    {
        self.response_done
    }

    /// The first failure that doomed the connection, if any.
    pub fn error(&self) -> (r: Option<DispatchError>)
        ensures
            r == self@.error,
    {
        self.error
    }

    /// How the connection ended, once it has.
    pub fn outcome(&self) -> (r: Option<Outcome>)
        ensures
            r == self@.outcome,
    {
        self.outcome
    }

    /// The peer's address, if it was known when the connection was accepted.
    pub fn peer_addr(&self) -> (r: Option<PeerAddr>)
        ensures
            r == self@.peer_addr,
    {
        self.peer_addr
    }

    /// The server's configuration.
    pub fn config(&self) -> (r: ServiceConfig)
        ensures
            r == self@.cfg,
    {
        self.cfg
    }

    /// The stream.
    pub fn io(&self) -> (r: &Io)
        ensures
            *r == self.stream(),
    {
        &self.io
    }

    /// The stream, for reading and writing. The books are untouched.
    pub fn io_mut(&mut self) -> (r: &mut Io)
        ensures
            *r == old(self).stream(),
            final(self).stream() == *final(r),
            final(self)@ == old(self)@,
    {
        &mut self.io
    }

    /// Gives the stream up to the upgrade service. The dispatcher ends here.
    pub fn into_upgrade(self) -> (io: Io)
        requires
            self@.state == State::Upgrade,
        ensures
            io == self.stream(),
    {
        self.io
    }
}

} // verus!

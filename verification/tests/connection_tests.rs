use h1_transport::codec::Frame;
use h1_transport::config::ServiceConfig;
use h1_transport::connection::Connection;
use h1_transport::encoder::Header;
use h1_transport::error::DispatchError;
use h1_transport::event::{
    BodyOutcome, Command, Event, ExpectOutcome, ReadOutcome, ServiceOutcome, ShutdownOutcome,
};
use h1_transport::message::{BodySize, Message, ResponseHead, REASON_BAD_REQUEST};
use h1_transport::model::{Outcome, State};
use h1_transport::readiness::{ReadyStep, Readiness};
use h1_transport::request::{Limits, Request};
use h1_transport::service::H1ServiceHandler;

const DATE: &[u8] = b"Sun, 06 Nov 1994 08:49:37 GMT";
const LIMITS: Limits = Limits { max_head: 4_096, max_headers: 16 };

/// What the application answers.
#[derive(Clone)]
struct Reply {
    status: u16,
    reason: &'static str,
    size: BodySize,
    body: Vec<Vec<u8>>,
    headers: Vec<Header>,
}

fn reply(status: u16, reason: &'static str, body: &[u8]) -> Reply {
    Reply {
        status,
        reason,
        size: BodySize::Sized(body.len() as u64),
        body: if body.is_empty() { Vec::new() } else { vec![body.to_vec()] },
        headers: Vec::new(),
    }
}

/// What was seen of a connection.
#[derive(Default)]
struct Seen {
    /// The bytes written to the stream.
    wire: Vec<u8>,
    /// The targets of the requests handed to the application.
    served: Vec<String>,
    /// The bodies handed to the application, a body for each request.
    bodies: Vec<Vec<u8>>,
    /// The request handed to the upgrade service.
    upgraded: Option<String>,
}

/// A connection with the services around it, driven step by step.
struct Server<S, X> {
    conn: Connection<&'static str>,
    service: S,
    expect: X,
    seen: Seen,
    /// The reply in the encoder's hands.
    current: Option<Reply>,
    /// The request that waits for its body before it is served.
    waiting: Option<Request>,
    now: u64,
}

fn target(req: &Request) -> String {
    String::from_utf8(req.target.clone()).unwrap()
}

impl<S, X> Server<S, X>
where
    S: FnMut(&Request, &[u8]) -> Result<Reply, Reply>,
    X: FnMut(&Request) -> Result<(), Reply>,
{
    fn new(keep_alive: u64, upgrade: bool, service: S, expect: X) -> Self {
        let cfg = ServiceConfig::new(keep_alive, 3_000, 1_000, false, None, 65_536);
        let up = if upgrade { Some(0u8) } else { None };
        let mut handler: H1ServiceHandler<u8, u8, u8, u8> =
            H1ServiceHandler::new(cfg, 0, 0, up, None);
        let ready = [Readiness::Ready, Readiness::Ready, Readiness::Ready];
        assert_eq!(handler.poll_ready(&ready), ReadyStep::Ready);
        let conn = Connection::new(handler.call("socket", None, 0), LIMITS);
        Server {
            conn,
            service,
            expect,
            seen: Seen::default(),
            current: None,
            waiting: None,
            now: 0,
        }
    }

    fn signal(&mut self, ev: Event) -> Command {
        assert!(self.conn.clock_fits(self.now));
        self.conn.signal(ev, self.now)
    }

    fn respond(&mut self, answer: Result<Reply, Reply>) {
        let failed = answer.is_err();
        let reply = match answer {
            Ok(r) => r,
            Err(r) => r,
        };
        let head = ResponseHead { status: reply.status, body: reply.size };
        let chunks = reply.body.clone();
        self.current = Some(reply);
        if failed {
            self.signal(Event::Service(ServiceOutcome::Error(head)));
        } else {
            self.signal(Event::Service(ServiceOutcome::Response(head)));
        }
        for chunk in chunks {
            self.signal(Event::Body(BodyOutcome::Chunk(chunk)));
        }
        self.signal(Event::Body(BodyOutcome::Eof));
    }

    fn serve(&mut self, req: Request) {
        self.seen.served.push(target(&req));
        if self.conn.dispatcher().payload().is_some() {
            // the application reads the body before it answers
            self.seen.bodies.push(Vec::new());
            self.waiting = Some(req);
        } else {
            self.seen.bodies.push(Vec::new());
            let answer = (self.service)(&req, b"");
            self.respond(answer);
        }
    }

    fn decode_all(&mut self) {
        while self.conn.dispatcher().can_decode() {
            let (frame, cmd) = self.conn.decode(self.now);
            match (frame, cmd) {
                (Frame::Head(req, _), Command::CallService) => self.serve(req),
                (Frame::Head(req, _), Command::CallExpect) => match (self.expect)(&req) {
                    Ok(()) => {
                        let cmd = self.signal(Event::Expect(ExpectOutcome::Continue));
                        assert_eq!(cmd, Command::CallService);
                        self.serve(req);
                    }
                    Err(refusal) => {
                        let head = ResponseHead { status: refusal.status, body: refusal.size };
                        self.current = Some(refusal);
                        self.signal(Event::Expect(ExpectOutcome::Reject(head)));
                    }
                },
                (Frame::Head(req, _), Command::Upgrade) => {
                    self.seen.upgraded = Some(target(&req));
                }
                (Frame::Head(..), _) => {}
                (Frame::Chunk(bytes), Command::FeedPayload) => {
                    self.seen.bodies.last_mut().unwrap().extend_from_slice(&bytes);
                }
                (Frame::Chunk(_), _) => {}
                (Frame::Eof, _) => {
                    if let Some(req) = self.waiting.take() {
                        let body = self.seen.bodies.last().unwrap().clone();
                        let answer = (self.service)(&req, &body);
                        self.respond(answer);
                    }
                }
                (Frame::NeedMore, _) => break,
                (Frame::Invalid, _) => break,
            }
        }
    }

    fn write_all(&mut self) {
        loop {
            let (reason, headers): (Vec<u8>, Vec<Header>) =
                match (self.conn.dispatcher().next_message(), &self.current) {
                    (Some(Message::Head { .. }), Some(r)) => {
                        (r.reason.as_bytes().to_vec(), r.headers.clone())
                    }
                    (Some(Message::Head { .. }), None) => {
                        (REASON_BAD_REQUEST.as_bytes().to_vec(), Vec::new())
                    }
                    _ => (Vec::new(), Vec::new()),
                };
            let was_head = matches!(self.conn.dispatcher().next_message(), Some(Message::Head { .. }));
            if !self.conn.encode_next(&reason, &headers, DATE, self.now) {
                break;
            }
            if was_head {
                self.current = None;
            }
        }
        let out = self.conn.pending_output().to_vec();
        if !out.is_empty() {
            self.seen.wire.extend_from_slice(&out);
            assert!(self.conn.written(out.len(), self.now));
        }
    }

    /// The client sends `bytes`; the server does what it can.
    fn client_sends(&mut self, bytes: &[u8]) {
        self.now += 1;
        if !self.conn.received(bytes, self.now) {
            return;
        }
        self.turn();
    }

    /// One scheduling round: decode, serve, write, and over again while a
    /// round makes progress.
    fn turn(&mut self) {
        loop {
            let before = (self.conn.dispatcher().read_len(), self.seen.wire.len());
            self.decode_all();
            self.write_all();
            let after = (self.conn.dispatcher().read_len(), self.seen.wire.len());
            if before == after {
                break;
            }
        }
    }

    fn wire(&self) -> String {
        String::from_utf8(self.seen.wire.clone()).unwrap()
    }
}

fn no_expect(_: &Request) -> Result<(), Reply> {
    Ok(())
}

fn date_line() -> String {
    format!("Date: {}\r\n", String::from_utf8(DATE.to_vec()).unwrap())
}

#[test]
fn simple_get_from_bytes_to_bytes() {
    let mut server = Server::new(5_000, false, |_: &Request, _: &[u8]| Ok(reply(200, "OK", b"OK")), no_expect);
    server.client_sends(b"GET /a HTTP/1.1\r\nHost: x\r\n\r\n");
    assert_eq!(
        server.wire(),
        format!("HTTP/1.1 200 OK\r\nContent-Length: 2\r\n{}\r\nOK", date_line())
    );
    assert_eq!(server.seen.served, vec!["/a".to_string()]);
    // the connection remains open
    assert_eq!(server.conn.dispatcher().state(), State::Normal);
    assert_eq!(server.conn.dispatcher().ka_timer(), Some(1 + 5_000));
    assert!(server.conn.dispatcher().can_read());
}

#[test]
fn pipelined_requests_from_bytes_to_bytes() {
    let mut server = Server::new(
        5_000,
        false,
        |req: &Request, _: &[u8]| Ok(reply(200, "OK", &req.target)),
        no_expect,
    );
    server.client_sends(b"GET /1 HTTP/1.1\r\nHost: x\r\n\r\nGET /2 HTTP/1.1\r\nHost: x\r\n\r\n");
    assert_eq!(server.seen.served, vec!["/1".to_string(), "/2".to_string()]);
    assert_eq!(
        server.wire(),
        format!(
            "HTTP/1.1 200 OK\r\nContent-Length: 2\r\n{d}\r\n/1\
             HTTP/1.1 200 OK\r\nContent-Length: 2\r\n{d}\r\n/2",
            d = date_line()
        )
    );
    assert_eq!(server.conn.dispatcher().state(), State::Normal);
    assert!(server.conn.pending_input().is_empty());
}

#[test]
fn expect_continue_accepted_from_bytes_to_bytes() {
    let mut server = Server::new(
        5_000,
        false,
        |_: &Request, body: &[u8]| Ok(reply(200, "OK", body)),
        no_expect,
    );
    server.client_sends(b"POST /up HTTP/1.1\r\nExpect: 100-continue\r\nContent-Length: 5\r\n\r\n");
    assert_eq!(server.wire(), "HTTP/1.1 100 Continue\r\n\r\n");
    assert_eq!(server.conn.dispatcher().state(), State::ServiceCall);
    server.client_sends(b"hel");
    server.client_sends(b"lo");
    assert_eq!(server.seen.bodies, vec![b"hello".to_vec()]);
    assert_eq!(
        server.wire(),
        format!(
            "HTTP/1.1 100 Continue\r\n\r\nHTTP/1.1 200 OK\r\nContent-Length: 5\r\n{}\r\nhello",
            date_line()
        )
    );
    // the connection is kept alive
    assert_eq!(server.conn.dispatcher().state(), State::Normal);
    assert!(server.conn.dispatcher().flags().keepalive);
}

#[test]
fn expect_rejected_from_bytes_to_bytes() {
    let mut server = Server::new(
        5_000,
        false,
        |_: &Request, _: &[u8]| Ok(reply(200, "OK", b"")),
        |_: &Request| Err(reply(417, "Expectation Failed", b"")),
    );
    server.client_sends(b"POST /up HTTP/1.1\r\nExpect: 100-continue\r\nContent-Length: 5\r\n\r\n");
    assert_eq!(
        server.wire(),
        format!(
            "HTTP/1.1 417 Expectation Failed\r\nContent-Length: 0\r\nConnection: close\r\n{}\r\n",
            date_line()
        )
    );
    assert!(server.seen.served.is_empty());
    // the body is not read, and the connection closes
    assert_eq!(server.conn.dispatcher().state(), State::Shutdown);
    server.client_sends(b"hello");
    assert!(server.conn.pending_input().is_empty());
    assert!(server.seen.bodies.is_empty());
    server.signal(Event::Shutdown(ShutdownOutcome::Ready));
    assert_eq!(
        server.conn.dispatcher().outcome(),
        Some(Outcome::Failed(DispatchError::ServiceCall))
    );
}

#[test]
fn upgrade_from_bytes_to_handoff() {
    let mut server = Server::new(5_000, true, |_: &Request, _: &[u8]| Ok(reply(200, "OK", b"")), no_expect);
    server.client_sends(
        b"GET /ws HTTP/1.1\r\nConnection: upgrade\r\nUpgrade: websocket\r\n\r\n\x81\x05hello",
    );
    assert_eq!(server.seen.upgraded, Some("/ws".to_string()));
    assert!(server.seen.served.is_empty());
    assert!(server.seen.wire.is_empty());
    assert_eq!(server.conn.dispatcher().state(), State::Upgrade);
    // no further dispatcher activity
    server.client_sends(b"more");
    assert_eq!(server.signal(Event::Tick), Command::Idle);
    assert!(server.seen.wire.is_empty());
    // the upgrade service gets the stream and what was read beyond the head
    let (io, rest) = server.conn.into_upgrade();
    assert_eq!(io, "socket");
    assert_eq!(rest, b"\x81\x05hello".to_vec());
}

#[test]
fn malformed_head_from_bytes_to_bytes() {
    let mut server = Server::new(5_000, false, |_: &Request, _: &[u8]| Ok(reply(200, "OK", b"")), no_expect);
    server.client_sends(b"GET / HTTP/9\r\n\r\n");
    assert_eq!(
        server.wire(),
        format!(
            "HTTP/1.1 400 Bad Request\r\nContent-Length: 0\r\nConnection: close\r\n{}\r\n",
            date_line()
        )
    );
    assert!(server.seen.served.is_empty());
    assert_eq!(server.conn.dispatcher().state(), State::Shutdown);
    assert!(server.conn.dispatcher().can_shutdown());
    server.signal(Event::Shutdown(ShutdownOutcome::Ready));
    assert_eq!(server.conn.dispatcher().outcome(), Some(Outcome::Failed(DispatchError::Parse)));
}

#[test]
fn head_with_both_framing_headers_gets_400() {
    let mut server = Server::new(5_000, false, |_: &Request, _: &[u8]| Ok(reply(200, "OK", b"")), no_expect);
    server.client_sends(
        b"POST / HTTP/1.1\r\nTransfer-Encoding: chunked\r\nContent-Length: 3\r\n\r\nabc",
    );
    assert!(server.wire().starts_with("HTTP/1.1 400 Bad Request\r\n"));
    assert!(server.wire().contains("\r\nConnection: close\r\n"));
    assert!(server.seen.served.is_empty());
    assert_eq!(server.conn.dispatcher().state(), State::Shutdown);
}

#[test]
fn responses_follow_pipelined_requests_with_bodies() {
    let mut input: Vec<u8> = Vec::new();
    for i in 0..8 {
        let body = format!("body-{}", i);
        if i % 2 == 0 {
            input.extend_from_slice(
                format!("POST /{} HTTP/1.1\r\nContent-Length: {}\r\n\r\n{}", i, body.len(), body)
                    .as_bytes(),
            );
        } else {
            input.extend_from_slice(
                format!(
                    "POST /{} HTTP/1.1\r\nTransfer-Encoding: chunked\r\n\r\n{:X}\r\n{}\r\n0\r\n\r\n",
                    i,
                    body.len(),
                    body
                )
                .as_bytes(),
            );
        }
    }
    let mut want = String::new();
    for i in 0..8 {
        want.push_str(&format!(
            "HTTP/1.1 200 OK\r\nContent-Length: 9\r\n{}\r\n/{}:body-{}",
            date_line(),
            i,
            i
        ));
    }
    // whatever the pieces in which the bytes arrive
    for cut in [1usize, 2, 3, 7, 64, input.len()] {
        let mut server = Server::new(
            5_000,
            false,
            |req: &Request, body: &[u8]| {
                let mut echo = req.target.clone();
                echo.push(b':');
                echo.extend_from_slice(body);
                Ok(reply(200, "OK", &echo))
            },
            no_expect,
        );
        for piece in input.chunks(cut) {
            server.client_sends(piece);
        }
        assert_eq!(server.wire(), want, "pieces of {} bytes", cut);
        let served: Vec<String> = (0..8).map(|i| format!("/{}", i)).collect();
        assert_eq!(server.seen.served, served);
        let bodies: Vec<Vec<u8>> = (0..8).map(|i| format!("body-{}", i).into_bytes()).collect();
        assert_eq!(server.seen.bodies, bodies);
        assert_eq!(server.conn.dispatcher().state(), State::Normal);
    }
}

#[test]
fn body_gets_exactly_its_length_whatever_the_segments() {
    let head = b"PUT /f HTTP/1.1\r\nContent-Length: 10\r\n\r\n";
    let tail = b"0123456789GET /next HTTP/1.1\r\n\r\n";
    for cut in 0..=tail.len() {
        let mut server = Server::new(
            5_000,
            false,
            |req: &Request, body: &[u8]| {
                let mut echo = req.target.clone();
                echo.push(b'=');
                echo.extend_from_slice(body);
                Ok(reply(200, "OK", &echo))
            },
            no_expect,
        );
        server.client_sends(head);
        server.client_sends(&tail[..cut]);
        server.client_sends(&tail[cut..]);
        assert_eq!(server.seen.served, vec!["/f".to_string(), "/next".to_string()]);
        assert_eq!(server.seen.bodies, vec![b"0123456789".to_vec(), Vec::new()]);
    }
}

#[test]
fn without_keep_alive_one_exchange_and_connection_close() {
    let mut server = Server::new(0, false, |_: &Request, _: &[u8]| Ok(reply(200, "OK", b"hi")), no_expect);
    server.client_sends(b"GET /1 HTTP/1.1\r\n\r\nGET /2 HTTP/1.1\r\n\r\n");
    assert_eq!(
        server.wire(),
        format!(
            "HTTP/1.1 200 OK\r\nContent-Length: 2\r\nConnection: close\r\n{}\r\nhi",
            date_line()
        )
    );
    assert_eq!(server.seen.served, vec!["/1".to_string()]);
    assert_eq!(server.conn.dispatcher().state(), State::Shutdown);
    server.signal(Event::Shutdown(ShutdownOutcome::Ready));
    assert_eq!(server.conn.dispatcher().outcome(), Some(Outcome::Closed));
}

#[test]
fn silent_client_gets_nothing_and_is_shut_out() {
    let mut server = Server::new(5_000, false, |_: &Request, _: &[u8]| Ok(reply(200, "OK", b"")), no_expect);
    server.now = 2_999;
    server.signal(Event::Read(ReadOutcome::Pending));
    server.signal(Event::Tick);
    assert_eq!(server.conn.dispatcher().state(), State::Normal);
    server.now = 3_000;
    server.signal(Event::Tick);
    server.turn();
    assert_eq!(server.conn.dispatcher().state(), State::Shutdown);
    assert!(server.seen.wire.is_empty());
    assert!(server.conn.pending_output().is_empty());
    assert!(!server.conn.received(b"GET / HTTP/1.1\r\n\r\n", server.now));
}

#[test]
fn application_error_is_answered_and_closes() {
    let mut server = Server::new(
        5_000,
        false,
        |_: &Request, _: &[u8]| Err(reply(500, "Internal Server Error", b"oops")),
        no_expect,
    );
    server.client_sends(b"GET / HTTP/1.1\r\n\r\n");
    assert_eq!(
        server.wire(),
        format!(
            "HTTP/1.1 500 Internal Server Error\r\nContent-Length: 4\r\nConnection: close\r\n{}\r\noops",
            date_line()
        )
    );
    assert_eq!(server.conn.dispatcher().state(), State::Shutdown);
}

#[test]
fn chunked_response_goes_out_in_chunks() {
    let mut server = Server::new(
        5_000,
        false,
        |_: &Request, _: &[u8]| {
            Ok(Reply {
                status: 200,
                reason: "OK",
                size: BodySize::Stream(None),
                body: vec![b"hello".to_vec(), b", world".to_vec()],
                headers: vec![(b"Content-Type".to_vec(), b"text/plain".to_vec())],
            })
        },
        no_expect,
    );
    server.client_sends(b"GET / HTTP/1.1\r\n\r\n");
    assert_eq!(
        server.wire(),
        format!(
            "HTTP/1.1 200 OK\r\nTransfer-Encoding: chunked\r\nContent-Type: text/plain\r\n{}\r\n\
             5\r\nhello\r\n7\r\n, world\r\n0\r\n\r\n",
            date_line()
        )
    );
    assert_eq!(server.conn.dispatcher().state(), State::Normal);
}

#[test]
fn read_buffer_takes_no_more_than_it_may() {
    let mut server = Server::new(5_000, false, |_: &Request, _: &[u8]| Ok(reply(200, "OK", b"")), no_expect);
    let big = vec![b'a'; 65_537];
    assert!(!server.conn.received(&big, 1));
    assert!(server.conn.pending_input().is_empty());
    assert!(server.conn.received(&big[..65_536], 1));
    assert_eq!(server.conn.pending_input().len(), 65_536);
    assert!(!server.conn.received(b"x", 1));
    assert!(server.conn.received(b"", 1));
    assert!(!server.conn.clock_fits(u64::MAX));
    assert!(server.conn.clock_fits(u64::MAX - 5_000));
}

#[test]
fn corrupt_chunked_body_closes_the_connection() {
    let mut server = Server::new(
        5_000,
        false,
        |_: &Request, body: &[u8]| Ok(reply(200, "OK", body)),
        no_expect,
    );
    server.client_sends(b"POST / HTTP/1.1\r\nTransfer-Encoding: chunked\r\n\r\n3\r\nabc\r\nzz\r\n");
    assert_eq!(server.seen.bodies, vec![b"abc".to_vec()]);
    assert!(server.seen.wire.is_empty());
    assert_eq!(server.conn.dispatcher().state(), State::Shutdown);
    assert_eq!(server.conn.dispatcher().error(), Some(DispatchError::PayloadFraming));
    assert_eq!(
        server.conn.dispatcher().read_len(),
        server.conn.pending_input().len()
    );
}

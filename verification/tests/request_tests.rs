use h1_transport::encoder::Header;
use h1_transport::message::{ConnectionType, Framing, Method, ParseError, Version};
use h1_transport::request::{encode, method_of, parse, same_bytes, Limits, Request};

const LIMITS: Limits = Limits { max_head: 8_192, max_headers: 32 };

fn header(name: &str, value: &str) -> Header {
    (name.as_bytes().to_vec(), value.as_bytes().to_vec())
}

fn parsed(bytes: &[u8]) -> (Request, usize) {
    match parse(bytes, LIMITS) {
        Ok(Some(found)) => found,
        other => panic!("a complete head was expected, not {:?}", other),
    }
}

fn refused(bytes: &[u8]) -> bool {
    matches!(parse(bytes, LIMITS), Err(ParseError::Malformed))
}

#[test]
fn simple_get_is_parsed() {
    let bytes = b"GET /a HTTP/1.1\r\nHost: x\r\n\r\n";
    let (req, n) = parsed(bytes);
    assert_eq!(n, bytes.len());
    assert_eq!(req.method, b"GET".to_vec());
    assert_eq!(req.target, b"/a".to_vec());
    assert_eq!(req.version, Version::Http11);
    assert_eq!(req.headers, vec![header("Host", "x")]);
    let head = req.head().unwrap();
    assert_eq!(head.method, Method::Get);
    assert_eq!(head.framing(), Ok(Framing::NoBody));
    assert!(head.keep_alive());
}

#[test]
fn head_without_headers_is_parsed() {
    let (req, n) = parsed(b"OPTIONS * HTTP/1.0\r\n\r\nrest");
    assert_eq!(n, 22);
    assert_eq!(req.method, b"OPTIONS".to_vec());
    assert_eq!(req.target, b"*".to_vec());
    assert_eq!(req.version, Version::Http10);
    assert!(req.headers.is_empty());
}

#[test]
fn every_incomplete_head_waits_for_more() {
    let bytes = b"POST /submit HTTP/1.1\r\nHost: example.org\r\nContent-Length: 5\r\n\r\n";
    for cut in 0..bytes.len() {
        assert!(
            matches!(parse(&bytes[..cut], LIMITS), Ok(None)),
            "the first {} bytes are no complete head",
            cut
        );
    }
    let (_, n) = parsed(bytes);
    assert_eq!(n, bytes.len());
}

#[test]
fn only_the_first_of_two_heads_is_taken() {
    let first = b"GET /1 HTTP/1.1\r\nHost: x\r\n\r\n";
    let mut bytes = first.to_vec();
    bytes.extend_from_slice(b"GET /2 HTTP/1.1\r\nHost: x\r\n\r\n");
    let (req, n) = parsed(&bytes);
    assert_eq!(n, first.len());
    assert_eq!(req.target, b"/1".to_vec());
    let (req, _) = parsed(&bytes[n..]);
    assert_eq!(req.target, b"/2".to_vec());
}

#[test]
fn websocket_handshake_is_parsed() {
    let bytes = b"GET /ws HTTP/1.1\r\nConnection: upgrade\r\nUpgrade: websocket\r\n\r\n";
    let (req, _) = parsed(bytes);
    let head = req.head().unwrap();
    assert_eq!(head.connection, Some(ConnectionType::Upgrade));
    assert!(head.upgrade);
    assert!(head.upgrade());
}

#[test]
fn blanks_around_a_value_are_not_part_of_it() {
    let (req, _) = parsed(b"GET / HTTP/1.1\r\nA:b\r\nC:   d e \t\r\nE:\r\nF: \r\n\r\n");
    assert_eq!(
        req.headers,
        vec![header("A", "b"), header("C", "d e"), header("E", ""), header("F", "")]
    );
}

#[test]
fn unknown_version_is_refused() {
    assert!(refused(b"GET / HTTP/9\r\n\r\n"));
    assert!(refused(b"GET / HTTP/2.0\r\n\r\n"));
    assert!(refused(b"GET / http/1.1\r\n\r\n"));
    assert!(refused(b"GET / HTTP/1.1 \r\n\r\n"));
    assert!(refused(b"GET /\r\n\r\n"));
}

#[test]
fn malformed_request_line_is_refused() {
    assert!(refused(b"\r\n\r\n"));
    assert!(refused(b"GET\r\n\r\n"));
    assert!(refused(b"GET  / HTTP/1.1\r\n\r\n"));
    assert!(refused(b" GET / HTTP/1.1\r\n\r\n"));
    assert!(refused(b"G@T / HTTP/1.1\r\n\r\n"));
    assert!(refused(b"GET /a b HTTP/1.1\r\n\r\n"));
    assert!(refused(b"GET /\x01 HTTP/1.1\r\n\r\n"));
    assert!(refused(b"GET /\x7f HTTP/1.1\r\n\r\n"));
}

#[test]
fn malformed_header_line_is_refused() {
    assert!(refused(b"GET / HTTP/1.1\r\nHost\r\n\r\n"));
    assert!(refused(b"GET / HTTP/1.1\r\n: x\r\n\r\n"));
    assert!(refused(b"GET / HTTP/1.1\r\nHost : x\r\n\r\n"));
    assert!(refused(b"GET / HTTP/1.1\r\nHo st: x\r\n\r\n"));
    assert!(refused(b"GET / HTTP/1.1\r\nHost: a\x00b\r\n\r\n"));
    assert!(refused(b"GET / HTTP/1.1\r\nHost: a\rb\r\n\r\n"));
    assert!(refused(b"GET / HTTP/1.1\r\nHost: a\nb\r\n\r\n"));
}

#[test]
fn folded_header_is_refused() {
    assert!(refused(b"GET / HTTP/1.1\r\nA: b\r\n c\r\n\r\n"));
    assert!(refused(b"GET / HTTP/1.1\r\nA: b\r\n\tc\r\n\r\n"));
}

#[test]
fn too_many_headers_are_refused() {
    let limits = Limits { max_head: 8_192, max_headers: 2 };
    let two = b"GET / HTTP/1.1\r\nA: 1\r\nB: 2\r\n\r\n";
    let three = b"GET / HTTP/1.1\r\nA: 1\r\nB: 2\r\nC: 3\r\n\r\n";
    assert!(matches!(parse(two, limits), Ok(Some(_))));
    assert!(matches!(parse(three, limits), Err(ParseError::Malformed)));
    let none = Limits { max_head: 8_192, max_headers: 0 };
    assert!(matches!(parse(b"GET / HTTP/1.1\r\n\r\n", none), Ok(Some(_))));
    assert!(matches!(parse(b"GET / HTTP/1.1\r\nA: 1\r\n\r\n", none), Err(_)));
}

#[test]
fn too_long_heads_are_refused() {
    let bytes = b"GET / HTTP/1.1\r\nHost: x\r\n\r\n";
    let exact = Limits { max_head: bytes.len(), max_headers: 8 };
    let short = Limits { max_head: bytes.len() - 1, max_headers: 8 };
    assert!(matches!(parse(bytes, exact), Ok(Some(_))));
    assert!(matches!(parse(bytes, short), Err(ParseError::Malformed)));
    // an incomplete head that already fills the limit cannot become a head
    assert!(matches!(parse(&bytes[..10], Limits { max_head: 10, max_headers: 8 }), Err(_)));
    assert!(matches!(parse(&bytes[..10], Limits { max_head: 11, max_headers: 8 }), Ok(None)));
    assert!(matches!(parse(&bytes[..20], Limits { max_head: 20, max_headers: 8 }), Err(_)));
}

#[test]
fn written_head_is_parsed_back() {
    let req = Request {
        method: b"PATCH".to_vec(),
        target: b"/items/7?x=1".to_vec(),
        version: Version::Http10,
        headers: vec![header("Host", "example.org"), header("X-Empty", ""), header("a", "b c")],
    };
    let mut wire = b"".to_vec();
    encode(&req, &mut wire);
    assert_eq!(
        String::from_utf8(wire.clone()).unwrap(),
        "PATCH /items/7?x=1 HTTP/1.0\r\nHost: example.org\r\nX-Empty: \r\na: b c\r\n\r\n"
    );
    wire.extend_from_slice(b"body");
    let (back, n) = parsed(&wire);
    assert_eq!(n, wire.len() - 4);
    assert_eq!(back.method, req.method);
    assert_eq!(back.target, req.target);
    assert_eq!(back.version, req.version);
    assert_eq!(back.headers, req.headers);
}

#[test]
fn parsed_head_is_written_back() {
    let bytes = b"GET /a HTTP/1.1\r\nHost: x\r\nAccept: */*\r\n\r\n";
    let (req, _) = parsed(bytes);
    let mut wire = Vec::new();
    encode(&req, &mut wire);
    assert_eq!(wire, bytes.to_vec());
    // blanks are folded: what is written is the canonical form
    let (req, _) = parsed(b"GET /a HTTP/1.1\r\nHost:x\r\nAccept:   */*  \r\n\r\n");
    let mut wire = Vec::new();
    encode(&req, &mut wire);
    assert_eq!(wire, bytes.to_vec());
}

#[test]
fn methods_are_told_apart() {
    assert_eq!(method_of(b"GET"), Method::Get);
    assert_eq!(method_of(b"HEAD"), Method::Head);
    assert_eq!(method_of(b"POST"), Method::Post);
    assert_eq!(method_of(b"PUT"), Method::Put);
    assert_eq!(method_of(b"DELETE"), Method::Delete);
    assert_eq!(method_of(b"CONNECT"), Method::Connect);
    assert_eq!(method_of(b"OPTIONS"), Method::Options);
    assert_eq!(method_of(b"TRACE"), Method::Trace);
    assert_eq!(method_of(b"PATCH"), Method::Patch);
    assert_eq!(method_of(b"get"), Method::Extension);
    assert_eq!(method_of(b"PURGE"), Method::Extension);
    assert_eq!(method_of(b""), Method::Extension);
}

#[test]
fn bytes_are_compared() {
    assert!(same_bytes(b"", b""));
    assert!(same_bytes(b"abc", b"abc"));
    assert!(!same_bytes(b"abc", b"abd"));
    assert!(!same_bytes(b"abc", b"ab"));
    assert!(!same_bytes(b"abc", b"ABC"));
}

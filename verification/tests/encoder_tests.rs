use h1_transport::encoder::{contains_header, names_match, Encoder, Header};
use h1_transport::message::{BodySize, Message, REASON_BAD_REQUEST, STATUS_BAD_REQUEST};

const DATE: &[u8] = b"Sun, 06 Nov 1994 08:49:37 GMT";

fn header(name: &str, value: &str) -> Header {
    (name.as_bytes().to_vec(), value.as_bytes().to_vec())
}

fn text(bytes: &[u8]) -> String {
    String::from_utf8(bytes.to_vec()).unwrap()
}

#[test]
fn simple_response_on_the_wire() {
    let mut enc = Encoder::new();
    let mut wire: Vec<u8> = Vec::new();
    enc.encode_head(200, b"OK", BodySize::Sized(2), true, &Vec::new(), DATE, &mut wire);
    enc.encode_chunk(b"OK", &mut wire);
    enc.encode_eof(&mut wire);
    assert_eq!(
        text(&wire),
        "HTTP/1.1 200 OK\r\nContent-Length: 2\r\nDate: Sun, 06 Nov 1994 08:49:37 GMT\r\n\r\nOK"
    );
}

#[test]
fn continue_on_the_wire() {
    let enc = Encoder::new();
    let mut wire = b"kept".to_vec();
    enc.encode_continue(&mut wire);
    assert_eq!(text(&wire), "keptHTTP/1.1 100 Continue\r\n\r\n");
}

#[test]
fn bad_request_on_the_wire() {
    let mut enc = Encoder::new();
    let mut wire: Vec<u8> = Vec::new();
    let msg = Message::Head {
        status: STATUS_BAD_REQUEST,
        body: BodySize::Empty,
        keep_alive: false,
    };
    enc.encode(&msg, REASON_BAD_REQUEST.as_bytes(), &Vec::new(), DATE, &mut wire);
    assert_eq!(
        text(&wire),
        "HTTP/1.1 400 Bad Request\r\nContent-Length: 0\r\nConnection: close\r\n\
         Date: Sun, 06 Nov 1994 08:49:37 GMT\r\n\r\n"
    );
}

#[test]
fn expectation_failed_on_the_wire() {
    let mut enc = Encoder::new();
    let mut wire: Vec<u8> = Vec::new();
    enc.encode_head(417, b"Expectation Failed", BodySize::Empty, false, &Vec::new(), DATE, &mut wire);
    assert!(text(&wire).starts_with("HTTP/1.1 417 Expectation Failed\r\n"));
    assert!(text(&wire).contains("\r\nConnection: close\r\n"));
    assert!(text(&wire).ends_with("\r\n\r\n"));
}

#[test]
fn kept_alive_head_has_no_connection_header() {
    let mut enc = Encoder::new();
    let mut wire: Vec<u8> = Vec::new();
    enc.encode_head(204, b"No Content", BodySize::Empty, true, &Vec::new(), DATE, &mut wire);
    assert!(!text(&wire).contains("Connection"));
}

#[test]
fn own_headers_follow_the_framing_in_their_order() {
    let mut enc = Encoder::new();
    let mut wire: Vec<u8> = Vec::new();
    let headers = vec![header("Content-Type", "text/plain"), header("X-Trace", "7")];
    enc.encode_head(200, b"OK", BodySize::Sized(12345), false, &headers, DATE, &mut wire);
    assert_eq!(
        text(&wire),
        "HTTP/1.1 200 OK\r\nContent-Length: 12345\r\nConnection: close\r\n\
         Content-Type: text/plain\r\nX-Trace: 7\r\n\
         Date: Sun, 06 Nov 1994 08:49:37 GMT\r\n\r\n"
    );
}

#[test]
fn response_with_its_own_date_gets_no_second_one() {
    let mut enc = Encoder::new();
    let mut wire: Vec<u8> = Vec::new();
    let headers = vec![header("dAtE", "Mon, 07 Nov 1994 00:00:00 GMT")];
    enc.encode_head(200, b"OK", BodySize::Empty, true, &headers, DATE, &mut wire);
    assert_eq!(
        text(&wire),
        "HTTP/1.1 200 OK\r\nContent-Length: 0\r\ndAtE: Mon, 07 Nov 1994 00:00:00 GMT\r\n\r\n"
    );
}

#[test]
fn body_without_length_goes_out_in_chunks() {
    for body in [BodySize::Chunked, BodySize::Stream(None)] {
        let mut enc = Encoder::new();
        let mut wire: Vec<u8> = Vec::new();
        enc.encode_head(200, b"OK", body, true, &Vec::new(), DATE, &mut wire);
        assert!(text(&wire).contains("\r\nTransfer-Encoding: chunked\r\n"));
        assert!(!text(&wire).contains("Content-Length"));
        wire.clear();
        enc.encode_chunk(b"hello", &mut wire);
        enc.encode_chunk(b"", &mut wire);
        enc.encode_chunk(&[b'x'; 26], &mut wire);
        enc.encode_chunk(&[b'y'; 255], &mut wire);
        enc.encode_eof(&mut wire);
        let want = format!(
            "5\r\nhello\r\n1A\r\n{}\r\nFF\r\n{}\r\n0\r\n\r\n",
            "x".repeat(26),
            "y".repeat(255)
        );
        assert_eq!(text(&wire), want);
    }
}

#[test]
fn stream_of_known_length_is_framed_by_its_length() {
    let mut enc = Encoder::new();
    let mut wire: Vec<u8> = Vec::new();
    enc.encode_head(200, b"OK", BodySize::Stream(Some(3)), true, &Vec::new(), DATE, &mut wire);
    assert!(text(&wire).contains("\r\nContent-Length: 3\r\n"));
    wire.clear();
    enc.encode_chunk(b"abc", &mut wire);
    enc.encode_eof(&mut wire);
    assert_eq!(wire, b"abc".to_vec());
}

#[test]
fn body_is_cut_off_at_its_announced_length() {
    let mut enc = Encoder::new();
    let mut wire: Vec<u8> = Vec::new();
    enc.encode_head(200, b"OK", BodySize::Sized(4), true, &Vec::new(), DATE, &mut wire);
    wire.clear();
    enc.encode_chunk(b"ab", &mut wire);
    enc.encode_chunk(b"cdef", &mut wire);
    enc.encode_chunk(b"gh", &mut wire);
    enc.encode_eof(&mut wire);
    assert_eq!(wire, b"abcd".to_vec());
}

#[test]
fn messages_are_encoded_in_turn() {
    let mut enc = Encoder::new();
    let mut wire: Vec<u8> = Vec::new();
    let none: Vec<Header> = Vec::new();
    enc.encode(&Message::Continue, b"", &none, DATE, &mut wire);
    let head = Message::Head { status: 200, body: BodySize::Chunked, keep_alive: true };
    enc.encode(&head, b"OK", &none, b"now", &mut wire);
    enc.encode(&Message::Chunk(b"0123456789abcdefg".to_vec()), b"", &none, DATE, &mut wire);
    enc.encode(&Message::Eof, b"", &none, DATE, &mut wire);
    assert_eq!(
        text(&wire),
        "HTTP/1.1 100 Continue\r\n\r\n\
         HTTP/1.1 200 OK\r\nTransfer-Encoding: chunked\r\nDate: now\r\n\r\n\
         11\r\n0123456789abcdefg\r\n0\r\n\r\n"
    );
    // the end of a body ends its framing: what follows is not chunked
    wire.clear();
    enc.encode(&Message::Chunk(b"late".to_vec()), b"", &none, DATE, &mut wire);
    assert!(wire.is_empty());
}

#[test]
fn status_and_length_are_written_in_decimal() {
    let mut enc = Encoder::new();
    let mut wire: Vec<u8> = Vec::new();
    enc.encode_head(7, b"", BodySize::Sized(u64::MAX), true, &Vec::new(), b"", &mut wire);
    assert_eq!(
        text(&wire),
        "HTTP/1.1 7 \r\nContent-Length: 18446744073709551615\r\nDate: \r\n\r\n"
    );
    wire.clear();
    enc.encode_head(65535, b"x", BodySize::Sized(10), true, &Vec::new(), b"", &mut wire);
    assert!(text(&wire).starts_with("HTTP/1.1 65535 x\r\nContent-Length: 10\r\n"));
}

#[test]
fn header_names_match_whatever_their_case() {
    assert!(names_match(b"Date", b"date"));
    assert!(names_match(b"DATE", b"dAtE"));
    assert!(names_match(b"", b""));
    assert!(!names_match(b"Date", b"Dat"));
    assert!(!names_match(b"Date", b"Data"));
    assert!(!names_match(b"a-b", b"a_b"));
    // only letters have a case: `@` and `` ` `` differ
    assert!(!names_match(b"@", b"`"));
    assert!(!names_match(b"[", b"{"));
    let headers = vec![header("Content-Type", "a"), header("ETag", "b")];
    assert!(contains_header(&headers, b"etag"));
    assert!(contains_header(&headers, b"CONTENT-TYPE"));
    assert!(!contains_header(&headers, b"date"));
    assert!(!contains_header(&Vec::new(), b"date"));
}

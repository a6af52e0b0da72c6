use h1_transport::event::PayloadStatus;
use h1_transport::payload::{receiver_status, LengthDecoder, PayloadItem, MAX_BUFFER_SIZE};

/// Feeds the segments one by one, decoding after each until nothing more
/// comes, and returns the body bytes, what is left in the buffer, and
/// whether the end of the body was seen.
fn receive(len: u64, segments: &[&[u8]]) -> (Vec<u8>, Vec<u8>, bool) {
    let mut decoder = LengthDecoder::new(len);
    let mut buf: Vec<u8> = Vec::new();
    let mut body: Vec<u8> = Vec::new();
    let mut eof = false;
    for seg in segments {
        buf.extend_from_slice(seg);
        loop {
            match decoder.decode(&mut buf) {
                Some(PayloadItem::Chunk(c)) => body.extend_from_slice(&c),
                Some(PayloadItem::Eof) => {
                    eof = true;
                    break;
                }
                None => break,
            }
        }
    }
    (body, buf, eof)
}

#[test]
fn body_in_one_segment() {
    let (body, rest, eof) = receive(5, &[b"hello"]);
    assert_eq!(body, b"hello".to_vec());
    assert!(rest.is_empty());
    assert!(eof);
}

#[test]
fn body_byte_by_byte() {
    let (body, rest, eof) = receive(5, &[b"h", b"e", b"l", b"l", b"o"]);
    assert_eq!(body, b"hello".to_vec());
    assert!(rest.is_empty());
    assert!(eof);
}

#[test]
fn bytes_beyond_the_body_stay_in_the_buffer() {
    let (body, rest, eof) = receive(5, &[b"he", b"llo wor", b"ld"]);
    assert_eq!(body, b"hello".to_vec());
    assert_eq!(rest, b" world".to_vec());
    assert!(eof);
}

#[test]
fn every_cut_of_the_same_bytes_gives_the_same_body() {
    let all: &[u8] = b"0123456789abcdef";
    for len in [0u64, 1, 7, 16, 20] {
        let (want_body, want_rest, want_eof) = receive(len, &[all]);
        for i in 0..=all.len() {
            for j in i..=all.len() {
                let got = receive(len, &[&all[..i], &all[i..j], &all[j..]]);
                assert_eq!(got, (want_body.clone(), want_rest.clone(), want_eof));
            }
        }
    }
}

#[test]
fn short_input_delivers_what_came_and_waits() {
    let (body, rest, eof) = receive(10, &[b"abc", b"de"]);
    assert_eq!(body, b"abcde".to_vec());
    assert!(rest.is_empty());
    assert!(!eof);
}

#[test]
fn empty_body_ends_at_once() {
    let mut decoder = LengthDecoder::new(0);
    let mut buf = b"GET /next".to_vec();
    assert!(matches!(decoder.decode(&mut buf), Some(PayloadItem::Eof)));
    assert_eq!(buf, b"GET /next".to_vec());
    assert_eq!(decoder.left(), 0);
}

#[test]
fn empty_buffer_yields_nothing_and_changes_nothing() {
    let mut decoder = LengthDecoder::new(3);
    let mut buf: Vec<u8> = Vec::new();
    assert!(decoder.decode(&mut buf).is_none());
    assert!(buf.is_empty());
    assert_eq!(decoder.left(), 3);
}

#[test]
fn decode_counts_down_what_is_left() {
    let mut decoder = LengthDecoder::new(6);
    let mut buf = b"abcd".to_vec();
    match decoder.decode(&mut buf) {
        Some(PayloadItem::Chunk(c)) => assert_eq!(c, b"abcd".to_vec()),
        other => panic!("unexpected {:?}", other),
    }
    assert!(buf.is_empty());
    assert_eq!(decoder.left(), 2);
    buf.extend_from_slice(b"efgh");
    match decoder.decode(&mut buf) {
        Some(PayloadItem::Chunk(c)) => assert_eq!(c, b"ef".to_vec()),
        other => panic!("unexpected {:?}", other),
    }
    assert_eq!(buf, b"gh".to_vec());
    assert_eq!(decoder.left(), 0);
    assert!(matches!(decoder.decode(&mut buf), Some(PayloadItem::Eof)));
    assert_eq!(buf, b"gh".to_vec());
}

#[test]
fn eof_is_repeated_once_the_body_is_complete() {
    let mut decoder = LengthDecoder::new(1);
    let mut buf = b"x".to_vec();
    assert!(matches!(decoder.decode(&mut buf), Some(PayloadItem::Chunk(_))));
    assert!(matches!(decoder.decode(&mut buf), Some(PayloadItem::Eof)));
    assert!(matches!(decoder.decode(&mut buf), Some(PayloadItem::Eof)));
}

#[test]
fn receiver_pauses_its_sender_when_full() {
    assert_eq!(receiver_status(true, 0), PayloadStatus::Read);
    assert_eq!(receiver_status(true, MAX_BUFFER_SIZE - 1), PayloadStatus::Read);
    assert_eq!(receiver_status(true, MAX_BUFFER_SIZE), PayloadStatus::Pause);
    assert_eq!(receiver_status(true, usize::MAX), PayloadStatus::Pause);
}

#[test]
fn dropped_receiver_is_reported_whatever_it_held() {
    assert_eq!(receiver_status(false, 0), PayloadStatus::Dropped);
    assert_eq!(receiver_status(false, MAX_BUFFER_SIZE), PayloadStatus::Dropped);
}

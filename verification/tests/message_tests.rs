use h1_transport::config::{PeerAddr, ServiceConfig};
use h1_transport::message::{
    BodySize, ConnectionType, Framing, Method, ParseError, RequestHead, Version,
};

fn head(method: Method, version: Version) -> RequestHead {
    RequestHead {
        method,
        version,
        connection: None,
        upgrade: false,
        expect_continue: false,
        chunked: false,
        content_length: None,
    }
}

#[test]
fn connect_method_asks_for_upgrade() {
    assert!(head(Method::Connect, Version::Http11).upgrade());
    assert!(!head(Method::Get, Version::Http11).upgrade());
}

#[test]
fn upgrade_header_needs_connection_upgrade() {
    let mut h = head(Method::Get, Version::Http11);
    h.upgrade = true;
    assert!(!h.upgrade());
    h.connection = Some(ConnectionType::KeepAlive);
    assert!(!h.upgrade());
    h.connection = Some(ConnectionType::Upgrade);
    assert!(h.upgrade());
    h.upgrade = false;
    assert!(!h.upgrade());
}

#[test]
fn keep_alive_defaults_follow_the_version() {
    assert!(head(Method::Get, Version::Http11).keep_alive());
    assert!(!head(Method::Get, Version::Http10).keep_alive());
}

#[test]
fn connection_header_overrides_the_default() {
    let mut h = head(Method::Get, Version::Http11);
    h.connection = Some(ConnectionType::Close);
    assert!(!h.keep_alive());
    h.connection = Some(ConnectionType::Upgrade);
    assert!(!h.keep_alive());
    let mut old = head(Method::Get, Version::Http10);
    old.connection = Some(ConnectionType::KeepAlive);
    assert!(old.keep_alive());
}

#[test]
fn framing_without_headers_is_no_body() {
    assert_eq!(head(Method::Post, Version::Http11).framing(), Ok(Framing::NoBody));
}

#[test]
fn framing_follows_content_length() {
    let mut h = head(Method::Post, Version::Http11);
    h.content_length = Some(5);
    assert_eq!(h.framing(), Ok(Framing::Length(5)));
    h.content_length = Some(0);
    assert_eq!(h.framing(), Ok(Framing::Length(0)));
}

#[test]
fn framing_follows_chunked_encoding() {
    let mut h = head(Method::Post, Version::Http11);
    h.chunked = true;
    assert_eq!(h.framing(), Ok(Framing::Chunked));
}

#[test]
fn both_framing_headers_are_refused() {
    let mut h = head(Method::Post, Version::Http11);
    h.chunked = true;
    h.content_length = Some(3);
    assert_eq!(h.framing(), Err(ParseError::ConflictingFraming));
}

#[test]
fn empty_bodies() {
    assert!(BodySize::Empty.is_empty());
    assert!(BodySize::Sized(0).is_empty());
    assert!(BodySize::Stream(Some(0)).is_empty());
    assert!(!BodySize::Sized(1).is_empty());
    assert!(!BodySize::Chunked.is_empty());
    assert!(!BodySize::Stream(None).is_empty());
    assert!(!BodySize::Stream(Some(9)).is_empty());
}

#[test]
fn announced_lengths() {
    assert_eq!(BodySize::Empty.announced(), Some(0));
    assert_eq!(BodySize::Sized(17).announced(), Some(17));
    assert_eq!(BodySize::Stream(Some(4)).announced(), Some(4));
    assert_eq!(BodySize::Stream(None).announced(), None);
    assert_eq!(BodySize::Chunked.announced(), None);
}

#[test]
fn known_lengths_delimit_for_every_version() {
    for v in [Version::Http10, Version::Http11] {
        assert!(BodySize::Empty.delimited(v));
        assert!(BodySize::Sized(2).delimited(v));
        assert!(BodySize::Stream(Some(2)).delimited(v));
    }
}

#[test]
fn chunked_delimits_only_for_http11() {
    assert!(BodySize::Chunked.delimited(Version::Http11));
    assert!(!BodySize::Chunked.delimited(Version::Http10));
    assert!(BodySize::Stream(None).delimited(Version::Http11));
    assert!(!BodySize::Stream(None).delimited(Version::Http10));
}

#[test]
fn config_keeps_what_it_is_given() {
    let addr = Some(PeerAddr::V4(0x7f00_0001, 8080));
    let cfg = ServiceConfig::new(5000, 3000, 1000, true, addr, 65536);
    assert_eq!(cfg.keep_alive, 5000);
    assert_eq!(cfg.client_request_timeout, 3000);
    assert_eq!(cfg.client_disconnect_timeout, 1000);
    assert!(cfg.secure);
    assert_eq!(cfg.local_addr, addr);
    assert_eq!(cfg.max_read_buf, 65536);
}

#[test]
fn zero_keep_alive_means_disabled() {
    let off = ServiceConfig::new(0, 3000, 1000, false, None, 1024);
    assert_eq!(off.keep_alive(), None);
    assert_eq!(off.keep_alive_expire(10_000), None);
    let on = ServiceConfig::new(1, 3000, 1000, false, None, 1024);
    assert_eq!(on.keep_alive(), Some(1));
    assert_eq!(on.keep_alive_expire(10_000), Some(10_001));
}

#[test]
fn deadlines_add_the_timeout_to_now() {
    let cfg = ServiceConfig::new(5000, 3000, 1000, false, None, 1024);
    assert_eq!(cfg.keep_alive_expire(100), Some(5100));
    assert_eq!(cfg.client_request_deadline(100), 3100);
    assert_eq!(cfg.client_disconnect_deadline(100), 1100);
    assert_eq!(cfg.client_request_deadline(0), 3000);
    assert_eq!(cfg.client_request_deadline(u64::MAX - 3000), u64::MAX);
}

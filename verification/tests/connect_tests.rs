use h1_transport::config::PeerAddr;
use h1_transport::connect::{
    ClientHead, ConnectPolled, ConnectRequest, ConnectRequestFuture, ConnectResponse,
    ConnectStep, DefaultConnector,
};

fn head(uri: &str, tag: u8) -> ClientHead<u8> {
    ClientHead { uri: uri.to_string(), head: tag }
}

#[test]
fn connector_keeps_its_service() {
    let c = DefaultConnector::new("pool");
    assert_eq!(*c.connector(), "pool");
}

#[test]
fn client_request_connects_to_its_target() {
    let c = DefaultConnector::new(());
    let addr = Some(PeerAddr::V4(0x0a00_0001, 80));
    let req: ConnectRequest<u8, &str> =
        ConnectRequest::Client(head("http://example.org/a", 1), "body", addr);
    let (connect, fut) = c.call(req);
    assert_eq!(connect.uri, "http://example.org/a");
    assert_eq!(connect.addr, addr);
    match fut {
        ConnectRequestFuture::Connection {
            req: Some(ConnectRequest::Client(h, body, a)),
        } => {
            assert_eq!(h.uri, "http://example.org/a");
            assert_eq!(h.head, 1);
            assert_eq!(body, "body");
            assert_eq!(a, addr);
        }
        _ => panic!("the request must wait for the connection"),
    }
}

#[test]
fn tunnel_request_connects_to_its_target() {
    let c = DefaultConnector::new(());
    let req: ConnectRequest<u8, &str> = ConnectRequest::Tunnel(head("example.org:443", 2), None);
    let (connect, fut) = c.call(req);
    assert_eq!(connect.uri, "example.org:443");
    assert_eq!(connect.addr, None);
    assert!(matches!(
        fut,
        ConnectRequestFuture::Connection { req: Some(ConnectRequest::Tunnel(_, None)) }
    ));
}

#[test]
fn open_connection_sends_the_client_request() {
    let fut: ConnectRequestFuture<u8, &str> = ConnectRequestFuture::Connection {
        req: Some(ConnectRequest::Client(head("/x", 7), "payload", None)),
    };
    let (fut, step) = fut.poll(ConnectPolled::Connected::<u8, u8, u8>);
    assert!(matches!(fut, ConnectRequestFuture::Client));
    match step {
        ConnectStep::SendRequest(h, body) => {
            assert_eq!(h.uri, "/x");
            assert_eq!(h.head, 7);
            assert_eq!(body, "payload");
        }
        _ => panic!("the request must be sent"),
    }
}

#[test]
fn open_connection_opens_the_tunnel() {
    let fut: ConnectRequestFuture<u8, &str> = ConnectRequestFuture::Connection {
        req: Some(ConnectRequest::Tunnel(head("host:1", 8), None)),
    };
    let (fut, step) = fut.poll(ConnectPolled::Connected::<u8, u8, u8>);
    assert!(matches!(fut, ConnectRequestFuture::Tunnel));
    match step {
        ConnectStep::OpenTunnel(h) => {
            assert_eq!(h.uri, "host:1");
            assert_eq!(h.head, 8);
        }
        _ => panic!("the tunnel must be opened"),
    }
}

#[test]
fn pending_and_failed_polls_keep_the_stage() {
    let fut: ConnectRequestFuture<u8, &str> = ConnectRequestFuture::Connection {
        req: Some(ConnectRequest::Tunnel(head("host:1", 8), None)),
    };
    let (fut, step) = fut.poll(ConnectPolled::Pending::<u8, u8, u8>);
    assert!(matches!(step, ConnectStep::Pending));
    assert!(matches!(fut, ConnectRequestFuture::Connection { req: Some(_) }));
    let (fut, step) = fut.poll(ConnectPolled::Failed::<u8, u8, u8>);
    assert!(matches!(step, ConnectStep::Failed));
    assert!(matches!(fut, ConnectRequestFuture::Connection { req: Some(_) }));
    let fut: ConnectRequestFuture<u8, &str> = ConnectRequestFuture::Client;
    let (fut, step) = fut.poll(ConnectPolled::Pending::<u8, u8, u8>);
    assert!(matches!(step, ConnectStep::Pending));
    assert!(matches!(fut, ConnectRequestFuture::Client));
}

#[test]
fn response_completes_a_client_request() {
    let fut: ConnectRequestFuture<u8, &str> = ConnectRequestFuture::Client;
    let (_, step) = fut.poll(ConnectPolled::Response::<&str, u8, u8>("response"));
    match step {
        ConnectStep::Ready(res) => assert_eq!(res.into_client_response(), "response"),
        _ => panic!("the request must be complete"),
    }
}

#[test]
fn tunnel_completes_a_tunnel_request() {
    let fut: ConnectRequestFuture<u8, &str> = ConnectRequestFuture::Tunnel;
    let (_, step) = fut.poll(ConnectPolled::Tunnel::<u8, &str, u32>("head", 5));
    match step {
        ConnectStep::Ready(res) => assert_eq!(res.into_tunnel_response(), ("head", 5)),
        _ => panic!("the request must be complete"),
    }
}

#[test]
fn responses_give_up_their_parts() {
    let client: ConnectResponse<u8, u8, u8> = ConnectResponse::Client(4);
    assert_eq!(client.into_client_response(), 4);
    let tunnel: ConnectResponse<u8, u8, u16> = ConnectResponse::Tunnel(1, 2);
    assert_eq!(tunnel.into_tunnel_response(), (1, 2));
}

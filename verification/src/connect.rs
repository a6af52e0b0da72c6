//! The client side: what is asked of a connector, what comes back, and the
//! stages a connect request goes through.

use vstd::prelude::*;
use crate::config::PeerAddr;

verus! {

/// A request head as a client holds it: the target, and whatever else the
/// application keeps in a head.
pub struct ClientHead<H> {
    /// The target URI.
    pub uri: String,
    pub head: H,
}

/// Where a connector is to connect.
pub struct Connect {
    pub uri: String,
    /// The address to use in place of resolving the URI's host, if any.
    pub addr: Option<PeerAddr>,
}

/// What a client asks of a connector.
pub enum ConnectRequest<H, B> {
    /// Send a request with a body and take the response.
    Client(ClientHead<H>, B, Option<PeerAddr>),
    /// Open a tunnel and take the framed stream.
    Tunnel(ClientHead<H>, Option<PeerAddr>),
}

/// What a connector hands back.
pub enum ConnectResponse<R, T, F> {
    /// The response to a request.
    Client(R),
    /// The head that opened a tunnel, and the framed stream.
    Tunnel(T, F),
}

/// The stages of a connect request.
pub enum ConnectRequestFuture<H, B> {
    /// The connection is being opened; the request waits.
    Connection { req: Option<ConnectRequest<H, B>> },
    /// The request was sent; the response is awaited.
    Client,
    /// The tunnel was asked for; its stream is awaited.
    Tunnel,
}

/// What polling the current stage of a connect request yielded.
pub enum ConnectPolled<R, T, F> {
    /// Nothing yet.
    Pending,
    /// The stage failed.
    Failed,
    /// The connection is open.
    Connected,
    /// The response arrived.
    Response(R),
    /// The tunnel is open.
    Tunnel(T, F),
}

/// What a poll of a connect request comes to.
pub enum ConnectStep<H, B, R, T, F> {
    /// Nothing more can be done now.
    Pending,
    /// The request failed with the error of the stage polled.
    Failed,
    /// Send this request over the connection, then poll again.
    SendRequest(ClientHead<H>, B),
    /// Open a tunnel with this head over the connection, then poll again.
    OpenTunnel(ClientHead<H>),
    /// The request is complete.
    Ready(ConnectResponse<R, T, F>),
}

/// Connects through the connector service `S`.
pub struct DefaultConnector<S> {
    connector: S,
}

impl<H, B> ConnectRequest<H, B> {
    /// The head of the request.
    pub open spec fn head(self) -> ClientHead<H> {
        match self {
            ConnectRequest::Client(head, _, _) => head,
            ConnectRequest::Tunnel(head, _) => head,
        }
    }

    /// The address that comes with the request, if any.
    pub open spec fn addr(self) -> Option<PeerAddr> {
        match self {
            ConnectRequest::Client(_, _, addr) => addr,
            ConnectRequest::Tunnel(_, addr) => addr,
        }
    }
}

impl<R, T, F> ConnectResponse<R, T, F> {
    /// The response, of a `Client` variant.
    pub fn into_client_response(self) -> (res: R)
        requires
            self is Client,
        ensures
            self == ConnectResponse::<R, T, F>::Client(res),
    {
        match self {
            ConnectResponse::Client(res) => res,
            ConnectResponse::Tunnel(_, _) => {
                proof {
                    assert(false);
                }
                unreached()
            },
        }
    }

    /// The head and the framed stream, of a `Tunnel` variant.
    pub fn into_tunnel_response(self) -> (res: (T, F))
        requires
            self is Tunnel,
        ensures
            self == ConnectResponse::<R, T, F>::Tunnel(res.0, res.1),
    {
        match self {
            ConnectResponse::Tunnel(head, framed) => (head, framed),
            ConnectResponse::Client(_) => {
                proof {
                    assert(false);
                }
                unreached()
            },
        }
    }
}

impl<S> DefaultConnector<S> {
    /// The connector service.
    pub closed spec fn service(&self) -> S {
        self.connector
    }

    /// A connector that connects through `connector`.
    pub fn new(connector: S) -> (d: Self)
        ensures
            d.service() == connector,
    {
        DefaultConnector { connector }
    }

    /// The connector service.
    pub fn connector(&self) -> (c: &S)
        ensures
            *c == self.service(),
    {
        &self.connector
    }

    /// Starts a connect request: says where to connect, which is the
    /// target of the request's head at the address that came with it, and
    /// keeps the request for when the connection is open.
    pub fn call<H, B>(&self, req: ConnectRequest<H, B>) -> (r: (Connect, ConnectRequestFuture<H, B>))
        ensures
            r.0.uri@ == req.head().uri@,
            r.0.addr == req.addr(),
            r.1 == (ConnectRequestFuture::Connection { req: Some(req) }),
    {
        let connect = match &req {
            ConnectRequest::Client(head, _, addr) => Connect { uri: head.uri.clone(), addr: *addr },
            ConnectRequest::Tunnel(head, addr) => Connect { uri: head.uri.clone(), addr: *addr },
        };
        (connect, ConnectRequestFuture::Connection { req: Some(req) })
    }
}

impl<H, B> ConnectRequestFuture<H, B> {
    /// Whether `polled` can come from polling this stage: an open
    /// connection from `Connection`, while the request waits there; a
    /// response from `Client`; a tunnel from `Tunnel`.
    pub open spec fn expects<R, T, F>(self, polled: ConnectPolled<R, T, F>) -> bool {
        match polled {
            ConnectPolled::Pending => true,
            ConnectPolled::Failed => true,
            ConnectPolled::Connected => self matches ConnectRequestFuture::Connection { req }
                && req is Some,
            ConnectPolled::Response(_) => self is Client,
            ConnectPolled::Tunnel(_, _) => self is Tunnel,
        }
    }

    /// Whether `polled` can come from polling this stage, so that
    /// [`ConnectRequestFuture::poll`] may be called with it.
    pub fn admits<R, T, F>(&self, polled: &ConnectPolled<R, T, F>) -> (ok: bool)
        ensures
            ok == self.expects(*polled),
    {
        match polled {
            ConnectPolled::Pending => true,
            ConnectPolled::Failed => true,
            ConnectPolled::Connected => match self {
                ConnectRequestFuture::Connection { req } => req.is_some(),
                _ => false,
            },
            ConnectPolled::Response(_) => match self {
                ConnectRequestFuture::Client => true,
                _ => false,
            },
            ConnectPolled::Tunnel(_, _) => match self {
                ConnectRequestFuture::Tunnel => true,
                _ => false,
            },
        }
    }

    /// Takes the outcome of polling the current stage and gives the next
    /// stage and what to do.
    ///
    /// Once the connection is open the waiting request goes out: a client
    /// request is sent and `Client` follows, a tunnel request opens a tunnel
    /// and `Tunnel` follows. A response or a tunnel completes the request.
    /// A pending or failed poll changes nothing.
    pub fn poll<R, T, F>(self, polled: ConnectPolled<R, T, F>) -> (r: (
        Self,
        ConnectStep<H, B, R, T, F>,
    ))
        requires
            self.expects(polled),
        ensures
            match polled {
                ConnectPolled::Pending => r.0 == self && r.1 is Pending,
                ConnectPolled::Failed => r.0 == self && r.1 is Failed,
                ConnectPolled::Connected => match self->req.unwrap() {
                    ConnectRequest::Client(head, body, _) => r.0 is Client && r.1
                        == ConnectStep::<H, B, R, T, F>::SendRequest(head, body),
                    ConnectRequest::Tunnel(head, _) => r.0 is Tunnel && r.1 == ConnectStep::<
                        H,
                        B,
                        R,
                        T,
                        F,
                    >::OpenTunnel(head),
                },
                ConnectPolled::Response(res) => r.0 == self && r.1 == ConnectStep::<
                    H,
                    B,
                    R,
                    T,
                    F,
                >::Ready(ConnectResponse::Client(res)),
                ConnectPolled::Tunnel(head, framed) => r.0 == self && r.1 == ConnectStep::<
                    H,
                    B,
                    R,
                    T,
                    F,
                >::Ready(ConnectResponse::Tunnel(head, framed)),
            },
    {
        match polled {
            ConnectPolled::Pending => (self, ConnectStep::Pending),
            ConnectPolled::Failed => (self, ConnectStep::Failed),
            ConnectPolled::Connected => match self {
                ConnectRequestFuture::Connection { req } => match req.unwrap() {
                    ConnectRequest::Client(head, body, _) => (
                        ConnectRequestFuture::Client,
                        ConnectStep::SendRequest(head, body),
                    ),
                    ConnectRequest::Tunnel(head, _) => (
                        ConnectRequestFuture::Tunnel,
                        ConnectStep::OpenTunnel(head),
                    ),
                },
                _ => {
                    proof {
                        assert(false);
                    }
                    unreached()
                },
            },
            ConnectPolled::Response(res) => (
                self,
                ConnectStep::Ready(ConnectResponse::Client(res)),
            ),
            ConnectPolled::Tunnel(head, framed) => (
                self,
                ConnectStep::Ready(ConnectResponse::Tunnel(head, framed)),
            ),
        }
    }
}

} // verus!

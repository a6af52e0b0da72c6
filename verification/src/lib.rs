//! The core of an HTTP/1.x server transport, without its I/O.
//!
//! A caller owns the socket, the clock and the services; the crate holds
//! everything that is decided or computed on a connection:
//!
//! - [`request`], [`header`], [`payload`], [`chunked`] and [`codec`] read
//!   request heads and bodies from bytes, and [`encoder`] writes responses;
//! - [`model`] is the dispatcher as a state machine, [`laws`] is what holds
//!   of all its runs, and [`dispatcher`] is its executable form;
//! - [`connection`] puts dispatcher, buffers, decoder and encoder together;
//! - [`service`] and [`readiness`] assemble the services behind a handler
//!   and combine their readiness, [`config`] holds the settings and the
//!   deadlines derived from them;
//! - [`connect`] is the client side's connect request.

pub mod chunked;
pub mod codec;
pub mod config;
pub mod connect;
pub mod connection;
pub mod dispatcher;
pub mod encoder;
pub mod error;
pub mod event;
pub mod header;
pub mod laws;
pub mod message;
pub mod model;
pub mod payload;
pub mod readiness;
pub mod request;
pub mod service;

//! Server configuration shared by all connections, and the deadlines derived
//! from it. Times are milliseconds on a monotonic clock that the caller reads.

use vstd::prelude::*;

verus! {

/// A socket address as plain numbers.
#[derive(Clone, Copy, Debug, PartialEq, Eq, Structural)]
pub enum PeerAddr {
    /// An IPv4 address in host byte order, and a port.
    V4(u32, u16),
    /// An IPv6 address in host byte order, and a port.
    V6(u128, u16),
}

/// Settings of one server; never changed once the server runs.
#[derive(Clone, Copy, Debug)]
pub struct ServiceConfig {
    /// Idle time a kept-alive connection is granted; zero disables keep-alive.
    pub keep_alive: u64,
    /// Time granted for a request head to arrive.
    pub client_request_timeout: u64,
    /// Time granted for the final flush and the shutdown handshake.
    pub client_disconnect_timeout: u64,
    /// Whether the transport is cryptographically protected.
    pub secure: bool,
    /// The address the server advertises.
    pub local_addr: Option<PeerAddr>,
    /// Upper bound on the bytes held in a connection's read buffer.
    pub max_read_buf: usize,
}

impl ServiceConfig {
    /// Whether connections may be reused for further requests.
    pub open spec fn keep_alive_enabled(self) -> bool {
        self.keep_alive > 0
    }

    /// Collects the settings into a configuration.
    pub fn new(
        keep_alive: u64,
        client_request_timeout: u64,
        client_disconnect_timeout: u64,
        secure: bool,
        local_addr: Option<PeerAddr>,
        max_read_buf: usize,
    ) -> (cfg: ServiceConfig)
        ensures
            cfg.keep_alive == keep_alive,
            cfg.client_request_timeout == client_request_timeout,
            cfg.client_disconnect_timeout == client_disconnect_timeout,
            cfg.secure == secure,
            cfg.local_addr == local_addr,
            cfg.max_read_buf == max_read_buf,
    {
        ServiceConfig {
            keep_alive,
            client_request_timeout,
            client_disconnect_timeout,
            secure,
            local_addr,
            max_read_buf,
        }
    }

    /// The scheme the server reports of itself: the secure one on a
    /// protected transport, and the WebSocket one where `websocket` is set.
    pub fn scheme(&self, websocket: bool) -> (s: &'static str)
        ensures
            s@ == (if self.secure {
                if websocket {
                    "wss"@
                } else {
                    "https"@
                }
            } else {
                if websocket {
                    "ws"@
                } else {
                    "http"@
                }
            }),
    {
        if self.secure {
            if websocket {
                "wss"
            } else {
                "https"
            }
        } else {
            if websocket {
                "ws"
            } else {
                "http"
            }
        }
    }

    /// The idle timeout, absent when keep-alive is disabled.
    pub fn keep_alive(&self) -> (d: Option<u64>)
        ensures
            d == (if self.keep_alive_enabled() {
                Some(self.keep_alive)
            } else {
                None
            }),
    {
        if self.keep_alive > 0 {
            Some(self.keep_alive)
        } else {
            None
        }
    }

    /// The time at which a connection idle since `now` has outlived its
    /// keep-alive; absent when keep-alive is disabled.
    pub fn keep_alive_expire(&self, now: u64) -> (deadline: Option<u64>)
        requires
            now + self.keep_alive <= u64::MAX,
        ensures
            self.keep_alive_enabled() ==> deadline == Some((now + self.keep_alive) as u64),
            !self.keep_alive_enabled() ==> deadline is None,
    {
        if self.keep_alive > 0 {
            Some(now + self.keep_alive)
        } else {
            None
        }
    }

    /// The time by which a client that connected at `now` must have sent a
    /// request head.
    pub fn client_request_deadline(&self, now: u64) -> (deadline: u64)
        requires
            now + self.client_request_timeout <= u64::MAX,
        ensures
            deadline == now + self.client_request_timeout,
    {
        now + self.client_request_timeout
    }

    /// The time by which a shutdown begun at `now` must be over.
    pub fn client_disconnect_deadline(&self, now: u64) -> (deadline: u64)
        requires
            now + self.client_disconnect_timeout <= u64::MAX,
        ensures
            deadline == now + self.client_disconnect_timeout,
    {
        now + self.client_disconnect_timeout
    }
}

/// Shortest time, in milliseconds, between two renewals of the cached date.
pub const DATE_INTERVAL: u64 = 1000;

/// The date text that response heads carry, cached so that it is made at
/// most once in a `DATE_INTERVAL`. The caller formats the date; the cache
/// says when a new one is due.
#[derive(Debug)]
pub struct DateService {
    stamp: u64,
    text: String,
}

impl DateService {
    /// When the cached text was made.
    pub closed spec fn stamp(&self) -> u64 {
        self.stamp
    }

    /// The cached text.
    pub closed spec fn text(&self) -> Seq<char> {
        self.text@
    }

    /// Whether the text, read at `now`, is older than the interval allows.
    pub open spec fn stale(&self, now: u64) -> bool {
        now >= self.stamp() + DATE_INTERVAL
    }

    /// A cache that holds `text`, made at `now`.
    pub fn new(now: u64, text: String) -> (d: DateService)
        ensures
            d.stamp() == now,
            d.text() == text@,
    {
        DateService { stamp: now, text }
    }

    /// Whether a new text is due at `now`.
    pub fn is_stale(&self, now: u64) -> (r: bool)
        ensures
            r == self.stale(now),
    {
        now >= self.stamp && now - self.stamp >= DATE_INTERVAL
    }

    /// Replaces the text by `text`, made at `now`, if a new one is due; a
    /// text that is still fresh stays.
    pub fn update(&mut self, now: u64, text: String) -> (renewed: bool)
        ensures
            renewed == old(self).stale(now),
            renewed ==> final(self).stamp() == now && final(self).text() == text@,
            !renewed ==> final(self).stamp() == old(self).stamp() && final(self).text() == old(
                self,
            ).text(),
    {
        if self.is_stale(now) {
            self.stamp = now;
            self.text = text;
            true
        } else {
            false
        }
    }

    /// The cached text.
    pub fn date(&self) -> (s: &str)
        ensures
            s@ == self.text(),
    {
        self.text.as_str()
    }
}

} // verus!

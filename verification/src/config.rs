//! What the parts of a session server are started with.

use vstd::prelude::*;
use crate::timer::{BroadcastTimer, BROADCAST_PERIOD_NANOS};

verus! {

/// What a session server is started with.
#[derive(Clone, Copy, Debug, PartialEq, Eq, Structural)]
pub struct ServerConfig {
    pub port: u16,
    pub broadcast_timer: BroadcastTimer,
}

impl ServerConfig {
    /// The configuration for `port`, broadcasting every ten milliseconds.
    pub fn new(port: u16) -> (c: ServerConfig)
        ensures
            c == (ServerConfig {
                port,
                broadcast_timer: BroadcastTimer { period: BROADCAST_PERIOD_NANOS, elapsed: 0 },
            }),
    {
        ServerConfig { port, broadcast_timer: BroadcastTimer::new(BROADCAST_PERIOD_NANOS) }
    }
}

/// The management web server of a session server: its port, and whether
/// it has been started.
#[derive(Clone, Copy, Debug, PartialEq, Eq, Structural)]
pub struct WebServerResource {
    pub port: u16,
    pub started: bool,
}

impl WebServerResource {
    /// A web server for `port` that has not been started.
    pub fn new(port: u16) -> (w: WebServerResource)
        ensures
            w == (WebServerResource { port, started: false }),
    {
        WebServerResource { port, started: false }
    }

    /// Says whether the web server is to be started now, and notes that it
    /// was: it starts once, as soon as what it serves from is ready.
    pub fn start_webserver(&mut self, ready: bool) -> (start: bool)
        ensures
            start == (ready && !old(self).started),
            *final(self) == (WebServerResource { port: old(self).port, started: old(self).started || ready }),
    {
        if ready && !self.started {
            self.started = true;
            true
        } else {
            false
        }
    }
}

} // verus!

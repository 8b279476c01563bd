//! The websocket API's configuration: how often to ping, and the handler
//! that serves each connection.
use std::time::Duration;
use vstd::prelude::*;

verus! {

pub struct NeoApiConfig<H> {
    ping_delay: Duration,
    handler: H,
}

impl<H> NeoApiConfig<H> {
    pub closed spec fn ping_delay(&self) -> Duration {
        self.ping_delay
    }

    pub closed spec fn handler(&self) -> H {
        self.handler
    }

    pub fn new(ping_delay: Duration, handler: H) -> (r: NeoApiConfig<H>)
        ensures
            r.ping_delay() == ping_delay,
            r.handler() == handler,
    {
        NeoApiConfig { ping_delay, handler }
    }

    pub fn get_handler(&self) -> (r: &H)
        ensures
            *r == self.handler(),
    {
        &self.handler
    }

    pub fn get_ping_delay(&self) -> (r: Duration)
        ensures
            r == self.ping_delay(),
    {
        self.ping_delay
    }
}

} // verus!

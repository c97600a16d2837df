//! Server configuration: where to listen and how many live events to buffer.
use vstd::prelude::*;
use crate::text::{decimal, push_str, string_with_capacity, to_owned_string, u64_to_string};

verus! {

#[derive(Clone, Debug)]
pub struct ServerConfig {
    pub host: String,
    pub port: u16,
    pub live_bus_capacity: usize,
}

impl Default for ServerConfig {
    fn default() -> (c: Self)
        ensures
            c.host@ == "0.0.0.0"@,
            c.port == 3000,
            c.live_bus_capacity == 256,
    {
        ServerConfig { host: to_owned_string("0.0.0.0"), port: 3000, live_bus_capacity: 256 }
    }
}

impl ServerConfig {
    pub fn new() -> (c: Self)
        ensures
            c.host@ == "0.0.0.0"@,
            c.port == 3000,
            c.live_bus_capacity == 256,
    {
        ServerConfig::default()
    }

    pub fn port(self, port: u16) -> (c: Self)
        ensures
            c == (ServerConfig { port, ..self }),
    {
        ServerConfig { port, ..self }
    }

    pub fn host(self, host: &str) -> (c: Self)
        ensures
            c == (ServerConfig { host: c.host, ..self }),
            c.host@ == host@,
    {
        ServerConfig { host: to_owned_string(host), ..self }
    }

    /// The address to listen on: host and port.
    pub fn addr(&self) -> (s: String)
        ensures
            s@ == self.host@ + ":"@ + decimal(self.port as nat),
    {
        let mut s = string_with_capacity(0);
        push_str(&mut s, self.host.as_str());
        push_str(&mut s, ":");
        let p = u64_to_string(self.port as u64);
        push_str(&mut s, p.as_str());
        s
    }
}

} // verus!

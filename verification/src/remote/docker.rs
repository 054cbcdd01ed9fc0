//! Docker connections: where to connect, and what may be sent once connected.

use crate::json;
use crate::json::{Json, Jv};
use crate::remote::protocol;
use crate::text;
use vstd::prelude::*;

verus! {

/// Docker container connection configuration.
#[derive(Debug, PartialEq, Eq)]
pub struct DockerConfig {
    pub container_name: String,
    pub host: String,
    pub port: u16,
}

/// The socket is not connected to a container.
#[derive(Debug, PartialEq, Eq)]
pub struct NotConnected;

impl NotConnected {
    /// The message of the error.
    pub fn to_string(&self) -> (r: String)
        ensures
            r@ == "not connected to Docker container"@,
    {
        String::from_str("not connected to Docker container")
    }
}

/// Docker-based remote file client: the state of its connection.
#[derive(Debug)]
pub struct DockerClient {
    pub config: DockerConfig,
    connected: bool,
}

/// The address of a container.
pub open spec fn address_of(host: Seq<char>, port: u16) -> Seq<char> {
    host + ":"@ + text::decimal(port as nat)
}

/// What reading a line says: nothing once the connection is closed.
pub open spec fn received(line: Seq<char>) -> Option<Jv> {
    if line.len() == 0 {
        None
    } else {
        protocol::message_of(line)
    }
}

impl DockerClient {
    /// Whether the socket is connected.
    pub closed spec fn open(self) -> bool {
        self.connected
    }

    /// Where the client connects to.
    pub closed spec fn target(self) -> DockerConfig {
        self.config
    }

    /// Create a new Docker client (does not connect yet).
    pub fn new(config: DockerConfig) -> (r: Self)
        ensures
            r.target() == config,
            !r.open(),
    {
        DockerClient { config, connected: false }
    }

    /// The address to connect to.
    pub fn address(&self) -> (r: String)
        ensures
            r@ == address_of(self.target().host@, self.target().port),
    {
        let mut r = text::concat(self.config.host.as_str(), ":");
        text::push_decimal(self.config.port as u64, &mut r);
        r
    }

    /// Record that the socket is connected.
    pub fn connected(&mut self)
        ensures
            final(self).open(),
            final(self).target() == old(self).target(),
    {
        self.connected = true;
    }

    /// The bytes that send a JSON message to the Docker container.
    pub fn send_message(&self, message: &Json) -> (r: Result<Vec<u8>, NotConnected>)
        ensures
            self.open() ==> r is Ok && r->Ok_0@ == protocol::message_bytes(message@),
            !self.open() ==> r == Err::<Vec<u8>, NotConnected>(NotConnected),
    {
        if self.connected {
            Ok(protocol::encode_message(message))
        } else {
            Err(NotConnected)
        }
    }

    /// The JSON message that a line of the Docker container holds; the line is empty once the
    /// connection is closed.
    pub fn recv_message(&self, line: &str) -> (r: Result<Option<Json>, NotConnected>)
        ensures
            self.open() ==> r is Ok && match received(line@) {
                Some(v) => r->Ok_0 is Some && (r->Ok_0->0)@ == v,
                None => r->Ok_0 is None,
            },
            !self.open() ==> r == Err::<Option<Json>, NotConnected>(NotConnected),
    {
        if !self.connected {
            return Err(NotConnected);
        }
        if line.is_empty() {
            return Ok(None);
        }
        Ok(protocol::decode_message(line))
    }

    /// Check if connected.
    pub fn is_connected(&self) -> (r: bool)
        ensures
            r == self.open(),
    {
        self.connected
    }
}

} // verus!

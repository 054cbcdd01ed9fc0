//! SSH connections.

use vstd::prelude::*;

verus! {

/// SSH connection configuration.
#[derive(Debug, PartialEq, Eq)]
pub struct SshConfig {
    pub hostname: String,
    pub port: u16,
    pub username: String,
    /// Authentication: key file path, or None for agent-based auth.
    pub key_file: Option<String>,
    /// Password (fallback if key auth fails).
    pub password: Option<String>,
}

/// SSH-based remote file client.
#[derive(Debug)]
pub struct SshClient {
    pub config: SshConfig,
}

impl SshClient {
    /// Create a new SSH client (does not connect yet).
    pub fn new(config: SshConfig) -> (r: Self)
        ensures
            r.config == config,
    {
        SshClient { config }
    }
}

} // verus!

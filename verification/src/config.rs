//! The validated runtime configuration the tunnel's two modes consume. How
//! it is read from disk is a caller's concern; validation — the mode named
//! must come with its section — is decided here.

use vstd::prelude::*;

verus! {

/// Which half of the tunnel this process runs.
#[derive(Clone, Copy, Debug, PartialEq, Eq, Structural)]
pub enum Mode {
    Server,
    Client,
}

/// Settings of the server half: where it listens for tunnel connections,
/// which backend it relays every logical stream to, and the pump sizing.
#[derive(Clone, Debug)]
pub struct ServerConfig {
    pub listen_ip: String,
    pub listen_port: u16,
    pub backend_ip: String,
    pub backend_port: u16,
    pub connection_pool_size: usize,
    pub buffer_size: usize,
}

/// Settings of the client half: where it accepts local connections, which
/// server it tunnels them to, how many physical connections it establishes,
/// the pump buffer size, and whether the pool is pre-established in full
/// before local connections are accepted.
#[derive(Clone, Debug)]
pub struct ClientConfig {
    pub local_listen_ip: String,
    pub local_listen_port: u16,
    pub server_ip: String,
    pub server_port: u16,
    pub connection_pool_size: usize,
    pub buffer_size: usize,
    pub enable_zero_rtt: bool,
}

/// The whole configuration: a mode, and a section per mode that may or may
/// not be present — `validate` checks that the selected one is.
#[derive(Clone, Debug)]
pub struct Config {
    pub mode: Mode,
    pub server: Option<ServerConfig>,
    pub client: Option<ClientConfig>,
}

/// Rejected configuration: the section the selected mode needs is missing.
/// Fatal at startup, before any network activity.
#[derive(Clone, Copy, Debug, PartialEq, Eq, Structural)]
pub enum ConfigError {
    /// Server mode without a `server` section.
    MissingServerSection,
    /// Client mode without a `client` section.
    MissingClientSection,
}

impl ConfigError {
    /// The description surfaced to the operator.
    pub fn message(&self) -> (r: &'static str)
        ensures
            self is MissingServerSection ==> r@ == "Server mode requires server configuration"@,
            self is MissingClientSection ==> r@ == "Client mode requires client configuration"@,
    {
        match self {
            ConfigError::MissingServerSection => "Server mode requires server configuration",
            ConfigError::MissingClientSection => "Client mode requires client configuration",
        }
    }
}

impl Config {
    /// Accepts the configuration exactly when the section for the selected
    /// mode is present; each mode's absence is its own error.
    pub fn validate(&self) -> (r: Result<(), ConfigError>)
        ensures
            r is Ok <==> (self.mode is Server ==> self.server is Some) && (self.mode is Client
                ==> self.client is Some),
            r == Err::<(), ConfigError>(ConfigError::MissingServerSection) <==> (self.mode
                is Server && self.server is None),
            r == Err::<(), ConfigError>(ConfigError::MissingClientSection) <==> (self.mode
                is Client && self.client is None),
    {
        match self.mode {
            Mode::Server => {
                if self.server.is_none() {
                    return Err(ConfigError::MissingServerSection);
                }
            }
            Mode::Client => {
                if self.client.is_none() {
                    return Err(ConfigError::MissingClientSection);
                }
            }
        }
        Ok(())
    }
}

} // verus!

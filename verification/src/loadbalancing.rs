//! What the connection code needs of the choice among upstream servers: the
//! description of the chosen server, and a place to report that it failed.

use crate::config::ServerConfig;
use vstd::prelude::*;

verus! {

/// A server as the chooser knows it.
pub struct ServerIdent {
    config: ServerConfig,
    failures: u64,
}

impl ServerIdent {
    pub closed spec fn spec_server_config(&self) -> ServerConfig {
        self.config
    }

    pub closed spec fn spec_failures(&self) -> u64 {
        self.failures
    }

    /// A server with no failure reported.
    pub fn new(config: ServerConfig) -> (server: ServerIdent)
        ensures
            server.spec_server_config() == config,
            server.spec_failures() == 0,
    {
        ServerIdent { config, failures: 0 }
    }

    /// The description of the server.
    pub fn server_config(&self) -> (config: &ServerConfig)
        ensures
            *config == self.spec_server_config(),
    {
        &self.config
    }

    /// Number of failures reported so far.
    #[verifier::when_used_as_spec(spec_failures)]
    pub fn failures(&self) -> (n: u64)
        ensures
            n == self.spec_failures(),
    {
        self.failures
    }

    /// Reports that a connection to the server failed. The count stops at the
    /// largest 64-bit number.
    pub fn report_failure(&mut self)
        ensures
            final(self).spec_server_config() == old(self).spec_server_config(),
            final(self).spec_failures() == (if old(self).spec_failures() < u64::MAX {
                (old(self).spec_failures() + 1) as u64
            } else {
                u64::MAX
            }),
    {
        if self.failures < u64::MAX {
            self.failures = self.failures + 1;
        }
    }
}

} // verus!

//! Geyser gRPC streaming (the client is not implemented yet).

use vstd::prelude::*;

verus! {

/// Geyser stream configuration.
#[derive(Debug, Clone)]
pub struct GeyserConfig {
    pub endpoint: String,
    pub x_token: Option<String>,
}

/// Geyser stream client.
pub struct GeyserStream {
    config: GeyserConfig,
}

impl GeyserStream {
    pub closed spec fn config_spec(&self) -> GeyserConfig {
        self.config
    }

    /// A client for the given configuration.
    pub fn new(config: GeyserConfig) -> (s: Self)
        ensures
            s.config_spec() == config,
    {
        Self { config }
    }

    /// The endpoint this client would connect to.
    pub fn endpoint(&self) -> (r: &str)
        ensures
            r@ == self.config_spec().endpoint@,
    {
        self.config.endpoint.as_str()
    }
}

} // verus!

use vstd::prelude::*;

verus! {

/// Why a proxy configuration was rejected.
#[derive(Debug, Clone, Copy, PartialEq, Eq, Structural)]
pub enum ProxyValidateError {
    MissingName,
    MissingUpstream,
    MissingListen,
}

/// The immutable configuration of one proxy.
#[derive(Debug, PartialEq, Eq)]
pub struct ProxyConfig {
    /// An arbitrary name.
    pub name: String,
    /// The host and port the proxy listens on, like `127.0.0.1:5431`.
    pub listen: String,
    /// The host and port the proxy connects to, like `127.0.0.1:5432`.
    pub upstream: String,
    /// A disabled proxy is not started. Proxies are enabled by default.
    pub enabled: bool,
    /// Seed for toxics that draw random numbers; never serialized.
    pub rand_seed: Option<u64>,
}

impl Clone for ProxyConfig {
    fn clone(&self) -> (r: Self)
        ensures
            r == *self,
    {
        ProxyConfig {
            name: self.name.clone(),
            listen: self.listen.clone(),
            upstream: self.upstream.clone(),
            enabled: self.enabled,
            rand_seed: self.rand_seed,
        }
    }
}

/// What `validate` reports for a configuration with the given fields.
pub open spec fn validation_of(name: Seq<char>, listen: Seq<char>, upstream: Seq<char>) -> Result<(), ProxyValidateError> {
    if name.len() == 0 {
        Err(ProxyValidateError::MissingName)
    } else if upstream.len() == 0 {
        Err(ProxyValidateError::MissingUpstream)
    } else if listen.len() == 0 {
        Err(ProxyValidateError::MissingListen)
    } else {
        Ok(())
    }
}

/// The value of `enabled` when a serialized configuration leaves it out.
pub fn default_enabled() -> (r: bool)
    ensures
        r,
{
    true
}

impl ProxyConfig {
    /// A configuration is valid when its name, listen address and upstream
    /// address are all non-empty. The first missing one, in that order of
    /// name, upstream, listen, is reported.
    pub fn validate(&self) -> (r: Result<(), ProxyValidateError>)
        ensures
            r == validation_of(self.name@, self.listen@, self.upstream@),
            r is Ok <==> (self.name@.len() > 0 && self.listen@.len() > 0 && self.upstream@.len() > 0),
    {
        if self.name.as_str().is_empty() {
            Err(ProxyValidateError::MissingName)
        } else if self.upstream.as_str().is_empty() {
            Err(ProxyValidateError::MissingUpstream)
        } else if self.listen.as_str().is_empty() {
            Err(ProxyValidateError::MissingListen)
        } else {
            Ok(())
        }
    }
}

} // verus!

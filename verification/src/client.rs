//! Client configuration: the builder behind the blocking and async
//! clients, and what it resolves to (base URLs, timeout, gateway auth).

use std::time::Duration;
use vstd::prelude::*;
use vstd::string::StringExecFns;
use crate::auth::{host_of_url, opt_view, pinned_token, store_auth_url, stored_auth_server, GatewayAuth};
use crate::error::{Error, Result};
use crate::json::Json;
use crate::wire::{
    base_url, base_url_for, base_url_with_port, invalid_host_message, service_base, service_base_for,
    DEBUG_SERVICE_PORT, DEFAULT_PORT,
};

verus! {

/// Builder for a client, for overriding the default timeout, the
/// debug-service URL, and gateway auth.
#[derive(Debug)]
pub struct LagerBoxBuilder {
    /// Host string the client connects to.
    pub host: String,
    /// Debug-service URL override.
    pub debug_url: Option<String>,
    /// Default timeout override (the client's 10 s default when unset).
    pub timeout: Option<Duration>,
    /// Bearer token pinned for every request.
    pub bearer_token: Option<String>,
}

/// The builder of an async client: the same settings.
pub type AsyncLagerBoxBuilder = LagerBoxBuilder;

/// What a client is set up with.
#[derive(Debug)]
pub struct ClientSetup {
    /// Base URL of the box HTTP server, e.g. `http://192.168.1.42:9000`.
    pub base: String,
    /// Base URL of the box debug service.
    pub debug_base: String,
    /// Default timeout override (the client's 10 s default when unset).
    pub timeout: Option<Duration>,
    /// Gateway auth state.
    pub auth: GatewayAuth,
}

impl LagerBoxBuilder {
    /// Start building a client for `host`; `env_debug_url` is the debug
    /// service URL named by the environment, if any.
    pub fn new(host: &str, env_debug_url: Option<String>) -> (b: LagerBoxBuilder)
        ensures
            b.host@ == host@,
            b.debug_url == env_debug_url,
            b.timeout is None,
            b.bearer_token is None,
    {
        LagerBoxBuilder { host: String::from_str(host), debug_url: env_debug_url, timeout: None, bearer_token: None }
    }

    /// Override the default HTTP timeout for quick commands (10 s unless
    /// changed). Long-running actions still compute their own budgets.
    pub fn timeout(self, timeout: Duration) -> (b: LagerBoxBuilder)
        ensures
            b.timeout == Some(timeout),
            b.host == self.host,
            b.debug_url == self.debug_url,
            b.bearer_token == self.bearer_token,
    {
        LagerBoxBuilder { timeout: Some(timeout), ..self }
    }

    /// Override the debug-service base URL (default: the box host on port
    /// 8765), e.g. when it is reached through an SSH tunnel.
    pub fn debug_service_url(self, url: &str) -> (b: LagerBoxBuilder)
        ensures
            b.debug_url matches Some(u) && u@ == url@,
            b.host == self.host,
            b.timeout == self.timeout,
            b.bearer_token == self.bearer_token,
    {
        LagerBoxBuilder { debug_url: Some(String::from_str(url)), ..self }
    }

    /// Attach `Authorization: Bearer <token>` to every request, for boxes
    /// behind an authenticating gateway.
    pub fn bearer_token(self, token: &str) -> (b: LagerBoxBuilder)
        ensures
            b.bearer_token matches Some(t) && t@ == token@,
            b.host == self.host,
            b.timeout == self.timeout,
            b.debug_url == self.debug_url,
    {
        LagerBoxBuilder { bearer_token: Some(String::from_str(token)), ..self }
    }

    /// Resolve the settings: normalize the base URLs and set up gateway
    /// auth. `env_token` is the token named by the environment; `store` is
    /// the token store, which may already map this box to an auth server.
    pub fn build(self, env_token: Option<String>, store: &Json) -> (r: Result<ClientSetup>)
        ensures
            match base_url_for(self.host@, DEFAULT_PORT) {
                None => r matches Err(Error::Config(m)) && m@ == invalid_host_message(self.host@),
                Some(base) => match self.debug_url {
                    Some(u) if base_url_for(u@, DEBUG_SERVICE_PORT) is None =>
                        r matches Err(Error::Config(m)) && m@ == invalid_host_message(u@),
                    _ => r matches Ok(c) && c.base@ == base && c.debug_base@ == (match self.debug_url {
                        Some(u) => base_url_for(u@, DEBUG_SERVICE_PORT)->0,
                        None => service_base_for(base, DEBUG_SERVICE_PORT),
                    }) && c.timeout == self.timeout && c.auth@.box_host == host_of_url(base)
                        && c.auth@.static_token == pinned_token(opt_view(self.bearer_token), opt_view(env_token))
                        && c.auth@.auth_url == store_auth_url(*store, host_of_url(base))
                        && c.auth@.token is None,
                },
            },
    {
        let base = match base_url(self.host.as_str()) {
            Ok(b) => b,
            Err(e) => return Err(e),
        };
        let debug_base = match &self.debug_url {
            Some(u) => match base_url_with_port(u.as_str(), DEBUG_SERVICE_PORT) {
                Ok(d) => d,
                Err(e) => return Err(e),
            },
            None => service_base(base.as_str(), DEBUG_SERVICE_PORT),
        };
        let host = crate::auth::host_of(base.as_str());
        let stored = stored_auth_server(store, host.as_str());
        let auth = GatewayAuth::new(base.as_str(), self.bearer_token, env_token, stored);
        Ok(ClientSetup { base, debug_base, timeout: self.timeout, auth })
    }
}

} // verus!

//! The server component: the configured listen address and the one shared
//! cache that every connection handler works against. Binding the listener,
//! accepting connections and spawning handlers are transport work and stay
//! with the caller; this type owns the configuration and the cache.

use std::sync::Arc;
use vstd::prelude::*;

use crate::cache::{CacheFactory, SimpleCache};

verus! {

/// The host the server binds by default.
pub const DEFAULT_HOST: &'static str = "127.0.0.1";

/// The port the server binds by default.
pub const DEFAULT_PORT: u16 = 5050;

/// A cache server: where to listen, and the single cache shared by all
/// connections.
pub struct CacheServer {
    host: String,
    port: u16,
    cache: Arc<SimpleCache>,
}

impl CacheServer {
    /// The configured host.
    pub closed spec fn spec_host(&self) -> Seq<char> {
        self.host@
    }

    /// The configured port.
    pub closed spec fn spec_port(&self) -> u16 {
        self.port
    }

    /// A server that will listen on `host:port`, with a fresh empty cache.
    pub fn new(host: &str, port: u16) -> (r: CacheServer)
        ensures
            r.spec_host() == host@,
            r.spec_port() == port,
    {
        CacheServer { host: host.to_owned(), port, cache: CacheFactory::new_cache() }
    }

    /// A server on the default host and port.
    pub fn default() -> (r: CacheServer)
        ensures
            r.spec_host() == DEFAULT_HOST@,
            r.spec_port() == DEFAULT_PORT,
    {
        CacheServer::new(DEFAULT_HOST, DEFAULT_PORT)
    }

    /// The host to bind.
    pub fn host(&self) -> (r: &String)
        ensures
            r@ == self.spec_host(),
    {
        &self.host
    }

    /// The port to bind.
    pub fn port(&self) -> (r: u16)
        ensures
            r == self.spec_port(),
    {
        self.port
    }

    /// The shared cache, for handing to each accepted connection.
    pub fn cache(&self) -> &Arc<SimpleCache> {
        &self.cache
    }
}

} // verus!

use vstd::prelude::*;
use crate::obfs::ObfsConfig;

verus! {

/// A socket address in plain form: the IP as a 128-bit integer (IPv4
/// addresses in their IPv6-mapped form) and the port. Peers are distinct
/// by the full pair.
#[derive(PartialEq, Eq, Structural, Clone, Copy, Debug)]
pub struct SockAddr {
    pub ip: u128,
    pub port: u16,
}

/// One side of a server: the already-resolved address to bind or connect
/// to, the receive buffer size in bytes, and a timeout in whole seconds.
pub struct EndpointConfig {
    pub address: SockAddr,
    pub buffer: usize,
    pub timeout: u64,
}

/// Everything one relay instance needs: a name for log lines, the
/// obfuscation parameters, and the relay and upstream endpoints.
pub struct ServerConfig {
    pub name: String,
    pub obfs: ObfsConfig,
    pub relay: EndpointConfig,
    pub upstream: EndpointConfig,
}

/// The whole configuration: one entry per server instance.
pub struct Config {
    pub servers: Vec<ServerConfig>,
}

impl ServerConfig {
    /// A server configuration is usable when its obfuscation key is
    /// non-empty; everything else is unconstrained.
    pub open spec fn wf(&self) -> bool {
        self.obfs.wf()
    }

    /// Check this server's configuration. A `false` result means the key
    /// is empty, which is fatal to this server alone.
    pub fn validate(&self) -> (ok: bool)
        ensures
            ok == self.wf(),
    {
        self.obfs.key.len() > 0
    }
}

impl Config {
    /// Check every server entry; `true` exactly when all of them are
    /// usable. Servers are validated independently: a bad entry does not
    /// keep the others from running.
    pub fn validate(&self) -> (ok: bool)
        ensures
            ok == forall|i: int| 0 <= i < self.servers@.len() ==> self.servers@[i].wf(),
    {
        let n: usize = self.servers.len();
        let mut i: usize = 0;
        while i < n
            invariant
                n == self.servers@.len(),
                i <= n,
                forall|j: int| 0 <= j < i ==> self.servers@[j].wf(),
            decreases n - i,
        {
            if !self.servers[i].validate() {
                return false;
            }
            i += 1;
        }
        true
    }
}

} // verus!

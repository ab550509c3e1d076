//! Parsed configuration, as the tunnel core consumes it. Reading and
//! parsing the configuration file happen outside; the core receives plain
//! values: ports, keys as bytes, and addresses as their ASCII bytes (the
//! form in which an address travels inside the auth exchange).

use vstd::prelude::*;

verus! {

/// One configured tunnel on the server: the shared key.
pub struct TcpTunnelServerConfig {
    /// The tunnel key; the obfuscation keystream and never empty.
    pub key: Vec<u8>,
}

/// The server's configuration: the control port and the configured
/// tunnels, each under its name.
pub struct ServerConfig {
    /// The port the server accepts control connections on.
    pub listen_port: u16,
    /// The configured tunnels, name to tunnel entry.
    pub tunnel: Vec<(Vec<u8>, TcpTunnelServerConfig)>,
}

/// Whether position `i` of `tunnel` is the first entry named `name`.
pub open spec fn first_tunnel_match(
    tunnel: Seq<(Vec<u8>, TcpTunnelServerConfig)>,
    name: Seq<u8>,
    i: int,
) -> bool {
    &&& 0 <= i < tunnel.len()
    &&& tunnel[i].0@ == name
    &&& forall|j: int| 0 <= j < i ==> #[trigger] tunnel[j].0@ != name
}

impl ServerConfig {
    /// A usable configuration: every configured tunnel has a non-empty
    /// key, so each can serve as an obfuscation keystream.
    pub open spec fn wf(&self) -> bool {
        forall|i: int| 0 <= i < self.tunnel@.len() ==> #[trigger] self.tunnel@[i].1.key@.len() >= 1
    }

    /// Finds the first configured tunnel of the given name, if any.
    pub fn find_tunnel(&self, name: &[u8]) -> (r: Option<&TcpTunnelServerConfig>)
        ensures
            r is Some <==> exists|i: int|
                0 <= i < self.tunnel@.len() && #[trigger] self.tunnel@[i].0@ == name@,
            r matches Some(c) ==> exists|i: int|
                #[trigger] first_tunnel_match(self.tunnel@, name@, i) && c.key@
                    == self.tunnel@[i].1.key@,
    {
        let mut i: usize = 0;
        while i < self.tunnel.len()
            invariant
                i <= self.tunnel@.len(),
                forall|j: int| 0 <= j < i ==> #[trigger] self.tunnel@[j].0@ != name@,
            decreases self.tunnel@.len() - i,
        {
            if bytes_eq(self.tunnel[i].0.as_slice(), name) {
                proof {
                    assert(first_tunnel_match(self.tunnel@, name@, i as int));
                }
                return Some(&self.tunnel[i].1);
            }
            i += 1;
        }
        None
    }
}

/// One configured tunnel on the client: where the server should listen,
/// where the client dials locally, and the shared key.
pub struct TcpTunnelClientConfig {
    /// The public address the server should listen on, as ASCII bytes.
    pub remote_addr: Vec<u8>,
    /// The local target the client dials for each child, as ASCII bytes.
    pub local_addr: Vec<u8>,
    /// The tunnel key; the obfuscation keystream and never empty.
    pub key: Vec<u8>,
}

/// The client's configuration: the server to dial, the reconnect delay,
/// and the configured tunnels, each under its name.
pub struct ClientConfig {
    /// The server's control address, as ASCII bytes.
    pub server_addr: Vec<u8>,
    /// Seconds to sleep before reconnecting after the tunnel fails.
    pub reconn: u64,
    /// The configured tunnels, name to tunnel entry.
    pub tunnel: Vec<(Vec<u8>, TcpTunnelClientConfig)>,
}

/// Whether two byte strings hold the same bytes.
pub fn bytes_eq(a: &[u8], b: &[u8]) -> (r: bool)
    ensures
        r <==> a@ == b@,
{
    if a.len() != b.len() {
        proof {
            assert(a@ != b@) by {
                assert(a@.len() != b@.len());
            }
        }
        return false;
    }
    let mut i: usize = 0;
    while i < a.len()
        invariant
            a@.len() == b@.len(),
            i <= a@.len(),
            forall|j: int| 0 <= j < i ==> a@[j] == b@[j],
        decreases a@.len() - i,
    {
        if a[i] != b[i] {
            return false;
        }
        i += 1;
    }
    proof {
        assert(a@ =~= b@);
    }
    true
}

} // verus!

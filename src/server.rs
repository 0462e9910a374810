//! The proxy's configuration: its routes and the two addresses it listens on,
//! and the snapshot that carries them across restarts.
use vstd::prelude::*;

use crate::routes::{
    after_registering, lemma_listing_rebuilds, lists_routes, pairs_of, IpAddress, RouteTable,
    SocketAddress,
};

verus! {

/// The conventional port of the game protocol, where the proxy listens by default.
pub const DEFAULT_PROXY_PORT: u16 = 25565;

/// The conventional HTTP port, where the control endpoint listens by default.
pub const DEFAULT_CONTROL_PORT: u16 = 80;

/// The port that a self-registering backend is assumed to serve on.
pub const BACKEND_PORT: u16 = 25565;

/// The unspecified IPv6 address on `port`: every interface.
pub open spec fn any_address(port: u16) -> SocketAddress {
    SocketAddress { ip: IpAddress::V6(0), port }
}

/// The routes and listen addresses of a running proxy.
pub struct Server {
    pub routes: RouteTable,
    pub proxy_listen: SocketAddress,
    pub control_listen: SocketAddress,
}

/// The persisted form of a server: its routes as a list and its listen addresses.
pub struct Snapshot {
    pub routes: Vec<(String, SocketAddress)>,
    pub proxy_listen: SocketAddress,
    pub control_listen: SocketAddress,
}

impl Server {
    /// The configuration used when no snapshot exists: no routes, the proxy on
    /// the protocol's port and the control endpoint on the HTTP port, both on
    /// every interface.
    pub fn default_server() -> (s: Server)
        ensures
            s.routes@.dom().is_empty(),
            s.proxy_listen == any_address(DEFAULT_PROXY_PORT),
            s.control_listen == any_address(DEFAULT_CONTROL_PORT),
    {
        Server {
            routes: RouteTable::new(),
            proxy_listen: SocketAddress { ip: IpAddress::V6(0), port: DEFAULT_PROXY_PORT },
            control_listen: SocketAddress { ip: IpAddress::V6(0), port: DEFAULT_CONTROL_PORT },
        }
    }

    /// Rebuilds a server from a snapshot. Routes are registered in list order,
    /// so a hostname listed twice keeps its last backend.
    pub fn from_snapshot(snapshot: Snapshot) -> (s: Server)
        ensures
            s.routes@ == after_registering(Map::empty(), pairs_of(snapshot.routes@)),
            s.proxy_listen == snapshot.proxy_listen,
            s.control_listen == snapshot.control_listen,
    {
        let mut routes = RouteTable::new();
        let list = &snapshot.routes;
        let mut i: usize = 0;
        while i < list.len()
            invariant
                i <= list@.len(),
                routes@ == after_registering(Map::empty(), pairs_of(list@.take(i as int))),
            decreases list@.len() - i,
        {
            let hostname = list[i].0.clone();
            let backend = list[i].1;
            routes.register(hostname, backend);
            proof {
                let next = pairs_of(list@.take(i + 1));
                assert(next.drop_last() =~= pairs_of(list@.take(i as int)));
            }
            i = i + 1;
        }
        assert(list@.take(list@.len() as int) =~= list@);
        Server {
            routes,
            proxy_listen: snapshot.proxy_listen,
            control_listen: snapshot.control_listen,
        }
    }

    /// The snapshot of this server: every route once, in no particular order,
    /// and the two listen addresses.
    pub fn snapshot(&self) -> (s: Snapshot)
        ensures
            lists_routes(s.routes@, self.routes@),
            s.proxy_listen == self.proxy_listen,
            s.control_listen == self.control_listen,
    {
        Snapshot {
            routes: self.routes.entries(),
            proxy_listen: self.proxy_listen,
            control_listen: self.control_listen,
        }
    }

    /// Handles a self-registration: `hostname` is routed to the requester's
    /// address on the backend port. Any caller may claim or overwrite any
    /// hostname; nothing is authenticated.
    pub fn register_route(&mut self, hostname: String, requester: IpAddress)
        ensures
            final(self).routes@ == old(self).routes@.insert(
                hostname@,
                SocketAddress { ip: requester, port: BACKEND_PORT },
            ),
            final(self).proxy_listen == old(self).proxy_listen,
            final(self).control_listen == old(self).control_listen,
    {
        self.routes.register(hostname, SocketAddress { ip: requester, port: BACKEND_PORT });
    }
}

impl Default for Server {
    /// The same as [`Server::default_server`].
    fn default() -> (s: Server)
        ensures
            s.routes@.dom().is_empty(),
            s.proxy_listen == any_address(DEFAULT_PROXY_PORT),
            s.control_listen == any_address(DEFAULT_CONTROL_PORT),
    {
        Server::default_server()
    }
}

/// Saving a server and loading the snapshot back gives the same routes and
/// the same listen addresses.
pub proof fn lemma_snapshot_round_trip(server: Server, saved: Snapshot)
    requires
        lists_routes(saved.routes@, server.routes@),
        saved.proxy_listen == server.proxy_listen,
        saved.control_listen == server.control_listen,
    ensures
        after_registering(Map::empty(), pairs_of(saved.routes@)) == server.routes@,
        saved.proxy_listen == server.proxy_listen,
        saved.control_listen == server.control_listen,
{
    lemma_listing_rebuilds(saved.routes@, server.routes@);
}

} // verus!

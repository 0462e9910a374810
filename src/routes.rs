//! Backend addresses and the hostname → backend route table.
use vstd::prelude::*;

use dashmap::DashMap;

verus! {

/// An IP address: version 4 as a 32-bit number, version 6 as a 128-bit number
/// (both in network order, most significant byte first).
#[derive(Clone, Copy, Debug, PartialEq, Eq, Structural, Hash)]
pub enum IpAddress {
    V4(u32),
    V6(u128),
}

/// An IP address and a port.
#[derive(Clone, Copy, Debug, PartialEq, Eq, Structural, Hash)]
pub struct SocketAddress {
    pub ip: IpAddress,
    pub port: u16,
}

#[verifier::external_type_specification]
#[verifier::external_body]
#[verifier::reject_recursive_types(K)]
#[verifier::reject_recursive_types(V)]
#[verifier::reject_recursive_types(S)]
pub struct ExDashMap<K, V, S>(DashMap<K, V, S>);

/// The hostname → backend entries that a map holds.
pub uninterp spec fn dash_entries(m: DashMap<String, SocketAddress>) -> Map<Seq<char>, SocketAddress>;

/// Relies on `DashMap::new`: a new map holds no entries.
#[verifier::external_body]
fn dash_new() -> (r: DashMap<String, SocketAddress>)
    ensures
        dash_entries(r).dom().is_empty(),
{
    DashMap::new()
}

/// Relies on `DashMap::insert`: the key then maps to the given value and every
/// other entry stays as it was.
#[verifier::external_body]
fn dash_insert(m: &mut DashMap<String, SocketAddress>, key: String, value: SocketAddress)
    ensures
        dash_entries(*final(m)) == dash_entries(*old(m)).insert(key@, value),
{
    m.insert(key, value);
}

/// Relies on `DashMap::get`: the value stored under the key, if any.
#[verifier::external_body]
fn dash_get(m: &DashMap<String, SocketAddress>, key: &str) -> (r: Option<SocketAddress>)
    ensures
        r == route_of(dash_entries(*m), key@),
{
    m.get(key).map(|e| *e.value())
}

/// Relies on `DashMap::iter`: every entry is visited once, in no particular order.
#[verifier::external_body]
fn dash_list(m: &DashMap<String, SocketAddress>) -> (r: Vec<(String, SocketAddress)>)
    ensures
        lists_routes(r@, dash_entries(*m)),
{
    m.iter().map(|e| (e.key().clone(), *e.value())).collect()
}

/// The backend that `m` gives for `host`, if any.
pub open spec fn route_of(m: Map<Seq<char>, SocketAddress>, host: Seq<char>) -> Option<
    SocketAddress,
> {
    if m.contains_key(host) {
        Some(m[host])
    } else {
        None
    }
}

/// `v` lists each entry of `m` exactly once, in any order.
pub open spec fn lists_routes(
    v: Seq<(String, SocketAddress)>,
    m: Map<Seq<char>, SocketAddress>,
) -> bool {
    &&& forall|i: int, j: int| 0 <= i < j < v.len() ==> v[i].0@ != v[j].0@
    &&& forall|i: int| 0 <= i < v.len() ==> m.contains_key(#[trigger] v[i].0@) && m[v[i].0@] == v[i].1
    &&& forall|k: Seq<char>| m.contains_key(k) ==> exists|i: int| 0 <= i < v.len() && v[i].0@ == k
}

/// The map that registering the pairs of `v` in order, starting from `m`, leaves.
pub open spec fn after_registering(
    m: Map<Seq<char>, SocketAddress>,
    v: Seq<(Seq<char>, SocketAddress)>,
) -> Map<Seq<char>, SocketAddress>
    decreases v.len(),
{
    if v.len() == 0 {
        m
    } else {
        after_registering(m, v.drop_last()).insert(v.last().0, v.last().1)
    }
}

/// The pairs of a listing, with each hostname as its characters.
pub open spec fn pairs_of(v: Seq<(String, SocketAddress)>) -> Seq<(Seq<char>, SocketAddress)> {
    v.map_values(|p: (String, SocketAddress)| (p.0@, p.1))
}

/// The hostname → backend routes that decide where each session goes.
pub struct RouteTable {
    entries: DashMap<String, SocketAddress>,
}

impl View for RouteTable {
    type V = Map<Seq<char>, SocketAddress>;

    closed spec fn view(&self) -> Map<Seq<char>, SocketAddress> {
        dash_entries(self.entries)
    }
}

impl RouteTable {
    /// A table with no routes.
    pub fn new() -> (t: RouteTable)
        ensures
            t@ == Map::<Seq<char>, SocketAddress>::empty(),
    {
        RouteTable { entries: dash_new() }
    }

    /// Routes `hostname` to `backend`, replacing any earlier route for it.
    pub fn register(&mut self, hostname: String, backend: SocketAddress)
        ensures
            final(self)@ == old(self)@.insert(hostname@, backend),
    {
        dash_insert(&mut self.entries, hostname, backend);
    }

    /// The backend registered for `hostname`, if any.
    pub fn lookup(&self, hostname: &str) -> (r: Option<SocketAddress>)
        ensures
            r == route_of(self@, hostname@),
    {
        dash_get(&self.entries, hostname)
    }

    /// Every route, each once, in no particular order.
    pub fn entries(&self) -> (r: Vec<(String, SocketAddress)>)
        ensures
            lists_routes(r@, self@),
    {
        dash_list(&self.entries)
    }
}

/// Once `host` is registered to `backend`, looking it up gives `backend`, and
/// so it stays while only other hostnames are registered.
pub proof fn lemma_lookup_after_register(
    m: Map<Seq<char>, SocketAddress>,
    host: Seq<char>,
    backend: SocketAddress,
    later: Seq<(Seq<char>, SocketAddress)>,
)
    requires
        forall|i: int| 0 <= i < later.len() ==> later[i].0 != host,
    ensures
        route_of(after_registering(m.insert(host, backend), later), host) == Some(backend),
    decreases later.len(),
{
    if later.len() > 0 {
        lemma_lookup_after_register(m, host, backend, later.drop_last());
    }
}

/// Registering the pairs of a complete listing of `m`, in its order, into an
/// empty table rebuilds `m` exactly.
pub proof fn lemma_listing_rebuilds(v: Seq<(String, SocketAddress)>, m: Map<Seq<char>, SocketAddress>)
    requires
        lists_routes(v, m),
    ensures
        after_registering(Map::empty(), pairs_of(v)) == m,
{
    lemma_registering_distinct(v);
    let r = after_registering(Map::empty(), pairs_of(v));
    assert forall|k: Seq<char>| #[trigger] r.contains_key(k) <==> m.contains_key(k) by {
        if m.contains_key(k) {
            let i = choose|i: int| 0 <= i < v.len() && v[i].0@ == k;
        }
    }
    assert(r =~= m);
}

proof fn lemma_registering_distinct(v: Seq<(String, SocketAddress)>)
    requires
        forall|i: int, j: int| 0 <= i < j < v.len() ==> v[i].0@ != v[j].0@,
    ensures
        forall|k: Seq<char>| #[trigger]
            after_registering(Map::empty(), pairs_of(v)).contains_key(k) ==> exists|i: int|
                0 <= i < v.len() && v[i].0@ == k,
        forall|i: int|
            0 <= i < v.len() ==> after_registering(Map::empty(), pairs_of(v)).contains_key(
                #[trigger] v[i].0@,
            ) && after_registering(Map::empty(), pairs_of(v))[v[i].0@] == v[i].1,
    decreases v.len(),
{
    if v.len() > 0 {
        let w = v.drop_last();
        lemma_registering_distinct(w);
        assert(pairs_of(v).drop_last() =~= pairs_of(w));
        let r = after_registering(Map::empty(), pairs_of(v));
        let rw = after_registering(Map::empty(), pairs_of(w));
        assert(r == rw.insert(v.last().0@, v.last().1));
        assert forall|k: Seq<char>| #[trigger] r.contains_key(k) implies exists|i: int|
            0 <= i < v.len() && v[i].0@ == k by {
            if k != v.last().0@ {
                assert(rw.contains_key(k));
                let i = choose|i: int| 0 <= i < w.len() && w[i].0@ == k;
                assert(v[i] == w[i]);
            }
        }
        assert forall|i: int| 0 <= i < v.len() implies r.contains_key(#[trigger] v[i].0@) && r[v[i].0@]
            == v[i].1 by {
            if i < v.len() - 1 {
                assert(v[i] == w[i]);
            }
        }
    }
}

} // verus!

//! The relay's routing table: which connections are open and with what
//! role, and which connection each player's messages go back to.

use vstd::prelude::*;

use std::collections::HashMap;
use vstd::std_specs::hash::obeys_key_model;

verus! {

/// What a connection said it is in its hello.
#[derive(Clone, Copy, Debug, PartialEq, Eq, Structural)]
pub enum Role {
    BrowserPortExtension,
    Client,
}

impl Role {
    pub open spec fn name(self) -> Seq<char> {
        match self {
            Role::BrowserPortExtension => seq![
                'b', 'r', 'o', 'w', 's', 'e', 'r', '-', 'p', 'o', 'r', 't', '-', 'e', 'x', 't',
                'e', 'n', 's', 'i', 'o', 'n'
            ],
            Role::Client => seq!['c', 'l', 'i', 'e', 'n', 't'],
        }
    }
}

/// The name a role has on the wire.
pub fn role_name(role: Role) -> (r: &'static str)
    ensures
        r@ == role.name(),
{
    proof {
        reveal_strlit("browser-port-extension");
        reveal_strlit("client");
    }
    match role {
        Role::BrowserPortExtension => "browser-port-extension",
        Role::Client => "client",
    }
}

/// The keys of a map, each once, in the map's own order.
pub(crate) fn map_keys<K: Copy, V>(m: &HashMap<K, V>) -> (r: Vec<K>)
    requires
        obeys_key_model::<K>(),
    ensures
        r@.no_duplicates(),
        r@.to_set() == m@.dom(),
{
    broadcast use vstd::std_specs::hash::group_hash_axioms;

    let mut out: Vec<K> = Vec::new();
    for k in it: m.keys()
        invariant
            it.seq().unref().to_set() == m@.dom(),
            it.seq().unref().no_duplicates(),
            out@ == it.seq().unref().take(it.index()),
            it.index() == it.seq().len() ==> out@ == it.seq().unref(),
    {
        out.push(*k);
        assert(out@ =~= it.seq().unref().take(it.index() + 1));
        assert(it.seq().unref().take(it.seq().len() as int) =~= it.seq().unref());
    }
    out
}

/// The open connections with `role`.
pub open spec fn connections_with(connections: Map<u64, Role>, role: Role) -> Set<u64> {
    connections.dom().filter(|c: u64| connections[c] == role)
}

/// Open connections and player routes.
pub struct RelayRoutes {
    connections: HashMap<u64, Role>,
    routes: HashMap<u32, u64>,
}

impl RelayRoutes {
    /// The open connections and their roles.
    pub closed spec fn connections(&self) -> Map<u64, Role> {
        self.connections@
    }

    /// The connection each routed player belongs to.
    pub closed spec fn routes(&self) -> Map<u32, u64> {
        self.routes@
    }

    pub fn new() -> (r: RelayRoutes)
        ensures
            r.connections() == Map::<u64, Role>::empty(),
            r.routes() == Map::<u32, u64>::empty(),
    {
        RelayRoutes { connections: HashMap::new(), routes: HashMap::new() }
    }

    /// Opens (or re-registers) a connection.
    pub fn add_connection(&mut self, conn_id: u64, role: Role)
        ensures
            final(self).connections() == old(self).connections().insert(conn_id, role),
            final(self).routes() == old(self).routes(),
    {
        broadcast use vstd::std_specs::hash::group_hash_axioms;

        self.connections.insert(conn_id, role);
    }

    /// Routes a player's messages to a connection.
    pub fn route_player(&mut self, player_id: u32, conn_id: u64)
        ensures
            final(self).routes() == old(self).routes().insert(player_id, conn_id),
            final(self).connections() == old(self).connections(),
    {
        broadcast use vstd::std_specs::hash::group_hash_axioms;

        self.routes.insert(player_id, conn_id);
    }

    /// The connection a player is routed to.
    pub fn route_of(&self, player_id: u32) -> (r: Option<u64>)
        ensures
            r == (if self.routes().dom().contains(player_id) {
                Some(self.routes()[player_id])
            } else {
                None
            }),
    {
        broadcast use vstd::std_specs::hash::group_hash_axioms;

        match self.routes.get(&player_id) {
            Some(c) => Some(*c),
            None => None,
        }
    }

    /// The open connection a player's messages go to, if it has one.
    pub fn connection_for_player(&self, player_id: u32) -> (r: Option<u64>)
        ensures
            r == (if self.routes().dom().contains(player_id) && self.connections().dom().contains(
                self.routes()[player_id],
            ) {
                Some(self.routes()[player_id])
            } else {
                None
            }),
    {
        broadcast use vstd::std_specs::hash::group_hash_axioms;

        let conn_id = match self.route_of(player_id) {
            Some(c) => c,
            None => {
                return None;
            },
        };
        if self.connections.contains_key(&conn_id) {
            Some(conn_id)
        } else {
            None
        }
    }

    /// The open connections with `role`, each once.
    pub fn connections_with_role(&self, role: Role) -> (r: Vec<u64>)
        ensures
            r@.no_duplicates(),
            forall|c: u64| #[trigger] r@.contains(c) <==> (self.connections().dom().contains(c)
                && self.connections()[c] == role),
    {
        broadcast use vstd::std_specs::hash::group_hash_axioms;

        let keys = map_keys(&self.connections);
        let ghost m = self.connections@;
        let n = keys.len();
        let mut out: Vec<u64> = Vec::new();
        let mut i: usize = 0;
        while i < n
            invariant
                n == keys@.len(),
                m == self.connections@,
                keys@.no_duplicates(),
                keys@.to_set() == m.dom(),
                i <= n,
                out@.no_duplicates(),
                forall|c: u64| #[trigger] out@.contains(c) <==> (keys@.take(i as int).contains(c)
                    && m[c] == role),
            decreases n - i,
        {
            let c = keys[i];
            assert(keys@.contains(c) && keys@.to_set().contains(c));
            let r = match self.connections.get(&c) {
                Some(r) => *r,
                None => role,
            };
            assert(r == m[c]);
            let ghost prefix = keys@.take(i as int);
            assert(keys@.take(i + 1) =~= prefix.push(c));
            assert(!prefix.contains(c)) by {
                if prefix.contains(c) {
                    let j = choose|j: int| 0 <= j < prefix.len() && prefix[j] == c;
                    assert(keys@[j] == keys@[i as int]);
                }
            }
            let ghost before = out@;
            if r == role {
                out.push(c);
            }
            proof {
                if r == role {
                    assert(!before.contains(c));
                    assert forall|a: int, b: int|
                        0 <= a < out@.len() && 0 <= b < out@.len() && a != b implies out@[a]
                        != out@[b] by {
                        if a == before.len() {
                            assert(before.contains(out@[b]));
                        } else if b == before.len() {
                            assert(before.contains(out@[a]));
                        } else {
                            assert(before[a] != before[b]);
                        }
                    }
                }
                assert forall|x: u64| #[trigger] out@.contains(x) <==> (prefix.push(c).contains(x)
                    && m[x] == role) by {
                    if out@.contains(x) && x != c {
                        let k = choose|k: int| 0 <= k < out@.len() && out@[k] == x;
                        assert(before[k] == x);
                    }
                    if x == c && r == role {
                        assert(out@[before.len() as int] == x);
                    }
                    if before.contains(x) {
                        let k = choose|k: int| 0 <= k < before.len() && before[k] == x;
                        assert(out@[k] == x);
                    }
                    if prefix.push(c).contains(x) && x != c {
                        let k = choose|k: int| 0 <= k < prefix.len() + 1 && prefix.push(c)[k] == x;
                        assert(prefix[k] == x);
                    }
                    if prefix.contains(x) {
                        let k = choose|k: int| 0 <= k < prefix.len() && prefix[k] == x;
                        assert(prefix.push(c)[k] == x);
                    }
                    assert(prefix.push(c)[prefix.len() as int] == c);
                }
            }
            i = i + 1;
        }
        assert(keys@.take(n as int) =~= keys@);
        out
    }

    /// All open connections, each once.
    pub fn all_connections(&self) -> (r: Vec<u64>)
        ensures
            r@.no_duplicates(),
            forall|c: u64| #[trigger] r@.contains(c) <==> self.connections().dom().contains(c),
    {
        broadcast use vstd::std_specs::hash::group_hash_axioms;

        let r = map_keys(&self.connections);
        assert forall|c: u64| #[trigger] r@.contains(c) <==> self.connections().dom().contains(c) by {
            assert(r@.contains(c) <==> r@.to_set().contains(c));
        }
        r
    }

    /// How many open connections are extensions and how many are clients.
    pub fn counts(&self) -> (r: (usize, usize))
        ensures
            r.0 == connections_with(self.connections(), Role::BrowserPortExtension).len(),
            r.1 == connections_with(self.connections(), Role::Client).len(),
    {
        let ext = self.connections_with_role(Role::BrowserPortExtension);
        let clients = self.connections_with_role(Role::Client);
        proof {
            ext@.unique_seq_to_set();
            clients@.unique_seq_to_set();
            assert(ext@.to_set() =~= connections_with(self.connections(), Role::BrowserPortExtension));
            assert(clients@.to_set() =~= connections_with(self.connections(), Role::Client));
        }
        (ext.len(), clients.len())
    }

    /// The routed players, each once.
    pub fn routed_players(&self) -> (r: Vec<u32>)
        ensures
            r@.no_duplicates(),
            forall|p: u32| #[trigger] r@.contains(p) <==> self.routes().dom().contains(p),
    {
        broadcast use vstd::std_specs::hash::group_hash_axioms;

        let r = map_keys(&self.routes);
        assert forall|p: u32| #[trigger] r@.contains(p) <==> self.routes().dom().contains(p) by {
            assert(r@.contains(p) <==> r@.to_set().contains(p));
        }
        r
    }

    /// Closes a connection and drops the routes of the players it carried;
    /// returns those players, each once.
    pub fn remove_connection(&mut self, conn_id: u64) -> (r: Vec<u32>)
        ensures
            final(self).connections() == old(self).connections().remove(conn_id),
            final(self).routes() == old(self).routes().restrict(
                old(self).routes().dom().filter(|p: u32| old(self).routes()[p] != conn_id),
            ),
            r@.no_duplicates(),
            forall|p: u32| #[trigger] r@.contains(p) <==> (old(self).routes().dom().contains(p)
                && old(self).routes()[p] == conn_id),
    {
        broadcast use vstd::std_specs::hash::group_hash_axioms;

        self.connections.remove(&conn_id);
        let ghost old_map = self.routes@;
        let players = map_keys(&self.routes);
        let n = players.len();
        let mut gone: Vec<u32> = Vec::new();
        let mut i: usize = 0;
        while i < n
            invariant
                n == players@.len(),
                self.connections@ == old(self).connections@.remove(conn_id),
                players@.no_duplicates(),
                players@.to_set() == old_map.dom(),
                i <= n,
                forall|p: u32| #[trigger] self.routes@.dom().contains(p) <==> (old_map.dom().contains(p)
                    && !(players@.take(i as int).contains(p) && old_map[p] == conn_id)),
                forall|p: u32| #[trigger] self.routes@.dom().contains(p) ==> self.routes@[p] == old_map[p],
                gone@.no_duplicates(),
                forall|p: u32| #[trigger] gone@.contains(p) <==> (players@.take(i as int).contains(p)
                    && old_map[p] == conn_id),
            decreases n - i,
        {
            let p = players[i];
            assert(players@.contains(p) && players@.to_set().contains(p));
            let ghost prefix = players@.take(i as int);
            assert(players@.take(i + 1) =~= prefix.push(p));
            assert(!prefix.contains(p)) by {
                if prefix.contains(p) {
                    let j = choose|j: int| 0 <= j < prefix.len() && prefix[j] == p;
                    assert(players@[j] == players@[i as int]);
                }
            }
            assert(self.routes@.dom().contains(p));
            let carried = match self.routes.get(&p) {
                Some(c) => *c == conn_id,
                None => false,
            };
            assert(carried == (old_map[p] == conn_id));
            let ghost before_routes = self.routes@;
            let ghost before = gone@;
            if carried {
                self.routes.remove(&p);
                gone.push(p);
            }
            proof {
                if carried {
                    assert(!before.contains(p));
                    assert forall|a: int, b: int|
                        0 <= a < gone@.len() && 0 <= b < gone@.len() && a != b implies gone@[a]
                        != gone@[b] by {
                        if a == before.len() {
                            assert(before.contains(gone@[b]));
                        } else if b == before.len() {
                            assert(before.contains(gone@[a]));
                        } else {
                            assert(before[a] != before[b]);
                        }
                    }
                }
                assert forall|x: u32| #[trigger] prefix.push(p).contains(x) <==> (prefix.contains(x)
                    || x == p) by {
                    if prefix.push(p).contains(x) && x != p {
                        let k = choose|k: int| 0 <= k < prefix.len() + 1 && prefix.push(p)[k] == x;
                        assert(prefix[k] == x);
                    }
                    if prefix.contains(x) {
                        let k = choose|k: int| 0 <= k < prefix.len() && prefix[k] == x;
                        assert(prefix.push(p)[k] == x);
                    }
                    assert(prefix.push(p)[prefix.len() as int] == p);
                }
                assert forall|x: u32| #[trigger] gone@.contains(x) <==> (before.contains(x) || (
                    carried && x == p)) by {
                    if gone@.contains(x) && !(carried && x == p) {
                        let k = choose|k: int| 0 <= k < gone@.len() && gone@[k] == x;
                        if carried && k == before.len() {
                            assert(gone@[k] == p);
                        } else {
                            assert(before[k] == x);
                        }
                    }
                    if before.contains(x) {
                        let k = choose|k: int| 0 <= k < before.len() && before[k] == x;
                        assert(gone@[k] == x);
                    }
                    if carried && x == p {
                        assert(gone@[before.len() as int] == x);
                    }
                }
            }
            i = i + 1;
        }
        proof {
            assert(players@.take(n as int) =~= players@);
            let target = old_map.restrict(old_map.dom().filter(|p: u32| old_map[p] != conn_id));
            assert forall|p: u32| #[trigger] self.routes@.dom().contains(p) <==> target.dom().contains(p) by {
                assert(players@.contains(p) <==> players@.to_set().contains(p));
            }
            assert(self.routes@ =~= target);
            assert forall|p: u32| #[trigger] gone@.contains(p) <==> (old_map.dom().contains(p)
                && old_map[p] == conn_id) by {
                assert(players@.contains(p) <==> players@.to_set().contains(p));
            }
        }
        gone
    }
}

/// A player routed to an open connection is found at that connection
/// until it is routed elsewhere: routing `player_id` to `conn_id` makes
/// `connection_for_player` give `conn_id` while the connection is open.
pub proof fn law_route_then_lookup(
    routes: Map<u32, u64>,
    connections: Map<u64, Role>,
    player_id: u32,
    conn_id: u64,
)
    requires
        connections.dom().contains(conn_id),
    ensures
        ({
            let after = routes.insert(player_id, conn_id);
            &&& after.dom().contains(player_id)
            &&& connections.dom().contains(after[player_id])
            &&& after[player_id] == conn_id
        }),
{
}

/// Closing a connection leaves no route to it, keeps every other route as
/// it was, and reports exactly the players it carried.
pub proof fn law_close_connection_unroutes(routes: Map<u32, u64>, conn_id: u64)
    ensures
        ({
            let after = routes.restrict(routes.dom().filter(|p: u32| routes[p] != conn_id));
            &&& forall|p: u32| #[trigger] after.dom().contains(p) ==> after[p] != conn_id
            &&& forall|p: u32|
                #[trigger] routes.dom().contains(p) && routes[p] != conn_id ==> after.dom().contains(p)
                    && after[p] == routes[p]
            &&& forall|p: u32|
                #[trigger] routes.dom().contains(p) ==> (after.dom().contains(p) <==> routes[p]
                    != conn_id)
        }),
{
}

} // verus!

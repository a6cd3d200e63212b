//! The state coordinator's registry: the single owner of the registered
//! client list and of the live-connection map. Every mutation goes through a
//! method of [`Server`], so a caller that serializes its calls (one request
//! in flight at a time) observes a total order over all registry changes.

use vstd::prelude::*;

use crate::client::same_record;
use crate::client::token_shape;
use crate::client::uuid_shape;
use crate::client::Client;
use crate::sink::Tx;
use crate::text::str_eq;

verus! {

/// First registered client holding `token`, if any: the backing store's
/// lookup answers with a single matching record.
pub open spec fn first_valid(reg: Seq<Client>, token: Seq<char>) -> Option<Client>
    decreases reg.len(),
{
    if reg.len() == 0 {
        None
    } else if reg[0].token@ == token {
        Some(reg[0])
    } else {
        first_valid(reg.drop_first(), token)
    }
}

/// Some registered client holds `token`.
pub open spec fn token_known(reg: Seq<Client>, token: Seq<char>) -> bool {
    exists|i: int| 0 <= i < reg.len() && reg[i].token@ == token
}

/// Some live connection's client holds `token`.
pub open spec fn token_connected(conns: Seq<(u64, Client)>, token: Seq<char>) -> bool {
    exists|i: int| 0 <= i < conns.len() && conns[i].1.token@ == token
}

/// Index of the connection registered under `addr`, if any.
pub open spec fn conn_index(conns: Seq<(u64, Client)>, addr: u64) -> Option<int>
    decreases conns.len(),
{
    if conns.len() == 0 {
        None
    } else if conns[0].0 == addr {
        Some(0)
    } else {
        match conn_index(conns.drop_first(), addr) {
            None => None,
            Some(i) => Some(i + 1),
        }
    }
}

/// Every address keys at most one live connection.
pub open spec fn conns_wf(conns: Seq<(u64, Client)>) -> bool {
    forall|i: int, j: int| 0 <= i < j < conns.len() ==> conns[i].0 != conns[j].0
}

/// What a validation answers: `Some` exactly for a known token, and then the
/// first matching record, without a sink.
pub open spec fn validate_result(reg: Seq<Client>, token: Seq<char>, r: Option<Client>) -> bool {
    &&& (r is Some <==> token_known(reg, token))
    &&& (r matches Some(c) ==> first_valid(reg, token) matches Some(f) && same_record(c, f)
        && c.tx is None)
}

/// How registering a connection changes the live map: a no-op for a token
/// no longer valid, else the address is bound to the client (sinkless so
/// far), replacing a stale binding of the same address.
pub open spec fn connect_post(
    oldc: Seq<(u64, Client)>,
    newc: Seq<(u64, Client)>,
    addr: u64,
    client: Client,
    valid: bool,
) -> bool {
    if !valid {
        newc == oldc
    } else {
        match conn_index(oldc, addr) {
            Some(k) => newc == oldc.remove(k).push((addr, client)),
            None => newc == oldc.push((addr, client)),
        }
    }
}

/// How attaching a sink changes the live map: a no-op for an address no
/// longer registered, else only that connection's sink is set.
pub open spec fn attach_post(
    oldc: Seq<(u64, Client)>,
    newc: Seq<(u64, Client)>,
    addr: u64,
    tx: Tx,
) -> bool {
    match conn_index(oldc, addr) {
        None => newc == oldc,
        Some(k) => newc == oldc.update(k, (addr, (Client { tx: Some(tx), ..oldc[k].1 }))),
    }
}

/// How a disconnect changes the live map: the binding is removed, and a
/// second disconnect of the same address is a no-op.
pub open spec fn disconnect_post(
    oldc: Seq<(u64, Client)>,
    newc: Seq<(u64, Client)>,
    addr: u64,
) -> bool {
    match conn_index(oldc, addr) {
        None => newc == oldc,
        Some(k) => newc == oldc.remove(k),
    }
}

/// The snapshot copies the live map entry by entry: same addresses, same
/// records, a sink present exactly where one is attached.
pub open spec fn snapshot_matches(snap: Seq<(u64, Client)>, conns: Seq<(u64, Client)>) -> bool {
    &&& snap.len() == conns.len()
    &&& forall|i: int|
        0 <= i < conns.len() ==> (#[trigger] snap[i]).0 == conns[i].0 && same_record(
            snap[i].1,
            conns[i].1,
        ) && (snap[i].1.tx is Some <==> conns[i].1.tx is Some)
}

/// The listing copies the registered clients entry by entry, sinkless.
pub open spec fn records_list_matches(out: Seq<Client>, reg: Seq<Client>) -> bool {
    &&& out.len() == reg.len()
    &&& forall|i: int|
        0 <= i < reg.len() ==> same_record(#[trigger] out[i], reg[i]) && out[i].tx is None
}

pub proof fn lemma_conn_index(conns: Seq<(u64, Client)>, addr: u64)
    ensures
        conn_index(conns, addr) is None ==> forall|j: int|
            0 <= j < conns.len() ==> (#[trigger] conns[j]).0 != addr,
        conn_index(conns, addr) matches Some(k) ==> 0 <= k < conns.len() && conns[k].0 == addr
            && forall|j: int| 0 <= j < k ==> (#[trigger] conns[j]).0 != addr,
    decreases conns.len(),
{
    if conns.len() > 0 && conns[0].0 != addr {
        lemma_conn_index(conns.drop_first(), addr);
        assert(forall|j: int|
            1 <= j < conns.len() ==> (#[trigger] conns[j]) == conns.drop_first()[j - 1]);
    }
}

pub proof fn lemma_conn_index_first(conns: Seq<(u64, Client)>, addr: u64, k: int)
    requires
        0 <= k < conns.len(),
        conns[k].0 == addr,
        forall|j: int| 0 <= j < k ==> (#[trigger] conns[j]).0 != addr,
    ensures
        conn_index(conns, addr) == Some(k),
    decreases conns.len(),
{
    if k > 0 {
        assert(forall|j: int|
            1 <= j < conns.len() ==> (#[trigger] conns.drop_first()[j - 1]) == conns[j]);
        lemma_conn_index_first(conns.drop_first(), addr, k - 1);
    }
}

pub proof fn lemma_first_valid_at(reg: Seq<Client>, token: Seq<char>, k: int)
    requires
        0 <= k < reg.len(),
        reg[k].token@ == token,
        forall|j: int| 0 <= j < k ==> (#[trigger] reg[j]).token@ != token,
    ensures
        first_valid(reg, token) == Some(reg[k]),
    decreases reg.len(),
{
    if k > 0 {
        assert(forall|j: int|
            1 <= j < reg.len() ==> (#[trigger] reg.drop_first()[j - 1]) == reg[j]);
        lemma_first_valid_at(reg.drop_first(), token, k - 1);
    }
}

/// The coordinator's whole state: listener configuration, the backing
/// store's registered clients, and the live-connection map.
pub struct Server {
    pub server_name: String,
    pub server_ip: String,
    pub websocket_server_port: u16,
    pub http_server_port: u16,
    /// All registered clients, as loaded from the backing store.
    pub registered: Vec<Client>,
    /// The live connections in registration order, at most one per address.
    pub connected: Vec<(u64, Client)>,
}

impl Server {
    /// The registry's invariant: one live connection per address.
    pub open spec fn wf(&self) -> bool {
        conns_wf(self.connected@)
    }

    /// Everything but the live-connection map is unchanged.
    pub open spec fn same_but_connected(&self, other: &Server) -> bool {
        &&& self.server_name == other.server_name
        &&& self.server_ip == other.server_ip
        &&& self.websocket_server_port == other.websocket_server_port
        &&& self.http_server_port == other.http_server_port
        &&& self.registered == other.registered
    }

    /// A freshly configured coordinator with no live connection.
    pub fn new(
        server_name: String,
        server_ip: String,
        websocket_server_port: u16,
        http_server_port: u16,
        registered: Vec<Client>,
    ) -> (r: Server)
        ensures
            r.server_name == server_name,
            r.server_ip == server_ip,
            r.websocket_server_port == websocket_server_port,
            r.http_server_port == http_server_port,
            r.registered == registered,
            r.connected@ == Seq::<(u64, Client)>::empty(),
            r.wf(),
    {
        Server {
            server_name,
            server_ip,
            websocket_server_port,
            http_server_port,
            registered,
            connected: Vec::new(),
        }
    }

    pub fn get_websocket_port(&self) -> (r: u16)
        ensures
            r == self.websocket_server_port,
    {
        self.websocket_server_port
    }

    pub fn get_http_port(&self) -> (r: u16)
        ensures
            r == self.http_server_port,
    {
        self.http_server_port
    }

    /// Index of the live connection registered under `addr`.
    fn find_addr(&self, addr: u64) -> (r: Option<usize>)
        ensures
            r is None ==> conn_index(self.connected@, addr) is None,
            r matches Some(k) ==> conn_index(self.connected@, addr) == Some(k as int) && k
                < self.connected.len(),
    {
        let mut i: usize = 0;
        while i < self.connected.len()
            invariant
                0 <= i <= self.connected@.len(),
                forall|j: int| 0 <= j < i ==> (#[trigger] self.connected@[j]).0 != addr,
            decreases self.connected@.len() - i,
        {
            if self.connected[i].0 == addr {
                proof {
                    lemma_conn_index_first(self.connected@, addr, i as int);
                }
                return Some(i);
            }
            i += 1;
        }
        proof {
            lemma_conn_index(self.connected@, addr);
            match conn_index(self.connected@, addr) {
                Some(k) => {
                    assert(self.connected@[k].0 == addr);
                    assert(false);
                },
                None => {},
            }
        }
        None
    }

    /// Token lookup against the backing store's records: the first matching
    /// record wins; an unknown token answers `None`.
    pub fn is_client_valid(&self, token: &str) -> (r: Option<Client>)
        ensures
            validate_result(self.registered@, token@, r),
    {
        let mut i: usize = 0;
        while i < self.registered.len()
            invariant
                0 <= i <= self.registered@.len(),
                forall|j: int| 0 <= j < i ==> (#[trigger] self.registered@[j]).token@ != token@,
            decreases self.registered@.len() - i,
        {
            if str_eq(self.registered[i].token.as_str(), token) {
                proof {
                    lemma_first_valid_at(self.registered@, token@, i as int);
                    assert(token_known(self.registered@, token@));
                }
                return Some(self.registered[i].clone_record());
            }
            i += 1;
        }
        proof {
            if token_known(self.registered@, token@) {
                let j = choose|j: int|
                    0 <= j < self.registered@.len() && self.registered@[j].token@ == token@;
                assert(false);
            }
        }
        None
    }

    /// Registers a live connection, but only while the token is still valid
    /// at insertion time; otherwise a no-op. The inserted connection has no
    /// sink yet.
    pub fn client_connected(&mut self, addr: u64, client: Client)
        requires
            old(self).wf(),
        ensures
            final(self).wf(),
            final(self).same_but_connected(old(self)),
            connect_post(
                old(self).connected@,
                final(self).connected@,
                addr,
                client,
                token_known(old(self).registered@, client.token@),
            ),
    {
        let valid = self.is_client_valid(client.token.as_str()).is_some();
        if valid {
            let ghost oldc = self.connected@;
            match self.find_addr(addr) {
                Some(k) => {
                    proof {
                        lemma_conn_index(oldc, addr);
                    }
                    self.connected.remove(k);
                    self.connected.push((addr, client));
                    proof {
                        lemma_conn_index(oldc, addr);
                        assert forall|i: int, j: int|
                            0 <= i < j < self.connected@.len() implies (#[trigger] self.connected@[i]).0 != (#[trigger] self.connected@[j]).0 by {
                            assert(conns_wf(oldc));
                        }
                    }
                },
                None => {
                    proof {
                        lemma_conn_index(oldc, addr);
                    }
                    self.connected.push((addr, client));
                    proof {
                        assert forall|i: int, j: int|
                            0 <= i < j < self.connected@.len() implies (#[trigger] self.connected@[i]).0 != (#[trigger] self.connected@[j]).0 by {
                            assert(conns_wf(oldc));
                        }
                    }
                },
            }
        }
    }

    /// Attaches the outbound sink to the connection registered under
    /// `addr`; silently a no-op when the address is already gone.
    pub fn set_connected_client_tx(&mut self, addr: u64, tx: Tx)
        requires
            old(self).wf(),
        ensures
            final(self).wf(),
            final(self).same_but_connected(old(self)),
            attach_post(old(self).connected@, final(self).connected@, addr, tx),
    {
        let ghost oldc = self.connected@;
        match self.find_addr(addr) {
            None => {},
            Some(k) => {
                proof {
                    lemma_conn_index(oldc, addr);
                }
                let (a, mut c) = self.connected.remove(k);
                c.tx = Some(tx);
                self.connected.insert(k, (a, c));
                proof {
                    assert(self.connected@ =~= oldc.update(
                        k as int,
                        (addr, (Client { tx: Some(tx), ..oldc[k as int].1 })),
                    ));
                    assert forall|i: int, j: int|
                        0 <= i < j < self.connected@.len() implies (#[trigger] self.connected@[i]).0 != (#[trigger] self.connected@[j]).0 by {
                        assert(conns_wf(oldc));
                        assert(self.connected@[i].0 == oldc[i].0);
                        assert(self.connected@[j].0 == oldc[j].0);
                    }
                }
            },
        }
    }

    /// Removes the live connection registered under `addr`; idempotent when
    /// the address is already gone.
    pub fn client_disconnected(&mut self, addr: u64)
        requires
            old(self).wf(),
        ensures
            final(self).wf(),
            final(self).same_but_connected(old(self)),
            disconnect_post(old(self).connected@, final(self).connected@, addr),
    {
        let ghost oldc = self.connected@;
        match self.find_addr(addr) {
            None => {},
            Some(k) => {
                self.connected.remove(k);
                proof {
                    assert forall|i: int, j: int|
                        0 <= i < j < self.connected@.len() implies (#[trigger] self.connected@[i]).0 != (#[trigger] self.connected@[j]).0 by {
                        assert(conns_wf(oldc));
                    }
                }
            },
        }
    }

    /// A point-in-time copy of the live-connection map, in registration
    /// order, each record carrying a handle to the same sink.
    pub fn get_connected_clients(&self) -> (r: Vec<(u64, Client)>)
        ensures
            snapshot_matches(r@, self.connected@),
    {
        let mut out: Vec<(u64, Client)> = Vec::new();
        let mut i: usize = 0;
        while i < self.connected.len()
            invariant
                0 <= i <= self.connected@.len(),
                out@.len() == i,
                forall|j: int|
                    0 <= j < i ==> (#[trigger] out@[j]).0 == self.connected@[j].0 && same_record(
                        out@[j].1,
                        self.connected@[j].1,
                    ) && (out@[j].1.tx is Some <==> self.connected@[j].1.tx is Some),
            decreases self.connected@.len() - i,
        {
            let addr = self.connected[i].0;
            let copy = self.connected[i].1.duplicate();
            out.push((addr, copy));
            i += 1;
        }
        out
    }

    /// Whether `token` belongs to a currently connected client.
    pub fn is_client_connected_by_token(&self, token: &str) -> (r: bool)
        ensures
            r == token_connected(self.connected@, token@),
    {
        let mut i: usize = 0;
        while i < self.connected.len()
            invariant
                0 <= i <= self.connected@.len(),
                forall|j: int| 0 <= j < i ==> (#[trigger] self.connected@[j]).1.token@ != token@,
            decreases self.connected@.len() - i,
        {
            if str_eq(self.connected[i].1.token.as_str(), token) {
                return true;
            }
            i += 1;
        }
        proof {
            if token_connected(self.connected@, token@) {
                let j = choose|j: int|
                    0 <= j < self.connected@.len() && self.connected@[j].1.token@ == token@;
                assert(false);
            }
        }
        false
    }

    /// The full client list from the backing store, sinkless copies.
    pub fn get_all_clients(&self) -> (r: Vec<Client>)
        ensures
            records_list_matches(r@, self.registered@),
    {
        let mut out: Vec<Client> = Vec::new();
        let mut i: usize = 0;
        while i < self.registered.len()
            invariant
                0 <= i <= self.registered@.len(),
                out@.len() == i,
                forall|j: int|
                    0 <= j < i ==> same_record(#[trigger] out@[j], self.registered@[j])
                        && out@[j].tx is None,
            decreases self.registered@.len() - i,
        {
            out.push(self.registered[i].clone_record());
            i += 1;
        }
        out
    }

    /// Registers a brand-new client with the given username and returns a
    /// copy of its record, for the caller to persist and export.
    pub fn new_client(&mut self, username: &str) -> (r: Client)
        requires
            old(self).wf(),
        ensures
            final(self).wf(),
            final(self).connected == old(self).connected,
            final(self).server_name == old(self).server_name,
            final(self).server_ip == old(self).server_ip,
            final(self).websocket_server_port == old(self).websocket_server_port,
            final(self).http_server_port == old(self).http_server_port,
            final(self).registered@.len() == old(self).registered@.len() + 1,
            final(self).registered@.take(old(self).registered@.len() as int) == old(self).registered@,
            same_record(final(self).registered@.last(), r),
            uuid_shape(r.uuid@),
            token_shape(r.token@),
            r.username@ == username@,
            r.display_name@ == username@,
            r.about_me@ == Seq::<char>::empty(),
            r.tx is None,
    {
        let c = Client::new(username);
        let copy = c.clone_record();
        self.registered.push(c);
        proof {
            assert(self.registered@.take(old(self).registered@.len() as int) =~= old(
                self,
            ).registered@);
        }
        copy
    }
}

} // verus!

//! The coordinator's request/response protocol: the closed set of typed
//! requests a connection task may send, the coordinator's answers, and the
//! dispatch step that answers one request. The transport that carries these
//! values between tasks lives outside the library; because the coordinator
//! loop owns the [`Server`] value and answers one request at a time, all
//! registry mutations are totally ordered.

use vstd::prelude::*;

use crate::client::same_record;
use crate::client::Client;
use crate::server::attach_post;
use crate::server::connect_post;
use crate::server::disconnect_post;
use crate::server::records_list_matches;
use crate::server::snapshot_matches;
use crate::server::token_connected;
use crate::server::token_known;
use crate::server::validate_result;
use crate::server::Server;
use crate::sink::Tx;

verus! {

/// The two request groups, used by the transport to route answers back.
#[derive(Hash, PartialEq, Eq)]
pub enum Clients {
    WebSocket,
    Http,
}

/// A listening address: the host and the port of one gateway.
pub struct SocketAddress {
    pub ip: String,
    pub port: u16,
}

/// Requests to the coordinator.
pub enum ClientInteractions {
    WsSocket,
    WsValidateClient(String),
    WsClientConnected { addr: u64, client: Client },
    WsSetClientConnectedTx { addr: u64, tx: Tx },
    WsGetConnectedClients,
    WsClientLeft { addr: u64 },
    HttpSocket,
    HttpValidateClient(String),
    HttpGetConnectedClients,
    HttpGetAllClients,
}

/// Answers from the coordinator.
pub enum ServerInteractions {
    WsSocket(SocketAddress),
    WsValidateClient(Option<Client>),
    WsClientConnected,
    WsSetClientConnectedTx,
    WsGetConnectedClients(Vec<(u64, Client)>),
    WsClientLeft,
    HttpSocket(SocketAddress),
    HttpValidateClient(bool),
    HttpGetConnectedClients(Vec<(u64, Client)>),
    HttpGetAllClients(Vec<Client>),
}

impl ServerInteractions {
    /// The listening address carried by a socket answer.
    pub fn socket_addr(&self) -> (r: Option<SocketAddress>)
        ensures
            match *self {
                ServerInteractions::WsSocket(ref a) => r matches Some(x) && x.ip@ == a.ip@
                    && x.port == a.port,
                ServerInteractions::HttpSocket(ref a) => r matches Some(x) && x.ip@ == a.ip@
                    && x.port == a.port,
                _ => r is None,
            },
    {
        match self {
            ServerInteractions::WsSocket(a) => Some(
                SocketAddress { ip: a.ip.clone(), port: a.port },
            ),
            ServerInteractions::HttpSocket(a) => Some(
                SocketAddress { ip: a.ip.clone(), port: a.port },
            ),
            _ => None,
        }
    }

    /// The record carried by a validation answer.
    pub fn client_validation(&self) -> (r: Option<Client>)
        ensures
            match *self {
                ServerInteractions::WsValidateClient(ref c) => match *c {
                    Some(ref cl) => r matches Some(x) && same_record(x, *cl) && (x.tx is Some
                        <==> cl.tx is Some),
                    None => r is None,
                },
                _ => r is None,
            },
    {
        match self {
            ServerInteractions::WsValidateClient(c) => match c {
                Some(cl) => Some(cl.duplicate()),
                None => None,
            },
            _ => None,
        }
    }

    /// The snapshot carried by a connected-clients answer.
    pub fn connected_clients(&self) -> (r: Option<Vec<(u64, Client)>>)
        ensures
            match *self {
                ServerInteractions::WsGetConnectedClients(ref m) => r matches Some(v)
                    && snapshot_matches(v@, m@),
                ServerInteractions::HttpGetConnectedClients(ref m) => r matches Some(v)
                    && snapshot_matches(v@, m@),
                _ => r is None,
            },
    {
        match self {
            ServerInteractions::WsGetConnectedClients(m) => Some(copy_snapshot(m)),
            ServerInteractions::HttpGetConnectedClients(m) => Some(copy_snapshot(m)),
            _ => None,
        }
    }

    /// The client list carried by an all-clients answer; empty for any other
    /// answer.
    pub fn all_clients(&self) -> (r: Vec<Client>)
        ensures
            match *self {
                ServerInteractions::HttpGetAllClients(ref v) => r@.len() == v@.len() && forall|
                    i: int,
                |
                    0 <= i < v@.len() ==> same_record(#[trigger] r@[i], v@[i]) && (r@[i].tx is Some
                        <==> v@[i].tx is Some),
                _ => r@ == Seq::<Client>::empty(),
            },
    {
        match self {
            ServerInteractions::HttpGetAllClients(v) => {
                let mut out: Vec<Client> = Vec::new();
                let mut i: usize = 0;
                while i < v.len()
                    invariant
                        0 <= i <= v@.len(),
                        out@.len() == i,
                        forall|j: int|
                            0 <= j < i ==> same_record(#[trigger] out@[j], v@[j]) && (out@[j].tx
                                is Some <==> v@[j].tx is Some),
                    decreases v@.len() - i,
                {
                    out.push(v[i].duplicate());
                    i += 1;
                }
                out
            },
            _ => Vec::new(),
        }
    }

    /// The flag carried by an authorization answer; `false` for any other
    /// answer.
    pub fn get_bool(&self) -> (r: bool)
        ensures
            match *self {
                ServerInteractions::HttpValidateClient(b) => r == b,
                _ => r == false,
            },
    {
        match self {
            ServerInteractions::HttpValidateClient(b) => *b,
            _ => false,
        }
    }
}

/// An entry-by-entry copy of a snapshot, each record carrying a handle to
/// the same sink.
fn copy_snapshot(m: &Vec<(u64, Client)>) -> (r: Vec<(u64, Client)>)
    ensures
        snapshot_matches(r@, m@),
{
    let mut out: Vec<(u64, Client)> = Vec::new();
    let mut i: usize = 0;
    while i < m.len()
        invariant
            0 <= i <= m@.len(),
            out@.len() == i,
            forall|j: int|
                0 <= j < i ==> (#[trigger] out@[j]).0 == m@[j].0 && same_record(
                    out@[j].1,
                    m@[j].1,
                ) && (out@[j].1.tx is Some <==> m@[j].1.tx is Some),
        decreases m@.len() - i,
    {
        out.push((m[i].0, m[i].1.duplicate()));
        i += 1;
    }
    out
}

impl Server {
    /// One coordinator step: answers a single request, mutating the live
    /// map exactly as the request demands. The loop that owns the `Server`
    /// value answers one request at a time, so no two mutations interleave
    /// and every reader sees a consistent point-in-time copy.
    pub fn handle(&mut self, req: ClientInteractions) -> (r: ServerInteractions)
        requires
            old(self).wf(),
        ensures
            final(self).wf(),
            final(self).same_but_connected(old(self)),
            match req {
                ClientInteractions::WsSocket => *final(self) == *old(self) && (
                r matches ServerInteractions::WsSocket(a) && a.ip@ == old(self).server_ip@ && a.port
                    == old(self).websocket_server_port),
                ClientInteractions::WsValidateClient(t) => *final(self) == *old(self) && (
                r matches ServerInteractions::WsValidateClient(c) && validate_result(
                    old(self).registered@,
                    t@,
                    c,
                )),
                ClientInteractions::WsClientConnected { addr, client } => r
                    == ServerInteractions::WsClientConnected && connect_post(
                    old(self).connected@,
                    final(self).connected@,
                    addr,
                    client,
                    token_known(old(self).registered@, client.token@),
                ),
                ClientInteractions::WsSetClientConnectedTx { addr, tx } => r
                    == ServerInteractions::WsSetClientConnectedTx && attach_post(
                    old(self).connected@,
                    final(self).connected@,
                    addr,
                    tx,
                ),
                ClientInteractions::WsGetConnectedClients => *final(self) == *old(self) && (
                r matches ServerInteractions::WsGetConnectedClients(v) && snapshot_matches(
                    v@,
                    old(self).connected@,
                )),
                ClientInteractions::WsClientLeft { addr } => r
                    == ServerInteractions::WsClientLeft && disconnect_post(
                    old(self).connected@,
                    final(self).connected@,
                    addr,
                ),
                ClientInteractions::HttpSocket => *final(self) == *old(self) && (
                r matches ServerInteractions::HttpSocket(a) && a.ip@ == old(self).server_ip@
                    && a.port == old(self).http_server_port),
                ClientInteractions::HttpValidateClient(t) => *final(self) == *old(self) && (
                r matches ServerInteractions::HttpValidateClient(b) && b == token_connected(
                    old(self).connected@,
                    t@,
                )),
                ClientInteractions::HttpGetConnectedClients => *final(self) == *old(self) && (
                r matches ServerInteractions::HttpGetConnectedClients(v) && snapshot_matches(
                    v@,
                    old(self).connected@,
                )),
                ClientInteractions::HttpGetAllClients => *final(self) == *old(self) && (
                r matches ServerInteractions::HttpGetAllClients(v) && records_list_matches(
                    v@,
                    old(self).registered@,
                )),
            },
    {
        match req {
            ClientInteractions::WsSocket => ServerInteractions::WsSocket(
                SocketAddress { ip: self.server_ip.clone(), port: self.websocket_server_port },
            ),
            ClientInteractions::WsValidateClient(t) => ServerInteractions::WsValidateClient(
                self.is_client_valid(t.as_str()),
            ),
            ClientInteractions::WsClientConnected { addr, client } => {
                self.client_connected(addr, client);
                ServerInteractions::WsClientConnected
            },
            ClientInteractions::WsSetClientConnectedTx { addr, tx } => {
                self.set_connected_client_tx(addr, tx);
                ServerInteractions::WsSetClientConnectedTx
            },
            ClientInteractions::WsGetConnectedClients => ServerInteractions::WsGetConnectedClients(
                self.get_connected_clients(),
            ),
            ClientInteractions::WsClientLeft { addr } => {
                self.client_disconnected(addr);
                ServerInteractions::WsClientLeft
            },
            ClientInteractions::HttpSocket => ServerInteractions::HttpSocket(
                SocketAddress { ip: self.server_ip.clone(), port: self.http_server_port },
            ),
            ClientInteractions::HttpValidateClient(t) => ServerInteractions::HttpValidateClient(
                self.is_client_connected_by_token(t.as_str()),
            ),
            ClientInteractions::HttpGetConnectedClients =>
                ServerInteractions::HttpGetConnectedClients(self.get_connected_clients()),
            ClientInteractions::HttpGetAllClients => ServerInteractions::HttpGetAllClients(
                self.get_all_clients(),
            ),
        }
    }
}

} // verus!

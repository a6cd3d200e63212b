//! The listing endpoint's decision logic: authorization against the live
//! connections, routing, and the JSON body partitioning all registered
//! clients into online and offline. The transport (socket, headers, status
//! line) lives outside the library and hands in plain values.

use vstd::prelude::*;
use vstd::string::StringExecFns;

use crate::client::same_record;
use crate::client::Client;
use crate::codec::escape;
use crate::server::token_connected;
use crate::text::str_eq;

verus! {

/// The JSON encoding of one client record, as the listing shows it: the
/// public identity fields, never the credential and never the sink.
pub open spec fn encode_client(c: Client) -> Seq<char> {
    "{\"uuid\":\""@ + escape(c.uuid@) + "\",\"username\":\""@ + escape(c.username@)
        + "\",\"display_name\":\""@ + escape(c.display_name@) + "\",\"about_me\":\""@ + escape(
        c.about_me@,
    ) + "\"}"@
}

/// The comma-separated encodings of a client list, without the brackets.
pub open spec fn list_inner(cs: Seq<Client>) -> Seq<char>
    decreases cs.len(),
{
    if cs.len() == 0 {
        Seq::empty()
    } else if cs.len() == 1 {
        encode_client(cs[0])
    } else {
        list_inner(cs.drop_last()) + ","@ + encode_client(cs.last())
    }
}

/// The listing's whole body: the offline clients, then the online ones.
pub open spec fn encode_partition(online: Seq<Client>, offline: Seq<Client>) -> Seq<char> {
    "{\"offline\":"@ + ("["@ + list_inner(offline) + "]"@) + ",\"online\":"@ + ("["@ + list_inner(
        online,
    ) + "]"@) + "}"@
}

/// Some client in `cs` carries the same record as `c`.
pub open spec fn contains_record(cs: Seq<Client>, c: Client) -> bool {
    exists|i: int| 0 <= i < cs.len() && same_record(cs[i], c)
}

/// The clients of a live-connection snapshot, in snapshot order.
pub open spec fn clients_of(conns: Seq<(u64, Client)>) -> Seq<Client> {
    conns.map_values(|p: (u64, Client)| p.1)
}

/// The clients at or after `i`, first occurrence of each record only:
/// the online list shows every connected client once.
pub open spec fn dedup_from(cs: Seq<Client>, i: int) -> Seq<Client>
    decreases cs.len() - i when 0 <= i
{
    if i >= cs.len() {
        Seq::empty()
    } else if contains_record(cs.take(i), cs[i]) {
        dedup_from(cs, i + 1)
    } else {
        seq![cs[i]] + dedup_from(cs, i + 1)
    }
}

/// The registered clients at or after `i` that are not connected: the
/// offline side of the partition, in registration order.
pub open spec fn offline_from(all: Seq<Client>, conns: Seq<Client>, i: int) -> Seq<Client>
    decreases all.len() - i when 0 <= i
{
    if i >= all.len() {
        Seq::empty()
    } else if contains_record(conns, all[i]) {
        offline_from(all, conns, i + 1)
    } else {
        seq![all[i]] + offline_from(all, conns, i + 1)
    }
}

/// Whether the request is authorized: a header must be present and carry
/// the token of a currently connected client.
pub open spec fn auth_ok(conns: Seq<(u64, Client)>, auth: Option<Seq<char>>) -> bool {
    match auth {
        None => false,
        Some(t) => token_connected(conns, t),
    }
}

/// The status and body answered for one request.
pub open spec fn response_model(
    conns: Seq<(u64, Client)>,
    all: Seq<Client>,
    method: Seq<char>,
    path: Seq<char>,
    auth: Option<Seq<char>>,
) -> (u16, Seq<char>) {
    if method == "OPTIONS"@ {
        (200u16, Seq::<char>::empty())
    } else if !auth_ok(conns, auth) {
        (401u16, "UNAUTHORIZED\n"@)
    } else if method == "GET"@ && path == "/list_clients"@ {
        (
            200u16,
            encode_partition(
                dedup_from(clients_of(conns), 0),
                offline_from(all, clients_of(conns), 0),
            ),
        )
    } else {
        (404u16, "404: Not Found\n"@)
    }
}

/// The view of an optional header value.
pub open spec fn opt_view(a: Option<&str>) -> Option<Seq<char>> {
    match a {
        None => None,
        Some(s) => Some(s@),
    }
}

/// A status line and a body, ready for the transport to send.
pub struct HttpResponse {
    pub status: u16,
    pub body: String,
}

/// Pointwise record equality of two client lists.
pub open spec fn records_pointwise(a: Seq<Client>, b: Seq<Client>) -> bool {
    a.len() == b.len() && forall|i: int| 0 <= i < a.len() ==> same_record(#[trigger] a[i], b[i])
}

/// Lists equal record by record encode to the same text.
proof fn lemma_list_inner_congruence(a: Seq<Client>, b: Seq<Client>)
    requires
        records_pointwise(a, b),
    ensures
        list_inner(a) == list_inner(b),
    decreases a.len(),
{
    if a.len() > 1 {
        assert(records_pointwise(a.drop_last(), b.drop_last()));
        lemma_list_inner_congruence(a.drop_last(), b.drop_last());
        assert(same_record(a.last(), b.last()));
        assert(encode_client(a.last()) == encode_client(b.last()));
    } else if a.len() == 1 {
        assert(same_record(a[0], b[0]));
    }
}

/// The JSON encoding of one client record.
fn encode_client_exec(c: &Client) -> (r: String)
    ensures
        r@ == encode_client(*c),
{
    let mut out = String::new();
    out.append("{\"uuid\":\"");
    crate::codec::append_escaped(&mut out, c.uuid.as_str());
    out.append("\",\"username\":\"");
    crate::codec::append_escaped(&mut out, c.username.as_str());
    out.append("\",\"display_name\":\"");
    crate::codec::append_escaped(&mut out, c.display_name.as_str());
    out.append("\",\"about_me\":\"");
    crate::codec::append_escaped(&mut out, c.about_me.as_str());
    out.append("\"}");
    proof {
        assert(out@ =~= encode_client(*c));
    }
    out
}

/// The bracketed JSON encoding of a client list.
fn encode_list(v: &Vec<Client>) -> (r: String)
    ensures
        r@ == "["@ + list_inner(v@) + "]"@,
{
    let mut out = String::new();
    out.append("[");
    let mut i: usize = 0;
    while i < v.len()
        invariant
            0 <= i <= v@.len(),
            out@ == "["@ + list_inner(v@.take(i as int)),
        decreases v@.len() - i,
    {
        if i > 0 {
            out.append(",");
        }
        let piece = encode_client_exec(&v[i]);
        out.append(piece.as_str());
        proof {
            let t = v@.take(i + 1);
            assert(t.drop_last() =~= v@.take(i as int));
            assert(t.last() == v@[i as int]);
            if i == 0 {
                assert(out@ =~= "["@ + list_inner(v@.take(i + 1)));
            } else {
                assert(list_inner(t) == list_inner(v@.take(i as int)) + ","@ + encode_client(
                    v@[i as int],
                ));
                assert(out@ =~= "["@ + list_inner(v@.take(i + 1)));
            }
        }
        i += 1;
    }
    proof {
        assert(v@.take(v@.len() as int) =~= v@);
    }
    out.append("]");
    out
}

/// Whether the record of `c` already stands among the first `n` connected
/// clients.
fn record_in_prefix(conns: &Vec<(u64, Client)>, n: usize, c: &Client) -> (r: bool)
    requires
        n <= conns.len(),
    ensures
        r == contains_record(clients_of(conns@).take(n as int), *c),
{
    let mut j: usize = 0;
    while j < n
        invariant
            0 <= j <= n <= conns@.len(),
            forall|k: int| 0 <= k < j ==> !same_record(clients_of(conns@).take(n as int)[k], *c),
        decreases n - j,
    {
        if conns[j].1.eq_record(c) {
            proof {
                assert(clients_of(conns@).take(n as int)[j as int] == conns@[j as int].1);
            }
            return true;
        }
        proof {
            assert(clients_of(conns@).take(n as int)[j as int] == conns@[j as int].1);
        }
        j += 1;
    }
    proof {
        if contains_record(clients_of(conns@).take(n as int), *c) {
            let k = choose|k: int|
                0 <= k < n && same_record(clients_of(conns@).take(n as int)[k], *c);
            assert(false);
        }
    }
    false
}

/// The online side of the partition: every connected client's record, once,
/// in snapshot order, sinkless copies.
fn online_clients(conns: &Vec<(u64, Client)>) -> (r: Vec<Client>)
    ensures
        records_pointwise(r@, dedup_from(clients_of(conns@), 0)),
{
    let ghost cl = clients_of(conns@);
    let mut out: Vec<Client> = Vec::new();
    let mut i: usize = 0;
    while i < conns.len()
        invariant
            0 <= i <= conns@.len(),
            cl == clients_of(conns@),
            records_pointwise(out@ + dedup_from(cl, i as int), dedup_from(cl, 0)),
        decreases conns@.len() - i,
    {
        proof {
            assert(cl[i as int] == conns@[i as int].1);
        }
        if !record_in_prefix(conns, i, &conns[i].1) {
            let copy = conns[i].1.clone_record();
            let ghost before = out@;
            out.push(copy);
            proof {
                assert(dedup_from(cl, i as int) == seq![cl[i as int]] + dedup_from(cl, i + 1));
                assert forall|k: int|
                    0 <= k < (out@ + dedup_from(cl, i + 1)).len() implies same_record(
                    #[trigger] (out@ + dedup_from(cl, i + 1))[k],
                    (before + dedup_from(cl, i as int))[k],
                ) by {
                    if k < before.len() {
                    } else if k == before.len() {
                        assert((out@ + dedup_from(cl, i + 1))[k] == copy);
                        assert((before + dedup_from(cl, i as int))[k] == cl[i as int]);
                    } else {
                        assert((out@ + dedup_from(cl, i + 1))[k] == dedup_from(cl, i + 1)[k
                            - before.len() - 1]);
                        assert((before + dedup_from(cl, i as int))[k] == (seq![cl[i as int]]
                            + dedup_from(cl, i + 1))[k - before.len()]);
                    }
                }
                assert(records_pointwise(
                    out@ + dedup_from(cl, i + 1),
                    before + dedup_from(cl, i as int),
                ));
                assert(records_pointwise(out@ + dedup_from(cl, i + 1), dedup_from(cl, 0)));
            }
        } else {
            proof {
                assert(dedup_from(cl, i as int) == dedup_from(cl, i + 1));
            }
        }
        i += 1;
    }
    proof {
        assert(dedup_from(cl, conns@.len() as int) =~= Seq::<Client>::empty());
        assert(out@ + dedup_from(cl, conns@.len() as int) =~= out@);
    }
    out
}

/// Whether the record of `c` belongs to some connected client.
fn record_connected(conns: &Vec<(u64, Client)>, c: &Client) -> (r: bool)
    ensures
        r == contains_record(clients_of(conns@), *c),
{
    let mut j: usize = 0;
    while j < conns.len()
        invariant
            0 <= j <= conns@.len(),
            forall|k: int| 0 <= k < j ==> !same_record(clients_of(conns@)[k], *c),
        decreases conns@.len() - j,
    {
        proof {
            assert(clients_of(conns@)[j as int] == conns@[j as int].1);
        }
        if conns[j].1.eq_record(c) {
            return true;
        }
        j += 1;
    }
    proof {
        if contains_record(clients_of(conns@), *c) {
            let k = choose|k: int|
                0 <= k < clients_of(conns@).len() && same_record(clients_of(conns@)[k], *c);
            assert(false);
        }
    }
    false
}

/// The offline side of the partition: every registered client whose record
/// is not connected, in registration order.
fn offline_clients(all: &Vec<Client>, conns: &Vec<(u64, Client)>) -> (r: Vec<Client>)
    ensures
        records_pointwise(r@, offline_from(all@, clients_of(conns@), 0)),
{
    let ghost cl = clients_of(conns@);
    let mut out: Vec<Client> = Vec::new();
    let mut i: usize = 0;
    while i < all.len()
        invariant
            0 <= i <= all@.len(),
            cl == clients_of(conns@),
            records_pointwise(out@ + offline_from(all@, cl, i as int), offline_from(all@, cl, 0)),
        decreases all@.len() - i,
    {
        if !record_connected(conns, &all[i]) {
            let copy = all[i].clone_record();
            let ghost before = out@;
            out.push(copy);
            proof {
                assert(offline_from(all@, cl, i as int) == seq![all@[i as int]] + offline_from(
                    all@,
                    cl,
                    i + 1,
                ));
                assert forall|k: int|
                    0 <= k < (out@ + offline_from(all@, cl, i + 1)).len() implies same_record(
                    #[trigger] (out@ + offline_from(all@, cl, i + 1))[k],
                    (before + offline_from(all@, cl, i as int))[k],
                ) by {
                    if k < before.len() {
                    } else if k == before.len() {
                        assert((out@ + offline_from(all@, cl, i + 1))[k] == copy);
                        assert((before + offline_from(all@, cl, i as int))[k] == all@[i as int]);
                    } else {
                        assert((out@ + offline_from(all@, cl, i + 1))[k] == offline_from(
                            all@,
                            cl,
                            i + 1,
                        )[k - before.len() - 1]);
                        assert((before + offline_from(all@, cl, i as int))[k] == (seq![
                            all@[i as int],
                        ] + offline_from(all@, cl, i + 1))[k - before.len()]);
                    }
                }
                assert(records_pointwise(
                    out@ + offline_from(all@, cl, i + 1),
                    before + offline_from(all@, cl, i as int),
                ));
                assert(records_pointwise(
                    out@ + offline_from(all@, cl, i + 1),
                    offline_from(all@, cl, 0),
                ));
            }
        } else {
            proof {
                assert(offline_from(all@, cl, i as int) == offline_from(all@, cl, i + 1));
            }
        }
        i += 1;
    }
    proof {
        assert(offline_from(all@, cl, all@.len() as int) =~= Seq::<Client>::empty());
        assert(out@ + offline_from(all@, cl, all@.len() as int) =~= out@);
    }
    out
}

/// Whether `token` belongs to a connected client of the snapshot.
fn snapshot_has_token(conns: &Vec<(u64, Client)>, token: &str) -> (r: bool)
    ensures
        r == token_connected(conns@, token@),
{
    let mut j: usize = 0;
    while j < conns.len()
        invariant
            0 <= j <= conns@.len(),
            forall|k: int| 0 <= k < j ==> (#[trigger] conns@[k]).1.token@ != token@,
        decreases conns@.len() - j,
    {
        if str_eq(conns[j].1.token.as_str(), token) {
            return true;
        }
        j += 1;
    }
    proof {
        if token_connected(conns@, token@) {
            let k = choose|k: int| 0 <= k < conns@.len() && conns@[k].1.token@ == token@;
            assert(false);
        }
    }
    false
}

/// Answers one request of the listing endpoint. A preflight probe is always
/// accepted; everything else needs the token of a currently connected client
/// in the authorization header, or is answered `401`. The one route is
/// `GET /list_clients`, which partitions all registered clients by current
/// connection status; any other route is answered `404`.
pub fn handle_request(
    connected: &Vec<(u64, Client)>,
    all: &Vec<Client>,
    method: &str,
    path: &str,
    auth: Option<&str>,
) -> (r: HttpResponse)
    ensures
        r.status == response_model(connected@, all@, method@, path@, opt_view(auth)).0,
        r.body@ == response_model(connected@, all@, method@, path@, opt_view(auth)).1,
{
    if str_eq(method, "OPTIONS") {
        return HttpResponse { status: 200, body: String::new() };
    }
    let ok = match auth {
        None => false,
        Some(t) => snapshot_has_token(connected, t),
    };
    if !ok {
        return HttpResponse { status: 401, body: "UNAUTHORIZED\n".to_owned() };
    }
    if str_eq(method, "GET") && str_eq(path, "/list_clients") {
        let online = online_clients(connected);
        let offline = offline_clients(all, connected);
        let mut body = String::new();
        body.append("{\"offline\":");
        let offline_text = encode_list(&offline);
        body.append(offline_text.as_str());
        body.append(",\"online\":");
        let online_text = encode_list(&online);
        body.append(online_text.as_str());
        body.append("}");
        proof {
            lemma_list_inner_congruence(online@, dedup_from(clients_of(connected@), 0));
            lemma_list_inner_congruence(
                offline@,
                offline_from(all@, clients_of(connected@), 0),
            );
            assert(body@ =~= encode_partition(
                dedup_from(clients_of(connected@), 0),
                offline_from(all@, clients_of(connected@), 0),
            ));
        }
        HttpResponse { status: 200, body }
    } else {
        HttpResponse { status: 404, body: "404: Not Found\n".to_owned() }
    }
}

} // verus!

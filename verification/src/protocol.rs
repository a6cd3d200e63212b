//! The per-connection protocol steps: the handshake's subprotocol parsing,
//! the join and leave notices, and the broadcast fan-out with per-recipient
//! mention computation. The task plumbing around these steps (the socket,
//! the select over inbound frames and the sink) lives outside the library.

use vstd::prelude::*;
use vstd::string::StringExecFns;

use crate::client::token_shape;
use crate::client::Client;
use crate::codec::chars_range_string;
use crate::codec::encode_fields;
use crate::codec::encode_message_fields;
use crate::codec::frame;
use crate::codec::mention_seq;
use crate::codec::mention_at;
use crate::codec::mentions_from;
use crate::codec::mentions_contain;
use crate::message::system_author;
use crate::message::ClientSend;
use crate::message::Message;
use crate::server::conn_index;
use crate::server::lemma_conn_index;
use crate::server::lemma_conn_index_first;
use crate::sink::sink_send;
use crate::text::str_eq;
use crate::text::str_to_chars;

verus! {

/// The separator of the subprotocol header's segments stands at `i`.
pub open spec fn sep_at(s: Seq<char>, i: int) -> bool {
    i + 2 <= s.len() && s[i] == ',' && s[i + 1] == ' '
}

/// Index of the first segment separator at or after `i`, or the end.
pub open spec fn find_sep(s: Seq<char>, i: int) -> int
    decreases s.len() - i when 0 <= i <= s.len()
{
    if i >= s.len() {
        s.len() as int
    } else if sep_at(s, i) {
        i
    } else {
        find_sep(s, i + 1)
    }
}

/// The bearer token of a subprotocol header: the header is a comma-space
/// separated list whose first segment must be the literal `Authorization`;
/// the token is the second segment. `None` when the first segment differs
/// or no second segment exists.
pub open spec fn auth_token(s: Seq<char>) -> Option<Seq<char>> {
    let k1 = find_sep(s, 0);
    if k1 == s.len() {
        None
    } else if s.subrange(0, k1) != "Authorization"@ {
        None
    } else {
        Some(s.subrange(k1 + 2, find_sep(s, k1 + 2)))
    }
}

/// Index of the first segment separator at or after `start`.
fn find_sep_exec(v: &Vec<char>, start: usize) -> (r: usize)
    requires
        start <= v.len(),
    ensures
        r as int == find_sep(v@, start as int),
        start <= r <= v.len(),
        r < v.len() ==> r + 2 <= v.len(),
{
    let mut i: usize = start;
    loop
        invariant
            start <= i <= v.len(),
            find_sep(v@, start as int) == find_sep(v@, i as int),
        decreases v.len() - i,
    {
        if i >= v.len() {
            return i;
        }
        if v.len() - i >= 2 && v[i] == ',' && v[i + 1] == ' ' {
            return i;
        }
        i += 1;
    }
}

/// Reads the bearer token out of the upgrade request's subprotocol header.
pub fn parse_auth_protocol(header: &str) -> (r: Option<String>)
    ensures
        r is None ==> auth_token(header@) is None,
        r matches Some(t) ==> auth_token(header@) == Some(t@),
{
    let v = str_to_chars(header);
    let k1 = find_sep_exec(&v, 0);
    if k1 == v.len() {
        return None;
    }
    let first = chars_range_string(&v, 0, k1);
    if !str_eq(first.as_str(), "Authorization") {
        return None;
    }
    let k2 = find_sep_exec(&v, k1 + 2);
    Some(chars_range_string(&v, k1 + 2, k2))
}

/// The body of a join or leave notice: a mention tag for the affected
/// client, then the label.
pub open spec fn notice_body(uuid: Seq<char>, label: Seq<char>) -> Seq<char> {
    "<<!"@ + uuid + ">>"@ + label
}

/// The body of the notice broadcast when a client joins.
pub fn join_notice_body(uuid: &str) -> (r: String)
    ensures
        r@ == notice_body(uuid@, " joined the server"@),
{
    let mut s = String::new();
    s.append("<<!");
    s.append(uuid);
    s.append(">>");
    s.append(" joined the server");
    proof {
        assert(s@ =~= notice_body(uuid@, " joined the server"@));
    }
    s
}

/// The body of the notice broadcast after a client leaves.
pub fn leave_notice_body(uuid: &str) -> (r: String)
    ensures
        r@ == notice_body(uuid@, " disconnected from the server"@),
{
    let mut s = String::new();
    s.append("<<!");
    s.append(uuid);
    s.append(">>");
    s.append(" disconnected from the server");
    proof {
        assert(s@ =~= notice_body(uuid@, " disconnected from the server"@));
    }
    s
}

/// No mention tag opens at or after `i` when no `<` remains there.
proof fn lemma_no_mentions_from(s: Seq<char>, i: int)
    requires
        0 <= i,
        forall|j: int| i <= j < s.len() ==> s[j] != '<',
    ensures
        mentions_from(s, i) == Seq::<Seq<char>>::empty(),
    decreases s.len() - i,
{
    if i + 21 <= s.len() {
        assert(!mention_at(s, i));
        lemma_no_mentions_from(s, i + 1);
    }
}

/// A notice body mentions exactly the affected client: its sixteen-character
/// identifier, once, provided the label carries no `<`.
pub proof fn lemma_notice_mentions(uuid: Seq<char>, label: Seq<char>)
    requires
        uuid.len() == 16,
        forall|j: int| 0 <= j < 16 ==> uuid[j] != '\n',
        forall|j: int| 0 <= j < label.len() ==> label[j] != '<',
    ensures
        mention_seq(notice_body(uuid, label)) == seq![uuid],
{
    let s = notice_body(uuid, label);
    reveal_strlit("<<!");
    reveal_strlit(">>");
    assert(s.len() == 21 + label.len());
    assert(s[0] == '<' && s[1] == '<' && s[2] == '!');
    assert(forall|j: int| 3 <= j < 19 ==> s[j] == uuid[j - 3]);
    assert(s[19] == '>' && s[20] == '>');
    assert(mention_at(s, 0));
    assert(s.subrange(3, 19) =~= uuid);
    assert(forall|j: int| 21 <= j < s.len() ==> s[j] == label[j - 21]);
    lemma_no_mentions_from(s, 21);
    assert(mentions_from(s, 0) == seq![uuid] + mentions_from(s, 21));
    assert(seq![uuid] + Seq::<Seq<char>>::empty() =~= seq![uuid]);
}

/// A generated identifier carries no newline, so it fits in a mention tag.
pub proof fn lemma_uuid_shape_no_newline(uuid: Seq<char>)
    requires
        crate::client::uuid_shape(uuid),
    ensures
        forall|j: int| 0 <= j < 16 ==> uuid[j] != '\n',
{
    assert forall|j: int| 0 <= j < 16 implies uuid[j] != '\n' by {
        if j % 4 == 3 {
            assert(uuid[j] == '-');
        } else {
            assert(crate::text::is_alnum(uuid[j]));
        }
    }
}

/// `msg` mentions `uuid`.
pub open spec fn mentioned_in(msg: Message, uuid: Seq<char>) -> bool {
    mention_seq(msg.data@).contains(uuid)
}

/// The frame delivered to a recipient with identifier `uuid`: the message,
/// encoded with the mention flag of exactly that recipient.
pub open spec fn delivered_frame(msg: Message, uuid: Seq<char>) -> Seq<char> {
    encode_fields(
        msg.message_uuid@,
        msg.author_uuid@,
        msg.data@,
        msg.edited,
        mentioned_in(msg, uuid),
    )
}

/// Fans a message out to a snapshot of the live connections: every
/// connection gets one copy, its mention flag computed from its own
/// identifier alone, and the copy is queued on the connection's sink where
/// one is attached (delivery is best effort). Returns the frames in
/// snapshot order.
pub fn broadcast_message(snapshot: &Vec<(u64, Client)>, msg: &Message) -> (r: Vec<(u64, String)>)
    ensures
        r@.len() == snapshot@.len(),
        forall|i: int|
            0 <= i < snapshot@.len() ==> (#[trigger] r@[i]).0 == snapshot@[i].0 && r@[i].1@
                == delivered_frame(*msg, snapshot@[i].1.uuid@),
{
    let mentions = msg.mentions();
    let mut out: Vec<(u64, String)> = Vec::new();
    let mut i: usize = 0;
    while i < snapshot.len()
        invariant
            out@.len() == i,
            0 <= i <= snapshot@.len(),
            mentions.deep_view() == mention_seq(msg.data@),
            forall|j: int|
                0 <= j < i ==> (#[trigger] out@[j]).0 == snapshot@[j].0 && out@[j].1@
                    == delivered_frame(*msg, snapshot@[j].1.uuid@),
        decreases snapshot@.len() - i,
    {
        let recipient = &snapshot[i].1;
        let flag = mentions_contain(&mentions, recipient.uuid.as_str());
        let frame_text = encode_message_fields(
            msg.message_uuid.as_str(),
            msg.author_uuid.as_str(),
            msg.data.as_str(),
            msg.edited,
            flag,
        );
        match &recipient.tx {
            Some(tx) => {
                let _ = sink_send(tx, frame_text.clone());
            },
            None => {},
        }
        out.push((snapshot[i].0, frame_text));
        i += 1;
    }
    out
}

/// Index of the connection registered under `addr` in a snapshot.
pub fn find_conn(snapshot: &Vec<(u64, Client)>, addr: u64) -> (r: Option<usize>)
    ensures
        r is None ==> conn_index(snapshot@, addr) is None,
        r matches Some(k) ==> conn_index(snapshot@, addr) == Some(k as int) && k < snapshot.len(),
{
    let mut i: usize = 0;
    while i < snapshot.len()
        invariant
            0 <= i <= snapshot@.len(),
            forall|j: int| 0 <= j < i ==> (#[trigger] snapshot@[j]).0 != addr,
        decreases snapshot@.len() - i,
    {
        if snapshot[i].0 == addr {
            proof {
                lemma_conn_index_first(snapshot@, addr, i as int);
            }
            return Some(i);
        }
        i += 1;
    }
    proof {
        lemma_conn_index(snapshot@, addr);
        match conn_index(snapshot@, addr) {
            Some(k) => {
                assert(snapshot@[k].0 == addr);
                assert(false);
            },
            None => {},
        }
    }
    None
}

/// The identifier of the client connected under `addr`, read from a
/// snapshot.
pub fn lookup_uuid(snapshot: &Vec<(u64, Client)>, addr: u64) -> (r: Option<String>)
    ensures
        r is Some <==> conn_index(snapshot@, addr) is Some,
        r matches Some(u) ==> conn_index(snapshot@, addr) matches Some(k) && u@
            == snapshot@[k].1.uuid@,
{
    match find_conn(snapshot, addr) {
        Some(k) => Some(snapshot[k].1.get_uuid()),
        None => None,
    }
}

/// One relay step: decodes an inbound frame from the sender at `addr`,
/// builds the broadcast message under the sender's identifier, and fans it
/// out to the snapshot. `None` is a protocol violation — a malformed frame,
/// or a sender no longer in the snapshot — and ends the connection.
pub fn relay_broadcast(snapshot: &Vec<(u64, Client)>, addr: u64, text: &str) -> (r: Option<
    (Message, Vec<(u64, String)>),
>)
    ensures
        r is None <==> frame(text@) is None || conn_index(snapshot@, addr) is None,
        r matches Some((m, frames)) ==> {
            &&& frame(text@) matches Some(f) && m.data@ == f.message
            &&& conn_index(snapshot@, addr) matches Some(k) && m.author_uuid@
                == snapshot@[k].1.uuid@
            &&& m.edited == false
            &&& token_shape(m.message_uuid@)
            &&& frames@.len() == snapshot@.len()
            &&& forall|i: int|
                0 <= i < snapshot@.len() ==> (#[trigger] frames@[i]).0 == snapshot@[i].0
                    && frames@[i].1@ == delivered_frame(m, snapshot@[i].1.uuid@)
        },
{
    let cs = match ClientSend::parse(text) {
        None => {
            return None;
        },
        Some(cs) => cs,
    };
    let sender_uuid = match lookup_uuid(snapshot, addr) {
        None => {
            return None;
        },
        Some(u) => u,
    };
    let m = Message::new(cs.message, sender_uuid);
    let frames = broadcast_message(snapshot, &m);
    Some((m, frames))
}

/// Builds a system notice and fans it out to the snapshot: used for the
/// join notice (snapshot taken after registration, so the joiner is
/// included) and for the leave notice (snapshot taken after removal, so the
/// leaver is not).
pub fn notice_broadcast(snapshot: &Vec<(u64, Client)>, body: String) -> (r: (
    Message,
    Vec<(u64, String)>,
))
    ensures
        r.0.data == body,
        r.0.author_uuid@ == system_author(),
        r.0.edited == false,
        token_shape(r.0.message_uuid@),
        r.1@.len() == snapshot@.len(),
        forall|i: int|
            0 <= i < snapshot@.len() ==> (#[trigger] r.1@[i]).0 == snapshot@[i].0 && r.1@[i].1@
                == delivered_frame(r.0, snapshot@[i].1.uuid@),
{
    let m = Message::new_server_message(body);
    let frames = broadcast_message(snapshot, &m);
    (m, frames)
}

/// A message whose body mentions exactly one identifier is delivered to
/// every copy with the mention flag set exactly on that identifier's
/// recipient: each frame is the message encoded with `true` precisely when
/// the recipient's identifier is the mentioned one.
pub proof fn lemma_single_mention_broadcast(
    msg: Message,
    snapshot: Seq<(u64, Client)>,
    frames: Seq<(u64, String)>,
    target: Seq<char>,
)
    requires
        mention_seq(msg.data@) == seq![target],
        frames.len() == snapshot.len(),
        forall|i: int|
            0 <= i < snapshot.len() ==> (#[trigger] frames[i]).1@ == delivered_frame(
                msg,
                snapshot[i].1.uuid@,
            ),
    ensures
        forall|i: int|
            0 <= i < snapshot.len() ==> (#[trigger] frames[i]).1@ == encode_fields(
                msg.message_uuid@,
                msg.author_uuid@,
                msg.data@,
                msg.edited,
                snapshot[i].1.uuid@ == target,
            ),
{
    assert forall|i: int| 0 <= i < snapshot.len() implies (#[trigger] frames[i]).1@
        == encode_fields(
        msg.message_uuid@,
        msg.author_uuid@,
        msg.data@,
        msg.edited,
        snapshot[i].1.uuid@ == target,
    ) by {
        let u = snapshot[i].1.uuid@;
        if u == target {
            assert(seq![target][0] == u);
            assert(mentioned_in(msg, u));
        } else {
            if mentioned_in(msg, u) {
                let j = choose|j: int|
                    0 <= j < seq![target].len() && seq![target][j] == u;
                assert(seq![target][j] == target);
                assert(false);
            }
        }
    }
}

} // verus!

use chat_relay::channel::ClientInteractions;
use chat_relay::client::Client;
use chat_relay::http::handle_request;
use chat_relay::protocol::join_notice_body;
use chat_relay::protocol::leave_notice_body;
use chat_relay::protocol::notice_broadcast;
use chat_relay::protocol::parse_auth_protocol;
use chat_relay::protocol::relay_broadcast;
use chat_relay::server::Server;

use futures_channel::mpsc::unbounded;
use futures_channel::mpsc::UnboundedReceiver;

const A_UUID: &str = "aaaaaaaaaaaaaaaa";
const A_TOKEN: &str = "tokenAtokenA0000";
const B_UUID: &str = "bbbbbbbbbbbbbbbb";
const B_TOKEN: &str = "tokenBtokenB0000";

fn record(uuid: &str, token: &str, username: &str) -> Client {
    Client {
        uuid: uuid.to_string(),
        token: token.to_string(),
        username: username.to_string(),
        display_name: username.to_string(),
        about_me: String::new(),
        tx: None,
    }
}

fn server_ab() -> Server {
    Server::new(
        "testserver".to_string(),
        "127.0.0.1".to_string(),
        8080,
        8081,
        vec![record(A_UUID, A_TOKEN, "alice"), record(B_UUID, B_TOKEN, "bob")],
    )
}

fn connect(s: &mut Server, addr: u64, uuid: &str, token: &str, name: &str) -> UnboundedReceiver<String> {
    let validated = s
        .handle(ClientInteractions::WsValidateClient(token.to_string()))
        .client_validation()
        .expect("token should validate");
    assert_eq!(validated.uuid, uuid);
    s.handle(ClientInteractions::WsClientConnected { addr, client: validated });
    let (tx, rx) = unbounded::<String>();
    s.handle(ClientInteractions::WsSetClientConnectedTx { addr, tx });
    let _ = name;
    rx
}

fn next_frame(rx: &mut UnboundedReceiver<String>) -> serde_json::Value {
    let text = rx.try_next().expect("a frame should be queued").expect("sink still open");
    serde_json::from_str(&text).expect("frames are valid JSON")
}

#[test]
fn handshake_header_parsing() {
    assert_eq!(
        parse_auth_protocol("Authorization, tokenAtokenA0000").as_deref(),
        Some("tokenAtokenA0000")
    );
    assert_eq!(
        parse_auth_protocol("Authorization, tok, extra").as_deref(),
        Some("tok")
    );
    assert!(parse_auth_protocol("Authorization").is_none());
    assert!(parse_auth_protocol("Bearer, tokenAtokenA0000").is_none());
    assert!(parse_auth_protocol("").is_none());
}

#[test]
fn sole_client_receives_its_own_join_notice_with_mention() {
    let mut s = server_ab();
    let mut rx_a = connect(&mut s, 1, A_UUID, A_TOKEN, "alice");
    let snapshot = s
        .handle(ClientInteractions::WsGetConnectedClients)
        .connected_clients()
        .unwrap();
    let (_notice, frames) = notice_broadcast(&snapshot, join_notice_body(A_UUID));
    assert_eq!(frames.len(), 1);
    let v = next_frame(&mut rx_a);
    assert_eq!(
        v.get("data").unwrap().as_str().unwrap(),
        "<<!aaaaaaaaaaaaaaaa>> joined the server"
    );
    assert_eq!(v.get("is_mentioned").unwrap().as_bool().unwrap(), true);
    assert_eq!(v.get("author_uuid").unwrap().as_str().unwrap(), "0000000000000000");
    assert_eq!(v.get("edited").unwrap().as_bool().unwrap(), false);
}

#[test]
fn broadcast_sets_the_mention_flag_only_for_the_mentioned_copy() {
    let mut s = server_ab();
    let mut rx_a = connect(&mut s, 1, A_UUID, A_TOKEN, "alice");
    let mut rx_b = connect(&mut s, 2, B_UUID, B_TOKEN, "bob");
    let snapshot = s
        .handle(ClientInteractions::WsGetConnectedClients)
        .connected_clients()
        .unwrap();

    let inbound = format!(
        r#"{{"op":0,"allowed_mentions":true,"message":"hi <<!{}>>"}}"#,
        B_UUID
    );
    let (m, frames) = relay_broadcast(&snapshot, 1, &inbound).expect("a well-formed frame relays");
    assert_eq!(m.author_uuid, A_UUID);
    assert_eq!(frames.len(), 2);

    let va = next_frame(&mut rx_a);
    assert_eq!(va.get("data").unwrap().as_str().unwrap(), "hi <<!bbbbbbbbbbbbbbbb>>");
    assert_eq!(va.get("is_mentioned").unwrap().as_bool().unwrap(), false);
    assert_eq!(va.get("author_uuid").unwrap().as_str().unwrap(), A_UUID);

    let vb = next_frame(&mut rx_b);
    assert_eq!(vb.get("data").unwrap().as_str().unwrap(), "hi <<!bbbbbbbbbbbbbbbb>>");
    assert_eq!(vb.get("is_mentioned").unwrap().as_bool().unwrap(), true);
    assert_eq!(vb.get("author_uuid").unwrap().as_str().unwrap(), A_UUID);
}

#[test]
fn malformed_frame_kills_the_connection_and_peers_see_the_leave() {
    let mut s = server_ab();
    let mut rx_a = connect(&mut s, 1, A_UUID, A_TOKEN, "alice");
    let mut rx_b = connect(&mut s, 2, B_UUID, B_TOKEN, "bob");

    let snapshot = s
        .handle(ClientInteractions::WsGetConnectedClients)
        .connected_clients()
        .unwrap();
    assert!(relay_broadcast(&snapshot, 1, "this is not a frame").is_none());

    s.handle(ClientInteractions::WsClientLeft { addr: 1 });
    let after = s
        .handle(ClientInteractions::WsGetConnectedClients)
        .connected_clients()
        .unwrap();
    assert_eq!(after.len(), 1);
    let (_notice, frames) = notice_broadcast(&after, leave_notice_body(A_UUID));
    assert_eq!(frames.len(), 1);

    let vb = next_frame(&mut rx_b);
    assert_eq!(
        vb.get("data").unwrap().as_str().unwrap(),
        "<<!aaaaaaaaaaaaaaaa>> disconnected from the server"
    );
    assert!(rx_a.try_next().is_err() || rx_a.try_next().unwrap().is_none());

    let all = s.handle(ClientInteractions::HttpGetAllClients).all_clients();
    let connected = s
        .handle(ClientInteractions::HttpGetConnectedClients)
        .connected_clients()
        .unwrap();
    let res = handle_request(&connected, &all, "GET", "/list_clients", Some(B_TOKEN));
    assert_eq!(res.status, 200);
    let v: serde_json::Value = serde_json::from_str(&res.body).unwrap();
    let offline = v.get("offline").unwrap().as_array().unwrap();
    let online = v.get("online").unwrap().as_array().unwrap();
    assert_eq!(offline.len(), 1);
    assert_eq!(offline[0].get("uuid").unwrap().as_str().unwrap(), A_UUID);
    assert_eq!(online.len(), 1);
    assert_eq!(online[0].get("uuid").unwrap().as_str().unwrap(), B_UUID);
}

#[test]
fn unauthenticated_listing_is_rejected() {
    let mut s = server_ab();
    let _rx_a = connect(&mut s, 1, A_UUID, A_TOKEN, "alice");
    let all = s.handle(ClientInteractions::HttpGetAllClients).all_clients();
    let connected = s
        .handle(ClientInteractions::HttpGetConnectedClients)
        .connected_clients()
        .unwrap();

    let res = handle_request(&connected, &all, "GET", "/list_clients", None);
    assert_eq!(res.status, 401);
    assert_eq!(res.body, "UNAUTHORIZED\n");

    let res = handle_request(&connected, &all, "GET", "/list_clients", Some("wrongtoken000000"));
    assert_eq!(res.status, 401);

    let res = handle_request(&connected, &all, "GET", "/list_clients", Some(B_TOKEN));
    assert_eq!(res.status, 401, "a registered but unconnected token is not enough");
}

#[test]
fn other_routes_answer_not_found_and_preflight_is_open() {
    let mut s = server_ab();
    let _rx_a = connect(&mut s, 1, A_UUID, A_TOKEN, "alice");
    let all = s.handle(ClientInteractions::HttpGetAllClients).all_clients();
    let connected = s
        .handle(ClientInteractions::HttpGetConnectedClients)
        .connected_clients()
        .unwrap();

    let res = handle_request(&connected, &all, "GET", "/other", Some(A_TOKEN));
    assert_eq!(res.status, 404);
    assert_eq!(res.body, "404: Not Found\n");

    let res = handle_request(&connected, &all, "POST", "/list_clients", Some(A_TOKEN));
    assert_eq!(res.status, 404);

    let res = handle_request(&connected, &all, "OPTIONS", "/list_clients", None);
    assert_eq!(res.status, 200);
    assert_eq!(res.body, "");
}

#[test]
fn listing_shows_each_connected_client_once() {
    let mut s = server_ab();
    let _rx1 = connect(&mut s, 1, A_UUID, A_TOKEN, "alice");
    let _rx2 = connect(&mut s, 2, A_UUID, A_TOKEN, "alice");
    let all = s.handle(ClientInteractions::HttpGetAllClients).all_clients();
    let connected = s
        .handle(ClientInteractions::HttpGetConnectedClients)
        .connected_clients()
        .unwrap();
    assert_eq!(connected.len(), 2);
    let res = handle_request(&connected, &all, "GET", "/list_clients", Some(A_TOKEN));
    let v: serde_json::Value = serde_json::from_str(&res.body).unwrap();
    let online = v.get("online").unwrap().as_array().unwrap();
    assert_eq!(online.len(), 1);
    assert_eq!(online[0].get("uuid").unwrap().as_str().unwrap(), A_UUID);
    assert_eq!(online[0].get("username").unwrap().as_str().unwrap(), "alice");
    assert!(online[0].get("token").is_none(), "the credential is never listed");
}

#[test]
fn listing_body_exact_text() {
    let mut s = Server::new(
        "testserver".to_string(),
        "127.0.0.1".to_string(),
        8080,
        8081,
        vec![record(A_UUID, A_TOKEN, "alice")],
    );
    let _rx = connect(&mut s, 1, A_UUID, A_TOKEN, "alice");
    let all = s.handle(ClientInteractions::HttpGetAllClients).all_clients();
    let connected = s
        .handle(ClientInteractions::HttpGetConnectedClients)
        .connected_clients()
        .unwrap();
    let res = handle_request(&connected, &all, "GET", "/list_clients", Some(A_TOKEN));
    assert_eq!(res.status, 200);
    assert_eq!(
        res.body,
        "{\"offline\":[],\"online\":[{\"uuid\":\"aaaaaaaaaaaaaaaa\",\"username\":\"alice\",\"display_name\":\"alice\",\"about_me\":\"\"}]}"
    );
}

#[test]
fn relay_from_unknown_sender_is_a_violation() {
    let mut s = server_ab();
    let _rx_a = connect(&mut s, 1, A_UUID, A_TOKEN, "alice");
    let snapshot = s
        .handle(ClientInteractions::WsGetConnectedClients)
        .connected_clients()
        .unwrap();
    let inbound = r#"{"op":0,"allowed_mentions":true,"message":"hi"}"#;
    assert!(relay_broadcast(&snapshot, 99, inbound).is_none());
}

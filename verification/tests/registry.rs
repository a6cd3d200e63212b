use chat_relay::channel::ClientInteractions;
use chat_relay::channel::ServerInteractions;
use chat_relay::client::Client;
use chat_relay::server::Server;

fn record(uuid: &str, token: &str, username: &str) -> Client {
    Client {
        uuid: uuid.to_string(),
        token: token.to_string(),
        username: username.to_string(),
        display_name: username.to_string(),
        about_me: String::new(),
        tx: None,
    }
}

fn server_with(clients: Vec<Client>) -> Server {
    Server::new(
        "testserver".to_string(),
        "127.0.0.1".to_string(),
        8080,
        8081,
        clients,
    )
}

#[test]
fn validate_token_finds_the_matching_record() {
    let s = server_with(vec![
        record("aaaa-aaa-aaa-aaaa", "tokenA0123456789", "alice"),
        record("bbbb-bbb-bbb-bbbb", "tokenB0123456789", "bob"),
    ]);
    let a = s.is_client_valid("tokenA0123456789").unwrap();
    assert_eq!(a.uuid, "aaaa-aaa-aaa-aaaa");
    assert_eq!(a.username, "alice");
    assert!(a.tx.is_none());
    let b = s.is_client_valid("tokenB0123456789").unwrap();
    assert_eq!(b.username, "bob");
}

#[test]
fn validate_unknown_token_answers_none() {
    let s = server_with(vec![record("aaaa-aaa-aaa-aaaa", "tokenA0123456789", "alice")]);
    assert!(s.is_client_valid("nosuchtoken55555").is_none());
    assert!(s.is_client_valid("").is_none());
}

#[test]
fn validate_first_matching_token_wins() {
    let s = server_with(vec![
        record("first-id-0000000", "sharedtoken00000", "first"),
        record("second-id-000000", "sharedtoken00000", "second"),
    ]);
    let c = s.is_client_valid("sharedtoken00000").unwrap();
    assert_eq!(c.username, "first");
}

#[test]
fn connect_succeeds_only_while_token_is_valid() {
    let mut s = server_with(vec![record("aaaa-aaa-aaa-aaaa", "tokenA0123456789", "alice")]);
    let good = record("aaaa-aaa-aaa-aaaa", "tokenA0123456789", "alice");
    s.client_connected(1, good);
    assert_eq!(s.get_connected_clients().len(), 1);

    let stale = record("cccc-ccc-ccc-cccc", "revokedtoken0000", "carol");
    s.client_connected(2, stale);
    let snapshot = s.get_connected_clients();
    assert_eq!(snapshot.len(), 1);
    assert_eq!(snapshot[0].0, 1);
    assert_eq!(snapshot[0].1.username, "alice");
}

#[test]
fn disconnect_removes_and_is_idempotent() {
    let mut s = server_with(vec![record("aaaa-aaa-aaa-aaaa", "tokenA0123456789", "alice")]);
    s.client_connected(1, record("aaaa-aaa-aaa-aaaa", "tokenA0123456789", "alice"));
    assert_eq!(s.get_connected_clients().len(), 1);
    s.client_disconnected(1);
    assert_eq!(s.get_connected_clients().len(), 0);
    s.client_disconnected(1);
    assert_eq!(s.get_connected_clients().len(), 0);
}

#[test]
fn attach_sink_to_missing_address_is_silent() {
    let mut s = server_with(vec![record("aaaa-aaa-aaa-aaaa", "tokenA0123456789", "alice")]);
    let (tx, _rx) = futures_channel::mpsc::unbounded::<String>();
    s.set_connected_client_tx(99, tx);
    assert_eq!(s.get_connected_clients().len(), 0);
}

#[test]
fn attach_sink_sets_exactly_one_connection() {
    let mut s = server_with(vec![
        record("aaaa-aaa-aaa-aaaa", "tokenA0123456789", "alice"),
        record("bbbb-bbb-bbb-bbbb", "tokenB0123456789", "bob"),
    ]);
    s.client_connected(1, record("aaaa-aaa-aaa-aaaa", "tokenA0123456789", "alice"));
    s.client_connected(2, record("bbbb-bbb-bbb-bbbb", "tokenB0123456789", "bob"));
    let (tx, _rx) = futures_channel::mpsc::unbounded::<String>();
    s.set_connected_client_tx(2, tx);
    let snapshot = s.get_connected_clients();
    assert!(snapshot[0].1.tx.is_none());
    assert!(snapshot[1].1.tx.is_some());
}

#[test]
fn connected_token_check() {
    let mut s = server_with(vec![record("aaaa-aaa-aaa-aaaa", "tokenA0123456789", "alice")]);
    assert!(!s.is_client_connected_by_token("tokenA0123456789"));
    s.client_connected(1, record("aaaa-aaa-aaa-aaaa", "tokenA0123456789", "alice"));
    assert!(s.is_client_connected_by_token("tokenA0123456789"));
    assert!(!s.is_client_connected_by_token("othertoken000000"));
}

#[test]
fn get_all_clients_lists_the_store() {
    let s = server_with(vec![
        record("aaaa-aaa-aaa-aaaa", "tokenA0123456789", "alice"),
        record("bbbb-bbb-bbb-bbbb", "tokenB0123456789", "bob"),
    ]);
    let all = s.get_all_clients();
    assert_eq!(all.len(), 2);
    assert_eq!(all[0].username, "alice");
    assert_eq!(all[1].username, "bob");
}

#[test]
fn new_client_registers_a_fresh_record() {
    let mut s = server_with(vec![]);
    let c = s.new_client("dave");
    assert_eq!(c.username, "dave");
    assert_eq!(c.token.chars().count(), 16);
    let found = s.is_client_valid(&c.token).unwrap();
    assert_eq!(found.uuid, c.uuid);
}

#[test]
fn handle_answers_each_request_kind() {
    let mut s = server_with(vec![record("aaaa-aaa-aaa-aaaa", "tokenA0123456789", "alice")]);

    let r = s.handle(ClientInteractions::WsSocket);
    let addr = r.socket_addr().unwrap();
    assert_eq!(addr.ip, "127.0.0.1");
    assert_eq!(addr.port, 8080);

    let r = s.handle(ClientInteractions::HttpSocket);
    let addr = r.socket_addr().unwrap();
    assert_eq!(addr.port, 8081);

    let r = s.handle(ClientInteractions::WsValidateClient("tokenA0123456789".to_string()));
    let c = r.client_validation().unwrap();
    assert_eq!(c.username, "alice");

    let r = s.handle(ClientInteractions::WsValidateClient("wrong00000000000".to_string()));
    assert!(r.client_validation().is_none());

    let r = s.handle(ClientInteractions::WsClientConnected {
        addr: 7,
        client: record("aaaa-aaa-aaa-aaaa", "tokenA0123456789", "alice"),
    });
    assert!(matches!(r, ServerInteractions::WsClientConnected));

    let r = s.handle(ClientInteractions::WsGetConnectedClients);
    let snapshot = r.connected_clients().unwrap();
    assert_eq!(snapshot.len(), 1);
    assert_eq!(snapshot[0].0, 7);

    let r = s.handle(ClientInteractions::HttpValidateClient("tokenA0123456789".to_string()));
    assert!(r.get_bool());

    let r = s.handle(ClientInteractions::HttpGetAllClients);
    let all = r.all_clients();
    assert_eq!(all.len(), 1);

    let r = s.handle(ClientInteractions::WsClientLeft { addr: 7 });
    assert!(matches!(r, ServerInteractions::WsClientLeft));
    let r = s.handle(ClientInteractions::HttpGetConnectedClients);
    assert_eq!(r.connected_clients().unwrap().len(), 0);

    let r = s.handle(ClientInteractions::HttpValidateClient("tokenA0123456789".to_string()));
    assert!(!r.get_bool());
}

#[test]
fn accessors_answer_none_or_default_for_other_variants() {
    let r = ServerInteractions::WsClientConnected;
    assert!(r.socket_addr().is_none());
    assert!(r.client_validation().is_none());
    assert!(r.connected_clients().is_none());
    assert!(r.all_clients().is_empty());
    assert!(!r.get_bool());
}

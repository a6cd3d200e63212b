use chat_relay::client::Client;
use chat_relay::message::ClientSend;
use chat_relay::message::Message;
use chat_relay::message::MessageOps;
use chat_relay::protocol::join_notice_body;
use chat_relay::protocol::leave_notice_body;

fn msg(
    message_uuid: &str,
    author_uuid: &str,
    data: &str,
    edited: bool,
    is_mentioned: bool,
) -> Message {
    Message {
        message_uuid: message_uuid.to_string(),
        author_uuid: author_uuid.to_string(),
        data: data.to_string(),
        edited,
        is_mentioned,
    }
}

#[test]
fn parse_new_message() {
    let cs = ClientSend::parse(r#"{"op":0,"allowed_mentions":true,"message":"hi"}"#).unwrap();
    assert!(matches!(cs.op, MessageOps::NewMessage));
    assert!(cs.allowed_mentions);
    assert_eq!(cs.message, "hi");
    assert!(cs.message_uuid.is_none());
}

#[test]
fn parse_members_in_any_order_with_whitespace() {
    let cs = ClientSend::parse(
        " { \"message\" : \"x\" ,\n\t\"allowed_mentions\" : false , \"op\" : 0 } ",
    )
    .unwrap();
    assert!(matches!(cs.op, MessageOps::NewMessage));
    assert!(!cs.allowed_mentions);
    assert_eq!(cs.message, "x");
}

#[test]
fn parse_new_message_discards_supplied_id() {
    let cs = ClientSend::parse(
        r#"{"op":0,"allowed_mentions":true,"message_uuid":"0123456789abcdef","message":"hi"}"#,
    )
    .unwrap();
    assert!(matches!(cs.op, MessageOps::NewMessage));
    assert!(cs.message_uuid.is_none());
}

#[test]
fn parse_edit_keeps_exact_id() {
    let cs = ClientSend::parse(
        r#"{"op":1,"allowed_mentions":false,"message_uuid":"0123456789abcdef","message":"x"}"#,
    )
    .unwrap();
    assert!(matches!(cs.op, MessageOps::EditMessage));
    assert_eq!(cs.message_uuid.as_deref(), Some("0123456789abcdef"));
}

#[test]
fn parse_delete_truncates_long_id() {
    let cs = ClientSend::parse(
        r#"{"op":2,"allowed_mentions":false,"message_uuid":"0123456789abcdefEXTRA","message":""}"#,
    )
    .unwrap();
    assert!(matches!(cs.op, MessageOps::DeleteMessage));
    assert_eq!(cs.message_uuid.as_deref(), Some("0123456789abcdef"));
}

#[test]
fn parse_edit_short_id_rejected() {
    let r = ClientSend::parse(
        r#"{"op":1,"allowed_mentions":false,"message_uuid":"short","message":"x"}"#,
    );
    assert!(r.is_none());
}

#[test]
fn parse_edit_missing_or_null_id_rejected() {
    assert!(ClientSend::parse(r#"{"op":1,"allowed_mentions":false,"message":"x"}"#).is_none());
    assert!(ClientSend::parse(
        r#"{"op":1,"allowed_mentions":false,"message_uuid":null,"message":"x"}"#
    )
    .is_none());
}

#[test]
fn parse_bad_op_rejected() {
    assert!(ClientSend::parse(r#"{"op":3,"allowed_mentions":true,"message":"x"}"#).is_none());
    assert!(ClientSend::parse(r#"{"op":10,"allowed_mentions":true,"message":"x"}"#).is_none());
    assert!(ClientSend::parse(r#"{"op":"0","allowed_mentions":true,"message":"x"}"#).is_none());
    assert!(ClientSend::parse(r#"{"op":-1,"allowed_mentions":true,"message":"x"}"#).is_none());
    assert!(ClientSend::parse(r#"{"op":01,"allowed_mentions":true,"message":"x"}"#).is_none());
}

#[test]
fn parse_structural_errors_rejected() {
    assert!(ClientSend::parse("not json").is_none());
    assert!(ClientSend::parse("").is_none());
    assert!(ClientSend::parse("{}").is_none());
    assert!(ClientSend::parse(r#"{"op":0,"allowed_mentions":true}"#).is_none());
    assert!(ClientSend::parse(r#"{"op":0,"allowed_mentions":true,"message":"x""#).is_none());
    assert!(ClientSend::parse(r#"{"op":0,"allowed_mentions":true,"message":"x"} y"#).is_none());
    assert!(
        ClientSend::parse(r#"{"op":0,"op":0,"allowed_mentions":true,"message":"x"}"#).is_none()
    );
}

#[test]
fn parse_ignores_unknown_members() {
    let cs = ClientSend::parse(r#"{"op":0,"allowed_mentions":true,"message":"x","extra":1}"#)
        .unwrap();
    assert_eq!(cs.message, "x");
    let cs = ClientSend::parse(
        r#"{"a":null,"b":[1,-2.5,"s",{"c":true}],"op":1,"d":{"e":[[]]},"allowed_mentions":false,"message_uuid":"0123456789abcdef","message":"y","b":1e-3}"#,
    )
    .unwrap();
    assert!(matches!(cs.op, MessageOps::EditMessage));
    assert_eq!(cs.message, "y");
    assert_eq!(cs.message_uuid.as_deref(), Some("0123456789abcdef"));
}

#[test]
fn parse_unknown_member_with_bad_value_rejected() {
    assert!(ClientSend::parse(r#"{"op":0,"allowed_mentions":true,"message":"x","e":01}"#)
        .is_none());
    assert!(ClientSend::parse(r#"{"op":0,"allowed_mentions":true,"message":"x","e":[1,}"#)
        .is_none());
    assert!(ClientSend::parse(r#"{"op":0,"allowed_mentions":true,"message":"x","e":tru}"#)
        .is_none());
    assert!(ClientSend::parse(r#"{"op":0,"allowed_mentions":true,"message":"x","e":5.}"#)
        .is_none());
    assert!(ClientSend::parse(r#"{"op":0,"allowed_mentions":true,"message":"x","e":1e+}"#)
        .is_none());
}

#[test]
fn parse_string_escapes() {
    let cs = ClientSend::parse(
        r#"{"op":0,"allowed_mentions":true,"message":"a\"b\\c\nd\teAf\/"}"#,
    )
    .unwrap();
    assert_eq!(cs.message, "a\"b\\c\nd\teAf/");
}

#[test]
fn parse_surrogate_pair() {
    let cs = ClientSend::parse(
        r#"{"op":0,"allowed_mentions":true,"message":"\ud83d\ude00"}"#,
    )
    .unwrap();
    assert_eq!(cs.message, "\u{1F600}");
}

#[test]
fn parse_lone_surrogate_rejected() {
    assert!(
        ClientSend::parse(r#"{"op":0,"allowed_mentions":true,"message":"\ude00"}"#).is_none()
    );
    assert!(
        ClientSend::parse(r#"{"op":0,"allowed_mentions":true,"message":"\ud83dx"}"#).is_none()
    );
}

#[test]
fn parse_raw_control_character_rejected() {
    assert!(ClientSend::parse("{\"op\":0,\"allowed_mentions\":true,\"message\":\"a\u{1}b\"}")
        .is_none());
}

#[test]
fn parse_message_uuid_applies_identifier_rule() {
    let mut cs = ClientSend {
        op: MessageOps::NewMessage,
        allowed_mentions: true,
        message_uuid: Some("0123456789abcdef".to_string()),
        message: "x".to_string(),
    };
    cs.parse_message_uuid();
    assert!(cs.message_uuid.is_none());

    let mut cs = ClientSend {
        op: MessageOps::EditMessage,
        allowed_mentions: true,
        message_uuid: Some("0123456789abcdefEXTRA".to_string()),
        message: "x".to_string(),
    };
    cs.parse_message_uuid();
    assert_eq!(cs.message_uuid.as_deref(), Some("0123456789abcdef"));

    let mut cs = ClientSend {
        op: MessageOps::DeleteMessage,
        allowed_mentions: true,
        message_uuid: Some("short".to_string()),
        message: "x".to_string(),
    };
    cs.parse_message_uuid();
    assert!(cs.message_uuid.is_none());
}

#[test]
fn encode_exact_text() {
    let m = msg("mmmmmmmmmmmmmmmm", "aaaaaaaaaaaaaaaa", "hi", false, false);
    assert_eq!(
        m.to_message(),
        r#"{"message_uuid":"mmmmmmmmmmmmmmmm","author_uuid":"aaaaaaaaaaaaaaaa","data":"hi","edited":false,"is_mentioned":false}"#
    );
    let m = msg("m", "a", "x", true, true);
    assert_eq!(
        m.to_message(),
        r#"{"message_uuid":"m","author_uuid":"a","data":"x","edited":true,"is_mentioned":true}"#
    );
}

#[test]
fn encode_escapes_body() {
    let m = msg("m", "a", "a\"b\\c\nd\u{1}", false, false);
    assert_eq!(
        m.to_message(),
        "{\"message_uuid\":\"m\",\"author_uuid\":\"a\",\"data\":\"a\\\"b\\\\c\\nd\\u0001\",\"edited\":false,\"is_mentioned\":false}"
    );
}

#[test]
fn encode_round_trips_through_json_parser() {
    let m = msg("mmmmmmmmmmmmmmmm", "aaaaaaaaaaaaaaaa", "hi \"there\"\n", false, true);
    let v: serde_json::Value = serde_json::from_str(&m.to_message()).unwrap();
    assert_eq!(v.get("message_uuid").unwrap().as_str().unwrap(), "mmmmmmmmmmmmmmmm");
    assert_eq!(v.get("author_uuid").unwrap().as_str().unwrap(), "aaaaaaaaaaaaaaaa");
    assert_eq!(v.get("data").unwrap().as_str().unwrap(), "hi \"there\"\n");
    assert_eq!(v.get("edited").unwrap().as_bool().unwrap(), false);
    assert_eq!(v.get("is_mentioned").unwrap().as_bool().unwrap(), true);
}

#[test]
fn mentions_single() {
    let m = msg("m", "a", "hi <<!0123456789abcdef>>", false, false);
    assert_eq!(m.mentions(), vec!["0123456789abcdef".to_string()]);
}

#[test]
fn mentions_multiple_in_order() {
    let m = msg("m", "a", "<<!0123456789abcdef>> and <<!fedcba9876543210>>", false, false);
    assert_eq!(
        m.mentions(),
        vec!["0123456789abcdef".to_string(), "fedcba9876543210".to_string()]
    );
}

#[test]
fn mentions_require_exact_shape() {
    let m = msg("m", "a", "<<!shortid>> <<!0123456789abcde>> <<?0123456789abcdef>>", false, false);
    assert!(m.mentions().is_empty());
    let m = msg("m", "a", "<<!0123456789ab\ndef>>", false, false);
    assert!(m.mentions().is_empty());
}

#[test]
fn mentions_scan_is_leftmost_nonoverlapping() {
    let m = msg("m", "a", "x<<!<<!0123456789abcdef>>", false, false);
    assert_eq!(m.mentions(), vec!["0123456789abcdef".to_string()]);
    let m = msg("m", "a", "<<!123456789abcdef>>>", false, false);
    assert_eq!(m.mentions(), vec!["123456789abcdef>".to_string()]);
}

#[test]
fn mentions_duplicates_preserved() {
    let m = msg("m", "a", "<<!0123456789abcdef>><<!0123456789abcdef>>", false, false);
    assert_eq!(m.mentions().len(), 2);
}

#[test]
fn set_mention_only_flips_flag() {
    let m = msg("m", "a", "x", false, false);
    let m2 = m.set_mention();
    assert!(m2.is_mentioned);
    assert_eq!(m2.message_uuid, m.message_uuid);
    assert_eq!(m2.author_uuid, m.author_uuid);
    assert_eq!(m2.data, m.data);
    assert_eq!(m2.edited, m.edited);
}

#[test]
fn message_new_generates_fresh_id() {
    let m = Message::new("hello".to_string(), "aaaaaaaaaaaaaaaa".to_string());
    assert_eq!(m.message_uuid.chars().count(), 16);
    assert!(m.message_uuid.chars().all(|c| c.is_ascii_alphanumeric()));
    assert_eq!(m.data, "hello");
    assert_eq!(m.author_uuid, "aaaaaaaaaaaaaaaa");
    assert!(!m.edited);
    assert!(!m.is_mentioned);
}

#[test]
fn notice_bodies_mention_the_client() {
    let join = join_notice_body("0123456789abcdef");
    assert_eq!(join, "<<!0123456789abcdef>> joined the server");
    let leave = leave_notice_body("0123456789abcdef");
    assert_eq!(leave, "<<!0123456789abcdef>> disconnected from the server");
    let m = Message::new_server_message(join);
    assert_eq!(m.author_uuid, "0000000000000000");
    assert_eq!(m.mentions(), vec!["0123456789abcdef".to_string()]);
}

#[test]
fn client_generation_shapes() {
    let c = Client::new("alice");
    assert_eq!(c.username, "alice");
    assert_eq!(c.display_name, "alice");
    assert_eq!(c.about_me, "");
    assert!(c.tx.is_none());
    assert_eq!(c.token.chars().count(), 16);
    assert!(c.token.chars().all(|ch| ch.is_ascii_alphanumeric()));
    let uuid: Vec<char> = c.uuid.chars().collect();
    assert_eq!(uuid.len(), 16);
    for (i, ch) in uuid.iter().enumerate() {
        if i % 4 == 3 {
            assert_eq!(*ch, '-');
        } else {
            assert!(ch.is_ascii_alphanumeric());
        }
    }
    let mut c2 = c.clone_record();
    let old_token = c2.token.clone();
    c2.regenerate_token();
    assert_eq!(c2.token.chars().count(), 16);
    assert_ne!(c2.uuid, String::new());
    let _ = old_token;
}

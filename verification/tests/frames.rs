use discord_rust_framework::api::User;
use discord_rust_framework::gateway::discord_message::DiscordMessage;
use discord_rust_framework::gateway::hello::Hello;
use discord_rust_framework::gateway::identity::Identity;
use discord_rust_framework::gateway::ready::Ready;
use discord_rust_framework::gateway::{ClientMessage, HeartbeatMessageBody, MessageBody};
use discord_rust_framework::identity::{Data, Message as IdentifyMessage};
use discord_rust_framework::dispatch::Message as DispatchMessage;
use discord_rust_framework::json::{to_json, RawJson};
use discord_rust_framework::properties::Properties;
use discord_rust_framework::session::{heartbeat_message, identify_message};

fn os_properties() -> Properties {
    let mut p = Properties::new();
    p.insert(String::from("$os"), String::from("Linux"));
    p
}

#[test]
fn identify_frame_text() {
    let m = identify_message(String::from("abc.def"));
    assert_eq!(
        m.body,
        "{\"op\":2,\"d\":{\"token\":\"abc.def\",\"properties\":{\"$os\":\"Linux\"},\"compress\":null,\"large_threshold\":null},\"s\":null,\"t\":null}"
    );
    assert_eq!(m.priority, 10);
}

#[test]
fn identify_frame_escapes_token() {
    let m = identify_message(String::from("a\"b\\c\n"));
    assert!(m.body.contains("\"token\":\"a\\\"b\\\\c\\n\""));
}

#[test]
fn heartbeat_frame_before_any_event() {
    let m = heartbeat_message(0);
    assert_eq!(m.body, "{\"op\":1,\"d\":\"null\"}");
    assert_eq!(m.priority, 9);
}

#[test]
fn heartbeat_frame_reports_number() {
    assert_eq!(heartbeat_message(42).body, "{\"op\":1,\"d\":42}");
    assert_eq!(heartbeat_message(32767).body, "{\"op\":1,\"d\":32767}");
}

#[test]
fn heartbeat_frame_negative_number_round_trips() {
    let stored = (-5i16) as usize;
    assert_eq!(heartbeat_message(stored).body, "{\"op\":1,\"d\":-5}");
}

#[test]
fn heartbeat_frame_truncates_to_i16() {
    assert_eq!(heartbeat_message(70000).body, "{\"op\":1,\"d\":4464}");
    assert_eq!(heartbeat_message(65536).body, "{\"op\":1,\"d\":\"null\"}");
}

#[test]
fn string_json_matches_serde_json() {
    let cases = ["", "plain", "q\"uote", "back\\slash", "\u{8}\u{c}\n\r\t", "\u{1}\u{1f}", "é €ü", "/"];
    for c in cases.iter() {
        let s = String::from(*c);
        assert_eq!(to_json(&s), serde_json::to_string(*c).unwrap());
    }
    assert_eq!(to_json(&String::from("\u{1}")), "\"\\u0001\"");
    assert_eq!(to_json(&String::from("a\"b")), "\"a\\\"b\"");
}

#[test]
fn integer_json() {
    assert_eq!(to_json(&-128i8), "-128");
    assert_eq!(to_json(&127i8), "127");
    assert_eq!(to_json(&0i16), "0");
    assert_eq!(to_json(&-32768i16), "-32768");
    assert_eq!(to_json(&i32::MIN), "-2147483648");
    assert_eq!(to_json(&i32::MAX), "2147483647");
    assert_eq!(to_json(&1000i32), "1000");
}

#[test]
fn option_and_bool_json() {
    assert_eq!(to_json(&Some(true)), "true");
    assert_eq!(to_json(&Some(false)), "false");
    assert_eq!(to_json(&None::<bool>), "null");
    assert_eq!(to_json(&Some(String::from("x"))), "\"x\"");
}

#[test]
fn vec_json() {
    assert_eq!(to_json(&Vec::<String>::new()), "[]");
    assert_eq!(to_json(&vec![String::from("a")]), "[\"a\"]");
    assert_eq!(to_json(&vec![1i32, 2, 3]), "[1,2,3]");
}

#[test]
fn properties_keep_key_order() {
    let mut p = Properties::new();
    assert_eq!(p.insert(String::from("b"), String::from("2")), None);
    assert_eq!(p.insert(String::from("a"), String::from("1")), None);
    assert_eq!(p.insert(String::from("c"), String::from("3")), None);
    assert_eq!(p.insert(String::from("B"), String::from("0")), None);
    assert_eq!(to_json(&p), "{\"B\":\"0\",\"a\":\"1\",\"b\":\"2\",\"c\":\"3\"}");
    let mut m = std::collections::BTreeMap::new();
    m.insert("b", "2");
    m.insert("a", "1");
    m.insert("c", "3");
    m.insert("B", "0");
    assert_eq!(to_json(&p), serde_json::to_string(&m).unwrap());
    assert_eq!(p.len(), 4);
}

#[test]
fn properties_insert_replaces() {
    let mut p = Properties::new();
    p.insert(String::from("k"), String::from("old"));
    assert_eq!(p.insert(String::from("k"), String::from("new")), Some(String::from("old")));
    assert_eq!(p.get("k"), Some(&String::from("new")));
    assert_eq!(p.get("missing"), None);
    assert_eq!(p.len(), 1);
}

#[test]
fn identity_json() {
    let id = Identity {
        token: String::from("t"),
        properties: os_properties(),
        compress: Some(true),
        large_threshold: Some(250),
    };
    assert_eq!(
        to_json(&id),
        "{\"token\":\"t\",\"properties\":{\"$os\":\"Linux\"},\"compress\":true,\"large_threshold\":250}"
    );
}

#[test]
fn message_body_json() {
    let body = MessageBody {
        op: 0,
        d: Hello { heartbeat_interval: 41250, _trace: vec![String::from("gw-1")] },
        s: Some(3),
        t: Some(String::from("HELLO")),
    };
    assert_eq!(
        to_json(&body),
        "{\"op\":0,\"d\":{\"heartbeat_interval\":41250,\"_trace\":[\"gw-1\"]},\"s\":3,\"t\":\"HELLO\"}"
    );
}

#[test]
fn heartbeat_body_json() {
    let b = HeartbeatMessageBody { op: 1, d: 17i16 };
    assert_eq!(to_json(&b), "{\"op\":1,\"d\":17}");
}

#[test]
fn ready_json() {
    let r = Ready {
        v: 6,
        user: RawJson { text: String::from("{\"id\":\"1\"}") },
        private_channels: vec![],
        guilds: vec![RawJson { text: String::from("{\"id\":\"9\",\"unavailable\":true}") }],
        session_id: String::from("abc"),
        _trace: vec![String::from("x"), String::from("y")],
    };
    assert_eq!(
        to_json(&r),
        "{\"v\":6,\"user\":{\"id\":\"1\"},\"private_channels\":[],\"guilds\":[{\"id\":\"9\",\"unavailable\":true}],\"session_id\":\"abc\",\"_trace\":[\"x\",\"y\"]}"
    );
}

#[test]
fn discord_message_json() {
    let m = DiscordMessage {
        id: String::from("10"),
        channel_id: String::from("20"),
        author: User { id: String::from("30") },
        content: String::from("ping"),
        timestamp: String::from("2017-01-01T00:00:00+00:00"),
        edited_timestamp: None,
        tts: false,
        mention_everyone: false,
        mentions: vec![],
        mention_roles: vec![],
        attachments: vec![],
        embeds: vec![],
        reactions: None,
        nonce: Some(String::from("n")),
        pinned: false,
        webhook_id: None,
        type_id: 0,
    };
    assert_eq!(
        to_json(&m),
        "{\"id\":\"10\",\"channel_id\":\"20\",\"author\":{\"id\":\"30\"},\"content\":\"ping\",\"timestamp\":\"2017-01-01T00:00:00+00:00\",\"edited_timestamp\":null,\"tts\":false,\"mention_everyone\":false,\"mentions\":[],\"mention_roles\":[],\"attachments\":[],\"embeds\":[],\"reactions\":null,\"nonce\":\"n\",\"pinned\":false,\"webhook_id\":null,\"type\":0}"
    );
}

#[test]
fn standalone_identify_json() {
    let m = IdentifyMessage {
        op: 2,
        d: Data { token: String::from("t"), properties: os_properties(), compress: None, large_threshold: None },
    };
    assert_eq!(
        to_json(&m),
        "{\"op\":2,\"d\":{\"token\":\"t\",\"properties\":{\"$os\":\"Linux\"},\"compress\":null,\"large_threshold\":null}}"
    );
}

#[test]
fn dispatch_message_json() {
    let m = DispatchMessage {
        op: 0,
        d: RawJson { text: String::from("{}") },
        s: None,
        t: Some(String::from("READY")),
    };
    assert_eq!(to_json(&m), "{\"op\":0,\"d\":{},\"s\":null,\"t\":\"READY\"}");
}

#[test]
fn client_message_fields() {
    let m = ClientMessage { body: String::from("x"), priority: 3 };
    assert_eq!(m.clone(), m);
}

#[test]
fn identify_token_reads_back_from_json() {
    let tokens = ["plain.token", "q\"u\\o/te", "line\nfeed\ttab\r", "\u{1}\u{1f}\u{7f}", "ünïcødé €", ""];
    for t in tokens.iter() {
        let m = identify_message(String::from(*t));
        let v: serde_json::Value = serde_json::from_str(&m.body).unwrap();
        assert_eq!(v["d"]["token"], serde_json::Value::String(String::from(*t)));
        assert_eq!(v["op"], serde_json::Value::from(2));
        assert_eq!(v["d"]["properties"]["$os"], serde_json::Value::String(String::from("Linux")));
    }
}

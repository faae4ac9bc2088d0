use std::collections::BinaryHeap;

use discord_rust_framework::api::User;
use discord_rust_framework::gateway::discord_message::DiscordMessage;
use discord_rust_framework::gateway::{frame_before, ClientMessage, ServerMessage};
use discord_rust_framework::json::RawJson;
use discord_rust_framework::queue::MessageQueue;
use discord_rust_framework::session::{heartbeat_step, HeartbeatAction, HEARTBEAT_PERIOD_SECS};
use discord_rust_framework::session::{
    authorization_header, classify, heartbeat_message, identify_message, me_api_url, EventKind,
    Session,
};

fn frame(op: i8, s: Option<i16>, t: Option<&str>) -> ServerMessage {
    ServerMessage { op, d: RawJson { text: String::from("{}") }, s, t: t.map(String::from) }
}

fn posted(author: &str, content: &str) -> DiscordMessage {
    DiscordMessage {
        id: String::from("1"),
        channel_id: String::from("555"),
        author: User { id: String::from(author) },
        content: String::from(content),
        timestamp: String::from("now"),
        edited_timestamp: None,
        tts: false,
        mention_everyone: false,
        mentions: vec![],
        mention_roles: vec![],
        attachments: vec![],
        embeds: vec![],
        reactions: None,
        nonce: None,
        pinned: false,
        webhook_id: None,
        type_id: 0,
    }
}

#[test]
fn new_session_queues_identify() {
    let mut s = Session::new(String::from("tok"), String::from("me"));
    assert_eq!(s.seq(), 0);
    assert_eq!(s.pending(), 1);
    assert_eq!(s.token(), "tok");
    assert_eq!(s.user_id(), "me");
    let out = s.flush();
    assert_eq!(out, vec![identify_message(String::from("tok")).body]);
    assert_eq!(s.pending(), 0);
    assert!(s.flush().is_empty());
}

#[test]
fn identify_goes_before_heartbeat() {
    let mut s = Session::new(String::from("tok"), String::from("me"));
    s.heartbeat();
    let out = s.flush();
    assert_eq!(out.len(), 2);
    assert_eq!(out[0], identify_message(String::from("tok")).body);
    assert_eq!(out[1], "{\"op\":1,\"d\":\"null\"}");
}

#[test]
fn heartbeat_reports_last_sequence() {
    let mut s = Session::new(String::from("tok"), String::from("me"));
    s.flush();
    assert_eq!(s.receive(&frame(0, Some(7), Some("READY"))), EventKind::Ready);
    assert_eq!(s.receive(&frame(11, None, None)), EventKind::HeartbeatAck);
    assert_eq!(s.seq(), 7);
    s.heartbeat();
    assert_eq!(s.flush(), vec![String::from("{\"op\":1,\"d\":7}")]);
    s.receive(&frame(0, Some(-3), Some("MESSAGE_CREATE")));
    s.heartbeat();
    assert_eq!(s.flush(), vec![String::from("{\"op\":1,\"d\":-3}")]);
}

#[test]
fn events_are_told_apart() {
    assert_eq!(classify(&Some(String::from("READY")), 0), EventKind::Ready);
    assert_eq!(classify(&Some(String::from("  READY\n")), 0), EventKind::Ready);
    assert_eq!(classify(&Some(String::from("\u{3000}MESSAGE_CREATE\u{a0}")), 0), EventKind::MessageCreate);
    assert_eq!(classify(&Some(String::from("MESSAGE_CREATE")), 10), EventKind::MessageCreate);
    assert_eq!(classify(&Some(String::from("ready")), 0), EventKind::UnknownEvent);
    assert_eq!(classify(&Some(String::from("GUILD_CREATE")), 0), EventKind::UnknownEvent);
    assert_eq!(classify(&Some(String::from("")), 0), EventKind::UnknownEvent);
    assert_eq!(classify(&None, 10), EventKind::Hello);
    assert_eq!(classify(&None, 11), EventKind::HeartbeatAck);
    assert_eq!(classify(&None, 7), EventKind::UnknownOpcode);
}

#[test]
fn own_messages_get_no_answer() {
    let s = Session::new(String::from("tok"), String::from("me"));
    assert!(!s.should_answer(&posted("me", "ping")));
    assert!(s.should_answer(&posted("you", "ping")));
}

#[test]
fn reply_request_posts_to_channel() {
    let s = Session::new(String::from("tok"), String::from("me"));
    assert!(s.reply_request("555", None).is_none());
    let req = s.reply_request("555", Some(String::from("pong"))).unwrap();
    assert_eq!(req.url, "https://discordapp.com/api/channels/555/messages");
    assert_eq!(req.authorization, "Bot tok");
    assert_eq!(req.body, "{\"content\":\"pong\"}");
    let req = s.reply_request("1", Some(String::from("say \"hi\""))).unwrap();
    assert_eq!(req.body, "{\"content\":\"say \\\"hi\\\"\"}");
}

#[test]
fn api_urls_and_headers() {
    assert_eq!(me_api_url(), "https://discordapp.com/api/users/@me");
    assert_eq!(authorization_header("abc"), "Bot abc");
}

#[test]
fn queue_pops_greatest_first() {
    let mut q = MessageQueue::new();
    assert!(q.pop().is_none());
    q.push(ClientMessage { body: String::from("b"), priority: 1 });
    assert_eq!(q.pop().unwrap(), ClientMessage { body: String::from("b"), priority: 1 });
    assert!(q.is_empty());
}

#[test]
fn queue_order_matches_binary_heap() {
    let items = vec![
        ("{\"op\":1,\"d\":3}", 9),
        ("{\"op\":2,\"d\":{}}", 10),
        ("b", 5),
        ("b", 7),
        ("a", 100),
        ("", 0),
        ("é", 1),
        ("z", -4),
        ("b", 5),
    ];
    let mut q = MessageQueue::new();
    let mut heap = BinaryHeap::new();
    for (b, p) in items.iter() {
        q.push(ClientMessage { body: String::from(*b), priority: *p });
        heap.push(ClientMessage { body: String::from(*b), priority: *p });
    }
    assert_eq!(q.len(), items.len());
    let mut expected = Vec::new();
    while let Some(m) = heap.pop() {
        expected.push(m.body);
    }
    assert_eq!(q.drain_bodies(), expected);
    assert!(q.is_empty());
}

#[test]
fn frame_order_matches_derived_order() {
    let keys = vec![("a", 1), ("a", 2), ("ab", 0), ("b", -1), ("", 5), ("é", 0), ("z", 0)];
    for (a, pa) in keys.iter() {
        for (b, pb) in keys.iter() {
            let x = ClientMessage { body: String::from(*a), priority: *pa };
            let y = ClientMessage { body: String::from(*b), priority: *pb };
            assert_eq!(frame_before(&x, &y), x < y);
        }
    }
}

#[test]
fn heartbeat_is_below_identify_in_heap_order() {
    let id = identify_message(String::from("zzz"));
    let hb = heartbeat_message(32000);
    assert!(frame_before(&hb, &id));
    assert!(hb < id);
}

#[test]
fn heartbeat_timer_beats_until_stopped() {
    assert_eq!(heartbeat_step(false), HeartbeatAction::Beat);
    assert_eq!(heartbeat_step(true), HeartbeatAction::Stop);
    assert_eq!(HEARTBEAT_PERIOD_SECS, 5);
}

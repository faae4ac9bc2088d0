//! What the client decides: the frames it queues (identify, heartbeats),
//! the sequence number it keeps, the events it tells apart, and the replies
//! it posts.

use vstd::prelude::*;
use crate::gateway::{ClientMessage, FrameKey, MessageBody, HeartbeatMessageBody, ServerMessage};
use crate::gateway::identity::Identity;
use crate::gateway::discord_message::DiscordMessage;
use crate::json::{ToJson, to_json, json_quote, decimal, escape_chars, push_str};
use crate::properties::{Properties, json_object};
use crate::queue::MessageQueue;
use crate::text::{trim, trimmed_chars, chars_equal, same_text};

verus! {

/// The priority of the identify frame.
pub const IDENTIFY_PRIORITY: i32 = 10;

/// The priority of a heartbeat frame.
pub const HEARTBEAT_PRIORITY: i32 = 9;

/// The seconds between two heartbeats.
pub const HEARTBEAT_PERIOD_SECS: u64 = 5;

/// What the heartbeat timer does next.
#[derive(Clone, Copy, Debug, PartialEq, Eq, Structural)]
pub enum HeartbeatAction {
    /// Trigger a heartbeat now, then wait `HEARTBEAT_PERIOD_SECS` seconds.
    Beat,
    /// Stop the timer.
    Stop,
}

/// The timer's next step: it beats until it is asked to stop.
pub fn heartbeat_step(stop_requested: bool) -> (a: HeartbeatAction)
    ensures
        a == (if stop_requested {
            HeartbeatAction::Stop
        } else {
            HeartbeatAction::Beat
        }),
{
    if stop_requested {
        HeartbeatAction::Stop
    } else {
        HeartbeatAction::Beat
    }
}

/// The text of the identify frame for `token`.
pub open spec fn identify_json(token: Seq<char>) -> Seq<char> {
    "{\"op\":2,\"d\":{\"token\":"@ + json_quote(token) + ",\"properties\":"@ + json_object(
        seq![("$os"@, "Linux"@)],
    ) + ",\"compress\":null,\"large_threshold\":null},\"s\":null,\"t\":null}"@
}

/// The text of a heartbeat frame that reports the sequence number `s`;
/// `0`, the number before any event, is reported as the string `"null"`.
pub open spec fn heartbeat_text(s: i16) -> Seq<char> {
    if s == 0 {
        "{\"op\":1,\"d\":\"null\"}"@
    } else {
        "{\"op\":1,\"d\":"@ + decimal(s as int) + "}"@
    }
}

/// The text of the heartbeat frame sent while `seq` is the stored sequence
/// number: the number is read back as an `i16`.
pub open spec fn heartbeat_json(seq: usize) -> Seq<char> {
    heartbeat_text(seq as i16)
}

/// The stored form of a sequence number received from the gateway.
pub open spec fn stored_sequence(s: i16) -> usize {
    s as usize
}

/// The frame key of the identify frame.
pub open spec fn identify_key(token: Seq<char>) -> FrameKey {
    (identify_json(token), IDENTIFY_PRIORITY)
}

/// The frame key of the heartbeat frame for the stored number `seq`.
pub open spec fn heartbeat_key(seq: usize) -> FrameKey {
    (heartbeat_json(seq), HEARTBEAT_PRIORITY)
}

/// The identify frame of the client with the given token.
pub fn identify_message(token: String) -> (m: ClientMessage)
    ensures
        m.body@ == identify_json(token@),
        m.priority == IDENTIFY_PRIORITY,
{
    let ghost tok = token@;
    let mut properties = Properties::new();
    let _ = properties.insert(String::from_str("$os"), String::from_str("Linux"));
    let identity = Identity { token, properties, compress: None, large_threshold: None };
    let body = MessageBody { op: 2, d: identity, s: None, t: None };
    let text = to_json(&body);
    proof {
        reveal_strlit("{\"op\":");
        reveal_strlit(",\"d\":");
        reveal_strlit("{\"token\":");
        reveal_strlit(",\"properties\":");
        reveal_strlit(",\"compress\":");
        reveal_strlit(",\"large_threshold\":");
        reveal_strlit("}");
        reveal_strlit(",\"s\":");
        reveal_strlit(",\"t\":");
        reveal_strlit("{\"op\":2,\"d\":{\"token\":");
        reveal_strlit(",\"compress\":null,\"large_threshold\":null},\"s\":null,\"t\":null}");
        assert(decimal(2) =~= seq!['2']);
        assert(body.json() =~= identify_json(tok));
    }
    ClientMessage { body: text, priority: IDENTIFY_PRIORITY }
}

/// The heartbeat frame sent while `seq` is the stored sequence number.
pub fn heartbeat_message(seq: usize) -> (m: ClientMessage)
    ensures
        m.body@ == heartbeat_json(seq),
        (seq as i16) == 0 ==> m.body@ == "{\"op\":1,\"d\":\"null\"}"@,
        (seq as i16) != 0 ==> m.body@ == "{\"op\":1,\"d\":"@ + decimal((seq as i16) as int) + "}"@,
        m.priority == 9,
        m.priority == HEARTBEAT_PRIORITY,
{
    let s = seq as i16;
    proof {
        reveal_strlit("{\"op\":");
        reveal_strlit(",\"d\":");
        reveal_strlit("}");
        reveal_strlit("null");
        reveal_strlit("{\"op\":1,\"d\":\"null\"}");
        reveal_strlit("{\"op\":1,\"d\":");
        assert(decimal(1) =~= seq!['1']);
    }
    if s == 0 {
        let body = HeartbeatMessageBody::<String> { op: 1, d: String::from_str("null") };
        let text = to_json(&body);
        proof {
            reveal_with_fuel(escape_chars, 5);
            assert(json_quote("null"@) =~= seq!['"', 'n', 'u', 'l', 'l', '"']);
            assert(body.json() =~= heartbeat_text(s));
        }
        ClientMessage { body: text, priority: HEARTBEAT_PRIORITY }
    } else {
        let body = HeartbeatMessageBody::<i16> { op: 1, d: s };
        let text = to_json(&body);
        proof {
            assert(body.json() =~= heartbeat_text(s));
        }
        ClientMessage { body: text, priority: HEARTBEAT_PRIORITY }
    }
}

/// What a frame from the gateway is.
#[derive(Clone, Copy, Debug, PartialEq, Eq, Structural)]
pub enum EventKind {
    /// The `READY` event.
    Ready,
    /// The `MESSAGE_CREATE` event.
    MessageCreate,
    /// Another event name.
    UnknownEvent,
    /// Opcode 10, hello.
    Hello,
    /// Opcode 11, heartbeat acknowledged.
    HeartbeatAck,
    /// Another opcode without an event name.
    UnknownOpcode,
}

/// What a frame with event name `t` and opcode `op` is: the name, trimmed,
/// decides when there is one, else the opcode.
pub open spec fn event_kind(t: Option<Seq<char>>, op: i8) -> EventKind {
    match t {
        Some(name) => if trim(name) == "READY"@ {
            EventKind::Ready
        } else if trim(name) == "MESSAGE_CREATE"@ {
            EventKind::MessageCreate
        } else {
            EventKind::UnknownEvent
        },
        None => if op == 10 {
            EventKind::Hello
        } else if op == 11 {
            EventKind::HeartbeatAck
        } else {
            EventKind::UnknownOpcode
        },
    }
}

/// The view of an optional string.
pub open spec fn opt_view(t: Option<String>) -> Option<Seq<char>> {
    match t {
        Some(s) => Some(s@),
        None => None,
    }
}

/// Tells what a frame with event name `t` and opcode `op` is.
pub fn classify(t: &Option<String>, op: i8) -> (k: EventKind)
    ensures
        k == event_kind(opt_view(*t), op),
        k == EventKind::Ready <==> (match t {
            Some(n) => trim(n@) == "READY"@,
            None => false,
        }),
        k == EventKind::MessageCreate <==> (match t {
            Some(n) => trim(n@) == "MESSAGE_CREATE"@,
            None => false,
        }),
        k == EventKind::UnknownEvent <==> (match t {
            Some(n) => trim(n@) != "READY"@ && trim(n@) != "MESSAGE_CREATE"@,
            None => false,
        }),
        k == EventKind::Hello <==> (t is None && op == 10),
        k == EventKind::HeartbeatAck <==> (t is None && op == 11),
        k == EventKind::UnknownOpcode <==> (t is None && op != 10 && op != 11),
{
    proof {
        reveal_strlit("READY");
        reveal_strlit("MESSAGE_CREATE");
        assert("READY"@.len() == 5);
        assert("MESSAGE_CREATE"@.len() == 14);
        assert("READY"@ != "MESSAGE_CREATE"@);
    }
    match t {
        Some(name) => {
            let trimmed = trimmed_chars(name.as_str());
            if chars_equal(&trimmed, "READY") {
                EventKind::Ready
            } else if chars_equal(&trimmed, "MESSAGE_CREATE") {
                EventKind::MessageCreate
            } else {
                EventKind::UnknownEvent
            }
        },
        None => {
            if op == 10 {
                EventKind::Hello
            } else if op == 11 {
                EventKind::HeartbeatAck
            } else {
                EventKind::UnknownOpcode
            }
        },
    }
}

/// The URL of the API resource of the current user.
pub open spec fn me_api_url_text() -> Seq<char> {
    "https://discordapp.com/api/users/@me"@
}

/// The URL under which the messages of channel `channel_id` are posted.
pub open spec fn channel_messages_url(channel_id: Seq<char>) -> Seq<char> {
    "https://discordapp.com/api/channels/"@ + channel_id + "/messages"@
}

/// The `Authorization` header of a bot with the given token.
pub open spec fn bot_authorization(token: Seq<char>) -> Seq<char> {
    "Bot "@ + token
}

/// The JSON body that posts `content` as a message.
pub open spec fn reply_json(content: Seq<char>) -> Seq<char> {
    json_object(seq![("content"@, content)])
}

/// The URL of the API resource of the current user.
pub fn me_api_url() -> (u: String)
    ensures
        u@ == me_api_url_text(),
{
    String::from_str("https://discordapp.com/api/users/@me")
}

/// The `Authorization` header of a bot with the given token.
pub fn authorization_header(token: &str) -> (h: String)
    ensures
        h@ == bot_authorization(token@),
        h@ == "Bot "@ + token@,
{
    let mut h = String::from_str("Bot ");
    push_str(&mut h, token);
    h
}

/// An HTTP `POST` of a JSON body.
pub struct HttpRequest {
    pub url: String,
    pub authorization: String,
    pub body: String,
}

/// The state the client keeps while connected: its token, its own user id,
/// the last sequence number received, and the frames waiting to be sent.
pub struct Session {
    token: String,
    user_id: String,
    seq: usize,
    queue: MessageQueue,
}

impl Session {
    /// The bot token.
    pub closed spec fn spec_token(&self) -> Seq<char> {
        self.token@
    }

    /// The id of the client's own user.
    pub closed spec fn spec_user_id(&self) -> Seq<char> {
        self.user_id@
    }

    /// The stored sequence number.
    pub closed spec fn spec_seq(&self) -> usize {
        self.seq
    }

    /// The frames waiting to be sent.
    pub closed spec fn spec_queue(&self) -> vstd::multiset::Multiset<FrameKey> {
        self.queue@
    }

    /// A session for the bot with the given token and user id; its queue holds
    /// the identify frame and its sequence number is 0.
    pub fn new(token: String, user_id: String) -> (s: Session)
        ensures
            s.spec_token() == token@,
            s.spec_user_id() == user_id@,
            s.spec_seq() == 0,
            s.spec_queue() == vstd::multiset::Multiset::<FrameKey>::empty().insert(
                identify_key(token@),
            ),
    {
        let mut queue = MessageQueue::new();
        Self::gateway_autenticate(token.clone(), &mut queue);
        Session { token, user_id, seq: 0, queue }
    }

    /// Queues the identify frame of `token`.
    fn gateway_autenticate(token: String, queue: &mut MessageQueue)
        ensures
            final(queue)@ == old(queue)@.insert(identify_key(token@)),
    {
        let m = identify_message(token);
        queue.push(m);
    }

    /// The bot token.
    pub fn token(&self) -> (t: &String)
        ensures
            t@ == self.spec_token(),
    {
        &self.token
    }

    /// The id of the client's own user.
    pub fn user_id(&self) -> (u: &String)
        ensures
            u@ == self.spec_user_id(),
    {
        &self.user_id
    }

    /// The stored sequence number.
    pub fn seq(&self) -> (n: usize)
        ensures
            n == self.spec_seq(),
    {
        self.seq
    }

    /// The number of frames waiting.
    pub fn pending(&self) -> (n: usize)
        ensures
            n == self.spec_queue().len(),
    {
        self.queue.len()
    }

    /// Takes in a frame from the gateway: keeps its sequence number, when it
    /// has one, and tells what it is.
    pub fn receive(&mut self, msg: &ServerMessage) -> (k: EventKind)
        ensures
            k == event_kind(opt_view(msg.t), msg.op),
            final(self).spec_seq() == match msg.s {
                Some(s) => stored_sequence(s),
                None => old(self).spec_seq(),
            },
            final(self).spec_token() == old(self).spec_token(),
            final(self).spec_user_id() == old(self).spec_user_id(),
            final(self).spec_queue() == old(self).spec_queue(),
    {
        if let Some(s) = msg.s {
            self.seq = s as usize;
        }
        classify(&msg.t, msg.op)
    }

    /// Queues a heartbeat frame that reports the stored sequence number.
    pub fn heartbeat(&mut self)
        ensures
            final(self).spec_queue() == old(self).spec_queue().insert(heartbeat_key(old(self).spec_seq())),
            final(self).spec_seq() == old(self).spec_seq(),
            final(self).spec_token() == old(self).spec_token(),
            final(self).spec_user_id() == old(self).spec_user_id(),
    {
        let m = heartbeat_message(self.seq);
        self.queue.push(m);
    }

    /// Takes every waiting frame and returns the bodies, greatest frame first.
    pub fn flush(&mut self) -> (bodies: Vec<String>)
        ensures
            final(self).spec_queue().len() == 0,
            exists|order: Seq<FrameKey>|
                {
                    &&& order.to_multiset() == old(self).spec_queue()
                    &&& crate::queue::sorted_greatest_first(order)
                    &&& bodies@.map_values(|b: String| b@) == order.map_values(|k: FrameKey| k.0)
                },
            final(self).spec_seq() == old(self).spec_seq(),
            final(self).spec_token() == old(self).spec_token(),
            final(self).spec_user_id() == old(self).spec_user_id(),
    {
        self.queue.drain_bodies()
    }

    /// Whether a posted message calls for an answer: it does unless the
    /// client's own user wrote it.
    pub fn should_answer(&self, m: &DiscordMessage) -> (r: bool)
        ensures
            r == (m.author.id@ != self.spec_user_id()),
    {
        !same_text(m.author.id.as_str(), self.user_id.as_str())
    }

    /// The request that posts `response` to channel `channel_id`, or `None`
    /// when there is no response.
    pub fn reply_request(&self, channel_id: &str, response: Option<String>) -> (r: Option<HttpRequest>)
        ensures
            response is None ==> r is None,
            response matches Some(text) ==> (r matches Some(req) && req.url@ == channel_messages_url(
                channel_id@,
            ) && req.authorization@ == bot_authorization(self.spec_token()) && req.body@
                == reply_json(text@)),
            response matches Some(text) ==> (r matches Some(req) && req.url@
                == "https://discordapp.com/api/channels/"@ + channel_id@ + "/messages"@
                && req.authorization@ == "Bot "@ + self.spec_token() && req.body@ == json_object(
                seq![("content"@, text@)],
            )),
    {
        match response {
            None => None,
            Some(text) => {
                let ghost content = text@;
                let mut url = String::from_str("https://discordapp.com/api/channels/");
                push_str(&mut url, channel_id);
                push_str(&mut url, "/messages");
                let mut json_data = Properties::new();
                let _ = json_data.insert(String::from_str("content"), text);
                let body = to_json(&json_data);
                let authorization = authorization_header(self.token.as_str());
                Some(HttpRequest { url, authorization, body })
            },
        }
    }
}

} // verus!

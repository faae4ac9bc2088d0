//! Frames exchanged with the Discord gateway.

pub mod hello;
pub mod identity;
pub mod ready;
pub mod discord_message;

use vstd::prelude::*;
use crate::order::{lex_lt, byte_order, Order, lemma_lex_total, lemma_lex_transitive, lemma_lex_irreflexive};
use vstd::utf8::encode_utf8;
use crate::json::{ToJson, RawJson, push_str};

verus! {

/// A payload that a gateway frame can carry.
pub trait MessageData: ToJson {}

/// A frame of the gateway protocol: an opcode, a payload, and, for
/// dispatched events, a sequence number and an event name.
pub struct MessageBody<T: MessageData> {
    pub op: i8,
    pub d: T,
    pub s: Option<i16>,
    pub t: Option<String>,
}

impl<T: MessageData> ToJson for MessageBody<T> {
    open spec fn json(&self) -> Seq<char> {
        "{\"op\":"@ + self.op.json() + ",\"d\":"@ + self.d.json() + ",\"s\":"@ + self.s.json()
            + ",\"t\":"@ + self.t.json() + "}"@
    }

    fn push_json(&self, out: &mut String) {
        let ghost start = out@;
        push_str(out, "{\"op\":");
        self.op.push_json(out);
        push_str(out, ",\"d\":");
        self.d.push_json(out);
        push_str(out, ",\"s\":");
        self.s.push_json(out);
        push_str(out, ",\"t\":");
        self.t.push_json(out);
        push_str(out, "}");
        assert(out@ =~= start + self.json());
    }
}

/// A heartbeat frame: its opcode and the sequence number it reports.
pub struct HeartbeatMessageBody<T: ToJson> {
    pub op: i8,
    pub d: T,
}

impl<T: ToJson> ToJson for HeartbeatMessageBody<T> {
    open spec fn json(&self) -> Seq<char> {
        "{\"op\":"@ + self.op.json() + ",\"d\":"@ + self.d.json() + "}"@
    }

    fn push_json(&self, out: &mut String) {
        let ghost start = out@;
        push_str(out, "{\"op\":");
        self.op.push_json(out);
        push_str(out, ",\"d\":");
        self.d.push_json(out);
        push_str(out, "}");
        assert(out@ =~= start + self.json());
    }
}

/// A frame as the gateway sends it; its payload is kept as JSON text.
pub struct ServerMessage {
    pub op: i8,
    pub d: RawJson,
    pub s: Option<i16>,
    pub t: Option<String>,
}

/// What orders a client frame: its text, then its priority.
pub type FrameKey = (Seq<char>, i32);

/// A frame waiting to be sent: its JSON text and its priority.
#[derive(Clone, Debug, PartialEq, Eq, PartialOrd, Ord)]
pub struct ClientMessage {
    pub body: String,
    pub priority: i32,
}

impl ClientMessage {
    /// The body's text and the priority, which together order frames.
    pub open spec fn key(&self) -> FrameKey {
        (self.body@, self.priority)
    }
}

/// Frame `x` is sent after frame `y`: the derived order of `ClientMessage`,
/// which compares the bodies as strings (byte by byte) and then the priorities.
pub open spec fn frame_lt(x: FrameKey, y: FrameKey) -> bool {
    ||| lex_lt(encode_utf8(x.0), encode_utf8(y.0))
    ||| (x.0 == y.0 && x.1 < y.1)
}

/// The frame order is a strict total order.
pub proof fn lemma_frame_order(x: FrameKey, y: FrameKey, z: FrameKey)
    ensures
        !frame_lt(x, x),
        !(frame_lt(x, y) && frame_lt(y, x)),
        x != y ==> frame_lt(x, y) || frame_lt(y, x),
        frame_lt(x, y) && frame_lt(y, z) ==> frame_lt(x, z),
{
    broadcast use vstd::utf8::encode_utf8_decode_utf8;

    lemma_lex_irreflexive(encode_utf8(x.0));
    lemma_lex_total(encode_utf8(x.0), encode_utf8(y.0));
    lemma_lex_total(encode_utf8(y.0), encode_utf8(z.0));
    lemma_lex_total(encode_utf8(x.0), encode_utf8(z.0));
    if lex_lt(encode_utf8(x.0), encode_utf8(y.0)) && lex_lt(encode_utf8(y.0), encode_utf8(z.0)) {
        lemma_lex_transitive(encode_utf8(x.0), encode_utf8(y.0), encode_utf8(z.0));
    }
    if x.0 != y.0 {
        assert(vstd::utf8::decode_utf8(encode_utf8(x.0)) == x.0);
        assert(vstd::utf8::decode_utf8(encode_utf8(y.0)) == y.0);
    }
}

/// Whether frame `a` is sent after frame `b`.
pub fn frame_before(a: &ClientMessage, b: &ClientMessage) -> (r: bool)
    ensures
        r == frame_lt(a.key(), b.key()),
{
    broadcast use vstd::utf8::encode_utf8_decode_utf8;

    let ab = a.body.as_str().as_bytes();
    let bb = b.body.as_str().as_bytes();
    match byte_order(ab, bb) {
        Order::Less => true,
        Order::Greater => {
            proof {
                lemma_lex_total(ab@, bb@);
            }
            false
        },
        Order::Equal => {
            proof {
                lemma_lex_irreflexive(ab@);
                assert(vstd::utf8::decode_utf8(ab@) == a.body@);
            }
            a.priority < b.priority
        },
    }
}

} // verus!

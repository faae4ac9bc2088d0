//! Properties that span the client's operations.

use vstd::prelude::*;
use vstd::utf8::{encode_utf8, is_ascii_chars, is_ascii_chars_encode_utf8};
use crate::gateway::{FrameKey, frame_lt};
use crate::order::lemma_lex_first_difference;
use crate::json::{json_quote, decimal, escape_chars, join_commas};
use crate::json_read::{json_string_at, law_json_string_round_trip};
use crate::properties::{json_object, entry_json, Entry};
use crate::text::trim;
use vstd::multiset::Multiset;
use crate::queue::{sorted_greatest_first, is_greatest};
use crate::session::{EventKind, event_kind, channel_messages_url, bot_authorization, reply_json, heartbeat_json, heartbeat_text, stored_sequence, identify_json, identify_key, heartbeat_key};

verus! {

/// The UTF-8 encoding of a concatenation is the concatenation of the encodings.
pub proof fn lemma_encode_concat(a: Seq<char>, b: Seq<char>)
    ensures
        encode_utf8(a + b) == encode_utf8(a) + encode_utf8(b),
    decreases a.len(),
{
    if a.len() == 0 {
        assert(a + b =~= b);
    } else {
        assert((a + b).drop_first() =~= a.drop_first() + b);
        lemma_encode_concat(a.drop_first(), b);
        assert(encode_utf8(a + b) =~= encode_utf8(a) + encode_utf8(b));
    }
}

/// The bytes of `p + r`, where `p` is ASCII, begin with the characters of `p`.
proof fn lemma_ascii_prefix_bytes(p: Seq<char>, r: Seq<char>, i: int)
    requires
        is_ascii_chars(p),
        0 <= i < p.len(),
    ensures
        encode_utf8(p + r)[i] == p[i] as u8,
        encode_utf8(p + r).len() > i,
{
    lemma_encode_concat(p, r);
    is_ascii_chars_encode_utf8(p);
}

/// A heartbeat sent after a frame that carried the sequence number `s`
/// reports `s`: storing the number and reading it back gives the number.
pub proof fn law_heartbeat_reports_last_sequence(s: i16)
    ensures
        heartbeat_json(stored_sequence(s)) == heartbeat_text(s),
{
    assert(((s as usize) as i16) == s) by (bit_vector);
}

/// The identify frame goes out before any heartbeat: in the frame order it
/// is the greater, whatever the token and the sequence number.
pub proof fn law_identify_outranks_heartbeat(token: Seq<char>, seq: usize)
    ensures
        frame_lt(heartbeat_key(seq), identify_key(token)),
{
    let ip = "{\"op\":2,\"d\":{\"token\":"@;
    let ir = identify_json(token).skip(ip.len() as int);
    reveal_strlit("{\"op\":2,\"d\":{\"token\":");
    assert(identify_json(token) =~= ip + ir);
    assert(is_ascii_chars(ip));
    let hp = "{\"op\":1,\"d\":"@;
    reveal_strlit("{\"op\":1,\"d\":");
    reveal_strlit("{\"op\":1,\"d\":\"null\"}");
    let hb = heartbeat_json(seq);
    let hr = hb.skip(hp.len() as int);
    assert(hb =~= hp + hr);
    assert(is_ascii_chars(hp));
    let ib = encode_utf8(identify_json(token));
    let hbb = encode_utf8(hb);
    assert forall|j: int| 0 <= j < 6 implies hbb[j] == ib[j] by {
        lemma_ascii_prefix_bytes(ip, ir, j);
        lemma_ascii_prefix_bytes(hp, hr, j);
    }
    lemma_ascii_prefix_bytes(ip, ir, 6);
    lemma_ascii_prefix_bytes(hp, hr, 6);
    lemma_lex_first_difference(hbb, ib, 6);
}

/// When the frames are flushed, the identify frame comes before a heartbeat.
pub proof fn law_identify_flushed_before_heartbeat(
    order: Seq<FrameKey>,
    token: Seq<char>,
    seq: usize,
    i: int,
    j: int,
)
    requires
        sorted_greatest_first(order),
        0 <= i < order.len(),
        0 <= j < order.len(),
        order[i] == identify_key(token),
        order[j] == heartbeat_key(seq),
    ensures
        i < j,
{
    law_identify_outranks_heartbeat(token, seq);
    crate::gateway::lemma_frame_order(order[i], order[j], order[j]);
    if j < i {
        assert(!frame_lt(order[j], order[i]));
    }
}

/// Flushing is deterministic: two greatest-first orders of the same frames
/// are the same sequence.
pub proof fn law_flush_order_is_unique(a: Seq<FrameKey>, b: Seq<FrameKey>)
    requires
        a.to_multiset() == b.to_multiset(),
        sorted_greatest_first(a),
        sorted_greatest_first(b),
    ensures
        a == b,
    decreases a.len(),
{
    broadcast use vstd::seq_lib::group_to_multiset_ensures;

    assert(a.to_multiset().len() == a.len());
    assert(b.to_multiset().len() == b.len());
    if a.len() == 0 {
        assert(a =~= b);
    } else {
        assert(a.contains(a[0]));
        assert(a.to_multiset().count(a[0]) > 0);
        assert(b.to_multiset().count(a[0]) > 0);
        assert(b.contains(a[0]));
        assert(b.contains(b[0]));
        assert(b.to_multiset().count(b[0]) > 0);
        assert(a.to_multiset().count(b[0]) > 0);
        let j = choose|j: int| 0 <= j < b.len() && b[j] == a[0];
        assert(a.contains(b[0]));
        let i = choose|i: int| 0 <= i < a.len() && a[i] == b[0];
        crate::gateway::lemma_frame_order(a[0], b[0], a[0]);
        if i > 0 {
            assert(!frame_lt(a[0], a[i]));
        }
        if j > 0 {
            assert(!frame_lt(b[0], b[j]));
        }
        assert(a[0] == b[0]);
        assert(a.remove(0) =~= a.drop_first());
        assert(b.remove(0) =~= b.drop_first());
        assert(a.drop_first().to_multiset() == b.drop_first().to_multiset());
        law_flush_order_is_unique(a.drop_first(), b.drop_first());
        assert(a =~= seq![a[0]] + a.drop_first());
        assert(b =~= seq![b[0]] + b.drop_first());
    }
}

/// A queue that holds one frame hands out that frame.
pub proof fn law_single_frame_is_popped(k: FrameKey, x: FrameKey)
    requires
        is_greatest(Multiset::<FrameKey>::empty().insert(k), x),
    ensures
        x == k,
{
}

/// The text of the identify frame before the token's literal.
pub open spec fn identify_prefix() -> Seq<char> {
    "{\"op\":2,\"d\":{\"token\":"@
}

/// The text of the identify frame after the token's literal; it does not
/// depend on the token.
pub open spec fn identify_suffix() -> Seq<char> {
    ",\"properties\":"@ + json_object(seq![("$os"@, "Linux"@)])
        + ",\"compress\":null,\"large_threshold\":null},\"s\":null,\"t\":null}"@
}

/// The identify frame carries the token whole: after the fixed text that
/// opens `d.token` stands one JSON string literal, which reads back as the
/// token exactly, whatever characters it holds, and which ends where the
/// fixed rest of the frame begins.
pub proof fn law_identify_token_round_trip(token: Seq<char>)
    ensures
        identify_json(token) == identify_prefix() + json_quote(token) + identify_suffix(),
        json_string_at(identify_json(token).skip(identify_prefix().len() as int)) == Some(
            (token, json_quote(token).len()),
        ),
        identify_json(token).skip((identify_prefix().len() + json_quote(token).len()) as int)
            == identify_suffix(),
{
    let p = identify_prefix();
    let q = json_quote(token);
    let x = identify_suffix();
    assert(identify_json(token) =~= p + q + x);
    assert(identify_json(token).skip(p.len() as int) =~= q + x);
    assert(identify_json(token).skip((p.len() + q.len()) as int) =~= x);
    law_json_string_round_trip(token, x);
}

/// How a gateway frame is classified: by its event name, trimmed, when it
/// has one (only the names `READY` and `MESSAGE_CREATE` are known, every
/// other name is an unknown event), else by its opcode (10 is hello, 11 a
/// heartbeat acknowledgement, anything else unknown).
pub proof fn law_event_kind_by_name(t: Option<Seq<char>>, op: i8)
    ensures
        event_kind(t, op) == EventKind::Ready <==> (t is Some && trim(t->0) == "READY"@),
        event_kind(t, op) == EventKind::MessageCreate <==> (t is Some && trim(t->0)
            == "MESSAGE_CREATE"@),
        event_kind(t, op) == EventKind::UnknownEvent <==> (t is Some && trim(t->0) != "READY"@
            && trim(t->0) != "MESSAGE_CREATE"@),
        event_kind(t, op) == EventKind::Hello <==> (t is None && op == 10),
        event_kind(t, op) == EventKind::HeartbeatAck <==> (t is None && op == 11),
        event_kind(t, op) == EventKind::UnknownOpcode <==> (t is None && op != 10 && op != 11),
{
    reveal_strlit("READY");
    reveal_strlit("MESSAGE_CREATE");
    assert("READY"@.len() != "MESSAGE_CREATE"@.len());
}

/// A heartbeat reports the stored sequence number, read back as an `i16`,
/// in decimal; the string `"null"` stands only for the number 0.
pub proof fn law_heartbeat_reports_number(q: usize)
    ensures
        (q as i16) != 0 ==> heartbeat_json(q) == "{\"op\":1,\"d\":"@ + decimal((q as i16) as int)
            + "}"@,
        (q as i16) == 0 ==> heartbeat_json(q) == "{\"op\":1,\"d\":\"null\"}"@,
{
}

/// A reply is posted to the messages of the channel it answers: the URL is
/// the channels endpoint, the channel id whole, then `/messages`.
pub proof fn law_reply_url(channel_id: Seq<char>)
    ensures
        channel_messages_url(channel_id) == "https://discordapp.com/api/channels/"@ + channel_id
            + "/messages"@,
        channel_messages_url(channel_id).len() == "https://discordapp.com/api/channels/"@.len()
            + channel_id.len() + "/messages"@.len(),
{
}

/// The API is called as the bot: the header is the `Bot ` scheme followed by
/// the token whole.
pub proof fn law_bot_authorization(token: Seq<char>)
    ensures
        bot_authorization(token) == "Bot "@ + token,
        bot_authorization(token).skip(4) == token,
{
    reveal_strlit("Bot ");
    assert(("Bot "@ + token).skip(4) =~= token);
}

/// The reply body is a JSON object with the single key `content`, whose
/// string literal reads back as the reply text exactly.
pub proof fn law_reply_body_reads_back(text: Seq<char>)
    ensures
        reply_json(text) == json_object(seq![("content"@, text)]),
        reply_json(text) == "{\"content\":"@ + json_quote(text) + "}"@,
        json_string_at(reply_json(text).skip("{\"content\":"@.len() as int)) == Some(
            (text, json_quote(text).len()),
        ),
{
    reveal_strlit("content");
    reveal_strlit("{\"content\":");
    reveal_with_fuel(escape_chars, 8);
    let en: Entry = ("content"@, text);
    let texts = seq![en].map_values(|e: Entry| entry_json(e));
    assert(texts =~= seq![entry_json(en)]);
    assert(join_commas(texts) == entry_json(en));
    assert(json_quote("content"@) =~= seq!['"', 'c', 'o', 'n', 't', 'e', 'n', 't', '"']);
    reveal_strlit("}");
    let p = "{\"content\":"@;
    assert(p =~= seq!['{'] + json_quote("content"@) + seq![':']);
    assert(reply_json(text) == seq!['{'] + join_commas(texts) + seq!['}']);
    assert(reply_json(text) =~= p + json_quote(text) + "}"@);
    assert(reply_json(text).skip(p.len() as int) =~= json_quote(text) + "}"@);
    law_json_string_round_trip(text, "}"@);
}

} // verus!

//! The payload of the ready event.

use vstd::prelude::*;
use crate::json::{ToJson, RawJson, push_str};
use super::MessageData;

verus! {

/// The session that the gateway opened: the protocol version, the user,
/// the channels and guilds, and the session's id.
pub struct Ready {
    pub v: i8,
    pub user: RawJson,
    pub private_channels: Vec<RawJson>,
    pub guilds: Vec<RawJson>,
    pub session_id: String,
    pub _trace: Vec<String>,
}

impl ToJson for Ready {
    open spec fn json(&self) -> Seq<char> {
        "{\"v\":"@ + self.v.json() + ",\"user\":"@ + self.user.json() + ",\"private_channels\":"@
            + self.private_channels.json() + ",\"guilds\":"@ + self.guilds.json()
            + ",\"session_id\":"@ + self.session_id.json() + ",\"_trace\":"@ + self._trace.json()
            + "}"@
    }

    fn push_json(&self, out: &mut String) {
        let ghost start = out@;
        push_str(out, "{\"v\":");
        self.v.push_json(out);
        push_str(out, ",\"user\":");
        self.user.push_json(out);
        push_str(out, ",\"private_channels\":");
        self.private_channels.push_json(out);
        push_str(out, ",\"guilds\":");
        self.guilds.push_json(out);
        push_str(out, ",\"session_id\":");
        self.session_id.push_json(out);
        push_str(out, ",\"_trace\":");
        self._trace.push_json(out);
        push_str(out, "}");
        assert(out@ =~= start + self.json());
    }
}

impl MessageData for Ready {}

} // verus!

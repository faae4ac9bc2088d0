//! The payload of the hello frame.

use vstd::prelude::*;
use crate::json::{ToJson, push_str};
use super::MessageData;

verus! {

/// The heartbeat interval that the gateway asks for, in milliseconds, and
/// the servers the connection went through.
pub struct Hello {
    pub heartbeat_interval: i32,
    pub _trace: Vec<String>,
}

impl ToJson for Hello {
    open spec fn json(&self) -> Seq<char> {
        "{\"heartbeat_interval\":"@ + self.heartbeat_interval.json() + ",\"_trace\":"@
            + self._trace.json() + "}"@
    }

    fn push_json(&self, out: &mut String) {
        let ghost start = out@;
        push_str(out, "{\"heartbeat_interval\":");
        self.heartbeat_interval.push_json(out);
        push_str(out, ",\"_trace\":");
        self._trace.push_json(out);
        push_str(out, "}");
        assert(out@ =~= start + self.json());
    }
}

impl MessageData for Hello {}

} // verus!

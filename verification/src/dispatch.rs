//! A dispatched gateway frame with its payload left as JSON text.

use vstd::prelude::*;
use crate::json::{ToJson, RawJson, push_str};

verus! {

/// A gateway frame: opcode, payload, sequence number and event name.
pub struct Message {
    pub op: i8,
    pub d: RawJson,
    pub s: Option<i16>,
    pub t: Option<String>,
}

impl ToJson for Message {
    open spec fn json(&self) -> Seq<char> {
        "{\"op\":"@ + self.op.json() + ",\"d\":"@ + self.d.json() + ",\"s\":"@ + self.s.json()
            + ",\"t\":"@ + self.t.json() + "}"@
    }

    fn push_json(&self, out: &mut String) {
        let ghost start = out@;
        push_str(out, "{\"op\":");
        self.op.push_json(out);
        push_str(out, ",\"d\":");
        self.d.push_json(out);
        push_str(out, ",\"s\":");
        self.s.push_json(out);
        push_str(out, ",\"t\":");
        self.t.push_json(out);
        push_str(out, "}");
        assert(out@ =~= start + self.json());
    }
}

} // verus!

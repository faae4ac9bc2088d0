//! The identify frame as a standalone message.

use vstd::prelude::*;
use crate::json::{ToJson, push_str};
use crate::properties::Properties;

verus! {

/// The identity of a client: its token and the properties it reports.
pub struct Data {
    pub token: String,
    pub properties: Properties,
    pub compress: Option<bool>,
    pub large_threshold: Option<i32>,
}

impl ToJson for Data {
    open spec fn json(&self) -> Seq<char> {
        "{\"token\":"@ + self.token.json() + ",\"properties\":"@ + self.properties.json()
            + ",\"compress\":"@ + self.compress.json() + ",\"large_threshold\":"@
            + self.large_threshold.json() + "}"@
    }

    fn push_json(&self, out: &mut String) {
        let ghost start = out@;
        push_str(out, "{\"token\":");
        self.token.push_json(out);
        push_str(out, ",\"properties\":");
        self.properties.push_json(out);
        push_str(out, ",\"compress\":");
        self.compress.push_json(out);
        push_str(out, ",\"large_threshold\":");
        self.large_threshold.push_json(out);
        push_str(out, "}");
        assert(out@ =~= start + self.json());
    }
}

/// An identify frame: its opcode and the identity.
pub struct Message {
    pub op: i32,
    pub d: Data,
}

impl ToJson for Message {
    open spec fn json(&self) -> Seq<char> {
        "{\"op\":"@ + self.op.json() + ",\"d\":"@ + self.d.json() + "}"@
    }

    fn push_json(&self, out: &mut String) {
        let ghost start = out@;
        push_str(out, "{\"op\":");
        self.op.push_json(out);
        push_str(out, ",\"d\":");
        self.d.push_json(out);
        push_str(out, "}");
        assert(out@ =~= start + self.json());
    }
}

} // verus!

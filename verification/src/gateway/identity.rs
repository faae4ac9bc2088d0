//! The payload of the identify frame.

use vstd::prelude::*;
use crate::json::{ToJson, push_str};
use crate::properties::Properties;
use super::MessageData;

verus! {

/// Who the client is: its token and the properties it reports.
pub struct Identity {
    pub token: String,
    pub properties: Properties,
    pub compress: Option<bool>,
    pub large_threshold: Option<i32>,
}

impl ToJson for Identity {
    open spec fn json(&self) -> Seq<char> {
        "{\"token\":"@ + self.token.json() + ",\"properties\":"@ + self.properties.json()
            + ",\"compress\":"@ + self.compress.json() + ",\"large_threshold\":"@
            + self.large_threshold.json() + "}"@
    }

    fn push_json(&self, out: &mut String) {
        let ghost start = out@;
        push_str(out, "{\"token\":");
        self.token.push_json(out);
        push_str(out, ",\"properties\":");
        self.properties.push_json(out);
        push_str(out, ",\"compress\":");
        self.compress.push_json(out);
        push_str(out, ",\"large_threshold\":");
        self.large_threshold.push_json(out);
        push_str(out, "}");
        assert(out@ =~= start + self.json());
    }
}

impl MessageData for Identity {}

} // verus!

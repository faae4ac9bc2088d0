//! Objects of the Discord HTTP API.

use vstd::prelude::*;
use crate::json::{ToJson, push_str};

verus! {

/// A Discord user, known by its id.
pub struct User {
    pub id: String,
}

impl ToJson for User {
    open spec fn json(&self) -> Seq<char> {
        "{\"id\":"@ + self.id.json() + "}"@
    }

    fn push_json(&self, out: &mut String) {
        let ghost start = out@;
        push_str(out, "{\"id\":");
        self.id.push_json(out);
        push_str(out, "}");
        assert(out@ =~= start + self.json());
    }
}

} // verus!

//! The payload of the message-create event.

use vstd::prelude::*;
use crate::api::User;
use crate::json::{ToJson, RawJson, push_str};
use super::MessageData;

verus! {

/// A message posted in a channel.
pub struct DiscordMessage {
    pub id: String,
    pub channel_id: String,
    pub author: User,
    pub content: String,
    pub timestamp: String,
    pub edited_timestamp: Option<String>,
    pub tts: bool,
    pub mention_everyone: bool,
    pub mentions: Vec<RawJson>,
    pub mention_roles: Vec<RawJson>,
    pub attachments: Vec<RawJson>,
    pub embeds: Vec<RawJson>,
    pub reactions: Option<RawJson>,
    pub nonce: Option<String>,
    pub pinned: bool,
    pub webhook_id: Option<String>,
    pub type_id: i8,
}

impl DiscordMessage {
    /// The text of the fields up to `tts`.
    pub open spec fn json_head(&self) -> Seq<char> {
        "{\"id\":"@ + self.id.json() + ",\"channel_id\":"@ + self.channel_id.json()
            + ",\"author\":"@ + self.author.json() + ",\"content\":"@ + self.content.json()
            + ",\"timestamp\":"@ + self.timestamp.json() + ",\"edited_timestamp\":"@
            + self.edited_timestamp.json() + ",\"tts\":"@ + self.tts.json()
    }

    /// The text of the fields from `mention_everyone` to `embeds`.
    pub open spec fn json_middle(&self) -> Seq<char> {
        ",\"mention_everyone\":"@ + self.mention_everyone.json() + ",\"mentions\":"@
            + self.mentions.json() + ",\"mention_roles\":"@ + self.mention_roles.json()
            + ",\"attachments\":"@ + self.attachments.json() + ",\"embeds\":"@
            + self.embeds.json()
    }

    /// The text of the fields from `reactions` on.
    pub open spec fn json_tail(&self) -> Seq<char> {
        ",\"reactions\":"@ + self.reactions.json() + ",\"nonce\":"@ + self.nonce.json()
            + ",\"pinned\":"@ + self.pinned.json() + ",\"webhook_id\":"@
            + self.webhook_id.json() + ",\"type\":"@ + self.type_id.json() + "}"@
    }

    fn push_head(&self, out: &mut String)
        ensures
            final(out)@ == old(out)@ + self.json_head(),
    {
        let ghost start = out@;
        push_str(out, "{\"id\":");
        self.id.push_json(out);
        push_str(out, ",\"channel_id\":");
        self.channel_id.push_json(out);
        push_str(out, ",\"author\":");
        self.author.push_json(out);
        push_str(out, ",\"content\":");
        self.content.push_json(out);
        push_str(out, ",\"timestamp\":");
        self.timestamp.push_json(out);
        push_str(out, ",\"edited_timestamp\":");
        self.edited_timestamp.push_json(out);
        push_str(out, ",\"tts\":");
        self.tts.push_json(out);
        assert(out@ =~= start + self.json_head());
    }

    fn push_middle(&self, out: &mut String)
        ensures
            final(out)@ == old(out)@ + self.json_middle(),
    {
        let ghost start = out@;
        push_str(out, ",\"mention_everyone\":");
        self.mention_everyone.push_json(out);
        push_str(out, ",\"mentions\":");
        self.mentions.push_json(out);
        push_str(out, ",\"mention_roles\":");
        self.mention_roles.push_json(out);
        push_str(out, ",\"attachments\":");
        self.attachments.push_json(out);
        push_str(out, ",\"embeds\":");
        self.embeds.push_json(out);
        assert(out@ =~= start + self.json_middle());
    }

    fn push_tail(&self, out: &mut String)
        ensures
            final(out)@ == old(out)@ + self.json_tail(),
    {
        let ghost start = out@;
        push_str(out, ",\"reactions\":");
        self.reactions.push_json(out);
        push_str(out, ",\"nonce\":");
        self.nonce.push_json(out);
        push_str(out, ",\"pinned\":");
        self.pinned.push_json(out);
        push_str(out, ",\"webhook_id\":");
        self.webhook_id.push_json(out);
        push_str(out, ",\"type\":");
        self.type_id.push_json(out);
        push_str(out, "}");
        assert(out@ =~= start + self.json_tail());
    }
}

impl ToJson for DiscordMessage {
    open spec fn json(&self) -> Seq<char> {
        self.json_head() + self.json_middle() + self.json_tail()
    }

    fn push_json(&self, out: &mut String) {
        let ghost start = out@;
        self.push_head(out);
        self.push_middle(out);
        self.push_tail(out);
        assert(out@ =~= start + self.json());
    }
}

impl MessageData for DiscordMessage {}

} // verus!

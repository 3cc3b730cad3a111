//! Conversations: an identified, titled, ordered list of messages.

use vstd::prelude::*;

use crate::message::{now_unix_secs, Message, Role};
use crate::text::{
    append_str, chars_to_string, remove_all, replace_all, spec_remove_all, spec_replace_all,
    spec_trim, spec_trim_char, str_chars, subrange_chars, trim_char_ends, trim_chars,
};

verus! {

/// The title a conversation gets from a message: its first 50 characters,
/// with a trailing ellipsis when it was longer.
pub open spec fn spec_generate_title(content: Seq<char>) -> Seq<char> {
    if content.len() > 50 {
        content.take(50) + "..."@
    } else {
        content
    }
}

/// A conversation title from the first message's content.
pub fn generate_title(content: &str) -> (r: String)
    ensures
        r@ == spec_generate_title(content@),
{
    let chars = str_chars(content);
    if chars.len() > 50 {
        let head = subrange_chars(&chars, 0, 50);
        let mut title = chars_to_string(&head);
        append_str(&mut title, "...");
        proof {
            assert(content@.take(50) =~= content@.subrange(0, 50));
        }
        title
    } else {
        chars_to_string(&chars)
    }
}

/// A chat conversation. Its update time never runs backwards and never
/// precedes its creation time.
#[derive(Debug, Clone)]
pub struct Conversation {
    /// Stable identifier; a hyphenated UUID.
    pub id: String,
    /// Human-readable title, generated from the first message.
    pub title: String,
    /// The messages, in order.
    pub messages: Vec<Message>,
    /// Seconds since the epoch at creation.
    pub created_at: u64,
    /// Seconds since the epoch at the last mutation; monotonic.
    pub updated_at: u64,
}

/// Relies on `uuid::Uuid::new_v4` and its hyphenated `Display` form: a
/// random version-4 UUID rendered as 36 characters. The value is random, so
/// only its length is stated.
#[verifier::external_body]
pub(crate) fn new_uuid_string() -> (r: String)
    ensures
        r@.len() == 36,
{
    uuid::Uuid::new_v4().to_string()
}

impl Conversation {
    /// The invariant: updates never precede creation.
    pub open spec fn wf(&self) -> bool {
        self.updated_at >= self.created_at
    }

    /// A new conversation, empty or holding one first message that also
    /// names it.
    pub fn new(first_message: Option<Message>) -> (r: Conversation)
        ensures
            r.wf(),
            r.created_at == r.updated_at,
            r.id@.len() == 36,
            match first_message {
                Some(m) => r.title@ == spec_generate_title(m.content@) && r.messages@ == seq![m],
                None => r.title@ == "New Conversation"@ && r.messages@.len() == 0,
            },
    {
        let id = new_uuid_string();
        let now = now_unix_secs();
        match first_message {
            Some(m) => {
                let title = generate_title(m.content.as_str());
                let mut messages: Vec<Message> = Vec::new();
                messages.push(m);
                Conversation { id, title, messages, created_at: now, updated_at: now }
            },
            None => {
                let title: String = "New Conversation".to_owned();
                Conversation { id, title, messages: Vec::new(), created_at: now, updated_at: now }
            },
        }
    }

    /// Append a message. The first message also names the conversation; the
    /// update time moves forward, never back.
    pub fn add_message(&mut self, message: Message)
        requires
            old(self).wf(),
        ensures
            final(self).wf(),
            final(self).messages@ == old(self).messages@.push(message),
            final(self).created_at == old(self).created_at,
            final(self).updated_at >= old(self).updated_at,
            final(self).id == old(self).id,
            old(self).messages@.len() == 0 ==> final(self).title@ == spec_generate_title(
                message.content@,
            ),
            old(self).messages@.len() > 0 ==> final(self).title == old(self).title,
    {
        if self.messages.len() == 0 {
            self.title = generate_title(message.content.as_str());
        }
        self.messages.push(message);
        let now = now_unix_secs();
        if now > self.updated_at {
            self.updated_at = now;
        }
    }
}


/// A generated title, cleaned: thinking tags and code fences removed, line
/// breaks flattened, the ends trimmed of whitespace and then of surrounding
/// quotes, and the result cut to 60 characters with an ellipsis.
pub open spec fn spec_clean_generated_title(s: Seq<char>) -> Seq<char> {
    let cleaned = spec_trim_char(
        spec_trim_char(
            spec_trim(
                spec_replace_all(
                    spec_remove_all(
                        spec_remove_all(
                            spec_remove_all(
                                spec_remove_all(spec_remove_all(s, "<think>"@), "</thinking>"@),
                                "<thinking>"@,
                            ),
                            "</think>"@,
                        ),
                        "```"@,
                    ),
                    seq!['\n'],
                    seq![' '],
                ),
            ),
            '"',
        ),
        '\'',
    );
    if cleaned.len() > 60 {
        cleaned.take(57) + "..."@
    } else {
        cleaned
    }
}

/// Clean the text a title generation produced: strip residual thinking tags
/// and code fences, flatten line breaks, trim whitespace and surrounding
/// quotes, and cut to 60 characters.
pub fn clean_generated_title(text: &str) -> (r: String)
    ensures
        r@ == spec_clean_generated_title(text@),
{
    let chars = str_chars(text);
    let p1 = str_chars("<think>");
    let p2 = str_chars("</thinking>");
    let p3 = str_chars("<thinking>");
    let p4 = str_chars("</think>");
    let p5 = str_chars("```");
    proof {
        reveal_strlit("<think>");
        reveal_strlit("</thinking>");
        reveal_strlit("<thinking>");
        reveal_strlit("</think>");
        reveal_strlit("```");
    }
    let step1 = remove_all(&chars, &p1);
    let step2 = remove_all(&step1, &p2);
    let step3 = remove_all(&step2, &p3);
    let step4 = remove_all(&step3, &p4);
    let step5 = remove_all(&step4, &p5);
    let newline: Vec<char> = vec!['\n'];
    let space: Vec<char> = vec![' '];
    proof {
        assert(newline@ =~= seq!['\n']);
        assert(space@ =~= seq![' ']);
    }
    let flattened = replace_all(&step5, &newline, &space);
    let trimmed = trim_chars(&flattened);
    let unquoted = trim_char_ends(&trimmed, '"');
    let cleaned = trim_char_ends(&unquoted, '\'');
    if cleaned.len() > 60 {
        let head = subrange_chars(&cleaned, 0, 57);
        let mut out = chars_to_string(&head);
        append_str(&mut out, "...");
        proof {
            assert(cleaned@.take(57) =~= cleaned@.subrange(0, 57));
        }
        out
    } else {
        chars_to_string(&cleaned)
    }
}

/// The conversations directory under the application data directory.
pub fn get_conversations_dir(data_dir: &str) -> (r: String)
    ensures
        r@ == data_dir@ + "/conversations"@,
{
    let mut r: String = data_dir.to_owned();
    append_str(&mut r, "/conversations");
    r
}

/// The file path of one conversation: `<id>.json` in the conversations
/// directory.
pub fn get_conversation_path(data_dir: &str, id: &str) -> (r: String)
    ensures
        r@ == data_dir@ + "/conversations/"@ + id@ + ".json"@,
{
    let mut r: String = data_dir.to_owned();
    append_str(&mut r, "/conversations/");
    append_str(&mut r, id);
    append_str(&mut r, ".json");
    proof {
        reveal_strlit("/conversations/");
        reveal_strlit(".json");
        assert(data_dir@ + "/conversations/"@ + id@ + ".json"@ =~= ((data_dir@
            + "/conversations/"@) + id@) + ".json"@);
    }
    r
}

/// The settings file path under the application data directory.
pub fn get_settings_path(data_dir: &str) -> (r: String)
    ensures
        r@ == data_dir@ + "/settings.json"@,
{
    let mut r: String = data_dir.to_owned();
    append_str(&mut r, "/settings.json");
    r
}

} // verus!

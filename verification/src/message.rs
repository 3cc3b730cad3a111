//! Chat messages and roles.

use vstd::prelude::*;

use crate::text::{chars_to_string, remove_all, spec_remove_all, spec_trim, str_chars, trim_chars};

verus! {

/// Who a message is from. Generation requires at least one non-assistant
/// message; a system message, if present, comes first.
#[derive(Debug, Clone, Copy, PartialEq, Eq, Structural)]
pub enum Role {
    /// The user.
    User,
    /// The model.
    Assistant,
    /// The system, including synthetic tool-result messages.
    System,
}

/// One chat message.
#[derive(Debug, Clone, PartialEq)]
pub struct Message {
    /// The sender's role.
    pub role: Role,
    /// The text.
    pub content: String,
    /// Seconds since the epoch at creation.
    pub timestamp: u64,
}

/// Relies on `std::time::SystemTime::now` and `duration_since`: seconds
/// since the Unix epoch, or 0 for a clock before the epoch. The value
/// depends on the clock, so nothing more is promised of it.
#[verifier::external_body]
pub fn now_unix_secs() -> u64 {
    match std::time::SystemTime::now().duration_since(std::time::UNIX_EPOCH) {
        Ok(d) => d.as_secs(),
        Err(_) => 0,
    }
}

impl Message {
    /// A message stamped with the current time.
    pub fn new(role: Role, content: &str) -> (r: Message)
        ensures
            r.role == role,
            r.content@ == content@,
    {
        Message { role, content: content.to_owned(), timestamp: now_unix_secs() }
    }
}

/// The thinking-tag fragments stripped from content before display, applied
/// in this order: the think and thinking tags, then the reflection tags a
/// French-speaking model may emit, plain and accented.
pub open spec fn spec_thinking_patterns() -> Seq<Seq<char>> {
    seq![
        "<think>"@,
        "</thinking>"@,
        "</think>"@,
        "<thinking>"@,
        "</reflexion>"@,
        "<r\u{e9}flexion>"@,
        "</r\u{e9}flexion>"@,
    ]
}

/// `content` with every thinking-tag fragment removed and the ends trimmed.
pub open spec fn spec_clean_thinking_tags(content: Seq<char>) -> Seq<char> {
    spec_trim(
        spec_remove_all(
            spec_remove_all(
                spec_remove_all(
                    spec_remove_all(
                        spec_remove_all(
                            spec_remove_all(spec_remove_all(content, "<think>"@), "</thinking>"@),
                            "</think>"@,
                        ),
                        "<thinking>"@,
                    ),
                    "</reflexion>"@,
                ),
                "<r\u{e9}flexion>"@,
            ),
            "</r\u{e9}flexion>"@,
        ),
    )
}

/// Strip thinking tags from content for display, so reasoning never shows
/// to the user, and trim the result.
pub fn clean_thinking_tags(content: &str) -> (r: String)
    ensures
        r@ == spec_clean_thinking_tags(content@),
{
    let chars = str_chars(content);
    let p1 = str_chars("<think>");
    let p2 = str_chars("</thinking>");
    let p3 = str_chars("</think>");
    let p4 = str_chars("<thinking>");
    let p5 = str_chars("</reflexion>");
    let p6 = str_chars("<r\u{e9}flexion>");
    let p7 = str_chars("</r\u{e9}flexion>");
    proof {
        reveal_strlit("<think>");
        reveal_strlit("</thinking>");
        reveal_strlit("</think>");
        reveal_strlit("<thinking>");
        reveal_strlit("</reflexion>");
        reveal_strlit("<r\u{e9}flexion>");
        reveal_strlit("</r\u{e9}flexion>");
    }
    let step1 = remove_all(&chars, &p1);
    let step2 = remove_all(&step1, &p2);
    let step3 = remove_all(&step2, &p3);
    let step4 = remove_all(&step3, &p4);
    let step5 = remove_all(&step4, &p5);
    let step6 = remove_all(&step5, &p6);
    let step7 = remove_all(&step6, &p7);
    let trimmed = trim_chars(&step7);
    chars_to_string(&trimmed)
}

} // verus!

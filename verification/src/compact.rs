//! Two-tier context compaction.
//!
//! Tier 1 costs nothing: long system messages are cut to their head with a
//! marker, and old messages beyond the last four are elided behind one
//! placeholder. Tier 2 costs one model call: the conversation is serialized
//! into short lines, a summary is generated, and the conversation is
//! replaced by it. A run performs at most two compactions.

use vstd::prelude::*;

use crate::message::{Message, Role};
use crate::text::{
    append_str, chars_to_string, spec_decimal, str_chars, subrange_chars, u64_to_string,
};

verus! {

/// Characters kept from an over-long system message.
pub const PRUNE_KEEP_CHARS: usize = 500;

/// System messages longer than this are pruned.
pub const PRUNE_THRESHOLD_CHARS: usize = 2000;

/// Messages kept verbatim when the conversation is elided.
pub const ELIDE_KEEP_MSGS: usize = 4;

/// A conversation longer than this gets elided.
pub const ELIDE_THRESHOLD_MSGS: usize = 6;

/// If tier 1 brings the total character count under this, tier 2 is skipped.
pub const TIER2_THRESHOLD_CHARS: u64 = 12000;

/// The pruned form of one message: a system message longer than 2000
/// characters keeps its first 500 plus a marker noting the original length;
/// everything else is untouched.
pub open spec fn spec_prune_content(role: Role, content: Seq<char>) -> Seq<char> {
    if role == Role::System && content.len() > PRUNE_THRESHOLD_CHARS {
        content.take(PRUNE_KEEP_CHARS as int) + "...\n\n[Content truncated - "@ + spec_decimal(
            content.len() as nat,
        ) + " characters]"@
    } else {
        content
    }
}

fn prune_content(role: Role, content: &String) -> (r: String)
    ensures
        r@ == spec_prune_content(role, content@),
{
    let chars = str_chars(content.as_str());
    if matches!(role, Role::System) && chars.len() > PRUNE_THRESHOLD_CHARS {
        let head = subrange_chars(&chars, 0, PRUNE_KEEP_CHARS);
        let mut out = chars_to_string(&head);
        append_str(&mut out, "...\n\n[Content truncated - ");
        let ulen: u64 = chars.len() as u64;
        let dec = u64_to_string(ulen);
        append_str(&mut out, dec.as_str());
        append_str(&mut out, " characters]");
        proof {
            assert(content@.take(PRUNE_KEEP_CHARS as int) =~= content@.subrange(
                0,
                PRUNE_KEEP_CHARS as int,
            ));
            assert(((content@.take(PRUNE_KEEP_CHARS as int) + "...\n\n[Content truncated - "@)
                + spec_decimal(content@.len() as nat)) + " characters]"@ =~= content@.take(
                PRUNE_KEEP_CHARS as int,
            ) + "...\n\n[Content truncated - "@ + spec_decimal(content@.len() as nat)
                + " characters]"@);
        }
        out
    } else {
        let mut out = String::new();
        append_str(&mut out, content.as_str());
        proof {
            assert(out@ =~= content@);
        }
        out
    }
}

/// The placeholder that stands for `n` elided messages.
pub open spec fn spec_elision_marker(n: nat) -> Seq<char> {
    "["@ + spec_decimal(n) + " earlier messages compacted]"@
}

/// Tier-1 pruning, free of model calls: every over-long system message is
/// cut, and where more than six messages stand, the last four stay and the
/// rest are replaced by one placeholder system message.
pub fn prune_messages(msgs: &Vec<Message>) -> (r: Vec<Message>)
    ensures
        ({
            let n = msgs@.len();
            if n > ELIDE_THRESHOLD_MSGS {
                &&& r@.len() == ELIDE_KEEP_MSGS + 1
                &&& r@[0].role == Role::System
                &&& r@[0].content@ == spec_elision_marker((n - ELIDE_KEEP_MSGS) as nat)
                &&& forall|i: int|
                    0 <= i < ELIDE_KEEP_MSGS ==> #[trigger] r@[i + 1].role == msgs@[n
                        - ELIDE_KEEP_MSGS + i].role && r@[i + 1].content@ == spec_prune_content(
                        msgs@[n - ELIDE_KEEP_MSGS + i].role,
                        msgs@[n - ELIDE_KEEP_MSGS + i].content@,
                    )
            } else {
                &&& r@.len() == n
                &&& forall|i: int|
                    0 <= i < n ==> #[trigger] r@[i].role == msgs@[i].role && r@[i].content@
                        == spec_prune_content(msgs@[i].role, msgs@[i].content@)
            }
        }),
{
    let mut cut: Vec<Message> = Vec::new();
    let mut i: usize = 0;
    while i < msgs.len()
        invariant
            i <= msgs@.len(),
            cut@.len() == i,
            forall|k: int|
                0 <= k < i ==> #[trigger] cut@[k].role == msgs@[k].role && cut@[k].content@
                    == spec_prune_content(msgs@[k].role, msgs@[k].content@) && cut@[k].timestamp
                    == msgs@[k].timestamp,
        decreases msgs@.len() - i,
    {
        let m = &msgs[i];
        let content = prune_content(m.role, &m.content);
        cut.push(Message { role: m.role, content, timestamp: m.timestamp });
        i = i + 1;
    }
    if cut.len() > ELIDE_THRESHOLD_MSGS {
        let n = cut.len();
        let elided: u64 = (n - ELIDE_KEEP_MSGS) as u64;
        let mut marker = String::new();
        append_str(&mut marker, "[");
        let dec = u64_to_string(elided);
        append_str(&mut marker, dec.as_str());
        append_str(&mut marker, " earlier messages compacted]");
        proof {
            assert(marker@ =~= spec_elision_marker((n - ELIDE_KEEP_MSGS) as nat));
        }
        let mut out: Vec<Message> = Vec::new();
        out.push(Message { role: Role::System, content: marker, timestamp: 0 });
        let mut j: usize = n - ELIDE_KEEP_MSGS;
        while j < n
            invariant
                n == cut@.len(),
                n > ELIDE_THRESHOLD_MSGS,
                n - ELIDE_KEEP_MSGS <= j <= n,
                out@.len() == 1 + j - (n - ELIDE_KEEP_MSGS),
                out@[0].role == Role::System,
                out@[0].content@ == spec_elision_marker((n - ELIDE_KEEP_MSGS) as nat),
                forall|k: int|
                    0 <= k < cut@.len() ==> #[trigger] cut@[k].role == msgs@[k].role
                        && cut@[k].content@ == spec_prune_content(msgs@[k].role, msgs@[k].content@),
                msgs@.len() == n,
                forall|k: int|
                    n - ELIDE_KEEP_MSGS <= k < j ==> #[trigger] out@[k - (n - ELIDE_KEEP_MSGS)
                        + 1].role == cut@[k].role && out@[k - (n - ELIDE_KEEP_MSGS) + 1].content@
                        == cut@[k].content@,
            decreases n - j,
        {
            let m = &cut[j];
            let mut content = String::new();
            append_str(&mut content, m.content.as_str());
            proof {
                assert(content@ =~= cut@[j as int].content@);
            }
            out.push(Message { role: m.role, content, timestamp: m.timestamp });
            j = j + 1;
        }
        proof {
            assert forall|i: int| 0 <= i < ELIDE_KEEP_MSGS implies #[trigger] out@[i + 1].role
                == msgs@[n - ELIDE_KEEP_MSGS + i].role && out@[i + 1].content@
                == spec_prune_content(
                msgs@[n - ELIDE_KEEP_MSGS + i].role,
                msgs@[n - ELIDE_KEEP_MSGS + i].content@,
            ) by {
                let k = n - ELIDE_KEEP_MSGS + i;
                assert(out@[k - (n - ELIDE_KEEP_MSGS) + 1].role == cut@[k].role);
                assert(out@[k - (n - ELIDE_KEEP_MSGS) + 1].content@ == cut@[k].content@);
                assert(cut@[k].role == msgs@[k].role);
            }
        }
        out
    } else {
        cut
    }
}

/// The total character count of a message list, saturating at `u64::MAX`.
pub open spec fn spec_total_chars(msgs: Seq<Message>) -> int
    decreases msgs.len(),
{
    if msgs.len() == 0 {
        0
    } else {
        spec_total_chars(msgs.drop_last()) + msgs.last().content@.len()
    }
}

/// Total characters over a message list, saturating.
pub fn total_chars(msgs: &Vec<Message>) -> (r: u64)
    ensures
        spec_total_chars(msgs@) <= u64::MAX ==> r == spec_total_chars(msgs@),
        r <= spec_total_chars(msgs@),
{
    let mut total: u64 = 0;
    let mut i: usize = 0;
    while i < msgs.len()
        invariant
            i <= msgs@.len(),
            spec_total_chars(msgs@.take(i as int)) <= u64::MAX ==> total == spec_total_chars(
                msgs@.take(i as int),
            ),
            total <= spec_total_chars(msgs@.take(i as int)),
        decreases msgs@.len() - i,
    {
        let len: usize = msgs[i].content.as_str().unicode_len();
        proof {
            assert(msgs@.take(i + 1 as int).drop_last() =~= msgs@.take(i as int));
            assert(msgs@.take(i + 1 as int).last() == msgs@[i as int]);
            lemma_total_nonneg(msgs@.take(i as int));
        }
        if total <= u64::MAX - (len as u64) {
            total = total + (len as u64);
        } else {
            total = u64::MAX;
        }
        i = i + 1;
    }
    proof {
        assert(msgs@.take(msgs@.len() as int) =~= msgs@);
    }
    total
}

proof fn lemma_total_nonneg(msgs: Seq<Message>)
    ensures
        spec_total_chars(msgs) >= 0,
    decreases msgs.len(),
{
    if msgs.len() > 0 {
        lemma_total_nonneg(msgs.drop_last());
    }
}

/// Whether tier 2 is still needed after tier 1: the pruned conversation is
/// still at least 12000 characters.
pub fn tier2_needed(total_after_prune: u64) -> (r: bool)
    ensures
        r == (total_after_prune >= TIER2_THRESHOLD_CHARS),
{
    total_after_prune >= TIER2_THRESHOLD_CHARS
}

/// One serialized line of the tier-2 summary request: `[U]: ` or `[A]: `
/// and the content, cut at 200 characters with an ellipsis.
pub open spec fn spec_summary_line(role: Role, content: Seq<char>) -> Seq<char> {
    let prefix = if role == Role::User {
        "[U]: "@
    } else {
        "[A]: "@
    };
    if content.len() > 200 {
        prefix + content.take(200) + "..."@
    } else {
        prefix + content
    }
}

/// The serialized conversation handed to the summarizing generation: all but
/// the last two messages, system messages left out, one line each.
pub open spec fn spec_summary_request(msgs: Seq<Message>) -> Seq<char>
    decreases msgs.len(),
{
    if msgs.len() == 0 {
        Seq::empty()
    } else {
        spec_summary_request(msgs.drop_last()) + (if msgs.last().role == Role::System {
            Seq::<char>::empty()
        } else {
            spec_summary_line(msgs.last().role, msgs.last().content@) + "\n"@
        })
    }
}

/// Serialize all but the last two messages into short role-tagged lines for
/// the summarizing generation, each ended by a newline.
pub fn build_summary_request(msgs: &Vec<Message>) -> (r: String)
    ensures
        ({
            let kept = if msgs@.len() >= 2 {
                msgs@.take(msgs@.len() - 2)
            } else {
                Seq::<Message>::empty()
            };
            r@ == spec_summary_request(kept)
        }),
{
    let upto: usize = if msgs.len() >= 2 {
        msgs.len() - 2
    } else {
        0
    };
    let mut out = String::new();
    let mut i: usize = 0;
    proof {
        assert(msgs@.take(0) =~= Seq::<Message>::empty());
    }
    while i < upto
        invariant
            i <= upto <= msgs@.len(),
            out@ == spec_summary_request(msgs@.take(i as int)),
        decreases upto - i,
    {
        let m = &msgs[i];
        proof {
            assert(msgs@.take(i + 1 as int).drop_last() =~= msgs@.take(i as int));
            assert(msgs@.take(i + 1 as int).last() == msgs@[i as int]);
        }
        if !matches!(m.role, Role::System) {
            if matches!(m.role, Role::User) {
                append_str(&mut out, "[U]: ");
            } else {
                append_str(&mut out, "[A]: ");
            }
            let chars = str_chars(m.content.as_str());
            if chars.len() > 200 {
                let head = subrange_chars(&chars, 0, 200);
                let headstr = chars_to_string(&head);
                append_str(&mut out, headstr.as_str());
                append_str(&mut out, "...");
                proof {
                    assert(m.content@.take(200) =~= m.content@.subrange(0, 200));
                }
            } else {
                append_str(&mut out, m.content.as_str());
            }
            append_str(&mut out, "\n");
        }
        i = i + 1;
    }
    proof {
        if msgs@.len() >= 2 {
            assert(msgs@.take(upto as int) =~= msgs@.take(msgs@.len() - 2));
        } else {
            assert(msgs@.take(0) =~= Seq::<Message>::empty());
        }
    }
    out
}

/// Replace the conversation with the summary: one system message carrying
/// it, then the last message where it has content.
pub fn apply_summary(msgs: &Vec<Message>, summary: String) -> (r: Vec<Message>)
    ensures
        r@.len() >= 1,
        r@[0].role == Role::System,
        r@[0].content@ == summary@,
        msgs@.len() > 0 && msgs@.last().content@.len() > 0 ==> r@.len() == 2 && r@[1].role
            == msgs@.last().role && r@[1].content@ == msgs@.last().content@,
        !(msgs@.len() > 0 && msgs@.last().content@.len() > 0) ==> r@.len() == 1,
{
    let mut out: Vec<Message> = Vec::new();
    out.push(Message { role: Role::System, content: summary, timestamp: 0 });
    if msgs.len() > 0 {
        let last = &msgs[msgs.len() - 1];
        if !last.content.as_str().is_empty() {
            let mut content = String::new();
            append_str(&mut content, last.content.as_str());
            proof {
                assert(content@ =~= msgs@.last().content@);
            }
            out.push(Message { role: last.role, content, timestamp: last.timestamp });
        }
    }
    out
}

} // verus!

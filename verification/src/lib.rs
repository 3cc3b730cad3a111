//! Core library of a local-LLM desktop agent.
//!
//! The library owns the logic of the system: sizing and reuse of the
//! inference context, the streaming decoder with UTF-8 re-assembly,
//! GGUF header validation, tool-call extraction from model output,
//! permission arbitration, the agent loop's decisions, and context
//! compaction. I/O, the native tensor runtime, and the GUI live outside
//! the library and talk to it through plain values.

pub mod agent;
pub mod compact;
pub mod context;
pub mod conversation;
pub mod engine;
pub mod extract;
pub mod gguf;
pub mod message;
pub mod models;
pub mod params;
pub mod permissions;
pub mod prompts;
pub mod stream;
pub mod system;
pub mod text;
pub mod tools;
pub mod utf8_stream;

use vstd::prelude::*;

verus! {

/// The longest prefix of `s` whose UTF-8 encoding fits in `budget` bytes:
/// characters are taken from the front while their encodings fit.
pub open spec fn spec_truncate_chars(s: Seq<char>, i: int, budget: int) -> Seq<char>
    decreases s.len() - i,
    when i >= 0
{
    if i >= s.len() {
        s.take(i)
    } else {
        let w = vstd::utf8::encode_scalar(s[i] as u32).len();
        if w <= budget {
            spec_truncate_chars(s, i + 1, budget - w)
        } else {
            s.take(i)
        }
    }
}

/// The number of bytes `c` takes in UTF-8.
fn char_utf8_len(c: char) -> (r: usize)
    ensures
        r == vstd::utf8::encode_scalar(c as u32).len(),
        1 <= r <= 4,
{
    proof {
        vstd::utf8::char_is_scalar(c);
    }
    let u = c as u32;
    if u < 0x80 {
        1
    } else if u < 0x800 {
        2
    } else if u < 0x10000 {
        3
    } else {
        4
    }
}

/// Truncate a string to at most `max_bytes` bytes of UTF-8 without
/// splitting a character: the longest such prefix, as its own string.
pub fn truncate_str(s: &str, max_bytes: usize) -> (r: String)
    ensures
        r@ == spec_truncate_chars(s@, 0, max_bytes as int),
{
    let chars = crate::text::str_chars(s);
    let mut i: usize = 0;
    let mut budget: usize = max_bytes;
    loop
        invariant_except_break
            i <= chars@.len(),
            chars@ == s@,
            budget <= max_bytes,
            spec_truncate_chars(s@, 0, max_bytes as int) == spec_truncate_chars(
                s@,
                i as int,
                budget as int,
            ),
        ensures
            i <= chars@.len(),
            chars@ == s@,
            spec_truncate_chars(s@, 0, max_bytes as int) == s@.take(i as int),
        decreases chars@.len() - i,
    {
        if i >= chars.len() {
            proof {
                assert(spec_truncate_chars(s@, i as int, budget as int) == s@.take(i as int));
            }
            break ;
        }
        let w = char_utf8_len(chars[i]);
        if w > budget {
            proof {
                assert(spec_truncate_chars(s@, i as int, budget as int) == s@.take(i as int));
            }
            break ;
        }
        budget = budget - w;
        i = i + 1;
    }
    let head = crate::text::subrange_chars(&chars, 0, i);
    proof {
        assert(s@.take(i as int) =~= s@.subrange(0, i as int));
    }
    crate::text::chars_to_string(&head)
}

} // verus!

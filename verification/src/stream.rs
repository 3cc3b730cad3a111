//! Tokens streamed out of a generation.

use vstd::prelude::*;

verus! {

/// One item of the token stream a generation emits: zero or more `Token`
/// values followed by exactly one terminal value (`Done`, `Truncated`, or
/// `Error`).
#[derive(Debug, Clone, PartialEq, Eq)]
pub enum StreamToken {
    /// A piece of generated text; always valid UTF-8.
    Token(String),
    /// Generation completed, by the model's end marker or a cooperative stop.
    Done,
    /// The output budget ran out before an end marker.
    Truncated { tokens_generated: u32, max_tokens: u32 },
    /// A decode, sample, or convert failure; carries the message.
    Error(String),
}

impl StreamToken {
    /// Whether this is a `Token` item.
    pub fn is_token(&self) -> (r: bool)
        ensures
            r == (self is Token),
    {
        match self {
            StreamToken::Token(_) => true,
            _ => false,
        }
    }

    /// Whether this is the `Done` terminal.
    pub fn is_done(&self) -> (r: bool)
        ensures
            r == (self is Done),
    {
        match self {
            StreamToken::Done => true,
            _ => false,
        }
    }

    /// Whether this is the `Error` terminal.
    pub fn is_error(&self) -> (r: bool)
        ensures
            r == (self is Error),
    {
        match self {
            StreamToken::Error(_) => true,
            _ => false,
        }
    }

    /// The text of a `Token` item, if this is one.
    pub fn as_token(&self) -> (r: Option<&str>)
        ensures
            match self {
                StreamToken::Token(s) => r matches Some(t) && t@ == s@,
                _ => r is None,
            },
    {
        match self {
            StreamToken::Token(s) => Some(s.as_str()),
            _ => None,
        }
    }

    /// The message of an `Error` terminal, if this is one.
    pub fn as_error(&self) -> (r: Option<&str>)
        ensures
            match self {
                StreamToken::Error(s) => r matches Some(t) && t@ == s@,
                _ => r is None,
            },
    {
        match self {
            StreamToken::Error(s) => Some(s.as_str()),
            _ => None,
        }
    }
}

} // verus!

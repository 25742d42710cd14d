//! The library's error type.
use vstd::prelude::*;
use crate::text::{chars_of, extend_chars, string_of};

verus! {

/// Unified error type for all operations of the library.
#[derive(Debug)]
pub enum McError {
    /// Error from the LLM provider (API call failed, rate limited, etc.).
    Llm(String),
    /// Error during tool execution.
    Tool(String),
    /// Configuration loading or validation error.
    Config(String),
    /// File system or network I/O error (its description).
    Io(String),
    /// Channel communication error (Feishu, WeChat, QQ, etc.).
    Channel(String),
    /// Serialization or deserialization error (its description).
    Serialization(String),
    /// Skill loading or parsing error.
    Skill(String),
    /// Storage or database error (SQLite, session persistence).
    Storage(String),
}

/// The text of an error as it is displayed: a prefix naming the kind of
/// error, then the detail.
pub open spec fn error_message_s(e: McError) -> Seq<char> {
    match e {
        McError::Llm(s) => "LLM error: "@ + s@,
        McError::Tool(s) => "Tool error: "@ + s@,
        McError::Config(s) => "Config error: "@ + s@,
        McError::Io(s) => "IO error: "@ + s@,
        McError::Channel(s) => "Channel error: "@ + s@,
        McError::Serialization(s) => "Serialization error: "@ + s@,
        McError::Skill(s) => "Skill error: "@ + s@,
        McError::Storage(s) => "Storage error: "@ + s@,
    }
}

impl McError {
    /// The text of the error as it is displayed.
    pub fn message(&self) -> (r: String)
        ensures
            r@ == error_message_s(*self),
    {
        let mut v: Vec<char> = Vec::new();
        match self {
            McError::Llm(s) => {
                extend_chars(&mut v, "LLM error: ");
                extend_chars(&mut v, s.as_str());
            },
            McError::Tool(s) => {
                extend_chars(&mut v, "Tool error: ");
                extend_chars(&mut v, s.as_str());
            },
            McError::Config(s) => {
                extend_chars(&mut v, "Config error: ");
                extend_chars(&mut v, s.as_str());
            },
            McError::Io(s) => {
                extend_chars(&mut v, "IO error: ");
                extend_chars(&mut v, s.as_str());
            },
            McError::Channel(s) => {
                extend_chars(&mut v, "Channel error: ");
                extend_chars(&mut v, s.as_str());
            },
            McError::Serialization(s) => {
                extend_chars(&mut v, "Serialization error: ");
                extend_chars(&mut v, s.as_str());
            },
            McError::Skill(s) => {
                extend_chars(&mut v, "Skill error: ");
                extend_chars(&mut v, s.as_str());
            },
            McError::Storage(s) => {
                extend_chars(&mut v, "Storage error: ");
                extend_chars(&mut v, s.as_str());
            },
        }
        string_of(v.as_slice())
    }
}

/// A `String` holding the characters of `s`.
pub fn owned(s: &str) -> (r: String)
    ensures
        r@ == s@,
{
    string_of(chars_of(s).as_slice())
}

} // verus!

//! What the host is answered.

use vstd::prelude::*;
use crate::json::Json;
use crate::json::JsonView;
use crate::json::members;

verus! {

/// What the host is answered.
#[derive(Debug, PartialEq, Eq)]
pub enum Reply {
    /// Success, with these fields.
    Fields(Vec<(String, Json)>),
    /// Failure, with a code and a message.
    Error(String, String),
    /// A JSON text as it is.
    Document(String),
}

/// The mathematical form of what the host is answered.
pub enum ReplyView {
    Fields(Seq<(Seq<char>, JsonView)>),
    Error(Seq<char>, Seq<char>),
    Document(Seq<char>),
}

impl View for Reply {
    type V = ReplyView;

    open spec fn view(&self) -> ReplyView {
        match self {
            Reply::Fields(fields) => ReplyView::Fields(members(fields@)),
            Reply::Error(code, message) => ReplyView::Error(code@, message@),
            Reply::Document(text) => ReplyView::Document(text@),
        }
    }
}

/// A failure with a copy of the message.
pub fn error(code: &str, message: &str) -> (out: Reply)
    ensures
        out@ == ReplyView::Error(code@, message@),
{
    Reply::Error(code.to_string(), message.to_string())
}

/// What is answered where another thread failed while it held the open connections.
pub fn state_poisoned() -> (out: Reply)
    ensures
        out@ == ReplyView::Error(
            "connector.statePoisoned"@,
            "Connector connection state is poisoned."@,
        ),
{
    error("connector.statePoisoned", "Connector connection state is poisoned.")
}

} // verus!

//! JSON-RPC 2.0 message identities and classification.
use vstd::prelude::*;
use crate::text::owned;

verus! {

/// The protocol version every message carries.
pub const JSONRPC_VERSION: &'static str = "2.0";

/// A request id.
#[derive(Debug, Clone, PartialEq, Eq)]
pub enum Id {
    Number(i64),
    String(String),
    Null,
}

impl Id {
    /// A numeric id.
    pub fn from_number(n: i64) -> (r: Id)
        ensures
            r == Id::Number(n),
    {
        Id::Number(n)
    }

    /// A textual id.
    pub fn from_text(s: &str) -> (r: Id)
        ensures
            r matches Id::String(t) && t@ == s@,
    {
        Id::String(owned(s))
    }

    /// The id's number, when it is numeric.
    pub fn number(&self) -> (r: Option<i64>)
        ensures
            match *self {
                Id::Number(n) => r == Some(n),
                _ => r is None,
            },
    {
        match self {
            Id::Number(n) => Some(*n),
            _ => None,
        }
    }
}

/// The three kinds of JSON-RPC message.
#[derive(Debug, Clone, Copy, PartialEq, Eq, Structural)]
pub enum MessageKind {
    Request,
    Response,
    Notification,
}

/// How a JSON object is read: with a `method` and an `id` it is a request, with a
/// `method` alone a notification, otherwise a response.
pub open spec fn kind_of(has_method: bool, has_id: bool) -> MessageKind {
    if has_method && has_id {
        MessageKind::Request
    } else if has_method {
        MessageKind::Notification
    } else {
        MessageKind::Response
    }
}

/// Classifies a JSON object by the members it has (see `kind_of`).
pub fn classify(has_method: bool, has_id: bool) -> (k: MessageKind)
    ensures
        k == kind_of(has_method, has_id),
{
    if has_method && has_id {
        MessageKind::Request
    } else if has_method {
        MessageKind::Notification
    } else {
        MessageKind::Response
    }
}

} // verus!

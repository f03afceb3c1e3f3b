//! MCP 2025-06-18: protocol version, method names and elicitation outcomes.
use vstd::prelude::*;
use crate::text::{owned, str_eq};

verus! {

/// The protocol version this implementation speaks.
pub const PROTOCOL_VERSION: &'static str = "2025-06-18";

/// The version a server answers with: the client's when it is ours, else ours.
pub fn select_protocol_version(client: &str) -> (r: String)
    ensures
        r@ == "2025-06-18"@,
{
    if str_eq(client, PROTOCOL_VERSION) {
        owned(client)
    } else {
        owned(PROTOCOL_VERSION)
    }
}

/// How the user answered an elicitation.
#[derive(Debug, Clone, Copy, PartialEq, Eq, Structural)]
pub enum ElicitationAction {
    Accept,
    Decline,
    Cancel,
}

/// An elicitation's outcome; `content` holds the JSON text of the submitted form.
#[derive(Debug, Clone, PartialEq, Eq)]
pub struct ElicitationResult {
    pub action: ElicitationAction,
    pub content: Option<String>,
}

impl ElicitationResult {
    /// An outcome without content.
    pub fn bare(action: ElicitationAction) -> (r: ElicitationResult)
        ensures
            r.action == action,
            r.content is None,
    {
        ElicitationResult { action, content: None }
    }
}

/// A request for user input; `requested_schema` holds the JSON text of the schema.
#[derive(Debug, Clone, PartialEq, Eq)]
pub struct ElicitationParams {
    pub message: String,
    pub requested_schema: String,
}

/// One piece of a tool's answer.
#[derive(Debug, Clone, PartialEq, Eq)]
pub enum ToolContent {
    Text { text: String },
}

/// What a tool call answers: its content, and whether the call failed.
#[derive(Debug, Clone, PartialEq, Eq)]
pub struct CallToolResult {
    pub content: Vec<ToolContent>,
    pub is_error: bool,
}

/// `r` is the single text `t`, flagged as an error exactly when `is_error`.
pub open spec fn says(r: CallToolResult, t: Seq<char>, is_error: bool) -> bool {
    &&& r.is_error == is_error
    &&& r.content@.len() == 1
    &&& r.content@[0] matches ToolContent::Text { text } && text@ == t
}

impl CallToolResult {
    /// A successful answer of one text.
    pub fn text(t: String) -> (r: CallToolResult)
        ensures
            says(r, t@, false),
    {
        CallToolResult { content: vec![ToolContent::Text { text: t }], is_error: false }
    }

    /// A failed answer of one text.
    pub fn error(t: String) -> (r: CallToolResult)
        ensures
            says(r, t@, true),
    {
        CallToolResult { content: vec![ToolContent::Text { text: t }], is_error: true }
    }
}

} // verus!

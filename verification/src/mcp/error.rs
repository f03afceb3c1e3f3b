//! MCP error codes and the errors of the MCP crates.
use vstd::prelude::*;
use crate::text::{concat2, concat3, i32_string, owned, signed_decimal};

verus! {

/// JSON-RPC 2.0 reserved codes plus the MCP transient (`-32199..=-32100`),
/// permanent (`-32299..=-32200`) and degraded (`-32399..=-32300`) bands.
#[derive(Debug, Clone, Copy, PartialEq, Eq, Structural)]
pub enum ErrorCode {
    ParseError,
    InvalidRequest,
    MethodNotFound,
    InvalidParams,
    InternalError,
    Timeout,
    ToolBusy,
    UpstreamUnavailable,
    AccessDenied,
    SchemaViolation,
    UnknownTool,
    PartialResult,
    StaleCache,
}

/// The number of each code.
pub open spec fn code_number(c: ErrorCode) -> i32 {
    match c {
        ErrorCode::ParseError => -32700i32,
        ErrorCode::InvalidRequest => -32600i32,
        ErrorCode::MethodNotFound => -32601i32,
        ErrorCode::InvalidParams => -32602i32,
        ErrorCode::InternalError => -32603i32,
        ErrorCode::Timeout => -32100i32,
        ErrorCode::ToolBusy => -32102i32,
        ErrorCode::UpstreamUnavailable => -32101i32,
        ErrorCode::AccessDenied => -32200i32,
        ErrorCode::SchemaViolation => -32201i32,
        ErrorCode::UnknownTool => -32202i32,
        ErrorCode::PartialResult => -32300i32,
        ErrorCode::StaleCache => -32301i32,
    }
}

impl ErrorCode {
    /// The code's JSON-RPC number.
    pub fn as_i32(self) -> (r: i32)
        ensures
            r == code_number(self),
    {
        match self {
            ErrorCode::ParseError => -32700,
            ErrorCode::InvalidRequest => -32600,
            ErrorCode::MethodNotFound => -32601,
            ErrorCode::InvalidParams => -32602,
            ErrorCode::InternalError => -32603,
            ErrorCode::Timeout => -32100,
            ErrorCode::ToolBusy => -32102,
            ErrorCode::UpstreamUnavailable => -32101,
            ErrorCode::AccessDenied => -32200,
            ErrorCode::SchemaViolation => -32201,
            ErrorCode::UnknownTool => -32202,
            ErrorCode::PartialResult => -32300,
            ErrorCode::StaleCache => -32301,
        }
    }
}

/// An MCP failure.  `Json` and `Io` carry the text of the underlying serde_json or
/// I/O error.
#[derive(Debug, Clone, PartialEq, Eq)]
pub enum Error {
    Json(String),
    Io(String),
    Protocol { code: i32, message: String },
    TransportClosed,
    Transport(String),
    InvalidResponse(String),
    Timeout,
    Other(String),
}

/// The text of each failure (what `Display` shows).
pub open spec fn error_message(e: Error) -> Seq<char> {
    match e {
        Error::Json(s) => "JSON serialisation: "@ + s@,
        Error::Io(s) => "I/O: "@ + s@,
        Error::Protocol { code, message } => "MCP protocol error ("@ + signed_decimal(code as int)
            + "): "@ + message@,
        Error::TransportClosed => "transport closed"@,
        Error::Transport(s) => "transport error: "@ + s@,
        Error::InvalidResponse(s) => "invalid response: "@ + s@,
        Error::Timeout => "call timed out"@,
        Error::Other(s) => s@,
    }
}

impl Error {
    /// A protocol error with `code` and `message`.
    pub fn protocol(code: ErrorCode, message: String) -> (e: Error)
        ensures
            e == (Error::Protocol { code: code_number(code), message }),
    {
        Error::Protocol { code: code.as_i32(), message }
    }

    /// The failure's text.
    pub fn message(&self) -> (r: String)
        ensures
            r@ == error_message(*self),
    {
        match self {
            Error::Json(s) => concat2("JSON serialisation: ", s.as_str()),
            Error::Io(s) => concat2("I/O: ", s.as_str()),
            Error::Protocol { code, message } => {
                let c = i32_string(*code);
                let a = concat3("MCP protocol error (", c.as_str(), "): ");
                concat2(a.as_str(), message.as_str())
            },
            Error::TransportClosed => String::from_str("transport closed"),
            Error::Transport(s) => concat2("transport error: ", s.as_str()),
            Error::InvalidResponse(s) => concat2("invalid response: ", s.as_str()),
            Error::Timeout => String::from_str("call timed out"),
            Error::Other(s) => owned(s.as_str()),
        }
    }
}

/// The error member of a JSON-RPC response.
#[derive(Debug, Clone, PartialEq, Eq)]
pub struct ErrorObject {
    pub code: i32,
    pub message: String,
    /// Extra detail, as JSON text.
    pub data: Option<String>,
}

impl ErrorObject {
    /// An error object with no data.
    pub fn new(code: i32, message: String) -> (o: ErrorObject)
        ensures
            o.code == code,
            o.message == message,
            o.data is None,
    {
        ErrorObject { code, message, data: None }
    }

    /// The same error carrying `data` (JSON text).
    pub fn with_data(self, data: String) -> (o: ErrorObject)
        ensures
            o.code == self.code,
            o.message == self.message,
            o.data == Some(data),
    {
        let mut o = self;
        o.data = Some(data);
        o
    }

    /// Its text, `[code] message`.
    pub fn text(&self) -> (r: String)
        ensures
            r@ == "["@ + signed_decimal(self.code as int) + "] "@ + self.message@,
    {
        let c = i32_string(self.code);
        let a = concat3("[", c.as_str(), "] ");
        concat2(a.as_str(), self.message.as_str())
    }
}

/// What a failed request is answered with: a protocol error keeps its code and
/// message, a JSON error is a parse error, anything else an internal error with the
/// failure's text.
pub open spec fn answer_for(e: Error) -> (i32, Seq<char>) {
    match e {
        Error::Protocol { code, message } => (code, message@),
        Error::Json(s) => (code_number(ErrorCode::ParseError), s@),
        Error::Io(s) => (code_number(ErrorCode::InternalError), s@),
        _ => (code_number(ErrorCode::InternalError), error_message(e)),
    }
}

/// The error object a failed request is answered with (see `answer_for`).
pub fn error_object(e: Error) -> (o: ErrorObject)
    ensures
        (o.code, o.message@) == answer_for(e),
{
    match e {
        Error::Protocol { code, message } => ErrorObject::new(code, message),
        Error::Json(s) => ErrorObject::new(ErrorCode::ParseError.as_i32(), s),
        Error::Io(s) => ErrorObject::new(ErrorCode::InternalError.as_i32(), s),
        other => {
            let m = other.message();
            ErrorObject::new(ErrorCode::InternalError.as_i32(), m)
        },
    }
}

} // verus!

//! ADT failure taxonomy and its JSON-RPC error codes.
use vstd::prelude::*;
use crate::text::{concat2, concat3, decimal, decimal_string};

verus! {

/// JSON-RPC error codes for ADT failures: transient ones lie in `-32199..=-32100`,
/// permanent ones in `-32299..=-32200`.
#[derive(Debug, Clone, Copy, PartialEq, Eq, Structural)]
pub enum AdtErrorCode {
    Timeout,
    DestinationDown,
    CsrfRefresh,
    RateLimited,
    AuthFailed,
    NotFound,
    Forbidden,
    InvalidObjectName,
    InactiveObject,
    DataPreviewBlocked,
    PermissionDenied,
    Locked,
}

/// The numeric value of each code.
pub open spec fn code_value(c: AdtErrorCode) -> int {
    match c {
        AdtErrorCode::Timeout => -32160,
        AdtErrorCode::DestinationDown => -32161,
        AdtErrorCode::CsrfRefresh => -32162,
        AdtErrorCode::RateLimited => -32163,
        AdtErrorCode::AuthFailed => -32260,
        AdtErrorCode::NotFound => -32261,
        AdtErrorCode::Forbidden => -32262,
        AdtErrorCode::InvalidObjectName => -32263,
        AdtErrorCode::InactiveObject => -32264,
        AdtErrorCode::DataPreviewBlocked => -32265,
        AdtErrorCode::PermissionDenied => -32266,
        AdtErrorCode::Locked => -32267,
    }
}

/// A code is transient when its value lies in the transient band.
pub open spec fn transient_code(c: AdtErrorCode) -> bool {
    -32199 <= code_value(c) <= -32100
}

impl AdtErrorCode {
    /// The code's JSON-RPC number.
    pub fn as_i32(self) -> (r: i32)
        ensures
            r == code_value(self),
    {
        match self {
            AdtErrorCode::Timeout => -32160,
            AdtErrorCode::DestinationDown => -32161,
            AdtErrorCode::CsrfRefresh => -32162,
            AdtErrorCode::RateLimited => -32163,
            AdtErrorCode::AuthFailed => -32260,
            AdtErrorCode::NotFound => -32261,
            AdtErrorCode::Forbidden => -32262,
            AdtErrorCode::InvalidObjectName => -32263,
            AdtErrorCode::InactiveObject => -32264,
            AdtErrorCode::DataPreviewBlocked => -32265,
            AdtErrorCode::PermissionDenied => -32266,
            AdtErrorCode::Locked => -32267,
        }
    }

    /// Whether a retry may succeed: the code lies in `-32199..=-32100`.
    pub fn is_transient(self) -> (r: bool)
        ensures
            r == transient_code(self),
    {
        let v = self.as_i32();
        -32199 <= v && v <= -32100
    }
}

/// An ADT failure.
#[derive(Debug, Clone, PartialEq, Eq)]
pub enum AdtError {
    Timeout { timeout_ms: u64 },
    DestinationDown { destination: String, reason: String },
    CsrfRefresh,
    RateLimited { retry_after_ms: u64 },
    AuthFailed(String),
    NotFound { kind: String, name: String },
    Forbidden(String),
    InvalidObjectName(String),
    InactiveObject(String),
    DataPreviewBlocked(String),
    PermissionDenied(String),
    Locked(String),
    Internal(String),
}

/// The code of each failure; an internal failure reports `Timeout`.
pub open spec fn error_code(e: AdtError) -> AdtErrorCode {
    match e {
        AdtError::Timeout { .. } => AdtErrorCode::Timeout,
        AdtError::DestinationDown { .. } => AdtErrorCode::DestinationDown,
        AdtError::CsrfRefresh => AdtErrorCode::CsrfRefresh,
        AdtError::RateLimited { .. } => AdtErrorCode::RateLimited,
        AdtError::AuthFailed(_) => AdtErrorCode::AuthFailed,
        AdtError::NotFound { .. } => AdtErrorCode::NotFound,
        AdtError::Forbidden(_) => AdtErrorCode::Forbidden,
        AdtError::InvalidObjectName(_) => AdtErrorCode::InvalidObjectName,
        AdtError::InactiveObject(_) => AdtErrorCode::InactiveObject,
        AdtError::DataPreviewBlocked(_) => AdtErrorCode::DataPreviewBlocked,
        AdtError::PermissionDenied(_) => AdtErrorCode::PermissionDenied,
        AdtError::Locked(_) => AdtErrorCode::Locked,
        AdtError::Internal(_) => AdtErrorCode::Timeout,
    }
}

/// The human-readable text of each failure.
pub open spec fn error_text(e: AdtError) -> Seq<char> {
    match e {
        AdtError::Timeout { timeout_ms } =>
            "ADT timeout after "@ + decimal(timeout_ms as nat) + " ms"@,
        AdtError::DestinationDown { destination, reason } =>
            "ADT destination '"@ + destination@ + "' unreachable: "@ + reason@,
        AdtError::CsrfRefresh => "CSRF token refresh required"@,
        AdtError::RateLimited { retry_after_ms } =>
            "rate limited; retry after "@ + decimal(retry_after_ms as nat) + " ms"@,
        AdtError::AuthFailed(s) => "authentication failed: "@ + s@,
        AdtError::NotFound { kind, name } => "object not found: "@ + kind@ + " '"@ + name@ + "'"@,
        AdtError::Forbidden(s) => "forbidden: "@ + s@,
        AdtError::InvalidObjectName(s) => "invalid object name '"@ + s@ + "'"@,
        AdtError::InactiveObject(s) => "object is inactive: "@ + s@,
        AdtError::DataPreviewBlocked(s) => "data preview blocked by SAP backend policy: "@ + s@,
        AdtError::PermissionDenied(s) => "permission denied: "@ + s@,
        AdtError::Locked(s) => "object locked: "@ + s@,
        AdtError::Internal(s) => "internal: "@ + s@,
    }
}

impl AdtError {
    /// The code this failure is reported under.
    pub fn code(&self) -> (r: AdtErrorCode)
        ensures
            r == error_code(*self),
    {
        match self {
            AdtError::Timeout { .. } => AdtErrorCode::Timeout,
            AdtError::DestinationDown { .. } => AdtErrorCode::DestinationDown,
            AdtError::CsrfRefresh => AdtErrorCode::CsrfRefresh,
            AdtError::RateLimited { .. } => AdtErrorCode::RateLimited,
            AdtError::AuthFailed(_) => AdtErrorCode::AuthFailed,
            AdtError::NotFound { .. } => AdtErrorCode::NotFound,
            AdtError::Forbidden(_) => AdtErrorCode::Forbidden,
            AdtError::InvalidObjectName(_) => AdtErrorCode::InvalidObjectName,
            AdtError::InactiveObject(_) => AdtErrorCode::InactiveObject,
            AdtError::DataPreviewBlocked(_) => AdtErrorCode::DataPreviewBlocked,
            AdtError::PermissionDenied(_) => AdtErrorCode::PermissionDenied,
            AdtError::Locked(_) => AdtErrorCode::Locked,
            AdtError::Internal(_) => AdtErrorCode::Timeout,
        }
    }

    /// Whether the failure's code is transient.
    pub fn is_transient(&self) -> (r: bool)
        ensures
            r == transient_code(error_code(*self)),
    {
        self.code().is_transient()
    }

    /// The failure's text (what `Display` shows).
    pub fn message(&self) -> (r: String)
        ensures
            r@ == error_text(*self),
    {
        match self {
            AdtError::Timeout { timeout_ms } => {
                let d = decimal_string(*timeout_ms);
                concat3("ADT timeout after ", d.as_str(), " ms")
            },
            AdtError::DestinationDown { destination, reason } => {
                let a = concat3("ADT destination '", destination.as_str(), "' unreachable: ");
                concat2(a.as_str(), reason.as_str())
            },
            AdtError::CsrfRefresh => String::from_str("CSRF token refresh required"),
            AdtError::RateLimited { retry_after_ms } => {
                let d = decimal_string(*retry_after_ms);
                concat3("rate limited; retry after ", d.as_str(), " ms")
            },
            AdtError::AuthFailed(s) => concat2("authentication failed: ", s.as_str()),
            AdtError::NotFound { kind, name } => {
                let a = concat3("object not found: ", kind.as_str(), " '");
                concat3(a.as_str(), name.as_str(), "'")
            },
            AdtError::Forbidden(s) => concat2("forbidden: ", s.as_str()),
            AdtError::InvalidObjectName(s) => concat3("invalid object name '", s.as_str(), "'"),
            AdtError::InactiveObject(s) => concat2("object is inactive: ", s.as_str()),
            AdtError::DataPreviewBlocked(s) =>
                concat2("data preview blocked by SAP backend policy: ", s.as_str()),
            AdtError::PermissionDenied(s) => concat2("permission denied: ", s.as_str()),
            AdtError::Locked(s) => concat2("object locked: ", s.as_str()),
            AdtError::Internal(s) => concat2("internal: ", s.as_str()),
        }
    }
}

} // verus!

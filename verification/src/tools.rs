//! The server's ABAP tools: which there are, which of them write, and how a failed
//! call is answered.
use vstd::prelude::*;
use crate::adt::error::{error_code, error_text, AdtError, AdtErrorCode};
use crate::mcp::protocol::{says, CallToolResult};
use crate::text::{concat3, owned};

verus! {

/// The name of each ADT error code.
pub open spec fn code_name(c: AdtErrorCode) -> Seq<char> {
    match c {
        AdtErrorCode::Timeout => "Timeout"@,
        AdtErrorCode::DestinationDown => "DestinationDown"@,
        AdtErrorCode::CsrfRefresh => "CsrfRefresh"@,
        AdtErrorCode::RateLimited => "RateLimited"@,
        AdtErrorCode::AuthFailed => "AuthFailed"@,
        AdtErrorCode::NotFound => "NotFound"@,
        AdtErrorCode::Forbidden => "Forbidden"@,
        AdtErrorCode::InvalidObjectName => "InvalidObjectName"@,
        AdtErrorCode::InactiveObject => "InactiveObject"@,
        AdtErrorCode::DataPreviewBlocked => "DataPreviewBlocked"@,
        AdtErrorCode::PermissionDenied => "PermissionDenied"@,
        AdtErrorCode::Locked => "Locked"@,
    }
}

fn code_text(c: AdtErrorCode) -> (r: &'static str)
    ensures
        r@ == code_name(c),
{
    match c {
        AdtErrorCode::Timeout => "Timeout",
        AdtErrorCode::DestinationDown => "DestinationDown",
        AdtErrorCode::CsrfRefresh => "CsrfRefresh",
        AdtErrorCode::RateLimited => "RateLimited",
        AdtErrorCode::AuthFailed => "AuthFailed",
        AdtErrorCode::NotFound => "NotFound",
        AdtErrorCode::Forbidden => "Forbidden",
        AdtErrorCode::InvalidObjectName => "InvalidObjectName",
        AdtErrorCode::InactiveObject => "InactiveObject",
        AdtErrorCode::DataPreviewBlocked => "DataPreviewBlocked",
        AdtErrorCode::PermissionDenied => "PermissionDenied",
        AdtErrorCode::Locked => "Locked",
    }
}

/// The answer to an ADT tool call that failed: the tool's name, the error's code
/// and its message, flagged as an error.
pub fn adt_tool_error(tool: &str, e: &AdtError) -> (r: CallToolResult)
    ensures
        says(r, tool@ + " ["@ + code_name(error_code(*e)) + "]: "@ + error_text(*e), true),
{
    let a = concat3(tool, " [", code_text(e.code()));
    let m = e.message();
    CallToolResult::error(concat3(a.as_str(), "]: ", m.as_str()))
}

/// The ABAP tools in the order they are registered, each with whether it changes
/// SAP state; only activation does, so a read-only deployment hides it.
pub open spec fn adt_tool_list() -> Seq<(Seq<char>, bool)> {
    seq![
        ("abap.adt.get_program"@, false),
        ("abap.adt.get_class"@, false),
        ("abap.adt.get_interface"@, false),
        ("abap.adt.get_include"@, false),
        ("abap.adt.get_function_module"@, false),
        ("abap.adt.get_package_contents"@, false),
        ("abap.adt.get_cds_view"@, false),
        ("abap.adt.search"@, false),
        ("abap.adt.where_used"@, false),
        ("abap.adt.get_table_contents"@, false),
        ("abap.adt.activate"@, true),
    ]
}

fn entry(name: &str, writes: bool) -> (r: (String, bool))
    ensures
        r.0@ == name@,
        r.1 == writes,
{
    (owned(name), writes)
}

/// The ABAP tools and whether each writes (see `adt_tool_list`).
pub fn adt_tools() -> (r: Vec<(String, bool)>)
    ensures
        r@.map_values(|e: (String, bool)| (e.0@, e.1)) == adt_tool_list(),
{
    let r = vec![
        entry("abap.adt.get_program", false),
        entry("abap.adt.get_class", false),
        entry("abap.adt.get_interface", false),
        entry("abap.adt.get_include", false),
        entry("abap.adt.get_function_module", false),
        entry("abap.adt.get_package_contents", false),
        entry("abap.adt.get_cds_view", false),
        entry("abap.adt.search", false),
        entry("abap.adt.where_used", false),
        entry("abap.adt.get_table_contents", false),
        entry("abap.adt.activate", true),
    ];
    assert(r@.map_values(|e: (String, bool)| (e.0@, e.1)) =~= adt_tool_list());
    r
}

} // verus!

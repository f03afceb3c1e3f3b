//! What the HTTP backend sends and how it reads the answers: URLs, headers, request
//! bodies, and the mapping of HTTP statuses to `AdtError`s.  Sending is left to the
//! caller, which hands back the status code and its text (e.g. `404 Not Found`).
use vstd::prelude::*;
use vstd::utf8::encode_utf8;
use crate::adt::base64::{base64, encode as base64_encode};
use crate::adt::destination::{AdtAuth, AdtDestination};
use crate::adt::error::AdtError;
use crate::adt::types::{
    kind_label, lines_in, object_path, AbapObjectKind, ActivationOutcome, ActivationRequest,
    CdsView, PackageContents, PackageMember, ProgramSource, WhereUsedRequest, line_count,
    MAX_TABLE_ROWS,
};
use crate::adt::urlencoding::{encode as url_encode, percent_encoded};
use crate::text::{
    concat2, concat3, str_eq, decimal, decimal_string, lowercase, owned, replace_all, replaced_from,
    to_lower, to_upper, trim_end_char, trim_end_matching, uppercase,
};

verus! {

/// The endpoint that hands out a CSRF token.
pub const DISCOVERY_PATH: &'static str = "/sap/bc/adt/discovery";

/// The activation endpoint.
pub const ACTIVATION_PATH: &'static str = "/sap/bc/adt/activation";

/// The package listing endpoint; it takes a form body by POST.
pub const NODESTRUCTURE_PATH: &'static str = "/sap/bc/adt/repository/nodestructure";

/// The header carrying a CSRF token, and the value that asks for one.
pub const CSRF_HEADER: &'static str = "x-csrf-token";
pub const CSRF_FETCH: &'static str = "Fetch";

/// The content type of a package listing request.
pub const FORM_CONTENT_TYPE: &'static str = "application/x-www-form-urlencoded";

/// The content type of a data preview request.
pub const PREVIEW_CONTENT_TYPE: &'static str = "text/plain; charset=utf-8";

/// The content type of an activation request.
pub const ACTIVATION_CONTENT_TYPE: &'static str = "application/xml";

/// The content type and accepted type of a usage-references request.
pub const WHERE_USED_CONTENT_TYPE: &'static str = "application/vnd.sap.adt.repository.usagereferences.request+xml";
pub const WHERE_USED_ACCEPT: &'static str = "application/vnd.sap.adt.repository.usagereferences.result+xml";

/// The body of a usage-references request: no affected objects listed, which asks
/// for every scope the user can see.
pub const WHERE_USED_BODY: &'static str = "<?xml version=\"1.0\" encoding=\"UTF-8\"?>\n<usageReferences:usageReferenceRequest xmlns:usageReferences=\"http://www.sap.com/adt/ris/usageReferences\">\n  <usageReferences:affectedObjects/>\n</usageReferences:usageReferenceRequest>";

/// Whether an HTTP status code reports success (`200..=299`).
pub open spec fn success(status: u16) -> bool {
    200 <= status < 300
}

/// A byte that may appear in a header value: visible ASCII, obs-text or tab.
pub open spec fn header_byte_ok(b: u8) -> bool {
    (b >= 32 && b != 127) || b == 9
}

/// Whether `s` is a valid header value.
pub open spec fn header_ok(s: Seq<char>) -> bool {
    forall|i: int| 0 <= i < encode_utf8(s).len() ==> header_byte_ok(#[trigger] encode_utf8(s)[i])
}

/// Calls `HeaderValue::from_str`, which accepts a string exactly when each of its
/// bytes is at least 32 and not 127, or is a tab.
#[verifier::external_body]
fn header_value_accepted(s: &str) -> (ok: bool)
    ensures
        ok == header_ok(s@),
{
    reqwest::header::HeaderValue::from_str(s).is_ok()
}

/// The error a rejected header value is reported as.
pub open spec fn is_bad_header(e: AdtError) -> bool {
    e matches AdtError::Internal(m) && m@ == "failed to parse header value"@
}

fn bad_header() -> (e: AdtError)
    ensures
        is_bad_header(e),
{
    AdtError::Internal(String::from_str("failed to parse header value"))
}

/// `path` appended to `base_url` without its trailing slashes.
pub fn endpoint_url(base_url: &str, path: &str) -> (r: String)
    ensures
        r@ == trim_end_char(base_url@, '/') + path@,
{
    let b = trim_end_matching(base_url, '/');
    concat2(b.as_str(), path)
}

/// The `Authorization` value for Basic credentials.
pub open spec fn basic_value(user: Seq<char>, password: Seq<char>) -> Seq<char> {
    "Basic "@ + base64(encode_utf8(user + ":"@ + password))
}

/// The `Authorization` value each method sends, if any.
pub open spec fn auth_value(a: AdtAuth) -> Option<Seq<char>> {
    match a {
        AdtAuth::Basic { user, password } => Some(basic_value(user@, password@)),
        AdtAuth::Bearer { token } => Some("Bearer "@ + token@),
        _ => None,
    }
}

/// Whether the HTTP client can authenticate with `a`: the mock needs nothing, Basic
/// and Bearer need a valid header value, the other methods are not supported.
pub open spec fn auth_supported(a: AdtAuth) -> bool {
    match a {
        AdtAuth::Basic { .. } | AdtAuth::Bearer { .. } => header_ok(auth_value(a)->0),
        AdtAuth::Mock => true,
        _ => false,
    }
}

/// The error for an authentication method the client cannot use.
pub open spec fn auth_error(a: AdtAuth, e: AdtError) -> bool {
    match a {
        AdtAuth::ServiceKey { .. } | AdtAuth::Certificate { .. } => e matches AdtError::Internal(m)
            && m@ == "ServiceKey / Certificate auth not yet wired (Phase 7)"@,
        _ => is_bad_header(e),
    }
}

/// The view of an optional string.
pub open spec fn opt_view(o: Option<String>) -> Option<Seq<char>> {
    match o {
        Some(s) => Some(s@),
        None => None,
    }
}

/// The `Authorization` header for `auth`: none for the mock, an error for methods
/// the HTTP client does not support.
pub fn auth_header(auth: &AdtAuth) -> (r: Result<Option<String>, AdtError>)
    ensures
        auth_supported(*auth) ==> (r matches Ok(o) && opt_view(o) == auth_value(*auth)),
        !auth_supported(*auth) ==> (r matches Err(e) && auth_error(*auth, e)),
{
    match auth {
        AdtAuth::Basic { user, password } => {
            let cred = concat3(user.as_str(), ":", password.as_str());
            let enc = base64_encode(cred.as_str());
            let v = concat2("Basic ", enc.as_str());
            if header_value_accepted(v.as_str()) {
                Ok(Some(v))
            } else {
                Err(bad_header())
            }
        },
        AdtAuth::Bearer { token } => {
            let v = concat2("Bearer ", token.as_str());
            if header_value_accepted(v.as_str()) {
                Ok(Some(v))
            } else {
                Err(bad_header())
            }
        },
        AdtAuth::ServiceKey { .. } | AdtAuth::Certificate { .. } => Err(
            AdtError::Internal(String::from_str("ServiceKey / Certificate auth not yet wired (Phase 7)")),
        ),
        AdtAuth::Mock => Ok(None),
    }
}

/// The header names and values of a header list.
pub open spec fn header_views(v: Seq<(String, String)>) -> Seq<(Seq<char>, Seq<char>)> {
    v.map_values(|h: (String, String)| (h.0@, h.1@))
}

/// The headers every request carries: `accept`, the SAP client and language, and
/// the authorization where there is one.  A client or language that is no valid
/// header value, or a failing authorization, is an error, checked in that order.
pub fn base_headers(dest: &AdtDestination) -> (r: Result<Vec<(String, String)>, AdtError>)
    ensures
        !header_ok(dest.client@) ==> (r matches Err(e) && is_bad_header(e)),
        header_ok(dest.client@) && !header_ok(dest.language@) ==> (r matches Err(e)
            && is_bad_header(e)),
        header_ok(dest.client@) && header_ok(dest.language@) && auth_supported(dest.auth) ==> (
        r matches Ok(hs) && header_views(hs@) == seq![
            ("accept"@, "*/*"@),
            ("X-SAP-Client"@, dest.client@),
            ("X-SAP-Language"@, dest.language@),
        ] + match auth_value(dest.auth) {
            Some(v) => seq![("authorization"@, v)],
            None => Seq::empty(),
        }),
        header_ok(dest.client@) && header_ok(dest.language@) && !auth_supported(dest.auth) ==> (
        r matches Err(e) && auth_error(dest.auth, e)),
{
    if !header_value_accepted(dest.client.as_str()) {
        return Err(bad_header());
    }
    if !header_value_accepted(dest.language.as_str()) {
        return Err(bad_header());
    }
    let mut h: Vec<(String, String)> = Vec::new();
    h.push((String::from_str("accept"), String::from_str("*/*")));
    h.push((String::from_str("X-SAP-Client"), owned(dest.client.as_str())));
    h.push((String::from_str("X-SAP-Language"), owned(dest.language.as_str())));
    match auth_header(&dest.auth) {
        Err(e) => Err(e),
        Ok(None) => {
            assert(header_views(h@) =~= seq![
                ("accept"@, "*/*"@),
                ("X-SAP-Client"@, dest.client@),
                ("X-SAP-Language"@, dest.language@),
            ] + Seq::<(Seq<char>, Seq<char>)>::empty());
            Ok(h)
        },
        Ok(Some(v)) => {
            let ghost vv = v@;
            h.push((String::from_str("authorization"), v));
            assert(header_views(h@) =~= seq![
                ("accept"@, "*/*"@),
                ("X-SAP-Client"@, dest.client@),
                ("X-SAP-Language"@, dest.language@),
            ] + seq![("authorization"@, vv)]);
            Ok(h)
        },
    }
}

/// How a source read answers: 401 and 403 are `Forbidden`, 404 is `NotFound`, any
/// other failure is `Internal`; the messages quote the path and the status text.
pub fn source_status(path: &str, status: u16, status_text: &str) -> (r: Result<(), AdtError>)
    ensures
        (status == 401 || status == 403) ==> (r matches Err(AdtError::Forbidden(m)) && m@ == path@
            + " -> "@ + status_text@),
        status == 404 ==> (r matches Err(AdtError::NotFound { kind, name }) && kind@ == "Object"@
            && name@ == path@),
        status != 401 && status != 403 && status != 404 && !success(status) ==> (r matches Err(
            AdtError::Internal(m),
        ) && m@ == path@ + " -> "@ + status_text@),
        success(status) ==> r is Ok,
{
    if status == 401 || status == 403 {
        Err(AdtError::Forbidden(concat3(path, " -> ", status_text)))
    } else if status == 404 {
        Err(AdtError::NotFound { kind: String::from_str("Object"), name: owned(path) })
    } else if !(200 <= status && status < 300) {
        Err(AdtError::Internal(concat3(path, " -> ", status_text)))
    } else {
        Ok(())
    }
}

/// How a package listing answers; like `source_status`, with the package named.
pub fn package_status(package: &str, status: u16, status_text: &str) -> (r: Result<(), AdtError>)
    ensures
        (status == 401 || status == 403) ==> (r matches Err(AdtError::Forbidden(m)) && m@
            == "nodestructure -> "@ + status_text@),
        status == 404 ==> (r matches Err(AdtError::NotFound { kind, name }) && kind@ == "Package"@
            && name@ == package@),
        status != 401 && status != 403 && status != 404 && !success(status) ==> (r matches Err(
            AdtError::Internal(m),
        ) && m@ == "nodestructure -> "@ + status_text@),
        success(status) ==> r is Ok,
{
    if status == 401 || status == 403 {
        Err(AdtError::Forbidden(concat2("nodestructure -> ", status_text)))
    } else if status == 404 {
        Err(AdtError::NotFound { kind: String::from_str("Package"), name: owned(package) })
    } else if !(200 <= status && status < 300) {
        Err(AdtError::Internal(concat2("nodestructure -> ", status_text)))
    } else {
        Ok(())
    }
}

/// The form body of a package listing (`POST .../repository/nodestructure`).
pub fn nodestructure_form(package: &str) -> (r: String)
    ensures
        r@ == "parent_type=DEVC%2FK&parent_name="@ + percent_encoded(encode_utf8(package@))
            + "&withShortDescriptions=true"@,
{
    let p = url_encode(package);
    concat3("parent_type=DEVC%2FK&parent_name=", p.as_str(), "&withShortDescriptions=true")
}

/// The path of a quick search.
pub fn search_path(query: &str, max_results: usize) -> (r: String)
    ensures
        r@ == "/sap/bc/adt/repository/informationsystem/search?operation=quickSearch&query="@
            + percent_encoded(encode_utf8(query@)) + "&maxResults="@ + decimal(max_results as nat),
{
    let q = url_encode(query);
    let m = decimal_string(max_results as u64);
    let a = concat3(
        "/sap/bc/adt/repository/informationsystem/search?operation=quickSearch&query=",
        q.as_str(),
        "&maxResults=",
    );
    concat2(a.as_str(), m.as_str())
}

/// The URL of a where-used query for an object.
pub fn where_used_url(base_url: &str, request: &WhereUsedRequest) -> (r: String)
    ensures
        r@ == trim_end_char(base_url@, '/')
            + "/sap/bc/adt/repository/informationsystem/usageReferences?uri="@ + percent_encoded(
            encode_utf8(object_path(request.kind, request.name@)),
        ),
{
    let obj = request.kind.adt_path(request.name.as_str());
    let u = url_encode(obj.as_str());
    let b = trim_end_matching(base_url, '/');
    concat3(b.as_str(), "/sap/bc/adt/repository/informationsystem/usageReferences?uri=", u.as_str())
}

/// How a where-used query answers: `Ok(false)` when the object does not exist (the
/// result is then empty), `Ok(true)` on success.
pub fn where_used_status(status: u16, status_text: &str) -> (r: Result<bool, AdtError>)
    ensures
        status == 404 ==> r == Ok::<bool, AdtError>(false),
        status != 404 && !success(status) ==> (r matches Err(AdtError::Internal(m)) && m@
            == "usageReferences -> "@ + status_text@),
        success(status) ==> r == Ok::<bool, AdtError>(true),
{
    if status == 404 {
        Ok(false)
    } else if !(200 <= status && status < 300) {
        Err(AdtError::Internal(concat2("usageReferences -> ", status_text)))
    } else {
        Ok(true)
    }
}

/// The path and body of a data preview of `max_rows` rows of `table`; a row count
/// outside `1..=MAX_TABLE_ROWS` is refused.
pub fn table_preview_request(table: &str, max_rows: usize) -> (r: Result<(String, String), AdtError>)
    ensures
        (max_rows == 0 || max_rows > MAX_TABLE_ROWS) ==> (r matches Err(
            AdtError::InvalidObjectName(m),
        ) && m@ == "max_rows must be in 1..=1000"@),
        1 <= max_rows <= MAX_TABLE_ROWS ==> (r matches Ok(pb) && pb.0@
            == "/sap/bc/adt/datapreview/freestyle?rowNumber="@ + decimal(max_rows as nat)
            + "&dataAging=true"@ && pb.1@ == "SELECT * FROM "@ + table@ + " "@),
{
    if max_rows == 0 || max_rows > MAX_TABLE_ROWS {
        return Err(AdtError::InvalidObjectName(String::from_str("max_rows must be in 1..=1000")));
    }
    let n = decimal_string(max_rows as u64);
    let path = concat3("/sap/bc/adt/datapreview/freestyle?rowNumber=", n.as_str(), "&dataAging=true");
    let body = concat3("SELECT * FROM ", table, " ");
    Ok((path, body))
}

/// How a data preview answers: 403 means the backend blocks previews.
pub fn table_preview_status(table: &str, status: u16, status_text: &str) -> (r: Result<(), AdtError>)
    ensures
        status == 403 ==> (r matches Err(AdtError::DataPreviewBlocked(m)) && m@
            == "ADT data preview blocked for "@ + table@ + "; fall back to sap.table.read"@),
        status != 403 && !success(status) ==> (r matches Err(AdtError::Internal(m)) && m@
            == "data preview "@ + table@ + " -> "@ + status_text@),
        success(status) ==> r is Ok,
{
    if status == 403 {
        Err(AdtError::DataPreviewBlocked(concat3(
            "ADT data preview blocked for ",
            table,
            "; fall back to sap.table.read",
        )))
    } else if !(200 <= status && status < 300) {
        let a = concat3("data preview ", table, " -> ");
        Err(AdtError::Internal(concat2(a.as_str(), status_text)))
    } else {
        Ok(())
    }
}

/// The refusal of a write in read-only mode.
pub open spec fn read_only_refusal(request: ActivationRequest, e: AdtError) -> bool {
    e matches AdtError::PermissionDenied(m) && m@ == "activate("@ + kind_label(request.kind) + " "@
        + request.name@ + ") blocked: read-only mode"@
}

/// Refuses an activation in read-only mode.
pub fn activation_gate(request: &ActivationRequest, read_only: bool) -> (r: Result<(), AdtError>)
    ensures
        read_only ==> (r matches Err(e) && read_only_refusal(*request, e)),
        !read_only ==> r is Ok,
{
    if read_only {
        let a = concat3("activate(", request.kind.label(), " ");
        Err(AdtError::PermissionDenied(concat3(a.as_str(), request.name.as_str(), ") blocked: read-only mode")))
    } else {
        Ok(())
    }
}

/// The URI segment of an activation: programs, classes and interfaces have their own.
pub open spec fn activation_segment(k: AbapObjectKind) -> Seq<char> {
    match k {
        AbapObjectKind::Program => "programs/programs"@,
        AbapObjectKind::Class => "oo/classes"@,
        AbapObjectKind::Interface => "oo/interfaces"@,
        _ => "objects"@,
    }
}

/// The XML body of an activation request.
pub fn activation_body(request: &ActivationRequest) -> (r: String)
    ensures
        r@ == "<?xml version=\"1.0\" encoding=\"UTF-8\"?><adtcore:objectReferences xmlns:adtcore=\"http://www.sap.com/adt/core\"><adtcore:objectReference adtcore:uri=\"/sap/bc/adt/"@
            + activation_segment(request.kind) + "/"@ + lowercase(request.name@)
            + "\" adtcore:name=\""@ + lowercase(request.name@) + "\"/></adtcore:objectReferences>"@,
{
    let seg = match request.kind {
        AbapObjectKind::Program => "programs/programs",
        AbapObjectKind::Class => "oo/classes",
        AbapObjectKind::Interface => "oo/interfaces",
        _ => "objects",
    };
    let name = to_lower(request.name.as_str());
    let a = concat3(
        "<?xml version=\"1.0\" encoding=\"UTF-8\"?><adtcore:objectReferences xmlns:adtcore=\"http://www.sap.com/adt/core\"><adtcore:objectReference adtcore:uri=\"/sap/bc/adt/",
        seg,
        "/",
    );
    let b = concat3(a.as_str(), name.as_str(), "\" adtcore:name=\"");
    concat3(b.as_str(), name.as_str(), "\"/></adtcore:objectReferences>")
}

/// The CSRF token an activation is sent with: the one cached from the discovery
/// call, or `CsrfRefresh` when none was handed out.
pub fn activation_token(cached: Option<String>) -> (r: Result<String, AdtError>)
    ensures
        match cached {
            Some(t) => r == Ok::<String, AdtError>(t),
            None => r == Err::<String, AdtError>(AdtError::CsrfRefresh),
        },
{
    match cached {
        Some(t) => Ok(t),
        None => Err(AdtError::CsrfRefresh),
    }
}

/// The outcome of a sent activation: activated exactly when the status is a success.
pub fn activation_outcome(request: &ActivationRequest, status: u16, status_text: &str) -> (r:
    ActivationOutcome)
    ensures
        r.name@ == uppercase(request.name@),
        r.kind == request.kind,
        r.activated == success(status),
        r.messages@.len() == 1,
        r.messages@[0]@ == "HTTP "@ + status_text@,
{
    let mut messages: Vec<String> = Vec::new();
    messages.push(concat2("HTTP ", status_text));
    ActivationOutcome {
        name: to_upper(request.name.as_str()),
        kind: request.kind,
        activated: 200 <= status && status < 300,
        messages,
    }
}

/// The source path of function module `name` in function group `group`.
pub fn function_module_path(group: &str, name: &str) -> (r: String)
    ensures
        r@ == replaced_from(
            object_path(AbapObjectKind::FunctionModule, name@),
            "{group}"@,
            lowercase(group@),
            0,
        ),
{
    let p = AbapObjectKind::FunctionModule.adt_path(name);
    let g = to_lower(group);
    proof {
        reveal_strlit("{group}");
    }
    replace_all(p.as_str(), "{group}", g.as_str())
}

/// An object read from its source endpoint: upper-cased name, active, no header data.
pub fn program_from_source(name: &str, kind: AbapObjectKind, source: String) -> (r: ProgramSource)
    ensures
        r.name@ == uppercase(name@),
        r.kind == kind,
        r.package is None,
        r.description is None,
        r.source@ == source@,
        r.active,
        r.line_count == lines_in(source@),
{
    let line_count = line_count(source.as_str());
    ProgramSource {
        name: to_upper(name),
        kind,
        package: None,
        description: None,
        source,
        active: true,
        line_count,
    }
}

/// A CDS view read from its source endpoint.
pub fn cds_from_source(name: &str, source: String) -> (r: CdsView)
    ensures
        r.name@ == uppercase(name@),
        r.root_entity@ == name@,
        r.annotations is None,
        r.source@ == source@,
        r.line_count == lines_in(source@),
{
    let line_count = line_count(source.as_str());
    CdsView { name: to_upper(name), root_entity: owned(name), annotations: None, line_count, source }
}

/// A package listing built from its parsed members.
pub fn package_from_members(package: &str, members: Vec<PackageMember>) -> (r: PackageContents)
    ensures
        r.package@ == uppercase(package@),
        r.description is None,
        r.members@ == members@,
{
    PackageContents { package: to_upper(package), description: None, members }
}

/// The object kind of an ADT type token such as `CLAS/OC`; unknown tokens read as
/// programs.
pub open spec fn kind_of_token(t: Seq<char>) -> AbapObjectKind {
    if t == "CLAS/OC"@ || t == "CLAS"@ {
        AbapObjectKind::Class
    } else if t == "INTF/OI"@ || t == "INTF"@ {
        AbapObjectKind::Interface
    } else if t == "PROG/P"@ || t == "PROG/I"@ || t == "PROG"@ {
        AbapObjectKind::Program
    } else if t == "FUGR/F"@ || t == "FUGR"@ {
        AbapObjectKind::FunctionGroup
    } else if t == "FUGR/FF"@ || t == "FUNC"@ {
        AbapObjectKind::FunctionModule
    } else if t == "DDLS/DF"@ || t == "DDLS"@ {
        AbapObjectKind::CdsView
    } else if t == "TABL/DT"@ || t == "TABL"@ {
        AbapObjectKind::Table
    } else if t == "STRU/DS"@ || t == "STRU"@ {
        AbapObjectKind::Structure
    } else if t == "DEVC/K"@ || t == "DEVC"@ {
        AbapObjectKind::Package
    } else {
        AbapObjectKind::Program
    }
}

/// The object kind of an ADT type token.
pub fn map_kind(token: &str) -> (k: AbapObjectKind)
    ensures
        k == kind_of_token(token@),
{
    if str_eq(token, "CLAS/OC") || str_eq(token, "CLAS") {
        AbapObjectKind::Class
    } else if str_eq(token, "INTF/OI") || str_eq(token, "INTF") {
        AbapObjectKind::Interface
    } else if str_eq(token, "PROG/P") || str_eq(token, "PROG/I") || str_eq(token, "PROG") {
        AbapObjectKind::Program
    } else if str_eq(token, "FUGR/F") || str_eq(token, "FUGR") {
        AbapObjectKind::FunctionGroup
    } else if str_eq(token, "FUGR/FF") || str_eq(token, "FUNC") {
        AbapObjectKind::FunctionModule
    } else if str_eq(token, "DDLS/DF") || str_eq(token, "DDLS") {
        AbapObjectKind::CdsView
    } else if str_eq(token, "TABL/DT") || str_eq(token, "TABL") {
        AbapObjectKind::Table
    } else if str_eq(token, "STRU/DS") || str_eq(token, "STRU") {
        AbapObjectKind::Structure
    } else if str_eq(token, "DEVC/K") || str_eq(token, "DEVC") {
        AbapObjectKind::Package
    } else {
        AbapObjectKind::Program
    }
}

} // verus!

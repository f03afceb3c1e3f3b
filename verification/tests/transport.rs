use sap_automate::mcp::transport::{check_auth, check_origin, Admission, HttpServerTransport, StdioTransport, StdioWriter};

#[test]
fn empty_allowlist_accepts_everything() {
    assert!(check_origin(&vec![], None));
    assert!(check_origin(&vec![], Some("http://evil.com")));
}

#[test]
fn populated_allowlist_rejects_missing_origin() {
    let allowed = vec!["http://localhost:3000".to_string()];
    assert!(!check_origin(&allowed, None), "no Origin header must be rejected when an allowlist is configured");
}

#[test]
fn populated_allowlist_accepts_matching_origin() {
    let allowed = vec!["http://localhost:3000".to_string()];
    assert!(check_origin(&allowed, Some("http://localhost:3000")));
}

#[test]
fn populated_allowlist_rejects_non_matching_origin() {
    let allowed = vec!["http://localhost:3000".to_string()];
    assert!(!check_origin(&allowed, Some("http://evil.com")));
}

#[test]
fn allowlist_is_case_sensitive_exact_match() {
    let allowed = vec!["http://Localhost:3000".to_string()];
    assert!(!check_origin(&allowed, Some("http://localhost:3000")));
}

#[test]
fn check_auth_passes_when_no_token_required() {
    assert!(check_auth(&None, None));
}

#[test]
fn check_auth_rejects_missing_bearer() {
    assert!(!check_auth(&Some("secret".to_string()), None));
}

#[test]
fn check_auth_accepts_matching_bearer() {
    assert!(check_auth(&Some("secret".to_string()), Some("Bearer secret")));
}

#[test]
fn check_auth_rejects_wrong_or_unprefixed_token() {
    assert!(!check_auth(&Some("secret".to_string()), Some("Bearer other")));
    assert!(!check_auth(&Some("secret".to_string()), Some("secret")));
}

#[test]
fn admission_checks_origin_before_token() {
    let allowed = vec!["http://localhost:3000".to_string()];
    let token = Some("secret".to_string());
    assert_eq!(HttpServerTransport::admission(&allowed, &token, Some("http://evil.com"), None), Admission::Forbidden);
    assert_eq!(HttpServerTransport::admission(&allowed, &token, Some("http://localhost:3000"), None), Admission::Unauthorized);
    assert_eq!(
        HttpServerTransport::admission(&allowed, &token, Some("http://localhost:3000"), Some("Bearer secret")),
        Admission::Admitted
    );
}

#[test]
fn refusals_carry_status_and_text() {
    assert_eq!(HttpServerTransport::refusal(Admission::Forbidden), Some((403, "origin not allowed")));
    assert_eq!(HttpServerTransport::refusal(Admission::Unauthorized), Some((401, "unauthorized")));
    assert_eq!(HttpServerTransport::refusal(Admission::Admitted), None);
}

#[test]
fn post_status_by_outcome() {
    assert_eq!(HttpServerTransport::post_status(false, false), 400);
    assert_eq!(HttpServerTransport::post_status(true, true), 200);
    assert_eq!(HttpServerTransport::post_status(true, false), 202);
}

#[test]
fn message_text_trims_and_skips_blank_lines() {
    assert_eq!(sap_automate::mcp::transport::message_text("  {\"a\":1}\r\n"), Some("{\"a\":1}".to_string()));
    assert_eq!(sap_automate::mcp::transport::message_text(" \t\n"), None);
}

#[test]
fn closed_writer_refuses_and_closes_once() {
    let t = StdioTransport::new(0u8, Vec::<u8>::new());
    assert!(t.can_receive());
    let (_r, mut w): (_, StdioWriter<Vec<u8>>) = t.into_parts();
    assert!(w.ready().is_ok());
    assert!(w.close());
    assert!(w.is_closed());
    assert!(!w.close());
    assert!(matches!(w.ready(), Err(sap_automate::mcp::error::Error::TransportClosed)));
}

use sap_automate::automate::read_only_mode;
use sap_automate::adt::error::AdtError;
use sap_automate::mcp::protocol::ToolContent;
use sap_automate::prompts::{prompt_catalog, review_rfc_call_text, review_where_used_text, transport_impact_text};
use sap_automate::tools::{adt_tool_error, adt_tools};

#[test]
fn prompts_are_listed_with_their_arguments() {
    let c = prompt_catalog();
    let names: Vec<&str> = c.iter().map(|p| p.name.as_str()).collect();
    assert_eq!(names, vec!["sap.review-rfc-call", "sap.transport-impact-analysis", "abap.review-where-used"]);
    assert_eq!(c[2].arguments[0].name, "object");
    assert!(c[2].arguments[0].required);
    assert!(!c[2].arguments[1].required);
}

#[test]
fn where_used_review_names_the_object() {
    let t = review_where_used_text(Some("ZCL_FIN_POSTER"), Some("Class"));
    assert!(t.starts_with("Before changing or deleting Class ZCL_FIN_POSTER, run abap.adt.where_used"));
    assert!(t.contains("with name=ZCL_FIN_POSTER, kind=class to enumerate"));
    assert!(t.ends_with("(sap-rfc://, sap-table://, or sap-help://)."));
    let d = review_where_used_text(None, None);
    assert!(d.starts_with("Before changing or deleting Class <OBJECT>,"));
}

#[test]
fn rfc_review_lists_function_and_parameters() {
    let t = review_rfc_call_text(Some("BAPI_ACC_DOCUMENT_POST"), "{\n  \"X\": 1\n}");
    assert!(t.contains("\n\nFunction: BAPI_ACC_DOCUMENT_POST\nParameters:\n{\n  \"X\": 1\n}\n\nIf safe,"));
    assert!(review_rfc_call_text(None, "{}").contains("Function: <UNKNOWN>"));
}

#[test]
fn transport_analysis_defaults_to_production() {
    let t = transport_impact_text(Some("ZTRA01K900123"), None);
    assert!(t.starts_with("Analyse the impact of SAP transport ZTRA01K900123 on the PRODUCTION system.\n\nSteps:\n1."));
    assert!(t.ends_with("Cite every claim by its source URI."));
}

#[test]
fn only_activation_writes() {
    let tools = adt_tools();
    assert_eq!(tools.len(), 11);
    assert_eq!(tools.iter().filter(|t| t.1).map(|t| t.0.as_str()).collect::<Vec<_>>(), vec!["abap.adt.activate"]);
}

#[test]
fn adt_failures_carry_code_and_message() {
    let r = adt_tool_error("abap.adt.get_program", &AdtError::NotFound { kind: "Object".to_string(), name: "/x".to_string() });
    assert!(r.is_error);
    assert_eq!(r.content, vec![ToolContent::Text { text: "abap.adt.get_program [NotFound]: object not found: Object '/x'".to_string() }]);
}

#[test]
fn writes_need_an_explicit_opt_in() {
    assert!(read_only_mode(false, None));
    assert!(read_only_mode(false, Some("true")));
    assert!(!read_only_mode(false, Some("1")));
    assert!(!read_only_mode(true, None));
}

use sap_automate::mcp::protocol::{CallToolResult, ElicitationAction, ToolContent};
use sap_automate::workflows::{
    argument_error, customer_fields_prompt, customer_master_outcome, customer_scope, customer_scope_refusal,
    customer_scope_required, customer_selection, purchase_order_outcome, purchase_order_required, scope_fields,
    transport_release_outcome, transport_release_required, workflow_tools, CustomerScope, CUSTOMER_MASTER_TOOL,
    PURCHASE_ORDER_TOOL, TRANSPORT_RELEASE_TOOL,
};

fn text(r: &CallToolResult) -> &str {
    match &r.content[0] {
        ToolContent::Text { text } => text.as_str(),
    }
}

#[test]
fn release_needs_the_transport_repeated() {
    let r = transport_release_outcome(
        ElicitationAction::Accept,
        Some("ZTRA01K900123"),
        Some("ZTRA01K900124"),
        Some("PRODUCTION"),
        None,
        None,
    );
    assert!(r.is_error);
    assert_eq!(text(&r), "Confirmation phrase 'ZTRA01K900124' does not match transport 'ZTRA01K900123'. Release aborted.");
}

#[test]
fn release_plan_lists_the_confirmed_fields() {
    let r = transport_release_outcome(
        ElicitationAction::Accept,
        Some("ZTRA01K900123"),
        Some("ZTRA01K900123"),
        None,
        Some(true),
        None,
    );
    assert!(!r.is_error);
    assert_eq!(
        text(&r),
        "Transport release plan confirmed (mock):\n  transport:           ZTRA01K900123\n  target_system:       QA\n  release_dependents:  true\n  skip_atc:            false\n\nNext step (when enable-writes): TMS_MGR_FORWARD_TR_REQUEST."
    );
}

#[test]
fn release_declined_or_cancelled() {
    let d = transport_release_outcome(ElicitationAction::Decline, None, None, None, None, None);
    assert!(!d.is_error);
    assert_eq!(text(&d), "Transport release declined; no action taken.");
    let c = transport_release_outcome(ElicitationAction::Cancel, Some("X"), Some("X"), None, None, None);
    assert!(c.is_error);
    assert!(text(&c).starts_with("Transport release cancelled (client lacks elicitation capability"));
    assert_eq!(transport_release_required(), vec!["transport", "target_system", "confirmation_phrase"]);
}

#[test]
fn empty_release_form_matches_trivially() {
    let r = transport_release_outcome(ElicitationAction::Accept, None, None, None, None, None);
    assert!(!r.is_error);
    assert!(text(&r).contains("target_system:       QA"));
}

#[test]
fn purchase_order_outcomes() {
    let a = purchase_order_outcome(ElicitationAction::Accept, "{\n  \"vendor\": \"V-100100\"\n}");
    assert!(!a.is_error);
    assert_eq!(
        text(&a),
        "Purchase order confirmed (mock execution; no real BAPI fired):\n\n{\n  \"vendor\": \"V-100100\"\n}\n\nNext step (when enable-writes): sap.rfc.call BAPI_PO_CREATE1."
    );
    assert_eq!(text(&purchase_order_outcome(ElicitationAction::Decline, "")), "Purchase order cancelled by user (declined elicitation).");
    assert!(purchase_order_outcome(ElicitationAction::Cancel, "").is_error);
    assert_eq!(purchase_order_required().len(), 6);
    assert_eq!(PURCHASE_ORDER_TOOL, "sap.workflow.create_purchase_order");
}

#[test]
fn customer_master_two_steps() {
    assert!(customer_scope_refusal(ElicitationAction::Accept).is_none());
    let refused = customer_scope_refusal(ElicitationAction::Decline).unwrap();
    assert!(refused.is_error);
    assert_eq!(text(&refused), "Customer master maintenance cancelled at scope selection.");
    assert_eq!(customer_scope_required(), vec!["customer", "scope"]);
    let (customer, scope) = customer_selection(Some("C-1"), None);
    assert_eq!((customer.as_str(), scope.as_str()), ("C-1", "general_data"));
    assert_eq!(customer_scope(&scope), CustomerScope::GeneralData);
    assert_eq!(customer_scope("sales_area_data"), CustomerScope::SalesAreaData);
    assert_eq!(customer_scope("other"), CustomerScope::Other);
    assert!(scope_fields(CustomerScope::CompanyCodeData).contains("recon_account"));
    assert_eq!(scope_fields(CustomerScope::Other), "{}");
    let fields: serde_json::Value = serde_json::from_str(scope_fields(CustomerScope::GeneralData)).unwrap();
    assert_eq!(fields["country"]["enum"][0], "DE");
    assert_eq!(
        customer_fields_prompt("C-1", "general_data"),
        "Enter new values for customer C-1 (general_data view). Leave fields blank to keep current values."
    );
    let done = customer_master_outcome(ElicitationAction::Accept, "C-1", "general_data", "{}");
    assert_eq!(
        text(&done),
        "Customer master change confirmed (mock):\n  customer: C-1\n  scope:    general_data\n  changes:\n{}\n\nNext step (when enable-writes): sap.rfc.call BAPI_CUSTOMER_CHANGEFROMDATA."
    );
    assert!(customer_master_outcome(ElicitationAction::Cancel, "", "", "").is_error);
    assert!(!customer_master_outcome(ElicitationAction::Decline, "", "", "").is_error);
}

#[test]
fn unparsable_arguments_name_the_tool() {
    let r = argument_error("sap.workflow.release_transport", "invalid type: integer");
    assert!(r.is_error);
    assert_eq!(text(&r), "sap.workflow.release_transport: invalid type: integer");
}

#[test]
fn every_workflow_tool_is_registered_as_writing() {
    let tools = workflow_tools();
    assert_eq!(
        tools,
        vec![
            (PURCHASE_ORDER_TOOL.to_string(), true),
            (CUSTOMER_MASTER_TOOL.to_string(), true),
            (TRANSPORT_RELEASE_TOOL.to_string(), true),
        ]
    );
    assert_eq!(tools[1].0, "sap.workflow.maintain_customer_master");
}

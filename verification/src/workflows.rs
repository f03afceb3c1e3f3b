//! Guided workflows: tools that ask the user to confirm a change through an
//! elicitation form before anything is posted. Each function here decides what a
//! step answers from what the user submitted; asking is left to the caller.
use vstd::prelude::*;
use crate::mcp::protocol::{says, CallToolResult, ElicitationAction};
use crate::mcp::transport::opt_str;
use crate::text::{concat3, owned, str_eq};

verus! {

/// `o`, or `d` when absent.
pub open spec fn or_text(o: Option<Seq<char>>, d: Seq<char>) -> Seq<char> {
    match o {
        Some(s) => s,
        None => d,
    }
}

/// The word for a boolean.
pub open spec fn bool_word(b: bool) -> Seq<char> {
    if b { "true"@ } else { "false"@ }
}

fn bool_text(b: bool) -> (r: &'static str)
    ensures
        r@ == bool_word(b),
{
    if b { "true" } else { "false" }
}

fn text_or<'a>(o: Option<&'a str>, d: &'a str) -> (r: &'a str)
    ensures
        r@ == or_text(opt_str(o), d@),
{
    match o {
        Some(s) => s,
        None => d,
    }
}

/// The answer to arguments that do not parse: the tool's name and the parser's text.
pub fn argument_error(tool: &str, detail: &str) -> (r: CallToolResult)
    ensures
        says(r, tool@ + ": "@ + detail@, true),
{
    CallToolResult::error(concat3(tool, ": ", detail))
}

// ---------------------------------------------------------------------------
// purchase order
// ---------------------------------------------------------------------------

/// The purchase-order tool's name.
pub const PURCHASE_ORDER_TOOL: &'static str = "sap.workflow.create_purchase_order";

/// What the purchase-order form asks.
pub const PURCHASE_ORDER_PROMPT: &'static str =
    "Confirm purchase-order details before posting. Cost centre + delivery date are mandatory.";

/// The fields the purchase-order form requires.
pub fn purchase_order_required() -> (r: Vec<String>)
    ensures
        r@.len() == 6,
        r@[0]@ == "vendor"@,
        r@[1]@ == "material"@,
        r@[2]@ == "quantity"@,
        r@[3]@ == "cost_centre"@,
        r@[4]@ == "company_code"@,
        r@[5]@ == "delivery_date"@,
{
    vec![
        owned("vendor"),
        owned("material"),
        owned("quantity"),
        owned("cost_centre"),
        owned("company_code"),
        owned("delivery_date"),
    ]
}

/// The answer once the user has answered the purchase-order form;
/// `content_pretty` is the submitted form as indented JSON text.
pub fn purchase_order_outcome(action: ElicitationAction, content_pretty: &str) -> (r: CallToolResult)
    ensures
        match action {
            ElicitationAction::Accept => says(
                r,
                "Purchase order confirmed (mock execution; no real BAPI fired):\n\n"@ + content_pretty@
                    + "\n\nNext step (when enable-writes): sap.rfc.call BAPI_PO_CREATE1."@,
                false,
            ),
            ElicitationAction::Decline => says(r, "Purchase order cancelled by user (declined elicitation)."@, false),
            ElicitationAction::Cancel => says(
                r,
                "Purchase order cancelled (user aborted or elicitation unavailable). No action taken."@,
                true,
            ),
        },
{
    match action {
        ElicitationAction::Accept => CallToolResult::text(
            concat3(
                "Purchase order confirmed (mock execution; no real BAPI fired):\n\n",
                content_pretty,
                "\n\nNext step (when enable-writes): sap.rfc.call BAPI_PO_CREATE1.",
            ),
        ),
        ElicitationAction::Decline => CallToolResult::text(
            owned("Purchase order cancelled by user (declined elicitation)."),
        ),
        ElicitationAction::Cancel => CallToolResult::error(
            owned("Purchase order cancelled (user aborted or elicitation unavailable). No action taken."),
        ),
    }
}

// ---------------------------------------------------------------------------
// customer master
// ---------------------------------------------------------------------------

/// The customer-master tool's name.
pub const CUSTOMER_MASTER_TOOL: &'static str = "sap.workflow.maintain_customer_master";

/// What the first customer-master form asks.
pub const CUSTOMER_SCOPE_PROMPT: &'static str = "Select customer and which data view to maintain.";

/// The data view of a customer to maintain.
#[derive(Debug, Clone, Copy, PartialEq, Eq, Structural)]
pub enum CustomerScope {
    GeneralData,
    CompanyCodeData,
    SalesAreaData,
    /// A view the tool does not know: its form has no fields.
    Other,
}

/// The view a scope name selects.
pub open spec fn scope_of(name: Seq<char>) -> CustomerScope {
    if name == "general_data"@ {
        CustomerScope::GeneralData
    } else if name == "company_code_data"@ {
        CustomerScope::CompanyCodeData
    } else if name == "sales_area_data"@ {
        CustomerScope::SalesAreaData
    } else {
        CustomerScope::Other
    }
}

/// The view a scope name selects (see `scope_of`).
pub fn customer_scope(name: &str) -> (s: CustomerScope)
    ensures
        s == scope_of(name@),
{
    if str_eq(name, "general_data") {
        CustomerScope::GeneralData
    } else if str_eq(name, "company_code_data") {
        CustomerScope::CompanyCodeData
    } else if str_eq(name, "sales_area_data") {
        CustomerScope::SalesAreaData
    } else {
        CustomerScope::Other
    }
}

/// The fields the first customer-master form requires.
pub fn customer_scope_required() -> (r: Vec<String>)
    ensures
        r@.len() == 2,
        r@[0]@ == "customer"@,
        r@[1]@ == "scope"@,
{
    vec![owned("customer"), owned("scope")]
}

/// The answer when the first form is not accepted; `None` when the workflow goes on.
pub fn customer_scope_refusal(action: ElicitationAction) -> (r: Option<CallToolResult>)
    ensures
        action == ElicitationAction::Accept <==> r is None,
        r matches Some(x) ==> says(x, "Customer master maintenance cancelled at scope selection."@, true),
{
    match action {
        ElicitationAction::Accept => None,
        _ => Some(CallToolResult::error(owned("Customer master maintenance cancelled at scope selection."))),
    }
}

/// The customer and scope picked in the first form, with an empty customer and
/// `general_data` for what the form left out.
pub fn customer_selection(customer: Option<&str>, scope: Option<&str>) -> (r: (String, String))
    ensures
        r.0@ == or_text(opt_str(customer), ""@),
        r.1@ == or_text(opt_str(scope), "general_data"@),
{
    (owned(text_or(customer, "")), owned(text_or(scope, "general_data")))
}

/// The JSON text of the properties the second form asks for, per view.
pub fn scope_fields(scope: CustomerScope) -> (r: &'static str)
    ensures
        r@ == match scope {
            CustomerScope::GeneralData => "{\"name1\":{\"type\":\"string\",\"description\":\"Name 1\"},\"city\":{\"type\":\"string\",\"description\":\"City\"},\"country\":{\"type\":\"string\",\"description\":\"Country (ISO-2)\",\"enum\":[\"DE\",\"US\",\"GB\",\"JP\",\"SG\"]}}"@,
            CustomerScope::CompanyCodeData => "{\"recon_account\":{\"type\":\"string\",\"description\":\"Reconciliation account (HKONT), e.g. 140000\"},\"payment_terms\":{\"type\":\"string\",\"description\":\"Payment terms (ZTERM)\"},\"dunning_area\":{\"type\":\"string\",\"description\":\"Dunning area\"}}"@,
            CustomerScope::SalesAreaData => "{\"sales_org\":{\"type\":\"string\",\"description\":\"Sales organisation\"},\"distribution_channel\":{\"type\":\"string\",\"description\":\"Distribution channel\"},\"division\":{\"type\":\"string\",\"description\":\"Division\"},\"incoterms\":{\"type\":\"string\",\"enum\":[\"EXW\",\"FCA\",\"CIF\",\"DAP\",\"DDP\"]}}"@,
            CustomerScope::Other => "{}"@,
        },
{
    match scope {
        CustomerScope::GeneralData => "{\"name1\":{\"type\":\"string\",\"description\":\"Name 1\"},\"city\":{\"type\":\"string\",\"description\":\"City\"},\"country\":{\"type\":\"string\",\"description\":\"Country (ISO-2)\",\"enum\":[\"DE\",\"US\",\"GB\",\"JP\",\"SG\"]}}",
        CustomerScope::CompanyCodeData => "{\"recon_account\":{\"type\":\"string\",\"description\":\"Reconciliation account (HKONT), e.g. 140000\"},\"payment_terms\":{\"type\":\"string\",\"description\":\"Payment terms (ZTERM)\"},\"dunning_area\":{\"type\":\"string\",\"description\":\"Dunning area\"}}",
        CustomerScope::SalesAreaData => "{\"sales_org\":{\"type\":\"string\",\"description\":\"Sales organisation\"},\"distribution_channel\":{\"type\":\"string\",\"description\":\"Distribution channel\"},\"division\":{\"type\":\"string\",\"description\":\"Division\"},\"incoterms\":{\"type\":\"string\",\"enum\":[\"EXW\",\"FCA\",\"CIF\",\"DAP\",\"DDP\"]}}",
        CustomerScope::Other => "{}",
    }
}

/// What the second customer-master form asks.
pub fn customer_fields_prompt(customer: &str, scope: &str) -> (r: String)
    ensures
        r@ == "Enter new values for customer "@ + customer@ + " ("@ + scope@
            + " view). Leave fields blank to keep current values."@,
{
    let a = concat3("Enter new values for customer ", customer, " (");
    concat3(a.as_str(), scope, " view). Leave fields blank to keep current values.")
}

/// The answer once the user has answered the second form; `changes_pretty` is
/// the submitted form as indented JSON text.
pub fn customer_master_outcome(action: ElicitationAction, customer: &str, scope: &str, changes_pretty: &str) -> (r:
    CallToolResult)
    ensures
        match action {
            ElicitationAction::Accept => says(
                r,
                "Customer master change confirmed (mock):\n  customer: "@ + customer@ + "\n  scope:    "@ + scope@
                    + "\n  changes:\n"@ + changes_pretty@
                    + "\n\nNext step (when enable-writes): sap.rfc.call BAPI_CUSTOMER_CHANGEFROMDATA."@,
                false,
            ),
            ElicitationAction::Decline => says(r, "Customer master change declined; no action taken."@, false),
            ElicitationAction::Cancel => says(r, "Customer master cancelled."@, true),
        },
{
    match action {
        ElicitationAction::Accept => {
            let a = concat3("Customer master change confirmed (mock):\n  customer: ", customer, "\n  scope:    ");
            let b = concat3(a.as_str(), scope, "\n  changes:\n");
            let c = concat3(
                b.as_str(),
                changes_pretty,
                "\n\nNext step (when enable-writes): sap.rfc.call BAPI_CUSTOMER_CHANGEFROMDATA.",
            );
            CallToolResult::text(c)
        },
        ElicitationAction::Decline => CallToolResult::text(owned("Customer master change declined; no action taken.")),
        ElicitationAction::Cancel => CallToolResult::error(owned("Customer master cancelled.")),
    }
}

// ---------------------------------------------------------------------------
// transport release
// ---------------------------------------------------------------------------

/// The transport-release tool's name.
pub const TRANSPORT_RELEASE_TOOL: &'static str = "sap.workflow.release_transport";

/// What the transport-release form asks.
pub const TRANSPORT_RELEASE_PROMPT: &'static str =
    "Transport release is irreversible in production. Confirm details and re-enter the transport ID to proceed.";

/// The transport-release answer, for each way the user can answer the form.
/// Of an accepted form, absent fields read as an empty transport and phrase,
/// target `QA`, and no dependents or ATC skip.
pub open spec fn release_answer(
    action: ElicitationAction,
    transport: Option<Seq<char>>,
    phrase: Option<Seq<char>>,
    target: Option<Seq<char>>,
    release_dependents: Option<bool>,
    skip_atc: Option<bool>,
) -> (Seq<char>, bool) {
    let tr = or_text(transport, ""@);
    let ph = or_text(phrase, ""@);
    match action {
        ElicitationAction::Accept => if tr != ph {
            ("Confirmation phrase '"@ + ph + "' does not match transport '"@ + tr + "'. Release aborted."@, true)
        } else {
            (
                "Transport release plan confirmed (mock):\n  transport:           "@ + tr
                    + "\n  target_system:       "@ + or_text(target, "QA"@) + "\n  release_dependents:  "@
                    + bool_word(release_dependents.unwrap_or(false)) + "\n  skip_atc:            "@
                    + bool_word(skip_atc.unwrap_or(false))
                    + "\n\nNext step (when enable-writes): TMS_MGR_FORWARD_TR_REQUEST."@,
                false,
            )
        },
        ElicitationAction::Decline => ("Transport release declined; no action taken."@, false),
        ElicitationAction::Cancel => (
            "Transport release cancelled (client lacks elicitation capability \u{2014} refusing to proceed without confirmation)."@,
            true,
        ),
    }
}

/// The answer once the user has answered the transport-release form. The plan is
/// confirmed only when the form is accepted and the confirmation phrase repeats the
/// transport ID.
pub fn transport_release_outcome(
    action: ElicitationAction,
    transport: Option<&str>,
    phrase: Option<&str>,
    target: Option<&str>,
    release_dependents: Option<bool>,
    skip_atc: Option<bool>,
) -> (r: CallToolResult)
    ensures
        ({
            let a = release_answer(
                action,
                opt_str(transport),
                opt_str(phrase),
                opt_str(target),
                release_dependents,
                skip_atc,
            );
            says(r, a.0, a.1)
        }),
        !r.is_error ==> action != ElicitationAction::Cancel,
        (action == ElicitationAction::Accept && !r.is_error) ==> or_text(opt_str(transport), ""@) == or_text(
            opt_str(phrase),
            ""@,
        ),
{
    match action {
        ElicitationAction::Accept => {
            let tr = text_or(transport, "");
            let ph = text_or(phrase, "");
            if !str_eq(tr, ph) {
                let a = concat3("Confirmation phrase '", ph, "' does not match transport '");
                CallToolResult::error(concat3(a.as_str(), tr, "'. Release aborted."))
            } else {
                let tg = text_or(target, "QA");
                let rd = match release_dependents {
                    Some(b) => b,
                    None => false,
                };
                let sk = match skip_atc {
                    Some(b) => b,
                    None => false,
                };
                let a = concat3("Transport release plan confirmed (mock):\n  transport:           ", tr, "\n  target_system:       ");
                let b = concat3(a.as_str(), tg, "\n  release_dependents:  ");
                let c = concat3(b.as_str(), bool_text(rd), "\n  skip_atc:            ");
                let d = concat3(
                    c.as_str(),
                    bool_text(sk),
                    "\n\nNext step (when enable-writes): TMS_MGR_FORWARD_TR_REQUEST.",
                );
                CallToolResult::text(d)
            }
        },
        ElicitationAction::Decline => CallToolResult::text(owned("Transport release declined; no action taken.")),
        ElicitationAction::Cancel => CallToolResult::error(
            owned(
                "Transport release cancelled (client lacks elicitation capability \u{2014} refusing to proceed without confirmation).",
            ),
        ),
    }
}

/// The fields the transport-release form requires.
pub fn transport_release_required() -> (r: Vec<String>)
    ensures
        r@.len() == 3,
        r@[0]@ == "transport"@,
        r@[1]@ == "target_system"@,
        r@[2]@ == "confirmation_phrase"@,
{
    vec![owned("transport"), owned("target_system"), owned("confirmation_phrase")]
}

// ---------------------------------------------------------------------------
// registration
// ---------------------------------------------------------------------------

/// The workflow tools in the order they are registered, each with whether it
/// changes SAP state: every workflow posts a change once the user confirms it.
pub open spec fn workflow_tool_list() -> Seq<(Seq<char>, bool)> {
    seq![(PURCHASE_ORDER_TOOL@, true), (CUSTOMER_MASTER_TOOL@, true), (TRANSPORT_RELEASE_TOOL@, true)]
}

/// The workflow tools and whether each writes (see `workflow_tool_list`).
pub fn workflow_tools() -> (r: Vec<(String, bool)>)
    ensures
        r@.map_values(|e: (String, bool)| (e.0@, e.1)) == workflow_tool_list(),
{
    let r = vec![
        (owned(PURCHASE_ORDER_TOOL), true),
        (owned(CUSTOMER_MASTER_TOOL), true),
        (owned(TRANSPORT_RELEASE_TOOL), true),
    ];
    assert(r@.map_values(|e: (String, bool)| (e.0@, e.1)) =~= workflow_tool_list());
    r
}

} // verus!

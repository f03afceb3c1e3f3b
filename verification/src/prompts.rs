//! The server's prompt templates: what each prompt is called and takes, and the
//! text it renders from its arguments.
use vstd::prelude::*;
use crate::text::{concat3, lowercase, owned, to_lower};

verus! {

/// One argument a prompt takes.
#[derive(Debug, Clone, PartialEq, Eq)]
pub struct PromptArgument {
    pub name: String,
    pub description: Option<String>,
    pub required: bool,
}

/// A prompt as listed: its name, description and arguments.
#[derive(Debug, Clone, PartialEq, Eq)]
pub struct PromptInfo {
    pub name: String,
    pub description: Option<String>,
    pub arguments: Vec<PromptArgument>,
}

/// An argument as text: name, description and whether it is required.
pub open spec fn argument_text(a: PromptArgument) -> (Seq<char>, Option<Seq<char>>, bool) {
    (a.name@, match a.description { Some(d) => Some(d@), None => None }, a.required)
}

/// A prompt as text: name, description and arguments.
pub open spec fn prompt_text(p: PromptInfo) -> (Seq<char>, Option<Seq<char>>, Seq<(Seq<char>, Option<Seq<char>>, bool)>) {
    (
        p.name@,
        match p.description { Some(d) => Some(d@), None => None },
        p.arguments@.map_values(|a: PromptArgument| argument_text(a)),
    )
}

/// The prompts, in the order they are registered.
pub open spec fn catalog() -> Seq<(Seq<char>, Option<Seq<char>>, Seq<(Seq<char>, Option<Seq<char>>, bool)>)> {
    seq![
        (
            "sap.review-rfc-call"@,
            Some("Pre-flight review of a proposed sap.rfc.call invocation."@),
            seq![("function"@, Some("RFC function name"@), true), ("parameters"@, Some("Parameters object"@), false)],
        ),
        (
            "sap.transport-impact-analysis"@,
            Some("Multi-tool cross-domain impact analysis for an SAP transport."@),
            seq![
                ("transport"@, Some("Transport ID (e.g. ZTRA01K900123)"@), true),
                ("scope"@, Some("Target system (PRODUCTION / QA / DEV)"@), false),
            ],
        ),
        (
            "abap.review-where-used"@,
            Some("Walk the agent through a where-used analysis before changing an ABAP object."@),
            seq![
                ("object"@, Some("Object name"@), true),
                ("kind"@, Some("Object kind (class | interface | program | ...)"@), false),
            ],
        ),
    ]
}

fn argument(name: &str, description: &str, required: bool) -> (a: PromptArgument)
    ensures
        argument_text(a) == (name@, Some(description@), required),
{
    PromptArgument { name: owned(name), description: Some(owned(description)), required }
}

fn prompt(name: &str, description: &str, arguments: Vec<PromptArgument>) -> (p: PromptInfo)
    ensures
        p.name@ == name@,
        p.description matches Some(d) && d@ == description@,
        p.arguments == arguments,
{
    PromptInfo { name: owned(name), description: Some(owned(description)), arguments }
}

/// The prompts the server registers (see `catalog`).
pub fn prompt_catalog() -> (r: Vec<PromptInfo>)
    ensures
        r@.map_values(|p: PromptInfo| prompt_text(p)) == catalog(),
{
    let rfc = prompt(
        "sap.review-rfc-call",
        "Pre-flight review of a proposed sap.rfc.call invocation.",
        vec![argument("function", "RFC function name", true), argument("parameters", "Parameters object", false)],
    );
    let transport = prompt(
        "sap.transport-impact-analysis",
        "Multi-tool cross-domain impact analysis for an SAP transport.",
        vec![
            argument("transport", "Transport ID (e.g. ZTRA01K900123)", true),
            argument("scope", "Target system (PRODUCTION / QA / DEV)", false),
        ],
    );
    let where_used = prompt(
        "abap.review-where-used",
        "Walk the agent through a where-used analysis before changing an ABAP object.",
        vec![
            argument("object", "Object name", true),
            argument("kind", "Object kind (class | interface | program | ...)", false),
        ],
    );
    proof {
        assert(rfc.arguments@.map_values(|a: PromptArgument| argument_text(a)) =~= catalog()[0].2);
        assert(transport.arguments@.map_values(|a: PromptArgument| argument_text(a)) =~= catalog()[1].2);
        assert(where_used.arguments@.map_values(|a: PromptArgument| argument_text(a)) =~= catalog()[2].2);
    }
    let r = vec![rfc, transport, where_used];
    assert(r@.map_values(|p: PromptInfo| prompt_text(p)) =~= catalog());
    r
}

/// `o`, or `d` when absent.
pub open spec fn or_default(o: Option<&str>, d: Seq<char>) -> Seq<char> {
    match o {
        Some(s) => s@,
        None => d,
    }
}

fn or_text<'a>(o: Option<&'a str>, d: &'a str) -> (r: &'a str)
    ensures
        r@ == or_default(o, d@),
{
    match o {
        Some(s) => s,
        None => d,
    }
}

/// The text of the where-used review for `object` of `kind` (`<OBJECT>` and `Class`
/// when not given); the kind is named as given, then lower-cased in the tool call.
pub open spec fn where_used_text(object: Seq<char>, kind: Seq<char>) -> Seq<char> {
    "Before changing or deleting "@ + kind + " "@ + object + ", run abap.adt.where_used and reason carefully about the impact.\n\nSteps:\n1. Call abap.adt.where_used with name="@ + object + ", kind="@ + lowercase(kind)
        + " to enumerate every caller / implementer / include site.\n2. For each hit, group by ownership (package, application) using abap.adt.get_package_contents on the parent.\n3. Identify which of those callers are themselves on a hot path (use abap.docs.search to cross-reference business processes via BPMN).\n4. Produce a 3-section report: Direct callers, Indirect dependents, Recommended pre-change checks (regression tests, transports to coordinate).\n\nCite every claim by its source URI (sap-rfc://, sap-table://, or sap-help://)."@
}

/// Renders the where-used review.
pub fn review_where_used_text(object: Option<&str>, kind: Option<&str>) -> (r: String)
    ensures
        r@ == where_used_text(or_default(object, "<OBJECT>"@), or_default(kind, "Class"@)),
{
    let o = or_text(object, "<OBJECT>");
    let k = or_text(kind, "Class");
    let low = to_lower(k);
    let a = concat3("Before changing or deleting ", k, " ");
    let b = concat3(a.as_str(), o, ", run abap.adt.where_used and reason carefully about the impact.\n\nSteps:\n1. Call abap.adt.where_used with name=");
    let c = concat3(b.as_str(), o, ", kind=");
    concat3(c.as_str(), low.as_str(), " to enumerate every caller / implementer / include site.\n2. For each hit, group by ownership (package, application) using abap.adt.get_package_contents on the parent.\n3. Identify which of those callers are themselves on a hot path (use abap.docs.search to cross-reference business processes via BPMN).\n4. Produce a 3-section report: Direct callers, Indirect dependents, Recommended pre-change checks (regression tests, transports to coordinate).\n\nCite every claim by its source URI (sap-rfc://, sap-table://, or sap-help://).")
}

/// What a rendered where-used review is described as.
pub const WHERE_USED_RESULT: &'static str = "Where-used review before changing or deleting an ABAP object.";

/// The text of the RFC call review of `function` with its parameters as indented
/// JSON text.
pub open spec fn rfc_call_text(function: Seq<char>, parameters: Seq<char>) -> Seq<char> {
    "Review the following proposed SAP RFC call before execution. Confirm it is the right function for the user's intent, that every required parameter is present and well-typed, that the parameter values are realistic for the target system, and that the side-effects are acceptable. Cite the source for each claim.\n\nFunction: "@ + function + "\nParameters:\n"@ + parameters + "\n\nIf safe, summarise what the call will do, the affected tables, and the user-visible result. If unsafe, identify the specific risk and propose a safer alternative."@
}

/// Renders the RFC call review (`<UNKNOWN>` when no function is given);
/// `parameters_pretty` is the parameters object as indented JSON text (`{}` when
/// none are given).
pub fn review_rfc_call_text(function: Option<&str>, parameters_pretty: &str) -> (r: String)
    ensures
        r@ == rfc_call_text(or_default(function, "<UNKNOWN>"@), parameters_pretty@),
{
    let f = or_text(function, "<UNKNOWN>");
    let a = concat3("Review the following proposed SAP RFC call before execution. Confirm it is the right function for the user's intent, that every required parameter is present and well-typed, that the parameter values are realistic for the target system, and that the side-effects are acceptable. Cite the source for each claim.\n\nFunction: ", f, "\nParameters:\n");
    concat3(a.as_str(), parameters_pretty, "\n\nIf safe, summarise what the call will do, the affected tables, and the user-visible result. If unsafe, identify the specific risk and propose a safer alternative.")
}

/// What a rendered RFC call review is described as.
pub const RFC_CALL_RESULT: &'static str = "Pre-execution review of a proposed sap.rfc.call";

/// The text of the impact analysis of `transport` on the `scope` system.
pub open spec fn transport_text(transport: Seq<char>, scope: Seq<char>) -> Seq<char> {
    "Analyse the impact of SAP transport "@ + transport + " on the "@ + scope + " system.\n\nSteps:\n1. Use sap.docs.search to find any related Help Portal content for the objects in the transport.\n2. Use sap.rfc.search to find the RFCs that reference any modified ABAP objects.\n3. Use sap.table.read on E070/E071 to enumerate transport contents.\n4. Use eam.impact_map (when LeanIX is wired) to enumerate downstream applications.\n5. Produce a 3-section report: Direct impact, Indirect impact, Recommended pre-import checks.\n\nCite every claim by its source URI."@
}

/// Renders the transport impact analysis (`<TRANSPORT>` and `PRODUCTION` when not
/// given).
pub fn transport_impact_text(transport: Option<&str>, scope: Option<&str>) -> (r: String)
    ensures
        r@ == transport_text(or_default(transport, "<TRANSPORT>"@), or_default(scope, "PRODUCTION"@)),
{
    let t = or_text(transport, "<TRANSPORT>");
    let s = or_text(scope, "PRODUCTION");
    let a = concat3("Analyse the impact of SAP transport ", t, " on the ");
    concat3(a.as_str(), s, " system.\n\nSteps:\n1. Use sap.docs.search to find any related Help Portal content for the objects in the transport.\n2. Use sap.rfc.search to find the RFCs that reference any modified ABAP objects.\n3. Use sap.table.read on E070/E071 to enumerate transport contents.\n4. Use eam.impact_map (when LeanIX is wired) to enumerate downstream applications.\n5. Produce a 3-section report: Direct impact, Indirect impact, Recommended pre-import checks.\n\nCite every claim by its source URI.")
}

/// What a rendered impact analysis is described as.
pub const TRANSPORT_RESULT: &'static str = "Cross-domain impact analysis for an SAP transport";

} // verus!

//! The SAP-Automate server's own settings and texts: test-harness options, the
//! exposure a deployment gets, the instructions sent to clients, argument
//! defaults, benchmark workloads, and the gateway's intent routing.
use vstd::prelude::*;
use crate::channels::{scheme_of, ChannelKind};
use crate::mcp::registry::ExposurePolicy;
use crate::text::{concat2, concat3, contains, contains_seq, decimal, decimal_string, lowercase, owned, push_char, str_eq, to_lower};

verus! {

/// How the test harness builds a server.
#[derive(Debug, Clone, PartialEq, Eq)]
pub struct TestServerOptions {
    pub read_only: bool,
    /// Lifetime of cached RFC metadata, in seconds.
    pub metadata_cache_ttl_secs: u64,
    pub seed_kb: bool,
    pub embedding_dim: usize,
    pub agents_md: Option<String>,
}

impl Default for TestServerOptions {
    fn default() -> (o: TestServerOptions)
        ensures
            o.read_only,
            o.metadata_cache_ttl_secs == 300,
            !o.seed_kb,
            o.embedding_dim == 64,
            o.agents_md is None,
    {
        TestServerOptions { read_only: true, metadata_cache_ttl_secs: 300, seed_kb: false, embedding_dim: 64, agents_md: None }
    }
}

/// Whether the server runs read-only: unless writes are enabled on the command
/// line or the environment variable `SAP_AUTOMATE_ENABLE_WRITES` (whose value is
/// `env_value`) is exactly `1`.
pub fn read_only_mode(enable_writes: bool, env_value: Option<&str>) -> (r: bool)
    ensures
        r == (!enable_writes && !(env_value matches Some(v) && v@ == "1"@)),
{
    if enable_writes {
        return false;
    }
    match env_value {
        Some(v) => !str_eq(v, "1"),
        None => true,
    }
}

/// A read-only deployment offers only read-only tools; otherwise every tool.
pub fn exposure_for(read_only: bool) -> (p: ExposurePolicy)
    ensures
        read_only ==> p == ExposurePolicy::ReadOnlyOnly,
        !read_only ==> p == ExposurePolicy::All,
{
    if read_only { ExposurePolicy::ReadOnlyOnly } else { ExposurePolicy::All }
}

/// The tool, resource and prompt overview every instruction text starts with.
pub open spec fn overview() -> Seq<char> {
    "SAP-Automate MCP server (Phase 2 + ADT). Tool groups:\n- RAG search: abap.search, bpmn.find_process, eam.search_apps, sap.help.search, sap.docs.search.\n- RFC + tables: sap.system.info, sap.system.health, sap.system.cache_stats, sap.system.cache_invalidate, sap.rfc.search, sap.rfc.metadata, sap.rfc.bulk_metadata, sap.rfc.call, sap.table.read, sap.table.structure.\n- ABAP ADT (read-only): abap.adt.get_program, abap.adt.get_class, abap.adt.get_function_module, abap.adt.get_interface, abap.adt.get_include, abap.adt.get_package_contents, abap.adt.get_cds_view, abap.adt.where_used, abap.adt.search, abap.adt.get_table_contents.\n- ABAP ADT (write): abap.adt.activate (hidden in read-only mode).\nResources: sap-system://info, sap-rfc://{name}, sap-table://{name}/structure, adt-destination://info, sap-cache://stats, agents://guardrails.\nPrompts: sap.review-rfc-call, sap.transport-impact-analysis, abap.review-where-used.\n"@
}

/// The instructions sent to clients: the overview, the mode, and any AGENTS.md
/// guardrails appended under a separator.
pub open spec fn instructions_text(agents_md: Option<Seq<char>>, read_only: bool) -> Seq<char> {
    let mode = if read_only { "Mode: READ-ONLY. Write-side RFCs (e.g. BAPI_SALESORDER_CREATEFROMDAT2, BAPI_ACC_DOCUMENT_POST) are blocked. Pass --enable-writes to allow.\n"@ } else { "Mode: WRITE-ENABLED. Treat every sap.rfc.call invocation as authorised.\n"@ };
    overview() + mode + match agents_md {
        Some(md) => "\n--- AGENTS.md guardrails ---\n"@ + md,
        None => Seq::empty(),
    }
}

/// Builds the instructions (see `instructions_text`).
pub fn build_instructions(agents_md: &Option<String>, read_only: bool) -> (s: String)
    ensures
        s@ == instructions_text(
            match agents_md {
                Some(m) => Some(m@),
                None => None,
            },
            read_only,
        ),
{
    let mut s = String::from_str("SAP-Automate MCP server (Phase 2 + ADT). Tool groups:\n- RAG search: abap.search, bpmn.find_process, eam.search_apps, sap.help.search, sap.docs.search.\n- RFC + tables: sap.system.info, sap.system.health, sap.system.cache_stats, sap.system.cache_invalidate, sap.rfc.search, sap.rfc.metadata, sap.rfc.bulk_metadata, sap.rfc.call, sap.table.read, sap.table.structure.\n- ABAP ADT (read-only): abap.adt.get_program, abap.adt.get_class, abap.adt.get_function_module, abap.adt.get_interface, abap.adt.get_include, abap.adt.get_package_contents, abap.adt.get_cds_view, abap.adt.where_used, abap.adt.search, abap.adt.get_table_contents.\n- ABAP ADT (write): abap.adt.activate (hidden in read-only mode).\nResources: sap-system://info, sap-rfc://{name}, sap-table://{name}/structure, adt-destination://info, sap-cache://stats, agents://guardrails.\nPrompts: sap.review-rfc-call, sap.transport-impact-analysis, abap.review-where-used.\n");
    if read_only {
        s.append("Mode: READ-ONLY. Write-side RFCs (e.g. BAPI_SALESORDER_CREATEFROMDAT2, BAPI_ACC_DOCUMENT_POST) are blocked. Pass --enable-writes to allow.\n");
    } else {
        s.append("Mode: WRITE-ENABLED. Treat every sap.rfc.call invocation as authorised.\n");
    }
    match agents_md {
        Some(md) => {
            s.append("\n--- AGENTS.md guardrails ---\n");
            s.append(md.as_str());
        },
        None => {
            proof {
                assert(s@ =~= s@ + Seq::<char>::empty());
            }
        },
    }
    s
}

/// The files AGENTS.md guardrails are read from, in order: the given path, or
/// `AGENTS.md` then `.sap-automate/AGENTS.md`.
pub fn agents_md_candidates(explicit_path: Option<&str>) -> (r: Vec<String>)
    ensures
        match explicit_path {
            Some(p) => r@.len() == 1 && r@[0]@ == p@,
            None => r@.len() == 2 && r@[0]@ == "AGENTS.md"@ && r@[1]@ == ".sap-automate/AGENTS.md"@,
        },
{
    let mut v: Vec<String> = Vec::new();
    match explicit_path {
        Some(p) => v.push(owned(p)),
        None => {
            v.push(String::from_str("AGENTS.md"));
            v.push(String::from_str(".sap-automate/AGENTS.md"));
        },
    }
    v
}

/// `s` cut to its first `n` characters, with `…` appended when anything was cut.
pub open spec fn truncated(s: Seq<char>, n: nat) -> Seq<char> {
    if s.len() <= n { s } else { s.take(n as int).push('…') }
}

/// Cuts `s` to `n` characters (see `truncated`).
pub fn truncate(s: &str, n: usize) -> (r: String)
    ensures
        r@ == truncated(s@, n as nat),
{
    if s.unicode_len() <= n {
        owned(s)
    } else {
        let mut out = owned(s.substring_char(0, n));
        push_char(&mut out, '…');
        out
    }
}

/// Depth of a knowledge-base navigation when none is given.
pub fn default_navigate_depth() -> (r: u32)
    ensures r == 1,
{
    1
}

/// Results of a retrieval search when none is given.
pub fn default_top_k() -> (r: usize)
    ensures r == 5,
{
    5
}

/// Business partners returned when no limit is given.
pub fn default_bp_limit() -> (r: usize)
    ensures r == 10,
{
    10
}

/// RFC search results when no limit is given.
pub fn default_limit_20() -> (r: usize)
    ensures r == 20,
{
    20
}

/// Metadata language when none is given.
pub fn default_lang() -> (r: String)
    ensures r@ == "EN"@,
{
    String::from_str("EN")
}

/// ADT search results when none is given.
pub fn default_max_results() -> (r: usize)
    ensures r == 25,
{
    25
}

/// Table rows read when none is given.
pub fn default_max_rows_100() -> (r: usize)
    ensures r == 100,
{
    100
}

/// Hops of a multi-hop query when none is given.
pub fn default_max_hops() -> (r: u32)
    ensures r == 4,
{
    4
}

/// Results of a graph query when none is given.
pub fn default_top_k_graph() -> (r: usize)
    ensures r == 8,
{
    8
}

/// Seed entities of a multi-hop query when none is given.
pub fn default_max_seeds() -> (r: usize)
    ensures r == 3,
{
    3
}

/// Communities of a global query when none is given.
pub fn default_top_k_3() -> (r: usize)
    ensures r == 3,
{
    3
}

/// Summary level when none is given.
pub fn default_level_2() -> (r: u32)
    ensures r == 2,
{
    2
}

/// Summaries returned when none is given.
pub fn default_top_k_10() -> (r: usize)
    ensures r == 10,
{
    10
}

/// A business-partner limit brought into `1..=100`.
pub fn bp_limit(limit: usize) -> (r: usize)
    ensures
        r == if limit < 1 { 1 } else if limit > 100 { 100 } else { limit },
{
    if limit < 1 { 1 } else if limit > 100 { 100 } else { limit }
}

/// Impact-analysis queries for benchmarking the graph layer.
pub fn graph_workload_queries() -> (r: Vec<String>)
    ensures
        crate::text::views(r@) == graph_workload_queries_list(),
{
    let mut v: Vec<String> = Vec::new();
    v.push(String::from_str("impact of changing BAPI_ACC_DOCUMENT_POST"));
    v.push(String::from_str("where is FAGLFLEXA used"));
    v.push(String::from_str("callers of ZFIN_POST_JE"));
    v.push(String::from_str("downstream from ZIF_FIN_POSTABLE"));
    v.push(String::from_str("trace from period_close to LeanIX applications"));
    v.push(String::from_str("what depends on table T001B"));
    v.push(String::from_str("objects that touch goods movement"));
    v.push(String::from_str("what does the O2C process call"));
    v.push(String::from_str("from ZMM_GRN_CHECK to material master"));
    v.push(String::from_str("S/4HANA Finance dependencies"));
    assert(crate::text::views(v@) =~= graph_workload_queries_list());
    v
}

/// The queries of `graph_workload_queries`.
pub open spec fn graph_workload_queries_list() -> Seq<Seq<char>> {
    seq!["impact of changing BAPI_ACC_DOCUMENT_POST"@] + seq!["where is FAGLFLEXA used"@] + seq!["callers of ZFIN_POST_JE"@] + seq!["downstream from ZIF_FIN_POSTABLE"@] + seq!["trace from period_close to LeanIX applications"@] + seq!["what depends on table T001B"@] + seq!["objects that touch goods movement"@] + seq!["what does the O2C process call"@] + seq!["from ZMM_GRN_CHECK to material master"@] + seq!["S/4HANA Finance dependencies"@]
}

/// Intent queries across the corpus domains for benchmarking retrieval.
pub fn workload_queries() -> (r: Vec<String>)
    ensures
        crate::text::views(r@) == workload_queries_list(),
{
    let mut v: Vec<String> = Vec::new();
    v.push(String::from_str("period close foreign currency revaluation"));
    v.push(String::from_str("open and close posting periods T001B"));
    v.push(String::from_str("goods movement type 101 receipt"));
    v.push(String::from_str("MIGO transaction reverse posting"));
    v.push(String::from_str("VF01 billing document creation invoice"));
    v.push(String::from_str("billing pricing procedure KONP KONV"));
    v.push(String::from_str("payroll wage type PA0008 PA0014"));
    v.push(String::from_str("PC00_M99_CALC payroll cluster B2"));
    v.push(String::from_str("BAPI_ACC_DOCUMENT_POST journal entry"));
    v.push(String::from_str("FAGLFLEXA BSEG reconciliation"));
    v.push(String::from_str("material master MARA MTART"));
    v.push(String::from_str("ATC quality scan ABAP test cockpit"));
    v.push(String::from_str("what is the difference between FB60 and FB70"));
    v.push(String::from_str("MIGO movement types 122 return delivery"));
    v.push(String::from_str("general ledger account determination posting"));
    v.push(String::from_str("company code customising T001 currency"));
    assert(crate::text::views(v@) =~= workload_queries_list());
    v
}

/// The queries of `workload_queries`.
pub open spec fn workload_queries_list() -> Seq<Seq<char>> {
    seq!["period close foreign currency revaluation"@] + seq!["open and close posting periods T001B"@] + seq!["goods movement type 101 receipt"@] + seq!["MIGO transaction reverse posting"@] + seq!["VF01 billing document creation invoice"@] + seq!["billing pricing procedure KONP KONV"@] + seq!["payroll wage type PA0008 PA0014"@] + seq!["PC00_M99_CALC payroll cluster B2"@] + seq!["BAPI_ACC_DOCUMENT_POST journal entry"@] + seq!["FAGLFLEXA BSEG reconciliation"@] + seq!["material master MARA MTART"@] + seq!["ATC quality scan ABAP test cockpit"@] + seq!["what is the difference between FB60 and FB70"@] + seq!["MIGO movement types 122 return delivery"@] + seq!["general ledger account determination posting"@] + seq!["company code customising T001 currency"@]
}


/// The tool a gateway message is routed to.
#[derive(Debug, Clone, Copy, PartialEq, Eq, Structural)]
pub enum Intent {
    /// ATC / test-cockpit questions: a documentation search for recent findings.
    AtcFindings,
    /// Impact, where-used and dependency questions: a multi-hop graph query.
    Impact,
    /// Anything else: a documentation search for the text.
    Docs,
}

/// The intent of a message by keywords of its lower-cased text.
pub open spec fn intent_of(text: Seq<char>) -> Intent {
    let lc = lowercase(text);
    if contains_seq(lc, "atc"@) || contains_seq(lc, "test cockpit"@) {
        Intent::AtcFindings
    } else if contains_seq(lc, "impact"@) || contains_seq(lc, "where used"@) || contains_seq(lc, "depends"@) {
        Intent::Impact
    } else {
        Intent::Docs
    }
}

/// Classifies a message (see `intent_of`).
pub fn classify_intent(text: &str) -> (i: Intent)
    ensures
        i == intent_of(text@),
{
    let lc = to_lower(text);
    if contains(lc.as_str(), "atc") || contains(lc.as_str(), "test cockpit") {
        Intent::AtcFindings
    } else if contains(lc.as_str(), "impact") || contains(lc.as_str(), "where used") || contains(lc.as_str(), "depends") {
        Intent::Impact
    } else {
        Intent::Docs
    }
}

/// The tool an intent calls.
pub fn intent_tool(i: Intent) -> (r: &'static str)
    ensures
        r@ == match i {
            Intent::Impact => "kb.multi_hop"@,
            _ => "sap.docs.search"@,
        },
{
    match i {
        Intent::Impact => "kb.multi_hop",
        _ => "sap.docs.search",
    }
}

/// The arguments of a routed tool call.
#[derive(Debug, Clone, PartialEq, Eq)]
pub struct ToolQuery {
    pub query: String,
    pub top_k: u32,
    pub max_hops: Option<u32>,
    pub domain: Option<String>,
}

/// The arguments an intent calls its tool with: ATC questions search recent
/// findings in every domain, impact questions walk up to four hops, anything else
/// searches for the message text.
pub fn intent_query(i: Intent, text: &str) -> (q: ToolQuery)
    ensures
        match i {
            Intent::AtcFindings => q.query@ == "ATC findings test cockpit recent"@ && q.top_k == 3 && q.max_hops is None
                && (q.domain matches Some(d) && d@ == "all"@),
            Intent::Impact => q.query@ == text@ && q.top_k == 6 && q.max_hops == Some(4u32) && q.domain is None,
            Intent::Docs => q.query@ == text@ && q.top_k == 3 && q.max_hops is None && q.domain is None,
        },
{
    match i {
        Intent::AtcFindings => ToolQuery {
            query: owned("ATC findings test cockpit recent"),
            top_k: 3,
            max_hops: None,
            domain: Some(owned("all")),
        },
        Intent::Impact => ToolQuery { query: owned(text), top_k: 6, max_hops: Some(4), domain: None },
        Intent::Docs => ToolQuery { query: owned(text), top_k: 3, max_hops: None, domain: None },
    }
}

/// The address a reply goes to: the channel's scheme and the conversation.
pub fn reply_address(channel: ChannelKind, conversation_id: &str) -> (r: String)
    ensures
        r@ == scheme_of(channel) + ":"@ + conversation_id@,
{
    concat3(channel.scheme(), ":", conversation_id)
}

/// The text of a routed reply.
pub fn reply_text(tool: &str, payload: &str, working_entries: u64) -> (r: String)
    ensures
        r@ == "Routed via `"@ + tool@ + "`.\n\n"@ + payload@ + "\n\nSession context: "@
            + decimal(working_entries as nat) + " working entries."@,
{
    let a = concat3("Routed via `", tool, "`.\n\n");
    let b = concat3(a.as_str(), payload, "\n\nSession context: ");
    let n = decimal_string(working_entries);
    concat3(b.as_str(), n.as_str(), " working entries.")
}

} // verus!

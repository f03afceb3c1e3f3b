//! The seed corpus: a few illustrative documents across the four SAP domains,
//! loaded into the knowledge store when a server starts without one.
use vstd::prelude::*;
use crate::text::{owned, views};

verus! {

/// Where a document comes from.
#[derive(Debug, Clone, Copy, PartialEq, Eq, Structural)]
pub enum Domain {
    Abap,
    Bpmn,
    Leanix,
    SapHelp,
}

/// A document of the seed corpus.
#[derive(Debug, Clone, PartialEq, Eq)]
pub struct SeedDocument {
    pub id: String,
    pub domain: Domain,
    pub uri: String,
    pub title: String,
    pub text: String,
    pub breadcrumbs: Vec<String>,
    pub metadata: Vec<(String, String)>,
}

/// The id, domain, URI, title and text of the seed document at `k`.
pub open spec fn seed_entry(k: int) -> (Seq<char>, Domain, Seq<char>, Seq<char>, Seq<char>) {
    if k == 0 {
        ("abap:ZFIN/ZFIN_POST_JE"@, Domain::Abap, "abap-obj://ZFIN/ZFIN_POST_JE"@, "ZFIN_POST_JE"@, "ABAP report ZFIN_POST_JE posts financial journal entries via BAPI_ACC_DOCUMENT_POST. Validates cost-centre against table CSKS, blocks postings to closed periods (T001B), and routes inter-company entries through BAPI_ACC_GL_POSTING_CHECK before commit."@)
    } else if k == 1 {
        ("abap:ZMM/ZMM_GRN_CHECK"@, Domain::Abap, "abap-obj://ZMM/ZMM_GRN_CHECK"@, "ZMM_GRN_CHECK"@, "Function module ZMM_GRN_CHECK reconciles goods receipt with purchase order quantities; triggers tolerance check, batch management, and material valuation flow. Calls BAPI_GOODSMVT_CREATE on success."@)
    } else if k == 2 {
        ("bpmn:core/P2P-001"@, Domain::Bpmn, "bpmn-proc://core/P2P-001"@, "Procure-to-Pay (P2P)"@, "Signavio BPMN process P2P-001: purchase requisition into PO approval into goods receipt into invoice verification into payment release. Mined throughput drops 18% at PO approval due to manager-cost-centre coverage gaps."@)
    } else if k == 3 {
        ("bpmn:core/O2C-002"@, Domain::Bpmn, "bpmn-proc://core/O2C-002"@, "Order-to-Cash (O2C)"@, "Signavio BPMN process O2C-002: sales order entry into ATP check into delivery into billing into cash application. Mining shows 12% rework loop between billing and delivery, primarily caused by incomplete delivery addresses."@)
    } else if k == 4 {
        ("leanix:FS-12001"@, Domain::Leanix, "leanix-fs://FS-12001"@, "S/4HANA Finance"@, "LeanIX application fact sheet for S/4HANA Finance (FS-12001). Lifecycle: active. Business capabilities: general ledger, accounts payable, accounts receivable, asset accounting. Integrations: ZFIN_POST_JE, Concur, Datasphere. EOL: 2031-12."@)
    } else if k == 5 {
        ("leanix:FS-08823"@, Domain::Leanix, "leanix-fs://FS-08823"@, "Legacy Billing Engine"@, "LeanIX application fact sheet for Legacy Billing Engine (FS-08823). Lifecycle: phase-out. Integrations: ZSD_BILL_GEN, mainframe. EOL: 2026-09. Replacement: S/4HANA SD billing."@)
    } else if k == 6 {
        ("sap_help:FI/period-close"@, Domain::SapHelp, "sap-help://FI/period-close"@, "Period-End Close in SAP FI"@, "SAP Help Portal page on FI period-end close: open and close posting periods via T001B, execute foreign-currency revaluation, post accruals and deferrals, run BSEG to FAGLFLEXA reconciliation, and generate balance audit trail."@)
    } else {
        ("sap_help:MM/goods-movement"@, Domain::SapHelp, "sap-help://MM/goods-movement"@, "Goods Movement Posting"@, "SAP Help Portal page describing goods movement postings (transaction MIGO). Movement types 101 (GR for PO), 102 (reversal), 122 (return delivery). Updates MSEG, MKPF, and material valuation."@)
    }
}

/// The breadcrumbs of the seed document at `k`.
pub open spec fn seed_breadcrumbs(k: int) -> Seq<Seq<char>> {
    if k == 2 {
        seq!["core"@]
    } else if k == 3 {
        seq!["core"@]
    } else if k == 6 {
        seq!["Finance"@, "General Ledger"@]
    } else if k == 7 {
        seq!["Logistics"@, "Inventory Management"@]
    } else {
        Seq::empty()
    }
}

/// The metadata of the seed document at `k`, as (key, value) pairs.
pub open spec fn seed_metadata(k: int) -> Seq<(Seq<char>, Seq<char>)> {
    if k == 0 {
        seq![("package"@, "ZFIN"@), ("type"@, "REPORT"@)]
    } else if k == 1 {
        seq![("package"@, "ZMM"@), ("type"@, "FUNCTION"@)]
    } else if k == 6 {
        seq![("module"@, "FI"@)]
    } else if k == 7 {
        seq![("module"@, "MM"@)]
    } else {
        Seq::empty()
    }
}

/// The (key, value) views of metadata pairs.
pub open spec fn pair_views(m: Seq<(String, String)>) -> Seq<(Seq<char>, Seq<char>)> {
    m.map_values(|p: (String, String)| (p.0@, p.1@))
}

/// `d` is the seed document at `k`.
pub open spec fn is_seed(d: SeedDocument, k: int) -> bool {
    &&& (d.id@, d.domain, d.uri@, d.title@, d.text@) == seed_entry(k)
    &&& views(d.breadcrumbs@) == seed_breadcrumbs(k)
    &&& pair_views(d.metadata@) == seed_metadata(k)
}

fn document(id: &str, domain: Domain, uri: &str, title: &str, text: &str) -> (d: SeedDocument)
    ensures
        d.id@ == id@,
        d.domain == domain,
        d.uri@ == uri@,
        d.title@ == title@,
        d.text@ == text@,
        d.breadcrumbs@.len() == 0,
        d.metadata@.len() == 0,
{
    SeedDocument {
        id: owned(id),
        domain,
        uri: owned(uri),
        title: owned(title),
        text: owned(text),
        breadcrumbs: Vec::new(),
        metadata: Vec::new(),
    }
}

fn pair(a: &str, b: &str) -> (p: (String, String))
    ensures
        p.0@ == a@,
        p.1@ == b@,
{
    (owned(a), owned(b))
}

/// The seed corpus, in order.
pub fn seed_documents() -> (r: Vec<SeedDocument>)
    ensures
        r@.len() == 8,
        forall|k: int| 0 <= k < r@.len() ==> is_seed(#[trigger] r@[k], k),
{
    let mut out: Vec<SeedDocument> = Vec::new();
    let mut d = document(
        "abap:ZFIN/ZFIN_POST_JE",
        Domain::Abap,
        "abap-obj://ZFIN/ZFIN_POST_JE",
        "ZFIN_POST_JE",
        "ABAP report ZFIN_POST_JE posts financial journal entries via BAPI_ACC_DOCUMENT_POST. Validates cost-centre against table CSKS, blocks postings to closed periods (T001B), and routes inter-company entries through BAPI_ACC_GL_POSTING_CHECK before commit.",
    );
    d.metadata = vec![pair("package", "ZFIN"), pair("type", "REPORT")];
    assert(is_seed(d, 0)) by {
        assert(views(d.breadcrumbs@) =~= seed_breadcrumbs(0));
        assert(pair_views(d.metadata@) =~= seed_metadata(0));
    }
    out.push(d);
    let mut d = document(
        "abap:ZMM/ZMM_GRN_CHECK",
        Domain::Abap,
        "abap-obj://ZMM/ZMM_GRN_CHECK",
        "ZMM_GRN_CHECK",
        "Function module ZMM_GRN_CHECK reconciles goods receipt with purchase order quantities; triggers tolerance check, batch management, and material valuation flow. Calls BAPI_GOODSMVT_CREATE on success.",
    );
    d.metadata = vec![pair("package", "ZMM"), pair("type", "FUNCTION")];
    assert(is_seed(d, 1)) by {
        assert(views(d.breadcrumbs@) =~= seed_breadcrumbs(1));
        assert(pair_views(d.metadata@) =~= seed_metadata(1));
    }
    out.push(d);
    let mut d = document(
        "bpmn:core/P2P-001",
        Domain::Bpmn,
        "bpmn-proc://core/P2P-001",
        "Procure-to-Pay (P2P)",
        "Signavio BPMN process P2P-001: purchase requisition into PO approval into goods receipt into invoice verification into payment release. Mined throughput drops 18% at PO approval due to manager-cost-centre coverage gaps.",
    );
    d.breadcrumbs = vec![owned("core")];
    assert(is_seed(d, 2)) by {
        assert(views(d.breadcrumbs@) =~= seed_breadcrumbs(2));
        assert(pair_views(d.metadata@) =~= seed_metadata(2));
    }
    out.push(d);
    let mut d = document(
        "bpmn:core/O2C-002",
        Domain::Bpmn,
        "bpmn-proc://core/O2C-002",
        "Order-to-Cash (O2C)",
        "Signavio BPMN process O2C-002: sales order entry into ATP check into delivery into billing into cash application. Mining shows 12% rework loop between billing and delivery, primarily caused by incomplete delivery addresses.",
    );
    d.breadcrumbs = vec![owned("core")];
    assert(is_seed(d, 3)) by {
        assert(views(d.breadcrumbs@) =~= seed_breadcrumbs(3));
        assert(pair_views(d.metadata@) =~= seed_metadata(3));
    }
    out.push(d);
    let mut d = document(
        "leanix:FS-12001",
        Domain::Leanix,
        "leanix-fs://FS-12001",
        "S/4HANA Finance",
        "LeanIX application fact sheet for S/4HANA Finance (FS-12001). Lifecycle: active. Business capabilities: general ledger, accounts payable, accounts receivable, asset accounting. Integrations: ZFIN_POST_JE, Concur, Datasphere. EOL: 2031-12.",
    );
    assert(is_seed(d, 4)) by {
        assert(views(d.breadcrumbs@) =~= seed_breadcrumbs(4));
        assert(pair_views(d.metadata@) =~= seed_metadata(4));
    }
    out.push(d);
    let mut d = document(
        "leanix:FS-08823",
        Domain::Leanix,
        "leanix-fs://FS-08823",
        "Legacy Billing Engine",
        "LeanIX application fact sheet for Legacy Billing Engine (FS-08823). Lifecycle: phase-out. Integrations: ZSD_BILL_GEN, mainframe. EOL: 2026-09. Replacement: S/4HANA SD billing.",
    );
    assert(is_seed(d, 5)) by {
        assert(views(d.breadcrumbs@) =~= seed_breadcrumbs(5));
        assert(pair_views(d.metadata@) =~= seed_metadata(5));
    }
    out.push(d);
    let mut d = document(
        "sap_help:FI/period-close",
        Domain::SapHelp,
        "sap-help://FI/period-close",
        "Period-End Close in SAP FI",
        "SAP Help Portal page on FI period-end close: open and close posting periods via T001B, execute foreign-currency revaluation, post accruals and deferrals, run BSEG to FAGLFLEXA reconciliation, and generate balance audit trail.",
    );
    d.breadcrumbs = vec![owned("Finance"), owned("General Ledger")];
    d.metadata = vec![pair("module", "FI")];
    assert(is_seed(d, 6)) by {
        assert(views(d.breadcrumbs@) =~= seed_breadcrumbs(6));
        assert(pair_views(d.metadata@) =~= seed_metadata(6));
    }
    out.push(d);
    let mut d = document(
        "sap_help:MM/goods-movement",
        Domain::SapHelp,
        "sap-help://MM/goods-movement",
        "Goods Movement Posting",
        "SAP Help Portal page describing goods movement postings (transaction MIGO). Movement types 101 (GR for PO), 102 (reversal), 122 (return delivery). Updates MSEG, MKPF, and material valuation.",
    );
    d.breadcrumbs = vec![owned("Logistics"), owned("Inventory Management")];
    d.metadata = vec![pair("module", "MM")];
    assert(is_seed(d, 7)) by {
        assert(views(d.breadcrumbs@) =~= seed_breadcrumbs(7));
        assert(pair_views(d.metadata@) =~= seed_metadata(7));
    }
    out.push(d);
    assert forall|k: int| 0 <= k < out@.len() implies is_seed(#[trigger] out@[k], k) by {
    }
    out
}

} // verus!

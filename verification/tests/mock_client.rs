use sap_automate::adt::client::AdtCallContext;
use sap_automate::adt::destination::AdtDestination;
use sap_automate::adt::error::AdtError;
use sap_automate::adt::mock::MockAdtClient;
use sap_automate::adt::types::{AbapObjectKind, ActivationRequest, AdtSearchRequest, WhereUsedRequest};

fn client() -> MockAdtClient {
    MockAdtClient::new(AdtDestination::mock("dev"))
}

#[test]
fn get_program_returns_source() {
    let c = client();
    let p = c.get_program("zfin_post_je").ok().unwrap();
    assert_eq!(p.name, "ZFIN_POST_JE");
    assert!(p.source.contains("BAPI_ACC_DOCUMENT_POST"));
    assert!(p.line_count > 0);
}

#[test]
fn search_filters_by_kind() {
    let c = client();
    let hits = c
        .search(&AdtSearchRequest { query: "fin".to_string(), kind: Some(AbapObjectKind::Class), max_results: 20 })
        .ok()
        .unwrap();
    assert!(!hits.is_empty());
    assert!(hits.iter().all(|h| h.kind == AbapObjectKind::Class));
    assert!(hits.iter().any(|h| h.name == "ZCL_FIN_POSTER"));
}

#[test]
fn where_used_traces_dependency_chain() {
    let c = client();
    let hits = c
        .where_used(&WhereUsedRequest { name: "ZIF_FIN_POSTABLE".to_string(), kind: AbapObjectKind::Interface })
        .ok()
        .unwrap();
    assert_eq!(hits.len(), 1);
    assert_eq!(hits[0].object, "ZCL_FIN_POSTER");
    assert_eq!(hits[0].usage, "implements");
}

#[test]
fn data_preview_block_is_surfaced() {
    let c = client();
    let err = c.get_table_contents("BSEG", 10).err().unwrap();
    assert!(matches!(err, AdtError::DataPreviewBlocked(_)));
}

#[test]
fn activate_blocked_in_read_only() {
    let c = client();
    let err = c
        .activate(
            &ActivationRequest { name: "ZFIN_POST_JE".to_string(), kind: AbapObjectKind::Program },
            AdtCallContext { read_only: true },
        )
        .err()
        .unwrap();
    assert!(matches!(err, AdtError::PermissionDenied(_)));
}

#[test]
fn activate_allowed_when_writes_enabled() {
    let c = client();
    let outcome = c
        .activate(
            &ActivationRequest { name: "ZFIN_POST_JE".to_string(), kind: AbapObjectKind::Program },
            AdtCallContext { read_only: false },
        )
        .ok()
        .unwrap();
    assert!(outcome.activated);
}

#[test]
fn package_contents_includes_seeded_objects() {
    let c = client();
    let pkg = c.get_package_contents("ZFIN").ok().unwrap();
    assert!(pkg.members.iter().any(|m| m.name == "ZCL_FIN_POSTER"));
    assert!(pkg.members.iter().any(|m| m.name == "Z_C_SALES_ORDER_KPI"));
}

#[test]
fn function_module_lookup_uses_group_namespace() {
    let c = client();
    let fm = c.get_function_module("ZFIN_UTIL", "Z_FIN_VALIDATE_BUKRS").ok().unwrap();
    assert_eq!(fm.name, "Z_FIN_VALIDATE_BUKRS");
    assert!(fm.source.contains("FROM t001"));
}

#[test]
fn unknown_objects_are_not_found_with_their_kind() {
    let c = client();
    match c.get_class("zcl_nope") {
        Err(AdtError::NotFound { kind, name }) => {
            assert_eq!(kind, "Class");
            assert_eq!(name, "zcl_nope");
        }
        _ => panic!("expected NotFound"),
    }
    assert!(matches!(c.get_function_module("OTHER_GROUP", "Z_FIN_VALIDATE_BUKRS"), Err(AdtError::NotFound { .. })));
}

#[test]
fn lookups_ignore_case() {
    let c = client();
    assert_eq!(c.get_interface("zif_fin_postable").ok().unwrap().name, "ZIF_FIN_POSTABLE");
    assert_eq!(c.get_include("Zfin_Top").ok().unwrap().name, "ZFIN_TOP");
    assert_eq!(c.get_cds_view("z_c_sales_order_kpi").ok().unwrap().line_count, 13);
}

#[test]
fn table_rows_are_capped_and_checked() {
    let c = client();
    let rows = c.get_table_contents("t001", 1).ok().unwrap();
    assert_eq!(rows.len(), 1);
    assert_eq!(rows[0].values[0], ("BUKRS".to_string(), "1000".to_string()));
    assert!(matches!(c.get_table_contents("T001", 0), Err(AdtError::InvalidObjectName(_))));
    assert!(matches!(c.get_table_contents("T001", 1001), Err(AdtError::InvalidObjectName(_))));
}

#[test]
fn search_ranks_and_bounds_hits() {
    let c = client();
    let hits = c
        .search(&AdtSearchRequest { query: "fin posting".to_string(), kind: None, max_results: 2 })
        .ok()
        .unwrap();
    assert!(hits.len() <= 2);
    assert!(hits.windows(2).all(|w| w[0].score >= w[1].score));
    assert!(hits.iter().all(|h| h.score > 0));
}

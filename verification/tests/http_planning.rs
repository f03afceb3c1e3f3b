use sap_automate::adt::destination::{AdtAuth, AdtDestination};
use sap_automate::adt::error::AdtError;
use sap_automate::adt::http::{
    activation_body, activation_gate, activation_outcome, activation_token, auth_header, base_headers,
    endpoint_url, function_module_path, map_kind, nodestructure_form, package_from_members, package_status,
    program_from_source, search_path, source_status, table_preview_request, table_preview_status, where_used_status,
    where_used_url, ACTIVATION_CONTENT_TYPE, ACTIVATION_PATH, DISCOVERY_PATH, FORM_CONTENT_TYPE, NODESTRUCTURE_PATH,
    PREVIEW_CONTENT_TYPE, WHERE_USED_BODY, WHERE_USED_CONTENT_TYPE,
};
use sap_automate::adt::types::{AbapObjectKind, ActivationRequest, WhereUsedRequest};
use sap_automate::adt::xml::{parse_data_preview, parse_nodestructure, parse_search_results, parse_usage_references};

const BASE: &str = "http://127.0.0.1:8080/";

fn destination() -> AdtDestination {
    AdtDestination {
        name: "test".to_string(),
        base_url: BASE.to_string(),
        client: "100".to_string(),
        language: "EN".to_string(),
        auth: AdtAuth::Basic { user: "DEMO".to_string(), password: "secret".to_string() },
    }
}

fn header<'a>(hs: &'a [(String, String)], key: &str) -> Option<&'a str> {
    hs.iter().find(|(k, _)| k.eq_ignore_ascii_case(key)).map(|(_, v)| v.as_str())
}

const PACKAGE_XML: &str = r#"<?xml version="1.0" encoding="UTF-8"?>
<asx:abap xmlns:asx="http://www.sap.com/abapxml" version="1.0">
  <asx:values>
    <DATA>
      <TREE_CONTENT>
        <SEU_ADT_REPOSITORY_OBJ_NODE>
          <OBJECT_TYPE>CLAS/OC</OBJECT_TYPE>
          <OBJECT_NAME>ZCL_FIN_POSTER</OBJECT_NAME>
          <DESCRIPTION>FI posting helper class</DESCRIPTION>
          <OBJECT_URI>/sap/bc/adt/oo/classes/zcl_fin_poster</OBJECT_URI>
        </SEU_ADT_REPOSITORY_OBJ_NODE>
        <SEU_ADT_REPOSITORY_OBJ_NODE>
          <OBJECT_TYPE>INTF/OI</OBJECT_TYPE>
          <OBJECT_NAME>ZIF_FIN_POSTABLE</OBJECT_NAME>
          <DESCRIPTION>FI posting contract</DESCRIPTION>
          <OBJECT_URI>/sap/bc/adt/oo/interfaces/zif_fin_postable</OBJECT_URI>
        </SEU_ADT_REPOSITORY_OBJ_NODE>
        <SEU_ADT_REPOSITORY_OBJ_NODE>
          <OBJECT_TYPE>PROG/P</OBJECT_TYPE>
          <OBJECT_NAME>ZFIN_POST_JE</OBJECT_NAME>
          <DESCRIPTION>Post FI journal entries</DESCRIPTION>
          <OBJECT_URI>/sap/bc/adt/programs/programs/zfin_post_je</OBJECT_URI>
        </SEU_ADT_REPOSITORY_OBJ_NODE>
      </TREE_CONTENT>
    </DATA>
  </asx:values>
</asx:abap>"#;

const SEARCH_XML: &str = r#"<?xml version="1.0" encoding="UTF-8"?>
<adtcore:objectReferences xmlns:adtcore="http://www.sap.com/adt/core">
  <adtcore:objectReference adtcore:type="CLAS/OC" adtcore:name="ZCL_FIN_POSTER" adtcore:description="FI posting helper" adtcore:packageName="ZFIN" adtcore:uri="/sap/bc/adt/oo/classes/zcl_fin_poster"/>
  <adtcore:objectReference adtcore:type="PROG/P" adtcore:name="ZFIN_POST_JE" adtcore:description="Post FI journal" adtcore:packageName="ZFIN" adtcore:uri="/sap/bc/adt/programs/programs/zfin_post_je"/>
</adtcore:objectReferences>"#;

const USAGE_XML: &str = r#"<?xml version="1.0" encoding="UTF-8"?>
<usageReferences:result xmlns:usageReferences="http://www.sap.com/adt/ris/usageReferences" xmlns:adtcore="http://www.sap.com/adt/core">
  <usageReferences:referencedObject adtcore:type="CLAS/OC" adtcore:name="ZCL_FIN_POSTER" adtcore:uri="/sap/bc/adt/oo/classes/zcl_fin_poster"/>
  <usageReferences:referencedObject adtcore:type="PROG/P" adtcore:name="ZFIN_POST_JE" adtcore:uri="/sap/bc/adt/programs/programs/zfin_post_je"/>
</usageReferences:result>"#;

#[test]
fn get_program_emits_correct_url_and_headers() {
    let dest = destination();
    let path = AbapObjectKind::Program.adt_path("ZFIN_POST_JE");
    assert_eq!(path, "/sap/bc/adt/programs/programs/zfin_post_je/source/main");
    assert_eq!(endpoint_url(&dest.base_url, &path), "http://127.0.0.1:8080/sap/bc/adt/programs/programs/zfin_post_je/source/main");
    let hs = base_headers(&dest).ok().unwrap();
    assert!(header(&hs, "authorization").unwrap().starts_with("Basic "));
    assert_eq!(header(&hs, "x-sap-client"), Some("100"));
    assert_eq!(header(&hs, "x-sap-language"), Some("EN"));
    let prog = program_from_source("ZFIN_POST_JE", AbapObjectKind::Program, "REPORT zfin_post_je.\nWRITE 'x'.\n".to_string());
    assert_eq!(prog.name, "ZFIN_POST_JE");
    assert!(prog.source.contains("REPORT zfin_post_je"));
    assert!(prog.line_count > 0);
}

#[test]
fn basic_credentials_are_base64_encoded() {
    let h = auth_header(&AdtAuth::Basic { user: "DEMO".to_string(), password: "secret".to_string() }).ok().unwrap();
    assert_eq!(h, Some("Basic REVNTzpzZWNyZXQ=".to_string()));
}

#[test]
fn get_class_returns_source_with_line_count() {
    let src = "CLASS zcl_fin_poster DEFINITION PUBLIC FINAL.\n  PUBLIC SECTION.\n    METHODS post_document.\nENDCLASS.\n\nCLASS zcl_fin_poster IMPLEMENTATION.\n  METHOD post_document.\n  ENDMETHOD.\nENDCLASS.\n";
    let class = program_from_source("zcl_fin_poster", AbapObjectKind::Class, src.to_string());
    assert_eq!(class.name, "ZCL_FIN_POSTER");
    assert!(class.source.contains("ENDCLASS"));
    assert_eq!(class.line_count, class.source.lines().count());
    assert_eq!(program_from_source("x", AbapObjectKind::Program, "a\r\nb".to_string()).line_count, 2);
    assert_eq!(program_from_source("x", AbapObjectKind::Program, String::new()).line_count, 0);
}

#[test]
fn get_interface_uri_matches_oo_interfaces_pattern() {
    assert_eq!(AbapObjectKind::Interface.adt_path("ZIF_FIN_POSTABLE"), "/sap/bc/adt/oo/interfaces/zif_fin_postable/source/main");
}

#[test]
fn get_include_uri_matches_programs_includes_pattern() {
    assert_eq!(AbapObjectKind::Include.adt_path("ZFIN_TOP"), "/sap/bc/adt/programs/includes/zfin_top/source/main");
}

#[test]
fn get_function_module_uri_nests_group_and_name() {
    assert_eq!(
        function_module_path("ZFIN_UTIL", "Z_FIN_VALIDATE_BUKRS"),
        "/sap/bc/adt/functions/groups/zfin_util/fmodules/z_fin_validate_bukrs/source/main"
    );
}

#[test]
fn get_cds_view_uri_uses_ddic_ddl_sources_pattern() {
    assert_eq!(AbapObjectKind::CdsView.adt_path("Z_C_SALES_ORDER_KPI"), "/sap/bc/adt/ddic/ddl/sources/z_c_sales_order_kpi/source/main");
}

#[test]
fn get_package_uses_post_with_form_body() {
    let pkg = package_from_members("ZFIN", parse_nodestructure(PACKAGE_XML));
    assert_eq!(pkg.package, "ZFIN");
    assert_eq!(pkg.members.len(), 3);
    let names: Vec<&str> = pkg.members.iter().map(|m| m.name.as_str()).collect();
    assert!(names.contains(&"ZCL_FIN_POSTER"));
    assert!(names.contains(&"ZIF_FIN_POSTABLE"));
    assert!(names.contains(&"ZFIN_POST_JE"));
    assert_eq!(pkg.members[0].kind, AbapObjectKind::Class);
    assert_eq!(pkg.members[1].kind, AbapObjectKind::Interface);
    assert_eq!(pkg.members[2].description.as_deref(), Some("Post FI journal entries"));
    assert_eq!(NODESTRUCTURE_PATH, "/sap/bc/adt/repository/nodestructure");
    let body = nodestructure_form("ZFIN");
    assert!(body.contains("parent_type=DEVC%2FK"));
    assert!(body.contains("parent_name=ZFIN"));
    assert!(body.contains("withShortDescriptions=true"));
    assert_eq!(FORM_CONTENT_TYPE, "application/x-www-form-urlencoded");
}

#[test]
fn package_listing_reads_attribute_form_too() {
    let xml = r#"<root><OBJECT name="ZA" type="PROG/P" description="d"/><adtcore:objectReference adtcore:name="ZB" adtcore:type="CLAS/OC"/><OBJECT type="PROG/P"/></root>"#;
    let members = parse_nodestructure(xml);
    assert_eq!(members.len(), 2);
    assert_eq!(members[0].name, "ZA");
    assert_eq!(members[0].description.as_deref(), Some("d"));
    assert_eq!(members[1].kind, AbapObjectKind::Class);
}

#[test]
fn search_passes_query_and_max_results_in_query_string() {
    let hits = parse_search_results(SEARCH_XML);
    assert_eq!(hits.len(), 2);
    assert!(hits.iter().any(|h| h.name == "ZCL_FIN_POSTER"));
    assert_eq!(hits[0].package.as_deref(), Some("ZFIN"));
    let path = search_path("fin", 10);
    assert!(path.contains("query=fin"));
    assert!(path.contains("maxResults=10"));
    assert!(path.contains("operation=quickSearch"));
    assert_eq!(search_path("a b&c", 3), "/sap/bc/adt/repository/informationsystem/search?operation=quickSearch&query=a%20b%26c&maxResults=3");
}

#[test]
fn where_used_posts_xml_with_correct_content_type() {
    let hits = parse_usage_references(USAGE_XML);
    assert_eq!(hits.len(), 2);
    assert!(hits.iter().any(|h| h.object == "ZCL_FIN_POSTER"));
    assert!(hits.iter().all(|h| h.usage == "reference"));
    let url = where_used_url(BASE, &WhereUsedRequest { name: "ZIF_FIN_POSTABLE".to_string(), kind: AbapObjectKind::Interface });
    assert_eq!(
        url,
        "http://127.0.0.1:8080/sap/bc/adt/repository/informationsystem/usageReferences?uri=%2Fsap%2Fbc%2Fadt%2Foo%2Finterfaces%2Fzif_fin_postable%2Fsource%2Fmain"
    );
    assert!(WHERE_USED_BODY.contains("usageReferenceRequest"));
    assert_eq!(WHERE_USED_CONTENT_TYPE, "application/vnd.sap.adt.repository.usagereferences.request+xml");
    assert_eq!(where_used_status(404, "404 Not Found").ok(), Some(false));
    assert_eq!(where_used_status(200, "200 OK").ok(), Some(true));
    assert!(matches!(where_used_status(500, "500 Internal Server Error"), Err(AdtError::Internal(m)) if m == "usageReferences -> 500 Internal Server Error"));
}

#[test]
fn data_preview_posts_select_body_with_text_plain() {
    let (path, body) = table_preview_request("T001", 5).ok().unwrap();
    assert!(path.starts_with("/sap/bc/adt/datapreview/freestyle"));
    assert_eq!(path, "/sap/bc/adt/datapreview/freestyle?rowNumber=5&dataAging=true");
    assert!(body.starts_with("SELECT * FROM T001"));
    assert_eq!(PREVIEW_CONTENT_TYPE, "text/plain; charset=utf-8");
    assert!(parse_data_preview("<dataPreview/>").is_empty());
}

#[test]
fn data_preview_403_is_mapped_to_data_preview_blocked() {
    let err = table_preview_status("BSEG", 403, "403 Forbidden").err().unwrap();
    assert!(matches!(err, AdtError::DataPreviewBlocked(ref m) if m == "ADT data preview blocked for BSEG; fall back to sap.table.read"));
    assert!(matches!(table_preview_request("T001", 0), Err(AdtError::InvalidObjectName(_))));
}

#[test]
fn activate_fetches_csrf_token_then_posts() {
    let req = ActivationRequest { name: "ZFIN_POST_JE".to_string(), kind: AbapObjectKind::Program };
    assert!(activation_gate(&req, false).is_ok());
    assert_eq!(DISCOVERY_PATH, "/sap/bc/adt/discovery");
    assert_eq!(ACTIVATION_PATH, "/sap/bc/adt/activation");
    assert_eq!(activation_token(Some("TOKEN-ABCDEF".to_string())).ok(), Some("TOKEN-ABCDEF".to_string()));
    assert!(matches!(activation_token(None), Err(AdtError::CsrfRefresh)));
    assert_eq!(ACTIVATION_CONTENT_TYPE, "application/xml");
    let body = activation_body(&req);
    assert!(body.contains("objectReferences"));
    assert!(body.contains("adtcore:uri=\"/sap/bc/adt/programs/programs/zfin_post_je\""));
    let outcome = activation_outcome(&req, 200, "200 OK");
    assert!(outcome.activated);
    assert_eq!(outcome.messages, vec!["HTTP 200 OK".to_string()]);
    assert!(!activation_outcome(&req, 409, "409 Conflict").activated);
}

#[test]
fn activate_in_read_only_mode_short_circuits_before_any_http_call() {
    let req = ActivationRequest { name: "ZFIN_POST_JE".to_string(), kind: AbapObjectKind::Program };
    let err = activation_gate(&req, true).err().unwrap();
    assert!(matches!(err, AdtError::PermissionDenied(ref m) if m == "activate(Program ZFIN_POST_JE) blocked: read-only mode"));
}

#[test]
fn not_found_response_maps_to_adt_error_not_found() {
    let err = source_status("/sap/bc/adt/programs/programs/zmissing/source/main", 404, "404 Not Found").err().unwrap();
    assert!(matches!(err, AdtError::NotFound { .. }));
}

#[test]
fn forbidden_response_maps_to_adt_error_forbidden() {
    let err = source_status("/sap/bc/adt/oo/classes/zforbidden/source/main", 403, "403 Forbidden").err().unwrap();
    assert!(matches!(err, AdtError::Forbidden(_)));
    assert!(matches!(source_status("/p", 401, "401 Unauthorized"), Err(AdtError::Forbidden(_))));
    assert!(matches!(source_status("/p", 500, "500 Internal Server Error"), Err(AdtError::Internal(m)) if m == "/p -> 500 Internal Server Error"));
    assert!(source_status("/p", 204, "204 No Content").is_ok());
    assert!(matches!(package_status("ZNONE", 404, "404 Not Found"), Err(AdtError::NotFound { kind, name }) if kind == "Package" && name == "ZNONE"));
}

#[test]
fn bearer_auth_emits_bearer_authorization_header() {
    let mut dest = destination();
    dest.auth = AdtAuth::Bearer { token: "JWT-XXXXXX".to_string() };
    let hs = base_headers(&dest).ok().unwrap();
    assert_eq!(header(&hs, "authorization"), Some("Bearer JWT-XXXXXX"));
}

#[test]
fn header_values_with_control_bytes_are_refused() {
    let mut dest = destination();
    dest.client = "10\n0".to_string();
    assert!(matches!(base_headers(&dest), Err(AdtError::Internal(m)) if m == "failed to parse header value"));
    assert!(auth_header(&AdtAuth::Bearer { token: "a\u{7f}b".to_string() }).is_err());
    assert!(matches!(auth_header(&AdtAuth::ServiceKey { path: "k".to_string() }), Err(AdtError::Internal(_))));
    assert_eq!(auth_header(&AdtAuth::Mock).ok(), Some(None));
}

#[test]
fn kind_tokens_map_to_object_kinds() {
    assert_eq!(map_kind("CLAS/OC"), AbapObjectKind::Class);
    assert_eq!(map_kind("INTF/OI"), AbapObjectKind::Interface);
    assert_eq!(map_kind("PROG/P"), AbapObjectKind::Program);
}

//! Offline ADT client seeded with finance, materials-management and sales fixtures:
//! programs, classes, an interface, includes, a function module, a CDS view, two
//! packages, where-used links between them and a company-code table.
use vstd::prelude::*;
use crate::adt::client::AdtCallContext;
use crate::adt::destination::AdtDestination;
use crate::adt::error::AdtError;
use crate::adt::http::{activation_gate, opt_view};
use crate::adt::xml::member_view;
use crate::adt::types::{
    kind_label, line_count, lines_in, same_cds, same_package, AbapObjectKind, ActivationOutcome,
    ActivationRequest, CdsView, PackageContents, PackageMember, ProgramSource, TableRow,
    WhereUsedHit, WhereUsedRequest, MAX_TABLE_ROWS,
};
use crate::adt::types::{copy_opt, AdtSearchHit, AdtSearchRequest};
use crate::rank::{sort_by_score_desc, sort_desc};
use crate::text::{
    first_from, first_index, concat2, concat3, lowercase, owned, score_of, score_terms, split_whitespace, str_eq, to_lower,
    to_upper, uppercase, views, words,
};

verus! {

/// An object named `key`.
pub open spec fn named(key: Seq<char>) -> spec_fn(ProgramSource) -> bool {
    |p: ProgramSource| p.name@ == key
}

fn prog(name: &str, kind: AbapObjectKind, package: &str, description: &str, source: &str) -> (r:
    ProgramSource)
    ensures
        r.name@ == name@,
        r.kind == kind,
        r.package matches Some(p) && p@ == package@,
        r.description matches Some(d) && d@ == description@,
        r.source@ == source@,
        r.active,
        r.line_count == lines_in(source@),
{
    ProgramSource {
        name: owned(name),
        kind,
        package: Some(owned(package)),
        description: Some(owned(description)),
        source: owned(source),
        active: true,
        line_count: line_count(source),
    }
}

fn member(name: &str, kind: AbapObjectKind, description: &str) -> (r: PackageMember)
    ensures
        r.name@ == name@,
        r.kind == kind,
        r.description matches Some(d) && d@ == description@,
{
    PackageMember { name: owned(name), kind, description: Some(owned(description)) }
}

fn use_of(object: &str, kind: AbapObjectKind, location: &str, usage: &str) -> (r: WhereUsedHit)
    ensures
        r.object@ == object@,
        r.kind == kind,
        r.location@ == location@,
        r.usage@ == usage@,
{
    WhereUsedHit { object: owned(object), kind, location: owned(location), usage: owned(usage) }
}

fn cell(column: &str, value: &str) -> (r: (String, String))
    ensures
        r.0@ == column@,
        r.1@ == value@,
{
    (owned(column), owned(value))
}

/// An object as text: name, kind, package, description and source.
pub type ObjectText = (Seq<char>, AbapObjectKind, Option<Seq<char>>, Option<Seq<char>>, Seq<char>);

/// A CDS view as text: name, root entity, annotations, source and line count (the
/// number of lines of the source).
pub type CdsText = (Seq<char>, Seq<char>, Option<Seq<(Seq<char>, Seq<char>)>>, Seq<char>, usize);

/// A package as text: name, description and members.
pub type PackageText = (Seq<char>, Option<Seq<char>>, Seq<(Seq<char>, AbapObjectKind, Option<Seq<char>>)>);

/// A where-used link as text: the used object's name and kind, and its uses.
pub type UsesText = (Seq<char>, AbapObjectKind, Seq<(Seq<char>, AbapObjectKind, Seq<char>, Seq<char>)>);

/// An object as text: name, kind, package, description and source.
pub open spec fn object_text(p: ProgramSource) -> ObjectText {
    (p.name@, p.kind, opt_view(p.package), opt_view(p.description), p.source@)
}

/// The texts of objects.
pub open spec fn object_texts(s: Seq<ProgramSource>) -> Seq<ObjectText> {
    s.map_values(|p: ProgramSource| object_text(p))
}

/// Every object is active and counts the lines of its source.
pub open spec fn counted(s: Seq<ProgramSource>) -> bool {
    forall|i: int| 0 <= i < s.len() ==> (#[trigger] s[i]).active && s[i].line_count == lines_in(s[i].source@)
}

/// Column/value pairs as text.
pub open spec fn pair_texts(v: Seq<(String, String)>) -> Seq<(Seq<char>, Seq<char>)> {
    v.map_values(|c: (String, String)| (c.0@, c.1@))
}

/// A CDS view as text: name, root entity, annotations, source and line count (the
/// number of lines of the source).
pub open spec fn cds_text(v: CdsView) -> CdsText {
    (
        v.name@,
        v.root_entity@,
        match v.annotations {
            Some(a) => Some(pair_texts(a@)),
            None => None,
        },
        v.source@,
        v.line_count,
    )
}

/// A package as text: name, description and members.
pub open spec fn package_text(p: PackageContents) -> PackageText {
    (p.package@, opt_view(p.description), p.members@.map_values(|m: PackageMember| member_view(m)))
}

/// A use as text: object, kind, location and usage.
pub open spec fn use_text(h: WhereUsedHit) -> (Seq<char>, AbapObjectKind, Seq<char>, Seq<char>) {
    (h.object@, h.kind, h.location@, h.usage@)
}

/// A where-used link as text: the used object's name and kind, and its uses.
pub open spec fn uses_text(w: (String, AbapObjectKind, Vec<WhereUsedHit>)) -> UsesText {
    (w.0@, w.1, w.2@.map_values(|h: WhereUsedHit| use_text(h)))
}

/// A table as text: its name and its rows.
pub open spec fn table_text(t: (String, Vec<TableRow>)) -> (Seq<char>, Seq<Seq<(Seq<char>, Seq<char>)>>) {
    (t.0@, t.1@.map_values(|r: TableRow| pair_texts(r.values@)))
}

/// The seeded programs, as text.
pub open spec fn fixture_programs() -> Seq<ObjectText> {
    seq![
        ("ZFIN_POST_JE"@, AbapObjectKind::Program, Some("ZFIN"@), Some("Post FI journal entries"@), "REPORT zfin_post_je.\n\nINCLUDE zfin_top.\nINCLUDE zfin_f01.\n\nSTART-OF-SELECTION.\n  PERFORM validate.\n  CALL FUNCTION 'BAPI_ACC_DOCUMENT_POST'\n    EXPORTING documentheader = ls_header.\n  CALL FUNCTION 'BAPI_TRANSACTION_COMMIT'.\n"@),
        ("ZMM_GRN_CHECK"@, AbapObjectKind::Program, Some("ZMM"@), Some("Goods receipt reconciliation"@), "REPORT zmm_grn_check.\n\nSTART-OF-SELECTION.\n  CALL FUNCTION 'Z_MM_GRN_VALIDATE'.\n  CALL FUNCTION 'BAPI_GOODSMVT_CREATE'.\n"@),
    ]
}

/// The seeded classes, as text.
pub open spec fn fixture_classes() -> Seq<ObjectText> {
    seq![
        ("ZCL_FIN_POSTER"@, AbapObjectKind::Class, Some("ZFIN"@), Some("FI posting helper class"@), "CLASS zcl_fin_poster DEFINITION PUBLIC FINAL.\n  PUBLIC SECTION.\n    INTERFACES zif_fin_postable.\n    METHODS post_document\n      IMPORTING is_header TYPE bapiache09\n      EXPORTING ev_obj_key TYPE awkey.\nENDCLASS.\n\nCLASS zcl_fin_poster IMPLEMENTATION.\n  METHOD zif_fin_postable~validate.\n    \" cost-centre check\n  ENDMETHOD.\n  METHOD post_document.\n    CALL FUNCTION 'BAPI_ACC_DOCUMENT_POST'\n      EXPORTING documentheader = is_header.\n  ENDMETHOD.\nENDCLASS.\n"@),
        ("ZCL_MM_GRN_VALIDATOR"@, AbapObjectKind::Class, Some("ZMM"@), Some("Goods receipt validator"@), "CLASS zcl_mm_grn_validator DEFINITION PUBLIC FINAL.\n  PUBLIC SECTION.\n    METHODS validate IMPORTING is_grn TYPE mseg RETURNING VALUE(rv_ok) TYPE abap_bool.\nENDCLASS.\n"@),
    ]
}

/// The seeded interfaces, as text.
pub open spec fn fixture_interfaces() -> Seq<ObjectText> {
    seq![
        ("ZIF_FIN_POSTABLE"@, AbapObjectKind::Interface, Some("ZFIN"@), Some("Postable contract"@), "INTERFACE zif_fin_postable PUBLIC.\n  METHODS validate IMPORTING is_header TYPE bapiache09\n                    RETURNING VALUE(rv_ok) TYPE abap_bool.\nENDINTERFACE.\n"@),
    ]
}

/// The seeded includes, as text.
pub open spec fn fixture_includes() -> Seq<ObjectText> {
    seq![
        ("ZFIN_TOP"@, AbapObjectKind::Include, Some("ZFIN"@), Some("ZFIN top include"@), "* Global data definitions for ZFIN_POST_JE\nTYPES: BEGIN OF ty_line,\n         bukrs TYPE bukrs,\n         hkont TYPE hkont,\n         wrbtr TYPE wrbtr,\n       END OF ty_line.\nDATA: gt_lines TYPE STANDARD TABLE OF ty_line.\n"@),
        ("ZFIN_F01"@, AbapObjectKind::Include, Some("ZFIN"@), Some("ZFIN form routines"@), "FORM validate.\n  IF gt_lines IS INITIAL.\n    MESSAGE 'No lines to post' TYPE 'E'.\n  ENDIF.\nENDFORM.\n"@),
    ]
}

/// The seeded function module, as text, with its function group.
pub open spec fn fixture_function_module() -> (Seq<char>, ObjectText) {
    ("ZFIN_UTIL"@, ("Z_FIN_VALIDATE_BUKRS"@, AbapObjectKind::FunctionModule, Some("ZFIN"@), Some("Validate company code"@), "FUNCTION z_fin_validate_bukrs.\n*\"--------------------------------------------------------------\n*\"*\"Local Interface:\n*\"  IMPORTING\n*\"     VALUE(IV_BUKRS) TYPE  BUKRS\n*\"  EXPORTING\n*\"     VALUE(EV_OK) TYPE  ABAP_BOOL\n*\"--------------------------------------------------------------\n  SELECT SINGLE bukrs FROM t001 INTO @DATA(lv_bukrs) WHERE bukrs = @iv_bukrs.\n  ev_ok = COND #( WHEN sy-subrc = 0 THEN abap_true ELSE abap_false ).\nENDFUNCTION.\n"@))
}

/// The seeded CDS view, as text.
pub open spec fn fixture_cds() -> CdsText {
    (
        "Z_C_SALES_ORDER_KPI"@,
        "Z_C_SalesOrderKpi"@,
        Some(seq![
            ("AbapCatalog.sqlViewName"@, "ZSO_KPI"@),
            ("AccessControl.authorizationCheck"@, "#NOT_REQUIRED"@),
            ("EndUserText.label"@, "Sales order KPIs"@),
        ]),
        kpi_source(),
        lines_in(kpi_source()) as usize,
    )
}

/// The source of the seeded CDS view.
pub open spec fn kpi_source() -> Seq<char> {
    "@AbapCatalog.sqlViewName: 'ZSO_KPI'\n@AccessControl.authorizationCheck: #NOT_REQUIRED\n@EndUserText.label: 'Sales order KPIs'\ndefine view Z_C_SalesOrderKpi as select from vbak\n  inner join vbap on vbak.vbeln = vbap.vbeln\n{\n  key vbak.vbeln,\n      vbak.erdat,\n      vbak.auart,\n      vbak.kunnr,\n      sum( vbap.netwr ) as total_net_value\n}\ngroup by vbak.vbeln, vbak.erdat, vbak.auart, vbak.kunnr;\n"@
}

/// The seeded packages, as text.
pub open spec fn fixture_packages() -> Seq<PackageText> {
    seq![
        (
            "ZFIN"@,
            Some("Finance customisations"@),
            seq![
                ("ZFIN_POST_JE"@, AbapObjectKind::Program, Some("Post FI journal entries"@)),
                ("ZCL_FIN_POSTER"@, AbapObjectKind::Class, Some("FI posting helper"@)),
                ("ZIF_FIN_POSTABLE"@, AbapObjectKind::Interface, Some("Postable contract"@)),
                ("ZFIN_TOP"@, AbapObjectKind::Include, Some("ZFIN top include"@)),
                ("ZFIN_F01"@, AbapObjectKind::Include, Some("ZFIN form routines"@)),
                ("ZFIN_UTIL"@, AbapObjectKind::FunctionGroup, Some("FI utility functions"@)),
                ("Z_C_SALES_ORDER_KPI"@, AbapObjectKind::CdsView, Some("Sales order KPIs"@)),
            ],
        ),
        (
            "ZMM"@,
            Some("Materials Management customisations"@),
            seq![
                ("ZMM_GRN_CHECK"@, AbapObjectKind::Program, Some("Goods receipt reconciliation"@)),
                ("ZCL_MM_GRN_VALIDATOR"@, AbapObjectKind::Class, Some("Goods receipt validator"@)),
            ],
        ),
    ]
}

/// The seeded where-used links, as text.
pub open spec fn fixture_where_used() -> Seq<UsesText> {
    seq![
        ("ZIF_FIN_POSTABLE"@, AbapObjectKind::Interface, seq![("ZCL_FIN_POSTER"@, AbapObjectKind::Class, "DEFINITION line 3"@, "implements"@)]),
        ("ZCL_FIN_POSTER"@, AbapObjectKind::Class, seq![("ZFIN_POST_JE"@, AbapObjectKind::Program, "INCLUDE zfin_f01 line 8"@, "call method"@)]),
        ("ZFIN_TOP"@, AbapObjectKind::Include, seq![("ZFIN_POST_JE"@, AbapObjectKind::Program, "main line 3"@, "include"@)]),
    ]
}

/// The seeded tables, as text.
pub open spec fn fixture_tables() -> Seq<(Seq<char>, Seq<Seq<(Seq<char>, Seq<char>)>>)> {
    seq![
        (
            "T001"@,
            seq![
                seq![("BUKRS"@, "1000"@), ("BUTXT"@, "Acme Global HQ"@), ("WAERS"@, "USD"@)],
                seq![("BUKRS"@, "2000"@), ("BUTXT"@, "Acme EMEA"@), ("WAERS"@, "EUR"@)],
            ],
        ),
    ]
}

/// The offline client: objects keyed by their upper-case names.
pub struct MockAdtClient {
    destination: AdtDestination,
    programs: Vec<ProgramSource>,
    classes: Vec<ProgramSource>,
    interfaces: Vec<ProgramSource>,
    includes: Vec<ProgramSource>,
    function_modules: Vec<(String, ProgramSource)>,
    cds_views: Vec<CdsView>,
    packages: Vec<PackageContents>,
    where_used: Vec<(String, AbapObjectKind, Vec<WhereUsedHit>)>,
    tables: Vec<(String, Vec<TableRow>)>,
}

impl MockAdtClient {
    /// The seeded programs.
    pub closed spec fn program_list(&self) -> Seq<ProgramSource> {
        self.programs@
    }

    /// The seeded classes.
    pub closed spec fn class_list(&self) -> Seq<ProgramSource> {
        self.classes@
    }

    /// The seeded interfaces.
    pub closed spec fn interface_list(&self) -> Seq<ProgramSource> {
        self.interfaces@
    }

    /// The seeded includes.
    pub closed spec fn include_list(&self) -> Seq<ProgramSource> {
        self.includes@
    }

    /// The seeded function modules with their function groups.
    pub closed spec fn function_module_list(&self) -> Seq<(String, ProgramSource)> {
        self.function_modules@
    }

    /// The seeded CDS views.
    pub closed spec fn cds_list(&self) -> Seq<CdsView> {
        self.cds_views@
    }

    /// The seeded packages.
    pub closed spec fn package_list(&self) -> Seq<PackageContents> {
        self.packages@
    }

    /// The seeded where-used links: object name, kind and its uses.
    pub closed spec fn where_used_list(&self) -> Seq<(String, AbapObjectKind, Vec<WhereUsedHit>)> {
        self.where_used@
    }

    /// The seeded tables and their rows.
    pub closed spec fn table_list(&self) -> Seq<(String, Vec<TableRow>)> {
        self.tables@
    }

    /// The destination this client answers for.
    pub closed spec fn destination_spec(&self) -> AdtDestination {
        self.destination
    }

    /// A client for `destination` holding the fixtures.
    pub fn new(destination: AdtDestination) -> (c: MockAdtClient)
        ensures
            c.destination_spec() == destination,
            object_texts(c.program_list()) == fixture_programs(),
            object_texts(c.class_list()) == fixture_classes(),
            object_texts(c.interface_list()) == fixture_interfaces(),
            object_texts(c.include_list()) == fixture_includes(),
            counted(c.program_list()),
            counted(c.class_list()),
            counted(c.interface_list()),
            counted(c.include_list()),
            c.function_module_list().len() == 1,
            (c.function_module_list()[0].0@, object_text(c.function_module_list()[0].1)) == fixture_function_module(),
            counted(seq![c.function_module_list()[0].1]),
            c.cds_list().map_values(|v: CdsView| cds_text(v)) == seq![fixture_cds()],
            c.package_list().map_values(|p: PackageContents| package_text(p)) == fixture_packages(),
            c.where_used_list().map_values(|w: (String, AbapObjectKind, Vec<WhereUsedHit>)| uses_text(w))
                == fixture_where_used(),
            c.table_list().map_values(|t: (String, Vec<TableRow>)| table_text(t)) == fixture_tables(),
    {
        let mut s = MockAdtClient {
            destination,
            programs: Vec::new(),
            classes: Vec::new(),
            interfaces: Vec::new(),
            includes: Vec::new(),
            function_modules: Vec::new(),
            cds_views: Vec::new(),
            packages: Vec::new(),
            where_used: Vec::new(),
            tables: Vec::new(),
        };
        s.programs.push(prog("ZFIN_POST_JE", AbapObjectKind::Program, "ZFIN", "Post FI journal entries", "REPORT zfin_post_je.\n\nINCLUDE zfin_top.\nINCLUDE zfin_f01.\n\nSTART-OF-SELECTION.\n  PERFORM validate.\n  CALL FUNCTION 'BAPI_ACC_DOCUMENT_POST'\n    EXPORTING documentheader = ls_header.\n  CALL FUNCTION 'BAPI_TRANSACTION_COMMIT'.\n"));
        s.programs.push(prog("ZMM_GRN_CHECK", AbapObjectKind::Program, "ZMM", "Goods receipt reconciliation", "REPORT zmm_grn_check.\n\nSTART-OF-SELECTION.\n  CALL FUNCTION 'Z_MM_GRN_VALIDATE'.\n  CALL FUNCTION 'BAPI_GOODSMVT_CREATE'.\n"));
        s.classes.push(prog("ZCL_FIN_POSTER", AbapObjectKind::Class, "ZFIN", "FI posting helper class", "CLASS zcl_fin_poster DEFINITION PUBLIC FINAL.\n  PUBLIC SECTION.\n    INTERFACES zif_fin_postable.\n    METHODS post_document\n      IMPORTING is_header TYPE bapiache09\n      EXPORTING ev_obj_key TYPE awkey.\nENDCLASS.\n\nCLASS zcl_fin_poster IMPLEMENTATION.\n  METHOD zif_fin_postable~validate.\n    \" cost-centre check\n  ENDMETHOD.\n  METHOD post_document.\n    CALL FUNCTION 'BAPI_ACC_DOCUMENT_POST'\n      EXPORTING documentheader = is_header.\n  ENDMETHOD.\nENDCLASS.\n"));
        s.classes.push(prog("ZCL_MM_GRN_VALIDATOR", AbapObjectKind::Class, "ZMM", "Goods receipt validator", "CLASS zcl_mm_grn_validator DEFINITION PUBLIC FINAL.\n  PUBLIC SECTION.\n    METHODS validate IMPORTING is_grn TYPE mseg RETURNING VALUE(rv_ok) TYPE abap_bool.\nENDCLASS.\n"));
        s.interfaces.push(prog("ZIF_FIN_POSTABLE", AbapObjectKind::Interface, "ZFIN", "Postable contract", "INTERFACE zif_fin_postable PUBLIC.\n  METHODS validate IMPORTING is_header TYPE bapiache09\n                    RETURNING VALUE(rv_ok) TYPE abap_bool.\nENDINTERFACE.\n"));
        s.includes.push(prog("ZFIN_TOP", AbapObjectKind::Include, "ZFIN", "ZFIN top include", "* Global data definitions for ZFIN_POST_JE\nTYPES: BEGIN OF ty_line,\n         bukrs TYPE bukrs,\n         hkont TYPE hkont,\n         wrbtr TYPE wrbtr,\n       END OF ty_line.\nDATA: gt_lines TYPE STANDARD TABLE OF ty_line.\n"));
        s.includes.push(prog("ZFIN_F01", AbapObjectKind::Include, "ZFIN", "ZFIN form routines", "FORM validate.\n  IF gt_lines IS INITIAL.\n    MESSAGE 'No lines to post' TYPE 'E'.\n  ENDIF.\nENDFORM.\n"));
        s.function_modules.push((String::from_str("ZFIN_UTIL"), prog("Z_FIN_VALIDATE_BUKRS", AbapObjectKind::FunctionModule, "ZFIN", "Validate company code", "FUNCTION z_fin_validate_bukrs.\n*\"--------------------------------------------------------------\n*\"*\"Local Interface:\n*\"  IMPORTING\n*\"     VALUE(IV_BUKRS) TYPE  BUKRS\n*\"  EXPORTING\n*\"     VALUE(EV_OK) TYPE  ABAP_BOOL\n*\"--------------------------------------------------------------\n  SELECT SINGLE bukrs FROM t001 INTO @DATA(lv_bukrs) WHERE bukrs = @iv_bukrs.\n  ev_ok = COND #( WHEN sy-subrc = 0 THEN abap_true ELSE abap_false ).\nENDFUNCTION.\n")));

        let mut annotations: Vec<(String, String)> = Vec::new();
        annotations.push(cell("AbapCatalog.sqlViewName", "ZSO_KPI"));
        annotations.push(cell("AccessControl.authorizationCheck", "#NOT_REQUIRED"));
        annotations.push(cell("EndUserText.label", "Sales order KPIs"));
        let kpi = String::from_str("@AbapCatalog.sqlViewName: 'ZSO_KPI'\n@AccessControl.authorizationCheck: #NOT_REQUIRED\n@EndUserText.label: 'Sales order KPIs'\ndefine view Z_C_SalesOrderKpi as select from vbak\n  inner join vbap on vbak.vbeln = vbap.vbeln\n{\n  key vbak.vbeln,\n      vbak.erdat,\n      vbak.auart,\n      vbak.kunnr,\n      sum( vbap.netwr ) as total_net_value\n}\ngroup by vbak.vbeln, vbak.erdat, vbak.auart, vbak.kunnr;\n");
        let kpi_lines = line_count(kpi.as_str());
        s.cds_views.push(CdsView {
            name: String::from_str("Z_C_SALES_ORDER_KPI"),
            root_entity: String::from_str("Z_C_SalesOrderKpi"),
            annotations: Some(annotations),
            source: kpi,
            line_count: kpi_lines,
        });

        let mut fin: Vec<PackageMember> = Vec::new();
        fin.push(member("ZFIN_POST_JE", AbapObjectKind::Program, "Post FI journal entries"));
        fin.push(member("ZCL_FIN_POSTER", AbapObjectKind::Class, "FI posting helper"));
        fin.push(member("ZIF_FIN_POSTABLE", AbapObjectKind::Interface, "Postable contract"));
        fin.push(member("ZFIN_TOP", AbapObjectKind::Include, "ZFIN top include"));
        fin.push(member("ZFIN_F01", AbapObjectKind::Include, "ZFIN form routines"));
        fin.push(member("ZFIN_UTIL", AbapObjectKind::FunctionGroup, "FI utility functions"));
        fin.push(member("Z_C_SALES_ORDER_KPI", AbapObjectKind::CdsView, "Sales order KPIs"));
        s.packages.push(PackageContents {
            package: String::from_str("ZFIN"),
            description: Some(String::from_str("Finance customisations")),
            members: fin,
        });
        let mut mm: Vec<PackageMember> = Vec::new();
        mm.push(member("ZMM_GRN_CHECK", AbapObjectKind::Program, "Goods receipt reconciliation"));
        mm.push(member("ZCL_MM_GRN_VALIDATOR", AbapObjectKind::Class, "Goods receipt validator"));
        s.packages.push(PackageContents {
            package: String::from_str("ZMM"),
            description: Some(String::from_str("Materials Management customisations")),
            members: mm,
        });

        let mut w1: Vec<WhereUsedHit> = Vec::new();
        w1.push(use_of("ZCL_FIN_POSTER", AbapObjectKind::Class, "DEFINITION line 3", "implements"));
        s.where_used.push((String::from_str("ZIF_FIN_POSTABLE"), AbapObjectKind::Interface, w1));
        let mut w2: Vec<WhereUsedHit> = Vec::new();
        w2.push(use_of("ZFIN_POST_JE", AbapObjectKind::Program, "INCLUDE zfin_f01 line 8", "call method"));
        s.where_used.push((String::from_str("ZCL_FIN_POSTER"), AbapObjectKind::Class, w2));
        let mut w3: Vec<WhereUsedHit> = Vec::new();
        w3.push(use_of("ZFIN_POST_JE", AbapObjectKind::Program, "main line 3", "include"));
        s.where_used.push((String::from_str("ZFIN_TOP"), AbapObjectKind::Include, w3));

        let mut r1: Vec<(String, String)> = Vec::new();
        r1.push(cell("BUKRS", "1000"));
        r1.push(cell("BUTXT", "Acme Global HQ"));
        r1.push(cell("WAERS", "USD"));
        let mut r2: Vec<(String, String)> = Vec::new();
        r2.push(cell("BUKRS", "2000"));
        r2.push(cell("BUTXT", "Acme EMEA"));
        r2.push(cell("WAERS", "EUR"));
        let mut rows: Vec<TableRow> = Vec::new();
        rows.push(TableRow { values: r1 });
        rows.push(TableRow { values: r2 });
        s.tables.push((String::from_str("T001"), rows));
        proof {
            assert(object_texts(s.programs@) =~= fixture_programs());
            assert(object_texts(s.classes@) =~= fixture_classes());
            assert(object_texts(s.interfaces@) =~= fixture_interfaces());
            assert(object_texts(s.includes@) =~= fixture_includes());
            assert(s.cds_views@[0].annotations.unwrap()@.map_values(|c: (String, String)| (c.0@, c.1@)) =~= fixture_cds().2.unwrap());
            assert(s.cds_views@.map_values(|v: CdsView| cds_text(v)) =~= seq![fixture_cds()]);
            assert(s.packages@[0].members@.map_values(|m: PackageMember| member_view(m)) =~= fixture_packages()[0].2);
            assert(s.packages@[1].members@.map_values(|m: PackageMember| member_view(m)) =~= fixture_packages()[1].2);
            assert(s.packages@.map_values(|p: PackageContents| package_text(p)) =~= fixture_packages());
            assert(s.where_used@[0].2@.map_values(|h: WhereUsedHit| use_text(h)) =~= fixture_where_used()[0].2);
            assert(s.where_used@[1].2@.map_values(|h: WhereUsedHit| use_text(h)) =~= fixture_where_used()[1].2);
            assert(s.where_used@[2].2@.map_values(|h: WhereUsedHit| use_text(h)) =~= fixture_where_used()[2].2);
            assert(s.where_used@.map_values(|w: (String, AbapObjectKind, Vec<WhereUsedHit>)| uses_text(w)) =~= fixture_where_used());
            assert(pair_texts(s.tables@[0].1@[0].values@) =~= fixture_tables()[0].1[0]);
            assert(pair_texts(s.tables@[0].1@[1].values@) =~= fixture_tables()[0].1[1]);
            assert(s.tables@[0].1@.map_values(|r: TableRow| pair_texts(r.values@)) =~= fixture_tables()[0].1);
            assert(s.tables@.map_values(|t: (String, Vec<TableRow>)| table_text(t)) =~= fixture_tables());
        }
        s
    }

    /// The destination this client answers for.
    pub fn destination(&self) -> (r: &AdtDestination)
        ensures
            *r == self.destination_spec(),
    {
        &self.destination
    }
}

/// The object of `list` named `name` in upper case, or `NotFound` naming the kind.
pub open spec fn lookup_result(
    list: Seq<ProgramSource>,
    name: Seq<char>,
    kind: AbapObjectKind,
    r: Result<ProgramSource, AdtError>,
) -> bool {
    let i = first_index(list, named(uppercase(name)));
    if i >= 0 {
        r == Ok::<ProgramSource, AdtError>(list[i])
    } else {
        r matches Err(AdtError::NotFound { kind: k, name: n }) && k@ == kind_label(kind) && n@ == name
    }
}

/// Looks `name` up, case-insensitively, among `list`.
pub fn get_object(list: &Vec<ProgramSource>, name: &str, kind: AbapObjectKind) -> (r: Result<
    ProgramSource,
    AdtError,
>)
    ensures
        lookup_result(list@, name@, kind, r),
{
    let key = to_upper(name);
    let ghost f = named(key@);
    let mut i: usize = 0;
    while i < list.len()
        invariant
            i <= list@.len(),
            f == named(key@),
            key@ == uppercase(name@),
            first_from(list@, f, 0) == first_from(list@, f, i as int),
        decreases list@.len() - i,
    {
        if str_eq(list[i].name.as_str(), key.as_str()) {
            assert(f(list@[i as int]));
            return Ok(list[i].copy());
        }
        i = i + 1;
    }
    Err(AdtError::NotFound { kind: owned(kind.label()), name: owned(name) })
}

/// The function module named `name` in group `group`, both compared in upper case.
pub open spec fn fm_key(group: Seq<char>, name: Seq<char>) -> spec_fn((String, ProgramSource)) -> bool {
    |e: (String, ProgramSource)| e.0@ == group && e.1.name@ == name
}

/// A CDS view named `key`.
pub open spec fn cds_named(key: Seq<char>) -> spec_fn(CdsView) -> bool {
    |v: CdsView| v.name@ == key
}

/// A package named `key`.
pub open spec fn package_named(key: Seq<char>) -> spec_fn(PackageContents) -> bool {
    |p: PackageContents| p.package@ == key
}

/// The where-used entry of object `name` of kind `kind`.
pub open spec fn uses_of(name: Seq<char>, kind: AbapObjectKind) -> spec_fn(
    (String, AbapObjectKind, Vec<WhereUsedHit>),
) -> bool {
    |e: (String, AbapObjectKind, Vec<WhereUsedHit>)| e.0@ == name && e.1 == kind
}

/// The table named `key`.
pub open spec fn table_named(key: Seq<char>) -> spec_fn((String, Vec<TableRow>)) -> bool {
    |e: (String, Vec<TableRow>)| e.0@ == key
}

/// The rows of a table.
pub open spec fn row_values(rows: Seq<TableRow>) -> Seq<Seq<(String, String)>> {
    rows.map_values(|r: TableRow| r.values@)
}

impl MockAdtClient {
    /// The program `name` (any case).
    pub fn get_program(&self, name: &str) -> (r: Result<ProgramSource, AdtError>)
        ensures
            lookup_result(self.program_list(), name@, AbapObjectKind::Program, r),
    {
        get_object(&self.programs, name, AbapObjectKind::Program)
    }

    /// The class `name` (any case).
    pub fn get_class(&self, name: &str) -> (r: Result<ProgramSource, AdtError>)
        ensures
            lookup_result(self.class_list(), name@, AbapObjectKind::Class, r),
    {
        get_object(&self.classes, name, AbapObjectKind::Class)
    }

    /// The interface `name` (any case).
    pub fn get_interface(&self, name: &str) -> (r: Result<ProgramSource, AdtError>)
        ensures
            lookup_result(self.interface_list(), name@, AbapObjectKind::Interface, r),
    {
        get_object(&self.interfaces, name, AbapObjectKind::Interface)
    }

    /// The include `name` (any case).
    pub fn get_include(&self, name: &str) -> (r: Result<ProgramSource, AdtError>)
        ensures
            lookup_result(self.include_list(), name@, AbapObjectKind::Include, r),
    {
        get_object(&self.includes, name, AbapObjectKind::Include)
    }

    /// The function module `name` of function group `group` (any case).
    pub fn get_function_module(&self, group: &str, name: &str) -> (r: Result<ProgramSource, AdtError>)
        ensures
            ({
                let i = first_index(
                    self.function_module_list(),
                    fm_key(uppercase(group@), uppercase(name@)),
                );
                if i >= 0 {
                    r == Ok::<ProgramSource, AdtError>(self.function_module_list()[i].1)
                } else {
                    r matches Err(AdtError::NotFound { kind: k, name: n }) && k@ == "FunctionModule"@
                        && n@ == group@ + "/"@ + name@
                }
            }),
    {
        let g = to_upper(group);
        let n = to_upper(name);
        let ghost f = fm_key(g@, n@);
        let mut i: usize = 0;
        while i < self.function_modules.len()
            invariant
                i <= self.function_modules@.len(),
                f == fm_key(g@, n@),
                g@ == uppercase(group@),
                n@ == uppercase(name@),
                first_from(self.function_modules@, f, 0) == first_from(self.function_modules@, f, i as int),
            decreases self.function_modules@.len() - i,
        {
            let e = &self.function_modules[i];
            if str_eq(e.0.as_str(), g.as_str()) && str_eq(e.1.name.as_str(), n.as_str()) {
                assert(f(self.function_modules@[i as int]));
                return Ok(e.1.copy());
            }
            i = i + 1;
        }
        Err(AdtError::NotFound { kind: String::from_str("FunctionModule"), name: concat3(group, "/", name) })
    }

    /// The contents of package `package` (any case).
    pub fn get_package_contents(&self, package: &str) -> (r: Result<PackageContents, AdtError>)
        ensures
            ({
                let i = first_index(self.package_list(), package_named(uppercase(package@)));
                if i >= 0 {
                    r matches Ok(p) && same_package(p, self.package_list()[i])
                } else {
                    r matches Err(AdtError::NotFound { kind: k, name: n }) && k@ == "Package"@
                        && n@ == package@
                }
            }),
    {
        let key = to_upper(package);
        let ghost f = package_named(key@);
        let mut i: usize = 0;
        while i < self.packages.len()
            invariant
                i <= self.packages@.len(),
                f == package_named(key@),
                key@ == uppercase(package@),
                first_from(self.packages@, f, 0) == first_from(self.packages@, f, i as int),
            decreases self.packages@.len() - i,
        {
            if str_eq(self.packages[i].package.as_str(), key.as_str()) {
                assert(f(self.packages@[i as int]));
                return Ok(self.packages[i].copy());
            }
            i = i + 1;
        }
        Err(AdtError::NotFound { kind: String::from_str("Package"), name: owned(package) })
    }

    /// The CDS view `name` (any case).
    pub fn get_cds_view(&self, name: &str) -> (r: Result<CdsView, AdtError>)
        ensures
            ({
                let i = first_index(self.cds_list(), cds_named(uppercase(name@)));
                if i >= 0 {
                    r matches Ok(v) && same_cds(v, self.cds_list()[i])
                } else {
                    r matches Err(AdtError::NotFound { kind: k, name: n }) && k@ == "CdsView"@
                        && n@ == name@
                }
            }),
    {
        let key = to_upper(name);
        let ghost f = cds_named(key@);
        let mut i: usize = 0;
        while i < self.cds_views.len()
            invariant
                i <= self.cds_views@.len(),
                f == cds_named(key@),
                key@ == uppercase(name@),
                first_from(self.cds_views@, f, 0) == first_from(self.cds_views@, f, i as int),
            decreases self.cds_views@.len() - i,
        {
            if str_eq(self.cds_views[i].name.as_str(), key.as_str()) {
                assert(f(self.cds_views@[i as int]));
                return Ok(self.cds_views[i].copy());
            }
            i = i + 1;
        }
        Err(AdtError::NotFound { kind: String::from_str("CdsView"), name: owned(name) })
    }

    /// The recorded uses of an object (any case); none when nothing is recorded.
    pub fn where_used(&self, request: &WhereUsedRequest) -> (r: Result<Vec<WhereUsedHit>, AdtError>)
        ensures
            ({
                let i = first_index(
                    self.where_used_list(),
                    uses_of(uppercase(request.name@), request.kind),
                );
                r matches Ok(v) && if i >= 0 {
                    v@ == self.where_used_list()[i].2@
                } else {
                    v@.len() == 0
                }
            }),
    {
        let key = to_upper(request.name.as_str());
        let ghost f = uses_of(key@, request.kind);
        let mut i: usize = 0;
        while i < self.where_used.len()
            invariant
                i <= self.where_used@.len(),
                f == uses_of(key@, request.kind),
                key@ == uppercase(request.name@),
                first_from(self.where_used@, f, 0) == first_from(self.where_used@, f, i as int),
            decreases self.where_used@.len() - i,
        {
            let e = &self.where_used[i];
            if str_eq(e.0.as_str(), key.as_str()) && e.1 == request.kind {
                assert(f(self.where_used@[i as int]));
                let mut out: Vec<WhereUsedHit> = Vec::new();
                let mut k: usize = 0;
                while k < e.2.len()
                    invariant
                        k <= e.2@.len(),
                        out@ == e.2@.take(k as int),
                    decreases e.2@.len() - k,
                {
                    out.push(e.2[k].copy());
                    assert(e.2@.take(k + 1) =~= e.2@.take(k as int).push(e.2@[k as int]));
                    k = k + 1;
                }
                assert(e.2@.take(e.2@.len() as int) =~= e.2@);
                return Ok(out);
            }
            i = i + 1;
        }
        Ok(Vec::new())
    }

    /// Up to `max_rows` rows of `table` (any case).  The row count must lie in
    /// `1..=MAX_TABLE_ROWS`; `BSEG` stands for a table whose preview the backend blocks.
    pub fn get_table_contents(&self, table: &str, max_rows: usize) -> (r: Result<Vec<TableRow>, AdtError>)
        ensures
            (max_rows == 0 || max_rows > MAX_TABLE_ROWS) ==> (r matches Err(
                AdtError::InvalidObjectName(m),
            ) && m@ == "max_rows must be in 1..=1000, got "@ + crate::text::decimal(max_rows as nat)),
            1 <= max_rows <= MAX_TABLE_ROWS && crate::text::eq_ascii_nocase(table@, "BSEG"@) ==> (
            r matches Err(AdtError::DataPreviewBlocked(m)) && m@ == "table "@ + table@
                + " is blocked from ADT data preview; fall back to sap.table.read (RFC) or RFC_READ_TABLE"@),
            1 <= max_rows <= MAX_TABLE_ROWS && !crate::text::eq_ascii_nocase(table@, "BSEG"@) ==> ({
                let i = first_index(self.table_list(), table_named(uppercase(table@)));
                if i >= 0 {
                    let rows = self.table_list()[i].1@;
                    let k = if max_rows < rows.len() { max_rows as int } else { rows.len() as int };
                    r matches Ok(v) && row_values(v@) == row_values(rows.take(k))
                } else {
                    r matches Err(AdtError::NotFound { kind: kd, name: n }) && kd@ == "Table"@
                        && n@ == table@
                }
            }),
    {
        if max_rows == 0 || max_rows > MAX_TABLE_ROWS {
            let d = crate::text::decimal_string(max_rows as u64);
            return Err(AdtError::InvalidObjectName(concat2("max_rows must be in 1..=1000, got ", d.as_str())));
        }
        if crate::text::eq_ignore_ascii_case(table, "BSEG") {
            return Err(AdtError::DataPreviewBlocked(concat3(
                "table ",
                table,
                " is blocked from ADT data preview; fall back to sap.table.read (RFC) or RFC_READ_TABLE",
            )));
        }
        let key = to_upper(table);
        let ghost f = table_named(key@);
        let mut i: usize = 0;
        while i < self.tables.len()
            invariant
                i <= self.tables@.len(),
                f == table_named(key@),
                key@ == uppercase(table@),
                1 <= max_rows <= MAX_TABLE_ROWS,
                !crate::text::eq_ascii_nocase(table@, "BSEG"@),
                first_from(self.tables@, f, 0) == first_from(self.tables@, f, i as int),
            decreases self.tables@.len() - i,
        {
            let e = &self.tables[i];
            if str_eq(e.0.as_str(), key.as_str()) {
                assert(f(self.tables@[i as int]));
                let mut out: Vec<TableRow> = Vec::new();
                let mut k: usize = 0;
                while k < e.1.len() && k < max_rows
                    invariant
                        k <= e.1@.len(),
                        k <= max_rows,
                        out@.len() == k,
                        row_values(out@) == row_values(e.1@.take(k as int)),
                    decreases e.1@.len() - k,
                {
                    let row = e.1[k].copy();
                    proof {
                        assert(e.1@.take(k + 1) =~= e.1@.take(k as int).push(e.1@[k as int]));
                    }
                    let ghost before = out@;
                    out.push(row);
                    assert forall|j: int| 0 <= j < k + 1 implies row_values(out@)[j] == row_values(
                        e.1@.take(k + 1),
                    )[j] by {
                        if j < k {
                            assert(row_values(before)[j] == row_values(e.1@.take(k as int))[j]);
                        }
                    }
                    assert(row_values(out@) =~= row_values(e.1@.take(k + 1)));
                    k = k + 1;
                }
                return Ok(out);
            }
            i = i + 1;
        }
        Err(AdtError::NotFound { kind: String::from_str("Table"), name: owned(table) })
    }

    /// Activation: refused in read-only mode, otherwise acknowledged.
    pub fn activate(&self, request: &ActivationRequest, ctx: AdtCallContext) -> (r: Result<
        ActivationOutcome,
        AdtError,
    >)
        ensures
            ctx.read_only ==> (r matches Err(e) && crate::adt::http::read_only_refusal(*request, e)),
            !ctx.read_only ==> (r matches Ok(o) && o.name == request.name && o.kind == request.kind
                && o.activated && o.messages@.len() == 1 && o.messages@[0]@ == kind_label(request.kind)
                + " "@ + request.name@ + " activated (mock)"@),
    {
        match activation_gate(request, ctx.read_only) {
            Err(e) => Err(e),
            Ok(()) => {
                let a = concat3(request.kind.label(), " ", request.name.as_str());
                let mut messages: Vec<String> = Vec::new();
                messages.push(concat2(a.as_str(), " activated (mock)"));
                Ok(ActivationOutcome { name: request.name.clone(), kind: request.kind, activated: true, messages })
            },
        }
    }
}

// ---------------------------------------------------------------------------
// search
// ---------------------------------------------------------------------------

/// The text of an optional string, empty when absent.
pub open spec fn or_empty(o: Option<String>) -> Seq<char> {
    match o {
        Some(s) => s@,
        None => Seq::empty(),
    }
}

/// Whether a search restricted to `want` (if anything) accepts kind `k`.
pub open spec fn kind_wanted(want: Option<AbapObjectKind>, k: AbapObjectKind) -> bool {
    match want {
        Some(w) => w == k,
        None => true,
    }
}

/// The text an object is scored on: its name and description, and for programs and
/// classes its package too, separated by spaces.
pub open spec fn source_hay(p: ProgramSource, with_package: bool) -> Seq<char> {
    if with_package {
        p.name@ + " "@ + or_empty(p.description) + " "@ + or_empty(p.package)
    } else {
        p.name@ + " "@ + or_empty(p.description)
    }
}

/// The search hit for an object.
pub open spec fn source_hit(p: ProgramSource, score: u64) -> AdtSearchHit {
    AdtSearchHit { name: p.name, kind: p.kind, description: p.description, package: p.package, score }
}

/// `(score, hit)` for each object of `list` of a wanted kind whose text the terms
/// occur in, in list order; the score counts the occurrences in the lower-cased text.
pub open spec fn source_candidates(
    list: Seq<ProgramSource>,
    with_package: bool,
    terms: Seq<Seq<char>>,
    want: Option<AbapObjectKind>,
) -> Seq<(u64, AdtSearchHit)>
    decreases list.len(),
{
    if list.len() == 0 {
        Seq::empty()
    } else {
        let rest = source_candidates(list.drop_last(), with_package, terms, want);
        let p = list.last();
        let s = score_of(lowercase(source_hay(p, with_package)), terms);
        if kind_wanted(want, p.kind) && s > 0 { rest.push((s, source_hit(p, s))) } else { rest }
    }
}

/// `(score, hit)` for each wanted CDS view whose name and root entity the terms occur in.
pub open spec fn cds_candidates(
    list: Seq<CdsView>,
    terms: Seq<Seq<char>>,
    want: Option<AbapObjectKind>,
) -> Seq<(u64, AdtSearchHit)>
    decreases list.len(),
{
    if list.len() == 0 {
        Seq::empty()
    } else {
        let rest = cds_candidates(list.drop_last(), terms, want);
        let v = list.last();
        let s = score_of(lowercase(v.name@ + " "@ + v.root_entity@), terms);
        if kind_wanted(want, AbapObjectKind::CdsView) && s > 0 {
            rest.push(
                (
                    s,
                    AdtSearchHit {
                        name: v.name,
                        kind: AbapObjectKind::CdsView,
                        description: None,
                        package: None,
                        score: s,
                    },
                ),
            )
        } else {
            rest
        }
    }
}

/// The sources of the function modules.
pub open spec fn fm_sources(list: Seq<(String, ProgramSource)>) -> Seq<ProgramSource> {
    list.map_values(|e: (String, ProgramSource)| e.1)
}

/// The search terms of a query: its lower-cased whitespace-separated words.
pub open spec fn search_terms(query: Seq<char>) -> Seq<Seq<char>> {
    words(lowercase(query))
}

/// What a search returns: the candidates of programs, classes, interfaces, function
/// modules and CDS views, ordered by score (highest first, list order among equals),
/// cut to `max(max_results, 1)` hits.
pub open spec fn search_result(c: MockAdtClient, request: AdtSearchRequest) -> Seq<AdtSearchHit> {
    let terms = search_terms(request.query@);
    let want = request.kind;
    let all = source_candidates(c.program_list(), true, terms, want) + source_candidates(
        c.class_list(),
        true,
        terms,
        want,
    ) + source_candidates(c.interface_list(), false, terms, want) + source_candidates(
        fm_sources(c.function_module_list()),
        false,
        terms,
        want,
    ) + cds_candidates(c.cds_list(), terms, want);
    let ranked = sort_desc(all);
    let cap: int = if request.max_results > 1 { request.max_results as int } else { 1 };
    let k = if cap < ranked.len() { cap } else { ranked.len() as int };
    ranked.take(k).map_values(|x: (u64, AdtSearchHit)| x.1)
}

fn text_of(o: &Option<String>) -> (r: &str)
    ensures
        r@ == or_empty(*o),
{
    match o {
        Some(s) => s.as_str(),
        None => {
            proof {
                reveal_strlit("");
            }
            ""
        },
    }
}

fn collect_sources(
    list: &Vec<ProgramSource>,
    with_package: bool,
    terms: &Vec<String>,
    want: Option<AbapObjectKind>,
    out: &mut Vec<(u64, AdtSearchHit)>,
)
    requires
        forall|k: int| 0 <= k < terms@.len() ==> terms@[k]@.len() > 0,
    ensures
        final(out)@ == old(out)@ + source_candidates(list@, with_package, views(terms@), want),
{
    let ghost start = out@;
    let mut i: usize = 0;
    while i < list.len()
        invariant
            i <= list@.len(),
            forall|k: int| 0 <= k < terms@.len() ==> terms@[k]@.len() > 0,
            out@ == start + source_candidates(list@.take(i as int), with_package, views(terms@), want),
        decreases list@.len() - i,
    {
        let p = &list[i];
        assert(list@.take(i + 1).drop_last() =~= list@.take(i as int));
        let a = concat3(p.name.as_str(), " ", text_of(&p.description));
        let hay = if with_package {
            concat3(a.as_str(), " ", text_of(&p.package))
        } else {
            a
        };
        let low = to_lower(hay.as_str());
        let s = score_terms(low.as_str(), terms);
        let wanted = match want {
            Some(w) => w == p.kind,
            None => true,
        };
        if wanted && s > 0 {
            out.push(
                (
                    s,
                    AdtSearchHit {
                        name: p.name.clone(),
                        kind: p.kind,
                        description: copy_opt(&p.description),
                        package: copy_opt(&p.package),
                        score: s,
                    },
                ),
            );
        }
        assert(out@ =~= start + source_candidates(list@.take(i + 1), with_package, views(terms@), want));
        i = i + 1;
    }
    assert(list@.take(list@.len() as int) =~= list@);
}

impl MockAdtClient {
    /// Searches the fixtures (see `search_result`).
    pub fn search(&self, request: &AdtSearchRequest) -> (r: Result<Vec<AdtSearchHit>, AdtError>)
        ensures
            r matches Ok(v) && v@ == search_result(*self, *request),
    {
        let q = to_lower(request.query.as_str());
        let terms = split_whitespace(q.as_str());
        let want = request.kind;
        let mut scored: Vec<(u64, AdtSearchHit)> = Vec::new();
        collect_sources(&self.programs, true, &terms, want, &mut scored);
        collect_sources(&self.classes, true, &terms, want, &mut scored);
        collect_sources(&self.interfaces, false, &terms, want, &mut scored);
        let mut fms: Vec<ProgramSource> = Vec::new();
        let mut i: usize = 0;
        while i < self.function_modules.len()
            invariant
                i <= self.function_modules@.len(),
                fms@ == fm_sources(self.function_modules@.take(i as int)),
            decreases self.function_modules@.len() - i,
        {
            fms.push(self.function_modules[i].1.copy());
            assert(fm_sources(self.function_modules@.take(i + 1)) =~= fm_sources(
                self.function_modules@.take(i as int),
            ).push(self.function_modules@[i as int].1));
            i = i + 1;
        }
        assert(self.function_modules@.take(self.function_modules@.len() as int)
            =~= self.function_modules@);
        collect_sources(&fms, false, &terms, want, &mut scored);
        let ghost before_cds = scored@;
        let mut j: usize = 0;
        while j < self.cds_views.len()
            invariant
                j <= self.cds_views@.len(),
                forall|k: int| 0 <= k < terms@.len() ==> terms@[k]@.len() > 0,
                scored@ == before_cds + cds_candidates(self.cds_views@.take(j as int), views(terms@), want),
            decreases self.cds_views@.len() - j,
        {
            let v = &self.cds_views[j];
            assert(self.cds_views@.take(j + 1).drop_last() =~= self.cds_views@.take(j as int));
            let hay = concat3(v.name.as_str(), " ", v.root_entity.as_str());
            let low = to_lower(hay.as_str());
            let s = score_terms(low.as_str(), &terms);
            let wanted = match want {
                Some(w) => w == AbapObjectKind::CdsView,
                None => true,
            };
            if wanted && s > 0 {
                scored.push(
                    (
                        s,
                        AdtSearchHit {
                            name: v.name.clone(),
                            kind: AbapObjectKind::CdsView,
                            description: None,
                            package: None,
                            score: s,
                        },
                    ),
                );
            }
            assert(scored@ =~= before_cds + cds_candidates(self.cds_views@.take(j + 1), views(terms@), want));
            j = j + 1;
        }
        assert(self.cds_views@.take(self.cds_views@.len() as int) =~= self.cds_views@);
        let ranked = sort_by_score_desc(scored);
        let cap = if request.max_results > 1 { request.max_results } else { 1 };
        let mut hits: Vec<AdtSearchHit> = Vec::new();
        let mut k: usize = 0;
        while k < ranked.len() && k < cap
            invariant
                k <= ranked@.len(),
                k <= cap,
                hits@ == ranked@.take(k as int).map_values(|x: (u64, AdtSearchHit)| x.1),
            decreases ranked@.len() - k,
        {
            let h = &ranked[k].1;
            hits.push(AdtSearchHit {
                name: h.name.clone(),
                kind: h.kind,
                description: copy_opt(&h.description),
                package: copy_opt(&h.package),
                score: h.score,
            });
            assert(ranked@.take(k + 1).map_values(|x: (u64, AdtSearchHit)| x.1) =~= ranked@.take(
                k as int,
            ).map_values(|x: (u64, AdtSearchHit)| x.1).push(ranked@[k as int].1));
            k = k + 1;
        }
        assert(views(terms@) == search_terms(request.query@));
        Ok(hits)
    }
}

} // verus!

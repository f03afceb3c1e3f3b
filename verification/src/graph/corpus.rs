//! The cross-domain SAP demonstration corpus: ABAP objects, RFCs, tables, BPMN
//! processes, LeanIX applications, help pages and the concepts that tie them.
use vstd::prelude::*;
use crate::graph::entity::{Edge, EdgeKind, Entity, EntityKind};
use crate::graph::store::{lemma_position_bounds, position, upsert, InMemoryGraph};
use crate::text::{owned, str_eq, views};

verus! {

/// The identity of an edge: its endpoints and kind.
pub open spec fn edge_key(e: Edge) -> (Seq<char>, Seq<char>, EdgeKind) {
    (e.from@, e.to@, e.kind)
}

/// Whether some edge of `s` has identity `k`.
pub open spec fn has_key(s: Seq<Edge>, k: (Seq<char>, Seq<char>, EdgeKind)) -> bool {
    exists|i: int| 0 <= i < s.len() && edge_key(#[trigger] s[i]) == k
}

/// The identity recorded for an added edge.
pub open spec fn key_view(k: (String, String, EdgeKind)) -> (Seq<char>, Seq<char>, EdgeKind) {
    (k.0@, k.1@, k.2)
}

/// Whether identity `k` has been recorded.
pub open spec fn kept_has(kept: Seq<(String, String, EdgeKind)>, k: (Seq<char>, Seq<char>, EdgeKind)) -> bool {
    exists|j: int| 0 <= j < kept.len() && key_view(#[trigger] kept[j]) == k
}

/// The first edge of each identity, in order.
pub open spec fn first_of_each(s: Seq<Edge>) -> Seq<Edge>
    decreases s.len(),
{
    if s.len() == 0 {
        Seq::empty()
    } else {
        let d = first_of_each(s.drop_last());
        if has_key(s.drop_last(), edge_key(s.last())) { d } else { d.push(s.last()) }
    }
}

pub proof fn lemma_first_of_each_keys(s: Seq<Edge>, k: (Seq<char>, Seq<char>, EdgeKind))
    ensures
        has_key(first_of_each(s), k) == has_key(s, k),
    decreases s.len(),
{
    if s.len() > 0 {
        let p = s.drop_last();
        lemma_first_of_each_keys(p, k);
        let d = first_of_each(p);
        if has_key(s, k) && !has_key(p, k) {
            assert(edge_key(s.last()) == k) by {
                let i = choose|i: int| 0 <= i < s.len() && edge_key(#[trigger] s[i]) == k;
                if i < p.len() {
                    assert(p[i] == s[i]);
                }
            }
        }
        if has_key(p, k) {
            let i = choose|i: int| 0 <= i < p.len() && edge_key(#[trigger] p[i]) == k;
            assert(s[i] == p[i]);
        }
        if has_key(d, k) {
            let i = choose|i: int| 0 <= i < d.len() && edge_key(#[trigger] d[i]) == k;
            if !has_key(p, edge_key(s.last())) {
                assert(first_of_each(s)[i] == d[i]);
            }
        }
        if !has_key(p, edge_key(s.last())) {
            assert(first_of_each(s).last() == s.last());
            assert(edge_key(first_of_each(s)[first_of_each(s).len() - 1]) == edge_key(s.last()));
        }
        if has_key(first_of_each(s), k) && !has_key(p, edge_key(s.last())) {
            let i = choose|i: int| 0 <= i < first_of_each(s).len() && edge_key(
                #[trigger] first_of_each(s)[i],
            ) == k;
            if i < d.len() {
                assert(first_of_each(s)[i] == d[i]);
            }
        }
    }
}

impl InMemoryGraph {
    /// Adds the edges of `edges` in order, skipping any whose endpoints and kind
    /// repeat an earlier edge of the list.
    pub fn add_edges_once(&mut self, edges: Vec<Edge>)
        requires
            old(self).wf(),
        ensures
            final(self).wf(),
            final(self).node_list() == old(self).node_list(),
            final(self).edge_list() == old(self).edge_list() + first_of_each(edges@),
    {
        let ghost start = self.edge_list();
        let mut kept: Vec<(String, String, EdgeKind)> = Vec::new();
        let mut src = edges;
        let ghost all = src@;
        let n = src.len();
        let mut i: usize = 0;
        while i < n
            invariant
                n == all.len(),
                i <= n,
                src@.len() == n - i,
                src@ == all.skip(i as int),
                self.wf(),
                self.node_list() == old(self).node_list(),
                self.edge_list() == start + first_of_each(all.take(i as int)),
                forall|k: (Seq<char>, Seq<char>, EdgeKind)|
                    #[trigger] has_key(all.take(i as int), k) == kept_has(kept@, k),
            decreases n - i,
        {
            let ghost before = src@;
            let e = src.remove(0);
            assert(e == all[i as int]);
            assert(src@ =~= all.skip(i + 1));
            let mut j: usize = 0;
            let mut dup = false;
            while j < kept.len()
                invariant
                    j <= kept@.len(),
                    !dup ==> forall|m: int| 0 <= m < j ==> key_view(#[trigger] kept@[m]) != edge_key(e),
                    dup ==> kept_has(kept@, edge_key(e)),
                decreases kept@.len() - j,
            {
                if !dup && str_eq(kept[j].0.as_str(), e.from.as_str()) && str_eq(
                    kept[j].1.as_str(),
                    e.to.as_str(),
                ) && kept[j].2 == e.kind {
                    dup = true;
                }
                j = j + 1;
            }
            proof {
                assert(all.take(i + 1).drop_last() =~= all.take(i as int));
                assert(all.take(i + 1).last() == e);
            }
            if !dup {
                let key = (e.from.clone(), e.to.clone(), e.kind);
                let ghost old_kept = kept@;
                kept.push(key);
                assert(kept@.drop_last() =~= old_kept);
                self.add_edge(e);
                proof {
                    assert(self.edge_list() =~= start + first_of_each(all.take(i + 1)));
                    assert forall|k: (Seq<char>, Seq<char>, EdgeKind)|
                        #[trigger] has_key(all.take(i + 1), k) == kept_has(kept@, k) by {
                        let t = all.take(i + 1);
                        if has_key(t, k) {
                            let q = choose|q: int| 0 <= q < t.len() && edge_key(#[trigger] t[q]) == k;
                            if q < i {
                                assert(all.take(i as int)[q] == t[q]);
                                assert(has_key(all.take(i as int), k));
                                assert(kept_has(kept@.drop_last(), k));
                                let m = choose|m: int|
                                    0 <= m < kept@.drop_last().len() && key_view(
                                        #[trigger] kept@.drop_last()[m],
                                    ) == k;
                                assert(kept@[m] == kept@.drop_last()[m]);
                            } else {
                                assert(kept@[kept@.len() - 1] == key);
                            }
                        }
                        if kept_has(kept@, k) {
                            let m = choose|m: int|
                                0 <= m < kept@.len() && key_view(#[trigger] kept@[m]) == k;
                            if m < kept@.len() - 1 {
                                assert(kept@.drop_last()[m] == kept@[m]);
                                assert(kept_has(kept@.drop_last(), k));
                                assert(has_key(all.take(i as int), k));
                                let q = choose|q: int|
                                    0 <= q < all.take(i as int).len() && edge_key(
                                        #[trigger] all.take(i as int)[q],
                                    ) == k;
                                assert(t[q] == all.take(i as int)[q]);
                            } else {
                                assert(t[i as int] == e);
                            }
                        }
                    }
                }
            } else {
                proof {
                    assert(has_key(all.take(i as int), edge_key(e)));
                    assert(self.edge_list() =~= start + first_of_each(all.take(i + 1)));
                    assert forall|k: (Seq<char>, Seq<char>, EdgeKind)|
                        #[trigger] has_key(all.take(i + 1), k) == kept_has(kept@, k) by {
                        let t = all.take(i + 1);
                        if has_key(t, k) {
                            let q = choose|q: int| 0 <= q < t.len() && edge_key(#[trigger] t[q]) == k;
                            if q < i {
                                assert(all.take(i as int)[q] == t[q]);
                            }
                        }
                        if has_key(all.take(i as int), k) {
                            let q = choose|q: int|
                                0 <= q < all.take(i as int).len() && edge_key(
                                    #[trigger] all.take(i as int)[q],
                                ) == k;
                            assert(t[q] == all.take(i as int)[q]);
                        }
                    }
                }
            }
            i = i + 1;
        }
        assert(all.take(n as int) =~= all);
    }
}

fn entity(id: &str, kind: EntityKind, label: &str, desc: &str, uri: Option<String>, tags: Vec<String>) -> (r: Entity)
    ensures
        r.id@ == id@,
        r.kind == kind,
        r.label@ == label@,
        r.description matches Some(d) && d@ == desc@,
        r.uri == uri,
        r.tags == tags,
{
    Entity { id: owned(id), kind, label: owned(label), description: Some(owned(desc)), uri, tags }
}

fn edge(from: &str, to: &str, kind: EdgeKind, weight_milli: u32) -> (r: Edge)
    ensures
        r.from@ == from@,
        r.to@ == to@,
        r.kind == kind,
        r.weight_milli == weight_milli,
{
    Edge { from: owned(from), to: owned(to), kind, weight_milli }
}

/// An entity as text.
pub struct EntityText {
    pub id: Seq<char>,
    pub kind: EntityKind,
    pub label: Seq<char>,
    pub description: Option<Seq<char>>,
    pub uri: Option<Seq<char>>,
    pub tags: Seq<Seq<char>>,
}

/// The text of an optional string.
pub open spec fn opt_text(o: Option<String>) -> Option<Seq<char>> {
    match o {
        Some(s) => Some(s@),
        None => None,
    }
}

/// The text of an entity.
pub open spec fn entity_text(e: Entity) -> EntityText {
    EntityText {
        id: e.id@,
        kind: e.kind,
        label: e.label@,
        description: opt_text(e.description),
        uri: opt_text(e.uri),
        tags: views(e.tags@),
    }
}

/// The texts of a node list.
pub open spec fn entity_texts(s: Seq<Entity>) -> Seq<EntityText> {
    s.map_values(|e: Entity| entity_text(e))
}

/// Index of the entity text with id `id` (searching from the back), or -1.
pub open spec fn text_position(s: Seq<EntityText>, id: Seq<char>) -> int
    decreases s.len(),
{
    if s.len() == 0 {
        -1
    } else if s.last().id == id {
        s.len() - 1
    } else {
        text_position(s.drop_last(), id)
    }
}

/// `s` after adding `t`: an entity with the same id is replaced in place,
/// otherwise `t` is appended.
pub open spec fn upsert_text(s: Seq<EntityText>, t: EntityText) -> Seq<EntityText> {
    let p = text_position(s, t.id);
    if p >= 0 { s.update(p, t) } else { s.push(t) }
}

proof fn lemma_text_position(s: Seq<Entity>, id: Seq<char>)
    ensures
        text_position(entity_texts(s), id) == position(s, id),
    decreases s.len(),
{
    if s.len() > 0 {
        assert(entity_texts(s).drop_last() =~= entity_texts(s.drop_last()));
        lemma_text_position(s.drop_last(), id);
    }
}

/// Adding an entity adds its text.
proof fn lemma_upsert_text(s: Seq<Entity>, e: Entity)
    ensures
        entity_texts(upsert(s, e)) == upsert_text(entity_texts(s), entity_text(e)),
{
    lemma_text_position(s, e.id@);
    lemma_position_bounds(s, e.id@);
    assert(entity_texts(upsert(s, e)) =~= upsert_text(entity_texts(s), entity_text(e)));
}

/// The entities of the demonstration corpus, in the order they are added.
pub open spec fn demo_entity(k: int) -> EntityText {
    if k == 0 {
        EntityText {
            id: "abap:ZFIN_POST_JE"@,
            kind: EntityKind::AbapObject,
            label: "ZFIN_POST_JE"@,
            description: Some("ABAP report that posts FI journal entries via BAPI_ACC_DOCUMENT_POST."@),
            uri: Some("abap-obj://ZFIN/ZFIN_POST_JE"@),
            tags: seq!["module:FI"@, "package:ZFIN"@, "kind:program"@],
        }
    } else if k == 1 {
        EntityText {
            id: "abap:ZCL_FIN_POSTER"@,
            kind: EntityKind::AbapObject,
            label: "ZCL_FIN_POSTER"@,
            description: Some("Helper class implementing ZIF_FIN_POSTABLE."@),
            uri: Some("abap-obj://ZFIN/ZCL_FIN_POSTER"@),
            tags: seq!["module:FI"@, "package:ZFIN"@, "kind:class"@],
        }
    } else if k == 2 {
        EntityText {
            id: "abap:ZIF_FIN_POSTABLE"@,
            kind: EntityKind::AbapObject,
            label: "ZIF_FIN_POSTABLE"@,
            description: Some("FI posting contract interface."@),
            uri: Some("abap-obj://ZFIN/ZIF_FIN_POSTABLE"@),
            tags: seq!["module:FI"@, "package:ZFIN"@, "kind:interface"@],
        }
    } else if k == 3 {
        EntityText {
            id: "abap:ZFIN_TOP"@,
            kind: EntityKind::AbapObject,
            label: "ZFIN_TOP"@,
            description: Some("Global data definitions for ZFIN programs."@),
            uri: Some("abap-obj://ZFIN/ZFIN_TOP"@),
            tags: seq!["module:FI"@, "package:ZFIN"@, "kind:include"@],
        }
    } else if k == 4 {
        EntityText {
            id: "abap:ZFIN_F01"@,
            kind: EntityKind::AbapObject,
            label: "ZFIN_F01"@,
            description: Some("Form routines for FI posting."@),
            uri: Some("abap-obj://ZFIN/ZFIN_F01"@),
            tags: seq!["module:FI"@, "package:ZFIN"@, "kind:include"@],
        }
    } else if k == 5 {
        EntityText {
            id: "abap:ZMM_GRN_CHECK"@,
            kind: EntityKind::AbapObject,
            label: "ZMM_GRN_CHECK"@,
            description: Some("Goods receipt reconciliation."@),
            uri: Some("abap-obj://ZMM/ZMM_GRN_CHECK"@),
            tags: seq!["module:MM"@, "package:ZMM"@, "kind:program"@],
        }
    } else if k == 6 {
        EntityText {
            id: "rfc:BAPI_ACC_DOCUMENT_POST"@,
            kind: EntityKind::Rfc,
            label: "BAPI_ACC_DOCUMENT_POST"@,
            description: Some("Post an accounting document (FI journal entry)."@),
            uri: Some("sap-rfc://BAPI_ACC_DOCUMENT_POST"@),
            tags: seq!["module:FI"@, "group:FBAS"@],
        }
    } else if k == 7 {
        EntityText {
            id: "rfc:BAPI_GOODSMVT_CREATE"@,
            kind: EntityKind::Rfc,
            label: "BAPI_GOODSMVT_CREATE"@,
            description: Some("Post a goods movement (MM)."@),
            uri: Some("sap-rfc://BAPI_GOODSMVT_CREATE"@),
            tags: seq!["module:MM"@],
        }
    } else if k == 8 {
        EntityText {
            id: "rfc:BAPI_MATERIAL_GET_DETAIL"@,
            kind: EntityKind::Rfc,
            label: "BAPI_MATERIAL_GET_DETAIL"@,
            description: Some("Read material master detail."@),
            uri: Some("sap-rfc://BAPI_MATERIAL_GET_DETAIL"@),
            tags: seq!["module:MM"@, "group:MGV3"@],
        }
    } else if k == 9 {
        EntityText {
            id: "rfc:BAPI_SALESORDER_CREATEFROMDAT2"@,
            kind: EntityKind::Rfc,
            label: "BAPI_SALESORDER_CREATEFROMDAT2"@,
            description: Some("Create a sales order."@),
            uri: Some("sap-rfc://BAPI_SALESORDER_CREATEFROMDAT2"@),
            tags: seq!["module:SD"@],
        }
    } else if k == 10 {
        EntityText {
            id: "tab:T001"@,
            kind: EntityKind::Table,
            label: "T001"@,
            description: Some("Company codes."@),
            uri: Some("sap-table://T001/structure"@),
            tags: seq!["module:FI"@],
        }
    } else if k == 11 {
        EntityText {
            id: "tab:T001B"@,
            kind: EntityKind::Table,
            label: "T001B"@,
            description: Some("Posting periods."@),
            uri: Some("sap-table://T001B/structure"@),
            tags: seq!["module:FI"@],
        }
    } else if k == 12 {
        EntityText {
            id: "tab:MARA"@,
            kind: EntityKind::Table,
            label: "MARA"@,
            description: Some("General material data."@),
            uri: Some("sap-table://MARA/structure"@),
            tags: seq!["module:MM"@],
        }
    } else if k == 13 {
        EntityText {
            id: "tab:VBAK"@,
            kind: EntityKind::Table,
            label: "VBAK"@,
            description: Some("Sales document header."@),
            uri: Some("sap-table://VBAK/structure"@),
            tags: seq!["module:SD"@],
        }
    } else if k == 14 {
        EntityText {
            id: "tab:BSEG"@,
            kind: EntityKind::Table,
            label: "BSEG"@,
            description: Some("Accounting document segment."@),
            uri: Some("sap-table://BSEG/structure"@),
            tags: seq!["module:FI"@],
        }
    } else if k == 15 {
        EntityText {
            id: "tab:FAGLFLEXA"@,
            kind: EntityKind::Table,
            label: "FAGLFLEXA"@,
            description: Some("Actual line items of general ledger."@),
            uri: Some("sap-table://FAGLFLEXA/structure"@),
            tags: seq!["module:FI"@],
        }
    } else if k == 16 {
        EntityText {
            id: "bpmn:P2P-001"@,
            kind: EntityKind::BpmnProcess,
            label: "Procure-to-Pay (P2P)"@,
            description: Some("Purchase requisition through invoice verification."@),
            uri: Some("bpmn-proc://core/P2P-001"@),
            tags: seq!["process:p2p"@],
        }
    } else if k == 17 {
        EntityText {
            id: "bpmn:O2C-002"@,
            kind: EntityKind::BpmnProcess,
            label: "Order-to-Cash (O2C)"@,
            description: Some("Sales order through cash application."@),
            uri: Some("bpmn-proc://core/O2C-002"@),
            tags: seq!["process:o2c"@],
        }
    } else if k == 18 {
        EntityText {
            id: "leanix:FS-12001"@,
            kind: EntityKind::LeanixApp,
            label: "S/4HANA Finance"@,
            description: Some("Finance application running general ledger, AP, AR."@),
            uri: Some("leanix-fs://FS-12001"@),
            tags: seq!["lifecycle:active"@],
        }
    } else if k == 19 {
        EntityText {
            id: "leanix:FS-08823"@,
            kind: EntityKind::LeanixApp,
            label: "Legacy Billing Engine"@,
            description: Some("Phase-out billing engine."@),
            uri: Some("leanix-fs://FS-08823"@),
            tags: seq!["lifecycle:phase_out"@],
        }
    } else if k == 20 {
        EntityText {
            id: "help:FI/period-close"@,
            kind: EntityKind::HelpPage,
            label: "Period-End Close in SAP FI"@,
            description: Some("Procedure for FI period-end close."@),
            uri: Some("sap-help://FI/period-close"@),
            tags: seq!["module:FI"@],
        }
    } else if k == 21 {
        EntityText {
            id: "help:MM/goods-movement"@,
            kind: EntityKind::HelpPage,
            label: "Goods Movement Posting"@,
            description: Some("Procedure for MM goods movements."@),
            uri: Some("sap-help://MM/goods-movement"@),
            tags: seq!["module:MM"@],
        }
    } else if k == 22 {
        EntityText {
            id: "concept:period_close"@,
            kind: EntityKind::Concept,
            label: "Period Close"@,
            description: Some("FI period-end close: open/close posting periods, foreign currency revaluation, reconciliation."@),
            uri: None,
            tags: seq!["module:FI"@],
        }
    } else if k == 23 {
        EntityText {
            id: "concept:goods_movement"@,
            kind: EntityKind::Concept,
            label: "Goods Movement"@,
            description: Some("Posting goods receipts, issues, and transfer postings against material master."@),
            uri: None,
            tags: seq!["module:MM"@],
        }
    } else {
        EntityText {
            id: "concept:journal_entry"@,
            kind: EntityKind::Concept,
            label: "Journal Entry"@,
            description: Some("Accounting document posting that creates FI documents."@),
            uri: None,
            tags: seq!["module:FI"@],
        }
    }
}

/// The node texts after adding the first `n` entities of the corpus.
pub open spec fn demo_nodes_upto(n: nat) -> Seq<EntityText>
    decreases n,
{
    if n == 0 {
        Seq::empty()
    } else {
        upsert_text(demo_nodes_upto((n - 1) as nat), demo_entity(n - 1))
    }
}

/// The node texts of the corpus.
pub open spec fn demo_nodes() -> Seq<EntityText> {
    demo_nodes_upto(25)
}

/// The text of an edge: endpoints, kind and weight in thousandths.
pub open spec fn edge_text(e: Edge) -> (Seq<char>, Seq<char>, EdgeKind, u32) {
    (e.from@, e.to@, e.kind, e.weight_milli)
}

/// The texts of an edge list.
pub open spec fn edge_texts(s: Seq<Edge>) -> Seq<(Seq<char>, Seq<char>, EdgeKind, u32)> {
    s.map_values(|e: Edge| edge_text(e))
}

/// Whether some edge text of `s` has endpoints and kind `k`.
pub open spec fn has_key_text(s: Seq<(Seq<char>, Seq<char>, EdgeKind, u32)>, k: (Seq<char>, Seq<char>, EdgeKind)) -> bool {
    exists|i: int| 0 <= i < s.len() && (#[trigger] s[i]).0 == k.0 && s[i].1 == k.1 && s[i].2 == k.2
}

/// The first edge text of each identity, in order.
pub open spec fn firsts_text(s: Seq<(Seq<char>, Seq<char>, EdgeKind, u32)>) -> Seq<(Seq<char>, Seq<char>, EdgeKind, u32)>
    decreases s.len(),
{
    if s.len() == 0 {
        Seq::empty()
    } else {
        let d = firsts_text(s.drop_last());
        if has_key_text(s.drop_last(), (s.last().0, s.last().1, s.last().2)) { d } else { d.push(s.last()) }
    }
}

proof fn lemma_firsts_text(s: Seq<Edge>)
    ensures
        edge_texts(first_of_each(s)) == firsts_text(edge_texts(s)),
    decreases s.len(),
{
    if s.len() > 0 {
        let p = s.drop_last();
        lemma_firsts_text(p);
        assert(edge_texts(s).drop_last() =~= edge_texts(p));
        let k = edge_key(s.last());
        let t = edge_texts(p);
        if has_key(p, k) {
            let i = choose|i: int| 0 <= i < p.len() && edge_key(#[trigger] p[i]) == k;
            assert(t[i] == edge_text(p[i]));
        }
        if has_key_text(t, (k.0, k.1, k.2)) {
            let i = choose|i: int| 0 <= i < t.len() && (#[trigger] t[i]).0 == k.0 && t[i].1 == k.1 && t[i].2 == k.2;
            assert(t[i] == edge_text(p[i]));
            assert(edge_key(p[i]) == k);
        }
        if !has_key(p, k) {
            assert(edge_texts(first_of_each(s)) =~= edge_texts(first_of_each(p)).push(edge_text(s.last())));
        }
    }
}

/// The edges of the demonstration corpus, in the order they are listed.
pub open spec fn demo_edge(k: int) -> (Seq<char>, Seq<char>, EdgeKind, u32) {
    if k == 0 {
        ("abap:ZCL_FIN_POSTER"@, "abap:ZIF_FIN_POSTABLE"@, EdgeKind::Implements, 1000)
    } else if k == 1 {
        ("abap:ZFIN_POST_JE"@, "abap:ZCL_FIN_POSTER"@, EdgeKind::Calls, 1000)
    } else if k == 2 {
        ("abap:ZFIN_POST_JE"@, "abap:ZFIN_TOP"@, EdgeKind::Includes, 1000)
    } else if k == 3 {
        ("abap:ZFIN_POST_JE"@, "abap:ZFIN_F01"@, EdgeKind::Includes, 1000)
    } else if k == 4 {
        ("abap:ZCL_FIN_POSTER"@, "rfc:BAPI_ACC_DOCUMENT_POST"@, EdgeKind::Calls, 2000)
    } else if k == 5 {
        ("abap:ZFIN_POST_JE"@, "rfc:BAPI_ACC_DOCUMENT_POST"@, EdgeKind::Calls, 1000)
    } else if k == 6 {
        ("abap:ZMM_GRN_CHECK"@, "rfc:BAPI_GOODSMVT_CREATE"@, EdgeKind::Calls, 1000)
    } else if k == 7 {
        ("rfc:BAPI_ACC_DOCUMENT_POST"@, "tab:T001"@, EdgeKind::ReadsTable, 1000)
    } else if k == 8 {
        ("rfc:BAPI_ACC_DOCUMENT_POST"@, "tab:T001B"@, EdgeKind::ReadsTable, 1000)
    } else if k == 9 {
        ("rfc:BAPI_ACC_DOCUMENT_POST"@, "tab:BSEG"@, EdgeKind::WritesTable, 1000)
    } else if k == 10 {
        ("rfc:BAPI_ACC_DOCUMENT_POST"@, "tab:FAGLFLEXA"@, EdgeKind::WritesTable, 1000)
    } else if k == 11 {
        ("rfc:BAPI_GOODSMVT_CREATE"@, "tab:MARA"@, EdgeKind::ReadsTable, 1000)
    } else if k == 12 {
        ("rfc:BAPI_SALESORDER_CREATEFROMDAT2"@, "tab:VBAK"@, EdgeKind::WritesTable, 1000)
    } else if k == 13 {
        ("bpmn:P2P-001"@, "rfc:BAPI_GOODSMVT_CREATE"@, EdgeKind::DependsOn, 1000)
    } else if k == 14 {
        ("bpmn:P2P-001"@, "rfc:BAPI_ACC_DOCUMENT_POST"@, EdgeKind::DependsOn, 1000)
    } else if k == 15 {
        ("bpmn:O2C-002"@, "rfc:BAPI_SALESORDER_CREATEFROMDAT2"@, EdgeKind::DependsOn, 1000)
    } else if k == 16 {
        ("bpmn:O2C-002"@, "rfc:BAPI_ACC_DOCUMENT_POST"@, EdgeKind::DependsOn, 1000)
    } else if k == 17 {
        ("leanix:FS-12001"@, "tab:BSEG"@, EdgeKind::DependsOn, 1000)
    } else if k == 18 {
        ("leanix:FS-12001"@, "tab:FAGLFLEXA"@, EdgeKind::DependsOn, 1000)
    } else if k == 19 {
        ("leanix:FS-12001"@, "tab:T001"@, EdgeKind::DependsOn, 1000)
    } else if k == 20 {
        ("leanix:FS-08823"@, "tab:VBAK"@, EdgeKind::DependsOn, 1000)
    } else if k == 21 {
        ("concept:period_close"@, "help:FI/period-close"@, EdgeKind::Describes, 2000)
    } else if k == 22 {
        ("concept:period_close"@, "tab:T001B"@, EdgeKind::Describes, 2000)
    } else if k == 23 {
        ("concept:period_close"@, "tab:FAGLFLEXA"@, EdgeKind::Describes, 1500)
    } else if k == 24 {
        ("concept:period_close"@, "leanix:FS-12001"@, EdgeKind::Describes, 1000)
    } else if k == 25 {
        ("concept:journal_entry"@, "rfc:BAPI_ACC_DOCUMENT_POST"@, EdgeKind::Describes, 2000)
    } else if k == 26 {
        ("concept:journal_entry"@, "tab:BSEG"@, EdgeKind::Describes, 1500)
    } else if k == 27 {
        ("concept:journal_entry"@, "abap:ZFIN_POST_JE"@, EdgeKind::Describes, 1500)
    } else if k == 28 {
        ("concept:goods_movement"@, "help:MM/goods-movement"@, EdgeKind::Describes, 2000)
    } else if k == 29 {
        ("concept:goods_movement"@, "rfc:BAPI_GOODSMVT_CREATE"@, EdgeKind::Describes, 2000)
    } else if k == 30 {
        ("concept:goods_movement"@, "abap:ZMM_GRN_CHECK"@, EdgeKind::Describes, 1000)
    } else if k == 31 {
        ("help:FI/period-close"@, "tab:T001B"@, EdgeKind::References, 1000)
    } else if k == 32 {
        ("help:FI/period-close"@, "tab:FAGLFLEXA"@, EdgeKind::References, 1000)
    } else {
        ("help:MM/goods-movement"@, "rfc:BAPI_GOODSMVT_CREATE"@, EdgeKind::References, 1000)
    }
}

/// The edge texts as listed.
pub open spec fn demo_edge_list() -> Seq<(Seq<char>, Seq<char>, EdgeKind, u32)> {
    seq![demo_edge(0), demo_edge(1), demo_edge(2), demo_edge(3), demo_edge(4), demo_edge(5), demo_edge(6), demo_edge(7), demo_edge(8), demo_edge(9), demo_edge(10), demo_edge(11), demo_edge(12), demo_edge(13), demo_edge(14), demo_edge(15), demo_edge(16), demo_edge(17), demo_edge(18), demo_edge(19), demo_edge(20), demo_edge(21), demo_edge(22), demo_edge(23), demo_edge(24), demo_edge(25), demo_edge(26), demo_edge(27), demo_edge(28), demo_edge(29), demo_edge(30), demo_edge(31), demo_edge(32), demo_edge(33)]
}

impl InMemoryGraph {
    /// A graph holding the demonstration corpus: its nodes are the corpus's entities
    /// (`demo_nodes`), its edges the first of each listed edge (`demo_edge_list`).
    pub fn with_demo_corpus() -> (g: InMemoryGraph)
        ensures
            g.wf(),
            entity_texts(g.node_list()) == demo_nodes(),
            edge_texts(g.edge_list()) == firsts_text(demo_edge_list()),
    {
        let mut g = InMemoryGraph::new();
        add_demo_entities(&mut g);
        let edges = demo_edges();
        g.add_edges_once(edges);
        proof {
            lemma_firsts_text(edges@);
            assert(g.edge_list() =~= first_of_each(edges@));
        }
        g
    }
}

fn add_demo_entities(g: &mut InMemoryGraph)
    requires
        old(g).wf(),
        old(g).node_list().len() == 0,
        old(g).edge_list().len() == 0,
    ensures
        final(g).wf(),
        entity_texts(final(g).node_list()) == demo_nodes(),
        final(g).edge_list().len() == 0,
{
    assert(entity_texts(g.node_list()) =~= demo_nodes_upto(0));
    let mut tags: Vec<String> = Vec::new();
    tags.push(String::from_str("module:FI"));
    tags.push(String::from_str("package:ZFIN"));
    tags.push(String::from_str("kind:program"));
    let e = entity("abap:ZFIN_POST_JE", EntityKind::AbapObject, "ZFIN_POST_JE", "ABAP report that posts FI journal entries via BAPI_ACC_DOCUMENT_POST.", Some(String::from_str("abap-obj://ZFIN/ZFIN_POST_JE")), tags);
    proof {
        assert(entity_text(e) == demo_entity(0)) by {
            assert(views(e.tags@) =~= demo_entity(0).tags);
        }
        lemma_upsert_text(g.node_list(), e);
    }
    g.add_entity(e);
    assert(entity_texts(g.node_list()) == demo_nodes_upto(1));
    let mut tags: Vec<String> = Vec::new();
    tags.push(String::from_str("module:FI"));
    tags.push(String::from_str("package:ZFIN"));
    tags.push(String::from_str("kind:class"));
    let e = entity("abap:ZCL_FIN_POSTER", EntityKind::AbapObject, "ZCL_FIN_POSTER", "Helper class implementing ZIF_FIN_POSTABLE.", Some(String::from_str("abap-obj://ZFIN/ZCL_FIN_POSTER")), tags);
    proof {
        assert(entity_text(e) == demo_entity(1)) by {
            assert(views(e.tags@) =~= demo_entity(1).tags);
        }
        lemma_upsert_text(g.node_list(), e);
    }
    g.add_entity(e);
    assert(entity_texts(g.node_list()) == demo_nodes_upto(2));
    let mut tags: Vec<String> = Vec::new();
    tags.push(String::from_str("module:FI"));
    tags.push(String::from_str("package:ZFIN"));
    tags.push(String::from_str("kind:interface"));
    let e = entity("abap:ZIF_FIN_POSTABLE", EntityKind::AbapObject, "ZIF_FIN_POSTABLE", "FI posting contract interface.", Some(String::from_str("abap-obj://ZFIN/ZIF_FIN_POSTABLE")), tags);
    proof {
        assert(entity_text(e) == demo_entity(2)) by {
            assert(views(e.tags@) =~= demo_entity(2).tags);
        }
        lemma_upsert_text(g.node_list(), e);
    }
    g.add_entity(e);
    assert(entity_texts(g.node_list()) == demo_nodes_upto(3));
    let mut tags: Vec<String> = Vec::new();
    tags.push(String::from_str("module:FI"));
    tags.push(String::from_str("package:ZFIN"));
    tags.push(String::from_str("kind:include"));
    let e = entity("abap:ZFIN_TOP", EntityKind::AbapObject, "ZFIN_TOP", "Global data definitions for ZFIN programs.", Some(String::from_str("abap-obj://ZFIN/ZFIN_TOP")), tags);
    proof {
        assert(entity_text(e) == demo_entity(3)) by {
            assert(views(e.tags@) =~= demo_entity(3).tags);
        }
        lemma_upsert_text(g.node_list(), e);
    }
    g.add_entity(e);
    assert(entity_texts(g.node_list()) == demo_nodes_upto(4));
    let mut tags: Vec<String> = Vec::new();
    tags.push(String::from_str("module:FI"));
    tags.push(String::from_str("package:ZFIN"));
    tags.push(String::from_str("kind:include"));
    let e = entity("abap:ZFIN_F01", EntityKind::AbapObject, "ZFIN_F01", "Form routines for FI posting.", Some(String::from_str("abap-obj://ZFIN/ZFIN_F01")), tags);
    proof {
        assert(entity_text(e) == demo_entity(4)) by {
            assert(views(e.tags@) =~= demo_entity(4).tags);
        }
        lemma_upsert_text(g.node_list(), e);
    }
    g.add_entity(e);
    assert(entity_texts(g.node_list()) == demo_nodes_upto(5));
    let mut tags: Vec<String> = Vec::new();
    tags.push(String::from_str("module:MM"));
    tags.push(String::from_str("package:ZMM"));
    tags.push(String::from_str("kind:program"));
    let e = entity("abap:ZMM_GRN_CHECK", EntityKind::AbapObject, "ZMM_GRN_CHECK", "Goods receipt reconciliation.", Some(String::from_str("abap-obj://ZMM/ZMM_GRN_CHECK")), tags);
    proof {
        assert(entity_text(e) == demo_entity(5)) by {
            assert(views(e.tags@) =~= demo_entity(5).tags);
        }
        lemma_upsert_text(g.node_list(), e);
    }
    g.add_entity(e);
    assert(entity_texts(g.node_list()) == demo_nodes_upto(6));
    let mut tags: Vec<String> = Vec::new();
    tags.push(String::from_str("module:FI"));
    tags.push(String::from_str("group:FBAS"));
    let e = entity("rfc:BAPI_ACC_DOCUMENT_POST", EntityKind::Rfc, "BAPI_ACC_DOCUMENT_POST", "Post an accounting document (FI journal entry).", Some(String::from_str("sap-rfc://BAPI_ACC_DOCUMENT_POST")), tags);
    proof {
        assert(entity_text(e) == demo_entity(6)) by {
            assert(views(e.tags@) =~= demo_entity(6).tags);
        }
        lemma_upsert_text(g.node_list(), e);
    }
    g.add_entity(e);
    assert(entity_texts(g.node_list()) == demo_nodes_upto(7));
    let mut tags: Vec<String> = Vec::new();
    tags.push(String::from_str("module:MM"));
    let e = entity("rfc:BAPI_GOODSMVT_CREATE", EntityKind::Rfc, "BAPI_GOODSMVT_CREATE", "Post a goods movement (MM).", Some(String::from_str("sap-rfc://BAPI_GOODSMVT_CREATE")), tags);
    proof {
        assert(entity_text(e) == demo_entity(7)) by {
            assert(views(e.tags@) =~= demo_entity(7).tags);
        }
        lemma_upsert_text(g.node_list(), e);
    }
    g.add_entity(e);
    assert(entity_texts(g.node_list()) == demo_nodes_upto(8));
    let mut tags: Vec<String> = Vec::new();
    tags.push(String::from_str("module:MM"));
    tags.push(String::from_str("group:MGV3"));
    let e = entity("rfc:BAPI_MATERIAL_GET_DETAIL", EntityKind::Rfc, "BAPI_MATERIAL_GET_DETAIL", "Read material master detail.", Some(String::from_str("sap-rfc://BAPI_MATERIAL_GET_DETAIL")), tags);
    proof {
        assert(entity_text(e) == demo_entity(8)) by {
            assert(views(e.tags@) =~= demo_entity(8).tags);
        }
        lemma_upsert_text(g.node_list(), e);
    }
    g.add_entity(e);
    assert(entity_texts(g.node_list()) == demo_nodes_upto(9));
    let mut tags: Vec<String> = Vec::new();
    tags.push(String::from_str("module:SD"));
    let e = entity("rfc:BAPI_SALESORDER_CREATEFROMDAT2", EntityKind::Rfc, "BAPI_SALESORDER_CREATEFROMDAT2", "Create a sales order.", Some(String::from_str("sap-rfc://BAPI_SALESORDER_CREATEFROMDAT2")), tags);
    proof {
        assert(entity_text(e) == demo_entity(9)) by {
            assert(views(e.tags@) =~= demo_entity(9).tags);
        }
        lemma_upsert_text(g.node_list(), e);
    }
    g.add_entity(e);
    assert(entity_texts(g.node_list()) == demo_nodes_upto(10));
    let mut tags: Vec<String> = Vec::new();
    tags.push(String::from_str("module:FI"));
    let e = entity("tab:T001", EntityKind::Table, "T001", "Company codes.", Some(String::from_str("sap-table://T001/structure")), tags);
    proof {
        assert(entity_text(e) == demo_entity(10)) by {
            assert(views(e.tags@) =~= demo_entity(10).tags);
        }
        lemma_upsert_text(g.node_list(), e);
    }
    g.add_entity(e);
    assert(entity_texts(g.node_list()) == demo_nodes_upto(11));
    let mut tags: Vec<String> = Vec::new();
    tags.push(String::from_str("module:FI"));
    let e = entity("tab:T001B", EntityKind::Table, "T001B", "Posting periods.", Some(String::from_str("sap-table://T001B/structure")), tags);
    proof {
        assert(entity_text(e) == demo_entity(11)) by {
            assert(views(e.tags@) =~= demo_entity(11).tags);
        }
        lemma_upsert_text(g.node_list(), e);
    }
    g.add_entity(e);
    assert(entity_texts(g.node_list()) == demo_nodes_upto(12));
    let mut tags: Vec<String> = Vec::new();
    tags.push(String::from_str("module:MM"));
    let e = entity("tab:MARA", EntityKind::Table, "MARA", "General material data.", Some(String::from_str("sap-table://MARA/structure")), tags);
    proof {
        assert(entity_text(e) == demo_entity(12)) by {
            assert(views(e.tags@) =~= demo_entity(12).tags);
        }
        lemma_upsert_text(g.node_list(), e);
    }
    g.add_entity(e);
    assert(entity_texts(g.node_list()) == demo_nodes_upto(13));
    let mut tags: Vec<String> = Vec::new();
    tags.push(String::from_str("module:SD"));
    let e = entity("tab:VBAK", EntityKind::Table, "VBAK", "Sales document header.", Some(String::from_str("sap-table://VBAK/structure")), tags);
    proof {
        assert(entity_text(e) == demo_entity(13)) by {
            assert(views(e.tags@) =~= demo_entity(13).tags);
        }
        lemma_upsert_text(g.node_list(), e);
    }
    g.add_entity(e);
    assert(entity_texts(g.node_list()) == demo_nodes_upto(14));
    let mut tags: Vec<String> = Vec::new();
    tags.push(String::from_str("module:FI"));
    let e = entity("tab:BSEG", EntityKind::Table, "BSEG", "Accounting document segment.", Some(String::from_str("sap-table://BSEG/structure")), tags);
    proof {
        assert(entity_text(e) == demo_entity(14)) by {
            assert(views(e.tags@) =~= demo_entity(14).tags);
        }
        lemma_upsert_text(g.node_list(), e);
    }
    g.add_entity(e);
    assert(entity_texts(g.node_list()) == demo_nodes_upto(15));
    let mut tags: Vec<String> = Vec::new();
    tags.push(String::from_str("module:FI"));
    let e = entity("tab:FAGLFLEXA", EntityKind::Table, "FAGLFLEXA", "Actual line items of general ledger.", Some(String::from_str("sap-table://FAGLFLEXA/structure")), tags);
    proof {
        assert(entity_text(e) == demo_entity(15)) by {
            assert(views(e.tags@) =~= demo_entity(15).tags);
        }
        lemma_upsert_text(g.node_list(), e);
    }
    g.add_entity(e);
    assert(entity_texts(g.node_list()) == demo_nodes_upto(16));
    let mut tags: Vec<String> = Vec::new();
    tags.push(String::from_str("process:p2p"));
    let e = entity("bpmn:P2P-001", EntityKind::BpmnProcess, "Procure-to-Pay (P2P)", "Purchase requisition through invoice verification.", Some(String::from_str("bpmn-proc://core/P2P-001")), tags);
    proof {
        assert(entity_text(e) == demo_entity(16)) by {
            assert(views(e.tags@) =~= demo_entity(16).tags);
        }
        lemma_upsert_text(g.node_list(), e);
    }
    g.add_entity(e);
    assert(entity_texts(g.node_list()) == demo_nodes_upto(17));
    let mut tags: Vec<String> = Vec::new();
    tags.push(String::from_str("process:o2c"));
    let e = entity("bpmn:O2C-002", EntityKind::BpmnProcess, "Order-to-Cash (O2C)", "Sales order through cash application.", Some(String::from_str("bpmn-proc://core/O2C-002")), tags);
    proof {
        assert(entity_text(e) == demo_entity(17)) by {
            assert(views(e.tags@) =~= demo_entity(17).tags);
        }
        lemma_upsert_text(g.node_list(), e);
    }
    g.add_entity(e);
    assert(entity_texts(g.node_list()) == demo_nodes_upto(18));
    let mut tags: Vec<String> = Vec::new();
    tags.push(String::from_str("lifecycle:active"));
    let e = entity("leanix:FS-12001", EntityKind::LeanixApp, "S/4HANA Finance", "Finance application running general ledger, AP, AR.", Some(String::from_str("leanix-fs://FS-12001")), tags);
    proof {
        assert(entity_text(e) == demo_entity(18)) by {
            assert(views(e.tags@) =~= demo_entity(18).tags);
        }
        lemma_upsert_text(g.node_list(), e);
    }
    g.add_entity(e);
    assert(entity_texts(g.node_list()) == demo_nodes_upto(19));
    let mut tags: Vec<String> = Vec::new();
    tags.push(String::from_str("lifecycle:phase_out"));
    let e = entity("leanix:FS-08823", EntityKind::LeanixApp, "Legacy Billing Engine", "Phase-out billing engine.", Some(String::from_str("leanix-fs://FS-08823")), tags);
    proof {
        assert(entity_text(e) == demo_entity(19)) by {
            assert(views(e.tags@) =~= demo_entity(19).tags);
        }
        lemma_upsert_text(g.node_list(), e);
    }
    g.add_entity(e);
    assert(entity_texts(g.node_list()) == demo_nodes_upto(20));
    let mut tags: Vec<String> = Vec::new();
    tags.push(String::from_str("module:FI"));
    let e = entity("help:FI/period-close", EntityKind::HelpPage, "Period-End Close in SAP FI", "Procedure for FI period-end close.", Some(String::from_str("sap-help://FI/period-close")), tags);
    proof {
        assert(entity_text(e) == demo_entity(20)) by {
            assert(views(e.tags@) =~= demo_entity(20).tags);
        }
        lemma_upsert_text(g.node_list(), e);
    }
    g.add_entity(e);
    assert(entity_texts(g.node_list()) == demo_nodes_upto(21));
    let mut tags: Vec<String> = Vec::new();
    tags.push(String::from_str("module:MM"));
    let e = entity("help:MM/goods-movement", EntityKind::HelpPage, "Goods Movement Posting", "Procedure for MM goods movements.", Some(String::from_str("sap-help://MM/goods-movement")), tags);
    proof {
        assert(entity_text(e) == demo_entity(21)) by {
            assert(views(e.tags@) =~= demo_entity(21).tags);
        }
        lemma_upsert_text(g.node_list(), e);
    }
    g.add_entity(e);
    assert(entity_texts(g.node_list()) == demo_nodes_upto(22));
    let mut tags: Vec<String> = Vec::new();
    tags.push(String::from_str("module:FI"));
    let e = entity("concept:period_close", EntityKind::Concept, "Period Close", "FI period-end close: open/close posting periods, foreign currency revaluation, reconciliation.", None, tags);
    proof {
        assert(entity_text(e) == demo_entity(22)) by {
            assert(views(e.tags@) =~= demo_entity(22).tags);
        }
        lemma_upsert_text(g.node_list(), e);
    }
    g.add_entity(e);
    assert(entity_texts(g.node_list()) == demo_nodes_upto(23));
    let mut tags: Vec<String> = Vec::new();
    tags.push(String::from_str("module:MM"));
    let e = entity("concept:goods_movement", EntityKind::Concept, "Goods Movement", "Posting goods receipts, issues, and transfer postings against material master.", None, tags);
    proof {
        assert(entity_text(e) == demo_entity(23)) by {
            assert(views(e.tags@) =~= demo_entity(23).tags);
        }
        lemma_upsert_text(g.node_list(), e);
    }
    g.add_entity(e);
    assert(entity_texts(g.node_list()) == demo_nodes_upto(24));
    let mut tags: Vec<String> = Vec::new();
    tags.push(String::from_str("module:FI"));
    let e = entity("concept:journal_entry", EntityKind::Concept, "Journal Entry", "Accounting document posting that creates FI documents.", None, tags);
    proof {
        assert(entity_text(e) == demo_entity(24)) by {
            assert(views(e.tags@) =~= demo_entity(24).tags);
        }
        lemma_upsert_text(g.node_list(), e);
    }
    g.add_entity(e);
    assert(entity_texts(g.node_list()) == demo_nodes_upto(25));
}

fn demo_edges() -> (r: Vec<Edge>)
    ensures
        edge_texts(r@) == demo_edge_list(),
{
    let mut r: Vec<Edge> = Vec::new();
    let ghost mut acc: Seq<(Seq<char>, Seq<char>, EdgeKind, u32)> = Seq::empty();
    r.push(edge("abap:ZCL_FIN_POSTER", "abap:ZIF_FIN_POSTABLE", EdgeKind::Implements, 1000));
    proof {
        acc = acc.push(demo_edge(0));
        assert(edge_texts(r@) =~= acc);
    }
    r.push(edge("abap:ZFIN_POST_JE", "abap:ZCL_FIN_POSTER", EdgeKind::Calls, 1000));
    proof {
        acc = acc.push(demo_edge(1));
        assert(edge_texts(r@) =~= acc);
    }
    r.push(edge("abap:ZFIN_POST_JE", "abap:ZFIN_TOP", EdgeKind::Includes, 1000));
    proof {
        acc = acc.push(demo_edge(2));
        assert(edge_texts(r@) =~= acc);
    }
    r.push(edge("abap:ZFIN_POST_JE", "abap:ZFIN_F01", EdgeKind::Includes, 1000));
    proof {
        acc = acc.push(demo_edge(3));
        assert(edge_texts(r@) =~= acc);
    }
    r.push(edge("abap:ZCL_FIN_POSTER", "rfc:BAPI_ACC_DOCUMENT_POST", EdgeKind::Calls, 2000));
    proof {
        acc = acc.push(demo_edge(4));
        assert(edge_texts(r@) =~= acc);
    }
    r.push(edge("abap:ZFIN_POST_JE", "rfc:BAPI_ACC_DOCUMENT_POST", EdgeKind::Calls, 1000));
    proof {
        acc = acc.push(demo_edge(5));
        assert(edge_texts(r@) =~= acc);
    }
    r.push(edge("abap:ZMM_GRN_CHECK", "rfc:BAPI_GOODSMVT_CREATE", EdgeKind::Calls, 1000));
    proof {
        acc = acc.push(demo_edge(6));
        assert(edge_texts(r@) =~= acc);
    }
    r.push(edge("rfc:BAPI_ACC_DOCUMENT_POST", "tab:T001", EdgeKind::ReadsTable, 1000));
    proof {
        acc = acc.push(demo_edge(7));
        assert(edge_texts(r@) =~= acc);
    }
    r.push(edge("rfc:BAPI_ACC_DOCUMENT_POST", "tab:T001B", EdgeKind::ReadsTable, 1000));
    proof {
        acc = acc.push(demo_edge(8));
        assert(edge_texts(r@) =~= acc);
    }
    r.push(edge("rfc:BAPI_ACC_DOCUMENT_POST", "tab:BSEG", EdgeKind::WritesTable, 1000));
    proof {
        acc = acc.push(demo_edge(9));
        assert(edge_texts(r@) =~= acc);
    }
    r.push(edge("rfc:BAPI_ACC_DOCUMENT_POST", "tab:FAGLFLEXA", EdgeKind::WritesTable, 1000));
    proof {
        acc = acc.push(demo_edge(10));
        assert(edge_texts(r@) =~= acc);
    }
    r.push(edge("rfc:BAPI_GOODSMVT_CREATE", "tab:MARA", EdgeKind::ReadsTable, 1000));
    proof {
        acc = acc.push(demo_edge(11));
        assert(edge_texts(r@) =~= acc);
    }
    r.push(edge("rfc:BAPI_SALESORDER_CREATEFROMDAT2", "tab:VBAK", EdgeKind::WritesTable, 1000));
    proof {
        acc = acc.push(demo_edge(12));
        assert(edge_texts(r@) =~= acc);
    }
    r.push(edge("bpmn:P2P-001", "rfc:BAPI_GOODSMVT_CREATE", EdgeKind::DependsOn, 1000));
    proof {
        acc = acc.push(demo_edge(13));
        assert(edge_texts(r@) =~= acc);
    }
    r.push(edge("bpmn:P2P-001", "rfc:BAPI_ACC_DOCUMENT_POST", EdgeKind::DependsOn, 1000));
    proof {
        acc = acc.push(demo_edge(14));
        assert(edge_texts(r@) =~= acc);
    }
    r.push(edge("bpmn:O2C-002", "rfc:BAPI_SALESORDER_CREATEFROMDAT2", EdgeKind::DependsOn, 1000));
    proof {
        acc = acc.push(demo_edge(15));
        assert(edge_texts(r@) =~= acc);
    }
    r.push(edge("bpmn:O2C-002", "rfc:BAPI_ACC_DOCUMENT_POST", EdgeKind::DependsOn, 1000));
    proof {
        acc = acc.push(demo_edge(16));
        assert(edge_texts(r@) =~= acc);
    }
    r.push(edge("leanix:FS-12001", "tab:BSEG", EdgeKind::DependsOn, 1000));
    proof {
        acc = acc.push(demo_edge(17));
        assert(edge_texts(r@) =~= acc);
    }
    r.push(edge("leanix:FS-12001", "tab:FAGLFLEXA", EdgeKind::DependsOn, 1000));
    proof {
        acc = acc.push(demo_edge(18));
        assert(edge_texts(r@) =~= acc);
    }
    r.push(edge("leanix:FS-12001", "tab:T001", EdgeKind::DependsOn, 1000));
    proof {
        acc = acc.push(demo_edge(19));
        assert(edge_texts(r@) =~= acc);
    }
    r.push(edge("leanix:FS-08823", "tab:VBAK", EdgeKind::DependsOn, 1000));
    proof {
        acc = acc.push(demo_edge(20));
        assert(edge_texts(r@) =~= acc);
    }
    r.push(edge("concept:period_close", "help:FI/period-close", EdgeKind::Describes, 2000));
    proof {
        acc = acc.push(demo_edge(21));
        assert(edge_texts(r@) =~= acc);
    }
    r.push(edge("concept:period_close", "tab:T001B", EdgeKind::Describes, 2000));
    proof {
        acc = acc.push(demo_edge(22));
        assert(edge_texts(r@) =~= acc);
    }
    r.push(edge("concept:period_close", "tab:FAGLFLEXA", EdgeKind::Describes, 1500));
    proof {
        acc = acc.push(demo_edge(23));
        assert(edge_texts(r@) =~= acc);
    }
    r.push(edge("concept:period_close", "leanix:FS-12001", EdgeKind::Describes, 1000));
    proof {
        acc = acc.push(demo_edge(24));
        assert(edge_texts(r@) =~= acc);
    }
    r.push(edge("concept:journal_entry", "rfc:BAPI_ACC_DOCUMENT_POST", EdgeKind::Describes, 2000));
    proof {
        acc = acc.push(demo_edge(25));
        assert(edge_texts(r@) =~= acc);
    }
    r.push(edge("concept:journal_entry", "tab:BSEG", EdgeKind::Describes, 1500));
    proof {
        acc = acc.push(demo_edge(26));
        assert(edge_texts(r@) =~= acc);
    }
    r.push(edge("concept:journal_entry", "abap:ZFIN_POST_JE", EdgeKind::Describes, 1500));
    proof {
        acc = acc.push(demo_edge(27));
        assert(edge_texts(r@) =~= acc);
    }
    r.push(edge("concept:goods_movement", "help:MM/goods-movement", EdgeKind::Describes, 2000));
    proof {
        acc = acc.push(demo_edge(28));
        assert(edge_texts(r@) =~= acc);
    }
    r.push(edge("concept:goods_movement", "rfc:BAPI_GOODSMVT_CREATE", EdgeKind::Describes, 2000));
    proof {
        acc = acc.push(demo_edge(29));
        assert(edge_texts(r@) =~= acc);
    }
    r.push(edge("concept:goods_movement", "abap:ZMM_GRN_CHECK", EdgeKind::Describes, 1000));
    proof {
        acc = acc.push(demo_edge(30));
        assert(edge_texts(r@) =~= acc);
    }
    r.push(edge("help:FI/period-close", "tab:T001B", EdgeKind::References, 1000));
    proof {
        acc = acc.push(demo_edge(31));
        assert(edge_texts(r@) =~= acc);
    }
    r.push(edge("help:FI/period-close", "tab:FAGLFLEXA", EdgeKind::References, 1000));
    proof {
        acc = acc.push(demo_edge(32));
        assert(edge_texts(r@) =~= acc);
    }
    r.push(edge("help:MM/goods-movement", "rfc:BAPI_GOODSMVT_CREATE", EdgeKind::References, 1000));
    proof {
        acc = acc.push(demo_edge(33));
        assert(edge_texts(r@) =~= acc);
    }
    r
}

} // verus!

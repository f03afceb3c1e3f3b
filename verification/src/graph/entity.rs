//! Typed entities and edges of the cross-domain knowledge graph.
use vstd::prelude::*;


verus! {

/// Identifier of a node in the graph.
pub type NodeId = String;

/// The families of entities the graph holds.
#[derive(Clone, Copy, Debug, PartialEq, Eq, Hash, Structural)]
pub enum EntityKind {
    /// ABAP class, interface, program, include, function module/group.
    AbapObject,
    /// SAP table (DDIC).
    Table,
    /// SAP table column / data element.
    Field,
    /// RFC / BAPI function.
    Rfc,
    /// Signavio BPMN process.
    BpmnProcess,
    /// LeanIX application fact sheet.
    LeanixApp,
    /// Help Portal page or section.
    HelpPage,
    /// Business concept that links entities across domains.
    Concept,
}

/// The name a kind is listed under in statistics.
pub open spec fn kind_name_spec(k: EntityKind) -> Seq<char> {
    match k {
        EntityKind::AbapObject => seq!['A', 'b', 'a', 'p', 'O', 'b', 'j', 'e', 'c', 't'],
        EntityKind::Table => seq!['T', 'a', 'b', 'l', 'e'],
        EntityKind::Field => seq!['F', 'i', 'e', 'l', 'd'],
        EntityKind::Rfc => seq!['R', 'f', 'c'],
        EntityKind::BpmnProcess => seq!['B', 'p', 'm', 'n', 'P', 'r', 'o', 'c', 'e', 's', 's'],
        EntityKind::LeanixApp => seq!['L', 'e', 'a', 'n', 'i', 'x', 'A', 'p', 'p'],
        EntityKind::HelpPage => seq!['H', 'e', 'l', 'p', 'P', 'a', 'g', 'e'],
        EntityKind::Concept => seq!['C', 'o', 'n', 'c', 'e', 'p', 't'],
    }
}

/// The name a kind is listed under in statistics (its variant name).
pub fn kind_name(k: EntityKind) -> (r: &'static str)
    ensures
        r@ == kind_name_spec(k),
{
    let r = match k {
        EntityKind::AbapObject => "AbapObject",
        EntityKind::Table => "Table",
        EntityKind::Field => "Field",
        EntityKind::Rfc => "Rfc",
        EntityKind::BpmnProcess => "BpmnProcess",
        EntityKind::LeanixApp => "LeanixApp",
        EntityKind::HelpPage => "HelpPage",
        EntityKind::Concept => "Concept",
    };
    proof {
        reveal_strlit("AbapObject");
        reveal_strlit("Table");
        reveal_strlit("Field");
        reveal_strlit("Rfc");
        reveal_strlit("BpmnProcess");
        reveal_strlit("LeanixApp");
        reveal_strlit("HelpPage");
        reveal_strlit("Concept");
    }
    r
}

/// A node of the graph.
pub struct Entity {
    pub id: NodeId,
    pub kind: EntityKind,
    pub label: String,
    /// Short description, used for community summaries.
    pub description: Option<String>,
    /// Native URI for citation (sap-help://, abap-obj://, sap-rfc://, ...).
    pub uri: Option<String>,
    /// String-valued tags ("module:FI", "package:ZFIN", ...).
    pub tags: Vec<String>,
}

/// The kinds of relationship between entities.
#[derive(Clone, Copy, Debug, PartialEq, Eq, Hash, Structural)]
pub enum EdgeKind {
    /// ABAP object A calls / invokes B.
    Calls,
    /// ABAP class implements interface.
    Implements,
    /// Program includes another program / include file.
    Includes,
    /// Object reads from table.
    ReadsTable,
    /// Object writes to table.
    WritesTable,
    /// One entity references / mentions another in its documentation.
    References,
    /// Entity is contained in a parent.
    ContainedIn,
    /// Entity depends on another.
    DependsOn,
    /// Concept describes / categorises an entity.
    Describes,
    /// Free-form relationship.
    Related,
}

/// A directed, weighted edge.  The weight is kept in thousandths
/// (`1000` stands for a weight of 1.0).
pub struct Edge {
    pub from: NodeId,
    pub to: NodeId,
    pub kind: EdgeKind,
    pub weight_milli: u32,
}

/// The weight given to an edge when none is stated: 1.0.
pub const DEFAULT_WEIGHT_MILLI: u32 = 1000;

/// An optional string, or the empty string.
pub open spec fn opt_or_empty(o: Option<String>) -> Seq<char> {
    match o {
        Some(s) => s@,
        None => Seq::empty(),
    }
}

/// A copy of an optional string.
pub fn clone_opt(o: &Option<String>) -> (r: Option<String>)
    ensures
        r == *o,
{
    match o {
        Some(s) => Some(s.clone()),
        None => None,
    }
}

/// A copy of a vector of strings.
pub fn clone_strings(v: &Vec<String>) -> (r: Vec<String>)
    ensures
        r@ == v@,
{
    let mut r: Vec<String> = Vec::new();
    let mut i: usize = 0;
    while i < v.len()
        invariant
            i <= v.len(),
            r@ == v@.take(i as int),
        decreases v.len() - i,
    {
        r.push(v[i].clone());
        assert(v@.take(i + 1) =~= v@.take(i as int).push(v@[i as int]));
        i = i + 1;
    }
    assert(v@.take(v.len() as int) =~= v@);
    r
}

impl Entity {
    /// Field-by-field equality (tags compared by contents).
    pub open spec fn same_as(self, other: Entity) -> bool {
        &&& self.id == other.id
        &&& self.kind == other.kind
        &&& self.label == other.label
        &&& self.description == other.description
        &&& self.uri == other.uri
        &&& self.tags@ == other.tags@
    }

    /// A field-by-field copy.
    pub fn copy(&self) -> (r: Entity)
        ensures
            r.same_as(*self),
    {
        Entity {
            id: self.id.clone(),
            kind: self.kind,
            label: self.label.clone(),
            description: clone_opt(&self.description),
            uri: clone_opt(&self.uri),
            tags: clone_strings(&self.tags),
        }
    }
}

impl Edge {
    /// A field-by-field copy.
    pub fn copy(&self) -> (r: Edge)
        ensures
            r == *self,
    {
        Edge { from: self.from.clone(), to: self.to.clone(), kind: self.kind, weight_milli: self.weight_milli }
    }
}

} // verus!

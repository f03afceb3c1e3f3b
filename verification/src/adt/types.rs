//! Request and response shapes shared by every ADT backend.
use vstd::prelude::*;
use crate::text::{concat2, concat3, lowercase, to_lower};

verus! {

/// Largest number of rows a data preview may ask for.
pub const MAX_TABLE_ROWS: usize = 1000;

/// The kinds of ABAP repository object.
#[derive(Debug, Clone, Copy, PartialEq, Eq, Hash, Structural)]
pub enum AbapObjectKind {
    Program,
    Class,
    Interface,
    Include,
    FunctionGroup,
    FunctionModule,
    Table,
    Structure,
    DataElement,
    Domain,
    Package,
    CdsView,
    BehaviorDefinition,
    ServiceDefinition,
    MetadataExtension,
    EnhancementSpot,
    Transaction,
}

/// The display label of each kind.
pub open spec fn kind_label(k: AbapObjectKind) -> Seq<char> {
    match k {
        AbapObjectKind::Program => "Program"@,
        AbapObjectKind::Class => "Class"@,
        AbapObjectKind::Interface => "Interface"@,
        AbapObjectKind::Include => "Include"@,
        AbapObjectKind::FunctionGroup => "Function Group"@,
        AbapObjectKind::FunctionModule => "Function Module"@,
        AbapObjectKind::Table => "Table"@,
        AbapObjectKind::Structure => "Structure"@,
        AbapObjectKind::DataElement => "Data Element"@,
        AbapObjectKind::Domain => "Domain"@,
        AbapObjectKind::Package => "Package"@,
        AbapObjectKind::CdsView => "CDS View"@,
        AbapObjectKind::BehaviorDefinition => "Behavior Definition"@,
        AbapObjectKind::ServiceDefinition => "Service Definition"@,
        AbapObjectKind::MetadataExtension => "Metadata Extension"@,
        AbapObjectKind::EnhancementSpot => "Enhancement Spot"@,
        AbapObjectKind::Transaction => "Transaction"@,
    }
}

/// The ADT URI of an object of kind `k` named `name`; most kinds use the lower-cased
/// name, a function module keeps a `{group}` placeholder, and kinds without a
/// dedicated endpoint go through the object-properties lookup with the name as given.
pub open spec fn object_path(k: AbapObjectKind, name: Seq<char>) -> Seq<char> {
    let n = lowercase(name);
    match k {
        AbapObjectKind::Program => "/sap/bc/adt/programs/programs/"@ + n + "/source/main"@,
        AbapObjectKind::Class => "/sap/bc/adt/oo/classes/"@ + n + "/source/main"@,
        AbapObjectKind::Interface => "/sap/bc/adt/oo/interfaces/"@ + n + "/source/main"@,
        AbapObjectKind::Include => "/sap/bc/adt/programs/includes/"@ + n + "/source/main"@,
        AbapObjectKind::FunctionGroup => "/sap/bc/adt/functions/groups/"@ + n + "/source/main"@,
        AbapObjectKind::FunctionModule =>
            "/sap/bc/adt/functions/groups/{group}/fmodules/"@ + n + "/source/main"@,
        AbapObjectKind::Table => "/sap/bc/adt/ddic/tables/"@ + n + "/source/main"@,
        AbapObjectKind::CdsView => "/sap/bc/adt/ddic/ddl/sources/"@ + n + "/source/main"@,
        AbapObjectKind::Package =>
            "/sap/bc/adt/repository/nodestructure?parent_name="@ + n + "&parent_type=DEVC%2FK"@,
        _ => "/sap/bc/adt/repository/informationsystem/objectproperties/values?uri=/sap/bc/adt/"@
            + name,
    }
}

impl AbapObjectKind {
    /// The display label, e.g. `Function Module`.
    pub fn label(self) -> (r: &'static str)
        ensures
            r@ == kind_label(self),
    {
        let r = match self {
            AbapObjectKind::Program => "Program",
            AbapObjectKind::Class => "Class",
            AbapObjectKind::Interface => "Interface",
            AbapObjectKind::Include => "Include",
            AbapObjectKind::FunctionGroup => "Function Group",
            AbapObjectKind::FunctionModule => "Function Module",
            AbapObjectKind::Table => "Table",
            AbapObjectKind::Structure => "Structure",
            AbapObjectKind::DataElement => "Data Element",
            AbapObjectKind::Domain => "Domain",
            AbapObjectKind::Package => "Package",
            AbapObjectKind::CdsView => "CDS View",
            AbapObjectKind::BehaviorDefinition => "Behavior Definition",
            AbapObjectKind::ServiceDefinition => "Service Definition",
            AbapObjectKind::MetadataExtension => "Metadata Extension",
            AbapObjectKind::EnhancementSpot => "Enhancement Spot",
            AbapObjectKind::Transaction => "Transaction",
        };
        r
    }

    /// The ADT URI of the object `name` of this kind.
    pub fn adt_path(self, name: &str) -> (r: String)
        ensures
            r@ == object_path(self, name@),
    {
        let low = to_lower(name);
        let n = low.as_str();
        match self {
            AbapObjectKind::Program => concat3("/sap/bc/adt/programs/programs/", n, "/source/main"),
            AbapObjectKind::Class => concat3("/sap/bc/adt/oo/classes/", n, "/source/main"),
            AbapObjectKind::Interface => concat3("/sap/bc/adt/oo/interfaces/", n, "/source/main"),
            AbapObjectKind::Include => concat3("/sap/bc/adt/programs/includes/", n, "/source/main"),
            AbapObjectKind::FunctionGroup =>
                concat3("/sap/bc/adt/functions/groups/", n, "/source/main"),
            AbapObjectKind::FunctionModule =>
                concat3("/sap/bc/adt/functions/groups/{group}/fmodules/", n, "/source/main"),
            AbapObjectKind::Table => concat3("/sap/bc/adt/ddic/tables/", n, "/source/main"),
            AbapObjectKind::CdsView => concat3("/sap/bc/adt/ddic/ddl/sources/", n, "/source/main"),
            AbapObjectKind::Package => concat3(
                "/sap/bc/adt/repository/nodestructure?parent_name=",
                n,
                "&parent_type=DEVC%2FK",
            ),
            _ => concat2(
                "/sap/bc/adt/repository/informationsystem/objectproperties/values?uri=/sap/bc/adt/",
                name,
            ),
        }
    }
}

/// The number of lines `str::lines` yields: one per `'\n'`, plus one for a
/// final line that has no terminator.
pub open spec fn lines_in(s: Seq<char>) -> nat {
    newlines(s) + if s.len() > 0 && s.last() != '\n' { 1nat } else { 0nat }
}

/// The number of `'\n'` in `s`.
pub open spec fn newlines(s: Seq<char>) -> nat
    decreases s.len(),
{
    if s.len() == 0 {
        0
    } else {
        newlines(s.drop_last()) + if s.last() == '\n' { 1nat } else { 0nat }
    }
}

proof fn lemma_newlines_le(s: Seq<char>)
    ensures
        newlines(s) <= s.len(),
    decreases s.len(),
{
    if s.len() > 0 {
        lemma_newlines_le(s.drop_last());
    }
}

/// Counts the lines of `s` as `str::lines().count()` does.
pub fn line_count(s: &str) -> (r: usize)
    ensures
        r == lines_in(s@),
{
    let n = s.unicode_len();
    let mut i: usize = 0;
    let mut k: usize = 0;
    while i < n
        invariant
            n == s@.len(),
            i <= n,
            k == newlines(s@.take(i as int)),
            k <= i,
        decreases n - i,
    {
        let c = s.get_char(i);
        proof {
            let t = s@.take(i + 1);
            assert(t.drop_last() =~= s@.take(i as int));
        }
        if c == '\n' {
            k = k + 1;
        }
        i = i + 1;
    }
    assert(s@.take(n as int) =~= s@);
    if n > 0 && s.get_char(n - 1) != '\n' {
        proof {
            lemma_newlines_le(s@.drop_last());
        }
        k + 1
    } else {
        k
    }
}

/// An object's source with its header data.
#[derive(Debug, Clone)]
pub struct ProgramSource {
    pub name: String,
    pub kind: AbapObjectKind,
    /// Package (development class).
    pub package: Option<String>,
    /// Short text from the object header.
    pub description: Option<String>,
    pub source: String,
    /// Whether the object is active (rather than saved but inactive).
    pub active: bool,
    /// Lines of `source`.
    pub line_count: usize,
}

/// A CDS view definition; `annotations` holds the header annotations as name/value
/// pairs, or nothing where the backend did not distil them.
#[derive(Debug, Clone)]
pub struct CdsView {
    pub name: String,
    pub source: String,
    pub root_entity: String,
    pub annotations: Option<Vec<(String, String)>>,
    pub line_count: usize,
}

/// One object of a package.
#[derive(Debug, Clone)]
pub struct PackageMember {
    pub name: String,
    pub kind: AbapObjectKind,
    pub description: Option<String>,
}

/// The objects of a package.
#[derive(Debug, Clone)]
pub struct PackageContents {
    pub package: String,
    pub description: Option<String>,
    pub members: Vec<PackageMember>,
}

/// A repository search.
#[derive(Debug, Clone)]
pub struct AdtSearchRequest {
    pub query: String,
    pub kind: Option<AbapObjectKind>,
    pub max_results: usize,
}

/// The number of results a search asks for when none is given.
pub fn default_max_results() -> (r: usize)
    ensures
        r == 25,
{
    25
}

/// One search result; `score` counts how often the query's terms occur in the
/// object's header text.
#[derive(Debug, Clone)]
pub struct AdtSearchHit {
    pub name: String,
    pub kind: AbapObjectKind,
    pub description: Option<String>,
    pub package: Option<String>,
    pub score: u64,
}

/// Which objects use `name`?
#[derive(Debug, Clone)]
pub struct WhereUsedRequest {
    pub name: String,
    pub kind: AbapObjectKind,
}

/// One use of an object.
#[derive(Debug, Clone)]
pub struct WhereUsedHit {
    pub object: String,
    pub kind: AbapObjectKind,
    /// Where in the object the reference appears.
    pub location: String,
    /// How it is used, e.g. `implements`, `include`.
    pub usage: String,
}

/// One table row as column/value pairs.
#[derive(Debug, Clone)]
pub struct TableRow {
    pub values: Vec<(String, String)>,
}

/// Activate an object.
#[derive(Debug, Clone)]
pub struct ActivationRequest {
    pub name: String,
    pub kind: AbapObjectKind,
}

/// The result of an activation.
#[derive(Debug, Clone)]
pub struct ActivationOutcome {
    pub name: String,
    pub kind: AbapObjectKind,
    pub activated: bool,
    pub messages: Vec<String>,
}

// ---------------------------------------------------------------------------
// copies
// ---------------------------------------------------------------------------

/// A copy of an optional string.
pub fn copy_opt(o: &Option<String>) -> (r: Option<String>)
    ensures
        r == *o,
{
    match o {
        Some(s) => Some(s.clone()),
        None => None,
    }
}

/// A copy of a list of string pairs.
pub fn copy_pairs(v: &Vec<(String, String)>) -> (r: Vec<(String, String)>)
    ensures
        r@ == v@,
{
    let mut r: Vec<(String, String)> = Vec::new();
    let mut i: usize = 0;
    while i < v.len()
        invariant
            i <= v.len(),
            r@ == v@.take(i as int),
        decreases v.len() - i,
    {
        r.push((v[i].0.clone(), v[i].1.clone()));
        assert(v@.take(i + 1) =~= v@.take(i as int).push(v@[i as int]));
        i = i + 1;
    }
    assert(v@.take(v.len() as int) =~= v@);
    r
}

/// Two CDS views hold the same data.
pub open spec fn same_cds(a: CdsView, b: CdsView) -> bool {
    &&& a.name == b.name
    &&& a.source == b.source
    &&& a.root_entity == b.root_entity
    &&& a.line_count == b.line_count
    &&& match (a.annotations, b.annotations) {
        (Some(x), Some(y)) => x@ == y@,
        (None, None) => true,
        _ => false,
    }
}

/// Two package listings hold the same data.
pub open spec fn same_package(a: PackageContents, b: PackageContents) -> bool {
    a.package == b.package && a.description == b.description && a.members@ == b.members@
}

impl ProgramSource {
    /// A copy.
    pub fn copy(&self) -> (r: ProgramSource)
        ensures
            r == *self,
    {
        ProgramSource {
            name: self.name.clone(),
            kind: self.kind,
            package: copy_opt(&self.package),
            description: copy_opt(&self.description),
            source: self.source.clone(),
            active: self.active,
            line_count: self.line_count,
        }
    }
}

impl CdsView {
    /// A copy.
    pub fn copy(&self) -> (r: CdsView)
        ensures
            same_cds(r, *self),
    {
        CdsView {
            name: self.name.clone(),
            source: self.source.clone(),
            root_entity: self.root_entity.clone(),
            annotations: match &self.annotations {
                Some(a) => Some(copy_pairs(a)),
                None => None,
            },
            line_count: self.line_count,
        }
    }
}

impl PackageMember {
    /// A copy.
    pub fn copy(&self) -> (r: PackageMember)
        ensures
            r == *self,
    {
        PackageMember { name: self.name.clone(), kind: self.kind, description: copy_opt(&self.description) }
    }
}

impl PackageContents {
    /// A copy.
    pub fn copy(&self) -> (r: PackageContents)
        ensures
            same_package(r, *self),
    {
        let mut members: Vec<PackageMember> = Vec::new();
        let mut i: usize = 0;
        while i < self.members.len()
            invariant
                i <= self.members@.len(),
                members@ == self.members@.take(i as int),
            decreases self.members@.len() - i,
        {
            members.push(self.members[i].copy());
            assert(self.members@.take(i + 1) =~= self.members@.take(i as int).push(self.members@[i as int]));
            i = i + 1;
        }
        assert(self.members@.take(self.members@.len() as int) =~= self.members@);
        PackageContents {
            package: self.package.clone(),
            description: copy_opt(&self.description),
            members,
        }
    }
}

impl WhereUsedHit {
    /// A copy.
    pub fn copy(&self) -> (r: WhereUsedHit)
        ensures
            r == *self,
    {
        WhereUsedHit {
            object: self.object.clone(),
            kind: self.kind,
            location: self.location.clone(),
            usage: self.usage.clone(),
        }
    }
}

impl TableRow {
    /// A copy.
    pub fn copy(&self) -> (r: TableRow)
        ensures
            r.values@ == self.values@,
    {
        TableRow { values: copy_pairs(&self.values) }
    }
}

} // verus!

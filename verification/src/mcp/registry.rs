//! Registries of a server: entries keyed by name (a tool or prompt name, a
//! resource URI), replaced in place when a name is registered again, and the
//! exposure rules that decide which tools a deployment offers.
use vstd::prelude::*;
use crate::text::{first_from, first_index, lemma_first_from, str_eq};

verus! {

/// Whether a tool only reads or also changes SAP state.
#[derive(Debug, Clone, Copy, PartialEq, Eq, Structural)]
pub enum ToolExposure {
    /// Safe in read-only deployments.
    ReadOnly,
    /// Changes SAP state.
    Writes,
}

/// Which tools a deployment offers.
#[derive(Debug, Clone, Copy, PartialEq, Eq, Structural)]
pub enum ExposurePolicy {
    /// Only read-only tools.
    ReadOnlyOnly,
    /// Read-only and writing tools.
    All,
}

/// Whether `policy` offers a tool with exposure `e`.
pub open spec fn allows(policy: ExposurePolicy, e: ToolExposure) -> bool {
    match (policy, e) {
        (ExposurePolicy::ReadOnlyOnly, ToolExposure::Writes) => false,
        _ => true,
    }
}

/// Decides whether `policy` offers a tool with exposure `e`.
pub fn exposure_allows(policy: ExposurePolicy, e: ToolExposure) -> (r: bool)
    ensures
        r == allows(policy, e),
{
    match (policy, e) {
        (ExposurePolicy::ReadOnlyOnly, ToolExposure::ReadOnly) => true,
        (ExposurePolicy::ReadOnlyOnly, ToolExposure::Writes) => false,
        (ExposurePolicy::All, _) => true,
    }
}

/// A tool: its name and description, its exposure, and what runs it.
pub struct ToolDescriptor<H> {
    pub name: String,
    pub description: Option<String>,
    pub exposure: ToolExposure,
    pub handler: H,
}

impl<H> ToolDescriptor<H> {
    /// A read-only tool.
    pub fn new(name: String, description: Option<String>, handler: H) -> (d: ToolDescriptor<H>)
        ensures
            d.name == name,
            d.description == description,
            d.exposure == ToolExposure::ReadOnly,
            d.handler == handler,
    {
        ToolDescriptor { name, description, exposure: ToolExposure::ReadOnly, handler }
    }

    /// The same tool, marked as changing SAP state.
    pub fn with_writes(self) -> (d: ToolDescriptor<H>)
        ensures
            d.name == self.name,
            d.description == self.description,
            d.exposure == ToolExposure::Writes,
            d.handler == self.handler,
    {
        let mut d = self;
        d.exposure = ToolExposure::Writes;
        d
    }

    /// Whether `policy` offers this tool.
    pub fn is_allowed_by(&self, policy: ExposurePolicy) -> (r: bool)
        ensures
            r == allows(policy, self.exposure),
    {
        exposure_allows(policy, self.exposure)
    }
}

/// A tool handler made from a plain function or closure.
pub struct ToolFn<F>(pub F);

/// One piece of a resource's content.
#[derive(Debug, Clone, PartialEq, Eq)]
pub struct ResourceContents {
    pub uri: String,
    pub mime_type: Option<String>,
    pub text: String,
}

/// Reads a resource; implemented per resource.
pub trait ResourceHandler {
    fn read(&self, uri: &str) -> Result<Vec<ResourceContents>, crate::mcp::error::Error>;
}

/// A resource: its URI, name, description and MIME type, and what reads it.
pub struct ResourceDescriptor<H> {
    pub uri: String,
    pub name: String,
    pub description: Option<String>,
    pub mime_type: Option<String>,
    pub handler: H,
}

/// A prompt: its name and description, and what renders it.
pub struct PromptDescriptor<H> {
    pub name: String,
    pub description: Option<String>,
    pub handler: H,
}

/// The entry named `k`.
pub open spec fn named<V>(k: Seq<char>) -> spec_fn((String, V)) -> bool {
    |e: (String, V)| e.0@ == k
}

/// The position of the entry named `k`, or -1.
pub open spec fn key_pos<V>(s: Seq<(String, V)>, k: Seq<char>) -> int {
    first_index(s, named::<V>(k))
}

/// The value registered under `k`.
pub open spec fn lookup<V>(s: Seq<(String, V)>, k: Seq<char>) -> Option<V> {
    let p = key_pos(s, k);
    if p >= 0 { Some(s[p].1) } else { None }
}

/// The entries after registering `v` under `k`: an entry with that name is
/// replaced where it stands, otherwise the entry is appended.
pub open spec fn put<V>(s: Seq<(String, V)>, k: String, v: V) -> Seq<(String, V)> {
    let p = key_pos(s, k@);
    if p >= 0 { s.update(p, (k, v)) } else { s.push((k, v)) }
}

/// No two entries share a name.
pub open spec fn keys_unique<V>(s: Seq<(String, V)>) -> bool {
    forall|i: int, j: int| 0 <= i < j < s.len() ==> (#[trigger] s[i]).0@ != (#[trigger] s[j]).0@
}

/// The names of the entries, in order.
pub open spec fn keys<V>(s: Seq<(String, V)>) -> Seq<Seq<char>> {
    s.map_values(|e: (String, V)| e.0@)
}

/// Entries keyed by name.
pub struct Catalog<V> {
    entries: Vec<(String, V)>,
}

impl<V> Catalog<V> {
    /// The entries, in registration order.
    pub closed spec fn entry_list(&self) -> Seq<(String, V)> {
        self.entries@
    }

    /// No name occurs twice.
    pub open spec fn wf(&self) -> bool {
        keys_unique(self.entry_list())
    }

    /// An empty catalog.
    pub fn new() -> (c: Catalog<V>)
        ensures
            c.wf(),
            c.entry_list() == Seq::<(String, V)>::empty(),
    {
        Catalog { entries: Vec::new() }
    }

    fn position(&self, k: &str) -> (r: Option<usize>)
        ensures
            match r {
                Some(p) => p == key_pos(self.entry_list(), k@) && p < self.entry_list().len(),
                None => key_pos(self.entry_list(), k@) == -1,
            },
    {
        let ghost f = named::<V>(k@);
        let mut i: usize = 0;
        while i < self.entries.len()
            invariant
                i <= self.entries@.len(),
                f == named::<V>(k@),
                first_from(self.entries@, f, 0) == first_from(self.entries@, f, i as int),
            decreases self.entries@.len() - i,
        {
            if str_eq(self.entries[i].0.as_str(), k) {
                assert(f(self.entries@[i as int]));
                return Some(i);
            }
            i = i + 1;
        }
        None
    }

    /// Registers `v` under `k`, replacing any entry with that name.
    pub fn insert(&mut self, k: String, v: V)
        requires
            old(self).wf(),
        ensures
            final(self).wf(),
            final(self).entry_list() == put(old(self).entry_list(), k, v),
    {
        proof {
            lemma_put_unique(self.entries@, k, v);
        }
        match self.position(k.as_str()) {
            Some(p) => {
                self.entries.set(p, (k, v));
            },
            None => {
                self.entries.push((k, v));
            },
        }
    }

    /// The value registered under `k`.
    pub fn get(&self, k: &str) -> (r: Option<&V>)
        ensures
            match lookup(self.entry_list(), k@) {
                Some(v) => r == Some(&v),
                None => r is None,
            },
    {
        match self.position(k) {
            Some(p) => Some(&self.entries[p].1),
            None => None,
        }
    }

    /// Number of entries.
    pub fn len(&self) -> (n: usize)
        ensures
            n == self.entry_list().len(),
    {
        self.entries.len()
    }

    /// Whether there are no entries.
    pub fn is_empty(&self) -> (b: bool)
        ensures
            b == (self.entry_list().len() == 0),
    {
        self.entries.len() == 0
    }

    /// The entries, in registration order.
    pub fn entries(&self) -> (r: &Vec<(String, V)>)
        ensures
            r@ == self.entry_list(),
    {
        &self.entries
    }

    /// The names, in registration order.
    pub fn names(&self) -> (r: Vec<String>)
        ensures
            crate::text::views(r@) == keys(self.entry_list()),
    {
        let mut r: Vec<String> = Vec::new();
        let mut i: usize = 0;
        while i < self.entries.len()
            invariant
                i <= self.entries@.len(),
                crate::text::views(r@) == keys(self.entries@.take(i as int)),
            decreases self.entries@.len() - i,
        {
            let ghost before = crate::text::views(r@);
            r.push(self.entries[i].0.clone());
            assert(crate::text::views(r@) =~= before.push(self.entries@[i as int].0@));
            assert(keys(self.entries@.take(i + 1)) =~= keys(self.entries@.take(i as int)).push(
                self.entries@[i as int].0@,
            ));
            i = i + 1;
        }
        assert(self.entries@.take(self.entries@.len() as int) =~= self.entries@);
        r
    }

    /// The catalog holding the entries that `keep` marks, in order.
    pub fn retain_marked(self, keep: &Vec<bool>) -> (c: Catalog<V>)
        requires
            self.wf(),
            keep@.len() == self.entry_list().len(),
        ensures
            c.wf(),
            c.entry_list() == marked(self.entry_list(), keep@),
    {
        let ghost all = self.entries@;
        let mut src = self.entries;
        let mut out: Vec<(String, V)> = Vec::new();
        let n = src.len();
        let mut i: usize = 0;
        assert(all.skip(0) =~= all);
        while src.len() > 0
            invariant
                n == all.len(),
                keep@.len() == n,
                keys_unique(all),
                i + src@.len() == n,
                src@ == all.skip(i as int),
                out@ == marked(all.take(i as int), keep@.take(i as int)),
                keys_unique(out@),
                forall|j: int| 0 <= j < out@.len() ==> exists|q: int| 0 <= q < i && (#[trigger] out@[j]).0@ == all[q].0@,
            decreases src@.len(),
        {
            let e = src.remove(0);
            assert(e == all[i as int]);
            assert(src@ =~= all.skip(i + 1));
            assert(all.take(i + 1).drop_last() =~= all.take(i as int));
            assert(keep@.take(i + 1).drop_last() =~= keep@.take(i as int));
            if keep[i] {
                let ghost before = out@;
                proof {
                    assert forall|j: int| 0 <= j < before.len() implies before[j].0@ != e.0@ by {
                        let q = choose|q: int| 0 <= q < i && before[j].0@ == all[q].0@;
                        assert(all[q].0@ != all[i as int].0@);
                    }
                }
                out.push(e);
                assert forall|a: int, b: int| 0 <= a < b < out@.len() implies (#[trigger] out@[a]).0@ != (#[trigger] out@[b]).0@ by {
                    if b == out@.len() - 1 {
                        assert(out@[a] == before[a]);
                    } else {
                        assert(out@[a] == before[a] && out@[b] == before[b]);
                    }
                }
                assert forall|j: int| 0 <= j < out@.len() implies exists|q: int| 0 <= q < i + 1 && (#[trigger] out@[j]).0@ == all[q].0@ by {
                    if j < before.len() {
                        assert(out@[j] == before[j]);
                    } else {
                        assert(out@[j].0@ == all[i as int].0@);
                    }
                }
            }
            i = i + 1;
        }
        assert(all.take(n as int) =~= all);
        assert(keep@.take(n as int) =~= keep@);
        Catalog { entries: out }
    }
}

/// The entries of `s` whose mark is set, in order.
pub open spec fn marked<V>(s: Seq<(String, V)>, keep: Seq<bool>) -> Seq<(String, V)>
    decreases s.len(),
{
    if s.len() == 0 {
        Seq::empty()
    } else {
        let rest = marked(s.drop_last(), keep.drop_last());
        if keep.last() { rest.push(s.last()) } else { rest }
    }
}

proof fn lemma_put_unique<V>(s: Seq<(String, V)>, k: String, v: V)
    requires
        keys_unique(s),
    ensures
        keys_unique(put(s, k, v)),
{
    lemma_first_from(s, named::<V>(k@), 0);
    let p = key_pos(s, k@);
    let t = put(s, k, v);
    if p < 0 {
        assert forall|i: int| 0 <= i < s.len() implies s[i].0@ != k@ by {
            lemma_absent(s, k@, 0, i);
        }
    }
    assert forall|i: int, j: int| 0 <= i < j < t.len() implies (#[trigger] t[i]).0@ != (#[trigger] t[j]).0@ by {
        if p >= 0 {
            if i == p {
                assert(s[p].0@ == k@);
            } else if j == p {
                assert(s[p].0@ == k@);
            }
        }
    }
}

/// When no entry from `i` on is named `k`, none at or after `i` is.
pub proof fn lemma_absent<V>(s: Seq<(String, V)>, k: Seq<char>, i: int, j: int)
    requires
        0 <= i <= j < s.len(),
        first_from(s, named::<V>(k), i) == -1,
    ensures
        s[j].0@ != k,
    decreases j - i,
{
    if i < j {
        lemma_absent(s, k, i + 1, j);
    }
}

} // verus!

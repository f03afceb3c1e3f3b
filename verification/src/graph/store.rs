//! In-memory knowledge graph: entities keyed by id, edges in insertion order.
use vstd::prelude::*;
use crate::graph::entity::{Edge, EdgeKind, Entity, EntityKind, kind_name, kind_name_spec, opt_or_empty};
use crate::rank::{sort_by_score_desc, sort_desc};
use crate::text::{
    concat3, count_from, count_matches_seq, join, join_seq, lowercase, score_of, score_sum,
    score_terms, split_whitespace, to_lower, views, words, words_from,
};

verus! {

/// No two entities share an id.
pub open spec fn ids_unique(nodes: Seq<Entity>) -> bool {
    forall|i: int, j: int| 0 <= i < j < nodes.len() ==> nodes[i].id@ != nodes[j].id@
}

/// Index of the entity with id `id` (searching from the back), or -1.
pub open spec fn position(nodes: Seq<Entity>, id: Seq<char>) -> int
    decreases nodes.len(),
{
    if nodes.len() == 0 {
        -1
    } else if nodes.last().id@ == id {
        nodes.len() - 1
    } else {
        position(nodes.drop_last(), id)
    }
}

/// The node list after adding `e`: an entity with the same id is replaced in place,
/// otherwise `e` is appended.
pub open spec fn upsert(nodes: Seq<Entity>, e: Entity) -> Seq<Entity> {
    let p = position(nodes, e.id@);
    if p >= 0 { nodes.update(p, e) } else { nodes.push(e) }
}

/// Outgoing neighbours of `id`: `(to, kind, weight)` for every edge leaving `id`, in
/// insertion order.
pub open spec fn out_of(edges: Seq<Edge>, id: Seq<char>) -> Seq<(Seq<char>, EdgeKind, u32)>
    decreases edges.len(),
{
    if edges.len() == 0 {
        Seq::empty()
    } else {
        let rest = out_of(edges.drop_last(), id);
        let e = edges.last();
        if e.from@ == id { rest.push((e.to@, e.kind, e.weight_milli)) } else { rest }
    }
}

/// Incoming neighbours of `id`: `(from, kind, weight)` for every edge entering `id`, in
/// insertion order.
pub open spec fn in_of(edges: Seq<Edge>, id: Seq<char>) -> Seq<(Seq<char>, EdgeKind, u32)>
    decreases edges.len(),
{
    if edges.len() == 0 {
        Seq::empty()
    } else {
        let rest = in_of(edges.drop_last(), id);
        let e = edges.last();
        if e.to@ == id { rest.push((e.from@, e.kind, e.weight_milli)) } else { rest }
    }
}

/// Views of a list of `(id, kind, weight)` triples.
pub open spec fn triple_views(v: Seq<(String, EdgeKind, u32)>) -> Seq<(Seq<char>, EdgeKind, u32)> {
    Seq::new(v.len(), |i: int| (v[i].0@, v[i].1, v[i].2))
}

/// Number of entities of kind `k`.
pub open spec fn count_kind(nodes: Seq<Entity>, k: EntityKind) -> nat
    decreases nodes.len(),
{
    if nodes.len() == 0 {
        0
    } else {
        count_kind(nodes.drop_last(), k) + if nodes.last().kind == k { 1nat } else { 0nat }
    }
}

/// The kinds present in `nodes`, each once, in order of first appearance.
pub open spec fn kinds_present(nodes: Seq<Entity>) -> Seq<EntityKind>
    decreases nodes.len(),
{
    if nodes.len() == 0 {
        Seq::empty()
    } else {
        let rest = kinds_present(nodes.drop_last());
        if rest.contains(nodes.last().kind) { rest } else { rest.push(nodes.last().kind) }
    }
}

/// Node and edge counts, and the number of entities of each kind present.
pub struct GraphStats {
    pub node_count: usize,
    pub edge_count: usize,
    /// `(kind name, count)` for each kind present, in order of first appearance.
    pub by_kind: Vec<(String, usize)>,
}

/// `a + b`, saturated to the `u64` range.
pub open spec fn sat_add(a: u64, b: nat) -> u64 {
    if a + b > u64::MAX { u64::MAX } else { (a + b) as u64 }
}

/// Index of `id` in an accumulation list, or -1.
pub open spec fn acc_position(acc: Seq<(Seq<char>, u64)>, id: Seq<char>) -> int
    decreases acc.len(),
{
    if acc.len() == 0 {
        -1
    } else if acc.last().0 == id {
        acc.len() - 1
    } else {
        acc_position(acc.drop_last(), id)
    }
}

/// Adds weight `w` to the entry for `id`, creating it at the end if absent.
pub open spec fn acc_add(acc: Seq<(Seq<char>, u64)>, id: Seq<char>, w: u32) -> Seq<(Seq<char>, u64)> {
    let p = acc_position(acc, id);
    if p >= 0 { acc.update(p, (id, sat_add(acc[p].1, w as nat))) } else { acc.push((id, w as u64)) }
}

/// Per-neighbour weight totals over `items`, neighbours in order of first appearance.
pub open spec fn accumulate(acc: Seq<(Seq<char>, u64)>, items: Seq<(Seq<char>, EdgeKind, u32)>) -> Seq<(Seq<char>, u64)>
    decreases items.len(),
{
    if items.len() == 0 {
        acc
    } else {
        acc_add(accumulate(acc, items.drop_last()), items.last().0, items.last().2)
    }
}

/// Undirected neighbourhood of `id`: every node joined to `id` by an edge in either
/// direction, with the total weight of those edges (outgoing edges first).
pub open spec fn neighbour_totals(edges: Seq<Edge>, id: Seq<char>) -> Seq<(Seq<char>, u64)> {
    accumulate(Seq::empty(), out_of(edges, id) + in_of(edges, id))
}

/// Views of `(id, total)` pairs.
pub open spec fn pair_views(v: Seq<(String, u64)>) -> Seq<(Seq<char>, u64)> {
    Seq::new(v.len(), |i: int| (v[i].0@, v[i].1))
}

proof fn lemma_acc_position(acc: Seq<(Seq<char>, u64)>, id: Seq<char>)
    ensures
        -1 <= acc_position(acc, id) < acc.len(),
        acc_position(acc, id) >= 0 ==> acc[acc_position(acc, id)].0 == id,
        acc_position(acc, id) < 0 ==> forall|k: int| 0 <= k < acc.len() ==> acc[k].0 != id,
    decreases acc.len(),
{
    if acc.len() > 0 && acc.last().0 != id {
        lemma_acc_position(acc.drop_last(), id);
        assert forall|k: int| 0 <= k < acc.len() - 1 implies acc[k] == acc.drop_last()[k] by {}
    }
}

/// Adds every item's weight into `acc`.
fn accumulate_into(acc: &mut Vec<(String, u64)>, items: &Vec<(String, EdgeKind, u32)>)
    ensures
        pair_views(final(acc)@) == accumulate(pair_views(old(acc)@), triple_views(items@)),
{
    let ghost start = pair_views(acc@);
    let mut i: usize = 0;
    while i < items.len()
        invariant
            i <= items@.len(),
            pair_views(acc@) == accumulate(start, triple_views(items@).take(i as int)),
        decreases items@.len() - i,
    {
        assert(triple_views(items@).take(i + 1).drop_last() =~= triple_views(items@).take(i as int));
        assert(triple_views(items@).take(i + 1).last() == (items@[i as int].0@, items@[i as int].1, items@[i as int].2));
        let ghost before = pair_views(acc@);
        let mut j: usize = acc.len();
        assert(before.take(before.len() as int) =~= before);
        while j > 0
            invariant
                i < items@.len(),
                j <= acc@.len(),
                before == pair_views(acc@),
                acc_position(before, items@[i as int].0@) == acc_position(before.take(j as int), items@[i as int].0@),
            ensures
                j <= acc@.len(),
                acc_position(before, items@[i as int].0@) == acc_position(before.take(j as int), items@[i as int].0@),
                j > 0 ==> before[j - 1].0 == items@[i as int].0@,
            decreases j,
        {
            assert(before.take(j as int).drop_last() =~= before.take(j - 1));
            if crate::text::str_eq(acc[j - 1].0.as_str(), items[i].0.as_str()) {
                break;
            }
            j = j - 1;
        }
        proof {
            lemma_acc_position(before, items@[i as int].0@);
        }
        let w = items[i].2;
        if j > 0 {
            assert(before.take(j as int).last() == before[j - 1]);
            let total = acc[j - 1].1;
            let name = acc[j - 1].0.clone();
            let t = if (w as u64) > u64::MAX - total { u64::MAX } else { total + w as u64 };
            acc.set(j - 1, (name, t));
            assert(pair_views(acc@) =~= acc_add(before, items@[i as int].0@, w));
        } else {
            assert(before.take(0) =~= Seq::<(Seq<char>, u64)>::empty());
            acc.push((items[i].0.clone(), w as u64));
            assert(pair_views(acc@) =~= acc_add(before, items@[i as int].0@, w));
        }
        i = i + 1;
    }
    assert(triple_views(items@).take(items@.len() as int) =~= triple_views(items@));
}

proof fn lemma_accumulate_append(acc: Seq<(Seq<char>, u64)>, a: Seq<(Seq<char>, EdgeKind, u32)>, b: Seq<(Seq<char>, EdgeKind, u32)>)
    ensures
        accumulate(accumulate(acc, a), b) == accumulate(acc, a + b),
    decreases b.len(),
{
    if b.len() == 0 {
        assert(a + b =~= a);
    } else {
        lemma_accumulate_append(acc, a, b.drop_last());
        assert((a + b).drop_last() =~= a + b.drop_last());
        assert((a + b).last() == b.last());
    }
}

// ---------------------------------------------------------------------------
// seeding by free text
// ---------------------------------------------------------------------------

/// The words of `ts` whose UTF-8 encoding is at least two bytes long.
pub open spec fn long_terms(ts: Seq<Seq<char>>) -> Seq<Seq<char>>
    decreases ts.len(),
{
    if ts.len() == 0 {
        Seq::empty()
    } else {
        let rest = long_terms(ts.drop_last());
        if (vstd::utf8::encode_utf8(ts.last()).len() as usize) >= 2 { rest.push(ts.last()) } else { rest }
    }
}

/// The search terms of a free-text query: its lower-cased words of at least two bytes.
pub open spec fn seed_terms(query: Seq<char>) -> Seq<Seq<char>> {
    long_terms(words(lowercase(query)))
}

/// The text an entity is matched against: lower-cased label, description and
/// space-joined tags, separated by single spaces.
pub open spec fn haystack(e: Entity) -> Seq<char> {
    lowercase(e.label@) + seq![' '] + lowercase(opt_or_empty(e.description)) + seq![' ']
        + lowercase(join_seq(views(e.tags@), seq![' ']))
}

/// `(score, id)` for every entity with a positive score, in node order.
pub open spec fn candidates(nodes: Seq<Entity>, terms: Seq<Seq<char>>) -> Seq<(u64, String)>
    decreases nodes.len(),
{
    if nodes.len() == 0 {
        Seq::empty()
    } else {
        let rest = candidates(nodes.drop_last(), terms);
        let s = score_of(haystack(nodes.last()), terms);
        if s > 0 { rest.push((s, nodes.last().id)) } else { rest }
    }
}

/// The ids of the `max_seeds` best-scoring entities, best first.
pub open spec fn seeds_spec(nodes: Seq<Entity>, query: Seq<char>, max_seeds: nat) -> Seq<Seq<char>> {
    let terms = seed_terms(query);
    if terms.len() == 0 {
        Seq::empty()
    } else {
        let ranked = sort_desc(candidates(nodes, terms));
        let k = if max_seeds < ranked.len() { max_seeds as int } else { ranked.len() as int };
        Seq::new(k as nat, |i: int| ranked[i].1@)
    }
}

/// The search terms of `query`.
fn query_terms(query: &str) -> (r: Vec<String>)
    ensures
        views(r@) == seed_terms(query@),
        forall|k: int| 0 <= k < r@.len() ==> r@[k]@.len() > 0,
{
    let q = to_lower(query);
    let all = split_whitespace(q.as_str());
    let mut r: Vec<String> = Vec::new();
    let mut i: usize = 0;
    while i < all.len()
        invariant
            i <= all.len(),
            views(all@) == words(q@),
            q@ == lowercase(query@),
            views(r@) == long_terms(views(all@).take(i as int)),
            forall|k: int| 0 <= k < all@.len() ==> all@[k]@.len() > 0,
            forall|k: int| 0 <= k < r@.len() ==> r@[k]@.len() > 0,
        decreases all.len() - i,
    {
        assert(views(all@).take(i + 1).drop_last() =~= views(all@).take(i as int));
        assert(views(all@).take(i + 1).last() == all@[i as int]@);
        if all[i].as_str().len() >= 2 {
            let ghost old_r = views(r@);
            r.push(all[i].clone());
            assert(views(r@) =~= old_r.push(all@[i as int]@));
        }
        i = i + 1;
    }
    assert(views(all@).take(all.len() as int) =~= views(all@));
    r
}

/// The lower-cased text `e` is matched against.
fn entity_haystack(e: &Entity) -> (r: String)
    ensures
        r@ == haystack(*e),
{
    let label = to_lower(e.label.as_str());
    let desc = match &e.description {
        Some(d) => to_lower(d.as_str()),
        None => to_lower(""),
    };
    proof {
        reveal_strlit("");
        reveal_strlit(" ");
        assert(""@ =~= Seq::<char>::empty());
    }
    let tags = join(&e.tags, " ");
    let tags_lc = to_lower(tags.as_str());
    let r = concat3(label.as_str(), " ", desc.as_str());
    let r = concat3(r.as_str(), " ", tags_lc.as_str());
    assert(" "@ =~= seq![' ']);
    r
}

// ---------------------------------------------------------------------------
// the store
// ---------------------------------------------------------------------------

/// Entities keyed by id plus the edge list between them.
pub struct InMemoryGraph {
    nodes: Vec<Entity>,
    edges: Vec<Edge>,
}

impl InMemoryGraph {
    /// The entities, in the order their ids were first added.
    pub closed spec fn node_list(&self) -> Seq<Entity> {
        self.nodes@
    }

    /// The edges, in insertion order.
    pub closed spec fn edge_list(&self) -> Seq<Edge> {
        self.edges@
    }

    /// The store's invariant: ids are unique.
    pub open spec fn wf(&self) -> bool {
        ids_unique(self.node_list())
    }

    /// An empty graph.
    pub fn new() -> (g: InMemoryGraph)
        ensures
            g.wf(),
            g.node_list() == Seq::<Entity>::empty(),
            g.edge_list() == Seq::<Edge>::empty(),
    {
        InMemoryGraph { nodes: Vec::new(), edges: Vec::new() }
    }

    /// Adds `e`, replacing any entity with the same id.
    pub fn add_entity(&mut self, e: Entity)
        requires
            old(self).wf(),
        ensures
            final(self).wf(),
            final(self).node_list() == upsert(old(self).node_list(), e),
            final(self).edge_list() == old(self).edge_list(),
    {
        let ghost old_nodes = self.nodes@;
        let mut i: usize = self.nodes.len();
        assert(old_nodes.take(old_nodes.len() as int) =~= old_nodes);
        while i > 0
            invariant
                i <= self.nodes@.len(),
                self.nodes@ == old_nodes,
                old(self).nodes@ == old_nodes,
                self.edges@ == old(self).edges@,
                ids_unique(old_nodes),
                position(old_nodes, e.id@) == position(old_nodes.take(i as int), e.id@),
            decreases i,
        {
            assert(old_nodes.take(i as int).drop_last() =~= old_nodes.take(i - 1));
            if crate::text::str_eq(self.nodes[i - 1].id.as_str(), e.id.as_str()) {
                proof {
                    lemma_position_bounds(old_nodes.take(i as int), e.id@);
                    assert(old_nodes.take(i as int).last() == old_nodes[i - 1]);
                    assert(position(old_nodes, e.id@) == i - 1);
                }
                self.nodes.set(i - 1, e);
                assert(self.nodes@ == old_nodes.update(i - 1, e));
                assert(old(self).node_list() == old_nodes);
                assert(upsert(old_nodes, e) == old_nodes.update(i - 1, e));
                proof {
                    assert forall|a: int, b: int| 0 <= a < b < self.nodes@.len() implies self.nodes@[a].id@ != self.nodes@[b].id@ by {
                        if a == i - 1 || b == i - 1 {
                            assert(old_nodes[i - 1].id@ == e.id@);
                        }
                    }
                }
                return;
            }
            i = i - 1;
        }
        assert(old_nodes.take(0) =~= Seq::<Entity>::empty());
        proof {
            lemma_position_absent(old_nodes, e.id@);
        }
        self.nodes.push(e);
    }

    /// Appends `e` to the edge list.
    pub fn add_edge(&mut self, e: Edge)
        requires
            old(self).wf(),
        ensures
            final(self).wf(),
            final(self).edge_list() == old(self).edge_list().push(e),
            final(self).node_list() == old(self).node_list(),
    {
        self.edges.push(e);
    }

    /// The entity with id `id`, if any.
    pub fn node(&self, id: &str) -> (r: Option<&Entity>)
        ensures
            r.is_some() <==> position(self.node_list(), id@) >= 0,
            r.is_some() ==> *r.unwrap() == self.node_list()[position(self.node_list(), id@)],
    {
        let mut i: usize = self.nodes.len();
        assert(self.nodes@.take(self.nodes@.len() as int) =~= self.nodes@);
        while i > 0
            invariant
                i <= self.nodes@.len(),
                position(self.nodes@, id@) == position(self.nodes@.take(i as int), id@),
            decreases i,
        {
            assert(self.nodes@.take(i as int).drop_last() =~= self.nodes@.take(i - 1));
            if crate::text::str_eq(self.nodes[i - 1].id.as_str(), id) {
                return Some(&self.nodes[i - 1]);
            }
            i = i - 1;
        }
        None
    }

    /// All entities.
    pub fn nodes(&self) -> (r: &Vec<Entity>)
        ensures
            r@ == self.node_list(),
    {
        &self.nodes
    }

    /// All edges, in insertion order.
    pub fn edges(&self) -> (r: &Vec<Edge>)
        ensures
            r@ == self.edge_list(),
    {
        &self.edges
    }

    /// Outgoing neighbours of `id`: `(to, kind, weight)`, in insertion order.
    pub fn outbound(&self, id: &str) -> (r: Vec<(String, EdgeKind, u32)>)
        ensures
            triple_views(r@) == out_of(self.edge_list(), id@),
    {
        let mut r: Vec<(String, EdgeKind, u32)> = Vec::new();
        let mut i: usize = 0;
        while i < self.edges.len()
            invariant
                i <= self.edges@.len(),
                triple_views(r@) == out_of(self.edges@.take(i as int), id@),
            decreases self.edges@.len() - i,
        {
            assert(self.edges@.take(i + 1).drop_last() =~= self.edges@.take(i as int));
            let e = &self.edges[i];
            if crate::text::str_eq(e.from.as_str(), id) {
                let ghost before = triple_views(r@);
                r.push((e.to.clone(), e.kind, e.weight_milli));
                assert(triple_views(r@) =~= before.push((e.to@, e.kind, e.weight_milli)));
            }
            i = i + 1;
        }
        assert(self.edges@.take(self.edges@.len() as int) =~= self.edges@);
        r
    }

    /// Incoming neighbours of `id`: `(from, kind, weight)`, in insertion order.
    pub fn inbound(&self, id: &str) -> (r: Vec<(String, EdgeKind, u32)>)
        ensures
            triple_views(r@) == in_of(self.edge_list(), id@),
    {
        let mut r: Vec<(String, EdgeKind, u32)> = Vec::new();
        let mut i: usize = 0;
        while i < self.edges.len()
            invariant
                i <= self.edges@.len(),
                triple_views(r@) == in_of(self.edges@.take(i as int), id@),
            decreases self.edges@.len() - i,
        {
            assert(self.edges@.take(i + 1).drop_last() =~= self.edges@.take(i as int));
            let e = &self.edges[i];
            if crate::text::str_eq(e.to.as_str(), id) {
                let ghost before = triple_views(r@);
                r.push((e.from.clone(), e.kind, e.weight_milli));
                assert(triple_views(r@) =~= before.push((e.from@, e.kind, e.weight_milli)));
            }
            i = i + 1;
        }
        assert(self.edges@.take(self.edges@.len() as int) =~= self.edges@);
        r
    }

    /// Nodes joined to `id` by an edge in either direction, each once (in order of first
    /// appearance, outgoing edges first), with the total weight of the joining edges.
    pub fn undirected_neighbours(&self, id: &str) -> (r: Vec<(String, u64)>)
        ensures
            pair_views(r@) == neighbour_totals(self.edge_list(), id@),
    {
        let out = self.outbound(id);
        let inn = self.inbound(id);
        let mut acc: Vec<(String, u64)> = Vec::new();
        assert(pair_views(acc@) =~= Seq::<(Seq<char>, u64)>::empty());
        accumulate_into(&mut acc, &out);
        accumulate_into(&mut acc, &inn);
        proof {
            lemma_accumulate_append(Seq::empty(), triple_views(out@), triple_views(inn@));
        }
        acc
    }

    /// Node and edge counts, and how many entities of each kind there are.
    pub fn stats(&self) -> (r: GraphStats)
        ensures
            r.node_count == self.node_list().len(),
            r.edge_count == self.edge_list().len(),
            r.by_kind@.len() == kinds_present(self.node_list()).len(),
            forall|k: int| 0 <= k < r.by_kind@.len() ==> {
                &&& r.by_kind@[k].0@ == kind_name_spec(kinds_present(self.node_list())[k])
                &&& r.by_kind@[k].1 == count_kind(self.node_list(), kinds_present(self.node_list())[k])
            },
    {
        let mut kinds: Vec<EntityKind> = Vec::new();
        let mut counts: Vec<usize> = Vec::new();
        let mut i: usize = 0;
        while i < self.nodes.len()
            invariant
                i <= self.nodes@.len(),
                kinds@ == kinds_present(self.nodes@.take(i as int)),
                counts@.len() == kinds@.len(),
                forall|k: int| 0 <= k < counts@.len() ==> counts@[k] == count_kind(self.nodes@.take(i as int), #[trigger] kinds@[k]),
                forall|k: int| 0 <= k < counts@.len() ==> counts@[k] <= i,
                forall|a: int, b: int| 0 <= a < b < kinds@.len() ==> kinds@[a] != kinds@[b],
            decreases self.nodes@.len() - i,
        {
            let ghost prefix = self.nodes@.take(i as int);
            let ghost next = self.nodes@.take(i + 1);
            assert(next.drop_last() =~= prefix);
            let kind = self.nodes[i].kind;
            let mut j: usize = 0;
            while j < kinds.len() && kinds[j] != kind
                invariant
                    j <= kinds@.len(),
                    forall|m: int| 0 <= m < j ==> kinds@[m] != kind,
                decreases kinds@.len() - j,
            {
                j = j + 1;
            }
            proof {
                lemma_count_kind_step(self.nodes@, i as int);
            }
            if j < kinds.len() {
                assert(kinds@.contains(kind));
                let c = counts[j];
                counts.set(j, c + 1);
            } else {
                assert(!kinds@.contains(kind));
                proof {
                    lemma_count_kind_absent(prefix, kind);
                }
                kinds.push(kind);
                counts.push(1);
            }
            i = i + 1;
        }
        assert(self.nodes@.take(self.nodes@.len() as int) =~= self.nodes@);
        let mut by_kind: Vec<(String, usize)> = Vec::new();
        let mut k: usize = 0;
        while k < kinds.len()
            invariant
                k <= kinds@.len(),
                counts@.len() == kinds@.len(),
                by_kind@.len() == k,
                forall|m: int| 0 <= m < k ==> #[trigger] by_kind@[m].0@ == kind_name_spec(kinds@[m]),
                forall|m: int| 0 <= m < k ==> #[trigger] by_kind@[m].1 == counts@[m],
            decreases kinds@.len() - k,
        {
            let name = crate::text::owned(kind_name(kinds[k]));
            assert(name@ == kind_name_spec(kinds@[k as int]));
            let ghost nm = name@;
            let c = counts[k];
            by_kind.push((name, c));
            assert(by_kind@[k as int].0@ == nm);
            assert(by_kind@[k as int].1 == counts@[k as int]);
            k = k + 1;
        }
        GraphStats { node_count: self.nodes.len(), edge_count: self.edges.len(), by_kind }
    }

    /// Ids of the entities that best match the free-text `query`, best first, at most
    /// `max_seeds` of them.  An entity's score is the number of occurrences of the query's
    /// lower-cased words (of two bytes or more) in its lower-cased label, description and
    /// tags; entities scoring zero are left out, and equal scores keep node order.
    pub fn find_seeds(&self, query: &str, max_seeds: usize) -> (r: Vec<String>)
        ensures
            views(r@) == seeds_spec(self.node_list(), query@, max_seeds as nat),
    {
        let terms = query_terms(query);
        if terms.len() == 0 {
            let r: Vec<String> = Vec::new();
            assert(views(r@) =~= Seq::<Seq<char>>::empty());
            return r;
        }
        let mut scored: Vec<(u64, String)> = Vec::new();
        let mut i: usize = 0;
        while i < self.nodes.len()
            invariant
                i <= self.nodes@.len(),
                views(terms@) == seed_terms(query@),
                forall|k: int| 0 <= k < terms@.len() ==> terms@[k]@.len() > 0,
                scored@ == candidates(self.nodes@.take(i as int), views(terms@)),
            decreases self.nodes@.len() - i,
        {
            assert(self.nodes@.take(i + 1).drop_last() =~= self.nodes@.take(i as int));
            let hay = entity_haystack(&self.nodes[i]);
            let s = score_terms(hay.as_str(), &terms);
            if s > 0 {
                scored.push((s, self.nodes[i].id.clone()));
            }
            i = i + 1;
        }
        assert(self.nodes@.take(self.nodes@.len() as int) =~= self.nodes@);
        let ranked = sort_by_score_desc(scored);
        let mut r: Vec<String> = Vec::new();
        let mut k: usize = 0;
        while k < ranked.len() && k < max_seeds
            invariant
                k <= ranked@.len(),
                k <= max_seeds,
                r@.len() == k,
                forall|m: int| 0 <= m < k ==> r@[m]@ == ranked@[m].1@,
            decreases ranked@.len() - k,
        {
            r.push(ranked[k].1.clone());
            k = k + 1;
        }
        assert(seed_terms(query@).len() == terms@.len());
        assert(scored@ == candidates(self.nodes@, views(terms@)));
        assert(ranked@ == sort_desc(candidates(self.node_list(), seed_terms(query@))));
        assert(r@.len() == (if (max_seeds as nat) < ranked@.len() { max_seeds as int } else { ranked@.len() as int }));
        assert forall|m: int| 0 <= m < r@.len() implies views(r@)[m] == ranked@[m].1@ by {}
        assert(views(r@) =~= seeds_spec(self.node_list(), query@, max_seeds as nat));
        r
    }
}

pub proof fn lemma_position_bounds(nodes: Seq<Entity>, id: Seq<char>)
    ensures
        -1 <= position(nodes, id) < nodes.len(),
        position(nodes, id) >= 0 ==> nodes[position(nodes, id)].id@ == id,
    decreases nodes.len(),
{
    if nodes.len() > 0 && nodes.last().id@ != id {
        lemma_position_bounds(nodes.drop_last(), id);
    }
}

pub proof fn lemma_position_absent(nodes: Seq<Entity>, id: Seq<char>)
    requires
        position(nodes, id) < 0,
    ensures
        forall|k: int| 0 <= k < nodes.len() ==> nodes[k].id@ != id,
    decreases nodes.len(),
{
    if nodes.len() > 0 {
        lemma_position_absent(nodes.drop_last(), id);
        assert forall|k: int| 0 <= k < nodes.len() implies nodes[k].id@ != id by {
            if k < nodes.len() - 1 {
                assert(nodes[k] == nodes.drop_last()[k]);
            }
        }
    }
}

proof fn lemma_count_kind_step(nodes: Seq<Entity>, i: int)
    requires
        0 <= i < nodes.len(),
    ensures
        forall|k: EntityKind| #[trigger] count_kind(nodes.take(i + 1), k) == count_kind(nodes.take(i), k)
            + if nodes[i].kind == k { 1nat } else { 0nat },
        kinds_present(nodes.take(i + 1)) == (if kinds_present(nodes.take(i)).contains(nodes[i].kind) {
            kinds_present(nodes.take(i))
        } else {
            kinds_present(nodes.take(i)).push(nodes[i].kind)
        }),
{
    assert(nodes.take(i + 1).drop_last() =~= nodes.take(i));
}

proof fn lemma_count_kind_absent(nodes: Seq<Entity>, k: EntityKind)
    requires
        !kinds_present(nodes).contains(k),
    ensures
        count_kind(nodes, k) == 0,
    decreases nodes.len(),
{
    if nodes.len() > 0 {
        let rest = kinds_present(nodes.drop_last());
        let kp = kinds_present(nodes);
        if rest.contains(k) {
            let idx = choose|j: int| 0 <= j < rest.len() && rest[j] == k;
            assert(kp[idx] == k);
        }
        if nodes.last().kind == k && !rest.contains(k) {
            assert(kp[rest.len() as int] == k);
        }
        lemma_count_kind_absent(nodes.drop_last(), k);
    }
}

} // verus!

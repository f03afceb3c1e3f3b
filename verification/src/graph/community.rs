//! Communities of the graph: grouping nodes by community id, naming each group by
//! its members' labels, numbering groups by size, and looking a node's community up.
//! The ids themselves come from greedy modularity moves (`detect_communities`).
use vstd::prelude::*;
pub use crate::graph::louvain::{detect_communities, detection_supported};
use crate::graph::entity::Entity;
use crate::graph::store::{position, InMemoryGraph};
use crate::order::{dedup_adjacent, dedup_strings, sort_lex, sort_strings};
use crate::rank::{sort_by_score_desc, sort_desc};
use crate::text::{first_from, first_index, join, join_seq, str_eq, views};

verus! {

/// A group of nodes.
pub struct Community {
    pub id: u32,
    /// Member ids, ascending.
    pub members: Vec<String>,
    /// The members' distinct labels, ascending, joined by ` · `.
    pub summary: String,
}

/// All communities, and each node's community id.
pub struct Communities {
    pub communities: Vec<Community>,
    /// Node id and the id of its community; each node occurs once (`law_membership_once`).
    pub membership: Vec<(String, u32)>,
}

/// The membership entry of node `id`.
pub open spec fn entry_of(id: Seq<char>) -> spec_fn((String, u32)) -> bool {
    |e: (String, u32)| e.0@ == id
}

/// The community numbered `c`.
pub open spec fn numbered(c: u32) -> spec_fn(Community) -> bool {
    |k: Community| k.id == c
}

impl Communities {
    /// The community of node `id`, if the node has one and it is listed.
    pub fn for_node(&self, id: &str) -> (r: Option<&Community>)
        ensures
            ({
                let i = first_index(self.membership@, entry_of(id@));
                if i < 0 {
                    r is None
                } else {
                    let j = first_index(self.communities@, numbered(self.membership@[i].1));
                    if j < 0 {
                        r is None
                    } else {
                        r == Some(&self.communities@[j])
                    }
                }
            }),
    {
        let ghost f = entry_of(id@);
        let mut i: usize = 0;
        while i < self.membership.len()
            invariant
                i <= self.membership@.len(),
                f == entry_of(id@),
                first_from(self.membership@, f, 0) == first_from(self.membership@, f, i as int),
            decreases self.membership@.len() - i,
        {
            if str_eq(self.membership[i].0.as_str(), id) {
                assert(f(self.membership@[i as int]));
                assert(first_index(self.membership@, entry_of(id@)) == i);
                let cid = self.membership[i].1;
                let ghost g = numbered(cid);
                let mut j: usize = 0;
                while j < self.communities.len()
                    invariant
                        j <= self.communities@.len(),
                        g == numbered(cid),
                        i < self.membership@.len(),
                        first_index(self.membership@, entry_of(id@)) == i,
                        self.membership@[i as int].1 == cid,
                        first_from(self.communities@, g, 0) == first_from(self.communities@, g, j as int),
                    decreases self.communities@.len() - j,
                {
                    if self.communities[j].id == cid {
                        assert(g(self.communities@[j as int]));
                        return Some(&self.communities[j]);
                    }
                    j = j + 1;
                }
                return None;
            }
            i = i + 1;
        }
        None
    }
}

// ---------------------------------------------------------------------------
// grouping
// ---------------------------------------------------------------------------

/// The community ids of `m`, each once, in order of first appearance.
pub open spec fn ids_in_order(m: Seq<(String, u32)>) -> Seq<u32>
    decreases m.len(),
{
    if m.len() == 0 {
        Seq::empty()
    } else {
        let rest = ids_in_order(m.drop_last());
        if rest.contains(m.last().1) { rest } else { rest.push(m.last().1) }
    }
}

/// The nodes of `m` in community `c`, in order.
pub open spec fn members_with(m: Seq<(String, u32)>, c: u32) -> Seq<Seq<char>>
    decreases m.len(),
{
    if m.len() == 0 {
        Seq::empty()
    } else {
        let rest = members_with(m.drop_last(), c);
        if m.last().1 == c { rest.push(m.last().0@) } else { rest }
    }
}

/// The labels of those of `ids` that are nodes of the graph, in order.
pub open spec fn labels_of(nodes: Seq<Entity>, ids: Seq<Seq<char>>) -> Seq<Seq<char>>
    decreases ids.len(),
{
    if ids.len() == 0 {
        Seq::empty()
    } else {
        let rest = labels_of(nodes, ids.drop_last());
        let p = position(nodes, ids.last());
        if p >= 0 { rest.push(nodes[p].label@) } else { rest }
    }
}

/// The summary of a community with (ascending) members `members`.
pub open spec fn summary_of(nodes: Seq<Entity>, members: Seq<Seq<char>>) -> Seq<char> {
    join_seq(dedup_adjacent(sort_lex(labels_of(nodes, members))), " · "@)
}

/// Whether `k` is the community `c` of membership `m` in graph `nodes`.
pub open spec fn is_group(nodes: Seq<Entity>, m: Seq<(String, u32)>, c: u32, k: Community) -> bool {
    &&& k.id == c
    &&& views(k.members@) == sort_lex(members_with(m, c))
    &&& k.summary@ == summary_of(nodes, views(k.members@))
}

fn distinct_ids(m: &Vec<(String, u32)>) -> (r: Vec<u32>)
    ensures
        r@ == ids_in_order(m@),
{
    let mut r: Vec<u32> = Vec::new();
    let mut i: usize = 0;
    while i < m.len()
        invariant
            i <= m@.len(),
            r@ == ids_in_order(m@.take(i as int)),
        decreases m@.len() - i,
    {
        assert(m@.take(i + 1).drop_last() =~= m@.take(i as int));
        let c = m[i].1;
        let mut j: usize = 0;
        let mut found = false;
        while j < r.len()
            invariant
                j <= r@.len(),
                found == r@.take(j as int).contains(c),
            decreases r@.len() - j,
        {
            assert(r@.take(j + 1) =~= r@.take(j as int).push(r@[j as int]));
            if r[j] == c {
                assert(r@.take(j + 1)[j as int] == c);
                found = true;
            } else {
                proof {
                    let t = r@.take(j + 1);
                    if t.contains(c) {
                        let w = choose|w: int| 0 <= w < t.len() && t[w] == c;
                        assert(r@.take(j as int)[w] == c);
                    }
                }
            }
            j = j + 1;
        }
        assert(r@.take(r@.len() as int) =~= r@);
        if !found {
            r.push(c);
        }
        i = i + 1;
    }
    assert(m@.take(m@.len() as int) =~= m@);
    r
}

fn collect_members(m: &Vec<(String, u32)>, c: u32) -> (r: Vec<String>)
    ensures
        views(r@) == members_with(m@, c),
{
    let mut r: Vec<String> = Vec::new();
    let mut i: usize = 0;
    while i < m.len()
        invariant
            i <= m@.len(),
            views(r@) == members_with(m@.take(i as int), c),
        decreases m@.len() - i,
    {
        assert(m@.take(i + 1).drop_last() =~= m@.take(i as int));
        if m[i].1 == c {
            let ghost before = views(r@);
            r.push(m[i].0.clone());
            assert(views(r@) =~= before.push(m@[i as int].0@));
        }
        i = i + 1;
    }
    assert(m@.take(m@.len() as int) =~= m@);
    r
}

fn collect_labels(g: &InMemoryGraph, ids: &Vec<String>) -> (r: Vec<String>)
    ensures
        views(r@) == labels_of(g.node_list(), views(ids@)),
{
    let mut r: Vec<String> = Vec::new();
    let mut i: usize = 0;
    while i < ids.len()
        invariant
            i <= ids@.len(),
            views(r@) == labels_of(g.node_list(), views(ids@).take(i as int)),
        decreases ids@.len() - i,
    {
        assert(views(ids@).take(i + 1).drop_last() =~= views(ids@).take(i as int));
        assert(views(ids@).take(i + 1).last() == ids@[i as int]@);
        match g.node(ids[i].as_str()) {
            Some(e) => {
                let ghost before = views(r@);
                r.push(e.label.clone());
                assert(views(r@) =~= before.push(e.label@));
            },
            None => {},
        }
        i = i + 1;
    }
    assert(views(ids@).take(ids@.len() as int) =~= views(ids@));
    r
}

/// One community per id of `membership`, in order of first appearance, each with its
/// members sorted and its summary built from their labels.
pub fn group_communities(g: &InMemoryGraph, membership: &Vec<(String, u32)>) -> (r: Vec<Community>)
    ensures
        r@.len() == ids_in_order(membership@).len(),
        forall|k: int| 0 <= k < r@.len() ==> is_group(
            g.node_list(),
            membership@,
            ids_in_order(membership@)[k],
            #[trigger] r@[k],
        ),
{
    let ids = distinct_ids(membership);
    let mut r: Vec<Community> = Vec::new();
    let mut k: usize = 0;
    while k < ids.len()
        invariant
            k <= ids@.len(),
            ids@ == ids_in_order(membership@),
            r@.len() == k,
            forall|q: int| 0 <= q < k ==> is_group(g.node_list(), membership@, ids@[q], #[trigger] r@[q]),
        decreases ids@.len() - k,
    {
        let c = ids[k];
        let members = sort_strings(collect_members(membership, c));
        let labels = dedup_strings(sort_strings(collect_labels(g, &members)));
        let summary = join(&labels, " · ");
        r.push(Community { id: c, members, summary });
        k = k + 1;
    }
    r
}

// ---------------------------------------------------------------------------
// numbering by size
// ---------------------------------------------------------------------------

/// The communities paired with their sizes, for ordering.
pub open spec fn sized(cs: Seq<Community>) -> Seq<(u64, Community)> {
    cs.map_values(|c: Community| (c.members@.len() as u64, c))
}

/// The position, in `ranked`, of the community numbered `c`.
pub open spec fn rank_of(ranked: Seq<(u64, Community)>, c: u32) -> int {
    first_index(ranked, |x: (u64, Community)| x.1.id == c)
}

/// Whether every community id of `m` is the id of one of `cs`.
pub open spec fn all_listed(m: Seq<(String, u32)>, cs: Seq<Community>) -> bool {
    forall|i: int| 0 <= i < m.len() ==> exists|j: int| 0 <= j < cs.len() && (#[trigger] cs[j]).id == (#[trigger] m[i]).1
}

/// Orders the communities by size, largest first (equal sizes keep their order),
/// numbers them `0, 1, ...` in that order, and rewrites each node's community id to
/// the new number.
pub fn renumber(communities: Vec<Community>, membership: &mut Vec<(String, u32)>) -> (r: Vec<Community>)
    requires
        all_listed(old(membership)@, communities@),
        communities@.len() <= u32::MAX,
    ensures
        ({
            let ranked = sort_desc(sized(communities@));
            &&& r@.len() == ranked.len()
            &&& forall|k: int| 0 <= k < r@.len() ==> {
                &&& (#[trigger] r@[k]).id == k
                &&& r@[k].members@ == ranked[k].1.members@
                &&& r@[k].summary@ == ranked[k].1.summary@
            }
            &&& final(membership)@.len() == old(membership)@.len()
            &&& forall|i: int| 0 <= i < final(membership)@.len() ==> {
                &&& (#[trigger] final(membership)@[i]).0 == old(membership)@[i].0
                &&& final(membership)@[i].1 == rank_of(ranked, old(membership)@[i].1)
            }
        }),
{
    let ghost orig = communities@;
    let mut pairs: Vec<(u64, Community)> = Vec::new();
    let mut cs = communities;
    let n = cs.len();
    let mut i: usize = 0;
    assert(orig.skip(0) =~= orig);
    while cs.len() > 0
        invariant
            n == orig.len(),
            cs.len() <= n,
            i == n - cs.len(),
            cs@ == orig.skip(i as int),
            pairs@ == sized(orig.take(i as int)),
        decreases cs.len(),
    {
        let c = cs.remove(0);
        assert(c == orig[i as int]);
        assert(cs@ =~= orig.skip(i + 1));
        let len = c.members.len() as u64;
        pairs.push((len, c));
        assert(pairs@ =~= sized(orig.take(i + 1)));
        i = i + 1;
    }
    assert(orig.take(n as int) =~= orig);
    let ghost ranked = sort_desc(sized(orig));
    let ranked_v = sort_by_score_desc(pairs);
    proof {
        crate::rank::lemma_sort_desc(sized(orig));
    }
    let old_ids: Vec<u32> = {
        let mut v: Vec<u32> = Vec::new();
        let mut k: usize = 0;
        while k < ranked_v.len()
            invariant
                k <= ranked_v@.len(),
                ranked_v@ == ranked,
                v@.len() == k,
                forall|q: int| 0 <= q < k ==> v@[q] == ranked[q].1.id,
            decreases ranked_v@.len() - k,
        {
            v.push(ranked_v[k].1.id);
            k = k + 1;
        }
        v
    };
    // Rewrite each node's community id to its community's new number.
    let mut j: usize = 0;
    let ghost m0 = membership@;
    while j < membership.len()
        invariant
            j <= membership@.len(),
            membership@.len() == m0.len(),
            m0 == old(membership)@,
            all_listed(m0, orig),
            old_ids@.len() == ranked.len(),
            ranked.to_multiset() == sized(orig).to_multiset(),
            ranked.len() == orig.len(),
            ranked.len() <= u32::MAX,
            forall|q: int| 0 <= q < old_ids@.len() ==> old_ids@[q] == ranked[q].1.id,
            forall|q: int| 0 <= q < j ==> {
                &&& (#[trigger] membership@[q]).0 == m0[q].0
                &&& membership@[q].1 == rank_of(ranked, m0[q].1)
            },
            forall|q: int| j <= q < membership@.len() ==> #[trigger] membership@[q] == m0[q],
        decreases membership@.len() - j,
    {
        let c = membership[j].1;
        let ghost f = |x: (u64, Community)| x.1.id == c;
        let mut p: usize = 0;
        while p < old_ids.len() && old_ids[p] != c
            invariant
                p <= old_ids@.len(),
                old_ids@.len() == ranked.len(),
                forall|q: int| 0 <= q < old_ids@.len() ==> old_ids@[q] == ranked[q].1.id,
                f == (|x: (u64, Community)| x.1.id == c),
                first_from(ranked, f, 0) == first_from(ranked, f, p as int),
            decreases old_ids@.len() - p,
        {
            p = p + 1;
        }
        proof {
            broadcast use vstd::seq_lib::group_to_multiset_ensures;
            // The community of this node is listed, so it is found.
            assert(m0[j as int] == m0[j as int]);
            let w = choose|w: int| 0 <= w < orig.len() && (#[trigger] orig[w]).id == m0[j as int].1;
            assert(sized(orig)[w] == (orig[w].members@.len() as u64, orig[w]));
            assert(sized(orig).contains(sized(orig)[w]));
            assert(sized(orig).to_multiset().count(sized(orig)[w]) > 0);
            assert(ranked.to_multiset().count(sized(orig)[w]) > 0);
            assert(ranked.contains(sized(orig)[w]));
            if p == old_ids.len() {
                let z = choose|z: int| 0 <= z < ranked.len() && ranked[z] == sized(orig)[w];
                crate::text::lemma_first_from(ranked, f, 0);
                assert(f(ranked[z]));
                lemma_first_from_none(ranked, f, 0, z);
            }
            if p < old_ids.len() {
                assert(f(ranked[p as int]));
            }
        }
        let name = membership[j].0.clone();
        membership.set(j, (name, p as u32));
        j = j + 1;
    }
    // Number the communities in their new order.
    let mut out: Vec<Community> = Vec::new();
    let mut src = ranked_v;
    let mut k: usize = 0;
    assert(ranked.skip(0) =~= ranked);
    while src.len() > 0
        invariant
            k + src@.len() == ranked.len(),
            ranked.len() <= u32::MAX,
            src@ == ranked.skip(k as int),
            out@.len() == k,
            forall|q: int| 0 <= q < k ==> {
                &&& (#[trigger] out@[q]).id == q
                &&& out@[q].members@ == ranked[q].1.members@
                &&& out@[q].summary@ == ranked[q].1.summary@
            },
        decreases src@.len(),
    {
        let x = src.remove(0);
        assert(x == ranked[k as int]);
        assert(src@ =~= ranked.skip(k + 1));
        let (_, c) = x;
        out.push(Community { id: k as u32, members: c.members, summary: c.summary });
        k = k + 1;
    }
    out
}

proof fn lemma_first_from_none<T>(s: Seq<T>, f: spec_fn(T) -> bool, i: int, z: int)
    requires
        0 <= i <= z < s.len(),
        f(s[z]),
    ensures
        first_from(s, f, i) != -1,
    decreases s.len() - i,
{
    if i < z && !f(s[i]) {
        lemma_first_from_none(s, f, i + 1, z);
    }
}

} // verus!

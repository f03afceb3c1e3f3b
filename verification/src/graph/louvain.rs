//! Community detection by greedy modularity moves (the local-moving phase of
//! Louvain).  Edge weights are integers (thousandths), so every modularity gain is
//! compared exactly.
use vstd::prelude::*;
use crate::graph::entity::{Edge, Entity};
use crate::graph::community::{
    all_listed, group_communities, ids_in_order, is_group, members_with, rank_of, renumber, sized, Communities,
    Community,
};
use crate::rank::{first_below, insert_desc, lemma_first_below, lemma_sort_desc, sort_desc, sorted_desc};
use crate::order::lemma_sort_lex;
use crate::text::lemma_first_at;
use crate::graph::store::{neighbour_totals, pair_views, InMemoryGraph};
use crate::order::{sort_lex, sort_strings};
use crate::text::{first_from, first_index, str_eq, views};

verus! {

/// What community detection reads of a graph: the node ids in ascending order, the
/// neighbours of each node with the total weight joining them, each node's weighted
/// degree, and the sum of all degrees (twice the total edge weight).
pub struct ModularityInput {
    pub ids: Seq<Seq<char>>,
    pub nbs: Seq<Seq<(Seq<char>, u64)>>,
    pub degs: Seq<nat>,
    pub total: nat,
}

/// The ids of `nodes`, in order.
pub open spec fn node_ids(nodes: Seq<Entity>) -> Seq<Seq<char>> {
    Seq::new(nodes.len(), |i: int| nodes[i].id@)
}

/// The sum of the weights of `nb`.
pub open spec fn wsum(nb: Seq<(Seq<char>, u64)>) -> nat
    decreases nb.len(),
{
    if nb.len() == 0 {
        0
    } else {
        wsum(nb.drop_last()) + nb.last().1 as nat
    }
}

/// The sum of `s`.
pub open spec fn sum_nat(s: Seq<nat>) -> nat
    decreases s.len(),
{
    if s.len() == 0 {
        0
    } else {
        sum_nat(s.drop_last()) + s.last()
    }
}

/// What community detection reads of the graph with nodes `nodes` and edges `edges`.
pub open spec fn modularity_input(nodes: Seq<Entity>, edges: Seq<Edge>) -> ModularityInput {
    let ids = sort_lex(node_ids(nodes));
    let nbs = Seq::new(ids.len(), |i: int| neighbour_totals(edges, ids[i]));
    let degs = Seq::new(ids.len(), |i: int| wsum(nbs[i]));
    ModularityInput { ids, nbs, degs, total: sum_nat(degs) }
}

/// Equal to `x`.
pub open spec fn is_seq(x: Seq<char>) -> spec_fn(Seq<char>) -> bool {
    |y: Seq<char>| y == x
}

/// The position of node `x` among the ids, or -1.
pub open spec fn index_in(ids: Seq<Seq<char>>, x: Seq<char>) -> int {
    first_index(ids, is_seq(x))
}

/// Every neighbour of a node is a node.
pub open spec fn neighbours_are_nodes(w: ModularityInput) -> bool {
    forall|i: int, k: int|
        0 <= i < w.nbs.len() && 0 <= k < w.nbs[i].len() ==> index_in(w.ids, (#[trigger] w.nbs[i][k]).0) >= 0
}

/// The community, under membership `m`, of node `x`.
pub open spec fn community_of(w: ModularityInput, m: Seq<u32>, x: Seq<char>) -> u32 {
    m[index_in(w.ids, x)]
}

/// The weight joining a node, through the neighbour entries `nb`, to community `c`.
pub open spec fn weight_into(w: ModularityInput, m: Seq<u32>, nb: Seq<(Seq<char>, u64)>, c: u32) -> nat
    decreases nb.len(),
{
    if nb.len() == 0 {
        0
    } else {
        weight_into(w, m, nb.drop_last(), c) + if community_of(w, m, nb.last().0) == c {
            nb.last().1 as nat
        } else {
            0
        }
    }
}

/// The total degree of the nodes `0..j` in community `c`, node `skip` left out.
pub open spec fn community_degree(w: ModularityInput, m: Seq<u32>, j: int, skip: int, c: u32) -> nat
    decreases j,
{
    if j <= 0 {
        0
    } else {
        community_degree(w, m, j - 1, skip, c) + if j - 1 != skip && m[j - 1] == c {
            w.degs[j - 1]
        } else {
            0
        }
    }
}

/// The modularity gain of moving node `i` into community `c`, scaled by the positive
/// factor `total² / 2`: `k_i,c · total − Σ_c · k_i`, where `k_i,c` is the weight from
/// `i` into `c`, `Σ_c` the degree of `c` without `i`, and `k_i` the degree of `i`.
pub open spec fn gain(w: ModularityInput, m: Seq<u32>, i: int, c: u32) -> int {
    weight_into(w, m, w.nbs[i], c) * w.total - community_degree(w, m, w.ids.len() as int, i, c) * w.degs[i]
}

/// The best community for node `i` among those of its first `k` neighbours, with its
/// gain: the community with the largest positive gain, the smallest id among equal
/// gains, or the node's own community (gain 0) when no other gains.
pub open spec fn best_upto(w: ModularityInput, m: Seq<u32>, i: int, k: int) -> (u32, int)
    decreases k,
{
    if k <= 0 {
        (m[i], 0)
    } else {
        let prev = best_upto(w, m, i, k - 1);
        let c = community_of(w, m, w.nbs[i][k - 1].0);
        let g = gain(w, m, i, c);
        if c != m[i] && (g > prev.1 || (g == prev.1 && prev.1 > 0 && c < prev.0)) {
            (c, g)
        } else {
            prev
        }
    }
}

/// The community of node `i`'s `k`-th neighbour.
pub open spec fn candidate(w: ModularityInput, m: Seq<u32>, i: int, k: int) -> u32 {
    community_of(w, m, w.nbs[i][k].0)
}

/// What the choice among the first `k` neighbours means: staying (gain 0) when no
/// other neighbouring community gains, else a neighbouring community other than the
/// node's own whose positive gain no other beats, the smallest id among equal gains.
pub open spec fn best_among(w: ModularityInput, m: Seq<u32>, i: int, k: int, b: u32, g: int) -> bool {
    if b == m[i] {
        &&& g == 0
        &&& forall|q: int| 0 <= q < k && #[trigger] candidate(w, m, i, q) != m[i] ==> gain(w, m, i, candidate(w, m, i, q)) <= 0
    } else {
        &&& g == gain(w, m, i, b)
        &&& g > 0
        &&& exists|q: int| 0 <= q < k && #[trigger] candidate(w, m, i, q) == b
        &&& forall|q: int| 0 <= q < k && #[trigger] candidate(w, m, i, q) != m[i] ==> {
            let gq = gain(w, m, i, candidate(w, m, i, q));
            gq < g || (gq == g && b <= candidate(w, m, i, q))
        }
    }
}

/// The choice among the first `k` neighbours is the one `best_among` describes.
pub proof fn law_best_move(w: ModularityInput, m: Seq<u32>, i: int, k: int)
    requires
        0 <= k,
    ensures
        best_among(w, m, i, k, best_upto(w, m, i, k).0, best_upto(w, m, i, k).1),
    decreases k,
{
    if k > 0 {
        law_best_move(w, m, i, k - 1);
        let prev = best_upto(w, m, i, k - 1);
        let c = candidate(w, m, i, k - 1);
        let g = gain(w, m, i, c);
        assert(c == community_of(w, m, w.nbs[i][k - 1].0));
        if c != m[i] && (g > prev.1 || (g == prev.1 && prev.1 > 0 && c < prev.0)) {
            assert(best_upto(w, m, i, k) == (c, g));
            assert(candidate(w, m, i, k - 1) == c);
            if prev.0 == m[i] {
                assert forall|q: int| 0 <= q < k && #[trigger] candidate(w, m, i, q) != m[i] implies {
                    let gq = gain(w, m, i, candidate(w, m, i, q));
                    gq < g || (gq == g && c <= candidate(w, m, i, q))
                } by {
                    if q < k - 1 {
                    }
                }
            } else {
                assert forall|q: int| 0 <= q < k && #[trigger] candidate(w, m, i, q) != m[i] implies {
                    let gq = gain(w, m, i, candidate(w, m, i, q));
                    gq < g || (gq == g && c <= candidate(w, m, i, q))
                } by {
                    if q < k - 1 {
                    }
                }
            }
        } else {
            assert(best_upto(w, m, i, k) == prev);
            if prev.0 == m[i] {
                assert forall|q: int| 0 <= q < k && #[trigger] candidate(w, m, i, q) != m[i] implies gain(w, m, i, candidate(w, m, i, q)) <= 0 by {
                    if q < k - 1 {
                    }
                }
            } else {
                let q0 = choose|q: int| 0 <= q < k - 1 && #[trigger] candidate(w, m, i, q) == prev.0;
                assert(0 <= q0 < k && candidate(w, m, i, q0) == prev.0);
                assert forall|q: int| 0 <= q < k && #[trigger] candidate(w, m, i, q) != m[i] implies {
                    let gq = gain(w, m, i, candidate(w, m, i, q));
                    gq < prev.1 || (gq == prev.1 && prev.0 <= candidate(w, m, i, q))
                } by {
                    if q < k - 1 {
                    }
                }
            }
        }
    }
}

/// The community node `i` moves to.
pub open spec fn move_of(w: ModularityInput, m: Seq<u32>, i: int) -> u32 {
    best_upto(w, m, i, w.nbs[i].len() as int).0
}

/// One pass from node `i` on: each node in turn moves to its best community, seeing
/// the moves made before it.
pub open spec fn pass_from(w: ModularityInput, m: Seq<u32>, i: int) -> Seq<u32>
    decreases m.len() - i,
{
    if i < 0 || i >= m.len() {
        m
    } else {
        pass_from(w, m.update(i, move_of(w, m, i)), i + 1)
    }
}

/// Passes until one moves nothing, at most eight in all (`passes` done already).
pub open spec fn run_from(w: ModularityInput, m: Seq<u32>, passes: nat) -> Seq<u32>
    decreases 8 - passes,
{
    if passes >= 8 {
        m
    } else {
        let m2 = pass_from(w, m, 0);
        if m2 == m {
            m
        } else {
            run_from(w, m2, passes + 1)
        }
    }
}

/// Every node in a community of its own, numbered in node order.
pub open spec fn singletons(n: nat) -> Seq<u32> {
    Seq::new(n, |i: int| i as u32)
}

/// Each node's community: singletons when there is no weight, else the result of
/// the passes starting from singletons.
pub open spec fn louvain(w: ModularityInput) -> Seq<u32> {
    if w.total == 0 {
        singletons(w.ids.len())
    } else {
        run_from(w, singletons(w.ids.len()), 0)
    }
}

// ---------------------------------------------------------------------------
// bounds
// ---------------------------------------------------------------------------

proof fn lemma_wsum_prefix(nb: Seq<(Seq<char>, u64)>, q: int)
    requires
        0 <= q <= nb.len(),
    ensures
        wsum(nb.take(q)) <= wsum(nb),
    decreases nb.len() - q,
{
    if q < nb.len() {
        lemma_wsum_prefix(nb, q + 1);
        assert(nb.take(q + 1).drop_last() =~= nb.take(q));
    } else {
        assert(nb.take(q) =~= nb);
    }
}

proof fn lemma_sum_prefix(s: Seq<nat>, j: int)
    requires
        0 <= j <= s.len(),
    ensures
        sum_nat(s.take(j)) <= sum_nat(s),
        j < s.len() ==> sum_nat(s.take(j)) + s[j] <= sum_nat(s),
    decreases s.len() - j,
{
    if j < s.len() {
        lemma_sum_prefix(s, j + 1);
        assert(s.take(j + 1).drop_last() =~= s.take(j));
    } else {
        assert(s.take(j) =~= s);
    }
}

proof fn lemma_weight_into_le(w: ModularityInput, m: Seq<u32>, nb: Seq<(Seq<char>, u64)>, c: u32)
    ensures
        weight_into(w, m, nb, c) <= wsum(nb),
    decreases nb.len(),
{
    if nb.len() > 0 {
        lemma_weight_into_le(w, m, nb.drop_last(), c);
    }
}

proof fn lemma_community_degree_le(w: ModularityInput, m: Seq<u32>, j: int, skip: int, c: u32)
    requires
        0 <= j <= w.degs.len(),
    ensures
        community_degree(w, m, j, skip, c) <= sum_nat(w.degs.take(j)),
    decreases j,
{
    if j > 0 {
        lemma_community_degree_le(w, m, j - 1, skip, c);
        assert(w.degs.take(j).drop_last() =~= w.degs.take(j - 1));
    }
}

// ---------------------------------------------------------------------------
// reading the graph
// ---------------------------------------------------------------------------

/// The node ids, ascending.
fn sorted_node_ids(g: &InMemoryGraph) -> (r: Vec<String>)
    ensures
        views(r@) == sort_lex(node_ids(g.node_list())),
{
    let nodes = g.nodes();
    let mut ids: Vec<String> = Vec::new();
    let mut i: usize = 0;
    while i < nodes.len()
        invariant
            nodes@ == g.node_list(),
            i <= nodes@.len(),
            views(ids@) == node_ids(nodes@).take(i as int),
        decreases nodes@.len() - i,
    {
        let ghost before = views(ids@);
        ids.push(nodes[i].id.clone());
        assert(views(ids@) =~= before.push(nodes@[i as int].id@));
        assert(node_ids(nodes@).take(i + 1) =~= node_ids(nodes@).take(i as int).push(nodes@[i as int].id@));
        i = i + 1;
    }
    assert(node_ids(nodes@).take(nodes@.len() as int) =~= node_ids(nodes@));
    sort_strings(ids)
}

/// The position of `x` among `ids`.
fn index_of(ids: &Vec<String>, x: &str) -> (r: Option<usize>)
    ensures
        match r {
            Some(p) => p as int == index_in(views(ids@), x@) && p < ids@.len(),
            None => index_in(views(ids@), x@) < 0,
        },
{
    let ghost v = views(ids@);
    let ghost f = is_seq(x@);
    let mut p: usize = 0;
    while p < ids.len()
        invariant
            v == views(ids@),
            f == is_seq(x@),
            p <= ids@.len(),
            first_from(v, f, 0) == first_from(v, f, p as int),
        decreases ids@.len() - p,
    {
        if str_eq(ids[p].as_str(), x) {
            assert(f(v[p as int]));
            return Some(p);
        }
        p = p + 1;
    }
    None
}

/// The neighbours of each node, with node positions in place of ids.
pub open spec fn resolved(w: ModularityInput, adj: Seq<Vec<(usize, u64)>>) -> bool {
    &&& adj.len() == w.ids.len()
    &&& w.nbs.len() == w.ids.len()
    &&& forall|i: int| 0 <= i < adj.len() ==> (#[trigger] adj[i])@.len() == w.nbs[i].len()
    &&& forall|i: int, k: int| 0 <= i < adj.len() && 0 <= k < adj[i]@.len() ==> {
        &&& (#[trigger] adj[i]@[k]).0 as int == index_in(w.ids, w.nbs[i][k].0)
        &&& adj[i]@[k].0 < w.ids.len()
        &&& adj[i]@[k].1 == w.nbs[i][k].1
    }
}

/// The weight of one neighbour list, or `None` when it exceeds `cap`.
fn list_weight(nb: &Vec<(String, u64)>, cap: u64) -> (d: Option<u64>)
    ensures
        match d {
            Some(x) => x as nat == wsum(pair_views(nb@)) && x <= cap,
            None => wsum(pair_views(nb@)) > cap,
        },
{
    let ghost v = pair_views(nb@);
    let mut d: u64 = 0;
    let mut q: usize = 0;
    while q < nb.len()
        invariant
            v == pair_views(nb@),
            q <= nb@.len(),
            d as nat == wsum(v.take(q as int)),
            d <= cap,
        decreases nb@.len() - q,
    {
        proof {
            assert(v.take(q + 1).drop_last() =~= v.take(q as int));
            lemma_wsum_prefix(v, q + 1);
        }
        if nb[q].1 > cap - d {
            return None;
        }
        d = d + nb[q].1;
        q = q + 1;
    }
    assert(v.take(nb@.len() as int) =~= v);
    Some(d)
}

/// The largest total degree community detection takes.
pub const WEIGHT_CAP: u64 = 0x7fff_ffff_ffff_ffff;

/// Each node's neighbour list and degree, and the sum of the degrees; `None` when
/// that sum exceeds `WEIGHT_CAP`.
fn read_weights(g: &InMemoryGraph, ids: &Vec<String>) -> (r: Option<(Vec<Vec<(String, u64)>>, Vec<u64>, u64)>)
    requires
        views(ids@) == modularity_input(g.node_list(), g.edge_list()).ids,
    ensures
        ({
            let w = modularity_input(g.node_list(), g.edge_list());
            &&& (r is Some <==> w.total <= i64::MAX)
            &&& (r matches Some((nbs, degs, total)) ==> {
                &&& nbs@.len() == w.ids.len()
                &&& forall|i: int| 0 <= i < nbs@.len() ==> pair_views((#[trigger] nbs@[i])@) == w.nbs[i]
                &&& degrees_are(w, degs@)
                &&& total as nat == w.total
            })
        }),
{
    let ghost w = modularity_input(g.node_list(), g.edge_list());
    let n = ids.len();
    let mut nbs: Vec<Vec<(String, u64)>> = Vec::new();
    let mut degs: Vec<u64> = Vec::new();
    let mut total: u64 = 0;
    let mut i: usize = 0;
    while i < n
        invariant
            w == modularity_input(g.node_list(), g.edge_list()),
            n == ids@.len(),
            views(ids@) == w.ids,
            i <= n,
            nbs@.len() == i,
            degs@.len() == i,
            forall|j: int| 0 <= j < i ==> pair_views((#[trigger] nbs@[j])@) == w.nbs[j],
            forall|j: int| 0 <= j < i ==> (#[trigger] degs@[j]) as nat == w.degs[j],
            total as nat == sum_nat(w.degs.take(i as int)),
            total <= WEIGHT_CAP,
        decreases n - i,
    {
        assert(views(ids@)[i as int] == ids@[i as int]@);
        let nb = g.undirected_neighbours(ids[i].as_str());
        proof {
            lemma_sum_prefix(w.degs, i as int);
            assert(w.degs.take(i + 1).drop_last() =~= w.degs.take(i as int));
        }
        let d = match list_weight(&nb, WEIGHT_CAP) {
            Some(d) => d,
            None => {
                return None;
            },
        };
        if d > WEIGHT_CAP - total {
            return None;
        }
        total = total + d;
        nbs.push(nb);
        degs.push(d);
        i = i + 1;
    }
    assert(w.degs.take(n as int) =~= w.degs);
    Some((nbs, degs, total))
}

/// The neighbour lists with each neighbour's position among the ids.
fn resolve(ids: &Vec<String>, nbs: &Vec<Vec<(String, u64)>>, Ghost(w): Ghost<ModularityInput>) -> (r: Option<Vec<Vec<(usize, u64)>>>)
    requires
        views(ids@) == w.ids,
        nbs@.len() == w.ids.len(),
        w.nbs.len() == w.ids.len(),
        forall|i: int| 0 <= i < nbs@.len() ==> pair_views((#[trigger] nbs@[i])@) == w.nbs[i],
    ensures
        r is Some <==> neighbours_are_nodes(w),
        r matches Some(adj) ==> resolved(w, adj@),
{
    let n = nbs.len();
    let mut adj: Vec<Vec<(usize, u64)>> = Vec::new();
    let mut i: usize = 0;
    while i < n
        invariant
            n == nbs@.len(),
            views(ids@) == w.ids,
            nbs@.len() == w.ids.len(),
            w.nbs.len() == w.ids.len(),
            forall|j: int| 0 <= j < nbs@.len() ==> pair_views((#[trigger] nbs@[j])@) == w.nbs[j],
            forall|j: int, k: int| 0 <= j < i && 0 <= k < w.nbs[j].len() ==> index_in(w.ids, (#[trigger] w.nbs[j][k]).0) >= 0,
            i <= n,
            adj@.len() == i,
            forall|j: int| 0 <= j < i ==> (#[trigger] adj@[j])@.len() == w.nbs[j].len(),
            forall|j: int, k: int| 0 <= j < i && 0 <= k < adj@[j]@.len() ==> {
                &&& (#[trigger] adj@[j]@[k]).0 as int == index_in(w.ids, w.nbs[j][k].0)
                &&& adj@[j]@[k].0 < w.ids.len()
                &&& adj@[j]@[k].1 == w.nbs[j][k].1
            },
        decreases n - i,
    {
        let nb = &nbs[i];
        assert(pair_views(nb@) == w.nbs[i as int]);
        let mut row: Vec<(usize, u64)> = Vec::new();
        let mut k: usize = 0;
        while k < nb.len()
            invariant
                views(ids@) == w.ids,
                pair_views(nb@) == w.nbs[i as int],
                0 <= i < w.nbs.len(),
                forall|q: int| 0 <= q < k ==> index_in(w.ids, (#[trigger] w.nbs[i as int][q]).0) >= 0,
                k <= nb@.len(),
                row@.len() == k,
                forall|q: int| 0 <= q < k ==> {
                    &&& (#[trigger] row@[q]).0 as int == index_in(w.ids, w.nbs[i as int][q].0)
                    &&& row@[q].0 < w.ids.len()
                    &&& row@[q].1 == w.nbs[i as int][q].1
                },
            decreases nb@.len() - k,
        {
            assert(pair_views(nb@)[k as int] == (nb@[k as int].0@, nb@[k as int].1));
            match index_of(ids, nb[k].0.as_str()) {
                Some(p) => {
                    row.push((p, nb[k].1));
                },
                None => {
                    assert(!neighbours_are_nodes(w)) by {
                        assert(index_in(w.ids, w.nbs[i as int][k as int].0) < 0);
                    }
                    return None;
                },
            }
            k = k + 1;
        }
        adj.push(row);
        i = i + 1;
    }
    Some(adj)
}

/// The degrees as numbers.
pub open spec fn degrees_are(w: ModularityInput, degs: Seq<u64>) -> bool {
    &&& degs.len() == w.degs.len()
    &&& forall|i: int| 0 <= i < degs.len() ==> (#[trigger] degs[i]) as nat == w.degs[i]
}

/// The tables the passes read are those of `w`, and its weights fit in `i64`.
pub open spec fn ready(w: ModularityInput, adj: Seq<Vec<(usize, u64)>>, degs: Seq<u64>, total: u64) -> bool {
    &&& resolved(w, adj)
    &&& degrees_are(w, degs)
    &&& total as nat == w.total
    &&& w.total <= i64::MAX
    &&& w.degs.len() == w.ids.len()
    &&& forall|i: int| 0 <= i < w.degs.len() ==> #[trigger] w.degs[i] == wsum(w.nbs[i])
    &&& w.total == sum_nat(w.degs)
}

// ---------------------------------------------------------------------------
// moving nodes
// ---------------------------------------------------------------------------

/// The weight from node `i` into community `c`.
fn weight_to(Ghost(w): Ghost<ModularityInput>, adj: &Vec<Vec<(usize, u64)>>, m: &Vec<u32>, i: usize, c: u32) -> (s: u64)
    requires
        resolved(w, adj@),
        w.total <= i64::MAX,
        w.degs.len() == w.ids.len(),
        forall|j: int| 0 <= j < w.degs.len() ==> #[trigger] w.degs[j] == wsum(w.nbs[j]),
        w.total == sum_nat(w.degs),
        m@.len() == w.ids.len(),
        i < w.ids.len(),
    ensures
        s as nat == weight_into(w, m@, w.nbs[i as int], c),
        s as nat <= w.total,
{
    let row = &adj[i];
    let ghost nb = w.nbs[i as int];
    proof {
        lemma_sum_prefix(w.degs, i as int);
    }
    let mut s: u64 = 0;
    let mut q: usize = 0;
    while q < row.len()
        invariant
            resolved(w, adj@),
            row == adj@[i as int],
            i < w.ids.len(),
            nb == w.nbs[i as int],
            m@.len() == w.ids.len(),
            w.total <= i64::MAX,
            wsum(nb) <= w.total,
            q <= row@.len(),
            s as nat == weight_into(w, m@, nb.take(q as int), c),
        decreases row@.len() - q,
    {
        let (p, wt) = row[q];
        proof {
            assert(nb.take(q + 1).drop_last() =~= nb.take(q as int));
            assert(nb.take(q + 1).last() == nb[q as int]);
            lemma_weight_into_le(w, m@, nb.take(q + 1), c);
            lemma_wsum_prefix(nb, q + 1);
        }
        if m[p] == c {
            s = s + wt;
        }
        q = q + 1;
    }
    proof {
        assert(nb.take(row@.len() as int) =~= nb);
        lemma_weight_into_le(w, m@, nb, c);
    }
    s
}

/// The degree of community `c` without node `i`.
fn degree_in(Ghost(w): Ghost<ModularityInput>, degs: &Vec<u64>, m: &Vec<u32>, i: usize, c: u32) -> (s: u64)
    requires
        degrees_are(w, degs@),
        w.total <= i64::MAX,
        w.degs.len() == w.ids.len(),
        w.total == sum_nat(w.degs),
        m@.len() == w.ids.len(),
    ensures
        s as nat == community_degree(w, m@, w.ids.len() as int, i as int, c),
        s as nat <= w.total,
{
    let n = degs.len();
    let mut s: u64 = 0;
    let mut j: usize = 0;
    while j < n
        invariant
            n == degs@.len(),
            degrees_are(w, degs@),
            w.total <= i64::MAX,
            w.degs.len() == w.ids.len(),
            w.total == sum_nat(w.degs),
            m@.len() == w.ids.len(),
            j <= n,
            s as nat == community_degree(w, m@, j as int, i as int, c),
        decreases n - j,
    {
        proof {
            lemma_community_degree_le(w, m@, j + 1, i as int, c);
            lemma_sum_prefix(w.degs, j + 1);
        }
        if j != i && m[j] == c {
            s = s + degs[j];
        }
        j = j + 1;
    }
    proof {
        lemma_community_degree_le(w, m@, n as int, i as int, c);
        lemma_sum_prefix(w.degs, n as int);
    }
    s
}

proof fn lemma_products(x: nat, y: nat, t: nat)
    requires
        x <= t,
        y <= t,
        t <= i64::MAX,
    ensures
        x * y <= t * t,
        t * t <= 0x3fff_ffff_ffff_ffff_0000_0000_0000_0001,
{
    assert(x * y <= t * t) by (nonlinear_arith)
        requires
            x <= t,
            y <= t,
    ;
    assert(t * t <= 0x3fff_ffff_ffff_ffff_0000_0000_0000_0001) by (nonlinear_arith)
        requires
            t <= 0x7fff_ffff_ffff_ffff,
    ;
}

/// The community node `i` moves to, given membership `m`.
fn best_move(
    Ghost(w): Ghost<ModularityInput>,
    adj: &Vec<Vec<(usize, u64)>>,
    degs: &Vec<u64>,
    total: u64,
    m: &Vec<u32>,
    i: usize,
) -> (r: u32)
    requires
        ready(w, adj@, degs@, total),
        m@.len() == w.ids.len(),
        i < w.ids.len(),
    ensures
        r == move_of(w, m@, i as int),
{
    let row = &adj[i];
    let cur = m[i];
    let ki = degs[i];
    proof {
        lemma_sum_prefix(w.degs, i as int);
    }
    let mut best = cur;
    let mut ba: u128 = 0;
    let mut bb: u128 = 0;
    let mut k: usize = 0;
    while k < row.len()
        invariant
            ready(w, adj@, degs@, total),
            row == adj@[i as int],
            m@.len() == w.ids.len(),
            i < w.ids.len(),
            cur == m@[i as int],
            ki as nat == w.degs[i as int],
            ki <= total,
            k <= row@.len(),
            best_upto(w, m@, i as int, k as int) == (best, ba as int - bb as int),
            ba <= total as nat * total as nat,
            bb <= total as nat * total as nat,
        decreases row@.len() - k,
    {
        let p = row[k].0;
        let c = m[p];
        assert(community_of(w, m@, w.nbs[i as int][k as int].0) == c);
        let kto = weight_to(Ghost(w), adj, m, i, c);
        let sig = degree_in(Ghost(w), degs, m, i, c);
        proof {
            lemma_products(kto as nat, total as nat, total as nat);
            lemma_products(sig as nat, ki as nat, total as nat);
        }
        let a = (kto as u128) * (total as u128);
        let b = (sig as u128) * (ki as u128);
        assert(gain(w, m@, i as int, c) == a as int - b as int);
        if c != cur && (a + bb > ba + b || (a + bb == ba + b && ba > bb && c < best)) {
            best = c;
            ba = a;
            bb = b;
        }
        k = k + 1;
    }
    best
}

/// One pass over the nodes in order; whether any node moved.
fn one_pass(
    Ghost(w): Ghost<ModularityInput>,
    adj: &Vec<Vec<(usize, u64)>>,
    degs: &Vec<u64>,
    total: u64,
    m: &mut Vec<u32>,
) -> (moved: bool)
    requires
        ready(w, adj@, degs@, total),
        old(m)@.len() == w.ids.len(),
    ensures
        final(m)@ == pass_from(w, old(m)@, 0),
        final(m)@.len() == old(m)@.len(),
        moved == (final(m)@ != old(m)@),
{
    let ghost m0 = m@;
    let n = m.len();
    let mut moved = false;
    let mut i: usize = 0;
    while i < n
        invariant
            ready(w, adj@, degs@, total),
            n == m@.len(),
            n == w.ids.len(),
            m0.len() == n,
            i <= n,
            pass_from(w, m0, 0) == pass_from(w, m@, i as int),
            forall|j: int| i <= j < n ==> m@[j] == m0[j],
            moved <==> exists|j: int| 0 <= j < i && m@[j] != m0[j],
        decreases n - i,
    {
        let b = best_move(Ghost(w), adj, degs, total, m, i);
        let ghost before = m@;
        if b != m[i] {
            m.set(i, b);
            moved = true;
            assert(m@[i as int] != m0[i as int]);
        } else {
            assert(before.update(i as int, b) =~= before);
        }
        assert(m@ == before.update(i as int, move_of(w, before, i as int)));
        assert(pass_from(w, before, i as int) == pass_from(w, m@, i + 1));
        i = i + 1;
    }
    if !moved {
        assert(m@ =~= m0);
    }
    moved
}

/// Passes until one moves nothing, at most eight.
fn run_passes(
    Ghost(w): Ghost<ModularityInput>,
    adj: &Vec<Vec<(usize, u64)>>,
    degs: &Vec<u64>,
    total: u64,
    m: &mut Vec<u32>,
)
    requires
        ready(w, adj@, degs@, total),
        old(m)@.len() == w.ids.len(),
    ensures
        final(m)@ == run_from(w, old(m)@, 0),
        final(m)@.len() == old(m)@.len(),
{
    let ghost goal = run_from(w, m@, 0);
    let mut moved = true;
    let mut passes: u64 = 0;
    while moved && passes < 8
        invariant
            ready(w, adj@, degs@, total),
            m@.len() == w.ids.len(),
            passes <= 8,
            goal == if moved { run_from(w, m@, passes as nat) } else { m@ },
        decreases 8 - passes,
    {
        let ghost before = m@;
        moved = one_pass(Ghost(w), adj, degs, total, m);
        assert(run_from(w, before, passes as nat) == if m@ == before { before } else { run_from(w, m@, passes as nat + 1) });
        passes = passes + 1;
    }
}

// ---------------------------------------------------------------------------
// facts about grouping
// ---------------------------------------------------------------------------

/// Every community id of `m` is listed once by `ids_in_order`, which lists nothing else.
proof fn lemma_ids_in_order(m: Seq<(String, u32)>)
    ensures
        forall|i: int| 0 <= i < m.len() ==> ids_in_order(m).contains(#[trigger] m[i].1),
        forall|a: int, b: int| 0 <= a < b < ids_in_order(m).len() ==> ids_in_order(m)[a] != ids_in_order(m)[b],
        forall|k: int| #![trigger ids_in_order(m)[k]] 0 <= k < ids_in_order(m).len() ==> exists|i: int| 0 <= i < m.len() && (#[trigger] m[i]).1 == ids_in_order(m)[k],
        ids_in_order(m).len() <= m.len(),
    decreases m.len(),
{
    if m.len() > 0 {
        let p = m.drop_last();
        lemma_ids_in_order(p);
        let r = ids_in_order(p);
        assert forall|i: int| 0 <= i < m.len() implies ids_in_order(m).contains(#[trigger] m[i].1) by {
            if i < p.len() {
                assert(p[i] == m[i]);
                assert(r.contains(p[i].1));
                if !r.contains(m.last().1) {
                    let z = choose|z: int| 0 <= z < r.len() && r[z] == p[i].1;
                    assert(r.push(m.last().1)[z] == p[i].1);
                }
            } else {
                if !r.contains(m.last().1) {
                    assert(r.push(m.last().1)[r.len() as int] == m.last().1);
                }
            }
        }
        assert forall|k: int| #![trigger ids_in_order(m)[k]] 0 <= k < ids_in_order(m).len() implies exists|i: int| 0 <= i < m.len() && (#[trigger] m[i]).1 == ids_in_order(m)[k] by {
            if k < r.len() {
                let i = choose|i: int| 0 <= i < p.len() && (#[trigger] p[i]).1 == r[k];
                assert(m[i] == p[i]);
            } else {
                assert(m[m.len() - 1] == m.last());
            }
        }
    }
}

/// A community id that some node has has a member.
proof fn lemma_members_nonempty(m: Seq<(String, u32)>, i: int)
    requires
        0 <= i < m.len(),
    ensures
        members_with(m, m[i].1).len() > 0,
    decreases m.len(),
{
    if i < m.len() - 1 {
        lemma_members_nonempty(m.drop_last(), i);
        assert(m.drop_last()[i] == m[i]);
    }
}

/// Two memberships over the same names, where community `k` of one is exactly
/// community `c` of the other, have the same members there.
proof fn lemma_members_match(m1: Seq<(String, u32)>, m2: Seq<(String, u32)>, k: u32, c: u32)
    requires
        m1.len() == m2.len(),
        forall|i: int| 0 <= i < m1.len() ==> (#[trigger] m1[i]).0@ == m2[i].0@,
        forall|i: int| 0 <= i < m1.len() ==> ((#[trigger] m1[i]).1 == k <==> m2[i].1 == c),
    ensures
        members_with(m1, k) == members_with(m2, c),
    decreases m1.len(),
{
    if m1.len() > 0 {
        let p1 = m1.drop_last();
        let p2 = m2.drop_last();
        assert forall|i: int| 0 <= i < p1.len() implies (#[trigger] p1[i]).0@ == p2[i].0@ by {
            assert(p1[i] == m1[i]);
        }
        assert forall|i: int| 0 <= i < p1.len() implies ((#[trigger] p1[i]).1 == k <==> p2[i].1 == c) by {
            assert(p1[i] == m1[i]);
        }
        lemma_members_match(p1, p2, k, c);
        assert(m1.last() == m1[m1.len() - 1]);
    }
}

/// Every element of `r` is one of `s`.
pub open spec fn drawn_from(r: Seq<(u64, Community)>, s: Seq<(u64, Community)>) -> bool {
    forall|z: int| 0 <= z < r.len() ==> s.contains(#[trigger] r[z])
}

/// Every element of `s` is one of `r`.
pub open spec fn covers(r: Seq<(u64, Community)>, s: Seq<(u64, Community)>) -> bool {
    forall|q: int| 0 <= q < s.len() ==> r.contains(#[trigger] s[q])
}

/// No two communities of `s` share an id.
pub open spec fn ids_distinct(s: Seq<(u64, Community)>) -> bool {
    forall|a: int, b: int| 0 <= a < b < s.len() ==> #[trigger] s[a].1.id != #[trigger] s[b].1.id
}

proof fn lemma_insert_drawn(t: Seq<(u64, Community)>, p: Seq<(u64, Community)>, x: (u64, Community), pos: int)
    requires
        0 <= pos <= t.len(),
        drawn_from(t, p),
    ensures
        drawn_from(t.insert(pos, x), p.push(x)),
{
    let s = p.push(x);
    let r = t.insert(pos, x);
    assert forall|z: int| 0 <= z < r.len() implies s.contains(#[trigger] r[z]) by {
        if z < pos {
            assert(p.contains(t[z]));
            let q = choose|q: int| 0 <= q < p.len() && p[q] == t[z];
            assert(r[z] == t[z] && s[q] == p[q]);
        } else if z == pos {
            assert(r[z] == s[p.len() as int]);
        } else {
            assert(p.contains(t[z - 1]));
            let q = choose|q: int| 0 <= q < p.len() && p[q] == t[z - 1];
            assert(r[z] == t[z - 1] && s[q] == p[q]);
        }
    }
}

proof fn lemma_insert_covers(t: Seq<(u64, Community)>, p: Seq<(u64, Community)>, x: (u64, Community), pos: int)
    requires
        0 <= pos <= t.len(),
        covers(t, p),
    ensures
        covers(t.insert(pos, x), p.push(x)),
{
    let s = p.push(x);
    let r = t.insert(pos, x);
    assert forall|q: int| 0 <= q < s.len() implies r.contains(#[trigger] s[q]) by {
        if q < p.len() {
            assert(s[q] == p[q]);
            assert(t.contains(p[q]));
            let z = choose|z: int| 0 <= z < t.len() && t[z] == p[q];
            if z < pos {
                assert(r[z] == t[z]);
            } else {
                assert(r[z + 1] == t[z]);
            }
        } else {
            assert(r[pos] == x);
        }
    }
}

proof fn lemma_insert_distinct(t: Seq<(u64, Community)>, p: Seq<(u64, Community)>, x: (u64, Community), pos: int)
    requires
        0 <= pos <= t.len(),
        drawn_from(t, p),
        ids_distinct(t),
        ids_distinct(p.push(x)),
    ensures
        ids_distinct(t.insert(pos, x)),
{
    let s = p.push(x);
    let r = t.insert(pos, x);
    assert forall|z: int| 0 <= z < t.len() implies t[z].1.id != x.1.id by {
        assert(p.contains(t[z]));
        let q = choose|q: int| 0 <= q < p.len() && p[q] == t[z];
        assert(s[q] == p[q] && s[p.len() as int] == x);
        assert(s[q].1.id != s[p.len() as int].1.id);
    }
    assert forall|a: int, b: int| 0 <= a < b < r.len() implies #[trigger] r[a].1.id != #[trigger] r[b].1.id by {
        if b < pos {
            assert(r[a] == t[a] && r[b] == t[b]);
        } else if b == pos {
            assert(r[a] == t[a] && r[b] == x);
        } else if a < pos {
            assert(r[a] == t[a] && r[b] == t[b - 1]);
        } else if a == pos {
            assert(r[a] == x && r[b] == t[b - 1]);
        } else {
            assert(r[a] == t[a - 1] && r[b] == t[b - 1]);
        }
    }
}

/// Ordering communities by size keeps exactly the same communities, and distinct ids
/// stay distinct.
proof fn lemma_ranked(s: Seq<(u64, Community)>)
    requires
        ids_distinct(s),
    ensures
        sort_desc(s).len() == s.len(),
        drawn_from(sort_desc(s), s),
        covers(sort_desc(s), s),
        ids_distinct(sort_desc(s)),
    decreases s.len(),
{
    if s.len() > 0 {
        let p = s.drop_last();
        let x = s.last();
        assert(p.push(x) =~= s);
        assert forall|a: int, b: int| 0 <= a < b < p.len() implies #[trigger] p[a].1.id != #[trigger] p[b].1.id by {
            assert(p[a] == s[a] && p[b] == s[b]);
        }
        lemma_ranked(p);
        let t = sort_desc(p);
        lemma_first_below(t, x.0, 0);
        let pos = first_below(t, x.0, 0);
        assert(sort_desc(s) == t.insert(pos, x));
        lemma_insert_drawn(t, p, x, pos);
        lemma_insert_covers(t, p, x, pos);
        lemma_insert_distinct(t, p, x, pos);
    } else {
        assert(sort_desc(s) =~= s);
    }
}

// ---------------------------------------------------------------------------
// the result
// ---------------------------------------------------------------------------

/// Some community of `cs` has id `c`.
pub open spec fn has_id(cs: Seq<Community>, c: u32) -> bool {
    exists|k: int| 0 <= k < cs.len() && (#[trigger] cs[k]).id == c
}

/// What `detect_communities` accepts: at most `u32::MAX` nodes, a total degree that
/// fits in `i64`, and, when there is any weight, every neighbour of a node a node.
pub open spec fn detectable(g: InMemoryGraph) -> bool {
    let w = modularity_input(g.node_list(), g.edge_list());
    &&& g.node_list().len() <= u32::MAX
    &&& w.total <= i64::MAX
    &&& (w.total == 0 || neighbours_are_nodes(w))
}

/// `r` is what community detection finds in `g`: each node (ascending) with its
/// community, nodes sharing a community exactly when `louvain` puts them together;
/// each listed community is the non-empty group of its members with its summary,
/// every node's community is listed once.  Without weight every node is its own
/// community, numbered in node order; otherwise communities are numbered `0, 1, ...`
/// from the largest down.
pub open spec fn detected(g: InMemoryGraph, r: Communities) -> bool {
    let w = modularity_input(g.node_list(), g.edge_list());
    let lm = louvain(w);
    let n = w.ids.len();
    let cs = r.communities@;
    let ms = r.membership@;
    &&& ms.len() == n
    &&& forall|i: int| 0 <= i < n ==> (#[trigger] ms[i]).0@ == w.ids[i]
    &&& forall|i: int, j: int| 0 <= i < n && 0 <= j < n ==> ((#[trigger] ms[i]).1 == (#[trigger] ms[j]).1 <==> lm[i] == lm[j])
    &&& forall|k: int| 0 <= k < cs.len() ==> is_group(g.node_list(), ms, (#[trigger] cs[k]).id, cs[k]) && cs[k].members@.len() > 0
    &&& forall|i: int| 0 <= i < n ==> has_id(cs, (#[trigger] ms[i]).1)
    &&& forall|a: int, b: int| 0 <= a < b < cs.len() ==> (#[trigger] cs[a]).id != (#[trigger] cs[b]).id
    &&& w.total == 0 ==> forall|i: int| 0 <= i < n ==> (#[trigger] ms[i]).1 == i
    &&& w.total != 0 ==> forall|k: int| 0 <= k < cs.len() ==> (#[trigger] cs[k]).id == k && (k + 1 < cs.len() ==> cs[k].members@.len() >= cs[k + 1].members@.len())
}

/// The ids of the groups of `m` are those `ids_in_order` lists, so they are distinct.
proof fn lemma_groups_distinct(nodes: Seq<Entity>, m: Seq<(String, u32)>, groups: Seq<Community>)
    requires
        groups.len() == ids_in_order(m).len(),
        forall|k: int| 0 <= k < groups.len() ==> is_group(nodes, m, ids_in_order(m)[k], #[trigger] groups[k]),
    ensures
        ids_distinct(sized(groups)),
        forall|k: int| 0 <= k < groups.len() ==> (#[trigger] groups[k]).members@.len() > 0,
        forall|i: int| 0 <= i < m.len() ==> has_id(groups, (#[trigger] m[i]).1),
        all_listed(m, groups),
{
    lemma_ids_in_order(m);
    let ids = ids_in_order(m);
    assert forall|a: int, b: int| 0 <= a < b < sized(groups).len() implies #[trigger] sized(groups)[a].1.id != #[trigger] sized(groups)[b].1.id by {
        assert(is_group(nodes, m, ids[a], groups[a]));
        assert(is_group(nodes, m, ids[b], groups[b]));
    }
    assert forall|k: int| 0 <= k < groups.len() implies (#[trigger] groups[k]).members@.len() > 0 by {
        assert(is_group(nodes, m, ids[k], groups[k]));
        let i = choose|i: int| 0 <= i < m.len() && (#[trigger] m[i]).1 == ids[k];
        lemma_members_nonempty(m, i);
        lemma_sort_lex(members_with(m, ids[k]));
        assert(crate::text::views(groups[k].members@).len() == groups[k].members@.len());
    }
    assert forall|i: int| 0 <= i < m.len() implies has_id(groups, (#[trigger] m[i]).1) by {
        assert(ids.contains(m[i].1));
        let k = choose|k: int| 0 <= k < ids.len() && ids[k] == m[i].1;
        assert(is_group(nodes, m, ids[k], groups[k]));
    }
}

/// In a ranking with distinct ids, the community with id `c` sits at `z`.
proof fn lemma_rank_at(ranked: Seq<(u64, Community)>, c: u32, z: int)
    requires
        ids_distinct(ranked),
        0 <= z < ranked.len(),
        ranked[z].1.id == c,
    ensures
        rank_of(ranked, c) == z,
{
    let f = |x: (u64, Community)| x.1.id == c;
    assert forall|q: int| 0 <= q < z implies !f(#[trigger] ranked[q]) by {
        assert(ranked[q].1.id != ranked[z].1.id);
    }
    lemma_first_at(ranked, f, 0, z);
}

/// Where each node's community sits in the ranking by size.
proof fn lemma_ranks(nodes: Seq<Entity>, old: Seq<(String, u32)>, groups: Seq<Community>)
    requires
        groups.len() == ids_in_order(old).len(),
        forall|k: int| 0 <= k < groups.len() ==> is_group(nodes, old, ids_in_order(old)[k], #[trigger] groups[k]),
    ensures
        ids_distinct(sort_desc(sized(groups))),
        drawn_from(sort_desc(sized(groups)), sized(groups)),
        sorted_desc(sort_desc(sized(groups))),
        sort_desc(sized(groups)).len() == groups.len(),
        forall|i: int| 0 <= i < old.len() ==> 0 <= #[trigger] rank_of(sort_desc(sized(groups)), old[i].1) < groups.len()
            && sort_desc(sized(groups))[rank_of(sort_desc(sized(groups)), old[i].1)].1.id == old[i].1,
{
    let ranked = sort_desc(sized(groups));
    let s = sized(groups);
    lemma_groups_distinct(nodes, old, groups);
    lemma_ranked(s);
    lemma_sort_desc(s);
    lemma_ids_in_order(old);
    let ids = ids_in_order(old);
    assert forall|i: int| 0 <= i < old.len() implies 0 <= #[trigger] rank_of(ranked, old[i].1) < groups.len()
        && ranked[rank_of(ranked, old[i].1)].1.id == old[i].1 by {
        assert(ids.contains(old[i].1));
        let q = choose|q: int| 0 <= q < ids.len() && ids[q] == old[i].1;
        assert(is_group(nodes, old, ids[q], groups[q]));
        assert(s[q].1 == groups[q]);
        assert(covers(ranked, s));
        assert(ranked.contains(s[q]));
        let z = choose|z: int| 0 <= z < ranked.len() && ranked[z] == s[q];
        lemma_rank_at(ranked, old[i].1, z);
    }
}

/// The renumbered community `k` is the group of number `k`.
proof fn lemma_renumbered_group(
    nodes: Seq<Entity>,
    old: Seq<(String, u32)>,
    groups: Seq<Community>,
    new_m: Seq<(String, u32)>,
    ck: Community,
    k: int,
)
    requires
        groups.len() == ids_in_order(old).len(),
        forall|q: int| 0 <= q < groups.len() ==> is_group(nodes, old, ids_in_order(old)[q], #[trigger] groups[q]),
        forall|q: int| 0 <= q < groups.len() ==> (#[trigger] groups[q]).members@.len() > 0,
        ids_distinct(sort_desc(sized(groups))),
        drawn_from(sort_desc(sized(groups)), sized(groups)),
        0 <= k < sort_desc(sized(groups)).len(),
        forall|i: int| 0 <= i < old.len() ==> 0 <= #[trigger] rank_of(sort_desc(sized(groups)), old[i].1) < groups.len()
            && sort_desc(sized(groups))[rank_of(sort_desc(sized(groups)), old[i].1)].1.id == old[i].1,
        ck.id == k,
        ck.members@ == sort_desc(sized(groups))[k].1.members@,
        ck.summary@ == sort_desc(sized(groups))[k].1.summary@,
        new_m.len() == old.len(),
        forall|i: int| 0 <= i < new_m.len() ==> {
            &&& (#[trigger] new_m[i]).0 == old[i].0
            &&& new_m[i].1 == rank_of(sort_desc(sized(groups)), old[i].1)
        },
    ensures
        is_group(nodes, new_m, ck.id, ck),
        ck.members@.len() > 0,
{
    let ranked = sort_desc(sized(groups));
    let s = sized(groups);
    let ids = ids_in_order(old);
    assert(s.contains(ranked[k]));
    let q = choose|q: int| 0 <= q < s.len() && s[q] == ranked[k];
    assert(is_group(nodes, old, ids[q], groups[q]));
    let cq = ids[q];
    assert(ranked[k].1 == groups[q]);
    assert forall|i: int| 0 <= i < new_m.len() implies (#[trigger] new_m[i]).0@ == old[i].0@ by {}
    assert forall|i: int| 0 <= i < new_m.len() implies ((#[trigger] new_m[i]).1 == k as u32 <==> old[i].1 == cq) by {
        let z = rank_of(ranked, old[i].1);
        assert(0 <= z < groups.len() && ranked[z].1.id == old[i].1);
        if old[i].1 == cq {
            lemma_rank_at(ranked, cq, k);
        }
        if new_m[i].1 == k as u32 {
            assert(z == k);
        }
    }
    lemma_members_match(new_m, old, k as u32, cq);
}

/// Renumbering by size keeps the partition, and each renumbered community is the
/// group of its new number.
proof fn lemma_renumbered(
    nodes: Seq<Entity>,
    old: Seq<(String, u32)>,
    groups: Seq<Community>,
    new_m: Seq<(String, u32)>,
    r: Seq<Community>,
)
    requires
        groups.len() == ids_in_order(old).len(),
        forall|k: int| 0 <= k < groups.len() ==> is_group(nodes, old, ids_in_order(old)[k], #[trigger] groups[k]),
        r.len() == sort_desc(sized(groups)).len(),
        forall|k: int| 0 <= k < r.len() ==> {
            &&& (#[trigger] r[k]).id == k
            &&& r[k].members@ == sort_desc(sized(groups))[k].1.members@
            &&& r[k].summary@ == sort_desc(sized(groups))[k].1.summary@
        },
        new_m.len() == old.len(),
        forall|i: int| 0 <= i < new_m.len() ==> {
            &&& (#[trigger] new_m[i]).0 == old[i].0
            &&& new_m[i].1 == rank_of(sort_desc(sized(groups)), old[i].1)
        },
    ensures
        forall|i: int, j: int| 0 <= i < old.len() && 0 <= j < old.len() ==> ((#[trigger] new_m[i]).1 == (#[trigger] new_m[j]).1 <==> old[i].1 == old[j].1),
        forall|k: int| 0 <= k < r.len() ==> is_group(nodes, new_m, (#[trigger] r[k]).id, r[k]) && r[k].members@.len() > 0,
        forall|i: int| 0 <= i < new_m.len() ==> has_id(r, (#[trigger] new_m[i]).1),
        forall|k: int| 0 <= k < r.len() ==> (#[trigger] r[k]).id == k && (k + 1 < r.len() ==> r[k].members@.len() >= r[k + 1].members@.len()),
{
    let ranked = sort_desc(sized(groups));
    let s = sized(groups);
    lemma_ranks(nodes, old, groups);
    lemma_groups_distinct(nodes, old, groups);
    assert forall|i: int, j: int| 0 <= i < old.len() && 0 <= j < old.len() implies ((#[trigger] new_m[i]).1 == (#[trigger] new_m[j]).1 <==> old[i].1 == old[j].1) by {
        assert(0 <= rank_of(ranked, old[i].1) < groups.len());
        assert(0 <= rank_of(ranked, old[j].1) < groups.len());
    }
    assert forall|k: int| 0 <= k < r.len() implies is_group(nodes, new_m, (#[trigger] r[k]).id, r[k]) && r[k].members@.len() > 0 by {
        lemma_renumbered_group(nodes, old, groups, new_m, r[k], k);
    }
    assert forall|i: int| 0 <= i < new_m.len() implies has_id(r, (#[trigger] new_m[i]).1) by {
        let z = rank_of(ranked, old[i].1);
        assert(0 <= z < ranked.len());
        assert(r[z].id == z);
        assert(r[z].id == new_m[i].1);
    }
    assert forall|k: int| 0 <= k < r.len() implies (#[trigger] r[k]).id == k && (k + 1 < r.len() ==> r[k].members@.len() >= r[k + 1].members@.len()) by {
        if k + 1 < r.len() {
            assert(s.contains(ranked[k]));
            assert(s.contains(ranked[k + 1]));
            let q1 = choose|q: int| 0 <= q < s.len() && s[q] == ranked[k];
            let q2 = choose|q: int| 0 <= q < s.len() && s[q] == ranked[k + 1];
            assert(ranked[k].0 >= ranked[k + 1].0);
            assert(groups[q1].members.len() == groups[q1].members@.len());
            assert(groups[q2].members.len() == groups[q2].members@.len());
            assert(s[q1].0 == groups[q1].members@.len() as u64);
            assert(s[q2].0 == groups[q2].members@.len() as u64);
        }
    }
}

/// Whether `detect_communities` accepts `g` (see `detectable`).
pub fn detection_supported(g: &InMemoryGraph) -> (b: bool)
    ensures
        b == detectable(*g),
{
    let ghost w = modularity_input(g.node_list(), g.edge_list());
    if g.nodes().len() as u64 > 0xFFFF_FFFFu64 {
        return false;
    }
    let ids = sorted_node_ids(g);
    match read_weights(g, &ids) {
        None => false,
        Some((nbs, _degs, total)) => {
            if total == 0 {
                true
            } else {
                resolve(&ids, &nbs, Ghost(w)).is_some()
            }
        },
    }
}

/// Groups the nodes into communities by greedy modularity moves: every node starts
/// in a community of its own (nodes in ascending id order); each pass moves each node
/// in turn to the neighbouring community with the largest positive modularity gain
/// (the smallest community id among equal gains), and passes repeat until one moves
/// nothing, eight at most.  Communities are then listed with their members and
/// numbered by size, largest first (see `detected`).
pub fn detect_communities(g: &InMemoryGraph) -> (r: Communities)
    requires
        detectable(*g),
    ensures
        detected(*g, r),
{
    let ghost w = modularity_input(g.node_list(), g.edge_list());
    let ids = sorted_node_ids(g);
    proof {
        lemma_sort_lex(node_ids(g.node_list()));
    }
    let n = ids.len();
    let (nbs, degs, total) = match read_weights(g, &ids) {
        Some(t) => t,
        None => {
            assert(false);
            return Communities { communities: Vec::new(), membership: Vec::new() };
        },
    };
    let mut m: Vec<u32> = Vec::new();
    let mut i: usize = 0;
    while i < n
        invariant
            n == w.ids.len(),
            n <= u32::MAX,
            i <= n,
            m@.len() == i,
            forall|j: int| 0 <= j < i ==> #[trigger] m@[j] == j as u32,
        decreases n - i,
    {
        m.push(i as u32);
        i = i + 1;
    }
    assert(m@ =~= singletons(n as nat));
    if total != 0 {
        let adj = match resolve(&ids, &nbs, Ghost(w)) {
            Some(a) => a,
            None => {
                assert(false);
                return Communities { communities: Vec::new(), membership: Vec::new() };
            },
        };
        run_passes(Ghost(w), &adj, &degs, total, &mut m);
    }
    assert(m@ == louvain(w));
    let mut pairs: Vec<(String, u32)> = Vec::new();
    let mut i: usize = 0;
    while i < n
        invariant
            n == w.ids.len(),
            views(ids@) == w.ids,
            m@.len() == n,
            i <= n,
            pairs@.len() == i,
            forall|j: int| 0 <= j < i ==> (#[trigger] pairs@[j]).0@ == w.ids[j] && pairs@[j].1 == m@[j],
        decreases n - i,
    {
        assert(views(ids@)[i as int] == ids@[i as int]@);
        pairs.push((ids[i].clone(), m[i]));
        i = i + 1;
    }
    let groups = group_communities(g, &pairs);
    proof {
        lemma_groups_distinct(g.node_list(), pairs@, groups@);
        lemma_ids_in_order(pairs@);
    }
    if total == 0 {
        let r = Communities { communities: groups, membership: pairs };
        proof {
            lemma_ids_in_order(pairs@);
            assert forall|k: int| 0 <= k < r.communities@.len() implies is_group(g.node_list(), r.membership@, (#[trigger] r.communities@[k]).id, r.communities@[k]) && r.communities@[k].members@.len() > 0 by {
                assert(is_group(g.node_list(), pairs@, ids_in_order(pairs@)[k], groups@[k]));
            }
            assert forall|a: int, b: int| 0 <= a < b < r.communities@.len() implies (#[trigger] r.communities@[a]).id != (#[trigger] r.communities@[b]).id by {
                assert(is_group(g.node_list(), pairs@, ids_in_order(pairs@)[a], groups@[a]));
                assert(is_group(g.node_list(), pairs@, ids_in_order(pairs@)[b], groups@[b]));
            }
        }
        return r;
    }
    let ghost old = pairs@;
    let ghost gs = groups@;
    let communities = renumber(groups, &mut pairs);
    proof {
        lemma_renumbered(g.node_list(), old, gs, pairs@, communities@);
    }
    Communities { communities, membership: pairs }
}

/// In what community detection finds in a well-formed graph, each node occurs once
/// in the membership.
pub proof fn law_membership_once(g: InMemoryGraph, r: Communities)
    requires
        g.wf(),
        detected(g, r),
    ensures
        forall|i: int, j: int| 0 <= i < j < r.membership@.len() ==> (#[trigger] r.membership@[i]).0@ != (
        #[trigger] r.membership@[j]).0@,
{
    let ids = node_ids(g.node_list());
    assert(ids.no_duplicates()) by {
        assert forall|i: int, j: int| 0 <= i < ids.len() && 0 <= j < ids.len() && i != j implies ids[i] != ids[j] by {
            if i < j {
                assert(g.node_list()[i].id@ != g.node_list()[j].id@);
            } else {
                assert(g.node_list()[j].id@ != g.node_list()[i].id@);
            }
        }
    }
    ids.lemma_multiset_has_no_duplicates();
    lemma_sort_lex(ids);
    let s = sort_lex(ids);
    s.lemma_multiset_has_no_duplicates_conv();
    let w = modularity_input(g.node_list(), g.edge_list());
    assert(w.ids == s);
    assert forall|i: int, j: int| 0 <= i < j < r.membership@.len() implies (#[trigger] r.membership@[i]).0@ != (
        #[trigger] r.membership@[j]).0@ by {
        assert(r.membership@[i].0@ == s[i]);
        assert(r.membership@[j].0@ == s[j]);
    }
}

} // verus!

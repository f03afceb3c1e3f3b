//! Breadth-first hop distances from a set of seed nodes.
use vstd::prelude::*;

verus! {

/// Marks a node not reached within the hop budget.
pub const UNREACHED: u32 = 0xFFFF_FFFF;

/// `j` is one of the seeds.
pub open spec fn is_seed(seeds: Seq<usize>, j: int) -> bool {
    exists|k: int| 0 <= k < seeds.len() && seeds[k] as int == j
}

/// There is an edge from `i` to `j` in the adjacency lists.
pub open spec fn edge(adj: Seq<Seq<usize>>, i: int, j: int) -> bool {
    0 <= i < adj.len() && exists|m: int| 0 <= m < adj[i].len() && adj[i][m] as int == j
}

/// `j` can be reached from a seed in at most `d` steps.
pub open spec fn within(adj: Seq<Seq<usize>>, seeds: Seq<usize>, d: int, j: int) -> bool
    decreases d,
{
    if d <= 0 {
        is_seed(seeds, j)
    } else {
        within(adj, seeds, d - 1, j) || exists|i: int|
            0 <= i < adj.len() && within(adj, seeds, d - 1, i) && #[trigger] edge(adj, i, j)
    }
}

/// All indices in the adjacency lists and seeds name nodes.
pub open spec fn indices_ok(adj: Seq<Seq<usize>>, seeds: Seq<usize>) -> bool {
    &&& forall|i: int, m: int| 0 <= i < adj.len() && 0 <= m < adj[i].len() ==> adj[i][m] < adj.len()
    &&& forall|k: int| 0 <= k < seeds.len() ==> seeds[k] < adj.len()
}

/// `h` is the exact hop distance of `j` from the seeds when it is at most `max_hops`,
/// and `UNREACHED` otherwise.
pub open spec fn is_hop_count(adj: Seq<Seq<usize>>, seeds: Seq<usize>, max_hops: u32, j: int, h: u32) -> bool {
    if h == UNREACHED {
        !within(adj, seeds, max_hops as int, j)
    } else {
        &&& h <= max_hops
        &&& within(adj, seeds, h as int, j)
        &&& h > 0 ==> !within(adj, seeds, h - 1, j)
    }
}

pub proof fn lemma_within_mono(adj: Seq<Seq<usize>>, seeds: Seq<usize>, d: int, e: int, j: int)
    requires
        d <= e,
        within(adj, seeds, d, j),
    ensures
        within(adj, seeds, e, j),
    decreases e - d,
{
    if d < e {
        lemma_within_mono(adj, seeds, d, e - 1, j);
    }
}

pub proof fn lemma_step(adj: Seq<Seq<usize>>, seeds: Seq<usize>, d: int, i: int, j: int)
    requires
        0 <= d,
        0 <= i < adj.len(),
        within(adj, seeds, d, i),
        edge(adj, i, j),
    ensures
        within(adj, seeds, d + 1, j),
{
    let e = d + 1;
    assert(e - 1 == d);
    assert(within(adj, seeds, e - 1, i));
    assert(0 <= i < adj.len() && within(adj, seeds, e - 1, i) && edge(adj, i, j));
    assert(within(adj, seeds, e, j));
}

proof fn lemma_unfold(adj: Seq<Seq<usize>>, seeds: Seq<usize>, d: int, j: int)
    requires
        0 <= d,
        within(adj, seeds, d + 1, j),
    ensures
        within(adj, seeds, d, j) || exists|i: int| 0 <= i < adj.len() && #[trigger] within(adj, seeds, d, i) && edge(adj, i, j),
{
    let e = d + 1;
    assert(e - 1 == d);
    assert(within(adj, seeds, e, j));
    if !within(adj, seeds, d, j) {
        assert(!within(adj, seeds, e - 1, j));
        let k = choose|k: int| 0 <= k < adj.len() && within(adj, seeds, e - 1, k) && #[trigger] edge(adj, k, j);
        assert(within(adj, seeds, d, k));
    }
}

/// Once no node sits exactly at depth `d`, nothing new becomes reachable beyond `d`.
proof fn lemma_closed(adj: Seq<Seq<usize>>, seeds: Seq<usize>, hops: Seq<u32>, d: int, e: int, j: int)
    requires
        hops.len() == adj.len(),
        0 <= d <= e,
        0 <= j < adj.len(),
        indices_ok(adj, seeds),
        forall|x: int| 0 <= x < adj.len() && within(adj, seeds, d, x) ==> hops[x] != UNREACHED,
        forall|x: int| 0 <= x < adj.len() && hops[x] != UNREACHED ==> hops[x] < d,
        forall|x: int, y: int| 0 <= x < adj.len() && hops[x] != UNREACHED && hops[x] < d && edge(adj, x, y) ==> hops[y] != UNREACHED,
        within(adj, seeds, e, j),
    ensures
        hops[j] != UNREACHED,
    decreases e,
{
    if e > d {
        lemma_unfold(adj, seeds, e - 1, j);
        if within(adj, seeds, e - 1, j) {
            lemma_closed(adj, seeds, hops, d, e - 1, j);
        } else {
            let i = choose|i: int| 0 <= i < adj.len() && within(adj, seeds, e - 1, i) && #[trigger] edge(adj, i, j);
            lemma_closed(adj, seeds, hops, d, e - 1, i);
        }
    }
}

/// The search depth for a hop limit: the limit itself, but one less than
/// `UNREACHED`, which marks nodes not reached (a node `UNREACHED` hops away reads as
/// not reached).
pub open spec fn hop_cap(max_hops: u32) -> u32 {
    if max_hops < UNREACHED { max_hops } else { (UNREACHED - 1) as u32 }
}

/// Hop distance of every node from the nearest seed, following the adjacency lists;
/// nodes further than `max_hops` (or unreachable) get `UNREACHED` (see `hop_cap`).
pub fn bfs_hops(adj: &Vec<Vec<usize>>, seeds: &Vec<usize>, max_hops: u32) -> (r: Vec<u32>)
    requires
        indices_ok(Seq::new(adj@.len(), |i: int| adj@[i]@), seeds@),
    ensures
        r@.len() == adj@.len(),
        forall|j: int| 0 <= j < r@.len() ==> is_hop_count(Seq::new(adj@.len(), |i: int| adj@[i]@), seeds@, hop_cap(max_hops), j, #[trigger] r@[j]),
{
    let cap = if max_hops < UNREACHED { max_hops } else { UNREACHED - 1 };
    bfs_hops_within(adj, seeds, cap)
}

fn bfs_hops_within(adj: &Vec<Vec<usize>>, seeds: &Vec<usize>, max_hops: u32) -> (r: Vec<u32>)
    requires
        max_hops < UNREACHED,
        indices_ok(Seq::new(adj@.len(), |i: int| adj@[i]@), seeds@),
    ensures
        r@.len() == adj@.len(),
        forall|j: int| 0 <= j < r@.len() ==> is_hop_count(Seq::new(adj@.len(), |i: int| adj@[i]@), seeds@, max_hops, j, #[trigger] r@[j]),
{
    let ghost g = Seq::new(adj@.len(), |i: int| adj@[i]@);
    assert(forall|i: int| 0 <= i < adj@.len() ==> g[i] == adj@[i]@);
    let n = adj.len();
    let mut hops: Vec<u32> = Vec::new();
    while hops.len() < n
        invariant
            hops@.len() <= n,
            forall|x: int| 0 <= x < hops@.len() ==> hops@[x] == UNREACHED,
        decreases n - hops@.len(),
    {
        hops.push(UNREACHED);
    }
    let mut frontier: Vec<usize> = Vec::new();
    let mut s: usize = 0;
    while s < seeds.len()
        invariant
            n == adj@.len(),
            n == g.len(),
            hops@.len() == n,
            s <= seeds@.len(),
            indices_ok(g, seeds@),
            frontier@ == seeds@.take(s as int),
            forall|x: int| 0 <= x < n ==> (hops@[x] == 0 || hops@[x] == UNREACHED),
            forall|x: int| 0 <= x < n ==> (hops@[x] == 0 <==> is_seed(seeds@.take(s as int), x)),
        decreases seeds@.len() - s,
    {
        let v = seeds[s];
        hops.set(v, 0);
        frontier.push(v);
        proof {
            let t0 = seeds@.take(s as int);
            let t1 = seeds@.take(s + 1);
            assert(t1 =~= t0.push(v));
            assert forall|x: int| 0 <= x < n implies (hops@[x] == 0 <==> is_seed(t1, x)) by {
                if is_seed(t0, x) {
                    let k = choose|k: int| 0 <= k < t0.len() && t0[k] as int == x;
                    assert(t1[k] as int == x);
                }
                if x == v as int {
                    assert(t1[s as int] as int == x);
                }
                if is_seed(t1, x) {
                    let k = choose|k: int| 0 <= k < t1.len() && t1[k] as int == x;
                    if k < s {
                        assert(t0[k] as int == x);
                    }
                }
            }
        }
        s = s + 1;
    }
    assert(seeds@.take(seeds@.len() as int) =~= seeds@);
    let mut depth: u32 = 0;
    while frontier.len() > 0 && depth < max_hops
        invariant
            n == adj@.len(),
            n == g.len(),
            forall|q: int| 0 <= q < n ==> g[q] == adj@[q]@,
            max_hops < UNREACHED,
            indices_ok(g, seeds@),
            hops@.len() == n,
            depth <= max_hops,
            forall|k: int| 0 <= k < frontier@.len() ==> frontier@[k] < n && hops@[frontier@[k] as int] == depth,
            forall|x: int| 0 <= x < n && hops@[x] == depth ==> frontier@.contains(x as usize),
            forall|x: int| 0 <= x < n && hops@[x] != UNREACHED ==> {
                &&& hops@[x] <= depth
                &&& within(g, seeds@, hops@[x] as int, x)
                &&& hops@[x] > 0 ==> !within(g, seeds@, hops@[x] - 1, x)
            },
            forall|x: int| 0 <= x < n && within(g, seeds@, depth as int, x) ==> hops@[x] != UNREACHED,
            forall|x: int, y: int| 0 <= x < n && hops@[x] != UNREACHED && hops@[x] < depth && edge(g, x, y) ==> hops@[y] != UNREACHED,
        decreases max_hops - depth,
    {
        let ghost old_hops = hops@;
        let mut next: Vec<usize> = Vec::new();
        let mut k: usize = 0;
        while k < frontier.len()
            invariant
                n == adj@.len(),
                n == g.len(),
                forall|q: int| 0 <= q < n ==> g[q] == adj@[q]@,
                max_hops < UNREACHED,
                indices_ok(g, seeds@),
                hops@.len() == n,
                depth < max_hops,
                k <= frontier@.len(),
                forall|q: int| 0 <= q < frontier@.len() ==> frontier@[q] < n && old_hops[frontier@[q] as int] == depth,
                forall|x: int| 0 <= x < n && old_hops[x] == depth ==> frontier@.contains(x as usize),
                forall|x: int| 0 <= x < n && old_hops[x] != UNREACHED ==> hops@[x] == old_hops[x],
                forall|x: int| 0 <= x < n && old_hops[x] == UNREACHED ==> (hops@[x] == UNREACHED || hops@[x] == depth + 1),
                forall|x: int| 0 <= x < n && old_hops[x] != UNREACHED ==> {
                    &&& old_hops[x] <= depth
                    &&& within(g, seeds@, old_hops[x] as int, x)
                    &&& old_hops[x] > 0 ==> !within(g, seeds@, old_hops[x] - 1, x)
                },
                forall|x: int| 0 <= x < n && within(g, seeds@, depth as int, x) ==> old_hops[x] != UNREACHED,
                forall|x: int, y: int| 0 <= x < n && old_hops[x] != UNREACHED && old_hops[x] < depth && edge(g, x, y) ==> old_hops[y] != UNREACHED,
                forall|q: int| 0 <= q < next@.len() ==> next@[q] < n && hops@[next@[q] as int] == depth + 1,
                forall|x: int| 0 <= x < n && hops@[x] == depth + 1 ==> next@.contains(x as usize),
                forall|x: int| 0 <= x < n && hops@[x] == depth + 1 ==> within(g, seeds@, (depth + 1) as int, x) && !within(g, seeds@, depth as int, x),
                forall|q: int, y: int| 0 <= q < k && edge(g, frontier@[q] as int, y) ==> hops@[y] != UNREACHED,
            decreases frontier@.len() - k,
        {
            let i = frontier[k];
            let nb = &adj[i];
            assert(nb@ == g[i as int]);
            let mut m: usize = 0;
            while m < nb.len()
                invariant
                    n == adj@.len(),
                    n == g.len(),
                    indices_ok(g, seeds@),
                    hops@.len() == n,
                    depth < max_hops,
                    max_hops < UNREACHED,
                    k < frontier@.len(),
                    i == frontier@[k as int],
                    i < n,
                    old_hops[i as int] == depth,
                    nb@ == g[i as int],
                    m <= nb@.len(),
                    forall|x: int| 0 <= x < n && old_hops[x] != UNREACHED ==> hops@[x] == old_hops[x],
                    forall|x: int| 0 <= x < n && old_hops[x] == UNREACHED ==> (hops@[x] == UNREACHED || hops@[x] == depth + 1),
                    forall|x: int| 0 <= x < n && old_hops[x] != UNREACHED ==> within(g, seeds@, old_hops[x] as int, x),
                    forall|x: int| 0 <= x < n && within(g, seeds@, depth as int, x) ==> old_hops[x] != UNREACHED,
                    forall|q: int| 0 <= q < next@.len() ==> next@[q] < n && hops@[next@[q] as int] == depth + 1,
                    forall|x: int| 0 <= x < n && hops@[x] == depth + 1 ==> next@.contains(x as usize),
                    forall|x: int| 0 <= x < n && hops@[x] == depth + 1 ==> within(g, seeds@, (depth + 1) as int, x) && !within(g, seeds@, depth as int, x),
                    forall|q: int, y: int| 0 <= q < k && edge(g, frontier@[q] as int, y) ==> hops@[y] != UNREACHED,
                    forall|p: int| 0 <= p < m ==> hops@[nb@[p] as int] != UNREACHED,
                decreases nb@.len() - m,
            {
                let x = nb[m];
                assert(x < n) by {
                    assert(g[i as int][m as int] == x);
                }
                if hops[x] == UNREACHED {
                    proof {
                        assert(within(g, seeds@, depth as int, i as int));
                        assert(edge(g, i as int, x as int)) by {
                            assert(g[i as int][m as int] as int == x as int);
                        }
                        lemma_step(g, seeds@, depth as int, i as int, x as int);
                        assert(old_hops[x as int] == UNREACHED);
                    }
                    let ghost before_next = next@;
                    hops.set(x, depth + 1);
                    next.push(x);
                    proof {
                        assert(next@[next@.len() - 1] == x);
                        assert forall|z: int| 0 <= z < n && hops@[z] == depth + 1 implies next@.contains(z as usize) by {
                            if z != x as int {
                                assert(before_next.contains(z as usize));
                                let w = choose|w: int| 0 <= w < before_next.len() && before_next[w] == z as usize;
                                assert(next@[w] == z as usize);
                            }
                        }
                    }
                }
                m = m + 1;
            }
            proof {
                assert forall|q: int, y: int| 0 <= q < k + 1 && edge(g, frontier@[q] as int, y) implies hops@[y] != UNREACHED by {
                    if q == k {
                        let mm = choose|mm: int| 0 <= mm < g[frontier@[q] as int].len() && g[frontier@[q] as int][mm] as int == y;
                        assert(nb@[mm] as int == y);
                    }
                }
            }
            k = k + 1;
        }
        proof {
            assert forall|x: int, y: int| 0 <= x < n && hops@[x] != UNREACHED && hops@[x] < depth + 1 && edge(g, x, y) implies hops@[y] != UNREACHED by {
                if old_hops[x] != UNREACHED && old_hops[x] < depth {
                } else {
                    assert(old_hops[x] == depth);
                    assert(frontier@.contains(x as usize));
                    let q = choose|q: int| 0 <= q < frontier@.len() && frontier@[q] == x as usize;
                }
            }
            assert forall|x: int| 0 <= x < n && within(g, seeds@, (depth + 1) as int, x) implies hops@[x] != UNREACHED by {
                lemma_unfold(g, seeds@, depth as int, x);
                if within(g, seeds@, depth as int, x) {
                    assert(old_hops[x] != UNREACHED);
                    assert(hops@[x] == old_hops[x]);
                } else {
                    let i = choose|i: int| 0 <= i < g.len() && #[trigger] within(g, seeds@, depth as int, i) && edge(g, i, x);
                    assert(old_hops[i] != UNREACHED);
                    if old_hops[i] < depth {
                        assert(old_hops[x] != UNREACHED);
                        assert(hops@[x] == old_hops[x]);
                    } else {
                        assert(frontier@.contains(i as usize));
                        let q = choose|q: int| 0 <= q < frontier@.len() && frontier@[q] == i as usize;
                        assert(edge(g, frontier@[q] as int, x));
                        assert(q < k);
                        assert(hops@[x] != UNREACHED);
                    }
                }
            }
            assert forall|x: int| 0 <= x < n && hops@[x] != UNREACHED implies {
                &&& hops@[x] <= depth + 1
                &&& within(g, seeds@, hops@[x] as int, x)
                &&& hops@[x] > 0 ==> !within(g, seeds@, hops@[x] - 1, x)
            } by {
                if old_hops[x] == UNREACHED {
                    assert(hops@[x] == depth + 1);
                }
            }
        }
        frontier = next;
        depth = depth + 1;
    }
    proof {
        assert forall|j: int| 0 <= j < hops@.len() implies is_hop_count(g, seeds@, max_hops, j, #[trigger] hops@[j]) by {
            if hops@[j] == UNREACHED {
                if depth == max_hops {
                } else {
                    assert forall|x: int| 0 <= x < n && hops@[x] != UNREACHED implies hops@[x] < depth by {
                        if hops@[x] == depth {
                            assert(frontier@.contains(x as usize));
                        }
                    }
                    if within(g, seeds@, max_hops as int, j) {
                        lemma_closed(g, seeds@, hops@, depth as int, max_hops as int, j);
                    }
                }
            }
        }
    }
    hops
}

} // verus!

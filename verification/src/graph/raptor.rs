//! A three-level summary tree over the graph: one leaf per entity, one node per
//! community, and one roll-up per SAP module (by the entities' `module:` tags).
use vstd::prelude::*;
use crate::graph::community::{labels_of, Communities, Community};
use crate::graph::entity::{opt_or_empty, Entity};
use crate::graph::store::InMemoryGraph;
use crate::text::{
    concat2, concat3, decimal, decimal_string, first_from, first_index, join, join_seq, owned,
    starts_with, starts_with_seq, str_eq, to_upper, uppercase, views,
};

verus! {

/// A node of the tree: level 0 for entities, higher levels for summaries.
pub struct RaptorNode {
    pub id: String,
    pub level: u32,
    pub summary: String,
    pub members: Vec<String>,
}

/// The nodes of one level.
pub struct RaptorLevel {
    pub level: u32,
    pub nodes: Vec<RaptorNode>,
}

/// The levels of the tree.
pub struct RaptorTree {
    pub levels: Vec<RaptorLevel>,
}

/// A level numbered `k`.
pub open spec fn at_level(k: u32) -> spec_fn(RaptorLevel) -> bool {
    |l: RaptorLevel| l.level == k
}

/// Whether `k` is the last level of `levels` with the highest number.
pub open spec fn is_root(levels: Seq<RaptorLevel>, k: int) -> bool {
    &&& 0 <= k < levels.len()
    &&& forall|j: int| 0 <= j < levels.len() ==> (#[trigger] levels[j]).level <= levels[k].level
    &&& forall|j: int| k < j < levels.len() ==> (#[trigger] levels[j]).level < levels[k].level
}

impl RaptorTree {
    /// The nodes of the first level numbered 0, or none.
    pub fn leaves(&self) -> (r: &[RaptorNode])
        ensures
            ({
                let i = first_index(self.levels@, at_level(0));
                if i >= 0 { r@ == self.levels@[i].nodes@ } else { r@.len() == 0 }
            }),
    {
        let ghost f = at_level(0);
        let mut i: usize = 0;
        while i < self.levels.len()
            invariant
                i <= self.levels@.len(),
                f == at_level(0),
                first_from(self.levels@, f, 0) == first_from(self.levels@, f, i as int),
            decreases self.levels@.len() - i,
        {
            if self.levels[i].level == 0 {
                assert(f(self.levels@[i as int]));
                return self.levels[i].nodes.as_slice();
            }
            i = i + 1;
        }
        &[]
    }

    /// The highest level (the last one, where several share the highest number).
    pub fn root(&self) -> (r: Option<&RaptorLevel>)
        ensures
            self.levels@.len() == 0 ==> r is None,
            self.levels@.len() > 0 ==> exists|k: int| is_root(self.levels@, k) && r == Some(&self.levels@[k]),
    {
        if self.levels.len() == 0 {
            return None;
        }
        let mut best: usize = 0;
        let mut i: usize = 1;
        while i < self.levels.len()
            invariant
                1 <= i <= self.levels@.len(),
                best < i,
                forall|j: int| 0 <= j < i ==> (#[trigger] self.levels@[j]).level <= self.levels@[best as int].level,
                forall|j: int| best < j < i ==> (#[trigger] self.levels@[j]).level < self.levels@[best as int].level,
            decreases self.levels@.len() - i,
        {
            if self.levels[i].level >= self.levels[best].level {
                best = i;
            }
            i = i + 1;
        }
        assert(is_root(self.levels@, best as int));
        Some(&self.levels[best])
    }
}

// ---------------------------------------------------------------------------
// building the tree
// ---------------------------------------------------------------------------

/// The leaf of an entity: its label and description.
pub open spec fn leaf_of(e: Entity, n: RaptorNode) -> bool {
    &&& n.id@ == "leaf:"@ + e.id@
    &&& n.level == 0
    &&& n.summary@ == e.label@ + " — "@ + opt_or_empty(e.description)
    &&& views(n.members@) == seq![e.id@]
}

/// The level-one node of a community: its number, size and summary.
pub open spec fn community_node_of(c: Community, n: RaptorNode) -> bool {
    &&& n.id@ == "community:"@ + decimal(c.id as nat)
    &&& n.level == 1
    &&& n.summary@ == "Community #"@ + decimal(c.id as nat) + " ("@ + decimal(c.members@.len())
        + " members): "@ + c.summary@
    &&& n.members@ == c.members@
}

/// Index of the first tag of `tags` beginning with `module:`, or -1.
pub open spec fn module_tag(tags: Seq<String>) -> int {
    first_index(tags, |t: String| starts_with_seq(t@, "module:"@))
}

/// The SAP module of an entity: the rest of its first `module:` tag, or `other`.
pub open spec fn module_of(e: Entity) -> Seq<char> {
    let i = module_tag(e.tags@);
    if i >= 0 { e.tags@[i]@.skip(7) } else { "other"@ }
}

/// The modules of `nodes`, each once, in order of first appearance.
pub open spec fn modules_in_order(nodes: Seq<Entity>) -> Seq<Seq<char>>
    decreases nodes.len(),
{
    if nodes.len() == 0 {
        Seq::empty()
    } else {
        let rest = modules_in_order(nodes.drop_last());
        let m = module_of(nodes.last());
        if rest.contains(m) { rest } else { rest.push(m) }
    }
}

/// The ids of the entities of module `m`, in order.
pub open spec fn module_members(nodes: Seq<Entity>, m: Seq<char>) -> Seq<Seq<char>>
    decreases nodes.len(),
{
    if nodes.len() == 0 {
        Seq::empty()
    } else {
        let rest = module_members(nodes.drop_last(), m);
        if module_of(nodes.last()) == m { rest.push(nodes.last().id@) } else { rest }
    }
}

/// The level-two roll-up of module `m`.
pub open spec fn module_node_of(nodes: Seq<Entity>, m: Seq<char>, n: RaptorNode) -> bool {
    let members = module_members(nodes, m);
    &&& n.id@ == "module:"@ + m
    &&& n.level == 2
    &&& views(n.members@) == members
    &&& n.summary@ == "Module "@ + uppercase(m) + ": "@ + decimal(members.len()) + " entities — "@
        + join_seq(labels_of(nodes, members), ", "@)
}

fn leaf(e: &Entity) -> (n: RaptorNode)
    ensures
        leaf_of(*e, n),
{
    let desc = match &e.description {
        Some(d) => owned(d.as_str()),
        None => {
            proof {
                reveal_strlit("");
            }
            owned("")
        },
    };
    let mut members: Vec<String> = Vec::new();
    members.push(e.id.clone());
    assert(views(members@) =~= seq![e.id@]);
    RaptorNode {
        id: concat2("leaf:", e.id.as_str()),
        level: 0,
        summary: concat3(e.label.as_str(), " — ", desc.as_str()),
        members,
    }
}

fn community_node(c: &Community) -> (n: RaptorNode)
    ensures
        community_node_of(*c, n),
{
    let id = decimal_string(c.id as u64);
    let size = decimal_string(c.members.len() as u64);
    let a = concat3("Community #", id.as_str(), " (");
    let b = concat3(a.as_str(), size.as_str(), " members): ");
    let mut members: Vec<String> = Vec::new();
    let mut i: usize = 0;
    while i < c.members.len()
        invariant
            i <= c.members@.len(),
            members@ == c.members@.take(i as int),
        decreases c.members@.len() - i,
    {
        members.push(c.members[i].clone());
        assert(c.members@.take(i + 1) =~= c.members@.take(i as int).push(c.members@[i as int]));
        i = i + 1;
    }
    assert(c.members@.take(c.members@.len() as int) =~= c.members@);
    RaptorNode {
        id: concat2("community:", id.as_str()),
        level: 1,
        summary: concat2(b.as_str(), c.summary.as_str()),
        members,
    }
}

fn module_name(e: &Entity) -> (m: String)
    ensures
        m@ == module_of(*e),
{
    let ghost f = |t: String| starts_with_seq(t@, "module:"@);
    let mut i: usize = 0;
    proof {
        reveal_strlit("module:");
    }
    while i < e.tags.len()
        invariant
            i <= e.tags@.len(),
            f == (|t: String| starts_with_seq(t@, "module:"@)),
            "module:"@.len() == 7,
            first_from(e.tags@, f, 0) == first_from(e.tags@, f, i as int),
        decreases e.tags@.len() - i,
    {
        if starts_with(e.tags[i].as_str(), "module:") {
            assert(f(e.tags@[i as int]));
            let t = e.tags[i].as_str();
            return owned(t.substring_char(7, t.unicode_len()));
        }
        i = i + 1;
    }
    String::from_str("other")
}

fn modules(nodes: &Vec<Entity>) -> (r: Vec<String>)
    ensures
        views(r@) == modules_in_order(nodes@),
{
    let mut r: Vec<String> = Vec::new();
    let mut i: usize = 0;
    while i < nodes.len()
        invariant
            i <= nodes@.len(),
            views(r@) == modules_in_order(nodes@.take(i as int)),
        decreases nodes@.len() - i,
    {
        assert(nodes@.take(i + 1).drop_last() =~= nodes@.take(i as int));
        let m = module_name(&nodes[i]);
        let mut j: usize = 0;
        let mut found = false;
        while j < r.len()
            invariant
                j <= r@.len(),
                found == views(r@).take(j as int).contains(m@),
            decreases r@.len() - j,
        {
            assert(views(r@).take(j + 1) =~= views(r@).take(j as int).push(r@[j as int]@));
            if str_eq(r[j].as_str(), m.as_str()) {
                assert(views(r@).take(j + 1)[j as int] == m@);
                found = true;
            } else {
                proof {
                    let t = views(r@).take(j + 1);
                    if t.contains(m@) {
                        let w = choose|w: int| 0 <= w < t.len() && t[w] == m@;
                        assert(views(r@).take(j as int)[w] == m@);
                    }
                }
            }
            j = j + 1;
        }
        assert(views(r@).take(r@.len() as int) =~= views(r@));
        if !found {
            let ghost before = views(r@);
            r.push(m);
            assert(views(r@) =~= before.push(module_of(nodes@[i as int])));
        }
        i = i + 1;
    }
    assert(nodes@.take(nodes@.len() as int) =~= nodes@);
    r
}

fn module_node(g: &InMemoryGraph, m: &str) -> (n: RaptorNode)
    ensures
        module_node_of(g.node_list(), m@, n),
{
    let nodes = g.nodes();
    let mut members: Vec<String> = Vec::new();
    let mut labels: Vec<String> = Vec::new();
    let mut i: usize = 0;
    while i < nodes.len()
        invariant
            i <= nodes@.len(),
            nodes@ == g.node_list(),
            views(members@) == module_members(nodes@.take(i as int), m@),
        decreases nodes@.len() - i,
    {
        assert(nodes@.take(i + 1).drop_last() =~= nodes@.take(i as int));
        let name = module_name(&nodes[i]);
        if str_eq(name.as_str(), m) {
            let ghost before = views(members@);
            members.push(nodes[i].id.clone());
            assert(views(members@) =~= before.push(nodes@[i as int].id@));
        }
        i = i + 1;
    }
    assert(nodes@.take(nodes@.len() as int) =~= nodes@);
    let mut k: usize = 0;
    while k < members.len()
        invariant
            k <= members@.len(),
            views(labels@) == labels_of(g.node_list(), views(members@).take(k as int)),
        decreases members@.len() - k,
    {
        assert(views(members@).take(k + 1).drop_last() =~= views(members@).take(k as int));
        assert(views(members@).take(k + 1).last() == members@[k as int]@);
        match g.node(members[k].as_str()) {
            Some(e) => {
                let ghost before = views(labels@);
                labels.push(e.label.clone());
                assert(views(labels@) =~= before.push(e.label@));
            },
            None => {},
        }
        k = k + 1;
    }
    assert(views(members@).take(members@.len() as int) =~= views(members@));
    let upper = to_upper(m);
    let count = decimal_string(members.len() as u64);
    let joined = join(&labels, ", ");
    let a = concat3("Module ", upper.as_str(), ": ");
    let b = concat3(a.as_str(), count.as_str(), " entities — ");
    RaptorNode {
        id: concat2("module:", m),
        level: 2,
        summary: concat2(b.as_str(), joined.as_str()),
        members,
    }
}

/// The tree of `g`: level 0 holds one leaf per entity (in node order), level 1 one
/// node per community (in the communities' order), level 2 one roll-up per module
/// (in order of first appearance).
pub fn build_raptor_tree(g: &InMemoryGraph, communities: &Communities) -> (t: RaptorTree)
    ensures
        t.levels@.len() == 3,
        t.levels@[0].level == 0,
        t.levels@[1].level == 1,
        t.levels@[2].level == 2,
        t.levels@[0].nodes@.len() == g.node_list().len(),
        forall|i: int| 0 <= i < g.node_list().len() ==> leaf_of(
            g.node_list()[i],
            #[trigger] t.levels@[0].nodes@[i],
        ),
        t.levels@[1].nodes@.len() == communities.communities@.len(),
        forall|i: int| 0 <= i < communities.communities@.len() ==> community_node_of(
            communities.communities@[i],
            #[trigger] t.levels@[1].nodes@[i],
        ),
        t.levels@[2].nodes@.len() == modules_in_order(g.node_list()).len(),
        forall|i: int| 0 <= i < modules_in_order(g.node_list()).len() ==> module_node_of(
            g.node_list(),
            modules_in_order(g.node_list())[i],
            #[trigger] t.levels@[2].nodes@[i],
        ),
{
    let nodes = g.nodes();
    let mut l0: Vec<RaptorNode> = Vec::new();
    let mut i: usize = 0;
    while i < nodes.len()
        invariant
            i <= nodes@.len(),
            nodes@ == g.node_list(),
            l0@.len() == i,
            forall|k: int| 0 <= k < i ==> leaf_of(nodes@[k], #[trigger] l0@[k]),
        decreases nodes@.len() - i,
    {
        l0.push(leaf(&nodes[i]));
        i = i + 1;
    }
    let mut l1: Vec<RaptorNode> = Vec::new();
    let mut j: usize = 0;
    while j < communities.communities.len()
        invariant
            j <= communities.communities@.len(),
            l1@.len() == j,
            forall|k: int| 0 <= k < j ==> community_node_of(communities.communities@[k], #[trigger] l1@[k]),
        decreases communities.communities@.len() - j,
    {
        l1.push(community_node(&communities.communities[j]));
        j = j + 1;
    }
    let mods = modules(nodes);
    let mut l2: Vec<RaptorNode> = Vec::new();
    let mut k: usize = 0;
    while k < mods.len()
        invariant
            k <= mods@.len(),
            nodes@ == g.node_list(),
            views(mods@) == modules_in_order(g.node_list()),
            l2@.len() == k,
            forall|q: int| 0 <= q < k ==> module_node_of(
                g.node_list(),
                modules_in_order(g.node_list())[q],
                #[trigger] l2@[q],
            ),
        decreases mods@.len() - k,
    {
        assert(views(mods@)[k as int] == mods@[k as int]@);
        l2.push(module_node(g, mods[k].as_str()));
        k = k + 1;
    }
    let mut levels: Vec<RaptorLevel> = Vec::new();
    levels.push(RaptorLevel { level: 0, nodes: l0 });
    levels.push(RaptorLevel { level: 1, nodes: l1 });
    levels.push(RaptorLevel { level: 2, nodes: l2 });
    RaptorTree { levels }
}

} // verus!

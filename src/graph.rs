//! In-degree and search-index metadata over a node/link graph whose nodes
//! and link targets have already been read out of their JSON form.

use vstd::prelude::*;
use vstd::hash_map::StringHashMap;
use crate::text::{lower_of, to_lower};

verus! {

/// Placeholder score given to every node; a later stage may supply a real one.
pub const GIT_SCORE_DEFAULT: u64 = 0;

/// The shape of a link's `target`: a bare node id, an object holding an `id`
/// string, or anything else, which names no node.
#[derive(Debug)]
pub enum LinkTarget {
    PlainId(String),
    IdObject(String),
    Other,
}

/// The node id that a link target names, if any.
pub open spec fn resolved_id(t: LinkTarget) -> Option<Seq<char>> {
    match t {
        LinkTarget::PlainId(s) => Some(s@),
        LinkTarget::IdObject(s) => Some(s@),
        LinkTarget::Other => None,
    }
}

/// What a node contributes: its id and label, each empty where absent.
#[derive(Debug)]
pub struct NodeKey {
    pub id: String,
    pub label: String,
}

/// One search-index row: the id verbatim, the case-folded label, and the
/// case-folded id standing in for a path.
#[derive(Debug)]
pub struct SearchEntry {
    pub id: String,
    pub label_lower: String,
    pub path_lower: String,
}

/// Metadata computed for a graph, one in-degree and one index row per node.
#[derive(Debug)]
pub struct GraphMeta {
    pub in_degrees: Vec<usize>,
    pub max_in_degree: usize,
    pub search_index: Vec<SearchEntry>,
}

/// The number of links whose target names `id`.
pub open spec fn in_degree_of(targets: Seq<LinkTarget>, id: Seq<char>) -> nat
    decreases targets.len(),
{
    if targets.len() == 0 {
        0
    } else {
        in_degree_of(targets.drop_last(), id) + if resolved_id(targets.last()) == Some(id) {
            1nat
        } else {
            0nat
        }
    }
}

/// The number of links whose target names some id, known or not.
pub open spec fn resolved_count(targets: Seq<LinkTarget>) -> nat
    decreases targets.len(),
{
    if targets.len() == 0 {
        0
    } else {
        resolved_count(targets.drop_last()) + if resolved_id(targets.last()).is_some() {
            1nat
        } else {
            0nat
        }
    }
}

/// The largest value of `s`, or 0 where `s` is empty.
pub open spec fn seq_max(s: Seq<usize>) -> nat
    decreases s.len(),
{
    if s.len() == 0 {
        0
    } else if s.last() as nat > seq_max(s.drop_last()) {
        s.last() as nat
    } else {
        seq_max(s.drop_last())
    }
}

/// The search-index row that a node gives.
pub open spec fn search_row_of(n: NodeKey, e: SearchEntry) -> bool {
    &&& e.id@ == n.id@
    &&& e.label_lower@ == lower_of(n.label@)
    &&& e.path_lower@ == lower_of(n.id@)
}

/// The in-degree of each node: how many links name its id as their target.
pub fn in_degrees(nodes: &Vec<NodeKey>, targets: &Vec<LinkTarget>) -> (r: Vec<usize>)
    ensures
        r@.len() == nodes@.len(),
        forall|i: int| 0 <= i < nodes@.len() ==> r@[i] == in_degree_of(targets@, (#[trigger] nodes@[i]).id@),
{
    let mut table: StringHashMap<usize> = StringHashMap::new();
    let mut i: usize = 0;
    while i < nodes.len()
        invariant
            i <= nodes@.len(),
            forall|k: Seq<char>| #[trigger] table@.contains_key(k) ==> table@[k] == 0,
        decreases nodes@.len() - i,
    {
        table.insert(nodes[i].id.clone(), 0);
        i = i + 1;
    }
    let mut j: usize = 0;
    while j < targets.len()
        invariant
            j <= targets@.len(),
            forall|k: Seq<char>| #[trigger] table@.contains_key(k) ==> table@[k] == in_degree_of(targets@.subrange(0, j as int), k),
            forall|k: Seq<char>| #[trigger] table@.contains_key(k) ==> table@[k] <= j,
            forall|k: Seq<char>| in_degree_of(targets@.subrange(0, j as int), k) > 0 ==> #[trigger] table@.contains_key(k),
        decreases targets@.len() - j,
    {
        assert(targets@.subrange(0, j + 1).drop_last() == targets@.subrange(0, j as int));
        match &targets[j] {
            LinkTarget::PlainId(s) | LinkTarget::IdObject(s) => {
                let c: usize = match table.get(s.as_str()) {
                    Some(c) => *c,
                    None => 0,
                };
                table.insert(s.clone(), c + 1);
            },
            LinkTarget::Other => {},
        }
        j = j + 1;
    }
    assert(targets@.subrange(0, targets@.len() as int) == targets@);
    let mut r: Vec<usize> = Vec::new();
    let mut i: usize = 0;
    while i < nodes.len()
        invariant
            i <= nodes@.len(),
            r@.len() == i,
            forall|k: Seq<char>| #[trigger] table@.contains_key(k) ==> table@[k] == in_degree_of(targets@, k),
            forall|k: Seq<char>| in_degree_of(targets@, k) > 0 ==> #[trigger] table@.contains_key(k),
            forall|k: int| 0 <= k < i ==> r@[k] == in_degree_of(targets@, (#[trigger] nodes@[k]).id@),
        decreases nodes@.len() - i,
    {
        let d: usize = match table.get(nodes[i].id.as_str()) {
            Some(d) => *d,
            None => 0,
        };
        r.push(d);
        i = i + 1;
    }
    r
}

/// The largest in-degree, or 0 for a graph without nodes.
pub fn max_in_degree(degrees: &Vec<usize>) -> (r: usize)
    ensures
        r == seq_max(degrees@),
{
    let mut m: usize = 0;
    let mut i: usize = 0;
    while i < degrees.len()
        invariant
            i <= degrees@.len(),
            m == seq_max(degrees@.subrange(0, i as int)),
        decreases degrees@.len() - i,
    {
        assert(degrees@.subrange(0, i + 1).drop_last() == degrees@.subrange(0, i as int));
        if degrees[i] > m {
            m = degrees[i];
        }
        i = i + 1;
    }
    assert(degrees@.subrange(0, degrees@.len() as int) == degrees@);
    m
}

/// The search-index row of one node.
pub fn search_entry(node: &NodeKey) -> (e: SearchEntry)
    ensures
        search_row_of(*node, e),
{
    SearchEntry {
        id: node.id.clone(),
        label_lower: to_lower(node.label.as_str()),
        path_lower: to_lower(node.id.as_str()),
    }
}

/// One search-index row per node, in node order.
pub fn build_search_index(nodes: &Vec<NodeKey>) -> (r: Vec<SearchEntry>)
    ensures
        r@.len() == nodes@.len(),
        forall|i: int| 0 <= i < nodes@.len() ==> search_row_of(#[trigger] nodes@[i], r@[i]),
{
    let mut r: Vec<SearchEntry> = Vec::new();
    let mut i: usize = 0;
    while i < nodes.len()
        invariant
            i <= nodes@.len(),
            r@.len() == i,
            forall|k: int| 0 <= k < i ==> search_row_of(#[trigger] nodes@[k], r@[k]),
        decreases nodes@.len() - i,
    {
        r.push(search_entry(&nodes[i]));
        i = i + 1;
    }
    r
}

/// All metadata of a graph: each node's in-degree, their maximum, and the
/// search index.
pub fn compute_graph_meta(nodes: &Vec<NodeKey>, targets: &Vec<LinkTarget>) -> (m: GraphMeta)
    ensures
        m.in_degrees@.len() == nodes@.len(),
        forall|i: int| 0 <= i < nodes@.len() ==> m.in_degrees@[i] == in_degree_of(targets@, (#[trigger] nodes@[i]).id@),
        m.max_in_degree == seq_max(m.in_degrees@),
        m.search_index@.len() == nodes@.len(),
        forall|i: int| 0 <= i < nodes@.len() ==> search_row_of(#[trigger] nodes@[i], m.search_index@[i]),
{
    let in_degrees = in_degrees(nodes, targets);
    let max_in_degree = max_in_degree(&in_degrees);
    let search_index = build_search_index(nodes);
    GraphMeta { in_degrees, max_in_degree, search_index }
}

/// The sum of the in-degrees of the nodes.
pub open spec fn degree_total(nodes: Seq<NodeKey>, targets: Seq<LinkTarget>) -> nat
    decreases nodes.len(),
{
    if nodes.len() == 0 {
        0
    } else {
        degree_total(nodes.drop_last(), targets) + in_degree_of(targets, nodes.last().id@)
    }
}

/// How many of the nodes carry the id that the target names.
pub open spec fn hits(nodes: Seq<NodeKey>, t: LinkTarget) -> nat
    decreases nodes.len(),
{
    if nodes.len() == 0 {
        0
    } else {
        hits(nodes.drop_last(), t) + if resolved_id(t) == Some(nodes.last().id@) {
            1nat
        } else {
            0nat
        }
    }
}

proof fn lemma_hits_distinct(nodes: Seq<NodeKey>, t: LinkTarget)
    requires
        forall|a: int, b: int| 0 <= a < b < nodes.len() ==> (#[trigger] nodes[a]).id@ != (#[trigger] nodes[b]).id@,
    ensures
        hits(nodes, t) == if exists|i: int| 0 <= i < nodes.len() && resolved_id(t) == Some((#[trigger] nodes[i]).id@) {
            1nat
        } else {
            0nat
        },
    decreases nodes.len(),
{
    if nodes.len() > 0 {
        let init = nodes.drop_last();
        assert forall|a: int, b: int| 0 <= a < b < init.len() implies (#[trigger] init[a]).id@ != (#[trigger] init[b]).id@ by {
            assert(init[a] == nodes[a] && init[b] == nodes[b]);
        }
        lemma_hits_distinct(init, t);
        if exists|i: int| 0 <= i < init.len() && resolved_id(t) == Some((#[trigger] init[i]).id@) {
            let i = choose|i: int| 0 <= i < init.len() && resolved_id(t) == Some((#[trigger] init[i]).id@);
            assert(nodes[i] == init[i]);
            assert(nodes[nodes.len() - 1] == nodes.last());
        } else if resolved_id(t) == Some(nodes.last().id@) {
            assert(nodes[nodes.len() - 1] == nodes.last());
        } else {
            assert forall|i: int| 0 <= i < nodes.len() implies resolved_id(t) != Some((#[trigger] nodes[i]).id@) by {
                if i < nodes.len() - 1 {
                    assert(init[i] == nodes[i]);
                }
            }
        }
    }
}

proof fn lemma_total_step(nodes: Seq<NodeKey>, targets: Seq<LinkTarget>, t: LinkTarget)
    ensures
        degree_total(nodes, targets.push(t)) == degree_total(nodes, targets) + hits(nodes, t),
    decreases nodes.len(),
{
    assert(targets.push(t).drop_last() == targets);
    if nodes.len() > 0 {
        lemma_total_step(nodes.drop_last(), targets, t);
    }
}

/// Where node ids are distinct and every link target names a node, the
/// in-degrees of the nodes add up to the number of links with a target.
pub proof fn lemma_in_degree_sum(nodes: Seq<NodeKey>, targets: Seq<LinkTarget>)
    requires
        forall|a: int, b: int| 0 <= a < b < nodes.len() ==> (#[trigger] nodes[a]).id@ != (#[trigger] nodes[b]).id@,
        forall|k: int| 0 <= k < targets.len() && (#[trigger] resolved_id(targets[k])).is_some() ==> exists|i: int|
            0 <= i < nodes.len() && resolved_id(targets[k]) == Some((#[trigger] nodes[i]).id@),
    ensures
        degree_total(nodes, targets) == resolved_count(targets),
    decreases targets.len(),
{
    if targets.len() == 0 {
        lemma_total_zero(nodes, targets);
    } else {
        let init = targets.drop_last();
        let t = targets.last();
        assert forall|k: int| 0 <= k < init.len() && (#[trigger] resolved_id(init[k])).is_some() implies exists|i: int|
            0 <= i < nodes.len() && resolved_id(init[k]) == Some((#[trigger] nodes[i]).id@) by {
            assert(init[k] == targets[k]);
            assert(resolved_id(targets[k]).is_some());
        }
        lemma_in_degree_sum(nodes, init);
        assert(init.push(t) == targets);
        lemma_total_step(nodes, init, t);
        lemma_hits_distinct(nodes, t);
        assert(targets[targets.len() - 1] == t);
    }
}

proof fn lemma_total_zero(nodes: Seq<NodeKey>, targets: Seq<LinkTarget>)
    requires
        targets.len() == 0,
    ensures
        degree_total(nodes, targets) == 0,
    decreases nodes.len(),
{
    if nodes.len() > 0 {
        lemma_total_zero(nodes.drop_last(), targets);
    }
}

/// The maximum in-degree bounds every in-degree and, for a non-empty graph,
/// is the in-degree of some node; it is 0 for a graph without nodes.
pub proof fn lemma_max_in_degree(degrees: Seq<usize>)
    ensures
        forall|i: int| 0 <= i < degrees.len() ==> (#[trigger] degrees[i]) <= seq_max(degrees),
        degrees.len() > 0 ==> exists|i: int| 0 <= i < degrees.len() && degrees[i] == seq_max(degrees),
        degrees.len() == 0 ==> seq_max(degrees) == 0,
    decreases degrees.len(),
{
    if degrees.len() > 0 {
        let init = degrees.drop_last();
        lemma_max_in_degree(init);
        assert forall|i: int| 0 <= i < degrees.len() implies (#[trigger] degrees[i]) <= seq_max(degrees) by {
            if i < degrees.len() - 1 {
                assert(init[i] == degrees[i]);
            }
        }
        if seq_max(degrees) == degrees.last() {
            assert(degrees[degrees.len() - 1] == degrees.last());
        } else {
            let i = choose|i: int| 0 <= i < init.len() && init[i] == seq_max(init);
            assert(degrees[i] == init[i]);
        }
    }
}

/// The number of links whose target names the id of one of the nodes.
pub open spec fn known_count(nodes: Seq<NodeKey>, targets: Seq<LinkTarget>) -> nat
    decreases targets.len(),
{
    if targets.len() == 0 {
        0
    } else {
        known_count(nodes, targets.drop_last()) + if exists|i: int|
            0 <= i < nodes.len() && resolved_id(targets.last()) == Some((#[trigger] nodes[i]).id@) {
            1nat
        } else {
            0nat
        }
    }
}

/// Where node ids are distinct, the in-degrees of the nodes add up to the
/// number of links whose target names one of the nodes; links to unknown ids
/// are tallied elsewhere and add nothing here.
pub proof fn lemma_in_degree_sum_known(nodes: Seq<NodeKey>, targets: Seq<LinkTarget>)
    requires
        forall|a: int, b: int| 0 <= a < b < nodes.len() ==> (#[trigger] nodes[a]).id@ != (#[trigger] nodes[b]).id@,
    ensures
        degree_total(nodes, targets) == known_count(nodes, targets),
    decreases targets.len(),
{
    if targets.len() == 0 {
        lemma_total_zero(nodes, targets);
    } else {
        let init = targets.drop_last();
        let t = targets.last();
        lemma_in_degree_sum_known(nodes, init);
        assert(init.push(t) == targets);
        lemma_total_step(nodes, init, t);
        lemma_hits_distinct(nodes, t);
    }
}

} // verus!

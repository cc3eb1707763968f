//! The weighted random walk over a fixed directed graph: given the current
//! node and one fresh raw random value, the next node is chosen by a
//! cumulative-weight bucket scan over the node's outgoing edges, in their
//! declared order.

use vstd::prelude::*;

use crate::rng::next_rand;
use crate::rng::spec_txs16;

verus! {

/// A weighted transition to the node with id `id`.
#[derive(Clone, Copy, PartialEq, Eq, Structural, Debug)]
pub struct Edge {
    pub id: u8,
    pub weight: u8,
}

impl Edge {
    pub fn new(id: u8, weight: u8) -> (e: Edge)
        ensures
            e == (Edge { id, weight }),
    {
        Edge { id, weight }
    }
}

/// A graph node: its id, a display label, and its outgoing edges in the
/// order that the selection scan walks them.
pub struct Node {
    pub id: u8,
    pub s: char,
    pub edges: Vec<Edge>,
}

/// Sum of the weights of the first `j` edges. `cum_weight(edges, len)` is
/// the selection's modulus; the values that select edge `j` are the block
/// `[cum_weight(edges, j), cum_weight(edges, j + 1))`.
pub open spec fn cum_weight(edges: Seq<Edge>, j: int) -> int
    decreases j,
{
    if j <= 0 {
        0
    } else {
        cum_weight(edges, j - 1) + edges[j - 1].weight
    }
}

/// Total weight of a node's outgoing edges.
pub open spec fn node_total(n: Node) -> int {
    cum_weight(n.edges@, n.edges@.len() as int)
}

/// The index of the edge that the bucket scan picks for raw value `r`,
/// scanning from index `j`: the first index whose cumulative weight
/// exceeds `r`.
pub open spec fn pick_from(edges: Seq<Edge>, r: int, j: int) -> int
    decreases edges.len() - j,
{
    if j >= edges.len() {
        j
    } else if r < cum_weight(edges, j + 1) {
        j
    } else {
        pick_from(edges, r, j + 1)
    }
}

/// The edge index picked for raw value `r`: the first edge whose running
/// weight sum strictly exceeds `r`.
pub open spec fn pick_index(edges: Seq<Edge>, r: int) -> int {
    pick_from(edges, r, 0)
}

/// The index of the first node with id `id`, scanning from index `j`;
/// the sequence's length when there is none.
pub open spec fn find_from(nodes: Seq<Node>, id: u8, j: int) -> int
    decreases nodes.len() - j,
{
    if j >= nodes.len() {
        nodes.len() as int
    } else if nodes[j].id == id {
        j
    } else {
        find_from(nodes, id, j + 1)
    }
}

/// The index of the first node with id `id`, or the sequence's length when
/// no node has it.
pub open spec fn find_node(nodes: Seq<Node>, id: u8) -> int {
    find_from(nodes, id, 0)
}

/// Cumulative weights only grow along the edge list.
proof fn lemma_cum_weight_monotone(edges: Seq<Edge>, a: int, b: int)
    requires
        0 <= a <= b,
    ensures
        cum_weight(edges, a) <= cum_weight(edges, b),
    decreases b - a,
{
    if a < b {
        lemma_cum_weight_monotone(edges, a, b - 1);
    }
}

/// The scan from `j0` lands on an index whose weight block contains `r`.
proof fn lemma_pick_from_interval(edges: Seq<Edge>, r: int, j0: int)
    requires
        0 <= j0,
        cum_weight(edges, j0) <= r < cum_weight(edges, edges.len() as int),
    ensures
        j0 <= pick_from(edges, r, j0) < edges.len(),
        cum_weight(edges, pick_from(edges, r, j0)) <= r,
        r < cum_weight(edges, pick_from(edges, r, j0) + 1),
    decreases edges.len() - j0,
{
    if j0 >= edges.len() {
        lemma_cum_weight_monotone(edges, edges.len() as int, j0);
        assert(false);
    } else if r < cum_weight(edges, j0 + 1) {
    } else {
        lemma_pick_from_interval(edges, r, j0 + 1);
    }
}

/// The raw values in `[0, total)` that select edge `j` are exactly the
/// block `[cum_weight(j), cum_weight(j) + weight_j)`: each edge owns a
/// block of its own weight's size. Under a uniformly distributed raw value
/// the edge is therefore selected with probability `weight_j / total`, and
/// reordering edges moves the blocks without changing their sizes.
pub proof fn lemma_selection_blocks(edges: Seq<Edge>, r: int, j: int)
    requires
        0 <= j < edges.len(),
        0 <= r < cum_weight(edges, edges.len() as int),
    ensures
        pick_index(edges, r) == j <==> cum_weight(edges, j) <= r < cum_weight(edges, j)
            + edges[j].weight,
{
    lemma_pick_from_interval(edges, r, 0);
    let k = pick_index(edges, r);
    assert(cum_weight(edges, j + 1) == cum_weight(edges, j) + edges[j].weight);
    assert(cum_weight(edges, k + 1) == cum_weight(edges, k) + edges[k].weight);
    if k != j && cum_weight(edges, j) <= r < cum_weight(edges, j + 1) {
        if k < j {
            lemma_cum_weight_monotone(edges, k + 1, j);
        } else {
            lemma_cum_weight_monotone(edges, j + 1, k);
        }
    }
}

/// An edge list of exactly two edges, in the given order.
pub open spec fn pair(a: Edge, b: Edge) -> Seq<Edge> {
    seq![a, b]
}

/// Swapping two edges with distinct targets changes which raw values map to
/// which outcome — already the value 0 selects the other target — while the
/// total weight, and the number of raw values that select each target (an
/// interval of the target's own weight's size either way), are unchanged.
pub proof fn lemma_edge_order_sensitivity(a: Edge, b: Edge)
    requires
        a.weight >= 1,
        b.weight >= 1,
        a.id != b.id,
    ensures
        cum_weight(pair(a, b), 2) == cum_weight(pair(b, a), 2),
        pair(a, b)[pick_index(pair(a, b), 0)].id != pair(b, a)[pick_index(pair(b, a), 0)].id,
        forall|r: int|
            0 <= r < a.weight + b.weight ==> ((pair(a, b)[#[trigger] pick_index(
                pair(a, b),
                r,
            )].id == a.id) <==> r < a.weight),
        forall|r: int|
            0 <= r < a.weight + b.weight ==> ((pair(b, a)[#[trigger] pick_index(
                pair(b, a),
                r,
            )].id == a.id) <==> r >= b.weight),
{
    let ab = pair(a, b);
    let ba = pair(b, a);
    assert(cum_weight(ab, 0) == 0 && cum_weight(ba, 0) == 0);
    assert(cum_weight(ab, 1) == a.weight && cum_weight(ba, 1) == b.weight);
    assert(cum_weight(ab, 2) == a.weight + b.weight);
    assert(cum_weight(ba, 2) == b.weight + a.weight);
    assert forall|r: int| 0 <= r < a.weight + b.weight implies ((ab[#[trigger] pick_index(
        ab,
        r,
    )].id == a.id) <==> r < a.weight) by {
        lemma_selection_blocks(ab, r, 0);
        lemma_selection_blocks(ab, r, 1);
        lemma_pick_from_interval(ab, r, 0);
    }
    assert forall|r: int| 0 <= r < a.weight + b.weight implies ((ba[#[trigger] pick_index(
        ba,
        r,
    )].id == a.id) <==> r >= b.weight) by {
        lemma_selection_blocks(ba, r, 0);
        lemma_selection_blocks(ba, r, 1);
        lemma_pick_from_interval(ba, r, 0);
    }
    assert(ab[pick_index(ab, 0)].id == a.id);
    assert(ba[pick_index(ba, 0)].id != a.id);
}

/// Scanning from `j0` and from `j` agree while no index before `j` has been
/// picked.
proof fn lemma_pick_from_skip(edges: Seq<Edge>, r: int, j0: int, j: int)
    requires
        0 <= j0 <= j <= edges.len(),
        forall|m: int| j0 < m <= j ==> r >= #[trigger] cum_weight(edges, m),
    ensures
        pick_from(edges, r, j0) == pick_from(edges, r, j),
    decreases j - j0,
{
    if j0 < j {
        assert(r >= cum_weight(edges, j0 + 1));
        lemma_pick_from_skip(edges, r, j0 + 1, j);
    }
}

/// Scanning for a node from `j0` and from `j` agree while no node before
/// `j` matches.
proof fn lemma_find_from_skip(nodes: Seq<Node>, id: u8, j0: int, j: int)
    requires
        0 <= j0 <= j <= nodes.len(),
        forall|m: int| j0 <= m < j ==> nodes[m].id != id,
    ensures
        find_from(nodes, id, j0) == find_from(nodes, id, j),
    decreases j - j0,
{
    if j0 < j {
        lemma_find_from_skip(nodes, id, j0 + 1, j);
    }
}

/// One step of the random walk. Finds the first node whose id is `now_id`,
/// advances the PRNG once, reduces the fresh raw value modulo the node's
/// total edge weight and walks the edges in declared order until the
/// running weight sum exceeds it; that edge's target is the next node.
/// When no node has id `now_id` the walk fails soft: the id comes back
/// unchanged and the PRNG is not advanced.
#[verifier::loop_isolation(false)]
pub fn next_id(now_id: u8, nodes: &[Node], rand: &mut u16) -> (r: u8)
    requires
        find_node(nodes@, now_id) < nodes@.len() ==> 1 <= node_total(
            nodes@[find_node(nodes@, now_id)],
        ) <= u16::MAX,
    ensures
        find_node(nodes@, now_id) == nodes@.len() ==> r == now_id && *final(rand) == *old(rand),
        find_node(nodes@, now_id) < nodes@.len() ==> {
            let node = nodes@[find_node(nodes@, now_id)];
            let raw = spec_txs16(*old(rand));
            &&& *final(rand) == raw
            &&& 0 <= pick_index(node.edges@, raw as int % node_total(node)) < node.edges@.len()
            &&& r == node.edges@[pick_index(node.edges@, raw as int % node_total(node))].id
        },
{
    let n = nodes.len();
    let mut j: usize = 0;
    while j < n && nodes[j].id != now_id
        invariant
            n == nodes@.len(),
            0 <= j <= n,
            forall|m: int| 0 <= m < j ==> nodes@[m].id != now_id,
        decreases n - j,
    {
        j += 1;
    }
    proof {
        lemma_find_from_skip(nodes@, now_id, 0, j as int);
        assert(find_node(nodes@, now_id) == j as int);
    }
    if j == n {
        return now_id;
    }
    let ghost node = nodes@[j as int];

    let edges = &nodes[j].edges;
    let m = edges.len();
    let mut total: u32 = 0;
    let mut k: usize = 0;
    while k < m
        invariant
            m == edges@.len(),
            0 <= k <= m,
            total == cum_weight(edges@, k as int),
            cum_weight(edges@, m as int) <= u16::MAX,
        decreases m - k,
    {
        proof {
            lemma_cum_weight_monotone(edges@, k + 1, m as int);
        }
        total = total + edges[k].weight as u32;
        k += 1;
    }

    proof {
        assert(1 <= node_total(node) <= u16::MAX);
        assert(total == cum_weight(edges@, m as int));
    }
    *rand = next_rand(*rand);
    let raw: u16 = *rand;
    let r_val: u16 = raw % (total as u16);

    let ghost rr = r_val as int;
    proof {
        assert(rr == (raw as int) % node_total(node));
        assert(rr < cum_weight(edges@, m as int));
    }
    let mut upper: u32 = 0;
    let mut k: usize = 0;
    while k < m
        invariant
            m == edges@.len(),
            0 <= k <= m,
            upper == cum_weight(edges@, k as int),
            rr == r_val as int,
            rr < cum_weight(edges@, m as int) <= u16::MAX,
            edges@ == node.edges@,
            pick_from(edges@, rr, 0) == pick_from(edges@, rr, k as int),
            forall|m2: int| 0 < m2 <= k ==> rr >= #[trigger] cum_weight(edges@, m2),
        decreases m - k,
    {
        proof {
            lemma_cum_weight_monotone(edges@, k + 1, m as int);
        }
        upper = upper + edges[k].weight as u32;
        if (r_val as u32) < upper {
            proof {
                assert(pick_from(edges@, rr, k as int) == k as int);
            }
            return edges[k].id;
        }
        proof {
            lemma_pick_from_skip(edges@, rr, k as int, k + 1);
        }
        k += 1;
    }
    proof {
        assert(rr >= cum_weight(edges@, m as int));
        assert(false);
    }
    now_id
}

} // verus!

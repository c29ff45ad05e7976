//! The graph collection that holds the tasks and their connections, and what
//! is taken on trust about it.

use petgraph::stable_graph::{EdgeIndex, NodeIndex, StableGraph};
use petgraph::visit::EdgeRef;
use petgraph::{Directed, Direction};
use vstd::prelude::*;
use crate::cnx::{Cnx, CnxModel};
use crate::node::{Node, NodeModel};

verus! {

/// `petgraph::stable_graph::StableGraph`, as a type whose inside is not
/// looked at.
#[verifier::external_type_specification]
#[verifier::external_body]
#[verifier::reject_recursive_types(N)]
#[verifier::reject_recursive_types(E)]
#[verifier::reject_recursive_types(Ty)]
#[verifier::reject_recursive_types(Ix)]
pub struct ExStableGraph<N, E, Ty, Ix>(StableGraph<N, E, Ty, Ix>);

/// `petgraph::Directed`, the marker of a graph with directed edges.
#[verifier::external_type_specification]
#[verifier::external_body]
pub struct ExDirected(Directed);

/// `petgraph::Direction`: `Outgoing` or `Incoming`.
#[verifier::external_type_specification]
pub struct ExDirection(Direction);

/// One connection as the graph holds it: the indices of its two ends and
/// what flows between them.
pub struct EdgeModel {
    /// The index of the node that sends.
    pub src: int,
    /// The index of the node that receives.
    pub dst: int,
    /// The connection's own content.
    pub cnx: CnxModel,
}

/// The node slots of a graph, by node index. A slot is `None` where a node
/// was removed and none has taken its place.
pub uninterp spec fn graph_nodes(g: StableGraph<Node, Cnx, Directed, u32>) -> Seq<Option<NodeModel>>;

/// The edge slots of a graph, by edge index. A slot is `None` where an edge
/// was removed and none has taken its place.
pub uninterp spec fn graph_edges(g: StableGraph<Node, Cnx, Directed, u32>) -> Seq<Option<EdgeModel>>;

/// Whether `i` is the index of a node that `nodes` holds.
pub open spec fn is_node(nodes: Seq<Option<NodeModel>>, i: int) -> bool {
    0 <= i < nodes.len() && nodes[i] is Some
}

/// Whether `e` is the index of an edge that `edges` holds.
pub open spec fn is_edge(edges: Seq<Option<EdgeModel>>, e: int) -> bool {
    0 <= e < edges.len() && edges[e] is Some
}

/// Whether `e` is an edge that leaves `node` (`outgoing`) or reaches it.
pub open spec fn touches(edges: Seq<Option<EdgeModel>>, e: int, node: int, outgoing: bool) -> bool {
    is_edge(edges, e) && if outgoing {
        edges[e]->Some_0.src == node
    } else {
        edges[e]->Some_0.dst == node
    }
}

/// Whether the direction is that of the edges that leave a node.
pub open spec fn is_outgoing(dir: Direction) -> bool {
    dir == Direction::Outgoing
}

/// What a slot sequence becomes when `item` is put at `i`: in the slot, or
/// behind the last one.
pub open spec fn put<T>(slots: Seq<Option<T>>, i: int, item: T) -> Seq<Option<T>> {
    if i == slots.len() {
        slots.push(Some(item))
    } else {
        slots.update(i, Some(item))
    }
}

/// Whether `i` is where a new item goes: an empty slot, or the position
/// behind the last one.
pub open spec fn vacant<T>(slots: Seq<Option<T>>, i: int) -> bool {
    i == slots.len() || (0 <= i < slots.len() && slots[i] is None)
}

/// `StableGraph::new`: a graph without nodes and edges.
#[verifier::external_body]
pub(crate) fn graph_new() -> (g: StableGraph<Node, Cnx, Directed, u32>)
    ensures
        graph_nodes(g) == Seq::<Option<NodeModel>>::empty(),
        graph_edges(g) == Seq::<Option<EdgeModel>>::empty(),
{
    StableGraph::new()
}

/// `StableGraph::add_node`: the node goes into a vacant slot, whose index is
/// returned; the other nodes and all edges stay as they are. The outside
/// function panics when the index type has no index left, which the
/// precondition rules out.
#[verifier::external_body]
pub(crate) fn graph_add_node(g: &mut StableGraph<Node, Cnx, Directed, u32>, node: Node) -> (i: u32)
    requires
        graph_nodes(*old(g)).len() < u32::MAX,
    ensures
        vacant(graph_nodes(*old(g)), i as int),
        graph_nodes(*final(g)) == put(graph_nodes(*old(g)), i as int, node@),
        graph_edges(*final(g)) == graph_edges(*old(g)),
{
    g.add_node(node).index() as u32
}

/// `StableGraph::add_edge`: the edge from `a` to `b` goes into a vacant
/// slot, whose index is returned; all nodes and the other edges stay as they
/// are. The outside function panics when an end is no node of the graph or
/// the index type has no index left, which the preconditions rule out.
#[verifier::external_body]
pub(crate) fn graph_add_edge(
    g: &mut StableGraph<Node, Cnx, Directed, u32>,
    a: u32,
    b: u32,
    cnx: Cnx,
) -> (e: usize)
    requires
        is_node(graph_nodes(*old(g)), a as int),
        is_node(graph_nodes(*old(g)), b as int),
        graph_edges(*old(g)).len() < u32::MAX,
    ensures
        vacant(graph_edges(*old(g)), e as int),
        graph_edges(*final(g)) == put(
            graph_edges(*old(g)),
            e as int,
            EdgeModel { src: a as int, dst: b as int, cnx: cnx@ },
        ),
        graph_nodes(*final(g)) == graph_nodes(*old(g)),
{
    g.add_edge(NodeIndex::new(a as usize), NodeIndex::new(b as usize), cnx).index()
}

/// `StableGraph::node_weight`: the node at index `i`, where the graph holds
/// one there.
#[verifier::external_body]
pub(crate) fn graph_node_weight(g: &StableGraph<Node, Cnx, Directed, u32>, i: u32) -> (r: Option<
    &Node,
>)
    ensures
        match r {
            Some(node) => is_node(graph_nodes(*g), i as int) && graph_nodes(*g)[i as int] == Some(
                node@,
            ),
            None => !is_node(graph_nodes(*g), i as int),
        },
{
    g.node_weight(NodeIndex::new(i as usize))
}

/// `StableGraph::edge_weight`: the connection at edge index `e`, where the
/// graph holds one there. The index must fit the graph's index type.
#[verifier::external_body]
pub(crate) fn graph_edge_weight(g: &StableGraph<Node, Cnx, Directed, u32>, e: usize) -> (r: Option<
    &Cnx,
>)
    requires
        e <= u32::MAX,
    ensures
        match r {
            Some(cnx) => is_edge(graph_edges(*g), e as int) && graph_edges(*g)[e as int]->Some_0.cnx
                == cnx@,
            None => !is_edge(graph_edges(*g), e as int),
        },
{
    g.edge_weight(EdgeIndex::new(e))
}

/// `StableGraph::edge_endpoints`: the indices of the two ends of the edge
/// at index `e`, where the graph holds one there. The index must fit the
/// graph's index type.
#[verifier::external_body]
pub(crate) fn graph_edge_endpoints(g: &StableGraph<Node, Cnx, Directed, u32>, e: usize) -> (r:
    Option<(u32, u32)>)
    requires
        e <= u32::MAX,
    ensures
        match r {
            Some((a, b)) => is_edge(graph_edges(*g), e as int) && graph_edges(
                *g,
            )[e as int]->Some_0.src == a && graph_edges(*g)[e as int]->Some_0.dst == b,
            None => !is_edge(graph_edges(*g), e as int),
        },
{
    g.edge_endpoints(EdgeIndex::new(e)).map(|(a, b)| (a.index() as u32, b.index() as u32))
}

/// `StableGraph::node_indices`: the indices of the nodes that the graph
/// holds, each once, from the lowest to the highest.
#[verifier::external_body]
pub(crate) fn graph_node_indices(g: &StableGraph<Node, Cnx, Directed, u32>) -> (r: Vec<u32>)
    ensures
        forall|k: int| 0 <= k < r@.len() ==> is_node(graph_nodes(*g), #[trigger] r@[k] as int),
        forall|k: int, l: int| 0 <= k < l < r@.len() ==> r@[k] < r@[l],
        forall|i: int|
            is_node(graph_nodes(*g), i) ==> exists|k: int|
                0 <= k < r@.len() && #[trigger] r@[k] == i,
{
    g.node_indices().map(|i| i.index() as u32).collect()
}

/// `StableGraph::edge_indices`: the indices of the edges that the graph
/// holds, each once, from the lowest to the highest.
#[verifier::external_body]
pub(crate) fn graph_edge_indices(g: &StableGraph<Node, Cnx, Directed, u32>) -> (r: Vec<usize>)
    ensures
        forall|k: int| 0 <= k < r@.len() ==> is_edge(graph_edges(*g), #[trigger] r@[k] as int),
        forall|k: int, l: int| 0 <= k < l < r@.len() ==> r@[k] < r@[l],
        forall|e: int|
            is_edge(graph_edges(*g), e) ==> exists|k: int|
                0 <= k < r@.len() && #[trigger] r@[k] == e,
{
    g.edge_indices().map(|e| e.index()).collect()
}

/// `StableGraph::edges_directed`: the indices of the edges that leave the
/// node `a` (`Outgoing`) or reach it (`Incoming`), each once. Nothing is
/// claimed of their order.
#[verifier::external_body]
pub(crate) fn graph_edges_directed(
    g: &StableGraph<Node, Cnx, Directed, u32>,
    a: u32,
    dir: Direction,
) -> (r: Vec<usize>)
    ensures
        forall|k: int|
            0 <= k < r@.len() ==> touches(
                graph_edges(*g),
                #[trigger] r@[k] as int,
                a as int,
                is_outgoing(dir),
            ),
        forall|k: int, l: int| 0 <= k < l < r@.len() ==> r@[k] != r@[l],
        forall|e: int|
            #[trigger] touches(graph_edges(*g), e, a as int, is_outgoing(dir)) ==> exists|k: int|
                0 <= k < r@.len() && #[trigger] r@[k] == e,
{
    g.edges_directed(NodeIndex::new(a as usize), dir).map(|edge| edge.id().index()).collect()
}

/// `StableGraph::node_count`: how many nodes the graph holds.
#[verifier::external_body]
pub(crate) fn graph_node_count(g: &StableGraph<Node, Cnx, Directed, u32>) -> (n: usize)
    ensures
        n == graph_nodes(*g).filter(|slot: Option<NodeModel>| slot is Some).len(),
{
    g.node_count()
}

/// `StableGraph::edge_count`: how many edges the graph holds.
#[verifier::external_body]
pub(crate) fn graph_edge_count(g: &StableGraph<Node, Cnx, Directed, u32>) -> (n: usize)
    ensures
        n == graph_edges(*g).filter(|slot: Option<EdgeModel>| slot is Some).len(),
{
    g.edge_count()
}

/// `StableGraph::clone`: a graph with the same nodes and edges at the same
/// indices. Each node and each connection is copied by its own `clone`,
/// which keeps its content.
#[verifier::external_body]
pub(crate) fn graph_clone(g: &StableGraph<Node, Cnx, Directed, u32>) -> (r: StableGraph<
    Node,
    Cnx,
    Directed,
    u32,
>)
    ensures
        graph_nodes(r) == graph_nodes(*g),
        graph_edges(r) == graph_edges(*g),
{
    g.clone()
}

/// `StableGraph::node_weight_mut`: the node at index `i` to be changed in
/// place, where the graph holds one there; the other nodes and all edges
/// stay as they are.
#[verifier::external_body]
pub(crate) fn graph_node_weight_mut(g: &mut StableGraph<Node, Cnx, Directed, u32>, i: u32) -> (r:
    Option<&mut Node>)
    ensures
        match r {
            Some(node) => is_node(graph_nodes(*old(g)), i as int) && graph_nodes(
                *old(g),
            )[i as int] == Some(node@) && graph_nodes(*final(g)) == graph_nodes(*old(g)).update(
                i as int,
                Some(final(node)@),
            ),
            None => !is_node(graph_nodes(*old(g)), i as int) && graph_nodes(*final(g))
                == graph_nodes(*old(g)),
        },
        graph_edges(*final(g)) == graph_edges(*old(g)),
    no_unwind
{
    g.node_weight_mut(NodeIndex::new(i as usize))
}

} // verus!

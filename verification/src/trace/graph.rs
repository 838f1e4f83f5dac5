//! The graph that the traces are drawn in, kept by `petgraph`.

use crate::addr::{IpAddr, Ipv4Addr, Ipv6Addr};
use crate::edge::Edge;
use crate::node::Node;
use petgraph::graphmap::{DiGraphMap, GraphMap};
use petgraph::Directed;
use std::hash::BuildHasher;
use vstd::prelude::*;

verus! {

/// `petgraph::graphmap::GraphMap`, the graph itself. Nothing is read of
/// what it holds but through the functions of this file.
#[verifier::external_type_specification]
#[verifier::external_body]
#[verifier::reject_recursive_types(N)]
#[verifier::reject_recursive_types(E)]
#[verifier::reject_recursive_types(Ty)]
#[verifier::reject_recursive_types(S)]
pub struct ExGraphMap<N, E, Ty, S: BuildHasher>(GraphMap<N, E, Ty, S>);

/// `petgraph::Directed`, the mark of a graph whose edges have a direction.
#[verifier::external_type_specification]
#[verifier::external_body]
pub struct ExDirected(Directed);

/// A node as the graph holds it: the rank of its kind, and what it holds.
pub type NodeKey = (u8, u128);

/// An edge's label as the graph holds it: the rank of its kind, and what it
/// holds.
pub type EdgeKey = (u8, u64);

/// A directed graph of nodes and labelled edges, at most one edge from one
/// node to another.
pub type Graph = DiGraphMap<NodeKey, EdgeKey>;

/// The nodes of a graph.
pub uninterp spec fn graph_nodes(graph: Graph) -> Set<(u8, u128)>;

/// The edges of a graph: for each pair of nodes with an edge from the first
/// to the second, the edge's label.
pub uninterp spec fn graph_edges(graph: Graph) -> Map<((u8, u128), (u8, u128)), (u8, u64)>;

/// The edges of a graph without edges.
pub open spec fn no_edges() -> Map<(NodeKey, NodeKey), EdgeKey> {
    Map::empty()
}

/// Calls `DiGraphMap::new`. Claimed of it: the new graph has no nodes and
/// no edges.
#[verifier::external_body]
pub(crate) fn new_graph() -> (made: Graph)
    ensures
        graph_nodes(made) == Set::<NodeKey>::empty(),
        graph_edges(made) == no_edges(),
{
    DiGraphMap::new()
}

/// Calls `GraphMap::add_node`. Claimed of it: the node is among the nodes
/// afterwards, nothing else changes, and the node is handed back.
#[verifier::external_body]
pub(crate) fn add_node(graph: &mut Graph, node: NodeKey) -> (added: NodeKey)
    ensures
        added == node,
        graph_nodes(*final(graph)) == graph_nodes(*old(graph)).insert(node),
        graph_edges(*final(graph)) == graph_edges(*old(graph)),
{
    graph.add_node(node)
}

/// Calls `GraphMap::add_edge`. Claimed of it: afterwards the edge from `a`
/// to `b` has the label `weight`, and no other edge has changed. If there
/// was such an edge, its old label is returned and the nodes are as they
/// were; else nothing is returned, and `a` and `b` are among the nodes.
#[verifier::external_body]
pub(crate) fn add_edge(graph: &mut Graph, a: NodeKey, b: NodeKey, weight: EdgeKey) -> (replaced: Option<EdgeKey>)
    ensures
        graph_edges(*final(graph)) == graph_edges(*old(graph)).insert((a, b), weight),
        graph_edges(*old(graph)).contains_key((a, b)) ==> replaced == Some(graph_edges(*old(graph))[(a, b)]) && graph_nodes(*final(graph))
            == graph_nodes(*old(graph)),
        !graph_edges(*old(graph)).contains_key((a, b)) ==> replaced is None && graph_nodes(*final(graph)) == graph_nodes(*old(graph)).insert(
            a,
        ).insert(b),
{
    graph.add_edge(a, b, weight)
}

/// An edge that leaves a node: its label and the node it leads to.
pub type EdgeTo = (EdgeKey, NodeKey);

/// Whether `found` holds the edges of `edges` that leave `from`, each once.
pub open spec fn lists_edges_from(found: Seq<EdgeTo>, edges: Map<(NodeKey, NodeKey), EdgeKey>, from: NodeKey) -> bool {
    &&& found.no_duplicates()
    &&& forall|label: EdgeKey, to: NodeKey| #[trigger]
        found.contains((label, to)) <==> edges.contains_key((from, to)) && edges[(from, to)] == label
}

/// Whether the edge `a` comes before the edge `b` or is `b`: edges are
/// ordered by their labels, and edges with one label by their nodes; labels
/// and nodes are ordered by the rank of their kind and then by what they
/// hold.
pub open spec fn edge_le(a: EdgeTo, b: EdgeTo) -> bool {
    let (a_label, a_node) = a;
    let (b_label, b_node) = b;
    if a_label.0 != b_label.0 {
        a_label.0 < b_label.0
    } else if a_label.1 != b_label.1 {
        a_label.1 < b_label.1
    } else if a_node.0 != b_node.0 {
        a_node.0 < b_node.0
    } else {
        a_node.1 <= b_node.1
    }
}

/// Whether each of `edges` comes before those that follow it, or is equal
/// to them.
pub open spec fn ascending(edges: Seq<EdgeTo>) -> bool {
    forall|i: int, j: int| 0 <= i < j < edges.len() ==> edge_le(edges[i], edges[j])
}

/// Calls `GraphMap::edges_directed` with `Direction::Outgoing`, and
/// collects label and target of what it hands out. Claimed of it: each edge
/// that leaves `from` is handed out once, with its label, and nothing else.
/// Nothing is claimed of the order.
#[verifier::external_body]
pub(crate) fn edges_from(graph: &Graph, from: NodeKey) -> (found: Vec<EdgeTo>)
    ensures
        lists_edges_from(found@, graph_edges(*graph), from),
{
    graph.edges_directed(from, petgraph::Direction::Outgoing).map(|(_, to, label)| (*label, to)).collect()
}

/// Calls `<[T]>::sort`. Claimed of it: afterwards the edges are in
/// ascending order, as tuples of numbers are ordered, and are the edges
/// that there were before.
#[verifier::external_body]
pub(crate) fn sort_edges(edges: &mut Vec<EdgeTo>)
    ensures
        ascending(final(edges)@),
        final(edges)@.to_multiset() == old(edges)@.to_multiset(),
{
    edges.sort()
}

/// The edges of `edges` that leave `from`, each once, in ascending order.
/// There is one such list: see [`lemma_listing_order`].
pub open spec fn edges_in_order(edges: Map<(NodeKey, NodeKey), EdgeKey>, from: NodeKey) -> Seq<EdgeTo> {
    choose|found: Seq<EdgeTo>| lists_edges_from(found, edges, from) && ascending(found)
}

/// The edges that leave `from` in `graph`, in ascending order.
pub fn sorted_edges_from(graph: &Graph, from: NodeKey) -> (found: Vec<EdgeTo>)
    ensures
        lists_edges_from(found@, graph_edges(*graph), from),
        ascending(found@),
        found@ == edges_in_order(graph_edges(*graph), from),
{
    let mut found = edges_from(graph, from);
    let ghost unsorted = found@;
    sort_edges(&mut found);
    proof {
        broadcast use vstd::seq_lib::to_multiset_contains;

        unsorted.lemma_multiset_has_no_duplicates();
        found@.lemma_multiset_has_no_duplicates_conv();
        assert forall|label: EdgeKey, to: NodeKey| #[trigger]
            found@.contains((label, to)) <==> unsorted.contains((label, to)) by {
            assert(found@.to_multiset().count((label, to)) == unsorted.to_multiset().count((label, to)));
        }
        lemma_listing_order(found@, edges_in_order(graph_edges(*graph), from), graph_edges(*graph), from);
    }
    found
}

/// Two lists of the same edges, each once and in ascending order, are the
/// same list: the graph determines the order in which its edges are
/// listed.
pub proof fn lemma_sorted_edges_unique(a: Seq<EdgeTo>, b: Seq<EdgeTo>)
    requires
        a.no_duplicates(),
        b.no_duplicates(),
        ascending(a),
        ascending(b),
        forall|edge: EdgeTo| a.contains(edge) <==> b.contains(edge),
    ensures
        a == b,
    decreases a.len(),
{
    a.unique_seq_to_set();
    b.unique_seq_to_set();
    assert(a.to_set() =~= b.to_set());
    if a.len() > 0 {
        let last = a.last();
        assert(a.contains(last));
        assert(b.contains(last));
        let j = choose|j: int| 0 <= j < b.len() && b[j] == last;
        if j < b.len() - 1 {
            assert(b.contains(b.last()));
            assert(a.contains(b.last()));
            let i = choose|i: int| 0 <= i < a.len() && a[i] == b.last();
            assert(edge_le(b[j], b.last()));
            if i < a.len() - 1 {
                assert(edge_le(a[i], a.last()));
            }
            assert(b[j] == b.last());
            assert(false);
        }
        let front_a = a.drop_last();
        let front_b = b.drop_last();
        assert forall|edge: EdgeTo| front_a.contains(edge) <==> front_b.contains(edge) by {
            if front_a.contains(edge) {
                let i = choose|i: int| 0 <= i < front_a.len() && front_a[i] == edge;
                assert(a[i] == edge);
                assert(a.contains(edge));
                let k = choose|k: int| 0 <= k < b.len() && b[k] == edge;
                assert(k < b.len() - 1);
                assert(front_b[k] == edge);
            }
            if front_b.contains(edge) {
                let i = choose|i: int| 0 <= i < front_b.len() && front_b[i] == edge;
                assert(b[i] == edge);
                assert(b.contains(edge));
                let k = choose|k: int| 0 <= k < a.len() && a[k] == edge;
                assert(k < a.len() - 1);
                assert(front_a[k] == edge);
            }
        }
        lemma_sorted_edges_unique(front_a, front_b);
        assert(a =~= front_a.push(last));
        assert(b =~= front_b.push(last));
    }
}

/// The edges that leave a node are listed in one order only.
pub proof fn lemma_listing_order(a: Seq<EdgeTo>, b: Seq<EdgeTo>, edges: Map<(NodeKey, NodeKey), EdgeKey>, from: NodeKey)
    requires
        lists_edges_from(a, edges, from),
        lists_edges_from(b, edges, from),
        ascending(a),
        ascending(b),
    ensures
        a == b,
{
    assert forall|edge: EdgeTo| a.contains(edge) <==> b.contains(edge) by {
        let (label, to) = edge;
        assert(a.contains((label, to)) <==> edges.contains_key((from, to)) && edges[(from, to)] == label);
        assert(b.contains((label, to)) <==> edges.contains_key((from, to)) && edges[(from, to)] == label);
    }
    lemma_sorted_edges_unique(a, b);
}

/// The node as the graph holds it. Kinds rank as they are ordered: flows,
/// hops with an IPv4 address, hops with an IPv6 address, hidden nodes,
/// masked nodes.
pub open spec fn node_key(node: Node) -> NodeKey {
    match node {
        Node::Flow(flow) => (0u8, flow as u128),
        Node::Hop(IpAddr::V4(ip)) => (1u8, ip.bits as u128),
        Node::Hop(IpAddr::V6(ip)) => (2u8, ip.bits),
        Node::Hidden(ttl) => (3u8, ttl as u128),
        Node::Masked(ttl) => (4u8, ttl as u128),
    }
}

/// The label as the graph holds it. Kinds rank as they are ordered: hop
/// limits, round-trip times, plain connections.
pub open spec fn edge_key(edge: Edge) -> EdgeKey {
    match edge {
        Edge::TTL(ttl) => (0u8, ttl as u64),
        Edge::RTT(duration) => (1u8, duration),
        Edge::Connected => (2u8, 0u64),
    }
}

/// The node that the graph holds as `key`, if it is one.
pub open spec fn spec_node_of(key: NodeKey) -> Option<Node> {
    if key.0 == 0 && key.1 <= u16::MAX {
        Some(Node::Flow(key.1 as u16))
    } else if key.0 == 1 && key.1 <= u32::MAX {
        Some(Node::Hop(IpAddr::V4(Ipv4Addr { bits: key.1 as u32 })))
    } else if key.0 == 2 {
        Some(Node::Hop(IpAddr::V6(Ipv6Addr { bits: key.1 })))
    } else if key.0 == 3 && key.1 <= u8::MAX {
        Some(Node::Hidden(key.1 as u8))
    } else if key.0 == 4 && key.1 <= u8::MAX {
        Some(Node::Masked(key.1 as u8))
    } else {
        None
    }
}

/// The label that the graph holds as `key`, if it is one.
pub open spec fn spec_edge_of(key: EdgeKey) -> Option<Edge> {
    if key.0 == 0 && key.1 <= u8::MAX {
        Some(Edge::TTL(key.1 as u8))
    } else if key.0 == 1 {
        Some(Edge::RTT(key.1))
    } else if key.0 == 2 && key.1 == 0 {
        Some(Edge::Connected)
    } else {
        None
    }
}

/// The node as the graph holds it.
pub fn key_of_node(node: Node) -> (key: NodeKey)
    ensures
        key == node_key(node),
{
    match node {
        Node::Flow(flow) => (0u8, flow as u128),
        Node::Hop(IpAddr::V4(ip)) => (1u8, ip.bits as u128),
        Node::Hop(IpAddr::V6(ip)) => (2u8, ip.bits),
        Node::Hidden(ttl) => (3u8, ttl as u128),
        Node::Masked(ttl) => (4u8, ttl as u128),
    }
}

/// The label as the graph holds it.
pub fn key_of_edge(edge: Edge) -> (key: EdgeKey)
    ensures
        key == edge_key(edge),
{
    match edge {
        Edge::TTL(ttl) => (0u8, ttl as u64),
        Edge::RTT(duration) => (1u8, duration),
        Edge::Connected => (2u8, 0u64),
    }
}

/// The node that the graph holds as `key`, if it is one.
pub fn node_of(key: NodeKey) -> (node: Option<Node>)
    ensures
        node == spec_node_of(key),
{
    if key.0 == 0 && key.1 <= 0xffff {
        Some(Node::Flow(key.1 as u16))
    } else if key.0 == 1 && key.1 <= 0xffff_ffff {
        Some(Node::Hop(IpAddr::V4(Ipv4Addr { bits: key.1 as u32 })))
    } else if key.0 == 2 {
        Some(Node::Hop(IpAddr::V6(Ipv6Addr { bits: key.1 })))
    } else if key.0 == 3 && key.1 <= 0xff {
        Some(Node::Hidden(key.1 as u8))
    } else if key.0 == 4 && key.1 <= 0xff {
        Some(Node::Masked(key.1 as u8))
    } else {
        None
    }
}

/// The label that the graph holds as `key`, if it is one.
pub fn edge_of(key: EdgeKey) -> (edge: Option<Edge>)
    ensures
        edge == spec_edge_of(key),
{
    if key.0 == 0 && key.1 <= 0xff {
        Some(Edge::TTL(key.1 as u8))
    } else if key.0 == 1 {
        Some(Edge::RTT(key.1))
    } else if key.0 == 2 && key.1 == 0 {
        Some(Edge::Connected)
    } else {
        None
    }
}

/// A graph as mathematical values: its nodes, and the label of each edge.
#[verifier::ext_equal]
pub struct GraphModel {
    pub nodes: Set<NodeKey>,
    pub edges: Map<(NodeKey, NodeKey), EdgeKey>,
}

impl GraphModel {
    /// The graph without nodes and edges.
    pub open spec fn empty() -> Self {
        GraphModel { nodes: Set::empty(), edges: Map::empty() }
    }

    /// The graph with `node` among its nodes.
    pub open spec fn with_node(self, node: Node) -> Self {
        GraphModel { nodes: self.nodes.insert(node_key(node)), ..self }
    }

    /// The graph with an edge from `a` to `b` labelled `edge`, in place of
    /// the edge from `a` to `b` that there may have been. With a new edge
    /// its two ends are among the nodes.
    pub open spec fn with_edge(self, a: Node, b: Node, edge: Edge) -> Self {
        let from = node_key(a);
        let to = node_key(b);
        GraphModel {
            nodes: if self.edges.contains_key((from, to)) {
                self.nodes
            } else {
                self.nodes.insert(from).insert(to)
            },
            edges: self.edges.insert((from, to), edge_key(edge)),
        }
    }

    /// Whether the two ends of each edge are among the nodes.
    pub open spec fn wf(self) -> bool {
        forall|a: NodeKey, b: NodeKey| #[trigger] self.edges.contains_key((a, b)) ==> self.nodes.contains(a) && self.nodes.contains(b)
    }
}

/// The graph as mathematical values.
pub open spec fn model_of(graph: Graph) -> GraphModel {
    GraphModel { nodes: graph_nodes(graph), edges: graph_edges(graph) }
}

/// Puts `node` among the nodes of `graph`.
pub fn put_node(graph: &mut Graph, node: Node)
    ensures
        model_of(*final(graph)) == model_of(*old(graph)).with_node(node),
{
    let _ = add_node(graph, key_of_node(node));
}

/// Puts an edge from `a` to `b` labelled `edge` in `graph`, in place of the
/// edge from `a` to `b` that there may have been.
pub fn put_edge(graph: &mut Graph, a: Node, b: Node, edge: Edge)
    ensures
        model_of(*final(graph)) == model_of(*old(graph)).with_edge(a, b, edge),
{
    let _ = add_edge(graph, key_of_node(a), key_of_node(b), key_of_edge(edge));
}

} // verus!

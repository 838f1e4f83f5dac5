//! What the rounds of the traces add up to: the graph of the paths, and the
//! latest round-trip times of each hop.

use crate::addr::IpAddr;
use crate::edge::Edge;
use crate::node::Node;
use crate::prelude::{Duration, Flowhash};
use crate::trace::graph::{
    edge_of, edges_in_order, key_of_node, model_of, new_graph, node_key, node_of, put_edge, put_node, sorted_edges_from,
    spec_edge_of, spec_node_of, EdgeTo, Graph, GraphModel,
};
use crate::trace::options::TraceOptions;
use crate::utils::hop::Hop;
use vstd::prelude::*;

verus! {

/// How many round-trip times are kept for a hop: the latest 10.
pub const PINGS_KEPT: usize = 10;

/// The latest round-trip times between a source and a hop, newest first.
pub struct PingLog {
    pub source: IpAddr,
    pub destination: IpAddr,
    pub pings: Vec<Duration>,
}

/// A [`PingLog`] as mathematical values.
pub struct PingEntry {
    pub source: IpAddr,
    pub destination: IpAddr,
    pub pings: Seq<Duration>,
}

impl View for PingLog {
    type V = PingEntry;

    open spec fn view(&self) -> PingEntry {
        PingEntry { source: self.source, destination: self.destination, pings: self.pings@ }
    }
}

/// The logs as mathematical values.
pub open spec fn entries_of(logs: Seq<PingLog>) -> Seq<PingEntry> {
    Seq::new(logs.len(), |i: int| logs[i]@)
}

/// The place of the first log from `at` on that is kept for `source` and
/// `destination`; the number of logs where there is none.
pub open spec fn log_position(logs: Seq<PingEntry>, source: IpAddr, destination: IpAddr, at: int) -> int
    decreases logs.len() - at,
{
    if at < 0 || at >= logs.len() {
        logs.len() as int
    } else if logs[at].source == source && logs[at].destination == destination {
        at
    } else {
        log_position(logs, source, destination, at + 1)
    }
}

/// The round-trip times with `ping` put first, and the oldest dropped where
/// ten were kept already.
pub open spec fn with_ping(pings: Seq<Duration>, ping: Duration) -> Seq<Duration> {
    if pings.len() == PINGS_KEPT {
        seq![ping] + pings.drop_last()
    } else {
        seq![ping] + pings
    }
}

/// The logs after `ping` is noted for `source` and `destination`: put first
/// in their log, or in a new log after the others.
pub open spec fn logged(logs: Seq<PingEntry>, source: IpAddr, destination: IpAddr, ping: Duration) -> Seq<PingEntry> {
    let at = log_position(logs, source, destination, 0);
    if at < logs.len() {
        logs.update(at, PingEntry { pings: with_ping(logs[at].pings, ping), ..logs[at] })
    } else {
        logs.push(PingEntry { source, destination, pings: seq![ping] })
    }
}

/// What is kept of the traces, as mathematical values.
#[verifier::ext_equal]
pub struct TraceDataState {
    pub options: TraceOptions,
    /// The round-trip times, one log for each source and hop
    pub pings: Seq<PingEntry>,
    /// The flows that were drawn, in their order
    pub flows: Seq<Flowhash>,
    /// The graph of the paths
    pub graph: GraphModel,
}

/// Whether one of `hops` replied.
pub open spec fn any_received(hops: Seq<Hop>) -> bool {
    exists|i: int| 0 <= i < hops.len() && #[trigger] hops[i] is Received
}

impl TraceDataState {
    /// Whether the flows are drawn: they are not where the output is a
    /// graph in dot format.
    pub open spec fn tracks_flows(self) -> bool {
        !self.options.dot
    }

    /// The node that `hop`, found at the hop limit `ttl`, is drawn as.
    pub open spec fn node_for(ttl: u8, hop: Hop) -> Node {
        match hop {
            Hop::Received(replier, _) => Node::Hop(replier),
            Hop::TimedOut => Node::Hidden(ttl),
            Hop::Masked => Node::Masked(ttl),
        }
    }

    /// What is kept after a hop that replied is drawn: its round-trip time
    /// is noted, its node is in the graph, the flow leads to it with the
    /// round-trip time, or with the hop limit where flows are drawn, and the
    /// node before leads to it unless it is that node itself.
    pub open spec fn received(self, source: IpAddr, replier: IpAddr, ping: Duration, ttl: u8, prev: Node, flow: Node) -> Self {
        let node = Node::Hop(replier);
        let timed = self.graph.with_node(node).with_edge(flow, node, Edge::RTT(ping));
        let counted = if self.tracks_flows() {
            timed.with_edge(flow, node, Edge::TTL(ttl))
        } else {
            timed
        };
        let joined = if prev != node {
            counted.with_edge(prev, node, Edge::Connected)
        } else {
            counted
        };
        TraceDataState { pings: logged(self.pings, source, replier, ping), graph: joined, ..self }
    }

    /// What is kept after a hop that did not reply, or was masked, is drawn
    /// as `node`: the flow leads to it with the hop limit where flows are
    /// drawn, and the node before leads to it.
    pub open spec fn silent(self, node: Node, ttl: u8, prev: Node, flow: Node) -> Self {
        let counted = if self.tracks_flows() {
            self.graph.with_edge(flow, node, Edge::TTL(ttl))
        } else {
            self.graph
        };
        TraceDataState { graph: counted.with_edge(prev, node, Edge::Connected), ..self }
    }

    /// What is kept after `hop`, found at the hop limit `ttl`, is drawn.
    pub open spec fn hop_drawn(self, source: IpAddr, ttl: u8, hop: Hop, prev: Node, flow: Node) -> Self {
        match hop {
            Hop::Received(replier, ping) => self.received(source, replier, ping, ttl, prev, flow),
            Hop::TimedOut => self.silent(Node::Hidden(ttl), ttl, prev, flow),
            Hop::Masked => self.silent(Node::Masked(ttl), ttl, prev, flow),
        }
    }

    /// What is kept after `hops` are drawn one after another, the first
    /// found at the hop limit `first_ttl` and each next one hop limit
    /// higher, each led to by the one before and the first by the source;
    /// and the node that the last was drawn as.
    pub open spec fn hops_drawn(self, source: IpAddr, flow: Node, first_ttl: u8, hops: Seq<Hop>) -> (Self, Node)
        decreases hops.len(),
    {
        if hops.len() == 0 {
            (self, Node::Hop(source))
        } else {
            let (before, prev) = self.hops_drawn(source, flow, first_ttl, hops.drop_last());
            let ttl = (first_ttl + hops.len() - 1) as u8;
            (before.hop_drawn(source, ttl, hops.last(), prev, flow), Self::node_for(ttl, hops.last()))
        }
    }

    /// What is kept after a round is drawn. A round in which nothing replied
    /// is not drawn. Where flows are drawn the round's flow is noted and
    /// leads to the source with the hop limit 0.
    pub open spec fn processed(self, source: IpAddr, flowhash: Flowhash, first_ttl: u8, hops: Seq<Hop>) -> Self {
        if !any_received(hops) {
            self
        } else {
            let flow = Node::Flow(flowhash);
            let begun = if self.tracks_flows() {
                TraceDataState {
                    flows: self.flows.push(flowhash),
                    graph: self.graph.with_node(flow).with_edge(flow, Node::Hop(source), Edge::TTL(0)),
                    ..self
                }
            } else {
                self
            };
            begun.hops_drawn(source, flow, first_ttl, hops).0
        }
    }
}

/// What is kept of the traces for showing them: the graph of the paths and
/// the latest round-trip times of each hop.
pub struct TraceData {
    options: TraceOptions,
    pings: Vec<PingLog>,
    flows: Vec<Flowhash>,
    graph: Graph,
}

impl View for TraceData {
    type V = TraceDataState;

    closed spec fn view(&self) -> TraceDataState {
        TraceDataState { options: self.options, pings: entries_of(self.pings@), flows: self.flows@, graph: model_of(self.graph) }
    }
}

fn find_log(logs: &Vec<PingLog>, source: IpAddr, destination: IpAddr) -> (at: usize)
    ensures
        at == log_position(entries_of(logs@), source, destination, 0),
        at <= logs@.len(),
{
    let mut i: usize = 0;
    while i < logs.len()
        invariant
            i <= logs.len(),
            log_position(entries_of(logs@), source, destination, 0) == log_position(entries_of(logs@), source, destination, i as int),
        decreases logs.len() - i,
    {
        if logs[i].source == source && logs[i].destination == destination {
            return i;
        }
        i += 1;
    }
    i
}

impl TraceData {
    /// Nothing kept yet.
    pub fn new(options: TraceOptions) -> (data: Self)
        ensures
            data@ == (TraceDataState { options, pings: Seq::empty(), flows: Seq::empty(), graph: GraphModel::empty() }),
    {
        let data = Self { options, pings: Vec::new(), flows: Vec::new(), graph: new_graph() };
        assert(entries_of(data.pings@) =~= Seq::empty());
        assert(model_of(data.graph) =~~= GraphModel::empty());
        data
    }

    /// Notes a round-trip time between `source` and `destination`: it
    /// becomes the first of their log, of which the latest ten are kept.
    fn add_ping(&mut self, source: IpAddr, destination: IpAddr, ping: Duration)
        ensures
            final(self)@ == (TraceDataState { pings: logged(old(self)@.pings, source, destination, ping), ..old(self)@ }),
    {
        let ghost before = entries_of(self.pings@);
        let at = find_log(&self.pings, source, destination);
        if at < self.pings.len() {
            let mut log = self.pings.remove(at);
            if log.pings.len() == PINGS_KEPT {
                let _ = log.pings.pop();
            }
            log.pings.insert(0, ping);
            assert(log.pings@ =~= with_ping(before[at as int].pings, ping));
            self.pings.insert(at, log);
        } else {
            let mut pings: Vec<Duration> = Vec::new();
            pings.push(ping);
            assert(pings@ =~= seq![ping]);
            self.pings.push(PingLog { source, destination, pings });
        }
        assert(entries_of(self.pings@) =~= logged(before, source, destination, ping));
    }

    /// The latest round-trip times between `source` and `replier`, newest
    /// first, if any was noted.
    pub fn get_pings(&self, source: IpAddr, replier: IpAddr) -> (pings: Option<&Vec<Duration>>)
        ensures
            ({
                let at = log_position(self@.pings, source, replier, 0);
                if at < self@.pings.len() {
                    pings matches Some(found) && found@ == self@.pings[at].pings
                } else {
                    pings is None
                }
            }),
    {
        let at = find_log(&self.pings, source, replier);
        if at < self.pings.len() {
            Some(&self.pings[at].pings)
        } else {
            None
        }
    }

    /// The flows that were drawn, in their order.
    pub fn flows(&self) -> (flows: &Vec<Flowhash>)
        ensures
            flows@ == self@.flows,
    {
        &self.flows
    }

    /// The graph of the paths.
    pub fn graph(&self) -> (graph: &Graph)
        ensures
            model_of(*graph) == self@.graph,
    {
        &self.graph
    }

    /// The options that the traces ran with.
    pub fn options(&self) -> (options: TraceOptions)
        ensures
            options == self@.options,
    {
        self.options
    }

    /// Draws a hop that replied, and returns its node.
    fn handle_received(&mut self, source: IpAddr, replier: IpAddr, ping: Duration, ttl: u8, prev_node: Node, flow_node: Node) -> (node: Node)
        ensures
            node == Node::Hop(replier),
            final(self)@ == old(self)@.received(source, replier, ping, ttl, prev_node, flow_node),
    {
        let track_flows = !self.options.dot;
        self.add_ping(source, replier, ping);
        let new_node = Node::Hop(replier);
        put_node(&mut self.graph, new_node);
        put_edge(&mut self.graph, flow_node, new_node, Edge::RTT(ping));
        if track_flows {
            put_edge(&mut self.graph, flow_node, new_node, Edge::TTL(ttl));
        }
        if prev_node != new_node {
            put_edge(&mut self.graph, prev_node, new_node, Edge::Connected);
        }
        new_node
    }

    /// Draws a hop that did not reply, or was masked, as `node`.
    fn handle_silent(&mut self, node: Node, ttl: u8, prev_node: Node, flow_node: Node)
        ensures
            final(self)@ == old(self)@.silent(node, ttl, prev_node, flow_node),
    {
        let track_flows = !self.options.dot;
        if track_flows {
            put_edge(&mut self.graph, flow_node, node, Edge::TTL(ttl));
        }
        put_edge(&mut self.graph, prev_node, node, Edge::Connected);
    }

    /// Draws the hops of one round of a trace from `source` with the flow
    /// label `flowhash`. The first of `hops` was found at the hop limit
    /// `first_ttl`, each next one hop limit higher, so that the last is
    /// found at no more than 255.
    pub fn process(&mut self, source: IpAddr, flowhash: Flowhash, first_ttl: u8, hops: &Vec<Hop>)
        requires
            first_ttl + hops@.len() <= 256,
        ensures
            final(self)@ == old(self)@.processed(source, flowhash, first_ttl, hops@),
    {
        let track_flows = !self.options.dot;
        let mut replied = false;
        let mut i: usize = 0;
        while i < hops.len()
            invariant
                i <= hops.len(),
                replied <==> exists|j: int| 0 <= j < i && #[trigger] hops@[j] is Received,
            decreases hops.len() - i,
        {
            if let Hop::Received(_, _) = hops[i] {
                replied = true;
                assert(hops@[i as int] is Received);
            }
            i += 1;
        }
        if !replied {
            return ;
        }
        let source_node = Node::Hop(source);
        let flow_node = Node::Flow(flowhash);
        if track_flows {
            self.flows.push(flowhash);
            put_node(&mut self.graph, flow_node);
            put_edge(&mut self.graph, flow_node, source_node, Edge::TTL(0));
        }
        let ghost begun = self@;
        let mut prev_node = source_node;
        let mut k: usize = 0;
        while k < hops.len()
            invariant
                k <= hops.len(),
                first_ttl + hops@.len() <= 256,
                (self@, prev_node) == begun.hops_drawn(source, flow_node, first_ttl, hops@.take(k as int)),
            decreases hops.len() - k,
        {
            let ttl = (first_ttl as usize + k) as u8;
            proof {
                assert(hops@.take(k + 1).drop_last() =~= hops@.take(k as int));
                assert(hops@.take(k + 1).last() == hops@[k as int]);
            }
            prev_node = match hops[k] {
                Hop::Masked => {
                    let new_node = Node::Masked(ttl);
                    self.handle_silent(new_node, ttl, prev_node, flow_node);
                    new_node
                },
                Hop::TimedOut => {
                    let new_node = Node::Hidden(ttl);
                    self.handle_silent(new_node, ttl, prev_node, flow_node);
                    new_node
                },
                Hop::Received(replier, ping) => self.handle_received(source, replier, ping, ttl, prev_node, flow_node),
            };
            k += 1;
        }
        proof {
            assert(hops@.take(hops@.len() as int) =~= hops@);
        }
    }
}

/// A line of the listing of a flow: a hop that replied, its distance, and
/// the latest round-trip times to it, newest first.
#[derive(Debug)]
pub struct Row {
    pub ttl: u8,
    pub replier: IpAddr,
    pub pings: Vec<Duration>,
}

/// A [`Row`] as mathematical values.
pub struct RowView {
    pub ttl: u8,
    pub replier: IpAddr,
    pub pings: Seq<Duration>,
}

impl View for Row {
    type V = RowView;

    open spec fn view(&self) -> RowView {
        RowView { ttl: self.ttl, replier: self.replier, pings: self.pings@ }
    }
}

/// The rows as mathematical values.
pub open spec fn rows_view(rows: Seq<Row>) -> Seq<RowView> {
    Seq::new(rows.len(), |i: int| rows[i]@)
}

/// The edges without those at the end that lead to hidden nodes.
pub open spec fn trimmed(edges: Seq<EdgeTo>) -> Seq<EdgeTo>
    decreases edges.len(),
{
    if edges.len() > 0 && spec_node_of(edges.last().1) matches Some(Node::Hidden(_)) {
        trimmed(edges.drop_last())
    } else {
        edges
    }
}

/// The round-trip times kept between `source` and `replier`, newest first;
/// none where none was noted.
pub open spec fn pings_between(logs: Seq<PingEntry>, source: IpAddr, replier: IpAddr) -> Seq<Duration> {
    let at = log_position(logs, source, replier, 0);
    if at < logs.len() {
        logs[at].pings
    } else {
        Seq::empty()
    }
}

/// One row for each of `edges` that is labelled with a hop limit and leads
/// to a hop, in the order of the edges.
pub open spec fn rows_of(edges: Seq<EdgeTo>, logs: Seq<PingEntry>, source: IpAddr) -> Seq<RowView>
    decreases edges.len(),
{
    if edges.len() == 0 {
        Seq::empty()
    } else {
        let rest = rows_of(edges.drop_last(), logs, source);
        match (spec_node_of(edges.last().1), spec_edge_of(edges.last().0)) {
            (Some(Node::Hop(replier)), Some(Edge::TTL(ttl))) => rest.push(
                RowView { ttl, replier, pings: pings_between(logs, source, replier) },
            ),
            _ => rest,
        }
    }
}

/// The listing that the edges of a flow give, taken in ascending order: the
/// first edge leads to the source; the hidden nodes at the end are left
/// out; each hop reached with a hop limit gets a row. There is no listing
/// where the first edge leads to no hop.
pub open spec fn listed(edges: Seq<EdgeTo>, logs: Seq<PingEntry>) -> Seq<RowView> {
    if edges.len() == 0 {
        Seq::empty()
    } else {
        match spec_node_of(edges[0].1) {
            Some(Node::Hop(source)) => rows_of(trimmed(edges), logs, source),
            _ => Seq::empty(),
        }
    }
}

fn copy_pings(pings: &Vec<Duration>) -> (copy: Vec<Duration>)
    ensures
        copy@ == pings@,
{
    let mut copy: Vec<Duration> = Vec::new();
    let mut i: usize = 0;
    while i < pings.len()
        invariant
            i <= pings.len(),
            copy@ == pings@.take(i as int),
        decreases pings.len() - i,
    {
        copy.push(pings[i]);
        assert(copy@ =~= pings@.take(i + 1));
        i += 1;
    }
    assert(pings@.take(pings@.len() as int) =~= pings@);
    copy
}

impl TraceData {
    /// The listing of the first flow that was drawn: its hops that replied,
    /// nearest first, each with its distance and the latest round-trip times
    /// to it; hidden nodes beyond the last hop that replied are left out.
    /// Empty where no flow was drawn.
    pub fn listing(&self) -> (rows: Vec<Row>)
        ensures
            self@.flows.len() == 0 ==> rows@.len() == 0,
            self@.flows.len() > 0 ==> rows_view(rows@) == listed(
                edges_in_order(self@.graph.edges, node_key(Node::Flow(self@.flows[0]))),
                self@.pings,
            ),
    {
        let mut rows: Vec<Row> = Vec::new();
        if self.flows.len() == 0 {
            return rows;
        }
        let flow = self.flows[0];
        let mut edges = sorted_edges_from(&self.graph, key_of_node(Node::Flow(flow)));
        let ghost sorted = edges@;
        if edges.len() == 0 {
            assert(rows_view(rows@) =~= listed(sorted, self@.pings));
            return rows;
        }
        let source = match node_of(edges[0].1) {
            Some(Node::Hop(ip)) => ip,
            _ => {
                assert(rows_view(rows@) =~= listed(sorted, self@.pings));
                return rows;
            },
        };
        while edges.len() > 0 && is_hidden(edges[edges.len() - 1].1)
            invariant
                trimmed(edges@) == trimmed(sorted),
            decreases edges.len(),
        {
            let _ = edges.pop();
        }
        let mut i: usize = 0;
        while i < edges.len()
            invariant
                i <= edges.len(),
                rows_view(rows@) == rows_of(edges@.take(i as int), self@.pings, source),
            decreases edges.len() - i,
        {
            proof {
                assert(edges@.take(i + 1).drop_last() =~= edges@.take(i as int));
                assert(edges@.take(i + 1).last() == edges@[i as int]);
            }
            let (label, to) = edges[i];
            if let Some(Node::Hop(replier)) = node_of(to) {
                if let Some(Edge::TTL(ttl)) = edge_of(label) {
                    let pings = match self.get_pings(source, replier) {
                        Some(pings) => copy_pings(pings),
                        None => Vec::new(),
                    };
                    let ghost before = rows_view(rows@);
                    rows.push(Row { ttl, replier, pings });
                    assert(rows_view(rows@) =~= before.push(RowView { ttl, replier, pings: pings_between(self@.pings, source, replier) }));
                }
            }
            i += 1;
        }
        proof {
            assert(edges@.take(edges@.len() as int) =~= edges@);
            assert(trimmed(edges@) == edges@);
            assert(rows_view(rows@) == listed(sorted, self@.pings));
            assert(sorted == edges_in_order(self@.graph.edges, node_key(Node::Flow(self@.flows[0]))));
        }
        rows
    }
}

fn is_hidden(key: crate::trace::graph::NodeKey) -> (hidden: bool)
    ensures
        hidden == (spec_node_of(key) matches Some(Node::Hidden(_))),
{
    match node_of(key) {
        Some(Node::Hidden(_)) => true,
        _ => false,
    }
}

} // verus!

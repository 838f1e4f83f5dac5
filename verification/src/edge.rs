//! The labels on the edges of the graph of a trace.

use crate::prelude::Duration;
use std::cmp::Ordering;
use vstd::prelude::*;
use vstd::std_specs::cmp::PartialOrdSpecImpl;

verus! {

/// Edge in the graph.
///
/// Hop limits come before round-trip times, and those before plain
/// connections; two hop limits, or two times, are ordered by their numbers.
#[derive(Clone, Copy, Debug, PartialEq, Eq, Structural, Ord)]
pub enum Edge {
    /// A hop limit: from a flow to the node found at that distance
    TTL(u8),
    /// A round-trip time: from a flow to a node that replied
    RTT(Duration),
    /// From a node to the node found next on the path
    Connected,
}

/// How the edge `a` stands to the edge `b`.
pub open spec fn edge_order(a: Edge, b: Edge) -> Ordering {
    match a {
        Edge::TTL(ttl) => match b {
            Edge::TTL(other) => if ttl < other {
                Ordering::Less
            } else if ttl > other {
                Ordering::Greater
            } else {
                Ordering::Equal
            },
            Edge::RTT(_) | Edge::Connected => Ordering::Less,
        },
        Edge::RTT(duration) => match b {
            Edge::TTL(_) => Ordering::Greater,
            Edge::RTT(other) => if duration < other {
                Ordering::Less
            } else if duration > other {
                Ordering::Greater
            } else {
                Ordering::Equal
            },
            Edge::Connected => Ordering::Less,
        },
        Edge::Connected => match b {
            Edge::TTL(_) | Edge::RTT(_) => Ordering::Greater,
            Edge::Connected => Ordering::Equal,
        },
    }
}

impl Edge {
    /// How the edge stands to `other`: see [`edge_order`].
    pub fn order(&self, other: &Self) -> (order: Ordering)
        ensures
            order == edge_order(*self, *other),
    {
        match self {
            Self::TTL(ttl) => match other {
                Self::TTL(ttl2) => if *ttl < *ttl2 {
                    Ordering::Less
                } else if *ttl > *ttl2 {
                    Ordering::Greater
                } else {
                    Ordering::Equal
                },
                Self::RTT(_) | Self::Connected => Ordering::Less,
            },
            Self::RTT(duration) => match other {
                Self::TTL(_) => Ordering::Greater,
                Self::RTT(duration2) => if *duration < *duration2 {
                    Ordering::Less
                } else if *duration > *duration2 {
                    Ordering::Greater
                } else {
                    Ordering::Equal
                },
                Self::Connected => Ordering::Less,
            },
            Self::Connected => match other {
                Self::TTL(_) | Self::RTT(_) => Ordering::Greater,
                Self::Connected => Ordering::Equal,
            },
        }
    }
}

impl PartialOrd for Edge {
    fn partial_cmp(&self, other: &Self) -> (order: Option<Ordering>) {
        Some(self.order(other))
    }
}

impl PartialOrdSpecImpl for Edge {
    open spec fn obeys_partial_cmp_spec() -> bool {
        true
    }

    open spec fn partial_cmp_spec(&self, other: &Self) -> Option<Ordering> {
        Some(edge_order(*self, *other))
    }
}

} // verus!

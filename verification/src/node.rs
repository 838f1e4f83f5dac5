//! The nodes of the graph of a trace.

use crate::addr::{address_order, IpAddr};
use crate::prelude::{Flowhash, TTL};
use std::cmp::Ordering;
use vstd::prelude::*;
use vstd::std_specs::cmp::PartialOrdSpecImpl;

verus! {

/// Node in the graph.
///
/// Flows come before hops, hops before hidden nodes, and those before
/// masked nodes; two nodes of one kind are ordered by what they hold.
#[derive(Copy, Clone, Debug, PartialEq, Eq, Structural, Hash, Ord)]
pub enum Node {
    /// A flow, by its label
    Flow(Flowhash),
    /// A machine that replied, by its address
    Hop(IpAddr),
    /// A node that did not reply, by its distance
    Hidden(TTL),
    /// A distance that was not probed
    Masked(TTL),
}

/// How the number `a` stands to the number `b`.
pub open spec fn small_order(a: u16, b: u16) -> Ordering {
    if a < b {
        Ordering::Less
    } else if a > b {
        Ordering::Greater
    } else {
        Ordering::Equal
    }
}

/// How the node `a` stands to the node `b`.
pub open spec fn node_order(a: Node, b: Node) -> Ordering {
    match a {
        Node::Flow(flow) => match b {
            Node::Flow(other) => small_order(flow, other),
            Node::Hop(_) | Node::Hidden(_) | Node::Masked(_) => Ordering::Less,
        },
        Node::Hop(ip) => match b {
            Node::Flow(_) => Ordering::Greater,
            Node::Hop(other) => address_order(ip, other),
            Node::Hidden(_) | Node::Masked(_) => Ordering::Less,
        },
        Node::Hidden(ttl) => match b {
            Node::Flow(_) | Node::Hop(_) => Ordering::Greater,
            Node::Hidden(other) => distance_order(ttl, other),
            Node::Masked(_) => Ordering::Less,
        },
        Node::Masked(ttl) => match b {
            Node::Flow(_) | Node::Hop(_) | Node::Hidden(_) => Ordering::Greater,
            Node::Masked(other) => distance_order(ttl, other),
        },
    }
}

/// How the distance `a` stands to the distance `b`.
pub open spec fn distance_order(a: u8, b: u8) -> Ordering {
    if a < b {
        Ordering::Less
    } else if a > b {
        Ordering::Greater
    } else {
        Ordering::Equal
    }
}

fn order_distances(a: u8, b: u8) -> (order: Ordering)
    ensures
        order == distance_order(a, b),
{
    if a < b {
        Ordering::Less
    } else if a > b {
        Ordering::Greater
    } else {
        Ordering::Equal
    }
}

fn order_numbers(a: u16, b: u16) -> (order: Ordering)
    ensures
        order == small_order(a, b),
{
    if a < b {
        Ordering::Less
    } else if a > b {
        Ordering::Greater
    } else {
        Ordering::Equal
    }
}

impl Node {
    /// How the node stands to `other`: see [`node_order`].
    pub fn order(&self, other: &Self) -> (order: Ordering)
        ensures
            order == node_order(*self, *other),
    {
        match self {
            Self::Flow(flow) => match other {
                Self::Flow(flow2) => order_numbers(*flow, *flow2),
                Self::Hop(_) | Self::Hidden(_) | Self::Masked(_) => Ordering::Less,
            },
            Self::Hop(ip) => match other {
                Self::Flow(_) => Ordering::Greater,
                Self::Hop(ip2) => ip.order(ip2),
                Self::Hidden(_) | Self::Masked(_) => Ordering::Less,
            },
            Self::Hidden(ttl) => match other {
                Self::Flow(_) | Self::Hop(_) => Ordering::Greater,
                Self::Hidden(ttl2) => order_distances(*ttl, *ttl2),
                Self::Masked(_) => Ordering::Less,
            },
            Self::Masked(ttl) => match other {
                Self::Flow(_) | Self::Hop(_) | Self::Hidden(_) => Ordering::Greater,
                Self::Masked(ttl2) => order_distances(*ttl, *ttl2),
            },
        }
    }
}

impl PartialOrd for Node {
    fn partial_cmp(&self, other: &Self) -> (order: Option<Ordering>) {
        Some(self.order(other))
    }
}

impl PartialOrdSpecImpl for Node {
    open spec fn obeys_partial_cmp_spec() -> bool {
        true
    }

    open spec fn partial_cmp_spec(&self, other: &Self) -> Option<Ordering> {
        Some(node_order(*self, *other))
    }
}

} // verus!

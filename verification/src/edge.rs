//! Weighted connections between nodes.

use vstd::prelude::*;
use crate::node::Node;

verus! {

/// A directed connection that carries the signal of `source` to
/// `destination`, scaled by `weight`. An edge may lead from a node to
/// itself, and a network may hold the same edge more than once.
#[derive(Debug, PartialEq)]
pub struct Edge<W> {
    pub source: Node,
    pub destination: Node,
    pub weight: W,
}

impl<W> Edge<W> {
    /// The edge from `source` to `destination` with the given weight.
    pub fn new(source: Node, destination: Node, weight: W) -> (edge: Edge<W>)
        ensures
            edge == (Edge { source, destination, weight }),
    {
        Edge { source, destination, weight }
    }
}

} // verus!

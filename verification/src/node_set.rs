//! Sets of nodes.

use vstd::prelude::*;
use std::collections::HashSet;
use crate::node::Node;

verus! {

/// A finite set of nodes, kept by their identifiers.
pub struct NodeSet {
    identifiers: HashSet<usize>,
}

impl View for NodeSet {
    type V = Set<Node>;

    closed spec fn view(&self) -> Set<Node> {
        Set::new(|node: Node| self.identifiers@.contains(node.0))
    }
}

impl NodeSet {
    /// The empty set.
    pub fn new() -> (nodes: NodeSet)
        ensures
            nodes@ == Set::<Node>::empty(),
    {
        let nodes = NodeSet { identifiers: HashSet::new() };
        assert(nodes@ =~= Set::<Node>::empty());
        nodes
    }

    /// Whether `node` is in the set.
    pub fn contains(&self, node: &Node) -> (found: bool)
        ensures
            found == self@.contains(*node),
    {
        broadcast use vstd::std_specs::hash::group_hash_axioms;

        self.identifiers.contains(&node.0)
    }

    /// Puts `node` into the set.
    pub fn insert(&mut self, node: Node)
        ensures
            final(self)@ == old(self)@.insert(node),
    {
        broadcast use vstd::std_specs::hash::group_hash_axioms;

        self.identifiers.insert(node.0);
        assert(self@ =~= old(self)@.insert(node));
    }

    /// Takes `node` out of the set.
    pub fn remove(&mut self, node: &Node)
        ensures
            final(self)@ == old(self)@.remove(*node),
    {
        broadcast use vstd::std_specs::hash::group_hash_axioms;

        self.identifiers.remove(&node.0);
        assert(self@ =~= old(self)@.remove(*node));
    }
}

} // verus!

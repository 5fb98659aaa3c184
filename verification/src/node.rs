//! Node identities.

use vstd::prelude::*;

verus! {

/// The identity of a neuron. A node carries nothing but its identifier, and
/// two nodes are equal exactly when their identifiers are.
#[derive(PartialEq, Eq, Hash, Debug, Copy, Clone, Structural)]
pub struct Node(pub usize);

/// Draws an identifier with `rand::random::<usize>()`, which samples the
/// thread-local generator. Nothing is claimed of the value drawn.
#[verifier::external_body]
fn random_identifier() -> usize {
    rand::random::<usize>()
}

impl Node {
    /// The node with the given identifier.
    pub fn new(index: usize) -> (node: Node)
        ensures
            node == Node(index),
    {
        Node(index)
    }

    /// A node with an identifier drawn at random. Two nodes made this way
    /// are distinct only with overwhelming probability.
    pub fn random() -> Node {
        Node::new(random_identifier())
    }

    /// The identifier of this node.
    pub fn index(&self) -> (index: usize)
        ensures
            index == self.0,
    {
        self.0
    }
}

/// `count` nodes, each with an identifier drawn at random.
pub fn nodes(count: usize) -> (fresh: Vec<Node>)
    ensures
        fresh.len() == count,
{
    let mut fresh: Vec<Node> = Vec::new();
    while fresh.len() < count
        invariant
            fresh.len() <= count,
        decreases count - fresh.len(),
    {
        fresh.push(Node::random());
    }
    fresh
}

} // verus!

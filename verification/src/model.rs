//! What a network is and what evaluating it means.
//!
//! Everything here is ghost code: the network as mathematics, and for each
//! node the expression that resolving it yields.

use vstd::prelude::*;
use crate::edge::Edge;
use crate::expr::Expr;
use crate::node::Node;

verus! {

/// A network as mathematics: its sensors and outputs in order, and its
/// edges in the order in which they are summed.
pub struct NetworkView<W> {
    pub sensors: Seq<Node>,
    pub outputs: Seq<Node>,
    pub edges: Seq<Edge<W>>,
}

/// The first position at which `node` stands in `nodes`.
pub open spec fn position(nodes: Seq<Node>, node: Node) -> int {
    choose|i: int|
        0 <= i < nodes.len() && nodes[i] == node && forall|j: int| 0 <= j < i ==> nodes[j] != node
}

/// The sources and weights of those of `edges` that enter `node`, in order.
pub open spec fn fan_in_of<W>(edges: Seq<Edge<W>>, node: Node) -> Seq<(Node, W)> {
    edges.filter(|edge: Edge<W>| edge.destination == node).map_values(
        |edge: Edge<W>| (edge.source, edge.weight),
    )
}

impl<W> NetworkView<W> {
    /// The nodes that some edge leaves.
    pub open spec fn sources(self) -> Set<Node> {
        self.edges.map_values(|edge: Edge<W>| edge.source).to_set()
    }

    /// Whether `node` takes its value straight from the inputs.
    pub open spec fn is_sensor(self, node: Node) -> bool {
        self.sensors.contains(node)
    }

    /// Whether `node` is one of the declared outputs.
    pub open spec fn is_output(self, node: Node) -> bool {
        self.outputs.contains(node)
    }

    /// Whether `node` is neither a sensor nor an output.
    pub open spec fn is_hidden(self, node: Node) -> bool {
        !self.is_sensor(node) && !self.is_output(node)
    }

    /// The value of `node` while the nodes in `active` are being resolved.
    ///
    /// A node that is itself being resolved closes a cycle: it takes its
    /// previous activation, or zero where none is on record. A sensor takes
    /// its input. Any other node takes the weighted sum over the edges that
    /// enter it, squashed unless the node is an output.
    pub open spec fn value_of(
        self,
        node: Node,
        active: Set<Node>,
        inputs: Seq<W>,
        previous: Map<Node, W>,
    ) -> Expr<W>
        decreases self.sources().insert(node).difference(active).len(), 0nat, 0nat,
    {
        if active.contains(node) {
            if previous.contains_key(node) {
                Expr::Number(previous[node])
            } else {
                Expr::Zero
            }
        } else if self.is_sensor(node) {
            Expr::Number(inputs[position(self.sensors, node)])
        } else {
            proof {
                lemma_marking_shrinks(self.sources(), active, node);
            }
            let total = self.total_of(
                node,
                active.insert(node),
                inputs,
                previous,
                self.edges.len(),
            );
            if self.is_output(node) {
                total
            } else {
                Expr::Squashed(Box::new(total))
            }
        }
    }

    /// The weighted sum over those of the first `count` edges that enter
    /// `node`, taken in order from zero. `active` already holds `node`.
    pub open spec fn total_of(
        self,
        node: Node,
        active: Set<Node>,
        inputs: Seq<W>,
        previous: Map<Node, W>,
        count: nat,
    ) -> Expr<W>
        decreases self.sources().difference(active).len(), 1nat, count,
    {
        if count == 0 {
            Expr::Zero
        } else {
            let edge = self.edges[count - 1];
            let total = self.total_of(node, active, inputs, previous, (count - 1) as nat);
            if count <= self.edges.len() && edge.destination == node {
                proof {
                    lemma_source_is_counted(self, count - 1);
                }
                let signal = self.value_of(edge.source, active, inputs, previous);
                Expr::Sum(Box::new(total), Box::new(Expr::Scaled(edge.weight, Box::new(signal))))
            } else {
                total
            }
        }
    }

    /// The sources and weights of the edges that enter `node`, in order.
    pub open spec fn fan_in(self, node: Node) -> Seq<(Node, W)> {
        fan_in_of(self.edges, node)
    }

    /// The sum, taken in order from zero, of each of `terms`: its weight
    /// times the value of its node while the nodes in `active` are being
    /// resolved.
    pub open spec fn sum_of(
        self,
        terms: Seq<(Node, W)>,
        active: Set<Node>,
        inputs: Seq<W>,
        previous: Map<Node, W>,
    ) -> Expr<W> {
        terms.fold_left(
            Expr::Zero,
            |total: Expr<W>, term: (Node, W)|
                Expr::Sum(
                    Box::new(total),
                    Box::new(
                        Expr::Scaled(
                            term.1,
                            Box::new(self.value_of(term.0, active, inputs, previous)),
                        ),
                    ),
                ),
        )
    }

    /// The value of every output, each resolved with no node active.
    pub open spec fn output_values(self, inputs: Seq<W>, previous: Map<Node, W>) -> Seq<Expr<W>> {
        Seq::new(
            self.outputs.len(),
            |i: int| self.value_of(self.outputs[i], Set::empty(), inputs, previous),
        )
    }

    /// The activations on record once `node` has been resolved while the
    /// nodes in `active` were, starting from `recorded`.
    ///
    /// Resolving a hidden node records its value, in place of what was on
    /// record for it, after the nodes that feed it have been resolved.
    /// Closing a cycle, reading a sensor and summing an output record
    /// nothing of their own.
    pub open spec fn recorded_by_value(
        self,
        node: Node,
        active: Set<Node>,
        inputs: Seq<W>,
        previous: Map<Node, W>,
        recorded: Map<Node, Expr<W>>,
    ) -> Map<Node, Expr<W>>
        decreases self.sources().insert(node).difference(active).len(), 0nat, 0nat,
    {
        if active.contains(node) || self.is_sensor(node) {
            recorded
        } else {
            proof {
                lemma_marking_shrinks(self.sources(), active, node);
            }
            let fed = self.recorded_by_total(
                node,
                active.insert(node),
                inputs,
                previous,
                recorded,
                self.edges.len(),
            );
            if self.is_output(node) {
                fed
            } else {
                fed.insert(node, self.value_of(node, active, inputs, previous))
            }
        }
    }

    /// The activations on record once the sources of those of the first
    /// `count` edges that enter `node` have been resolved in order.
    pub open spec fn recorded_by_total(
        self,
        node: Node,
        active: Set<Node>,
        inputs: Seq<W>,
        previous: Map<Node, W>,
        recorded: Map<Node, Expr<W>>,
        count: nat,
    ) -> Map<Node, Expr<W>>
        decreases self.sources().difference(active).len(), 1nat, count,
    {
        if count == 0 {
            recorded
        } else {
            let edge = self.edges[count - 1];
            let before = self.recorded_by_total(
                node,
                active,
                inputs,
                previous,
                recorded,
                (count - 1) as nat,
            );
            if count <= self.edges.len() && edge.destination == node {
                proof {
                    lemma_source_is_counted(self, count - 1);
                }
                self.recorded_by_value(edge.source, active, inputs, previous, before)
            } else {
                before
            }
        }
    }

    /// The activations on record once the first `count` outputs have been
    /// resolved in order, starting with nothing on record.
    pub open spec fn recorded_by_outputs(
        self,
        inputs: Seq<W>,
        previous: Map<Node, W>,
        count: nat,
    ) -> Map<Node, Expr<W>>
        decreases count,
    {
        if count == 0 {
            Map::empty()
        } else {
            let before = self.recorded_by_outputs(inputs, previous, (count - 1) as nat);
            if count <= self.outputs.len() {
                self.recorded_by_value(
                    self.outputs[count - 1],
                    Set::empty(),
                    inputs,
                    previous,
                    before,
                )
            } else {
                before
            }
        }
    }

    /// The activations that evaluating the whole network leaves on record.
    pub open spec fn activations(self, inputs: Seq<W>, previous: Map<Node, W>) -> Map<
        Node,
        Expr<W>,
    > {
        self.recorded_by_outputs(inputs, previous, self.outputs.len())
    }
}

/// Marking a node that was not marked leaves fewer nodes to resolve.
pub proof fn lemma_marking_shrinks(sources: Set<Node>, active: Set<Node>, node: Node)
    requires
        sources.finite(),
        !active.contains(node),
    ensures
        sources.difference(active.insert(node)).len() < sources.insert(node).difference(
            active,
        ).len(),
{
    let rest = sources.difference(active.insert(node));
    assert(sources.insert(node).difference(active) =~= rest.insert(node));
}

/// The source of every edge is among the sources, and they are finitely
/// many.
pub proof fn lemma_source_is_counted<W>(network: NetworkView<W>, index: int)
    requires
        0 <= index < network.edges.len(),
    ensures
        network.sources().finite(),
        network.sources().contains(network.edges[index].source),
        network.sources().insert(network.edges[index].source) == network.sources(),
{
    let sources = network.edges.map_values(|edge: Edge<W>| edge.source);
    vstd::seq_lib::seq_to_set_is_finite(sources);
    assert(sources[index] == network.edges[index].source);
    assert(network.sources().insert(network.edges[index].source) =~= network.sources());
}

} // verus!

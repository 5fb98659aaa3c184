//! Networks and their evaluation.

use vstd::prelude::*;
use crate::activations::Activations;
use crate::arithmetic::Arithmetic;
use crate::edge::Edge;
use crate::expr::Expr;
use crate::model::{lemma_marking_shrinks, lemma_source_is_counted, position, NetworkView};
use crate::node::Node;
use crate::node_set::NodeSet;

verus! {

/// A network of neurons: the sensors that take the inputs, the outputs that
/// give the results, and the edges between nodes. A node that some edge
/// names and that is neither a sensor nor an output is a hidden node.
///
/// Nothing is checked when a network is made. An edge may name a node
/// that nothing feeds, and a node may be sensor and output at once; such a
/// network evaluates by the same rules as any other, by which a node that
/// is both takes its input as any sensor does, and a sensor named twice
/// takes the input of its first position.
pub struct Network<W> {
    sensors: Vec<Node>,
    outputs: Vec<Node>,
    edges: Vec<Edge<W>>,
}

impl<W> View for Network<W> {
    type V = NetworkView<W>;

    closed spec fn view(&self) -> NetworkView<W> {
        NetworkView { sensors: self.sensors@, outputs: self.outputs@, edges: self.edges@ }
    }
}

/// Why an evaluation was refused.
#[derive(Debug, PartialEq, Eq, Clone, Copy)]
pub enum EvalError {
    /// The network has `expected` sensors and was handed `found` inputs.
    InputLengthMismatch { expected: usize, found: usize },
}

/// The first position of `node` in `nodes`, if it is there at all.
fn first_position(nodes: &Vec<Node>, node: Node) -> (found: Option<usize>)
    ensures
        match found {
            Some(index) => {
                &&& index < nodes.len()
                &&& nodes@[index as int] == node
                &&& index == position(nodes@, node)
            },
            None => !nodes@.contains(node),
        },
{
    let mut index: usize = 0;
    while index < nodes.len()
        invariant
            index <= nodes.len(),
            forall|j: int| 0 <= j < index ==> nodes@[j] != node,
        decreases nodes.len() - index,
    {
        if nodes[index] == node {
            return Some(index);
        }
        index += 1;
    }
    None
}

impl<W: Copy> Network<W> {
    /// The network with the given sensors, outputs and edges.
    pub fn new(sensors: Vec<Node>, outputs: Vec<Node>, edges: Vec<Edge<W>>) -> (network: Network<W>)
        ensures
            network@ == (NetworkView { sensors: sensors@, outputs: outputs@, edges: edges@ }),
    {
        Network { sensors, outputs, edges }
    }

    /// The sensors, in the order of the inputs.
    pub fn sensors(&self) -> (sensors: &Vec<Node>)
        ensures
            sensors@ == self@.sensors,
    {
        &self.sensors
    }

    /// The outputs, in the order of the results.
    pub fn outputs(&self) -> (outputs: &Vec<Node>)
        ensures
            outputs@ == self@.outputs,
    {
        &self.outputs
    }

    /// The edges, in the order in which they are summed.
    pub fn edges(&self) -> (edges: &Vec<Edge<W>>)
        ensures
            edges@ == self@.edges,
    {
        &self.edges
    }

    /// Evaluates the network for one time step.
    ///
    /// `inputs` holds one number for each sensor, and `previous_activations`
    /// what the step before left on record. The result holds the value of
    /// each output, in order, and the activations that this step leaves on
    /// record: the value of every hidden node that was resolved. Each is a
    /// number that `arithmetic` makes of the expression that
    /// [`Network::resolve`] gives.
    ///
    /// A number of inputs other than the number of sensors is refused
    /// before anything is evaluated.
    pub fn eval<A, M, S>(
        &self,
        inputs: &Vec<W>,
        previous_activations: &Activations<W>,
        arithmetic: &Arithmetic<W, A, M, S>,
    ) -> (result: Result<(Vec<W>, Activations<W>), EvalError>) where
        A: Fn(W, W) -> W,
        M: Fn(W, W) -> W,
        S: Fn(W) -> W,

        requires
            arithmetic.is_total(),
        ensures
            match result {
                Ok((outputs, activations)) => {
                    let values = self@.output_values(inputs@, previous_activations@);
                    let recorded = self@.activations(inputs@, previous_activations@);
                    &&& inputs.len() == self@.sensors.len()
                    &&& outputs.len() == self@.outputs.len()
                    &&& forall|i: int|
                        0 <= i < outputs.len() ==> values[i].evaluates_to(
                            arithmetic@,
                            #[trigger] outputs@[i],
                        )
                    &&& activations@.dom() == recorded.dom()
                    &&& forall|node: Node|
                        recorded.contains_key(node) ==> recorded[node].evaluates_to(
                            arithmetic@,
                            #[trigger] activations@[node],
                        )
                },
                Err(error) => {
                    &&& inputs.len() != self@.sensors.len()
                    &&& error == (EvalError::InputLengthMismatch {
                        expected: self@.sensors.len() as usize,
                        found: inputs.len(),
                    })
                },
            },
    {
        match self.resolve(inputs, previous_activations) {
            Ok((values, recorded)) => {
                let mut outputs: Vec<W> = Vec::new();
                let mut index: usize = 0;
                while index < values.len()
                    invariant
                        index <= values.len(),
                        arithmetic.is_total(),
                        outputs.len() == index,
                        forall|i: int|
                            0 <= i < index ==> values@[i].evaluates_to(
                                arithmetic@,
                                #[trigger] outputs@[i],
                            ),
                    decreases values.len() - index,
                {
                    outputs.push(values[index].compute(arithmetic));
                    index += 1;
                }
                Ok((outputs, recorded.compute(arithmetic)))
            },
            Err(error) => Err(error),
        }
    }

    /// Resolves the network for one time step without doing any
    /// arithmetic.
    ///
    /// The result holds, for each output in order and for every hidden node
    /// that was resolved, the expression of its value: the sums, products
    /// and squashings that give it, over the inputs and the previous
    /// activations.
    pub fn resolve(&self, inputs: &Vec<W>, previous_activations: &Activations<W>) -> (result:
        Result<(Vec<Expr<W>>, Activations<Expr<W>>), EvalError>)
        ensures
            match result {
                Ok((outputs, activations)) => {
                    &&& inputs.len() == self@.sensors.len()
                    &&& outputs@ == self@.output_values(inputs@, previous_activations@)
                    &&& activations@ == self@.activations(inputs@, previous_activations@)
                },
                Err(error) => {
                    &&& inputs.len() != self@.sensors.len()
                    &&& error == (EvalError::InputLengthMismatch {
                        expected: self@.sensors.len() as usize,
                        found: inputs.len(),
                    })
                },
            },
    {
        if inputs.len() != self.sensors.len() {
            return Err(
                EvalError::InputLengthMismatch { expected: self.sensors.len(), found: inputs.len() },
            );
        }
        let mut currently_calculating = NodeSet::new();
        let mut these_activations: Activations<Expr<W>> = Activations::new();
        let mut outputs: Vec<Expr<W>> = Vec::new();
        let mut index: usize = 0;
        while index < self.outputs.len()
            invariant
                index <= self.outputs.len(),
                inputs.len() == self@.sensors.len(),
                currently_calculating@ == Set::<Node>::empty(),
                outputs.len() == index,
                forall|i: int|
                    0 <= i < index ==> outputs@[i] == self@.value_of(
                        self@.outputs[i],
                        Set::empty(),
                        inputs@,
                        previous_activations@,
                    ),
                these_activations@ == self@.recorded_by_outputs(
                    inputs@,
                    previous_activations@,
                    index as nat,
                ),
            decreases self.outputs.len() - index,
        {
            let value = self.get_value(
                self.outputs[index],
                inputs,
                previous_activations,
                &mut these_activations,
                &mut currently_calculating,
            );
            outputs.push(value);
            index += 1;
        }
        assert(outputs@ =~= self@.output_values(inputs@, previous_activations@));
        Ok((outputs, these_activations))
    }

    /// Resolves `node` while the nodes in `currently_calculating` are being
    /// resolved, and records in `these_activations` the value of every
    /// hidden node resolved on the way.
    fn get_value(
        &self,
        node: Node,
        inputs: &Vec<W>,
        previous_activations: &Activations<W>,
        these_activations: &mut Activations<Expr<W>>,
        currently_calculating: &mut NodeSet,
    ) -> (value: Expr<W>)
        requires
            inputs.len() == self@.sensors.len(),
        ensures
            value == self@.value_of(
                node,
                old(currently_calculating)@,
                inputs@,
                previous_activations@,
            ),
            final(currently_calculating)@ == old(currently_calculating)@,
            final(these_activations)@ == self@.recorded_by_value(
                node,
                old(currently_calculating)@,
                inputs@,
                previous_activations@,
                old(these_activations)@,
            ),
        decreases self@.sources().insert(node).difference(old(currently_calculating)@).len(),
    {
        if currently_calculating.contains(&node) {
            return match previous_activations.get(&node) {
                Some(activation) => Expr::Number(*activation),
                None => Expr::Zero,
            };
        }
        if let Some(index) = first_position(&self.sensors, node) {
            return Expr::Number(inputs[index]);
        }
        currently_calculating.insert(node);
        let mut total_input: Expr<W> = Expr::Zero;
        let mut index: usize = 0;
        while index < self.edges.len()
            invariant
                index <= self.edges.len(),
                inputs.len() == self@.sensors.len(),
                !old(currently_calculating)@.contains(node),
                currently_calculating@ == old(currently_calculating)@.insert(node),
                total_input == self@.total_of(
                    node,
                    currently_calculating@,
                    inputs@,
                    previous_activations@,
                    index as nat,
                ),
                these_activations@ == self@.recorded_by_total(
                    node,
                    currently_calculating@,
                    inputs@,
                    previous_activations@,
                    old(these_activations)@,
                    index as nat,
                ),
            decreases self.edges.len() - index,
        {
            let edge = &self.edges[index];
            if edge.destination == node {
                proof {
                    lemma_source_is_counted(self@, index as int);
                    lemma_marking_shrinks(self@.sources(), old(currently_calculating)@, node);
                }
                let signal = self.get_value(
                    edge.source,
                    inputs,
                    previous_activations,
                    these_activations,
                    currently_calculating,
                );
                total_input = Expr::Sum(
                    Box::new(total_input),
                    Box::new(Expr::Scaled(edge.weight, Box::new(signal))),
                );
            }
            index += 1;
        }
        currently_calculating.remove(&node);
        assert(currently_calculating@ =~= old(currently_calculating)@);
        if first_position(&self.outputs, node).is_some() {
            total_input
        } else {
            let result = Expr::Squashed(Box::new(total_input));
            these_activations.insert(node, result.clone());
            result
        }
    }
}

} // verus!

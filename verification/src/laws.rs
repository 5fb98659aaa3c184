//! Laws of evaluation, proved of every network.

use vstd::prelude::*;
use crate::arithmetic::ArithmeticView;
use crate::edge::Edge;
use crate::expr::Expr;
use crate::genome::{Gene, GenomeView};
use crate::model::{fan_in_of, lemma_marking_shrinks, lemma_source_is_counted, position, NetworkView};
use crate::node::Node;

verus! {

/// A node met while it is being resolved takes its previous activation,
/// and zero where none is on record, whatever the network feeds it.
pub proof fn lemma_cycle_takes_previous_activation<W>(
    network: NetworkView<W>,
    node: Node,
    active: Set<Node>,
    inputs: Seq<W>,
    previous: Map<Node, W>,
)
    requires
        active.contains(node),
    ensures
        previous.contains_key(node) ==> network.value_of(node, active, inputs, previous)
            == Expr::Number(previous[node]),
        !previous.contains_key(node) ==> network.value_of(node, active, inputs, previous)
            == Expr::<W>::Zero,
{
}

/// A sensor that is not being resolved takes the input at its first
/// position among the sensors, unsquashed, whatever edges enter it.
pub proof fn lemma_sensor_takes_its_input<W>(
    network: NetworkView<W>,
    index: int,
    active: Set<Node>,
    inputs: Seq<W>,
    previous: Map<Node, W>,
)
    requires
        0 <= index < network.sensors.len(),
        forall|j: int| 0 <= j < index ==> network.sensors[j] != network.sensors[index],
        !active.contains(network.sensors[index]),
    ensures
        network.value_of(network.sensors[index], active, inputs, previous) == Expr::Number(
            inputs[index],
        ),
{
    assert(position(network.sensors, network.sensors[index]) == index);
}

/// In a network of one sensor, one output and one edge from the one to the
/// other, the output is zero plus the weight times the input, and nothing
/// is recorded.
pub proof fn lemma_direct_pass_through<W>(
    network: NetworkView<W>,
    sensor: Node,
    output: Node,
    weight: W,
    input: W,
    previous: Map<Node, W>,
)
    requires
        sensor != output,
        network.sensors == seq![sensor],
        network.outputs == seq![output],
        network.edges == seq![Edge { source: sensor, destination: output, weight }],
    ensures
        network.output_values(seq![input], previous) == seq![
            Expr::Sum(
                Box::new(Expr::Zero),
                Box::new(Expr::Scaled(weight, Box::new(Expr::Number(input)))),
            ),
        ],
        network.activations(seq![input], previous) == Map::<Node, Expr<W>>::empty(),
{
    let inputs = seq![input];
    let active = Set::<Node>::empty().insert(output);
    assert(network.sensors[0] == sensor);
    assert(network.total_of(output, active, inputs, previous, 0) == Expr::<W>::Zero);
    let nothing = Map::<Node, Expr<W>>::empty();
    assert(network.recorded_by_outputs(inputs, previous, 0) == nothing);
    assert(network.recorded_by_value(sensor, active, inputs, previous, nothing) == nothing);
    assert(network.recorded_by_total(output, active, inputs, previous, nothing, 0) == nothing);
}

/// In such a network the output comes to zero plus the product of the
/// weight and the input, under any arithmetic.
pub proof fn lemma_direct_pass_through_number<W>(
    network: NetworkView<W>,
    sensor: Node,
    output: Node,
    weight: W,
    input: W,
    previous: Map<Node, W>,
    arithmetic: ArithmeticView<W>,
    value: W,
)
    requires
        sensor != output,
        network.sensors == seq![sensor],
        network.outputs == seq![output],
        network.edges == seq![Edge { source: sensor, destination: output, weight }],
        network.output_values(seq![input], previous)[0].evaluates_to(arithmetic, value),
    ensures
        exists|product: W| #[trigger]
            (arithmetic.times)(weight, input, product) && (arithmetic.plus)(
                arithmetic.zero,
                product,
                value,
            ),
{
    lemma_direct_pass_through(network, sensor, output, weight, input, previous);
    reveal_with_fuel(Expr::evaluates_to, 3);
}

/// The total of a node is the sum over its fan-in: over the edges that
/// enter it, in order, of the weight times the value of the source.
pub proof fn lemma_total_is_sum_over_fan_in<W>(
    network: NetworkView<W>,
    node: Node,
    active: Set<Node>,
    inputs: Seq<W>,
    previous: Map<Node, W>,
)
    ensures
        network.total_of(node, active, inputs, previous, network.edges.len()) == network.sum_of(
            network.fan_in(node),
            active,
            inputs,
            previous,
        ),
{
    lemma_total_is_sum_over_prefix(network, node, active, inputs, previous, network.edges.len());
    assert(network.edges.take(network.edges.len() as int) =~= network.edges);
}

/// A node that is neither being resolved nor a sensor takes the sum over
/// its fan-in, resolved with the node itself active: as it stands if the
/// node is an output, squashed if it is hidden.
pub proof fn lemma_node_takes_its_weighted_sum<W>(
    network: NetworkView<W>,
    node: Node,
    active: Set<Node>,
    inputs: Seq<W>,
    previous: Map<Node, W>,
)
    requires
        !active.contains(node),
        !network.is_sensor(node),
    ensures
        ({
            let total = network.sum_of(
                network.fan_in(node),
                active.insert(node),
                inputs,
                previous,
            );
            network.value_of(node, active, inputs, previous) == if network.is_output(node) {
                total
            } else {
                Expr::Squashed(Box::new(total))
            }
        }),
{
    lemma_total_is_sum_over_fan_in(network, node, active.insert(node), inputs, previous);
}

/// The total over the first `count` edges is the sum over the fan-in
/// among those edges.
proof fn lemma_total_is_sum_over_prefix<W>(
    network: NetworkView<W>,
    node: Node,
    active: Set<Node>,
    inputs: Seq<W>,
    previous: Map<Node, W>,
    count: nat,
)
    requires
        count <= network.edges.len(),
    ensures
        network.total_of(node, active, inputs, previous, count) == network.sum_of(
            fan_in_of(network.edges.take(count as int), node),
            active,
            inputs,
            previous,
        ),
    decreases count,
{
    let enters = |edge: Edge<W>| edge.destination == node;
    let term = |edge: Edge<W>| (edge.source, edge.weight);
    if count == 0 {
        assert(network.edges.take(0).filter(enters) =~= Seq::<Edge<W>>::empty()) by {
            reveal(Seq::filter);
        }
        assert(fan_in_of(network.edges.take(0), node) =~= Seq::<(Node, W)>::empty());
    } else {
        let seen = network.edges.take(count - 1);
        let edge = network.edges[count - 1];
        lemma_total_is_sum_over_prefix(network, node, active, inputs, previous, (count - 1) as nat);
        network.edges.lemma_take_succ_push(count - 1);
        seen.lemma_filter_push(edge, enters);
        seen.filter(enters).lemma_push_map_commute(term, edge);
        if edge.destination == node {
            let terms = fan_in_of(seen, node);
            assert(fan_in_of(network.edges.take(count as int), node) == terms.push(term(edge)));
            assert(terms.push(term(edge)).drop_last() =~= terms);
        }
    }
}

/// Whether a node that feeds nothing is being resolved makes no difference
/// to the value of any other node.
pub proof fn lemma_marking_a_sink_changes_no_value<W>(
    network: NetworkView<W>,
    sink: Node,
    node: Node,
    active: Set<Node>,
    inputs: Seq<W>,
    previous: Map<Node, W>,
)
    requires
        !network.sources().contains(sink),
        node != sink,
    ensures
        network.value_of(node, active.insert(sink), inputs, previous) == network.value_of(
            node,
            active,
            inputs,
            previous,
        ),
    decreases network.sources().insert(node).difference(active).len(), 0nat, 0nat,
{
    if !active.contains(node) && !network.is_sensor(node) {
        lemma_marking_shrinks(network.sources(), active, node);
        assert(active.insert(sink).insert(node) =~= active.insert(node).insert(sink));
        lemma_marking_a_sink_changes_no_total(
            network,
            sink,
            node,
            active.insert(node),
            inputs,
            previous,
            network.edges.len(),
        );
    }
}

/// Whether a node that feeds nothing is being resolved makes no difference
/// to the total of any node.
pub proof fn lemma_marking_a_sink_changes_no_total<W>(
    network: NetworkView<W>,
    sink: Node,
    node: Node,
    active: Set<Node>,
    inputs: Seq<W>,
    previous: Map<Node, W>,
    count: nat,
)
    requires
        !network.sources().contains(sink),
    ensures
        network.total_of(node, active.insert(sink), inputs, previous, count) == network.total_of(
            node,
            active,
            inputs,
            previous,
            count,
        ),
    decreases network.sources().difference(active).len(), 1nat, count,
{
    if count > 0 {
        lemma_marking_a_sink_changes_no_total(
            network,
            sink,
            node,
            active,
            inputs,
            previous,
            (count - 1) as nat,
        );
        if count <= network.edges.len() && network.edges[count - 1].destination == node {
            lemma_source_is_counted(network, count - 1);
            lemma_marking_a_sink_changes_no_value(
                network,
                sink,
                network.edges[count - 1].source,
                active,
                inputs,
                previous,
            );
        }
    }
}

/// Two nodes that feed nothing and are fed alike have the same value: if
/// neither is a sensor, both are outputs or both are hidden, and the edges
/// that enter the one carry, in order, the same weights from the same
/// sources as the edges that enter the other.
pub proof fn lemma_nodes_fed_alike_agree<W>(
    network: NetworkView<W>,
    first: Node,
    second: Node,
    inputs: Seq<W>,
    previous: Map<Node, W>,
)
    requires
        !network.sources().contains(first),
        !network.sources().contains(second),
        !network.is_sensor(first),
        !network.is_sensor(second),
        network.is_output(first) == network.is_output(second),
        network.fan_in(first) == network.fan_in(second),
    ensures
        network.value_of(first, Set::empty(), inputs, previous) == network.value_of(
            second,
            Set::empty(),
            inputs,
            previous,
        ),
{
    let nothing = Set::<Node>::empty();
    let count = network.edges.len();
    lemma_marking_a_sink_changes_no_total(network, first, first, nothing, inputs, previous, count);
    lemma_marking_a_sink_changes_no_total(network, second, second, nothing, inputs, previous, count);
    lemma_total_is_sum_over_fan_in(network, first, nothing, inputs, previous);
    lemma_total_is_sum_over_fan_in(network, second, nothing, inputs, previous);
}

/// Two outputs that feed nothing and are fed alike are resolved to the
/// same expression.
pub proof fn lemma_outputs_fed_alike_agree<W>(
    network: NetworkView<W>,
    first: int,
    second: int,
    inputs: Seq<W>,
    previous: Map<Node, W>,
)
    requires
        0 <= first < network.outputs.len(),
        0 <= second < network.outputs.len(),
        !network.sources().contains(network.outputs[first]),
        !network.sources().contains(network.outputs[second]),
        !network.is_sensor(network.outputs[first]),
        !network.is_sensor(network.outputs[second]),
        network.fan_in(network.outputs[first]) == network.fan_in(network.outputs[second]),
    ensures
        network.output_values(inputs, previous)[first] == network.output_values(
            inputs,
            previous,
        )[second],
{
    assert(network.is_output(network.outputs[first]));
    assert(network.is_output(network.outputs[second]));
    lemma_nodes_fed_alike_agree(
        network,
        network.outputs[first],
        network.outputs[second],
        inputs,
        previous,
    );
}

/// Two outputs that feed nothing and are fed alike come to the same
/// number, under any arithmetic whose functions have one result only.
pub proof fn lemma_outputs_fed_alike_get_one_number<W>(
    network: NetworkView<W>,
    first: int,
    second: int,
    inputs: Seq<W>,
    previous: Map<Node, W>,
    arithmetic: ArithmeticView<W>,
    one: W,
    other: W,
)
    requires
        0 <= first < network.outputs.len(),
        0 <= second < network.outputs.len(),
        !network.sources().contains(network.outputs[first]),
        !network.sources().contains(network.outputs[second]),
        !network.is_sensor(network.outputs[first]),
        !network.is_sensor(network.outputs[second]),
        network.fan_in(network.outputs[first]) == network.fan_in(network.outputs[second]),
        arithmetic.is_deterministic(),
        network.output_values(inputs, previous)[first].evaluates_to(arithmetic, one),
        network.output_values(inputs, previous)[second].evaluates_to(arithmetic, other),
    ensures
        one == other,
{
    lemma_outputs_fed_alike_agree(network, first, second, inputs, previous);
    lemma_deterministic_arithmetic_gives_one_number(
        network.output_values(inputs, previous)[first],
        arithmetic,
        one,
        other,
    );
}

/// Whether `after` holds a record for every node that `before` holds one
/// for, and besides those for hidden nodes of `network` only.
pub open spec fn adds_hidden_records<W>(
    network: NetworkView<W>,
    before: Map<Node, Expr<W>>,
    after: Map<Node, Expr<W>>,
) -> bool {
    &&& forall|node: Node| before.contains_key(node) ==> after.contains_key(node)
    &&& forall|node: Node|
        after.contains_key(node) ==> before.contains_key(node) || network.is_hidden(node)
}

/// Resolving a node keeps a record for every node that had one, and adds
/// records of hidden nodes only.
pub proof fn lemma_value_records_only_hidden<W>(
    network: NetworkView<W>,
    node: Node,
    active: Set<Node>,
    inputs: Seq<W>,
    previous: Map<Node, W>,
    recorded: Map<Node, Expr<W>>,
)
    ensures
        adds_hidden_records(
            network,
            recorded,
            network.recorded_by_value(node, active, inputs, previous, recorded),
        ),
    decreases network.sources().insert(node).difference(active).len(), 0nat, 0nat,
{
    if !active.contains(node) && !network.is_sensor(node) {
        lemma_marking_shrinks(network.sources(), active, node);
        lemma_total_records_only_hidden(
            network,
            node,
            active.insert(node),
            inputs,
            previous,
            recorded,
            network.edges.len(),
        );
    }
}

/// Summing over the edges that enter a node keeps a record for every node
/// that had one, and adds records of hidden nodes only.
pub proof fn lemma_total_records_only_hidden<W>(
    network: NetworkView<W>,
    node: Node,
    active: Set<Node>,
    inputs: Seq<W>,
    previous: Map<Node, W>,
    recorded: Map<Node, Expr<W>>,
    count: nat,
)
    ensures
        adds_hidden_records(
            network,
            recorded,
            network.recorded_by_total(node, active, inputs, previous, recorded, count),
        ),
    decreases network.sources().difference(active).len(), 1nat, count,
{
    if count > 0 {
        lemma_total_records_only_hidden(
            network,
            node,
            active,
            inputs,
            previous,
            recorded,
            (count - 1) as nat,
        );
        if count <= network.edges.len() && network.edges[count - 1].destination == node {
            lemma_source_is_counted(network, count - 1);
            lemma_value_records_only_hidden(
                network,
                network.edges[count - 1].source,
                active,
                inputs,
                previous,
                network.recorded_by_total(
                    node,
                    active,
                    inputs,
                    previous,
                    recorded,
                    (count - 1) as nat,
                ),
            );
        }
    }
}

/// An evaluation records hidden nodes only: no sensor and no output is
/// ever among the activations that it leaves.
pub proof fn lemma_only_hidden_nodes_are_recorded<W>(
    network: NetworkView<W>,
    inputs: Seq<W>,
    previous: Map<Node, W>,
)
    ensures
        forall|node: Node|
            network.activations(inputs, previous).contains_key(node) ==> network.is_hidden(node),
{
    lemma_outputs_record_only_hidden(network, inputs, previous, network.outputs.len());
}

/// Resolving the first `count` outputs records hidden nodes only.
proof fn lemma_outputs_record_only_hidden<W>(
    network: NetworkView<W>,
    inputs: Seq<W>,
    previous: Map<Node, W>,
    count: nat,
)
    ensures
        adds_hidden_records(
            network,
            Map::empty(),
            network.recorded_by_outputs(inputs, previous, count),
        ),
    decreases count,
{
    if count > 0 {
        lemma_outputs_record_only_hidden(network, inputs, previous, (count - 1) as nat);
        if count <= network.outputs.len() {
            lemma_value_records_only_hidden(
                network,
                network.outputs[count - 1],
                Set::empty(),
                inputs,
                previous,
                network.recorded_by_outputs(inputs, previous, (count - 1) as nat),
            );
        }
    }
}

/// Under an arithmetic whose functions have one result only, an
/// expression comes to one number only.
pub proof fn lemma_deterministic_arithmetic_gives_one_number<W>(
    expr: Expr<W>,
    arithmetic: ArithmeticView<W>,
    one: W,
    other: W,
)
    requires
        arithmetic.is_deterministic(),
        expr.evaluates_to(arithmetic, one),
        expr.evaluates_to(arithmetic, other),
    ensures
        one == other,
    decreases expr,
{
    match expr {
        Expr::Zero => {},
        Expr::Number(_) => {},
        Expr::Sum(total, term) => {
            let (t1, s1) = choose|t: W, s: W|
                {
                    &&& total.evaluates_to(arithmetic, t)
                    &&& term.evaluates_to(arithmetic, s)
                    &&& #[trigger] (arithmetic.plus)(t, s, one)
                };
            let (t2, s2) = choose|t: W, s: W|
                {
                    &&& total.evaluates_to(arithmetic, t)
                    &&& term.evaluates_to(arithmetic, s)
                    &&& #[trigger] (arithmetic.plus)(t, s, other)
                };
            lemma_deterministic_arithmetic_gives_one_number(*total, arithmetic, t1, t2);
            lemma_deterministic_arithmetic_gives_one_number(*term, arithmetic, s1, s2);
        },
        Expr::Scaled(weight, signal) => {
            let s1 = choose|s: W|
                {
                    &&& signal.evaluates_to(arithmetic, s)
                    &&& #[trigger] (arithmetic.times)(weight, s, one)
                };
            let s2 = choose|s: W|
                {
                    &&& signal.evaluates_to(arithmetic, s)
                    &&& #[trigger] (arithmetic.times)(weight, s, other)
                };
            lemma_deterministic_arithmetic_gives_one_number(*signal, arithmetic, s1, s2);
        },
        Expr::Squashed(total) => {
            let t1 = choose|t: W|
                {
                    &&& total.evaluates_to(arithmetic, t)
                    &&& #[trigger] (arithmetic.squash)(t, one)
                };
            let t2 = choose|t: W|
                {
                    &&& total.evaluates_to(arithmetic, t)
                    &&& #[trigger] (arithmetic.squash)(t, other)
                };
            lemma_deterministic_arithmetic_gives_one_number(*total, arithmetic, t1, t2);
        },
    }
}

/// A decoded network has one sensor for each input and one more for the
/// bias, numbered from zero, and its outputs are numbered on from there.
pub proof fn lemma_decode_numbers_the_nodes<W: Copy>(genome: GenomeView<W>)
    ensures
        genome.network().sensors.len() == genome.input_count + 1,
        genome.network().outputs.len() == genome.output_count,
        forall|i: int|
            0 <= i <= genome.input_count ==> (#[trigger] genome.network().sensors[i]).0 == i,
        forall|i: int|
            0 <= i < genome.output_count && genome.input_count + 1 + i <= usize::MAX ==> (
            #[trigger] genome.network().outputs[i]).0 == genome.input_count + 1 + i,
{
}

/// Decoding goes gene by gene: a genome with one more gene at its end
/// decodes to the same network with the edge of that gene at its end if
/// the gene is enabled, and to the same network if it is not.
pub proof fn lemma_decode_drops_disabled_genes<W: Copy>(genome: GenomeView<W>, gene: Gene<W>)
    ensures
        ({
            let longer = GenomeView { genes: genome.genes.push(gene), ..genome };
            &&& longer.network().sensors == genome.network().sensors
            &&& longer.network().outputs == genome.network().outputs
            &&& longer.network().edges == if gene.enabled {
                genome.network().edges.push(gene.edge())
            } else {
                genome.network().edges
            }
        }),
{
    let enabled = |gene: Gene<W>| gene.enabled;
    let decoded = |gene: Gene<W>| gene.edge();
    genome.genes.lemma_filter_push(gene, enabled);
    genome.genes.filter(enabled).lemma_push_map_commute(decoded, gene);
}

/// A genome without genes decodes to a network without edges.
pub proof fn lemma_decode_of_no_genes<W: Copy>(genome: GenomeView<W>)
    requires
        genome.genes.len() == 0,
    ensures
        genome.network().edges.len() == 0,
{
    reveal(Seq::filter);
}

} // verus!

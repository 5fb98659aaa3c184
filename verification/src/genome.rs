//! Genomes: networks written down as lists of connection genes.

use vstd::prelude::*;
use crate::edge::Edge;
use crate::model::NetworkView;
use crate::network::Network;
use crate::node::Node;

verus! {

/// One connection of a genome, between nodes given by their indices.
///
/// A gene that has been superseded stays in its genome with `enabled` off.
/// The innovation number is carried along and has no effect on decoding.
#[derive(Debug, PartialEq)]
pub struct Gene<W> {
    pub in_index: usize,
    pub out_index: usize,
    pub weight: W,
    pub enabled: bool,
    pub innovation_number: usize,
}

impl<W: Copy> Clone for Gene<W> {
    fn clone(&self) -> (copy: Gene<W>)
        ensures
            copy == *self,
    {
        Gene {
            in_index: self.in_index,
            out_index: self.out_index,
            weight: self.weight,
            enabled: self.enabled,
            innovation_number: self.innovation_number,
        }
    }
}

impl<W: Copy> Copy for Gene<W> {

}

impl<W: Copy> Gene<W> {
    /// An enabled gene for the connection from `in_index` to `out_index`.
    pub fn new(in_index: usize, out_index: usize, weight: W, innovation_number: usize) -> (gene:
        Gene<W>)
        ensures
            gene == (Gene { in_index, out_index, weight, enabled: true, innovation_number }),
    {
        Gene { in_index, out_index, weight, enabled: true, innovation_number }
    }

    /// This gene, switched off.
    pub fn disabled(&self) -> (gene: Gene<W>)
        ensures
            gene == (Gene { enabled: false, ..*self }),
    {
        let mut gene = self.clone();
        gene.enabled = false;
        gene
    }

    /// The edge that this gene stands for.
    pub open spec fn edge(self) -> Edge<W> {
        Edge {
            source: Node(self.in_index),
            destination: Node(self.out_index),
            weight: self.weight,
        }
    }
}

/// A genome as mathematics.
pub struct GenomeView<W> {
    pub input_count: usize,
    pub output_count: usize,
    pub genes: Seq<Gene<W>>,
}

impl<W: Copy> GenomeView<W> {
    /// How many sensors the decoded network has: one for each input, and
    /// one more for the bias.
    pub open spec fn sensor_count(self) -> nat {
        (self.input_count + 1) as nat
    }

    /// The network that the genome decodes to.
    ///
    /// The sensors are the nodes `0` to `input_count`, the last of them the
    /// bias; the outputs are the `output_count` nodes that follow; the edges
    /// are those of the enabled genes, in order.
    pub open spec fn network(self) -> NetworkView<W> {
        NetworkView {
            sensors: Seq::new(self.sensor_count(), |i: int| Node(i as usize)),
            outputs: Seq::new(
                self.output_count as nat,
                |i: int| Node((self.sensor_count() + i) as usize),
            ),
            edges: self.genes.filter(|gene: Gene<W>| gene.enabled).map_values(
                |gene: Gene<W>| gene.edge(),
            ),
        }
    }
}

/// A flat encoding of a network: how many inputs and outputs it has, and
/// its connection genes.
pub struct Genome<W> {
    input_count: usize,
    output_count: usize,
    genes: Vec<Gene<W>>,
}

impl<W> View for Genome<W> {
    type V = GenomeView<W>;

    closed spec fn view(&self) -> GenomeView<W> {
        GenomeView {
            input_count: self.input_count,
            output_count: self.output_count,
            genes: self.genes@,
        }
    }
}

impl<W: Copy> Genome<W> {
    /// The genome with the given counts and genes.
    pub fn new(input_count: usize, output_count: usize, genes: Vec<Gene<W>>) -> (genome: Genome<W>)
        ensures
            genome@ == (GenomeView { input_count, output_count, genes: genes@ }),
    {
        Genome { input_count, output_count, genes }
    }

    /// How many inputs the genome declares, the bias not counted.
    pub fn input_count(&self) -> (count: usize)
        ensures
            count == self@.input_count,
    {
        self.input_count
    }

    /// How many outputs the genome declares.
    pub fn output_count(&self) -> (count: usize)
        ensures
            count == self@.output_count,
    {
        self.output_count
    }

    /// The genes, enabled or not, in order.
    pub fn genes(&self) -> (genes: &Vec<Gene<W>>)
        ensures
            genes@ == self@.genes,
    {
        &self.genes
    }

    /// Decodes the genome into the network that it stands for.
    pub fn to_network(&self) -> (network: Network<W>)
        requires
            self@.input_count + 1 + self@.output_count <= usize::MAX,
        ensures
            network@ == self@.network(),
    {
        let total_inputs = self.input_count + 1;
        let mut sensors: Vec<Node> = Vec::new();
        let mut index: usize = 0;
        while index < total_inputs
            invariant
                index <= total_inputs,
                sensors.len() == index,
                forall|i: int| 0 <= i < index ==> sensors@[i] == Node(i as usize),
            decreases total_inputs - index,
        {
            sensors.push(Node::new(index));
            index += 1;
        }
        let mut outputs: Vec<Node> = Vec::new();
        let mut index: usize = 0;
        while index < self.output_count
            invariant
                index <= self.output_count,
                total_inputs + self.output_count <= usize::MAX,
                outputs.len() == index,
                forall|i: int| 0 <= i < index ==> outputs@[i] == Node((total_inputs + i) as usize),
            decreases self.output_count - index,
        {
            outputs.push(Node::new(total_inputs + index));
            index += 1;
        }
        let ghost enabled = |gene: Gene<W>| gene.enabled;
        let ghost decoded = |gene: Gene<W>| gene.edge();
        let mut edges: Vec<Edge<W>> = Vec::new();
        let mut index: usize = 0;
        assert(self.genes@.take(0).filter(enabled) =~= Seq::<Gene<W>>::empty()) by {
            reveal(Seq::filter);
        }
        while index < self.genes.len()
            invariant
                index <= self.genes.len(),
                enabled == |gene: Gene<W>| gene.enabled,
                decoded == |gene: Gene<W>| gene.edge(),
                edges@ == self.genes@.take(index as int).filter(enabled).map_values(decoded),
            decreases self.genes.len() - index,
        {
            let gene = &self.genes[index];
            proof {
                let seen = self.genes@.take(index as int);
                self.genes@.lemma_take_succ_push(index as int);
                seen.lemma_filter_push(*gene, enabled);
                seen.filter(enabled).lemma_push_map_commute(decoded, *gene);
            }
            if gene.enabled {
                edges.push(
                    Edge::new(Node::new(gene.in_index), Node::new(gene.out_index), gene.weight),
                );
            }
            index += 1;
        }
        assert(self.genes@.take(self.genes.len() as int) =~= self.genes@);
        let network = Network::new(sensors, outputs, edges);
        assert(network@.sensors =~= self@.network().sensors);
        assert(network@.outputs =~= self@.network().outputs);
        network
    }
}

} // verus!

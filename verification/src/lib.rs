//! Recurrent evaluation of small weighted graphs of neurons.
//!
//! A [`Network`] is a directed graph of [`Node`]s joined by weighted
//! [`Edge`]s. Evaluating it resolves every output node depth first; a node
//! met again while it is still being resolved closes a cycle and takes the
//! value that it had in the previous time step. A [`Genome`] is a flat list
//! of connection genes that decodes into a network.
//!
//! The library never looks into a weight or a signal. [`Network::resolve`]
//! yields an [`Expr`] for every output, which spells out the sums, products
//! and squashings in the order in which they are to be carried out, and
//! [`Network::eval`] makes numbers of them with the [`Arithmetic`] that the
//! caller hands in. What resolving means is written down in
//! [`NetworkView`], and what holds of it whatever the network in [`laws`].

pub mod activations;
pub mod arithmetic;
pub mod edge;
pub mod expr;
pub mod genome;
pub mod laws;
pub mod model;
pub mod network;
pub mod node;
mod node_set;

pub use crate::activations::Activations;
pub use crate::arithmetic::{Arithmetic, ArithmeticView};
pub use crate::edge::Edge;
pub use crate::expr::Expr;
pub use crate::genome::{Gene, Genome, GenomeView};
pub use crate::model::NetworkView;
pub use crate::network::{EvalError, Network};
pub use crate::node::{nodes, Node};

//! Values on record for nodes.

use vstd::prelude::*;
use std::collections::HashMap;
use vstd::std_specs::iter::IteratorSpec;
use crate::arithmetic::Arithmetic;
use crate::expr::Expr;
use crate::node::Node;

verus! {

/// A finite map from nodes to values: the activations that one time step
/// leaves behind for the next.
pub struct Activations<T> {
    values: HashMap<usize, T>,
}

impl<T> View for Activations<T> {
    type V = Map<Node, T>;

    closed spec fn view(&self) -> Map<Node, T> {
        Map::new(|node: Node| self.values@.contains_key(node.0), |node: Node| self.values@[node.0])
    }
}

impl<T> Activations<T> {
    /// The map that holds nothing.
    pub fn new() -> (activations: Activations<T>)
        ensures
            activations@ == Map::<Node, T>::empty(),
    {
        let activations = Activations { values: HashMap::new() };
        assert(activations@ =~= Map::<Node, T>::empty());
        activations
    }

    /// Records `value` for `node`, in place of what was on record for it.
    pub fn insert(&mut self, node: Node, value: T)
        ensures
            final(self)@ == old(self)@.insert(node, value),
    {
        broadcast use vstd::std_specs::hash::group_hash_axioms;

        self.values.insert(node.0, value);
        assert(self@ =~= old(self)@.insert(node, value));
    }

    /// What is on record for `node`, if anything.
    pub fn get(&self, node: &Node) -> (value: Option<&T>)
        ensures
            match value {
                Some(value) => self@.contains_key(*node) && *value == self@[*node],
                None => !self@.contains_key(*node),
            },
    {
        broadcast use vstd::std_specs::hash::group_hash_axioms;

        self.values.get(&node.0)
    }
}

impl<W: Copy> Activations<Expr<W>> {
    /// Carries out the arithmetic of every expression on record, and
    /// records the number that each comes to for the same node.
    pub fn compute<A, M, S>(&self, arithmetic: &Arithmetic<W, A, M, S>) -> (numbers: Activations<
        W,
    >) where A: Fn(W, W) -> W, M: Fn(W, W) -> W, S: Fn(W) -> W
        requires
            arithmetic.is_total(),
        ensures
            numbers@.dom() == self@.dom(),
            forall|node: Node|
                self@.contains_key(node) ==> self@[node].evaluates_to(
                    arithmetic@,
                    #[trigger] numbers@[node],
                ),
    {
        broadcast use vstd::std_specs::hash::group_hash_axioms;

        let mut numbers: Activations<W> = Activations { values: HashMap::new() };
        let ghost recorded = self.values.keys().remaining().unref();
        assert(forall|id: usize| recorded.contains(id) <==> self.values@.contains_key(id)) by {
            assert(recorded.to_set() == self.values@.dom());
            assert forall|id: usize| recorded.contains(id) <==> self.values@.contains_key(id) by {
                assert(recorded.to_set().contains(id) <==> self.values@.dom().contains(id));
            }
        }
        for key in iter: self.values.keys()
            invariant
                arithmetic.is_total(),
                iter.seq().unref() == recorded,
                forall|id: usize| recorded.contains(id) <==> self.values@.contains_key(id),
                forall|id: usize|
                    numbers.values@.contains_key(id) <==> recorded.take(iter.index()).contains(id),
                forall|id: usize|
                    numbers.values@.contains_key(id) ==> self.values@[id].evaluates_to(
                        arithmetic@,
                        #[trigger] numbers.values@[id],
                    ),
        {
            proof {
                assert(recorded[iter.index()] == *key);
                assert(recorded.contains(*key));
                recorded.lemma_take_succ_push(iter.index());
                assert forall|id: usize|
                    recorded.take(iter.index() + 1).contains(id) <==> id == *key || recorded.take(
                        iter.index(),
                    ).contains(id) by {
                    let seen = recorded.take(iter.index());
                    if seen.contains(id) {
                        let i = seen.index_of(id);
                        assert(seen.push(*key)[i] == id);
                    }
                    if id == *key {
                        assert(seen.push(*key)[iter.index()] == id);
                    }
                }
            }
            let expr = self.values.get(key).unwrap();
            let number = expr.compute(arithmetic);
            numbers.values.insert(*key, number);
        }
        proof {
            assert(recorded.take(recorded.len() as int) =~= recorded);
            assert(numbers@.dom() =~= self@.dom());
        }
        numbers
    }
}

} // verus!

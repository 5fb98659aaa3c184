//! The arithmetic that turns expressions into numbers.

use vstd::prelude::*;

verus! {

/// The arithmetic of the numbers `W`: zero, and the functions that add two
/// numbers, multiply a weight by a signal, and squash a total.
///
/// The library calls these functions and never looks into a number. What
/// it promises of a number that it computes is what the functions promise
/// of theirs.
pub struct Arithmetic<W, A, M, S> {
    pub zero: W,
    pub plus: A,
    pub times: M,
    pub squash: S,
}

/// An arithmetic as mathematics: zero, and for each of the three functions
/// the relation that holds between arguments and any result that the
/// function may give for them.
#[verifier::reject_recursive_types(W)]
pub struct ArithmeticView<W> {
    pub zero: W,
    pub plus: spec_fn(W, W, W) -> bool,
    pub times: spec_fn(W, W, W) -> bool,
    pub squash: spec_fn(W, W) -> bool,
}

impl<W, A: Fn(W, W) -> W, M: Fn(W, W) -> W, S: Fn(W) -> W> Arithmetic<W, A, M, S> {
    /// This arithmetic as mathematics: what its functions promise of
    /// their results.
    pub open spec fn view(self) -> ArithmeticView<W> {
        ArithmeticView {
            zero: self.zero,
            plus: |total: W, term: W, sum: W| self.plus.ensures((total, term), sum),
            times: |weight: W, signal: W, product: W| self.times.ensures((weight, signal), product),
            squash: |total: W, squashed: W| self.squash.ensures((total,), squashed),
        }
    }

    /// Whether the three functions accept every number.
    pub open spec fn is_total(self) -> bool {
        &&& forall|total: W, term: W| self.plus.requires((total, term))
        &&& forall|weight: W, signal: W| self.times.requires((weight, signal))
        &&& forall|total: W| self.squash.requires((total,))
    }
}

impl<W> ArithmeticView<W> {
    /// Whether each of the three functions has one result only for given
    /// arguments.
    pub open spec fn is_deterministic(self) -> bool {
        &&& forall|total: W, term: W, one: W, other: W|
            #![trigger (self.plus)(total, term, one), (self.plus)(total, term, other)]
            (self.plus)(total, term, one) && (self.plus)(total, term, other) ==> one == other
        &&& forall|weight: W, signal: W, one: W, other: W|
            #![trigger (self.times)(weight, signal, one), (self.times)(weight, signal, other)]
            (self.times)(weight, signal, one) && (self.times)(weight, signal, other) ==> one
                == other
        &&& forall|total: W, one: W, other: W|
            #![trigger (self.squash)(total, one), (self.squash)(total, other)]
            (self.squash)(total, one) && (self.squash)(total, other) ==> one == other
    }
}

} // verus!

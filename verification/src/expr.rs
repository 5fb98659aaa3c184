//! Symbolic numbers: what an evaluation computes, before any arithmetic.

use vstd::prelude::*;
use crate::arithmetic::{Arithmetic, ArithmeticView};

verus! {

/// A number given by the arithmetic that produces it.
///
/// `W` is the type of weights and signals. The library treats it as opaque:
/// it copies such values around and never inspects them.
#[derive(Debug, PartialEq)]
pub enum Expr<W> {
    /// The number zero: an empty sum, or the previous activation of a node
    /// of which none is on record.
    Zero,
    /// A number known beforehand: an input or a previous activation.
    Number(W),
    /// The sum of two numbers, the running total first.
    Sum(Box<Expr<W>>, Box<Expr<W>>),
    /// A weight times a signal.
    Scaled(W, Box<Expr<W>>),
    /// A number passed through the squashing function.
    Squashed(Box<Expr<W>>),
}

impl<W: Copy> Clone for Expr<W> {
    /// A copy of this expression.
    fn clone(&self) -> (copy: Expr<W>)
        ensures
            copy == *self,
        decreases *self,
    {
        match self {
            Expr::Zero => Expr::Zero,
            Expr::Number(number) => Expr::Number(*number),
            Expr::Sum(total, term) => Expr::Sum(
                Box::new((**total).clone()),
                Box::new((**term).clone()),
            ),
            Expr::Scaled(weight, signal) => Expr::Scaled(*weight, Box::new((**signal).clone())),
            Expr::Squashed(total) => Expr::Squashed(Box::new((**total).clone())),
        }
    }
}

impl<W> Expr<W> {
    /// Whether `value` is a number that this expression can come to under
    /// the given arithmetic.
    pub open spec fn evaluates_to(self, arithmetic: ArithmeticView<W>, value: W) -> bool
        decreases self,
    {
        match self {
            Expr::Zero => value == arithmetic.zero,
            Expr::Number(number) => value == number,
            Expr::Sum(total, term) => exists|t: W, s: W|
                {
                    &&& total.evaluates_to(arithmetic, t)
                    &&& term.evaluates_to(arithmetic, s)
                    &&& #[trigger] (arithmetic.plus)(t, s, value)
                },
            Expr::Scaled(weight, signal) => exists|s: W|
                {
                    &&& signal.evaluates_to(arithmetic, s)
                    &&& #[trigger] (arithmetic.times)(weight, s, value)
                },
            Expr::Squashed(total) => exists|t: W|
                {
                    &&& total.evaluates_to(arithmetic, t)
                    &&& #[trigger] (arithmetic.squash)(t, value)
                },
        }
    }
}

impl<W: Copy> Expr<W> {
    /// Carries out the arithmetic of this expression, innermost first and
    /// left to right.
    pub fn compute<A, M, S>(&self, arithmetic: &Arithmetic<W, A, M, S>) -> (value: W) where
        A: Fn(W, W) -> W,
        M: Fn(W, W) -> W,
        S: Fn(W) -> W,

        requires
            arithmetic.is_total(),
        ensures
            self.evaluates_to(arithmetic@, value),
        decreases *self,
    {
        match self {
            Expr::Zero => arithmetic.zero,
            Expr::Number(number) => *number,
            Expr::Sum(total, term) => {
                let t = total.compute(arithmetic);
                let s = term.compute(arithmetic);
                let value = (arithmetic.plus)(t, s);
                assert((arithmetic@.plus)(t, s, value));
                value
            },
            Expr::Scaled(weight, signal) => {
                let s = signal.compute(arithmetic);
                let value = (arithmetic.times)(*weight, s);
                assert((arithmetic@.times)(*weight, s, value));
                value
            },
            Expr::Squashed(total) => {
                let t = total.compute(arithmetic);
                let value = (arithmetic.squash)(t);
                assert((arithmetic@.squash)(t, value));
                value
            },
        }
    }
}

} // verus!

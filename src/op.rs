use crate::error::FFError;
use crate::float::Float;
use crate::ops::add::{add_backward_spec, add_forward_spec, Add};
use crate::ops::minus::{minus_backward_spec, minus_forward_spec, Minus};
use crate::ops::mul::{mul_backward_spec, mul_forward_spec, Mul};
use crate::scalar::Scalar;
use crate::store::Store;
use vstd::prelude::*;

verus! {

/// One recorded operation of a graph: its operand ids, then its result id.
#[derive(Clone, Copy, Debug, PartialEq, Eq, Structural)]
pub enum Op {
    Add(usize, usize, usize),
    Minus(usize, usize),
    Mul(usize, usize, usize),
}

/// The store after the forward step of `op`; `None` when an operand is absent.
pub open spec fn op_forward<V: Scalar>(op: Op, m: Map<usize, Float<V>>) -> Option<
    Map<usize, Float<V>>,
> {
    match op {
        Op::Add(a, b, out) => add_forward_spec(m, a, b, out),
        Op::Minus(a, out) => minus_forward_spec(m, a, out),
        Op::Mul(a, b, out) => mul_forward_spec(m, a, b, out),
    }
}

/// The store after the backward step of `op`; `None` when an operand or the
/// result is absent.
pub open spec fn op_backward<V: Scalar>(op: Op, m: Map<usize, Float<V>>) -> Option<
    Map<usize, Float<V>>,
> {
    match op {
        Op::Add(a, b, out) => add_backward_spec(m, a, b, out),
        Op::Minus(a, out) => minus_backward_spec(m, a, out),
        Op::Mul(a, b, out) => mul_backward_spec(m, a, b, out),
    }
}

/// The store after the forward steps of `ops`, first to last; `None` when one
/// of them finds an operand absent.
pub open spec fn forward_all<V: Scalar>(ops: Seq<Op>, m: Map<usize, Float<V>>) -> Option<
    Map<usize, Float<V>>,
>
    decreases ops.len(),
{
    if ops.len() == 0 {
        Some(m)
    } else {
        match forward_all(ops.drop_last(), m) {
            Some(m1) => op_forward(ops.last(), m1),
            None => None,
        }
    }
}

/// The store after the backward steps of `ops`, last to first; `None` when
/// one of them finds a node absent.
pub open spec fn backward_all<V: Scalar>(ops: Seq<Op>, m: Map<usize, Float<V>>) -> Option<
    Map<usize, Float<V>>,
>
    decreases ops.len(),
{
    if ops.len() == 0 {
        Some(m)
    } else {
        match op_backward(ops.last(), m) {
            Some(m1) => backward_all(ops.drop_last(), m1),
            None => None,
        }
    }
}

impl Op {
    /// Runs the forward step of the operation.
    pub fn forward<V: Scalar>(&self, s: &mut Store<V>) -> (r: Result<(), FFError>)
        ensures
            match r {
                Ok(()) => op_forward(*self, old(s)@) == Some(final(s)@),
                Err(_) => op_forward(*self, old(s)@) is None && final(s)@ == old(s)@,
            },
    {
        match *self {
            Op::Add(a, b, out) => Add::new(a, b, out).forward(s),
            Op::Minus(a, out) => Minus::new(a, out).forward(s),
            Op::Mul(a, b, out) => Mul::new(a, b, out).forward(s),
        }
    }

    /// Runs the backward step of the operation.
    pub fn backward<V: Scalar>(&self, s: &mut Store<V>) -> (r: Result<(), FFError>)
        ensures
            match r {
                Ok(()) => op_backward(*self, old(s)@) == Some(final(s)@),
                Err(_) => op_backward(*self, old(s)@) is None && final(s)@ == old(s)@,
            },
    {
        match *self {
            Op::Add(a, b, out) => Add::new(a, b, out).backward(s),
            Op::Minus(a, out) => Minus::new(a, out).backward(s),
            Op::Mul(a, b, out) => Mul::new(a, b, out).backward(s),
        }
    }
}

} // verus!

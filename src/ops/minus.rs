use crate::error::{is_missing_id, FFError};
use crate::float::Float;
use crate::scalar::Scalar;
use crate::store::{accumulate, Store};
use vstd::prelude::*;

verus! {

/// The negation of node `0`, held by node `1`.
#[derive(Clone, Copy, Debug, PartialEq, Eq, Structural)]
pub struct Minus(pub usize, pub usize);

/// The store after the forward step of `out = -a`; `None` when `a` has no
/// cell.
pub open spec fn minus_forward_spec<V: Scalar>(
    m: Map<usize, Float<V>>,
    a: usize,
    out: usize,
) -> Option<Map<usize, Float<V>>> {
    if m.contains_key(a) {
        Some(
            m.insert(
                out,
                Float {
                    value: V::spec_neg(m[a].value),
                    grad: V::spec_from_int(0),
                    is_need_grad: m[a].is_need_grad,
                },
            ),
        )
    } else {
        None
    }
}

/// The store after the backward step of `out = -a`: the negated gradient of
/// `out` flows into `a`. `None` when either has no cell.
pub open spec fn minus_backward_spec<V: Scalar>(
    m: Map<usize, Float<V>>,
    a: usize,
    out: usize,
) -> Option<Map<usize, Float<V>>> {
    if m.contains_key(a) && m.contains_key(out) {
        Some(accumulate(m, a, V::spec_neg(m[out].grad)))
    } else {
        None
    }
}

impl Minus {
    pub fn new(r: usize, res: usize) -> (op: Minus)
        ensures
            op == Minus(r, res),
    {
        Minus(r, res)
    }

    /// Computes the negation into a fresh cell of the result node.
    pub fn forward<V: Scalar>(&self, s: &mut Store<V>) -> (r: Result<(), FFError>)
        ensures
            match r {
                Ok(()) => minus_forward_spec(old(s)@, self.0, self.1) == Some(final(s)@),
                Err(e) => {
                    &&& minus_forward_spec(old(s)@, self.0, self.1) is None
                    &&& final(s)@ == old(s)@
                    &&& is_missing_id(e, self.0)
                },
            },
    {
        let r = s.fetch(self.0)?;
        let res = Float {
            value: r.value.neg(),
            grad: V::from_int(0),
            is_need_grad: r.is_need_grad,
        };
        s.insert(self.1, res);
        Ok(())
    }

    /// Accumulates the negated gradient of the result into the operand.
    pub fn backward<V: Scalar>(&self, s: &mut Store<V>) -> (r: Result<(), FFError>)
        ensures
            match r {
                Ok(()) => minus_backward_spec(old(s)@, self.0, self.1) == Some(final(s)@),
                Err(e) => {
                    &&& minus_backward_spec(old(s)@, self.0, self.1) is None
                    &&& final(s)@ == old(s)@
                    &&& if !old(s)@.contains_key(self.0) {
                        is_missing_id(e, self.0)
                    } else {
                        is_missing_id(e, self.1)
                    }
                },
            },
    {
        let _r = s.fetch(self.0)?;
        let res = s.fetch(self.1)?;
        s.accumulate_grad(self.0, res.grad.neg());
        Ok(())
    }
}

} // verus!

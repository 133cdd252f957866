use crate::error::{is_missing_id, FFError};
use crate::float::Float;
use crate::scalar::Scalar;
use crate::store::{accumulate, Store};
use vstd::prelude::*;

verus! {

/// The product of nodes `0` and `1`, held by node `2`.
#[derive(Clone, Copy, Debug, PartialEq, Eq, Structural)]
pub struct Mul(pub usize, pub usize, pub usize);

/// The store after the forward step of `out = a * b`; `None` when `a` or `b`
/// has no cell.
pub open spec fn mul_forward_spec<V: Scalar>(
    m: Map<usize, Float<V>>,
    a: usize,
    b: usize,
    out: usize,
) -> Option<Map<usize, Float<V>>> {
    if m.contains_key(a) && m.contains_key(b) {
        Some(
            m.insert(
                out,
                Float {
                    value: V::spec_mul(m[a].value, m[b].value),
                    grad: V::spec_from_int(0),
                    is_need_grad: m[a].is_need_grad || m[b].is_need_grad,
                },
            ),
        )
    } else {
        None
    }
}

/// The store after the backward step of `out = a * b`, by the product rule:
/// `a` gains `b.value * g` and `b` gains `a.value * g`, with `g` the gradient
/// of `out`; a square `a * a` gains `(2 * a.value) * g` once. `None` when one
/// of the three has no cell.
pub open spec fn mul_backward_spec<V: Scalar>(
    m: Map<usize, Float<V>>,
    a: usize,
    b: usize,
    out: usize,
) -> Option<Map<usize, Float<V>>> {
    if m.contains_key(a) && m.contains_key(b) && m.contains_key(out) {
        let g = m[out].grad;
        if a == b {
            Some(
                accumulate(
                    m,
                    a,
                    V::spec_mul(V::spec_mul(V::spec_from_int(2), m[a].value), g),
                ),
            )
        } else {
            Some(
                accumulate(
                    accumulate(m, a, V::spec_mul(m[b].value, g)),
                    b,
                    V::spec_mul(m[a].value, g),
                ),
            )
        }
    } else {
        None
    }
}

impl Mul {
    pub fn new(r: usize, l: usize, res: usize) -> (op: Mul)
        ensures
            op == Mul(r, l, res),
    {
        Mul(r, l, res)
    }

    /// Computes the product into a fresh cell of the result node.
    pub fn forward<V: Scalar>(&self, s: &mut Store<V>) -> (r: Result<(), FFError>)
        ensures
            match r {
                Ok(()) => mul_forward_spec(old(s)@, self.0, self.1, self.2) == Some(final(s)@),
                Err(e) => {
                    &&& mul_forward_spec(old(s)@, self.0, self.1, self.2) is None
                    &&& final(s)@ == old(s)@
                    &&& if !old(s)@.contains_key(self.0) {
                        is_missing_id(e, self.0)
                    } else {
                        is_missing_id(e, self.1)
                    }
                },
            },
    {
        let r = s.fetch(self.0)?;
        let l = s.fetch(self.1)?;
        let res = Float {
            value: r.value.mul(l.value),
            grad: V::from_int(0),
            is_need_grad: r.is_need_grad || l.is_need_grad,
        };
        s.insert(self.2, res);
        Ok(())
    }

    /// Accumulates the result's gradient into the operands by the product
    /// rule.
    pub fn backward<V: Scalar>(&self, s: &mut Store<V>) -> (r: Result<(), FFError>)
        ensures
            match r {
                Ok(()) => mul_backward_spec(old(s)@, self.0, self.1, self.2) == Some(final(s)@),
                Err(e) => {
                    &&& mul_backward_spec(old(s)@, self.0, self.1, self.2) is None
                    &&& final(s)@ == old(s)@
                    &&& if !old(s)@.contains_key(self.0) {
                        is_missing_id(e, self.0)
                    } else if !old(s)@.contains_key(self.1) {
                        is_missing_id(e, self.1)
                    } else {
                        is_missing_id(e, self.2)
                    }
                },
            },
    {
        if self.0 == self.1 {
            let r = s.fetch(self.0)?;
            let res = s.fetch(self.2)?;
            s.accumulate_grad(self.0, V::from_int(2).mul(r.value).mul(res.grad));
        } else {
            let r = s.fetch(self.0)?;
            let l = s.fetch(self.1)?;
            let res = s.fetch(self.2)?;
            s.accumulate_grad(self.0, l.value.mul(res.grad));
            s.accumulate_grad(self.1, r.value.mul(res.grad));
        }
        Ok(())
    }
}

} // verus!

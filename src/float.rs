use crate::scalar::Scalar;
use vstd::prelude::*;

verus! {

/// The state of one node: its value, the gradient accumulated into it, and
/// whether a gradient is to be accumulated at all.
#[derive(Clone, Copy, Debug)]
pub struct Float<V> {
    pub value: V,
    pub grad: V,
    pub is_need_grad: bool,
}

/// A cell with value and gradient zero that needs no gradient.
pub open spec fn zero_float<V: Scalar>() -> Float<V> {
    Float { value: V::spec_from_int(0), grad: V::spec_from_int(0), is_need_grad: false }
}

impl<V: Scalar> Float<V> {
    /// A cell holding `value`, with gradient zero.
    pub fn new(value: V, is_need_grad: bool) -> (r: Float<V>)
        ensures
            r == (Float { value, grad: V::spec_from_int(0), is_need_grad }),
    {
        Float { value, grad: V::from_int(0), is_need_grad }
    }
}

impl<V: Scalar> Default for Float<V> {
    fn default() -> (r: Float<V>)
        ensures
            r == zero_float::<V>(),
    {
        Float { value: V::from_int(0), grad: V::from_int(0), is_need_grad: false }
    }
}

} // verus!

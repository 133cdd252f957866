use crate::float::Float;
use crate::ops::add::{add_backward_spec, add_forward_spec};
use crate::ops::minus::{minus_backward_spec, minus_forward_spec};
use crate::ops::mul::{mul_backward_spec, mul_forward_spec};
use crate::optimizer::{
    adagrad_history,
    adagrad_step,
    history_of,
    sgd_step,
    step_model,
    step_value,
    OptimizerModel,
};
use crate::scalar::Scalar;
use vstd::prelude::*;

verus! {

/// The forward step of each operation stores, in a fresh cell of the result,
/// the closed form of its operands' values (`a + b`, `-a`, `a * b`), a zero
/// gradient, and a need for a gradient exactly when some operand needs one.
pub proof fn law_forward_closed_form<V: Scalar>(
    m: Map<usize, Float<V>>,
    a: usize,
    b: usize,
    out: usize,
)
    requires
        m.contains_key(a),
        m.contains_key(b),
    ensures
        add_forward_spec(m, a, b, out) == Some(
            m.insert(
                out,
                Float {
                    value: V::spec_add(m[a].value, m[b].value),
                    grad: V::spec_from_int(0),
                    is_need_grad: m[a].is_need_grad || m[b].is_need_grad,
                },
            ),
        ),
        mul_forward_spec(m, a, b, out) == Some(
            m.insert(
                out,
                Float {
                    value: V::spec_mul(m[a].value, m[b].value),
                    grad: V::spec_from_int(0),
                    is_need_grad: m[a].is_need_grad || m[b].is_need_grad,
                },
            ),
        ),
        minus_forward_spec(m, a, out) == Some(
            m.insert(
                out,
                Float {
                    value: V::spec_neg(m[a].value),
                    grad: V::spec_from_int(0),
                    is_need_grad: m[a].is_need_grad,
                },
            ),
        ),
{
}

/// The backward step of `out = x + x` adds twice the gradient of `out` to the
/// gradient of `x`, once; that of `out = a + b` with `a != b` adds the
/// gradient of `out` to each of `a` and `b`. Operands that need no gradient
/// keep theirs.
pub proof fn law_add_backward<V: Scalar>(m: Map<usize, Float<V>>, a: usize, b: usize, out: usize)
    requires
        m.contains_key(a),
        m.contains_key(b),
        m.contains_key(out),
    ensures
        a == b ==> add_backward_spec(m, a, b, out).unwrap()[a].grad == if m[a].is_need_grad {
            V::spec_add(m[a].grad, V::spec_mul(V::spec_from_int(2), m[out].grad))
        } else {
            m[a].grad
        },
        a != b ==> add_backward_spec(m, a, b, out).unwrap()[a].grad == if m[a].is_need_grad {
            V::spec_add(m[a].grad, m[out].grad)
        } else {
            m[a].grad
        },
        a != b ==> add_backward_spec(m, a, b, out).unwrap()[b].grad == if m[b].is_need_grad {
            V::spec_add(m[b].grad, m[out].grad)
        } else {
            m[b].grad
        },
{
}

/// The backward step of `out = a * b` with `a != b` follows the product rule:
/// `a` gains `b.value * g` and `b` gains `a.value * g`, `g` the gradient of
/// `out`; a square `out = x * x` gives `x` the sum of both, `(2 * x.value) * g`.
pub proof fn law_mul_backward<V: Scalar>(m: Map<usize, Float<V>>, a: usize, b: usize, out: usize)
    requires
        m.contains_key(a),
        m.contains_key(b),
        m.contains_key(out),
    ensures
        a != b ==> mul_backward_spec(m, a, b, out).unwrap()[a].grad == if m[a].is_need_grad {
            V::spec_add(m[a].grad, V::spec_mul(m[b].value, m[out].grad))
        } else {
            m[a].grad
        },
        a != b ==> mul_backward_spec(m, a, b, out).unwrap()[b].grad == if m[b].is_need_grad {
            V::spec_add(m[b].grad, V::spec_mul(m[a].value, m[out].grad))
        } else {
            m[b].grad
        },
        a == b ==> mul_backward_spec(m, a, b, out).unwrap()[a].grad == if m[a].is_need_grad {
            V::spec_add(
                m[a].grad,
                V::spec_mul(V::spec_mul(V::spec_from_int(2), m[a].value), m[out].grad),
            )
        } else {
            m[a].grad
        },
        minus_backward_spec(m, a, out).unwrap()[a].grad == if m[a].is_need_grad {
            V::spec_add(m[a].grad, V::spec_neg(m[out].grad))
        } else {
            m[a].grad
        },
{
}

/// SGD computes `v - lr * g` and keeps no state: a second update with the
/// same value and gradient gives the same result.
pub proof fn law_sgd_stateless<V: Scalar>(lr: V, index: usize, v: V, g: V)
    ensures
        ({
            let o = OptimizerModel::SGD { lr };
            &&& step_value(o, index, v, g) == sgd_step(lr, v, g)
            &&& step_model(o, index, g) == o
            &&& step_value(step_model(o, index, g), index, v, g) == step_value(o, index, v, g)
        }),
{
}

/// Two AdaGrad updates of a parameter with gradients `g1` then `g2` divide
/// the second step by the root of `h + g1 * g1 + g2 * g2`, `h` the squares
/// accumulated before the first.
pub proof fn law_adagrad_accumulates<V: Scalar>(
    lr: V,
    history: Map<usize, V>,
    index: usize,
    v1: V,
    g1: V,
    v2: V,
    g2: V,
)
    ensures
        ({
            let o = OptimizerModel::AdaGrad { lr, history };
            let h = history_of(history, index);
            let o1 = step_model(o, index, g1);
            &&& step_value(o, index, v1, g1) == adagrad_step(lr, adagrad_history(h, g1), v1, g1)
            &&& step_value(o1, index, v2, g2) == adagrad_step(
                lr,
                V::spec_add(V::spec_add(h, V::spec_mul(g1, g1)), V::spec_mul(g2, g2)),
                v2,
                g2,
            )
        }),
{
}

} // verus!

use crate::scalar::Scalar;
use std::collections::HashMap;
use vstd::prelude::*;

verus! {

broadcast use vstd::std_specs::hash::group_hash_axioms;

/// An update rule for parameters, fed one parameter at a time.
pub trait Optimize<V> {
    /// Prepares the per-parameter state of `index`; does nothing for a
    /// parameter that is already registered.
    fn register(&mut self, index: usize);

    /// The new value of parameter `index`, from its value and gradient.
    fn optimize(&mut self, index: usize, old_value: V, grad: V) -> V;
}

/// The small term that AdaGrad adds to the root of the accumulated squares:
/// one ten-millionth.
pub open spec fn adagrad_epsilon<V: Scalar>() -> V {
    V::spec_div(V::spec_from_int(1), V::spec_from_int(10000000))
}

/// The small term that Adam adds to the root of its velocity: one
/// hundred-millionth.
pub open spec fn adam_epsilon<V: Scalar>() -> V {
    V::spec_div(V::spec_from_int(1), V::spec_from_int(100000000))
}

/// Plain gradient descent: `old - lr * grad`.
pub open spec fn sgd_step<V: Scalar>(lr: V, old_value: V, grad: V) -> V {
    V::spec_sub(old_value, V::spec_mul(lr, grad))
}

/// The accumulated squares after one more gradient: `h + grad * grad`.
pub open spec fn adagrad_history<V: Scalar>(h: V, grad: V) -> V {
    V::spec_add(h, V::spec_mul(grad, grad))
}

/// The AdaGrad step with accumulated squares `h` (this gradient included):
/// `old - lr / (sqrt(h) + 1e-7) * grad`.
pub open spec fn adagrad_step<V: Scalar>(lr: V, h: V, old_value: V, grad: V) -> V {
    V::spec_sub(
        old_value,
        V::spec_mul(V::spec_div(lr, V::spec_add(V::spec_sqrt(h), adagrad_epsilon::<V>())), grad),
    )
}

/// A moving average `beta * prev + (1 - beta) * grad`.
pub open spec fn moving<V: Scalar>(beta: V, prev: V, grad: V) -> V {
    V::spec_add(V::spec_mul(beta, prev), V::spec_mul(V::spec_sub(V::spec_from_int(1), beta), grad))
}

/// The Adam step with velocity `vel` and moving average `mov` (this gradient
/// included), without bias correction: `old - lr * mov / (sqrt(vel) + 1e-8)`.
pub open spec fn adam_step<V: Scalar>(lr: V, vel: V, mov: V, old_value: V) -> V {
    V::spec_sub(
        old_value,
        V::spec_div(V::spec_mul(lr, mov), V::spec_add(V::spec_sqrt(vel), adam_epsilon::<V>())),
    )
}

/// Stochastic gradient descent with a fixed learning rate.
pub struct SGD<V> {
    learning_rate: V,
}

impl<V> SGD<V> {
    pub closed spec fn lr(&self) -> V {
        self.learning_rate
    }
}

impl<V: Scalar> SGD<V> {
    pub fn new(lr: V) -> (r: SGD<V>)
        ensures
            r.lr() == lr,
    {
        SGD { learning_rate: lr }
    }
}

impl<V: Scalar> Optimize<V> for SGD<V> {
    /// SGD keeps no per-parameter state.
    fn register(&mut self, _index: usize)
        ensures
            final(self).lr() == old(self).lr(),
    {
    }

    fn optimize(&mut self, _index: usize, old_value: V, grad: V) -> (r: V)
        ensures
            r == sgd_step(old(self).lr(), old_value, grad),
            final(self).lr() == old(self).lr(),
    {
        old_value.sub(self.learning_rate.mul(grad))
    }
}

/// AdaGrad: each parameter's step is scaled down by the root of the sum of
/// the squares of all its gradients so far.
pub struct AdaGrad<V> {
    learning_rate: V,
    aux: HashMap<usize, V>,
}

impl<V> AdaGrad<V> {
    pub closed spec fn lr(&self) -> V {
        self.learning_rate
    }

    /// The sum of squared gradients of each registered parameter.
    pub closed spec fn history(&self) -> Map<usize, V> {
        self.aux@
    }
}

/// The accumulated squares of `index` in `h`; zero where it has none yet.
pub open spec fn history_of<V: Scalar>(h: Map<usize, V>, index: usize) -> V {
    if h.contains_key(index) {
        h[index]
    } else {
        V::spec_from_int(0)
    }
}

impl<V: Scalar> AdaGrad<V> {
    pub fn new(lr: V) -> (r: AdaGrad<V>)
        ensures
            r.lr() == lr,
            r.history() == Map::<usize, V>::empty(),
    {
        AdaGrad { learning_rate: lr, aux: HashMap::new() }
    }
}

impl<V: Scalar> Optimize<V> for AdaGrad<V> {
    fn register(&mut self, index: usize)
        ensures
            final(self).lr() == old(self).lr(),
            final(self).history() == if old(self).history().contains_key(index) {
                old(self).history()
            } else {
                old(self).history().insert(index, V::spec_from_int(0))
            },
    {
        if !self.aux.contains_key(&index) {
            self.aux.insert(index, V::from_int(0));
        }
    }

    /// A parameter that was never registered starts from zero, as a
    /// registered one does.
    fn optimize(&mut self, index: usize, old_value: V, grad: V) -> (r: V)
        ensures
            final(self).lr() == old(self).lr(),
            final(self).history() == old(self).history().insert(
                index,
                adagrad_history(history_of(old(self).history(), index), grad),
            ),
            r == adagrad_step(
                old(self).lr(),
                adagrad_history(history_of(old(self).history(), index), grad),
                old_value,
                grad,
            ),
    {
        let h = match self.aux.get(&index) {
            Some(h) => *h,
            None => V::from_int(0),
        };
        let h2 = h.add(grad.mul(grad));
        self.aux.insert(index, h2);
        let eps = V::from_int(1).div(V::from_int(10000000));
        old_value.sub(self.learning_rate.div(h2.sqrt().add(eps)).mul(grad))
    }
}

/// Adam without bias correction: a velocity and a moving average of the
/// gradients per parameter, each an exponential moving average.
pub struct Adam<V> {
    learning_rate: V,
    beta0: V,
    beta1: V,
    aux: HashMap<usize, (V, V)>,
}

impl<V> Adam<V> {
    pub closed spec fn lr(&self) -> V {
        self.learning_rate
    }

    /// The decay of the moving average.
    pub closed spec fn b0(&self) -> V {
        self.beta0
    }

    /// The decay of the velocity.
    pub closed spec fn b1(&self) -> V {
        self.beta1
    }

    /// The velocity and the moving average of each registered parameter.
    pub closed spec fn moments(&self) -> Map<usize, (V, V)> {
        self.aux@
    }
}

/// The velocity and moving average of `index` in `m`; zeros where it has none
/// yet.
pub open spec fn moments_of<V: Scalar>(m: Map<usize, (V, V)>, index: usize) -> (V, V) {
    if m.contains_key(index) {
        m[index]
    } else {
        (V::spec_from_int(0), V::spec_from_int(0))
    }
}

impl<V: Scalar> Adam<V> {
    pub fn new(lr: V, b0: V, b1: V) -> (r: Adam<V>)
        ensures
            r.lr() == lr,
            r.b0() == b0,
            r.b1() == b1,
            r.moments() == Map::<usize, (V, V)>::empty(),
    {
        Adam { learning_rate: lr, beta0: b0, beta1: b1, aux: HashMap::new() }
    }
}

impl<V: Scalar> Optimize<V> for Adam<V> {
    fn register(&mut self, index: usize)
        ensures
            final(self).lr() == old(self).lr(),
            final(self).b0() == old(self).b0(),
            final(self).b1() == old(self).b1(),
            final(self).moments() == if old(self).moments().contains_key(index) {
                old(self).moments()
            } else {
                old(self).moments().insert(index, (V::spec_from_int(0), V::spec_from_int(0)))
            },
    {
        if !self.aux.contains_key(&index) {
            self.aux.insert(index, (V::from_int(0), V::from_int(0)));
        }
    }

    /// A parameter that was never registered starts from zeros, as a
    /// registered one does.
    fn optimize(&mut self, index: usize, old_value: V, grad: V) -> (r: V)
        ensures
            final(self).lr() == old(self).lr(),
            final(self).b0() == old(self).b0(),
            final(self).b1() == old(self).b1(),
            final(self).moments() == old(self).moments().insert(
                index,
                (
                    moving(old(self).b1(), moments_of(old(self).moments(), index).0, grad),
                    moving(old(self).b0(), moments_of(old(self).moments(), index).1, grad),
                ),
            ),
            r == adam_step(
                old(self).lr(),
                moving(old(self).b1(), moments_of(old(self).moments(), index).0, grad),
                moving(old(self).b0(), moments_of(old(self).moments(), index).1, grad),
                old_value,
            ),
    {
        let (old_vel, old_mov) = match self.aux.get(&index) {
            Some(p) => *p,
            None => (V::from_int(0), V::from_int(0)),
        };
        let one = V::from_int(1);
        let vel = self.beta1.mul(old_vel).add(one.sub(self.beta1).mul(grad));
        let mov = self.beta0.mul(old_mov).add(one.sub(self.beta0).mul(grad));
        self.aux.insert(index, (vel, mov));
        let eps = V::from_int(1).div(V::from_int(100000000));
        old_value.sub(self.learning_rate.mul(mov).div(vel.sqrt().add(eps)))
    }
}

/// One of the update rules, chosen when the executor is built.
pub enum Optimizer<V> {
    SGD(SGD<V>),
    Adam(Adam<V>),
    AdaGrad(AdaGrad<V>),
}

/// What an optimizer is: its rule, its constants and its per-parameter state.
pub enum OptimizerModel<V> {
    SGD { lr: V },
    Adam { lr: V, b0: V, b1: V, moments: Map<usize, (V, V)> },
    AdaGrad { lr: V, history: Map<usize, V> },
}

impl<V> View for Optimizer<V> {
    type V = OptimizerModel<V>;

    open spec fn view(&self) -> OptimizerModel<V> {
        match self {
            Optimizer::SGD(o) => OptimizerModel::SGD { lr: o.lr() },
            Optimizer::Adam(o) => OptimizerModel::Adam {
                lr: o.lr(),
                b0: o.b0(),
                b1: o.b1(),
                moments: o.moments(),
            },
            Optimizer::AdaGrad(o) => OptimizerModel::AdaGrad { lr: o.lr(), history: o.history() },
        }
    }
}

/// The optimizer `o` after registering parameter `index`.
pub open spec fn register_model<V: Scalar>(o: OptimizerModel<V>, index: usize) -> OptimizerModel<
    V,
> {
    match o {
        OptimizerModel::SGD { lr } => OptimizerModel::SGD { lr },
        OptimizerModel::Adam { lr, b0, b1, moments } => OptimizerModel::Adam {
            lr,
            b0,
            b1,
            moments: if moments.contains_key(index) {
                moments
            } else {
                moments.insert(index, (V::spec_from_int(0), V::spec_from_int(0)))
            },
        },
        OptimizerModel::AdaGrad { lr, history } => OptimizerModel::AdaGrad {
            lr,
            history: if history.contains_key(index) {
                history
            } else {
                history.insert(index, V::spec_from_int(0))
            },
        },
    }
}

/// The optimizer `o` after updating parameter `index` with gradient `grad`.
pub open spec fn step_model<V: Scalar>(o: OptimizerModel<V>, index: usize, grad: V) -> OptimizerModel<
    V,
> {
    match o {
        OptimizerModel::SGD { lr } => OptimizerModel::SGD { lr },
        OptimizerModel::Adam { lr, b0, b1, moments } => OptimizerModel::Adam {
            lr,
            b0,
            b1,
            moments: moments.insert(
                index,
                (
                    moving(b1, moments_of(moments, index).0, grad),
                    moving(b0, moments_of(moments, index).1, grad),
                ),
            ),
        },
        OptimizerModel::AdaGrad { lr, history } => OptimizerModel::AdaGrad {
            lr,
            history: history.insert(
                index,
                adagrad_history(history_of(history, index), grad),
            ),
        },
    }
}

/// The new value of parameter `index` that `o` computes from `old_value` and
/// `grad`.
pub open spec fn step_value<V: Scalar>(
    o: OptimizerModel<V>,
    index: usize,
    old_value: V,
    grad: V,
) -> V {
    match o {
        OptimizerModel::SGD { lr } => sgd_step(lr, old_value, grad),
        OptimizerModel::Adam { lr, b0, b1, moments } => adam_step(
            lr,
            moving(b1, moments_of(moments, index).0, grad),
            moving(b0, moments_of(moments, index).1, grad),
            old_value,
        ),
        OptimizerModel::AdaGrad { lr, history } => adagrad_step(
            lr,
            adagrad_history(history_of(history, index), grad),
            old_value,
            grad,
        ),
    }
}

impl<V: Scalar> Optimize<V> for Optimizer<V> {
    fn register(&mut self, index: usize)
        ensures
            final(self)@ == register_model(old(self)@, index),
    {
        match self {
            Optimizer::SGD(sgd) => sgd.register(index),
            Optimizer::Adam(adam) => adam.register(index),
            Optimizer::AdaGrad(adagrad) => adagrad.register(index),
        }
    }

    fn optimize(&mut self, index: usize, old_value: V, grad: V) -> (r: V)
        ensures
            final(self)@ == step_model(old(self)@, index, grad),
            r == step_value(old(self)@, index, old_value, grad),
    {
        match self {
            Optimizer::SGD(sgd) => sgd.optimize(index, old_value, grad),
            Optimizer::Adam(adam) => adam.optimize(index, old_value, grad),
            Optimizer::AdaGrad(adagrad) => adagrad.optimize(index, old_value, grad),
        }
    }
}

} // verus!

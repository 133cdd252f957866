use crate::error::{is_missing_id, is_missing_key, missing_key, FFError};
use crate::float::Float;
use crate::graph::{names_view, Graph};
use crate::op::{backward_all, forward_all, Op};
use crate::optimizer::{register_model, step_model, step_value, Optimize, Optimizer, OptimizerModel};
use crate::scalar::Scalar;
use crate::store::Store;
use vstd::prelude::*;

verus! {

/// `vals[i]` is the first entry named `name`.
pub open spec fn first_named<V>(vals: Seq<(Seq<char>, V)>, name: Seq<char>, i: int) -> bool {
    &&& 0 <= i < vals.len()
    &&& vals[i].0 == name
    &&& forall|j: int| 0 <= j < i ==> vals[j].0 != name
}

/// The value of the first entry named `name`, if any.
pub open spec fn lookup<V>(vals: Seq<(Seq<char>, V)>, name: Seq<char>) -> Option<V> {
    if exists|i: int| first_named(vals, name, i) {
        Some(vals[choose|i: int| first_named(vals, name, i)].1)
    } else {
        None
    }
}

/// Every name of the registry `reg` has a value in `vals`.
pub open spec fn all_named<V>(reg: Seq<(Seq<char>, usize)>, vals: Seq<(Seq<char>, V)>) -> bool {
    forall|i: int| 0 <= i < reg.len() ==> (#[trigger] lookup(vals, reg[i].0)) is Some
}

/// `reg[i]` is the first entry of the registry whose name has no value.
pub open spec fn first_unnamed<V>(
    reg: Seq<(Seq<char>, usize)>,
    vals: Seq<(Seq<char>, V)>,
    i: int,
) -> bool {
    &&& 0 <= i < reg.len()
    &&& lookup(vals, reg[i].0) is None
    &&& forall|j: int| 0 <= j < i ==> (#[trigger] lookup(vals, reg[j].0)) is Some
}

/// The store after each node of `reg` was given a fresh cell with the value
/// of its name in `vals`, in registry order.
pub open spec fn fill<V: Scalar>(
    reg: Seq<(Seq<char>, usize)>,
    vals: Seq<(Seq<char>, V)>,
    need: bool,
    m: Map<usize, Float<V>>,
) -> Map<usize, Float<V>>
    decreases reg.len(),
{
    if reg.len() == 0 {
        m
    } else {
        fill(reg.drop_last(), vals, need, m).insert(
            reg.last().1,
            Float {
                value: lookup(vals, reg.last().0).unwrap(),
                grad: V::spec_from_int(0),
                is_need_grad: need,
            },
        )
    }
}

/// The optimizer after registering each node of `reg`, in order.
pub open spec fn register_each<V: Scalar>(
    reg: Seq<(Seq<char>, usize)>,
    o: OptimizerModel<V>,
) -> OptimizerModel<V>
    decreases reg.len(),
{
    if reg.len() == 0 {
        o
    } else {
        register_model(register_each(reg.drop_last(), o), reg.last().1)
    }
}

/// The store after each constant was given a fresh cell holding its value.
pub open spec fn fill_constants<V: Scalar>(cs: Seq<(usize, V)>, m: Map<usize, Float<V>>) -> Map<
    usize,
    Float<V>,
>
    decreases cs.len(),
{
    if cs.len() == 0 {
        m
    } else {
        fill_constants(cs.drop_last(), m).insert(
            cs.last().0,
            Float { value: cs.last().1, grad: V::spec_from_int(0), is_need_grad: false },
        )
    }
}

/// Every node of `reg` has a cell in `m`.
pub open spec fn all_present<V>(reg: Seq<(Seq<char>, usize)>, m: Map<usize, Float<V>>) -> bool {
    forall|i: int| 0 <= i < reg.len() ==> m.contains_key(#[trigger] reg[i].1)
}

/// `reg[i]` is the first node of the registry that has no cell in `m`.
pub open spec fn first_absent<V>(
    reg: Seq<(Seq<char>, usize)>,
    m: Map<usize, Float<V>>,
    i: int,
) -> bool {
    &&& 0 <= i < reg.len()
    &&& !m.contains_key(reg[i].1)
    &&& forall|j: int| 0 <= j < i ==> m.contains_key(#[trigger] reg[j].1)
}

/// The store after the gradient of each node of `reg` was set to zero.
pub open spec fn clear<V: Scalar>(reg: Seq<(Seq<char>, usize)>, m: Map<usize, Float<V>>) -> Map<
    usize,
    Float<V>,
>
    decreases reg.len(),
{
    if reg.len() == 0 {
        m
    } else {
        let m1 = clear(reg.drop_last(), m);
        let id = reg.last().1;
        m1.insert(
            id,
            Float { value: m1[id].value, grad: V::spec_from_int(0), is_need_grad: m1[id].is_need_grad },
        )
    }
}

/// The store and the optimizer after each node of `reg`, in order, was given
/// the value that the optimizer computes from its value and gradient.
pub open spec fn step_all<V: Scalar>(
    reg: Seq<(Seq<char>, usize)>,
    m: Map<usize, Float<V>>,
    o: OptimizerModel<V>,
) -> (Map<usize, Float<V>>, OptimizerModel<V>)
    decreases reg.len(),
{
    if reg.len() == 0 {
        (m, o)
    } else {
        let (m1, o1) = step_all(reg.drop_last(), m, o);
        let id = reg.last().1;
        let f = m1[id];
        (
            m1.insert(
                id,
                Float {
                    value: step_value(o1, id, f.value, f.grad),
                    grad: f.grad,
                    is_need_grad: f.is_need_grad,
                },
            ),
            step_model(o1, id, f.grad),
        )
    }
}

/// The store after the output's gradient is set to one, the seed of a
/// backward pass; `None` when the output has no cell.
pub open spec fn seed<V: Scalar>(m: Map<usize, Float<V>>, out: usize) -> Option<
    Map<usize, Float<V>>,
> {
    if m.contains_key(out) {
        Some(
            m.insert(
                out,
                Float {
                    value: m[out].value,
                    grad: V::spec_from_int(1),
                    is_need_grad: m[out].is_need_grad,
                },
            ),
        )
    } else {
        None
    }
}

/// One training step from store `m` and optimizer `o`: forward, backward
/// from the seeded output, an optimizer update of each parameter, and the
/// parameters' gradients set to zero. `None` when a lookup fails.
pub open spec fn step_spec<V: Scalar>(
    g: Graph<V>,
    m: Map<usize, Float<V>>,
    o: OptimizerModel<V>,
) -> Option<(Map<usize, Float<V>>, OptimizerModel<V>)> {
    let params = g.spec_parameters();
    match forward_all(g.spec_ops(), m) {
        None => None,
        Some(m1) => match seed(m1, g.spec_output()) {
            None => None,
            Some(m2) => match backward_all(g.spec_ops(), m2) {
                None => None,
                Some(m3) => if all_present(params, m3) {
                    let (m4, o4) = step_all(params, m3, o);
                    if all_present(params, m4) {
                        Some((clear(params, m4), o4))
                    } else {
                        None
                    }
                } else {
                    None
                },
            },
        },
    }
}

/// `n` training steps in a row; `None` when one of them fails.
pub open spec fn train_spec<V: Scalar>(
    g: Graph<V>,
    m: Map<usize, Float<V>>,
    o: OptimizerModel<V>,
    n: nat,
) -> Option<(Map<usize, Float<V>>, OptimizerModel<V>)>
    decreases n,
{
    if n == 0 {
        Some((m, o))
    } else {
        match train_spec(g, m, o, (n - 1) as nat) {
            None => None,
            Some((m1, o1)) => step_spec(g, m1, o1),
        }
    }
}

pub proof fn lemma_forward_none<V: Scalar>(ops: Seq<Op>, m: Map<usize, Float<V>>, i: int)
    requires
        0 <= i <= ops.len(),
        forward_all(ops.take(i), m) is None,
    ensures
        forward_all(ops, m) is None,
    decreases ops.len() - i,
{
    if i == ops.len() {
        assert(ops.take(i) =~= ops);
    } else {
        assert(ops.take(i + 1).drop_last() =~= ops.take(i));
        lemma_forward_none(ops, m, i + 1);
    }
}

/// The value of the first entry of `vals` named `name`.
pub fn find_value<T: Copy>(vals: &Vec<(String, T)>, name: &String) -> (r: Option<T>)
    ensures
        r == lookup(names_view(vals@), name@),
{
    let ghost vv = names_view(vals@);
    let mut i: usize = 0;
    while i < vals.len()
        invariant
            0 <= i <= vals.len(),
            vv == names_view(vals@),
            forall|j: int| 0 <= j < i ==> vv[j].0 != name@,
        decreases vals.len() - i,
    {
        if vals[i].0 == *name {
            proof {
                assert(first_named(vv, name@, i as int));
                let c = choose|k: int| first_named(vv, name@, k);
                if c < i {
                    assert(vv[c].0 != name@);
                } else if c > i {
                    assert(vv[i as int].0 != name@);
                }
            }
            return Some(vals[i].1);
        }
        i += 1;
    }
    proof {
        if exists|k: int| first_named(vv, name@, k) {
            let c = choose|k: int| first_named(vv, name@, k);
            assert(vv[c].0 != name@);
        }
    }
    None
}

/// Runs one graph against a store, and updates its parameters with one
/// optimizer.
pub struct Executor<V> {
    graph: Graph<V>,
    optimizer: Optimizer<V>,
}

impl<V> Executor<V> {
    pub closed spec fn graph(&self) -> &Graph<V> {
        &self.graph
    }

    pub closed spec fn optimizer(&self) -> OptimizerModel<V> {
        self.optimizer@
    }
}

impl<V: Scalar> Executor<V> {
    pub fn new(g: Graph<V>, opt: Optimizer<V>) -> (e: Executor<V>)
        ensures
            *e.graph() == g,
            e.optimizer() == opt@,
    {
        Executor { graph: g, optimizer: opt }
    }

    /// Replays the graph's operations in the order they were built.
    pub fn forward(&mut self, s: &mut Store<V>) -> (r: Result<(), FFError>)
        ensures
            *final(self) == *old(self),
            match r {
                Ok(()) => forward_all(old(self).graph().spec_ops(), old(s)@) == Some(final(s)@),
                Err(_) => forward_all(old(self).graph().spec_ops(), old(s)@) is None,
            },
    {
        let ghost m0 = s@;
        let ops = self.graph.get_ops();
        let mut i: usize = 0;
        assert(ops@.take(0) =~= Seq::<Op>::empty());
        while i < ops.len()
            invariant
                0 <= i <= ops.len(),
                ops@ == self.graph().spec_ops(),
                m0 == old(s)@,
                forward_all(ops@.take(i as int), m0) == Some(s@),
            decreases ops.len() - i,
        {
            assert(ops@.take(i + 1).drop_last() =~= ops@.take(i as int));
            assert(ops@.take(i + 1).last() == ops@[i as int]);
            match ops[i].forward(s) {
                Ok(()) => {},
                Err(e) => {
                    proof {
                        lemma_forward_none(ops@, m0, i + 1);
                    }
                    return Err(e);
                },
            }
            i += 1;
        }
        assert(ops@.take(ops.len() as int) =~= ops@);
        Ok(())
    }

    /// Seeds the output's gradient with one, then replays the operations'
    /// backward steps from the last built to the first.
    pub fn backward(&mut self, s: &mut Store<V>) -> (r: Result<(), FFError>)
        ensures
            *final(self) == *old(self),
            match r {
                Ok(()) => {
                    &&& seed(old(s)@, old(self).graph().spec_output()) is Some
                    &&& backward_all(
                        old(self).graph().spec_ops(),
                        seed(old(s)@, old(self).graph().spec_output()).unwrap(),
                    ) == Some(final(s)@)
                },
                Err(e) => match seed(old(s)@, old(self).graph().spec_output()) {
                    None => is_missing_id(e, old(self).graph().spec_output()),
                    Some(m1) => backward_all(old(self).graph().spec_ops(), m1) is None,
                },
            },
    {
        let output_id = self.graph.get_output();
        s.set_grad(output_id, V::from_int(1))?;
        let ghost m1 = s@;
        let ops = self.graph.get_ops();
        let mut i: usize = ops.len();
        assert(ops@.take(ops.len() as int) =~= ops@);
        while i > 0
            invariant
                0 <= i <= ops.len(),
                ops@ == self.graph().spec_ops(),
                seed(old(s)@, self.graph().spec_output()) == Some(m1),
                backward_all(ops@, m1) == backward_all(ops@.take(i as int), s@),
            decreases i,
        {
            assert(ops@.take(i as int).drop_last() =~= ops@.take(i - 1));
            assert(ops@.take(i as int).last() == ops@[i - 1]);
            match ops[i - 1].backward(s) {
                Ok(()) => {},
                Err(e) => {
                    return Err(e);
                },
            }
            i -= 1;
        }
        Ok(())
    }

    /// Gives each named input a fresh cell, without gradient, holding the
    /// value of its name in `input_values`.
    pub fn feed(&mut self, input_values: &Vec<(String, V)>, s: &mut Store<V>) -> (r: Result<
        (),
        FFError,
    >)
        ensures
            *final(self) == *old(self),
            match r {
                Ok(()) => {
                    &&& all_named(old(self).graph().spec_inputs(), names_view(input_values@))
                    &&& final(s)@ == fill(
                        old(self).graph().spec_inputs(),
                        names_view(input_values@),
                        false,
                        old(s)@,
                    )
                },
                Err(e) => exists|i: int|
                    first_unnamed(old(self).graph().spec_inputs(), names_view(input_values@), i)
                        && is_missing_key(e, old(self).graph().spec_inputs()[i].0),
            },
    {
        let ghost vv = names_view(input_values@);
        let reg = self.graph.get_inputs();
        let ghost rv = names_view(reg@);
        let mut i: usize = 0;
        assert(rv.take(0) =~= Seq::<(Seq<char>, usize)>::empty());
        while i < reg.len()
            invariant
                0 <= i <= reg.len(),
                vv == names_view(input_values@),
                rv == names_view(reg@),
                rv == self.graph().spec_inputs(),
                *self == *old(self),
                forall|j: int| 0 <= j < i ==> (#[trigger] lookup(vv, rv[j].0)) is Some,
                s@ == fill(rv.take(i as int), vv, false, old(s)@),
            decreases reg.len() - i,
        {
            assert(rv.take(i + 1).drop_last() =~= rv.take(i as int));
            assert(rv[i as int] == (reg@[i as int].0@, reg@[i as int].1));
            match find_value(input_values, &reg[i].0) {
                Some(v) => {
                    s.insert(reg[i].1, Float::new(v, false));
                },
                None => {
                    assert(first_unnamed(rv, vv, i as int));
                    return Err(missing_key(reg[i].0.as_str()));
                },
            }
            i += 1;
        }
        assert(rv.take(reg.len() as int) =~= rv);
        Ok(())
    }

    /// Gives each named parameter a fresh cell, with gradient, holding the
    /// value of its name in `input_values`, and registers it with the
    /// optimizer.
    pub fn init_parameter(&mut self, input_values: &Vec<(String, V)>, s: &mut Store<V>) -> (r:
        Result<(), FFError>)
        ensures
            final(self).graph() == old(self).graph(),
            match r {
                Ok(()) => {
                    &&& all_named(old(self).graph().spec_parameters(), names_view(input_values@))
                    &&& final(s)@ == fill(
                        old(self).graph().spec_parameters(),
                        names_view(input_values@),
                        true,
                        old(s)@,
                    )
                    &&& final(self).optimizer() == register_each(
                        old(self).graph().spec_parameters(),
                        old(self).optimizer(),
                    )
                },
                Err(e) => exists|i: int|
                    first_unnamed(
                        old(self).graph().spec_parameters(),
                        names_view(input_values@),
                        i,
                    ) && is_missing_key(e, old(self).graph().spec_parameters()[i].0),
            },
    {
        let ghost vv = names_view(input_values@);
        let reg = self.graph.get_parameters();
        let ghost rv = names_view(reg@);
        let mut i: usize = 0;
        assert(rv.take(0) =~= Seq::<(Seq<char>, usize)>::empty());
        while i < reg.len()
            invariant
                0 <= i <= reg.len(),
                vv == names_view(input_values@),
                rv == names_view(reg@),
                rv == self.graph().spec_parameters(),
                self.graph() == old(self).graph(),
                forall|j: int| 0 <= j < i ==> (#[trigger] lookup(vv, rv[j].0)) is Some,
                s@ == fill(rv.take(i as int), vv, true, old(s)@),
                self.optimizer() == register_each(rv.take(i as int), old(self).optimizer()),
            decreases reg.len() - i,
        {
            assert(rv.take(i + 1).drop_last() =~= rv.take(i as int));
            assert(rv[i as int] == (reg@[i as int].0@, reg@[i as int].1));
            match find_value(input_values, &reg[i].0) {
                Some(v) => {
                    s.insert(reg[i].1, Float::new(v, true));
                    self.optimizer.register(reg[i].1);
                },
                None => {
                    assert(first_unnamed(rv, vv, i as int));
                    return Err(missing_key(reg[i].0.as_str()));
                },
            }
            i += 1;
        }
        assert(rv.take(reg.len() as int) =~= rv);
        Ok(())
    }

    /// Gives each constant a fresh cell, without gradient, holding its value.
    pub fn init_contants(&mut self, s: &mut Store<V>)
        ensures
            *final(self) == *old(self),
            final(s)@ == fill_constants(old(self).graph().spec_constants(), old(s)@),
    {
        let cs = self.graph.get_constants();
        let mut i: usize = 0;
        assert(cs@.take(0) =~= Seq::<(usize, V)>::empty());
        while i < cs.len()
            invariant
                0 <= i <= cs.len(),
                cs@ == self.graph().spec_constants(),
                *self == *old(self),
                s@ == fill_constants(cs@.take(i as int), old(s)@),
            decreases cs.len() - i,
        {
            assert(cs@.take(i + 1).drop_last() =~= cs@.take(i as int));
            let (index, value) = cs[i];
            s.insert(index, Float::new(value, false));
            i += 1;
        }
        assert(cs@.take(cs.len() as int) =~= cs@);
    }

    /// Sets the gradient of each parameter to zero.
    pub fn clear_grad(&mut self, s: &mut Store<V>) -> (r: Result<(), FFError>)
        ensures
            *final(self) == *old(self),
            match r {
                Ok(()) => {
                    &&& all_present(old(self).graph().spec_parameters(), old(s)@)
                    &&& final(s)@ == clear(old(self).graph().spec_parameters(), old(s)@)
                },
                Err(e) => exists|i: int|
                    first_absent(old(self).graph().spec_parameters(), old(s)@, i) && is_missing_id(
                        e,
                        old(self).graph().spec_parameters()[i].1,
                    ),
            },
    {
        let reg = self.graph.get_parameters();
        let ghost rv = names_view(reg@);
        let mut i: usize = 0;
        assert(rv.take(0) =~= Seq::<(Seq<char>, usize)>::empty());
        while i < reg.len()
            invariant
                0 <= i <= reg.len(),
                rv == names_view(reg@),
                rv == self.graph().spec_parameters(),
                *self == *old(self),
                forall|j: int| 0 <= j < i ==> old(s)@.contains_key(#[trigger] rv[j].1),
                s@.dom() == old(s)@.dom(),
                s@ == clear(rv.take(i as int), old(s)@),
            decreases reg.len() - i,
        {
            assert(rv.take(i + 1).drop_last() =~= rv.take(i as int));
            assert(rv[i as int] == (reg@[i as int].0@, reg@[i as int].1));
            match s.set_grad(reg[i].1, V::from_int(0)) {
                Ok(()) => {
                    assert(s@.dom() =~= old(s)@.dom());
                },
                Err(e) => {
                    assert(first_absent(rv, old(s)@, i as int));
                    return Err(e);
                },
            }
            i += 1;
        }
        assert(rv.take(reg.len() as int) =~= rv);
        Ok(())
    }

    /// Gives each parameter the value that the optimizer computes from its
    /// value and gradient; the gradients stay as they are.
    pub fn optimize(&mut self, s: &mut Store<V>) -> (r: Result<(), FFError>)
        ensures
            final(self).graph() == old(self).graph(),
            match r {
                Ok(()) => {
                    &&& all_present(old(self).graph().spec_parameters(), old(s)@)
                    &&& (final(s)@, final(self).optimizer()) == step_all(
                        old(self).graph().spec_parameters(),
                        old(s)@,
                        old(self).optimizer(),
                    )
                },
                Err(e) => exists|i: int|
                    first_absent(old(self).graph().spec_parameters(), old(s)@, i) && is_missing_id(
                        e,
                        old(self).graph().spec_parameters()[i].1,
                    ),
            },
    {
        let reg = self.graph.get_parameters();
        let ghost rv = names_view(reg@);
        let mut i: usize = 0;
        assert(rv.take(0) =~= Seq::<(Seq<char>, usize)>::empty());
        while i < reg.len()
            invariant
                0 <= i <= reg.len(),
                rv == names_view(reg@),
                rv == self.graph().spec_parameters(),
                self.graph() == old(self).graph(),
                forall|j: int| 0 <= j < i ==> old(s)@.contains_key(#[trigger] rv[j].1),
                s@.dom() == old(s)@.dom(),
                (s@, self.optimizer()) == step_all(rv.take(i as int), old(s)@, old(self).optimizer()),
            decreases reg.len() - i,
        {
            assert(rv.take(i + 1).drop_last() =~= rv.take(i as int));
            assert(rv[i as int] == (reg@[i as int].0@, reg@[i as int].1));
            let index = reg[i].1;
            match s.fetch(index) {
                Ok(f) => {
                    let value = self.optimizer.optimize(index, f.value, f.grad);
                    s.insert(index, Float { value, grad: f.grad, is_need_grad: f.is_need_grad });
                    assert(s@.dom() =~= old(s)@.dom());
                },
                Err(e) => {
                    assert(first_absent(rv, old(s)@, i as int));
                    return Err(e);
                },
            }
            i += 1;
        }
        assert(rv.take(reg.len() as int) =~= rv);
        Ok(())
    }

    /// The cell of the output node.
    pub fn get_output_value(&self, s: &Store<V>) -> (r: Result<Float<V>, FFError>)
        ensures
            match r {
                Ok(f) => s@.contains_key(self.graph().spec_output()) && f == s@[self.graph().spec_output()],
                Err(e) => !s@.contains_key(self.graph().spec_output()) && is_missing_id(
                    e,
                    self.graph().spec_output(),
                ),
            },
    {
        s.fetch(self.graph.get_output())
    }

    /// The cell of node `index`.
    pub fn get_value(&self, index: usize, s: &Store<V>) -> (r: Result<Float<V>, FFError>)
        ensures
            match r {
                Ok(f) => s@.contains_key(index) && f == s@[index],
                Err(e) => !s@.contains_key(index) && is_missing_id(e, index),
            },
    {
        s.fetch(index)
    }

    /// Each parameter's name with its cell, in registry order.
    pub fn get_parameters(&self, s: &Store<V>) -> (r: Vec<Result<(String, Float<V>), FFError>>)
        ensures
            r.len() == self.graph().spec_parameters().len(),
            forall|i: int|
                0 <= i < r.len() ==> match #[trigger] r@[i] {
                    Ok((name, f)) => {
                        &&& name@ == self.graph().spec_parameters()[i].0
                        &&& s@.contains_key(self.graph().spec_parameters()[i].1)
                        &&& f == s@[self.graph().spec_parameters()[i].1]
                    },
                    Err(e) => !s@.contains_key(self.graph().spec_parameters()[i].1)
                        && is_missing_id(e, self.graph().spec_parameters()[i].1),
                },
    {
        let reg = self.graph.get_parameters();
        let ghost rv = names_view(reg@);
        let mut out: Vec<Result<(String, Float<V>), FFError>> = Vec::new();
        let mut i: usize = 0;
        while i < reg.len()
            invariant
                0 <= i <= reg.len(),
                rv == names_view(reg@),
                rv == self.graph().spec_parameters(),
                out.len() == i,
                forall|j: int|
                    0 <= j < i ==> match #[trigger] out@[j] {
                        Ok((name, f)) => {
                            &&& name@ == rv[j].0
                            &&& s@.contains_key(rv[j].1)
                            &&& f == s@[rv[j].1]
                        },
                        Err(e) => !s@.contains_key(rv[j].1) && is_missing_id(e, rv[j].1),
                    },
            decreases reg.len() - i,
        {
            assert(rv[i as int] == (reg@[i as int].0@, reg@[i as int].1));
            let item = match s.fetch(reg[i].1) {
                Ok(f) => Ok((reg[i].0.clone(), f)),
                Err(e) => Err(e),
            };
            out.push(item);
            i += 1;
        }
        out
    }

    /// One training step: forward, backward, optimize, then clear the
    /// parameters' gradients.
    pub fn step(&mut self, s: &mut Store<V>) -> (r: Result<(), FFError>)
        ensures
            final(self).graph() == old(self).graph(),
            match r {
                Ok(()) => step_spec(*old(self).graph(), old(s)@, old(self).optimizer()) == Some(
                    (final(s)@, final(self).optimizer()),
                ),
                Err(_) => step_spec(*old(self).graph(), old(s)@, old(self).optimizer()) is None,
            },
    {
        match self.forward(s) {
            Ok(()) => {},
            Err(e) => return Err(e),
        }
        match self.backward(s) {
            Ok(()) => {},
            Err(e) => return Err(e),
        }
        let ghost m3 = s@;
        match self.optimize(s) {
            Ok(()) => {},
            Err(e) => {
                proof {
                    let i = choose|i: int| first_absent(self.graph().spec_parameters(), m3, i);
                    assert(!m3.contains_key(self.graph().spec_parameters()[i].1));
                }
                return Err(e);
            },
        }
        let ghost m4 = s@;
        match self.clear_grad(s) {
            Ok(()) => {},
            Err(e) => {
                proof {
                    let i = choose|i: int| first_absent(self.graph().spec_parameters(), m4, i);
                    assert(!m4.contains_key(self.graph().spec_parameters()[i].1));
                }
                return Err(e);
            },
        }
        Ok(())
    }

    /// `iterations` training steps in a row, stopping at the first failure.
    /// No step at all leaves the store and the optimizer as they were.
    pub fn train(&mut self, s: &mut Store<V>, iterations: usize) -> (r: Result<(), FFError>)
        ensures
            final(self).graph() == old(self).graph(),
            match r {
                Ok(()) => train_spec(
                    *old(self).graph(),
                    old(s)@,
                    old(self).optimizer(),
                    iterations as nat,
                ) == Some((final(s)@, final(self).optimizer())),
                Err(_) => train_spec(
                    *old(self).graph(),
                    old(s)@,
                    old(self).optimizer(),
                    iterations as nat,
                ) is None,
            },
            iterations == 0 ==> r is Ok && final(s)@ == old(s)@ && final(self).optimizer()
                == old(self).optimizer(),
    {
        let mut i: usize = 0;
        while i < iterations
            invariant
                0 <= i <= iterations,
                self.graph() == old(self).graph(),
                train_spec(*old(self).graph(), old(s)@, old(self).optimizer(), i as nat) == Some(
                    (s@, self.optimizer()),
                ),
            decreases iterations - i,
        {
            match self.step(s) {
                Ok(()) => {},
                Err(e) => {
                    proof {
                        lemma_train_none(
                            *old(self).graph(),
                            old(s)@,
                            old(self).optimizer(),
                            (i + 1) as nat,
                            iterations as nat,
                        );
                    }
                    return Err(e);
                },
            }
            i += 1;
        }
        Ok(())
    }
}

/// Once a step fails, every longer run fails too.
pub proof fn lemma_train_none<V: Scalar>(
    g: Graph<V>,
    m: Map<usize, Float<V>>,
    o: OptimizerModel<V>,
    i: nat,
    n: nat,
)
    requires
        i <= n,
        train_spec(g, m, o, i) is None,
    ensures
        train_spec(g, m, o, n) is None,
    decreases n - i,
{
    if i < n {
        lemma_train_none(g, m, o, i + 1, n);
    }
}

/// Training for no iterations leaves every cell, parameters included, and the
/// optimizer's state as they were.
pub proof fn law_train_zero_steps<V: Scalar>(
    g: Graph<V>,
    m: Map<usize, Float<V>>,
    o: OptimizerModel<V>,
)
    ensures
        train_spec(g, m, o, 0) == Some((m, o)),
{
}

} // verus!

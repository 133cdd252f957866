use crate::executor::{find_value, lookup};
use crate::graph::{
    binary_exponentiation,
    bind_name,
    fold_ops,
    fold_result,
    lemma_log2_usize,
    log2,

    names_unique,
    names_view,
    power_ops,
    power_result,
    sum,
    Graph,
    NodeAllocator,
};
use crate::op::Op;
use crate::scalar::Scalar;
use vstd::prelude::*;
use vstd::string::StringExecFns;

verus! {

/// What a term is: a coefficient times a product of variables, each raised to
/// an order.
pub struct TermModel<V> {
    pub coefficient: V,
    pub variables: Seq<(Seq<char>, usize)>,
}

/// A product of variables, each with its order, times a coefficient.
#[derive(Debug)]
pub struct Term<V> {
    coefficient: V,
    variables: Vec<(String, usize)>,
}

/// The order of `name` in `vars`; zero where it does not occur.
pub open spec fn order_of(vars: Seq<(Seq<char>, usize)>, name: Seq<char>) -> nat {
    match lookup(vars, name) {
        Some(o) => o as nat,
        None => 0,
    }
}

/// `vars` with `order` added to the order of `name`, which is appended where
/// it does not occur yet.
pub open spec fn raise(vars: Seq<(Seq<char>, usize)>, name: Seq<char>, order: usize) -> Seq<
    (Seq<char>, usize),
> {
    bind_name(vars, name, (order_of(vars, name) + order) as usize)
}

impl<V> Term<V> {
    pub closed spec fn view(&self) -> TermModel<V> {
        TermModel { coefficient: self.coefficient, variables: names_view(self.variables@) }
    }

    /// Each variable occurs once.
    pub open spec fn wf(&self) -> bool {
        names_unique(self.view().variables)
    }
}

impl<V: Scalar> Term<V> {
    /// The term `1`.
    pub fn new() -> (t: Term<V>)
        ensures
            t.view().coefficient == V::spec_from_int(1),
            t.view().variables == Seq::<(Seq<char>, usize)>::empty(),
            t.wf(),
    {
        let t = Term { coefficient: V::from_int(1), variables: Vec::new() };
        assert(t.view().variables =~= Seq::<(Seq<char>, usize)>::empty());
        t
    }

    pub fn set_coefficient(&mut self, cof: V)
        ensures
            final(self).view().coefficient == cof,
            final(self).view().variables == old(self).view().variables,
    {
        self.coefficient = cof;
    }

    /// Multiplies the term by `name ^ order`.
    pub fn add_variable(&mut self, name: &str, order: usize)
        requires
            old(self).wf(),
            order_of(old(self).view().variables, name@) + order <= usize::MAX,
        ensures
            final(self).wf(),
            final(self).view().coefficient == old(self).view().coefficient,
            final(self).view().variables == raise(old(self).view().variables, name@, order),
    {
        let ghost v = names_view(self.variables@);
        let key = String::from_str(name);
        let mut i: usize = 0;
        while i < self.variables.len()
            invariant
                0 <= i <= self.variables.len(),
                self.variables@ == old(self).variables@,
                self.coefficient == old(self).coefficient,
                v == names_view(self.variables@),
                names_unique(v),
                key@ == name@,
                order_of(v, name@) + order <= usize::MAX,
                forall|j: int| 0 <= j < i ==> v[j].0 != name@,
            decreases self.variables.len() - i,
        {
            if self.variables[i].0 == key {
                proof {
                    assert(crate::executor::first_named(v, name@, i as int));
                    let c = choose|k: int| crate::executor::first_named(v, name@, k);
                    if c < i {
                        assert(v[c].0 != name@);
                    } else if c > i {
                        assert(v[i as int].0 != name@);
                    }
                    let d = choose|k: int| 0 <= k < v.len() && v[k].0 == name@;
                    if d < i as int {
                        assert(v[d].0 != v[i as int].0);
                    } else if d > i as int {
                        assert(v[i as int].0 != v[d].0);
                    }
                }
                let total = self.variables[i].1 + order;
                self.variables.set(i, (key, total));
                proof {
                    assert(names_view(self.variables@) =~= v.update(i as int, (name@, total)));
                }
                return;
            }
            i += 1;
        }
        proof {
            if exists|k: int| crate::executor::first_named(v, name@, k) {
                let c = choose|k: int| crate::executor::first_named(v, name@, k);
                assert(v[c].0 != name@);
            }
        }
        self.variables.push((key, order));
        proof {
            assert(names_view(self.variables@) =~= v.push((name@, order)));
        }
    }
}

/// What graph building has produced so far: the operations, the parameters
/// and the constants of the graph, the last id handed out, and the cache
/// from variable names to their parameter nodes.
pub struct BuildState<V> {
    pub ops: Seq<Op>,
    pub params: Seq<(Seq<char>, usize)>,
    pub consts: Seq<(usize, V)>,
    pub last: nat,
    pub cache: Seq<(Seq<char>, usize)>,
}

pub open spec fn state_of<V>(g: Graph<V>, a: NodeAllocator, cache: Seq<(Seq<char>, usize)>) -> BuildState<V> {
    BuildState {
        ops: g.spec_ops(),
        params: g.spec_parameters(),
        consts: g.spec_constants(),
        last: a.last(),
        cache,
    }
}

/// The parameter node of variable `name`: the cached one, or else a new
/// parameter, which the cache then records.
pub open spec fn param_step<V>(st: BuildState<V>, name: Seq<char>) -> (BuildState<V>, usize) {
    match lookup(st.cache, name) {
        Some(id) => (st, id),
        None => {
            let id = (st.last + 1) as usize;
            (
                BuildState {
                    ops: st.ops,
                    params: bind_name(st.params, name, id),
                    consts: st.consts,
                    last: st.last + 1,
                    cache: st.cache.push((name, id)),
                },
                id,
            )
        },
    }
}

/// The node of `var ^ k`, built as `binary_exponentiation` builds it.
pub open spec fn power_step<V: Scalar>(st: BuildState<V>, var: usize, k: usize) -> (
    BuildState<V>,
    usize,
) {
    if k == 0 {
        let id = (st.last + 1) as usize;
        (
            BuildState {
                ops: st.ops,
                params: st.params,
                consts: st.consts.push((id, V::spec_from_int(1))),
                last: st.last + 1,
                cache: st.cache,
            },
            id,
        )
    } else if k == 1 {
        (st, var)
    } else {
        let new_ops = power_ops(var, k as nat, st.last);
        (
            BuildState {
                ops: st.ops + new_ops,
                params: st.params,
                consts: st.consts,
                last: st.last + new_ops.len(),
                cache: st.cache,
            },
            power_result(var, k as nat, st.last),
        )
    }
}

/// The nodes of the powers of a term's variables, in order.
pub open spec fn vars_step<V: Scalar>(st: BuildState<V>, vars: Seq<(Seq<char>, usize)>) -> (
    BuildState<V>,
    Seq<usize>,
)
    decreases vars.len(),
{
    if vars.len() == 0 {
        (st, Seq::empty())
    } else {
        let (s1, ids) = vars_step(st, vars.drop_last());
        let (s2, p) = param_step(s1, vars.last().0);
        let (s3, e) = power_step(s2, p, vars.last().1);
        (s3, ids.push(e))
    }
}

/// The factors of a term: the powers, and a constant node of the
/// coefficient where it is not one or where there are no powers.
pub open spec fn coef_step<V: Scalar>(st: BuildState<V>, coefficient: V, ids: Seq<usize>) -> (
    BuildState<V>,
    Seq<usize>,
) {
    if !V::spec_eq(coefficient, V::spec_from_int(1)) || ids.len() == 0 {
        let id = (st.last + 1) as usize;
        (
            BuildState {
                ops: st.ops,
                params: st.params,
                consts: st.consts.push((id, coefficient)),
                last: st.last + 1,
                cache: st.cache,
            },
            ids.push(id),
        )
    } else {
        (st, ids)
    }
}

/// The left fold of `ids` by sums or products, as `sum` and `mul` build it.
pub open spec fn fold_step<V>(st: BuildState<V>, ids: Seq<usize>, product: bool) -> (
    BuildState<V>,
    usize,
) {
    (
        BuildState {
            ops: st.ops + fold_ops(ids, st.last, product),
            params: st.params,
            consts: st.consts,
            last: (st.last + ids.len() - 1) as nat,
            cache: st.cache,
        },
        fold_result(ids, st.last, ids.len() - 1),
    )
}

/// The node of a term: the product of its factors.
pub open spec fn term_step<V: Scalar>(st: BuildState<V>, t: TermModel<V>) -> (BuildState<V>, usize) {
    let (s1, ids) = vars_step(st, t.variables);
    let (s2, factors) = coef_step(s1, t.coefficient, ids);
    fold_step(s2, factors, true)
}

/// The nodes of the terms, in order.
pub open spec fn terms_step<V: Scalar>(st: BuildState<V>, terms: Seq<TermModel<V>>) -> (
    BuildState<V>,
    Seq<usize>,
)
    decreases terms.len(),
{
    if terms.len() == 0 {
        (st, Seq::empty())
    } else {
        let (s1, ids) = terms_step(st, terms.drop_last());
        let (s2, t) = term_step(s1, terms.last());
        (s2, ids.push(t))
    }
}

/// The graph of a polynomial: the sum of its terms, then that sum squared,
/// the square being the output.
pub open spec fn poly_step<V: Scalar>(st: BuildState<V>, terms: Seq<TermModel<V>>) -> (
    BuildState<V>,
    usize,
) {
    let (s1, ids) = terms_step(st, terms);
    let (s2, total) = fold_step(s1, ids, false);
    let loss = (s2.last + 1) as usize;
    (
        BuildState {
            ops: s2.ops.push(Op::Mul(total, total, loss)),
            params: s2.params,
            consts: s2.consts,
            last: s2.last + 1,
            cache: s2.cache,
        },
        loss,
    )
}

/// An upper bound on the ids that building the terms takes.
pub open spec fn budget<V>(terms: Seq<TermModel<V>>) -> nat
    decreases terms.len(),
{
    if terms.len() == 0 {
        0
    } else {
        budget(terms.drop_last()) + 128 * terms.last().variables.len() + 2
    }
}

pub proof fn lemma_budget_prefix<V>(terms: Seq<TermModel<V>>, i: int)
    requires
        0 <= i <= terms.len(),
    ensures
        budget(terms.take(i)) <= budget(terms),
    decreases terms.len() - i,
{
    if i < terms.len() {
        assert(terms.take(i + 1).drop_last() =~= terms.take(i));
        lemma_budget_prefix(terms, i + 1);
    } else {
        assert(terms.take(i) =~= terms);
    }
}

/// The parameter node of variable `name`, from the cache or new.
fn var_node<V: Scalar>(
    name: &String,
    g: &mut Graph<V>,
    cache: &mut Vec<(String, usize)>,
    allocator: &mut NodeAllocator,
) -> (r: usize)
    requires
        old(g).wf(),
        old(allocator).last() < usize::MAX,
    ensures
        final(g).wf(),
        (state_of(*final(g), *final(allocator), names_view(final(cache)@)), r) == param_step(
            state_of(*old(g), *old(allocator), names_view(old(cache)@)),
            name@,
        ),
        final(g).spec_inputs() == old(g).spec_inputs(),
        final(g).spec_output() == old(g).spec_output(),
{
    match find_value(cache, name) {
        Some(id) => id,
        None => {
            let id = g.parameter(name.as_str(), allocator);
            cache.push((name.clone(), id));
            assert(names_view(cache@) =~= names_view(old(cache)@).push((name@, id)));
            id
        },
    }
}

/// The node of one term.
fn term_node<V: Scalar>(
    t: &Term<V>,
    g: &mut Graph<V>,
    cache: &mut Vec<(String, usize)>,
    allocator: &mut NodeAllocator,
) -> (r: usize)
    requires
        old(g).wf(),
        old(allocator).last() + 128 * t.view().variables.len() + 2 <= usize::MAX,
    ensures
        final(g).wf(),
        (state_of(*final(g), *final(allocator), names_view(final(cache)@)), r) == term_step(
            state_of(*old(g), *old(allocator), names_view(old(cache)@)),
            t.view(),
        ),
        final(allocator).last() <= old(allocator).last() + 128 * t.view().variables.len() + 1,
        final(g).spec_inputs() == old(g).spec_inputs(),
        final(g).spec_output() == old(g).spec_output(),
{
    let ghost st0 = state_of(*g, *allocator, names_view(cache@));
    let ghost vars = t.view().variables;
    let mut factors: Vec<usize> = Vec::new();
    let mut j: usize = 0;
    assert(vars.take(0) =~= Seq::<(Seq<char>, usize)>::empty());
    while j < t.variables.len()
        invariant
            0 <= j <= t.variables.len(),
            vars == names_view(t.variables@),
            vars == t.view().variables,
            st0 == state_of(*old(g), *old(allocator), names_view(old(cache)@)),
            old(allocator).last() + 128 * vars.len() + 2 <= usize::MAX,
            g.wf(),
            allocator.last() <= old(allocator).last() + 127 * j,
            factors.len() == j,
            (state_of(*g, *allocator, names_view(cache@)), factors@) == vars_step(
                st0,
                vars.take(j as int),
            ),
            g.spec_inputs() == old(g).spec_inputs(),
            g.spec_output() == old(g).spec_output(),
        decreases t.variables.len() - j,
    {
        assert(vars.take(j + 1).drop_last() =~= vars.take(j as int));
        assert(vars[j as int] == (t.variables@[j as int].0@, t.variables@[j as int].1));
        let order = t.variables[j].1;
        let var = var_node(&t.variables[j].0, g, cache, allocator);
        proof {
            lemma_log2_usize(order);
        }
        let e = binary_exponentiation(var, order, g, allocator);
        factors.push(e);
        j += 1;
    }
    assert(vars.take(vars.len() as int) =~= vars);
    if !t.coefficient.is_equal(V::from_int(1)) || factors.len() == 0 {
        let c = g.constant(t.coefficient, allocator);
        factors.push(c);
    }
    crate::graph::mul(&factors, g, allocator)
}

/// A sum of terms.
#[derive(Debug)]
pub struct Polynomial<V> {
    terms: Vec<Term<V>>,
}

impl<V> Polynomial<V> {
    pub closed spec fn view(&self) -> Seq<TermModel<V>> {
        self.terms@.map_values(|t: Term<V>| t.view())
    }
}

impl<V: Scalar> Polynomial<V> {
    /// The polynomial without terms.
    pub fn new() -> (p: Polynomial<V>)
        ensures
            p.view() == Seq::<TermModel<V>>::empty(),
    {
        let p = Polynomial { terms: Vec::new() };
        assert(p.view() =~= Seq::<TermModel<V>>::empty());
        p
    }

    pub fn term_count(&self) -> (r: usize)
        ensures
            r == self.view().len(),
    {
        self.terms.len()
    }

    pub fn add_term(&mut self, t: Term<V>)
        ensures
            final(self).view() == old(self).view().push(t.view()),
    {
        self.terms.push(t);
        assert(self.view() =~= old(self).view().push(t.view()));
    }

    /// A graph whose output is the square of the polynomial. Each variable
    /// becomes a parameter named after it, shared through `name_to_index`
    /// with the graphs of other polynomials built on the same allocator.
    pub fn tranform_to_graph(
        &self,
        name_to_index: &mut Vec<(String, usize)>,
        allocator: &mut NodeAllocator,
    ) -> (g: Graph<V>)
        requires
            self.view().len() > 0,
            old(allocator).last() + budget(self.view()) + 1 <= usize::MAX,
        ensures
            ({
                let st0 = BuildState {
                    ops: Seq::empty(),
                    params: Seq::empty(),
                    consts: Seq::empty(),
                    last: old(allocator).last(),
                    cache: names_view(old(name_to_index)@),
                };
                let (st, loss) = poly_step(st0, self.view());
                &&& state_of(g, *final(allocator), names_view(final(name_to_index)@)) == st
                &&& g.spec_output() == loss
                &&& g.spec_inputs() == Seq::<(Seq<char>, usize)>::empty()
            }),
    {
        let mut g: Graph<V> = Graph::new();
        let ghost st0 = state_of(g, *allocator, names_view(name_to_index@));
        let ghost terms = self.view();
        let mut results: Vec<usize> = Vec::new();
        let mut i: usize = 0;
        assert(terms.take(0) =~= Seq::<TermModel<V>>::empty());
        while i < self.terms.len()
            invariant
                0 <= i <= self.terms.len(),
                terms == self.view(),
                terms.len() == self.terms.len(),
                st0.ops == Seq::<Op>::empty(),
                st0.params == Seq::<(Seq<char>, usize)>::empty(),
                st0.consts == Seq::<(usize, V)>::empty(),
                st0.last == old(allocator).last(),
                st0.cache == names_view(old(name_to_index)@),
                old(allocator).last() + budget(terms) + 1 <= usize::MAX,
                g.wf(),
                allocator.last() + i <= old(allocator).last() + budget(terms.take(i as int)),
                results.len() == i,
                (state_of(g, *allocator, names_view(name_to_index@)), results@) == terms_step(
                    st0,
                    terms.take(i as int),
                ),
                g.spec_inputs() == Seq::<(Seq<char>, usize)>::empty(),
                g.spec_output() == 0,
            decreases self.terms.len() - i,
        {
            assert(terms.take(i + 1).drop_last() =~= terms.take(i as int));
            assert(terms[i as int] == self.terms@[i as int].view());
            proof {
                lemma_budget_prefix(terms, i + 1);
            }
            let r = term_node(&self.terms[i], &mut g, name_to_index, allocator);
            results.push(r);
            i += 1;
        }
        assert(terms.take(terms.len() as int) =~= terms);
        let output = sum(&results, &mut g, allocator);
        let loss = g.mul(output, output, allocator);
        g.output(loss);
        g
    }
}

} // verus!

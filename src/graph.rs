use crate::op::Op;
use crate::scalar::Scalar;
use vstd::arithmetic::power2::{lemma2_to64, lemma_pow2_unfold, pow2};
use vstd::prelude::*;
use vstd::string::StringExecFns;

verus! {

/// Hands out node ids: 1, 2, 3, ... in order, never the same one twice.
/// Zero is never handed out.
pub struct NodeAllocator {
    counter: usize,
}

impl NodeAllocator {
    /// The last id handed out; zero before the first.
    pub closed spec fn last(&self) -> nat {
        self.counter as nat
    }

    pub fn new() -> (a: NodeAllocator)
        ensures
            a.last() == 0,
    {
        NodeAllocator { counter: 0 }
    }

    /// The next id: one above the last one handed out.
    pub fn alloc_index(&mut self) -> (r: usize)
        requires
            old(self).last() < usize::MAX,
        ensures
            r == old(self).last() + 1,
            final(self).last() == r,
    {
        self.counter += 1;
        self.counter
    }
}

/// A registry of names: each name once, with the id last registered under it.
pub open spec fn names_unique<T>(reg: Seq<(Seq<char>, T)>) -> bool {
    forall|i: int, j: int| 0 <= i < j < reg.len() ==> reg[i].0 != reg[j].0
}

/// `reg` with `name` bound to `id`: in place of the entry of `name` if there
/// is one, else as a new last entry.
pub open spec fn bind_name<T>(reg: Seq<(Seq<char>, T)>, name: Seq<char>, id: T) -> Seq<
    (Seq<char>, T),
> {
    if exists|i: int| 0 <= i < reg.len() && reg[i].0 == name {
        reg.update(choose|i: int| 0 <= i < reg.len() && reg[i].0 == name, (name, id))
    } else {
        reg.push((name, id))
    }
}

/// The view of a registry held as pairs of a `String` and a value.
pub open spec fn names_view<T>(reg: Seq<(String, T)>) -> Seq<(Seq<char>, T)> {
    reg.map_values(|p: (String, T)| (p.0@, p.1))
}

/// A computation graph: operations in the order they were built (an order in
/// which every operand comes before its use), the named inputs and
/// parameters, the constants with their values, and the output node (zero
/// until one is set).
#[derive(Debug)]
pub struct Graph<V> {
    ops: Vec<Op>,
    inputs: Vec<(String, usize)>,
    parameters: Vec<(String, usize)>,
    constants: Vec<(usize, V)>,
    output: usize,
}

impl<V> Graph<V> {
    pub closed spec fn spec_ops(&self) -> Seq<Op> {
        self.ops@
    }

    pub closed spec fn spec_inputs(&self) -> Seq<(Seq<char>, usize)> {
        names_view(self.inputs@)
    }

    pub closed spec fn spec_parameters(&self) -> Seq<(Seq<char>, usize)> {
        names_view(self.parameters@)
    }

    pub closed spec fn spec_constants(&self) -> Seq<(usize, V)> {
        self.constants@
    }

    pub closed spec fn spec_output(&self) -> usize {
        self.output
    }

    /// Each input name and each parameter name is registered once.
    pub open spec fn wf(&self) -> bool {
        names_unique(self.spec_inputs()) && names_unique(self.spec_parameters())
    }
}

/// Binds `name` to `id` in `reg`, in place of an earlier binding of `name`.
pub fn bind<T>(reg: &mut Vec<(String, T)>, name: &str, id: T)
    requires
        names_unique(names_view(old(reg)@)),
    ensures
        names_view(final(reg)@) == bind_name(names_view(old(reg)@), name@, id),
        names_unique(names_view(final(reg)@)),
{
    let key = String::from_str(name);
    let ghost v = names_view(reg@);
    let mut i: usize = 0;
    while i < reg.len()
        invariant
            0 <= i <= reg.len(),
            reg@ == old(reg)@,
            v == names_view(reg@),
            key@ == name@,
            names_unique(v),
            forall|j: int| 0 <= j < i ==> v[j].0 != name@,
        decreases reg.len() - i,
    {
        if reg[i].0 == key {
            proof {
                assert(v[i as int].0 == name@);
                let c = choose|k: int| 0 <= k < v.len() && v[k].0 == name@;
                if c < i as int {
                    assert(v[c].0 != v[i as int].0);
                } else if c > i as int {
                    assert(v[i as int].0 != v[c].0);
                }
            }
            reg.set(i, (key, id));
            proof {
                assert(names_view(reg@) =~= v.update(i as int, (name@, id)));
            }
            return;
        }
        i += 1;
    }
    reg.push((key, id));
    proof {
        assert(names_view(reg@) =~= v.push((name@, id)));
    }
}

impl<V: Scalar> Graph<V> {
    pub fn new() -> (g: Graph<V>)
        ensures
            g.spec_ops() == Seq::<Op>::empty(),
            g.spec_inputs() == Seq::<(Seq<char>, usize)>::empty(),
            g.spec_parameters() == Seq::<(Seq<char>, usize)>::empty(),
            g.spec_constants() == Seq::<(usize, V)>::empty(),
            g.spec_output() == 0,
            g.wf(),
    {
        let g = Graph {
            ops: Vec::new(),
            inputs: Vec::new(),
            parameters: Vec::new(),
            constants: Vec::new(),
            output: 0,
        };
        proof {
            assert(g.spec_inputs() =~= Seq::<(Seq<char>, usize)>::empty());
            assert(g.spec_parameters() =~= Seq::<(Seq<char>, usize)>::empty());
        }
        g
    }

    pub fn get_ops(&self) -> (r: &Vec<Op>)
        ensures
            r@ == self.spec_ops(),
    {
        &self.ops
    }

    pub fn get_inputs(&self) -> (r: &Vec<(String, usize)>)
        ensures
            names_view(r@) == self.spec_inputs(),
    {
        &self.inputs
    }

    pub fn get_parameters(&self) -> (r: &Vec<(String, usize)>)
        ensures
            names_view(r@) == self.spec_parameters(),
    {
        &self.parameters
    }

    pub fn get_constants(&self) -> (r: &Vec<(usize, V)>)
        ensures
            r@ == self.spec_constants(),
    {
        &self.constants
    }

    pub fn get_output(&self) -> (r: usize)
        ensures
            r == self.spec_output(),
    {
        self.output
    }

    /// A new input node, registered under `name`.
    pub fn input(&mut self, name: &str, allocator: &mut NodeAllocator) -> (r: usize)
        requires
            old(self).wf(),
            old(allocator).last() < usize::MAX,
        ensures
            r == old(allocator).last() + 1,
            final(allocator).last() == r,
            final(self).spec_inputs() == bind_name(old(self).spec_inputs(), name@, r),
            final(self).spec_ops() == old(self).spec_ops(),
            final(self).spec_parameters() == old(self).spec_parameters(),
            final(self).spec_constants() == old(self).spec_constants(),
            final(self).spec_output() == old(self).spec_output(),
            final(self).wf(),
    {
        let i = allocator.alloc_index();
        bind(&mut self.inputs, name, i);
        i
    }

    /// A new parameter node, registered under `name`.
    pub fn parameter(&mut self, name: &str, allocator: &mut NodeAllocator) -> (r: usize)
        requires
            old(self).wf(),
            old(allocator).last() < usize::MAX,
        ensures
            r == old(allocator).last() + 1,
            final(allocator).last() == r,
            final(self).spec_parameters() == bind_name(old(self).spec_parameters(), name@, r),
            final(self).spec_ops() == old(self).spec_ops(),
            final(self).spec_inputs() == old(self).spec_inputs(),
            final(self).spec_constants() == old(self).spec_constants(),
            final(self).spec_output() == old(self).spec_output(),
            final(self).wf(),
    {
        let p = allocator.alloc_index();
        bind(&mut self.parameters, name, p);
        p
    }

    /// A new node holding `r + l`.
    pub fn add(&mut self, r: usize, l: usize, allocator: &mut NodeAllocator) -> (res: usize)
        requires
            old(allocator).last() < usize::MAX,
        ensures
            res == old(allocator).last() + 1,
            final(allocator).last() == res,
            final(self).spec_ops() == old(self).spec_ops().push(Op::Add(r, l, res)),
            final(self).spec_inputs() == old(self).spec_inputs(),
            final(self).spec_parameters() == old(self).spec_parameters(),
            final(self).spec_constants() == old(self).spec_constants(),
            final(self).spec_output() == old(self).spec_output(),
    {
        let res = allocator.alloc_index();
        self.ops.push(Op::Add(r, l, res));
        res
    }

    /// A new node holding `-r`.
    pub fn minus(&mut self, r: usize, allocator: &mut NodeAllocator) -> (res: usize)
        requires
            old(allocator).last() < usize::MAX,
        ensures
            res == old(allocator).last() + 1,
            final(allocator).last() == res,
            final(self).spec_ops() == old(self).spec_ops().push(Op::Minus(r, res)),
            final(self).spec_inputs() == old(self).spec_inputs(),
            final(self).spec_parameters() == old(self).spec_parameters(),
            final(self).spec_constants() == old(self).spec_constants(),
            final(self).spec_output() == old(self).spec_output(),
    {
        let res = allocator.alloc_index();
        self.ops.push(Op::Minus(r, res));
        res
    }

    /// A new node holding `r * l`.
    pub fn mul(&mut self, r: usize, l: usize, allocator: &mut NodeAllocator) -> (res: usize)
        requires
            old(allocator).last() < usize::MAX,
        ensures
            res == old(allocator).last() + 1,
            final(allocator).last() == res,
            final(self).spec_ops() == old(self).spec_ops().push(Op::Mul(r, l, res)),
            final(self).spec_inputs() == old(self).spec_inputs(),
            final(self).spec_parameters() == old(self).spec_parameters(),
            final(self).spec_constants() == old(self).spec_constants(),
            final(self).spec_output() == old(self).spec_output(),
    {
        let res = allocator.alloc_index();
        self.ops.push(Op::Mul(r, l, res));
        res
    }

    /// Makes `r` the output node.
    pub fn output(&mut self, r: usize)
        ensures
            final(self).spec_output() == r,
            final(self).spec_ops() == old(self).spec_ops(),
            final(self).spec_inputs() == old(self).spec_inputs(),
            final(self).spec_parameters() == old(self).spec_parameters(),
            final(self).spec_constants() == old(self).spec_constants(),
    {
        self.output = r;
    }

    /// A new node that holds the constant `constant`.
    pub fn constant(&mut self, constant: V, allocator: &mut NodeAllocator) -> (r: usize)
        requires
            old(allocator).last() < usize::MAX,
        ensures
            r == old(allocator).last() + 1,
            final(allocator).last() == r,
            final(self).spec_constants() == old(self).spec_constants().push((r, constant)),
            final(self).spec_ops() == old(self).spec_ops(),
            final(self).spec_inputs() == old(self).spec_inputs(),
            final(self).spec_parameters() == old(self).spec_parameters(),
            final(self).spec_output() == old(self).spec_output(),
    {
        let constant_index = allocator.alloc_index();
        self.constants.push((constant_index, constant));
        constant_index
    }
}

/// The result id after folding the first `i + 1` ids of `vs`, where the `j`-th
/// fold step (from one) produced node `base + j`.
pub open spec fn fold_result(vs: Seq<usize>, base: nat, i: int) -> usize {
    if i == 0 {
        vs[0]
    } else {
        (base + i) as usize
    }
}

/// The operations that fold `vs` from the left by sums (`product` false) or
/// by products (`product` true), the `j`-th one producing node `base + j`.
pub open spec fn fold_ops(vs: Seq<usize>, base: nat, product: bool) -> Seq<Op> {
    Seq::new(
        (vs.len() - 1) as nat,
        |i: int|
            if product {
                Op::Mul(fold_result(vs, base, i), vs[i + 1], (base + i + 1) as usize)
            } else {
                Op::Add(fold_result(vs, base, i), vs[i + 1], (base + i + 1) as usize)
            },
    )
}

fn fold<V: Scalar>(
    vs: &Vec<usize>,
    product: bool,
    g: &mut Graph<V>,
    allocator: &mut NodeAllocator,
) -> (r: usize)
    requires
        vs.len() > 0,
        old(allocator).last() + vs.len() <= usize::MAX,
    ensures
        r == fold_result(vs@, old(allocator).last(), vs.len() - 1),
        final(allocator).last() == old(allocator).last() + vs.len() - 1,
        final(g).spec_ops() == old(g).spec_ops() + fold_ops(vs@, old(allocator).last(), product),
        final(g).spec_inputs() == old(g).spec_inputs(),
        final(g).spec_parameters() == old(g).spec_parameters(),
        final(g).spec_constants() == old(g).spec_constants(),
        final(g).spec_output() == old(g).spec_output(),
{
    let ghost base = allocator.last();
    let ghost ops0 = g.spec_ops();
    let mut res = vs[0];
    let mut i: usize = 1;
    while i < vs.len()
        invariant
            1 <= i <= vs.len(),
            base == old(allocator).last(),
            base + vs.len() <= usize::MAX,
            ops0 == old(g).spec_ops(),
            allocator.last() == base + i - 1,
            res == fold_result(vs@, base, i - 1),
            g.spec_ops() == ops0 + fold_ops(vs@.take(i as int), base, product),
            g.spec_inputs() == old(g).spec_inputs(),
            g.spec_parameters() == old(g).spec_parameters(),
            g.spec_constants() == old(g).spec_constants(),
            g.spec_output() == old(g).spec_output(),
        decreases vs.len() - i,
    {
        let prev = res;
        if product {
            res = g.mul(prev, vs[i], allocator);
        } else {
            res = g.add(prev, vs[i], allocator);
        }
        proof {
            assert(fold_ops(vs@.take(i + 1), base, product) =~= fold_ops(
                vs@.take(i as int),
                base,
                product,
            ).push(
                if product {
                    Op::Mul(prev, vs@[i as int], res)
                } else {
                    Op::Add(prev, vs@[i as int], res)
                },
            ));
        }
        i += 1;
    }
    assert(vs@.take(vs.len() as int) =~= vs@);
    res
}

/// The sum of the nodes `vs`, folded from the left: `((vs[0] + vs[1]) + vs[2]) ...`.
pub fn sum<V: Scalar>(vs: &Vec<usize>, g: &mut Graph<V>, allocator: &mut NodeAllocator) -> (r:
    usize)
    requires
        vs.len() > 0,
        old(allocator).last() + vs.len() <= usize::MAX,
    ensures
        r == fold_result(vs@, old(allocator).last(), vs.len() - 1),
        final(allocator).last() == old(allocator).last() + vs.len() - 1,
        final(g).spec_ops() == old(g).spec_ops() + fold_ops(vs@, old(allocator).last(), false),
        final(g).spec_inputs() == old(g).spec_inputs(),
        final(g).spec_parameters() == old(g).spec_parameters(),
        final(g).spec_constants() == old(g).spec_constants(),
        final(g).spec_output() == old(g).spec_output(),
{
    fold(vs, false, g, allocator)
}

/// The product of the nodes `vs`, folded from the left: `((vs[0] * vs[1]) * vs[2]) ...`.
pub fn mul<V: Scalar>(vs: &Vec<usize>, g: &mut Graph<V>, allocator: &mut NodeAllocator) -> (r:
    usize)
    requires
        vs.len() > 0,
        old(allocator).last() + vs.len() <= usize::MAX,
    ensures
        r == fold_result(vs@, old(allocator).last(), vs.len() - 1),
        final(allocator).last() == old(allocator).last() + vs.len() - 1,
        final(g).spec_ops() == old(g).spec_ops() + fold_ops(vs@, old(allocator).last(), true),
        final(g).spec_inputs() == old(g).spec_inputs(),
        final(g).spec_parameters() == old(g).spec_parameters(),
        final(g).spec_constants() == old(g).spec_constants(),
        final(g).spec_output() == old(g).spec_output(),
{
    fold(vs, true, g, allocator)
}

/// The floor of the base-two logarithm of `k` (zero for `k < 2`).
pub open spec fn log2(k: nat) -> nat
    decreases k,
{
    if k < 2 {
        0
    } else {
        1 + log2(k / 2)
    }
}

/// `k` shifted right by `j` bits.
pub open spec fn shr(k: nat, j: nat) -> nat
    decreases j,
{
    if j == 0 {
        k
    } else {
        shr(k, (j - 1) as nat) / 2
    }
}

/// Bit `j` of `k` is one.
pub open spec fn bit_set(k: nat, j: nat) -> bool {
    shr(k, j) % 2 == 1
}

/// The node of `var ^ (2 ^ i)` in a power expansion whose `i`-th squaring
/// produced node `base + i`.
pub open spec fn square_id(var: usize, base: nat, i: nat) -> usize {
    if i == 0 {
        var
    } else {
        (base + i) as usize
    }
}

/// The `n` squarings `var^2 = var * var`, `var^4 = var^2 * var^2`, ...
pub open spec fn square_ops(var: usize, base: nat, n: nat) -> Seq<Op> {
    Seq::new(
        n,
        |i: int|
            Op::Mul(
                square_id(var, base, i as nat),
                square_id(var, base, i as nat),
                square_id(var, base, (i + 1) as nat),
            ),
    )
}

/// How many of the bits `0 .. j` of `k` are one.
pub open spec fn picked(k: nat, j: nat) -> nat
    decreases j,
{
    if j == 0 {
        0
    } else {
        picked(k, (j - 1) as nat) + if bit_set(k, (j - 1) as nat) {
            1nat
        } else {
            0nat
        }
    }
}

/// The running product after the bits `0 .. j` of `k` were looked at: it
/// starts at the highest square `var ^ (2 ^ n)` and is multiplied by
/// `var ^ (2 ^ i)` for each bit `i` that is one, the `c`-th such product
/// producing node `base + n + c`.
pub open spec fn pick_result(k: nat, var: usize, base: nat, n: nat, j: nat) -> usize
    decreases j,
{
    if j == 0 {
        square_id(var, base, n)
    } else if bit_set(k, (j - 1) as nat) {
        (base + n + picked(k, j)) as usize
    } else {
        pick_result(k, var, base, n, (j - 1) as nat)
    }
}

/// The products that `pick_result` describes, in order.
pub open spec fn pick_ops(k: nat, var: usize, base: nat, n: nat, j: nat) -> Seq<Op>
    decreases j,
{
    if j == 0 {
        Seq::empty()
    } else if bit_set(k, (j - 1) as nat) {
        pick_ops(k, var, base, n, (j - 1) as nat).push(
            Op::Mul(
                pick_result(k, var, base, n, (j - 1) as nat),
                square_id(var, base, (j - 1) as nat),
                (base + n + picked(k, j)) as usize,
            ),
        )
    } else {
        pick_ops(k, var, base, n, (j - 1) as nat)
    }
}

/// The operations that expand `var ^ k` for `k >= 2`.
pub open spec fn power_ops(var: usize, k: nat, base: nat) -> Seq<Op> {
    square_ops(var, base, log2(k)) + pick_ops(k, var, base, log2(k), log2(k))
}

/// The node that holds `var ^ k` for `k >= 2`.
pub open spec fn power_result(var: usize, k: nat, base: nat) -> usize {
    pick_result(k, var, base, log2(k), log2(k))
}

/// `k < 2 ^ (j + 1)` has at most `j` as its logarithm.
pub proof fn lemma_log2_bound(k: nat, j: nat)
    requires
        k < pow2(j + 1),
    ensures
        log2(k) <= j,
    decreases j,
{
    lemma_pow2_unfold(j + 1);
    lemma2_to64();
    if k >= 2 && j > 0 {
        lemma_log2_bound(k / 2, (j - 1) as nat);
    }
}

/// Every `usize` has a logarithm of at most 63.
pub proof fn lemma_log2_usize(k: usize)
    ensures
        log2(k as nat) <= 63,
{
    lemma2_to64();
    lemma_log2_bound(k as nat, 63);
}

pub proof fn lemma_picked_bound(k: nat, j: nat)
    ensures
        picked(k, j) <= j,
    decreases j,
{
    if j > 0 {
        lemma_picked_bound(k, (j - 1) as nat);
    }
}

pub proof fn lemma_pick_ops_len(k: nat, var: usize, base: nat, n: nat, j: nat)
    ensures
        pick_ops(k, var, base, n, j).len() == picked(k, j),
    decreases j,
{
    if j > 0 {
        lemma_pick_ops_len(k, var, base, n, (j - 1) as nat);
    }
}

/// A node holding `var ^ order`, built by repeated squaring: `var ^ 0` is a
/// new constant one, `var ^ 1` is `var` itself, and otherwise the squares
/// `var ^ (2 ^ i)` up to the largest power of two not above `order` are built
/// and multiplied, from the lowest bit up, by those whose bit of `order` is
/// one. That is `log2(order)` squarings and at most as many products.
pub fn binary_exponentiation<V: Scalar>(
    var: usize,
    order: usize,
    g: &mut Graph<V>,
    allocator: &mut NodeAllocator,
) -> (r: usize)
    requires
        old(allocator).last() + 2 * log2(order as nat) + 1 <= usize::MAX,
    ensures
        order == 0 ==> {
            &&& r == old(allocator).last() + 1
            &&& final(allocator).last() == r
            &&& final(g).spec_constants() == old(g).spec_constants().push(
                (r, V::spec_from_int(1)),
            )
            &&& final(g).spec_ops() == old(g).spec_ops()
        },
        order == 1 ==> {
            &&& r == var
            &&& final(allocator).last() == old(allocator).last()
            &&& final(g).spec_constants() == old(g).spec_constants()
            &&& final(g).spec_ops() == old(g).spec_ops()
        },
        order >= 2 ==> {
            &&& r == power_result(var, order as nat, old(allocator).last())
            &&& final(g).spec_ops() == old(g).spec_ops() + power_ops(
                var,
                order as nat,
                old(allocator).last(),
            )
            &&& final(allocator).last() == old(allocator).last() + power_ops(
                var,
                order as nat,
                old(allocator).last(),
            ).len()
            &&& power_ops(var, order as nat, old(allocator).last()).len() <= 2 * log2(
                order as nat,
            )
            &&& final(g).spec_constants() == old(g).spec_constants()
        },
        final(g).spec_inputs() == old(g).spec_inputs(),
        final(g).spec_parameters() == old(g).spec_parameters(),
        final(g).spec_output() == old(g).spec_output(),
{
    if order == 0 {
        return g.constant(V::from_int(1), allocator);
    }
    if order == 1 {
        return var;
    }
    let ghost base = allocator.last();
    let ghost ops0 = g.spec_ops();
    let mut order_to_compute: usize = order;
    let mut max_power: usize = 1;
    let mut mem: Vec<usize> = Vec::new();
    mem.push(var);
    let mut res = var;
    while order_to_compute != 1
        invariant
            base == old(allocator).last(),
            ops0 == old(g).spec_ops(),
            base + 2 * log2(order as nat) + 1 <= usize::MAX,
            order_to_compute >= 1,
            max_power >= 1,
            order_to_compute == shr(order as nat, (max_power - 1) as nat),
            log2(order as nat) == max_power - 1 + log2(order_to_compute as nat),
            mem@ == Seq::new(max_power as nat, |i: int| square_id(var, base, i as nat)),
            res == square_id(var, base, (max_power - 1) as nat),
            allocator.last() == base + max_power - 1,
            g.spec_ops() == ops0 + square_ops(var, base, (max_power - 1) as nat),
            g.spec_inputs() == old(g).spec_inputs(),
            g.spec_parameters() == old(g).spec_parameters(),
            g.spec_constants() == old(g).spec_constants(),
            g.spec_output() == old(g).spec_output(),
        decreases order_to_compute,
    {
        let prev = res;
        res = g.mul(prev, prev, allocator);
        mem.push(res);
        proof {
            assert(square_ops(var, base, max_power as nat) =~= square_ops(
                var,
                base,
                (max_power - 1) as nat,
            ).push(Op::Mul(prev, prev, res)));
            assert(mem@ =~= Seq::new(
                (max_power + 1) as nat,
                |i: int| square_id(var, base, i as nat),
            ));
        }
        max_power += 1;
        order_to_compute /= 2;
    }
    let n: usize = max_power - 1;
    let mut offset: usize = 0;
    let mut rest: usize = order;
    proof {
        assert(square_ops(var, base, n as nat) + pick_ops(order as nat, var, base, n as nat, 0)
            =~= square_ops(var, base, n as nat));
    }
    while offset < n
        invariant
            base == old(allocator).last(),
            ops0 == old(g).spec_ops(),
            n == log2(order as nat),
            base + 2 * n + 1 <= usize::MAX,
            0 <= offset <= n,
            mem@ == Seq::new((n + 1) as nat, |i: int| square_id(var, base, i as nat)),
            rest == shr(order as nat, offset as nat),
            res == pick_result(order as nat, var, base, n as nat, offset as nat),
            picked(order as nat, offset as nat) <= offset,
            allocator.last() == base + n + picked(order as nat, offset as nat),
            g.spec_ops() == ops0 + square_ops(var, base, n as nat) + pick_ops(
                order as nat,
                var,
                base,
                n as nat,
                offset as nat,
            ),
            g.spec_inputs() == old(g).spec_inputs(),
            g.spec_parameters() == old(g).spec_parameters(),
            g.spec_constants() == old(g).spec_constants(),
            g.spec_output() == old(g).spec_output(),
        decreases n - offset,
    {
        if rest % 2 == 1 {
            let prev = res;
            res = g.mul(prev, mem[offset], allocator);
            proof {
                let sq = square_ops(var, base, n as nat);
                let p0 = pick_ops(order as nat, var, base, n as nat, offset as nat);
                assert(sq + p0.push(Op::Mul(prev, mem@[offset as int], res)) =~= (sq + p0).push(
                    Op::Mul(prev, mem@[offset as int], res),
                ));
            }
        }
        rest = rest / 2;
        offset += 1;
    }
    proof {
        lemma_picked_bound(order as nat, n as nat);
        lemma_pick_ops_len(order as nat, var, base, n as nat, n as nat);
        assert(power_ops(var, order as nat, base).len() == n + picked(order as nat, n as nat));
        assert(ops0 + square_ops(var, base, n as nat) + pick_ops(
            order as nat,
            var,
            base,
            n as nat,
            n as nat,
        ) =~= ops0 + power_ops(var, order as nat, base));
    }
    res
}

/// The terms of the greedy expansion of `var ^ k` for the bits below `j` of
/// `k`, highest first: each set bit `b` gets a chain of `b` squarings of
/// `var` of its own, the chains taking ids from `base + 1` on. The
/// operations, the term nodes, and the number of ids taken.
pub open spec fn greedy_terms(k: nat, var: usize, j: nat, base: nat) -> (Seq<Op>, Seq<usize>, nat)
    decreases j,
{
    if j == 0 {
        (Seq::empty(), Seq::empty(), 0)
    } else {
        let b = (j - 1) as nat;
        if bit_set(k, b) {
            let rest = greedy_terms(k, var, b, base + b);
            (
                square_ops(var, base, b) + rest.0,
                seq![square_id(var, base, b)] + rest.1,
                b + rest.2,
            )
        } else {
            greedy_terms(k, var, b, base)
        }
    }
}

/// The terms of the greedy expansion of `var ^ k`, over all bits of `k`.
pub open spec fn greedy_power(k: nat, var: usize, base: nat) -> (Seq<Op>, Seq<usize>, nat) {
    greedy_terms(k, var, log2(k) + 1, base)
}

/// A node holding `var ^ order`, built the older way: `order` is split into
/// powers of two from the highest down, each power gets its own chain of
/// squarings of `var`, and the chains' ends are multiplied from the left.
/// An `order` below two gives `var` itself.
pub fn binary_exponentiation_old<V: Scalar>(
    var: usize,
    order: usize,
    g: &mut Graph<V>,
    allocator: &mut NodeAllocator,
) -> (r: usize)
    requires
        old(allocator).last() + greedy_power(order as nat, var, old(allocator).last()).2
            + greedy_power(order as nat, var, old(allocator).last()).1.len() <= usize::MAX,
    ensures
        order < 2 ==> {
            &&& r == var
            &&& final(allocator).last() == old(allocator).last()
            &&& final(g).spec_ops() == old(g).spec_ops()
        },
        order >= 2 ==> {
            let (sq, terms, used) = greedy_power(order as nat, var, old(allocator).last());
            &&& terms.len() > 0
            &&& r == fold_result(terms, old(allocator).last() + used, terms.len() - 1)
            &&& final(g).spec_ops() == old(g).spec_ops() + sq + fold_ops(
                terms,
                old(allocator).last() + used,
                true,
            )
            &&& final(allocator).last() == old(allocator).last() + used + terms.len() - 1
        },
        final(g).spec_constants() == old(g).spec_constants(),
        final(g).spec_inputs() == old(g).spec_inputs(),
        final(g).spec_parameters() == old(g).spec_parameters(),
        final(g).spec_output() == old(g).spec_output(),
{
    if order < 2 {
        return var;
    }
    let ghost base = allocator.last();
    let ghost ops0 = g.spec_ops();
    let mut n: usize = 0;
    let mut t: usize = order;
    while t >= 2
        invariant
            t >= 1,
            t == shr(order as nat, n as nat),
            log2(order as nat) == n + log2(t as nat),
            n <= 64,
        decreases t,
    {
        proof {
            lemma_log2_usize(order);
        }
        t = t / 2;
        n += 1;
    }
    let ghost total = greedy_power(order as nat, var, base);
    let mut terms: Vec<usize> = Vec::new();
    let mut j: usize = n + 1;
    let ghost mut done_ops: Seq<Op> = Seq::empty();
    let ghost mut done_used: nat = 0;
    proof {
        assert(done_ops + greedy_terms(order as nat, var, j as nat, base).0 =~= total.0);
        assert(terms@ + greedy_terms(order as nat, var, j as nat, base).1 =~= total.1);
    }
    while j > 0
        invariant
            n == log2(order as nat),
            t == 1,
            t == shr(order as nat, n as nat),
            0 <= j <= n + 1,
            base == old(allocator).last(),
            ops0 == old(g).spec_ops(),
            total == greedy_power(order as nat, var, base),
            base + total.2 + total.1.len() <= usize::MAX,
            total.0 == done_ops + greedy_terms(order as nat, var, j as nat, base + done_used).0,
            total.1 == terms@ + greedy_terms(order as nat, var, j as nat, base + done_used).1,
            total.2 == done_used + greedy_terms(order as nat, var, j as nat, base + done_used).2,
            j <= n ==> terms.len() > 0,
            g.spec_ops() == ops0 + done_ops,
            allocator.last() == base + done_used,
            g.spec_inputs() == old(g).spec_inputs(),
            g.spec_parameters() == old(g).spec_parameters(),
            g.spec_constants() == old(g).spec_constants(),
            g.spec_output() == old(g).spec_output(),
        decreases j,
    {
        let b: usize = j - 1;
        let mut rest: usize = order;
        let mut c: usize = 0;
        while c < b
            invariant
                0 <= c <= b,
                rest == shr(order as nat, c as nat),
            decreases b - c,
        {
            rest = rest / 2;
            c += 1;
        }
        if rest % 2 == 1 {
            let ghost cur: nat = (base + done_used) as nat;
            let ghost ops1 = g.spec_ops();
            let mut res: usize = var;
            let mut c2: usize = 0;
            while c2 < b
                invariant
                    0 <= c2 <= b,
                    cur == base + done_used,
                    cur + b <= usize::MAX,
                    res == square_id(var, cur, c2 as nat),
                    allocator.last() == cur + c2,
                    g.spec_ops() == ops1 + square_ops(var, cur, c2 as nat),
                    g.spec_inputs() == old(g).spec_inputs(),
                    g.spec_parameters() == old(g).spec_parameters(),
                    g.spec_constants() == old(g).spec_constants(),
                    g.spec_output() == old(g).spec_output(),
                decreases b - c2,
            {
                let prev = res;
                res = g.mul(prev, prev, allocator);
                proof {
                    assert(square_ops(var, cur, (c2 + 1) as nat) =~= square_ops(
                        var,
                        cur,
                        c2 as nat,
                    ).push(Op::Mul(prev, prev, res)));
                }
                c2 += 1;
            }
            terms.push(res);
            proof {
                let r = greedy_terms(order as nat, var, b as nat, (cur + b) as nat);
                assert(done_ops + (square_ops(var, cur, b as nat) + r.0) =~= (done_ops
                    + square_ops(var, cur, b as nat)) + r.0);
                done_ops = done_ops + square_ops(var, cur, b as nat);
                done_used = (done_used + b) as nat;
            }
        }
        j -= 1;
    }
    crate::graph::mul(&terms, g, allocator)
}

} // verus!

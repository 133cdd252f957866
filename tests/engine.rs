use floatflow::config::PolynomialConfig;
use floatflow::error::{missing_id, FFError};
use floatflow::executor::Executor;
use floatflow::float::Float;
use floatflow::graph::{
    binary_exponentiation, binary_exponentiation_old, mul, sum, Graph, NodeAllocator,
};
use floatflow::op::Op;
use floatflow::ops::add::Add;
use floatflow::ops::minus::Minus;
use floatflow::ops::mul::Mul;
use floatflow::optimizer::{AdaGrad, Adam, Optimize, Optimizer, SGD};
use floatflow::polynomial::{Polynomial, Term};
use floatflow::scalar::Scalar;
use floatflow::store::Store;

#[derive(Clone, Copy, Debug, PartialEq)]
struct F(f32);

impl Scalar for F {
    fn spec_from_int(n: i64) -> F {
        F::from_int(n)
    }
    fn spec_add(a: F, b: F) -> F {
        a.add(b)
    }
    fn spec_sub(a: F, b: F) -> F {
        a.sub(b)
    }
    fn spec_mul(a: F, b: F) -> F {
        a.mul(b)
    }
    fn spec_div(a: F, b: F) -> F {
        a.div(b)
    }
    fn spec_neg(a: F) -> F {
        a.neg()
    }
    fn spec_sqrt(a: F) -> F {
        a.sqrt()
    }
    fn spec_eq(a: F, b: F) -> bool {
        a.is_equal(b)
    }
    fn spec_parse(s: String) -> Option<F> {
        F::parse_text(&s)
    }
    fn parse_text(s: &String) -> Option<F> {
        s.parse::<f32>().ok().map(F)
    }
    fn is_equal(self, b: F) -> bool {
        self.0 == b.0
    }
    fn from_int(n: i64) -> F {
        F(n as f32)
    }
    fn add(self, b: F) -> F {
        F(self.0 + b.0)
    }
    fn sub(self, b: F) -> F {
        F(self.0 - b.0)
    }
    fn mul(self, b: F) -> F {
        F(self.0 * b.0)
    }
    fn div(self, b: F) -> F {
        F(self.0 / b.0)
    }
    fn neg(self) -> F {
        F(-self.0)
    }
    fn sqrt(self) -> F {
        F(self.0.sqrt())
    }
}

fn cell(value: f32, need: bool) -> Float<F> {
    Float::new(F(value), need)
}

fn named(pairs: &[(&str, f32)]) -> Vec<(String, F)> {
    pairs.iter().map(|(n, v)| (n.to_string(), F(*v))).collect()
}

fn close(a: f32, b: f32) -> bool {
    (a - b).abs() < 0.00001
}

#[test]
fn it_works() {
    let result = 2 + 2;
    assert_eq!(result, 4);
}

#[test]
fn float_build() {
    let f: Float<F> = Float::default();
    assert_eq!(f.value, F(0.0));
    assert_eq!(f.grad, F(0.0));
    assert_eq!(f.is_need_grad, false);
}

#[test]
fn graph() {
    let mut g: Graph<F> = Graph::new();
    let mut allocator = NodeAllocator::new();
    let x = g.input("x", &mut allocator);
    let y = g.input("y", &mut allocator);
    let z = g.add(x, y, &mut allocator);
    let m = g.minus(z, &mut allocator);
    let p = g.parameter("p", &mut allocator);
    let f = g.mul(m, p, &mut allocator);
    g.output(f);

    let ops = g.get_ops();
    let ref_ops = vec![Op::Add(1, 2, 3), Op::Minus(3, 4), Op::Mul(4, 5, 6)];
    assert_eq!(ops.iter().zip(ref_ops.iter()).all(|(r, l)| *r == *l), true);
    let inputs = g.get_inputs();
    assert_eq!(inputs.iter().find(|(n, _)| n == "x").unwrap().1, 1);
    assert_eq!(inputs.iter().find(|(n, _)| n == "y").unwrap().1, 2);
    let parameters = g.get_parameters();
    assert_eq!(parameters.iter().find(|(n, _)| n == "p").unwrap().1, 5);
    assert_eq!(g.get_output(), 6);
}

#[test]
fn add() {
    let mut s: Store<F> = Store::new();
    s.insert(0, cell(1.0, true));
    s.insert(1, cell(2.0, true));
    let op = Add::new(0, 1, 2);
    op.forward(&mut s).unwrap();
    s.set_grad(2, F(1.0)).unwrap();
    op.backward(&mut s).unwrap();
    let r = s.get(0).unwrap();
    let l = s.get(1).unwrap();
    let res = s.get(2).unwrap();
    assert_eq!(res.value, F(3.0));
    assert_eq!(res.is_need_grad, true);
    assert_eq!(res.grad, F(1.0));
    assert_eq!(r.is_need_grad, true);
    assert_eq!(l.is_need_grad, true);
    assert_eq!(r.grad, F(1.0));
    assert_eq!(l.grad, F(1.0));
}

#[test]
fn add_self() {
    let mut s: Store<F> = Store::new();
    s.insert(0, cell(1.0, true));
    let op = Add::new(0, 0, 1);
    op.forward(&mut s).unwrap();
    s.set_grad(1, F(1.0)).unwrap();
    op.backward(&mut s).unwrap();
    let r = s.get(0).unwrap();
    let res = s.get(1).unwrap();
    assert_eq!(res.value, F(2.0));
    assert_eq!(res.is_need_grad, true);
    assert_eq!(res.grad, F(1.0));
    assert_eq!(r.is_need_grad, true);
    assert_eq!(r.grad, F(2.0));
}

#[test]
fn minus() {
    let mut s: Store<F> = Store::new();
    s.insert(0, cell(1.0, true));
    let op = Minus::new(0, 1);
    op.forward(&mut s).unwrap();
    s.set_grad(1, F(1.0)).unwrap();
    op.backward(&mut s).unwrap();
    let r = s.get(0).unwrap();
    let res = s.get(1).unwrap();
    assert_eq!(res.value, F(-1.0));
    assert_eq!(res.is_need_grad, true);
    assert_eq!(res.grad, F(1.0));
    assert_eq!(r.is_need_grad, true);
    assert_eq!(r.grad, F(-1.0));
}

fn reference_graph(allocator: &mut NodeAllocator) -> (Graph<F>, usize) {
    let mut g: Graph<F> = Graph::new();
    let x = g.input("x", allocator);
    let y = g.input("y", allocator);
    let z = g.add(x, y, allocator);
    let m = g.minus(z, allocator);
    let p = g.parameter("p", allocator);
    let f = g.mul(m, p, allocator);
    g.output(f);
    (g, p)
}

#[test]
fn executor() {
    let mut allocator = NodeAllocator::new();
    let (g, p) = reference_graph(&mut allocator);
    let mut s: Store<F> = Store::new();
    let mut exec = Executor::new(g, Optimizer::SGD(SGD::new(F(0.001))));
    exec.feed(&named(&[("x", 0.1), ("y", 0.2)]), &mut s).unwrap();
    exec.init_parameter(&named(&[("p", 0.1)]), &mut s).unwrap();
    exec.init_contants(&mut s);
    exec.forward(&mut s).unwrap();
    exec.backward(&mut s).unwrap();
    let output_float = exec.get_output_value(&s).unwrap();
    assert!((output_float.value.0 - (-0.03)).abs() < 0.00001);
    assert!(output_float.grad.0 - 1.0 < 0.00001);
    let parameter_p = exec.get_value(p, &s).unwrap();
    assert!(parameter_p.value.0 - 0.1 < 0.00001);
    assert!(parameter_p.grad.0 - (-0.3) < 0.00001);
}

fn single_input_executor(
    build: impl Fn(&mut Graph<F>, usize, &mut NodeAllocator) -> usize,
) -> (Executor<F>, usize, usize) {
    let mut allocator = NodeAllocator::new();
    let mut g: Graph<F> = Graph::new();
    let x = g.input("x", &mut allocator);
    let out = build(&mut g, x, &mut allocator);
    g.output(out);
    let n_ops = g.get_ops().len();
    (Executor::new(g, Optimizer::SGD(SGD::new(F(0.1)))), out, n_ops)
}

#[test]
fn mul_product_rule() {
    let mut s: Store<F> = Store::new();
    s.insert(0, cell(3.0, true));
    s.insert(1, cell(4.0, true));
    let op = Mul::new(0, 1, 2);
    op.forward(&mut s).unwrap();
    s.set_grad(2, F(2.0)).unwrap();
    op.backward(&mut s).unwrap();
    assert_eq!(s.get(2).unwrap().value, F(12.0));
    assert_eq!(s.get(0).unwrap().grad, F(8.0));
    assert_eq!(s.get(1).unwrap().grad, F(6.0));
}

#[test]
fn mul_square_counts_both_factors() {
    let mut s: Store<F> = Store::new();
    s.insert(0, cell(3.0, true));
    let op = Mul::new(0, 0, 1);
    op.forward(&mut s).unwrap();
    s.set_grad(1, F(1.0)).unwrap();
    op.backward(&mut s).unwrap();
    assert_eq!(s.get(1).unwrap().value, F(9.0));
    assert_eq!(s.get(0).unwrap().grad, F(6.0));
}

#[test]
fn need_grad_is_or_of_operands() {
    for (na, nb) in [(false, false), (false, true), (true, false), (true, true)] {
        let mut s: Store<F> = Store::new();
        s.insert(0, cell(2.0, na));
        s.insert(1, cell(5.0, nb));
        Add::new(0, 1, 2).forward(&mut s).unwrap();
        Mul::new(0, 1, 3).forward(&mut s).unwrap();
        Minus::new(1, 4).forward(&mut s).unwrap();
        assert_eq!(s.get(2).unwrap().value, F(7.0));
        assert_eq!(s.get(2).unwrap().is_need_grad, na || nb);
        assert_eq!(s.get(3).unwrap().value, F(10.0));
        assert_eq!(s.get(3).unwrap().is_need_grad, na || nb);
        assert_eq!(s.get(4).unwrap().value, F(-5.0));
        assert_eq!(s.get(4).unwrap().is_need_grad, nb);
        assert_eq!(s.get(2).unwrap().grad, F(0.0));
    }
}

#[test]
fn backward_skips_operands_without_gradient() {
    let mut s: Store<F> = Store::new();
    s.insert(0, cell(3.0, true));
    s.insert(1, cell(4.0, false));
    let op = Mul::new(0, 1, 2);
    op.forward(&mut s).unwrap();
    s.set_grad(2, F(1.0)).unwrap();
    op.backward(&mut s).unwrap();
    assert_eq!(s.get(0).unwrap().grad, F(4.0));
    assert_eq!(s.get(1).unwrap().grad, F(0.0));
}

#[test]
fn missing_operand_is_reported() {
    let mut s: Store<F> = Store::new();
    s.insert(1, cell(1.0, false));
    let e = Add::new(1, 3, 4).forward(&mut s).unwrap_err();
    assert_eq!(e.message(), "store error: not find id: 3");
    assert!(s.get(4).is_none());
    let e = Minus::new(1, 42).backward(&mut s).unwrap_err();
    assert!(matches!(e, FFError::Store(ref m) if m == "not find id: 42"));
    assert_eq!(missing_id(1234567).message(), "store error: not find id: 1234567");
}

#[test]
fn power_zero_is_constant_one() {
    let mut allocator = NodeAllocator::new();
    let mut g: Graph<F> = Graph::new();
    let x = g.input("x", &mut allocator);
    let p = binary_exponentiation(x, 0, &mut g, &mut allocator);
    assert_ne!(p, x);
    assert!(g.get_ops().is_empty());
    assert_eq!(g.get_constants(), &vec![(p, F(1.0))]);
}

#[test]
fn power_one_is_the_base() {
    let mut allocator = NodeAllocator::new();
    let mut g: Graph<F> = Graph::new();
    let x = g.input("x", &mut allocator);
    let p = binary_exponentiation(x, 1, &mut g, &mut allocator);
    assert_eq!(p, x);
    assert!(g.get_ops().is_empty());
    assert!(g.get_constants().is_empty());
    assert_eq!(allocator.alloc_index(), x + 1);
}

#[test]
fn power_values_and_sizes() {
    for (k, n_ops) in [(2usize, 1usize), (5, 3), (6, 3), (7, 4), (8, 3), (13, 5)] {
        let (mut exec, out, built) =
            single_input_executor(|g, x, a| binary_exponentiation(x, k, g, a));
        assert_eq!(built, n_ops);
        let mut s: Store<F> = Store::new();
        exec.feed(&named(&[("x", 1.5)]), &mut s).unwrap();
        exec.init_contants(&mut s);
        exec.forward(&mut s).unwrap();
        let v = exec.get_value(out, &s).unwrap().value.0;
        assert!(close(v, 1.5f32.powi(k as i32)));
    }
}

#[test]
fn power_squares_then_multiplies_low_bits_first() {
    let mut allocator = NodeAllocator::new();
    let mut g: Graph<F> = Graph::new();
    let x = g.input("x", &mut allocator);
    let p = binary_exponentiation(x, 7, &mut g, &mut allocator);
    assert_eq!(
        g.get_ops(),
        &vec![Op::Mul(1, 1, 2), Op::Mul(2, 2, 3), Op::Mul(3, 1, 4), Op::Mul(4, 2, 5)]
    );
    assert_eq!(p, 5);
}

#[test]
fn sum_and_product_fold_from_the_left() {
    let mut allocator = NodeAllocator::new();
    let mut g: Graph<F> = Graph::new();
    let a = g.input("a", &mut allocator);
    let b = g.input("b", &mut allocator);
    let c = g.input("c", &mut allocator);
    let sm = sum(&vec![a, b, c], &mut g, &mut allocator);
    let pr = mul(&vec![a, b, c], &mut g, &mut allocator);
    let one = sum(&vec![b], &mut g, &mut allocator);
    assert_eq!(one, b);
    assert_eq!(
        g.get_ops(),
        &vec![Op::Add(1, 2, 4), Op::Add(4, 3, 5), Op::Mul(1, 2, 6), Op::Mul(6, 3, 7)]
    );
    g.output(sm);
    let mut exec = Executor::new(g, Optimizer::SGD(SGD::new(F(0.1))));
    let mut s: Store<F> = Store::new();
    exec.feed(&named(&[("a", 2.0), ("b", 3.0), ("c", 4.0)]), &mut s).unwrap();
    exec.forward(&mut s).unwrap();
    assert_eq!(exec.get_value(sm, &s).unwrap().value, F(9.0));
    assert_eq!(exec.get_value(pr, &s).unwrap().value, F(24.0));
}

#[test]
fn repeated_name_rebinds() {
    let mut allocator = NodeAllocator::new();
    let mut g: Graph<F> = Graph::new();
    let first = g.input("x", &mut allocator);
    let second = g.input("x", &mut allocator);
    assert_ne!(first, second);
    assert_eq!(g.get_inputs(), &vec![("x".to_string(), second)]);
}

#[test]
fn sgd_update_is_stateless() {
    let mut sgd = SGD::new(F(0.1));
    let a = sgd.optimize(7, F(1.0), F(0.5));
    let b = sgd.optimize(7, F(1.0), F(0.5));
    assert!(close(a.0, 0.95));
    assert_eq!(a, b);
}

#[test]
fn adagrad_accumulates_squares() {
    let mut ada = AdaGrad::new(F(0.1));
    ada.register(3);
    let first = ada.optimize(3, F(1.0), F(3.0));
    assert!(close(first.0, 1.0 - 0.1 / (3.0 + 1e-7) * 3.0));
    let second = ada.optimize(3, F(2.0), F(4.0));
    assert!(close(second.0, 2.0 - 0.1 / (5.0 + 1e-7) * 4.0));
}

#[test]
fn adam_moving_averages_without_bias_correction() {
    let mut adam = Adam::new(F(0.1), F(0.9), F(0.99));
    adam.register(1);
    adam.register(1);
    let v = adam.optimize(1, F(1.0), F(2.0));
    let vel: f32 = 0.99 * 0.0 + (1.0 - 0.99) * 2.0;
    let mov: f32 = 0.9 * 0.0 + (1.0 - 0.9) * 2.0;
    assert!(close(v.0, 1.0 - 0.1 * mov / (vel.sqrt() + 1e-8)));
}

#[test]
fn end_to_end_gradients() {
    let mut allocator = NodeAllocator::new();
    let (g, p) = reference_graph(&mut allocator);
    let mut s: Store<F> = Store::new();
    let mut exec = Executor::new(g, Optimizer::SGD(SGD::new(F(0.001))));
    exec.feed(&named(&[("x", 0.1), ("y", 0.2)]), &mut s).unwrap();
    exec.init_parameter(&named(&[("p", 0.1)]), &mut s).unwrap();
    exec.forward(&mut s).unwrap();
    exec.backward(&mut s).unwrap();
    let out = exec.get_output_value(&s).unwrap();
    assert!(close(out.value.0, -0.03));
    assert_eq!(out.grad, F(1.0));
    let pv = exec.get_value(p, &s).unwrap();
    assert!(close(pv.value.0, 0.1));
    assert!(close(pv.grad.0, -0.3));
    exec.optimize(&mut s).unwrap();
    assert!(close(exec.get_value(p, &s).unwrap().value.0, 0.1 + 0.001 * 0.3));
    exec.clear_grad(&mut s).unwrap();
    assert_eq!(exec.get_value(p, &s).unwrap().grad, F(0.0));
    let params = exec.get_parameters(&s);
    assert_eq!(params.len(), 1);
    let (name, f) = params[0].as_ref().unwrap();
    assert_eq!(name, "p");
    assert_eq!(f.is_need_grad, true);
}

#[test]
fn feed_reports_missing_name() {
    let mut allocator = NodeAllocator::new();
    let (g, _) = reference_graph(&mut allocator);
    let mut s: Store<F> = Store::new();
    let mut exec = Executor::new(g, Optimizer::SGD(SGD::new(F(0.001))));
    let e = exec.feed(&named(&[("x", 0.1)]), &mut s).unwrap_err();
    assert_eq!(e.message(), "store error: not find key: y");
    let e = exec.init_parameter(&named(&[("x", 0.1)]), &mut s).unwrap_err();
    assert_eq!(e.message(), "store error: not find key: p");
}

#[test]
fn training_zero_iterations_keeps_parameters() {
    let mut allocator = NodeAllocator::new();
    let (g, p) = reference_graph(&mut allocator);
    let mut s: Store<F> = Store::new();
    let mut exec = Executor::new(g, Optimizer::AdaGrad(AdaGrad::new(F(0.01))));
    exec.feed(&named(&[("x", 0.1), ("y", 0.2)]), &mut s).unwrap();
    exec.init_parameter(&named(&[("p", 0.1)]), &mut s).unwrap();
    exec.train(&mut s, 0).unwrap();
    assert_eq!(exec.get_value(p, &s).unwrap().value, F(0.1));
    exec.train(&mut s, 3).unwrap();
    assert_ne!(exec.get_value(p, &s).unwrap().value, F(0.1));
    assert_eq!(exec.get_value(p, &s).unwrap().grad, F(0.0));
}

#[test]
fn integer_scalar() {
    assert_eq!(Scalar::sqrt(17i64), 4);
    assert_eq!(Scalar::sqrt(16i64), 4);
    assert_eq!(Scalar::sqrt(-3i64), 0);
    assert_eq!(Scalar::sqrt(i64::MAX), 3037000499);
    assert_eq!(Scalar::div(7i64, 0), 0);
    assert_eq!(Scalar::div(-7i64, 2), -3);
    assert_eq!(Scalar::add(i64::MAX, 1), i64::MIN);
    assert_eq!(Scalar::neg(5i64), -5);
    assert_eq!(Scalar::mul(6i64, 7), 42);
    assert_eq!(<i64 as Scalar>::from_int(9), 9);
}

#[test]
fn integer_engine_is_exact() {
    let mut s: Store<i64> = Store::new();
    s.insert(1, Float::new(3, true));
    Mul::new(1, 1, 2).forward(&mut s).unwrap();
    s.set_grad(2, 1).unwrap();
    Mul::new(1, 1, 2).backward(&mut s).unwrap();
    assert_eq!(s.get(2).unwrap().value, 9);
    assert_eq!(s.get(1).unwrap().grad, 6);
}

#[test]
fn polynomial_graph() {
    let mut poly: Polynomial<F> = Polynomial::new();
    let mut t = Term::new();
    t.set_coefficient(F(1.0));
    t.add_variable("x", 2);
    poly.add_term(t);
    let mut t = Term::new();
    t.set_coefficient(F(1.0));
    poly.add_term(t);
    let mut allocator = NodeAllocator::new();
    let mut name_record: Vec<(String, usize)> = Vec::new();
    let g = poly.tranform_to_graph(&mut name_record, &mut allocator);
    assert_eq!(name_record, vec![("x".to_string(), 1)]);
    assert_eq!(g.get_parameters(), &vec![("x".to_string(), 1)]);
    assert_eq!(g.get_constants(), &vec![(3, F(1.0))]);
    assert_eq!(
        g.get_ops(),
        &vec![Op::Mul(1, 1, 2), Op::Add(2, 3, 4), Op::Mul(4, 4, 5)]
    );
    assert_eq!(g.get_output(), 5);
    let mut exec = Executor::new(g, Optimizer::SGD(SGD::new(F(0.01))));
    let mut s: Store<F> = Store::new();
    exec.init_parameter(&named(&[("x", 3.0)]), &mut s).unwrap();
    exec.init_contants(&mut s);
    exec.forward(&mut s).unwrap();
    assert_eq!(exec.get_output_value(&s).unwrap().value, F(100.0));
    exec.backward(&mut s).unwrap();
    // d/dx (x^2 + 1)^2 = 2 (x^2 + 1) * 2x
    assert_eq!(exec.get_value(1, &s).unwrap().grad, F(120.0));
}

#[test]
fn polynomials_share_variables() {
    let mut allocator = NodeAllocator::new();
    let mut name_record: Vec<(String, usize)> = Vec::new();
    let mut p1: Polynomial<F> = Polynomial::new();
    let mut t = Term::new();
    t.add_variable("x", 1);
    t.add_variable("x", 2);
    p1.add_term(t);
    let g1 = p1.tranform_to_graph(&mut name_record, &mut allocator);
    let mut p2: Polynomial<F> = Polynomial::new();
    let mut t = Term::new();
    t.set_coefficient(F(-2.0));
    t.add_variable("x", 1);
    p2.add_term(t);
    let g2 = p2.tranform_to_graph(&mut name_record, &mut allocator);
    assert_eq!(name_record, vec![("x".to_string(), 1)]);
    assert_eq!(g1.get_parameters().len(), 1);
    assert!(g2.get_parameters().is_empty());
    // x^3 = x^2 * x, then the square of the result
    assert_eq!(g1.get_ops(), &vec![Op::Mul(1, 1, 2), Op::Mul(2, 1, 3), Op::Mul(3, 3, 4)]);
    // -2 * x, then its square
    assert_eq!(g2.get_constants(), &vec![(5, F(-2.0))]);
    assert_eq!(g2.get_ops(), &vec![Op::Mul(1, 5, 6), Op::Mul(6, 6, 7)]);
}

#[test]
fn old_power_rebuilds_each_chain() {
    let mut allocator = NodeAllocator::new();
    let mut g: Graph<F> = Graph::new();
    let x = g.input("x", &mut allocator);
    assert_eq!(binary_exponentiation_old(x, 0, &mut g, &mut allocator), x);
    assert_eq!(binary_exponentiation_old(x, 1, &mut g, &mut allocator), x);
    assert!(g.get_ops().is_empty());
    let p = binary_exponentiation_old(x, 6, &mut g, &mut allocator);
    assert_eq!(
        g.get_ops(),
        &vec![Op::Mul(1, 1, 2), Op::Mul(2, 2, 3), Op::Mul(1, 1, 4), Op::Mul(3, 4, 5)]
    );
    assert_eq!(p, 5);
}

#[test]
fn old_power_values() {
    for k in [2usize, 3, 5, 6, 7, 8] {
        let (mut exec, out, _) =
            single_input_executor(|g, x, a| binary_exponentiation_old(x, k, g, a));
        let mut s: Store<F> = Store::new();
        exec.feed(&named(&[("x", 1.5)]), &mut s).unwrap();
        exec.forward(&mut s).unwrap();
        let v = exec.get_value(out, &s).unwrap().value.0;
        assert!(close(v, 1.5f32.powi(k as i32)));
    }
}

fn words(lines: &[&str]) -> Vec<Vec<String>> {
    lines.iter().map(|l| l.split('@').map(String::from).collect()).collect()
}

#[test]
fn config_reads_initial_values_and_polynomials() {
    let mut config: PolynomialConfig<F> = PolynomialConfig::new();
    config
        .parse(&words(&[
            "i@x@4.0@y@1.0",
            "c@1.0@x@1@c@1.0@y@1@c@-3.0",
            "c@1.0@x@1@c@-1.0@y@1@c@-1.0",
            "# ignored",
        ]))
        .unwrap();
    assert_eq!(
        config.initial_values(),
        &vec![("x".to_string(), F(4.0)), ("y".to_string(), F(1.0))]
    );
    assert_eq!(config.polynomials().len(), 2);
    assert_eq!(config.polynomials()[0].term_count(), 3);
    let mut allocator = NodeAllocator::new();
    let mut name_record: Vec<(String, usize)> = Vec::new();
    let g = config.polynomials()[1].tranform_to_graph(&mut name_record, &mut allocator);
    // x, then y * -1 with its constant, then the constant -1 on its own
    assert_eq!(name_record, vec![("x".to_string(), 1), ("y".to_string(), 2)]);
    assert_eq!(g.get_constants(), &vec![(3, F(-1.0)), (5, F(-1.0))]);
    let mut exec = Executor::new(g, Optimizer::SGD(SGD::new(F(0.01))));
    let mut s: Store<F> = Store::new();
    exec.init_parameter(config.initial_values(), &mut s).unwrap();
    exec.init_contants(&mut s);
    exec.forward(&mut s).unwrap();
    // (4 - 1 - 1)^2
    assert_eq!(exec.get_output_value(&s).unwrap().value, F(4.0));
}

#[test]
fn config_later_value_wins() {
    let mut config: PolynomialConfig<F> = PolynomialConfig::new();
    config.parse(&words(&["i@x@4.0", "i@x@2.5@z@1"])).unwrap();
    assert_eq!(
        config.initial_values(),
        &vec![("x".to_string(), F(2.5)), ("z".to_string(), F(1.0))]
    );
}

#[test]
fn config_errors() {
    let mut config: PolynomialConfig<F> = PolynomialConfig::new();
    let e = config.parse(&words(&["i@x"])).unwrap_err();
    assert_eq!(e.message(), "parse store: parse fiailed!!!");
    let e = config.parse(&words(&["i@x@four"])).unwrap_err();
    assert!(matches!(e, FFError::Parse(_)));
    let e = config.parse(&words(&["c@1.0@x"])).unwrap_err();
    assert!(matches!(e, FFError::Parse(_)));
    let e = config.parse(&words(&["c@1.0@x@-1"])).unwrap_err();
    assert_eq!(e.message(), "parse store: invalid number: -1");
    let mut empty: PolynomialConfig<F> = PolynomialConfig::new();
    assert!(empty.parse(&vec![vec![]]).is_err());
}

#[test]
fn config_with_integers() {
    let mut config: PolynomialConfig<i64> = PolynomialConfig::new();
    config.parse(&words(&["i@x@-9223372036854775808@y@+7", "c@2@x@3@c@5"])).unwrap();
    assert_eq!(
        config.initial_values(),
        &vec![("x".to_string(), i64::MIN), ("y".to_string(), 7)]
    );
    assert_eq!(config.polynomials()[0].term_count(), 2);
    assert!(config.parse(&words(&["i@x@9223372036854775808"])).is_err());
    assert!(config.parse(&words(&["c@1@x@+"])).is_err());
}

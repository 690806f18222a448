use scalar_autograd::{Context, NodeId, Scalar};

#[derive(Clone, Copy, Debug, PartialEq)]
struct F(f64);

impl Scalar for F {
    fn zero() -> Self {
        F(0.0)
    }

    fn one() -> Self {
        F(1.0)
    }

    fn minus_one() -> Self {
        F(-1.0)
    }

    fn add(&self, other: &Self) -> Self {
        F(self.0 + other.0)
    }

    fn mul(&self, other: &Self) -> Self {
        F(self.0 * other.0)
    }

    fn powf(&self, p: &Self) -> Self {
        F(self.0.powf(p.0))
    }

    fn exp(&self) -> Self {
        F(self.0.exp())
    }

    fn is_positive(&self) -> bool {
        self.0 > 0.0
    }

    fn is_finite(&self) -> bool {
        self.0.is_finite()
    }

    fn to_text(&self) -> String {
        format!("{}", self.0)
    }
}

fn param(ctx: &mut Context<F>, name: &str, v: f64) -> NodeId {
    ctx.param(name.to_string(), F(v))
}

#[test]
fn test_karpathy_example() {
    let mut ctx = Context::new();
    let a = param(&mut ctx, "a", 2.0);
    let b = param(&mut ctx, "b", -3.0);
    let c = param(&mut ctx, "c", 10.0);
    let e = ctx.mul(a, b);
    let d = ctx.sum(e, c);
    let f = param(&mut ctx, "f", -2.0);
    let loss = ctx.mul(d, f);
    assert_eq!(ctx.value(loss).0, -8.0);
    ctx.backward(loss);
    assert_eq!(ctx.grad(a).0, 6.0);
    assert_eq!(ctx.grad(b).0, -4.0);
    assert_eq!(ctx.grad(d).0, -2.0);
    assert_eq!(ctx.grad(f).0, 4.0);
    assert_eq!(ctx.grad(loss).0, 1.0);
}

#[test]
fn reference_scenario_intermediate_grads() {
    let mut ctx = Context::new();
    let a = param(&mut ctx, "a", 2.0);
    let b = param(&mut ctx, "b", -3.0);
    let c = param(&mut ctx, "c", 10.0);
    let e = ctx.mul(a, b);
    let d = ctx.sum(e, c);
    let f = param(&mut ctx, "f", -2.0);
    let loss = ctx.mul(d, f);
    ctx.backward(loss);
    assert_eq!(ctx.grad(e).0, -2.0);
    assert_eq!(ctx.grad(c).0, -2.0);
    assert_eq!(ctx.value(e).0, -6.0);
    assert_eq!(ctx.value(d).0, 4.0);
}

#[test]
fn test_div() {
    let mut ctx = Context::new();
    let a = param(&mut ctx, "a", 2.0);
    let one = ctx.constant(F(1.0));
    let div = ctx.div(one, a);
    ctx.backward(div);
    assert_eq!(ctx.value(div).0, 0.5);
    assert_eq!(ctx.grad(a).0, -0.25);
}

#[test]
fn test_exp() {
    let mut ctx = Context::new();
    let a = param(&mut ctx, "a", 2.0);
    let exp = ctx.exp(a);
    ctx.backward(exp);
    assert_eq!(ctx.value(exp).0, (2.0_f64).exp());
    assert_eq!(ctx.grad(a).0, (2.0_f64).exp());
}

#[test]
fn test_sub() {
    let mut ctx = Context::new();
    let a = param(&mut ctx, "a", 2.0);
    let one = ctx.constant(F(1.0));
    let diff = ctx.sub(a, one);
    assert_eq!(ctx.value(diff).0, 1.0);
}

#[test]
fn test_pow() {
    let mut ctx = Context::new();
    let a = param(&mut ctx, "a", 3.0);
    let a_squared = ctx.pow(a, F(2.0));
    assert_eq!(ctx.value(a_squared).0, 9.0);
    ctx.backward(a_squared);
    assert_eq!(ctx.grad(a_squared).0, 1.0);
    assert_eq!(ctx.grad(a).0, 6.0);
}

#[test]
fn sub_gradients_have_opposite_signs() {
    let mut ctx = Context::new();
    let a = param(&mut ctx, "a", 5.0);
    let b = param(&mut ctx, "b", 3.0);
    let diff = ctx.sub(a, b);
    ctx.backward(diff);
    assert_eq!(ctx.value(diff).0, 2.0);
    assert_eq!(ctx.grad(a).0, 1.0);
    assert_eq!(ctx.grad(b).0, -1.0);
    assert_eq!(ctx.len(), 5);
}

#[test]
fn shared_operand_accumulates() {
    let mut ctx = Context::new();
    let x = param(&mut ctx, "x", 3.0);
    let y = ctx.sum(x, x);
    ctx.backward(y);
    assert_eq!(ctx.value(y).0, 6.0);
    assert_eq!(ctx.grad(x).0, 2.0);
}

#[test]
fn diamond_runs_each_rule_once() {
    let mut ctx = Context::new();
    let x = param(&mut ctx, "x", 3.0);
    let y = param(&mut ctx, "y", 4.0);
    let z = ctx.mul(x, y);
    let w = ctx.sum(z, z);
    ctx.backward(w);
    assert_eq!(ctx.value(w).0, 24.0);
    assert_eq!(ctx.grad(z).0, 2.0);
    assert_eq!(ctx.grad(x).0, 8.0);
    assert_eq!(ctx.grad(y).0, 6.0);
}

#[test]
fn square_by_self_product() {
    let mut ctx = Context::new();
    let x = param(&mut ctx, "x", 3.0);
    let sq = ctx.mul(x, x);
    ctx.backward(sq);
    assert_eq!(ctx.value(sq).0, 9.0);
    assert_eq!(ctx.grad(x).0, 6.0);
}

#[test]
fn second_pass_without_reset_doubles() {
    let mut ctx = Context::new();
    let a = param(&mut ctx, "a", 2.0);
    let b = param(&mut ctx, "b", -3.0);
    let p = ctx.mul(a, b);
    ctx.backward(p);
    assert_eq!(ctx.grad(a).0, -3.0);
    assert_eq!(ctx.grad(b).0, 2.0);
    ctx.backward(p);
    assert_eq!(ctx.grad(a).0, -6.0);
    assert_eq!(ctx.grad(b).0, 4.0);
    assert_eq!(ctx.grad(p).0, 1.0);
}

#[test]
fn zero_grads_restores_single_pass() {
    let mut ctx = Context::new();
    let a = param(&mut ctx, "a", 2.0);
    let b = param(&mut ctx, "b", -3.0);
    let c = param(&mut ctx, "c", 10.0);
    let e = ctx.mul(a, b);
    let d = ctx.sum(e, c);
    let f = param(&mut ctx, "f", -2.0);
    let loss = ctx.mul(d, f);
    ctx.backward(loss);
    ctx.zero_grads();
    assert_eq!(ctx.grad(a).0, 0.0);
    ctx.backward(loss);
    assert_eq!(ctx.grad(a).0, 6.0);
    assert_eq!(ctx.grad(b).0, -4.0);
    assert_eq!(ctx.grad(e).0, -2.0);
    assert_eq!(ctx.grad(f).0, 4.0);
}

#[test]
fn zero_grad_resets_one_node() {
    let mut ctx = Context::new();
    let a = param(&mut ctx, "a", 2.0);
    let b = param(&mut ctx, "b", 5.0);
    let s = ctx.sum(a, b);
    ctx.backward(s);
    ctx.zero_grad(a);
    assert_eq!(ctx.grad(a).0, 0.0);
    assert_eq!(ctx.grad(b).0, 1.0);
    ctx.backward(s);
    assert_eq!(ctx.grad(a).0, 1.0);
    assert_eq!(ctx.grad(b).0, 2.0);
}

#[test]
fn pow_of_negative_base_is_nan() {
    let mut ctx = Context::new();
    let a = param(&mut ctx, "a", -8.0);
    let r = ctx.pow(a, F(0.5));
    assert!(ctx.value(r).0.is_nan());
    ctx.backward(r);
    assert!(ctx.grad(a).0.is_nan());
}

#[test]
fn exp_overflow_propagates_infinity() {
    let mut ctx = Context::new();
    let a = param(&mut ctx, "a", 1000.0);
    let e = ctx.exp(a);
    assert_eq!(ctx.value(e).0, f64::INFINITY);
    ctx.backward(e);
    assert_eq!(ctx.grad(a).0, f64::INFINITY);
}

#[test]
fn relu_passes_positive_and_blocks_negative() {
    let mut ctx = Context::new();
    let a = param(&mut ctx, "a", 3.0);
    let b = param(&mut ctx, "b", -2.0);
    let ra = ctx.relu(a);
    let rb = ctx.relu(b);
    let s = ctx.sum(ra, rb);
    assert_eq!(ctx.value(ra).0, 3.0);
    assert_eq!(ctx.value(rb).0, 0.0);
    ctx.backward(s);
    assert_eq!(ctx.grad(a).0, 1.0);
    assert_eq!(ctx.grad(b).0, 0.0);
}

#[test]
fn unreachable_nodes_keep_their_gradient() {
    let mut ctx = Context::new();
    let a = param(&mut ctx, "a", 2.0);
    let b = param(&mut ctx, "b", 3.0);
    let other = ctx.mul(a, b);
    let sq = ctx.pow(a, F(2.0));
    ctx.backward(sq);
    assert_eq!(ctx.grad(a).0, 4.0);
    assert_eq!(ctx.grad(b).0, 0.0);
    assert_eq!(ctx.grad(other).0, 0.0);
}

#[test]
fn set_leaf_leaves_cached_values_stale() {
    let mut ctx = Context::new();
    let a = param(&mut ctx, "a", 2.0);
    let b = param(&mut ctx, "b", 3.0);
    let s = ctx.sum(a, b);
    ctx.set(a, F(10.0));
    assert_eq!(ctx.value(a).0, 10.0);
    assert_eq!(ctx.value(s).0, 5.0);
    assert_eq!(ctx.compute(s).0, 13.0);
}

#[test]
fn compute_reevaluates_every_operation() {
    let mut ctx = Context::new();
    let a = param(&mut ctx, "a", 1.0);
    let e = ctx.exp(a);
    let p = ctx.pow(e, F(2.0));
    let r = ctx.relu(p);
    assert_eq!(ctx.compute(r).0, (1.0_f64).exp().powf(2.0));
    ctx.set(a, F(0.0));
    assert_eq!(ctx.compute(r).0, 1.0);
}

#[test]
fn expr_writes_names_and_constants() {
    let mut ctx = Context::new();
    let a = param(&mut ctx, "a", 2.0);
    let b = param(&mut ctx, "b", -3.0);
    let p = ctx.mul(a, b);
    let diff = ctx.sub(p, a);
    assert_eq!(ctx.expr(diff), "((a * b) + (a * -1))");
    let half = ctx.constant(F(0.5));
    let e = ctx.exp(half);
    let q = ctx.pow(e, F(2.0));
    let r = ctx.relu(q);
    assert_eq!(ctx.expr(r), "relu((exp(0.5) ^ 2))");
}

#[test]
fn div_by_node() {
    let mut ctx = Context::new();
    let a = param(&mut ctx, "a", 6.0);
    let b = param(&mut ctx, "b", 4.0);
    let q = ctx.div(a, b);
    assert_eq!(ctx.value(q).0, 1.5);
    ctx.backward(q);
    assert_eq!(ctx.grad(a).0, 0.25);
    assert_eq!(ctx.grad(b).0, -0.375);
    assert_eq!(ctx.expr(q), "(a * (b ^ -1))");
}

#[test]
fn descend_steps_against_the_gradient() {
    let mut ctx = Context::new();
    let a = param(&mut ctx, "a", 2.0);
    let sq = ctx.pow(a, F(2.0));
    ctx.backward(sq);
    ctx.descend(a, F(0.25), F(0.5));
    assert_eq!(ctx.value(a).0, 1.0);
    assert_eq!(ctx.grad(a).0, 4.0);
}

#[test]
fn descend_replaces_a_diverged_value() {
    let mut ctx = Context::new();
    let a = param(&mut ctx, "a", -8.0);
    let r = ctx.pow(a, F(0.5));
    ctx.backward(r);
    ctx.descend(a, F(0.1), F(0.75));
    assert_eq!(ctx.value(a).0, 0.75);
}

#[test]
fn node_id_compute_and_set() {
    let mut ctx = Context::new();
    let a = param(&mut ctx, "a", 1.5);
    let b = ctx.constant(F(2.0));
    let p = ctx.mul(a, b);
    assert_eq!(p.compute(&ctx).0, 3.0);
    a.set(&mut ctx, F(4.0));
    assert_eq!(p.compute(&ctx).0, 8.0);
    assert_eq!(ctx.value(p).0, 3.0);
    assert_eq!(ctx.expr(b), "2");
}

#[test]
fn second_pass_accumulates_through_intermediate_nodes() {
    let mut ctx = Context::new();
    let a = param(&mut ctx, "a", 2.0);
    let b = param(&mut ctx, "b", -3.0);
    let c = param(&mut ctx, "c", 10.0);
    let e = ctx.mul(a, b);
    let d = ctx.sum(e, c);
    let f = param(&mut ctx, "f", -2.0);
    let loss = ctx.mul(d, f);
    ctx.backward(loss);
    ctx.backward(loss);
    assert_eq!(ctx.grad(loss).0, 1.0);
    assert_eq!(ctx.grad(d).0, -4.0);
    assert_eq!(ctx.grad(e).0, -6.0);
    assert_eq!(ctx.grad(a).0, 24.0);
}

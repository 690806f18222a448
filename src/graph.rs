//! The computation graph: an arena of scalar nodes, the operations that extend it,
//! the queries and updates on it, and the backward pass.

use vstd::prelude::*;

use crate::scalar::Scalar;

verus! {

/// Handle of a node inside a [`Context`]: the node's position in the arena.
///
/// Handles are compared by position, never by value, so two nodes that hold equal
/// values stay distinct.
#[derive(Clone, Copy, Debug, PartialEq, Eq, Structural)]
pub struct NodeId(pub usize);

impl NodeId {
    /// Evaluates this node afresh in `ctx`, from the current leaf values.
    pub fn compute<S: Scalar>(&self, ctx: &Context<S>) -> (r: S)
        requires
            ctx@.wf(),
            ctx@.valid(*self),
        ensures
            r == ctx@.eval(self.0 as int),
    {
        ctx.compute(*self)
    }

    /// Overwrites the value of this leaf in `ctx`.
    pub fn set<S: Scalar>(&self, ctx: &mut Context<S>, value: S)
        requires
            old(ctx)@.wf(),
            old(ctx)@.valid(*self),
            old(ctx)@.is_leaf(*self),
        ensures
            final(ctx)@.ops == old(ctx)@.ops,
            final(ctx)@.values == old(ctx)@.values.update(self.0 as int, value),
            final(ctx)@.grads == old(ctx)@.grads,
            final(ctx)@.wf(),
    {
        ctx.set(*self, value)
    }
}

/// How a node was produced.
#[derive(Debug)]
pub enum Op<S> {
    /// A leaf: a named parameter, or an anonymous constant when the name is empty.
    Leaf(String),
    /// `a + b`.
    Sum(NodeId, NodeId),
    /// `a * b`.
    Mul(NodeId, NodeId),
    /// `a` raised to a constant power.
    Pow(NodeId, S),
    /// `exp(a)`.
    Exp(NodeId),
    /// `max(a, 0)`.
    Relu(NodeId),
}

/// The mathematical content of a [`Context`]: for node `i`, how it was produced,
/// its cached forward value and its accumulated gradient.
pub struct Graph<S> {
    pub ops: Seq<Op<S>>,
    pub values: Seq<S>,
    pub grads: Seq<S>,
}

/// Every operand of `op` names a node that comes before position `i`.
pub open spec fn operands_before<S>(op: Op<S>, i: int) -> bool {
    match op {
        Op::Leaf(_) => true,
        Op::Sum(a, b) => a.0 < i && b.0 < i,
        Op::Mul(a, b) => a.0 < i && b.0 < i,
        Op::Pow(a, _) => a.0 < i,
        Op::Exp(a) => a.0 < i,
        Op::Relu(a) => a.0 < i,
    }
}

/// Node `i` is an operand of `op`.
pub open spec fn uses<S>(op: Op<S>, i: int) -> bool {
    match op {
        Op::Leaf(_) => false,
        Op::Sum(a, b) => a.0 == i || b.0 == i,
        Op::Mul(a, b) => a.0 == i || b.0 == i,
        Op::Pow(a, _) => a.0 == i,
        Op::Exp(a) => a.0 == i,
        Op::Relu(a) => a.0 == i,
    }
}

/// `op` makes an anonymous constant: a leaf with an empty name.
pub open spec fn is_constant<S>(op: Op<S>) -> bool {
    match op {
        Op::Leaf(name) => name@.len() == 0,
        _ => false,
    }
}

/// The gradient-descent step `value - rate * grad`, written as the engine computes
/// it: `value + (-1 * rate) * grad`.
pub open spec fn descent_step<S: Scalar>(value: S, rate: S, grad: S) -> S {
    S::spec_add(value, S::spec_mul(S::spec_mul(S::spec_minus_one(), rate), grad))
}

/// The forward rule of `relu`.
pub open spec fn relu_of<S: Scalar>(x: S) -> S {
    if S::spec_is_positive(x) {
        x
    } else {
        S::spec_zero()
    }
}

impl<S: Scalar> Graph<S> {
    pub open spec fn len(self) -> nat {
        self.ops.len()
    }

    /// The three sequences agree in length, and operands always precede the node
    /// that uses them, so the nodes form a DAG listed in topological order.
    pub open spec fn wf(self) -> bool {
        &&& self.values.len() == self.ops.len()
        &&& self.grads.len() == self.ops.len()
        &&& forall|i: int| 0 <= i < self.ops.len() ==> operands_before(#[trigger] self.ops[i], i)
    }

    pub open spec fn valid(self, id: NodeId) -> bool {
        id.0 < self.ops.len()
    }

    pub open spec fn is_leaf(self, id: NodeId) -> bool {
        self.ops[id.0 as int] is Leaf
    }

    /// The graph with one more node, whose gradient starts at zero.
    pub open spec fn with_node(self, op: Op<S>, value: S) -> Graph<S> {
        Graph {
            ops: self.ops.push(op),
            values: self.values.push(value),
            grads: self.grads.push(S::spec_zero()),
        }
    }

    /// The graph with every gradient reset to zero.
    pub open spec fn zeroed(self) -> Graph<S> {
        Graph { ops: self.ops, values: self.values, grads: Seq::new(self.len(), |i: int| S::spec_zero()) }
    }

    /// The forward value of a new node made by `op`, from the operands' cached values.
    pub open spec fn forward(self, op: Op<S>) -> S {
        match op {
            Op::Leaf(_) => S::spec_zero(),
            Op::Sum(a, b) => S::spec_add(self.values[a.0 as int], self.values[b.0 as int]),
            Op::Mul(a, b) => S::spec_mul(self.values[a.0 as int], self.values[b.0 as int]),
            Op::Pow(a, p) => S::spec_powf(self.values[a.0 as int], p),
            Op::Exp(a) => S::spec_exp(self.values[a.0 as int]),
            Op::Relu(a) => relu_of(self.values[a.0 as int]),
        }
    }

    /// The graph after appending the node that `op` makes, with its forward value.
    pub open spec fn applied(self, op: Op<S>) -> Graph<S> {
        self.with_node(op, self.forward(op))
    }

    /// The graph after `a - b`, written as `a + b * c` with `c` a new constant `-1`
    /// whose leaf is `c_op`.
    pub open spec fn subtracted(self, a: NodeId, b: NodeId, c_op: Op<S>) -> Graph<S> {
        let n = self.len() as usize;
        self.with_node(c_op, S::spec_minus_one()).applied(Op::Mul(b, NodeId(n))).applied(
            Op::Sum(a, NodeId((n + 1) as usize)),
        )
    }

    /// The graph after `a / b`, written as `a * b^-1`.
    pub open spec fn divided(self, a: NodeId, b: NodeId) -> Graph<S> {
        let n = self.len() as usize;
        self.applied(Op::Pow(b, S::spec_minus_one())).applied(Op::Mul(a, NodeId(n)))
    }

    /// The value of node `i` evaluated afresh from the current leaf values.
    pub open spec fn eval(self, i: int) -> S
        decreases i,
    {
        if 0 <= i < self.ops.len() && operands_before(self.ops[i], i) {
            match self.ops[i] {
                Op::Leaf(_) => self.values[i],
                Op::Sum(a, b) => S::spec_add(self.eval(a.0 as int), self.eval(b.0 as int)),
                Op::Mul(a, b) => S::spec_mul(self.eval(a.0 as int), self.eval(b.0 as int)),
                Op::Pow(a, p) => S::spec_powf(self.eval(a.0 as int), p),
                Op::Exp(a) => S::spec_exp(self.eval(a.0 as int)),
                Op::Relu(a) => relu_of(self.eval(a.0 as int)),
            }
        } else {
            S::spec_zero()
        }
    }

    /// Every cached value equals its node evaluated afresh from the leaves.
    pub open spec fn consistent(self) -> bool {
        forall|i: int| 0 <= i < self.len() ==> #[trigger] self.values[i] == self.eval(i)
    }

    /// How node `i` is written: a parameter by its name, a constant by its value,
    /// an operation with its operands written the same way.
    pub open spec fn text(self, i: int) -> Seq<char>
        decreases i,
    {
        if 0 <= i < self.ops.len() && operands_before(self.ops[i], i) {
            match self.ops[i] {
                Op::Leaf(name) => if name@.len() > 0 {
                    name@
                } else {
                    S::spec_text(self.values[i])
                },
                Op::Sum(a, b) => seq!['('] + self.text(a.0 as int) + seq![' ', '+', ' ']
                    + self.text(b.0 as int) + seq![')'],
                Op::Mul(a, b) => seq!['('] + self.text(a.0 as int) + seq![' ', '*', ' ']
                    + self.text(b.0 as int) + seq![')'],
                Op::Pow(a, p) => seq!['('] + self.text(a.0 as int) + seq![' ', '^', ' ']
                    + S::spec_text(p) + seq![')'],
                Op::Exp(a) => seq!['e', 'x', 'p', '('] + self.text(a.0 as int) + seq![')'],
                Op::Relu(a) => seq!['r', 'e', 'l', 'u', '('] + self.text(a.0 as int) + seq![')'],
            }
        } else {
            Seq::empty()
        }
    }
}

/// Adding a node does not change how the nodes before it evaluate.
proof fn lemma_eval_frame<S: Scalar>(g: Graph<S>, op: Op<S>, value: S, i: int)
    requires
        g.wf(),
        0 <= i < g.len(),
    ensures
        g.with_node(op, value).eval(i) == g.eval(i),
    decreases i,
{
    let h = g.with_node(op, value);
    assert(h.ops[i] == g.ops[i]);
    assert(operands_before(g.ops[i], i));
    match g.ops[i] {
        Op::Leaf(_) => {},
        Op::Sum(a, b) => {
            lemma_eval_frame(g, op, value, a.0 as int);
            lemma_eval_frame(g, op, value, b.0 as int);
        },
        Op::Mul(a, b) => {
            lemma_eval_frame(g, op, value, a.0 as int);
            lemma_eval_frame(g, op, value, b.0 as int);
        },
        Op::Pow(a, _) => lemma_eval_frame(g, op, value, a.0 as int),
        Op::Exp(a) => lemma_eval_frame(g, op, value, a.0 as int),
        Op::Relu(a) => lemma_eval_frame(g, op, value, a.0 as int),
    }
}

/// Building never leaves a cached value stale: if every cached value is its node
/// evaluated afresh, this still holds after a leaf is added, or a node made by an
/// operation with its forward value. Only overwriting a leaf can make values stale.
pub proof fn lemma_build_keeps_consistent<S: Scalar>(g: Graph<S>, op: Op<S>, value: S)
    requires
        g.wf(),
        g.consistent(),
        operands_before(op, g.len() as int),
        op is Leaf || value == g.forward(op),
    ensures
        g.with_node(op, value).consistent(),
{
    let h = g.with_node(op, value);
    let n = g.len() as int;
    assert forall|i: int| 0 <= i < h.len() implies #[trigger] h.values[i] == h.eval(i) by {
        if i < n {
            lemma_eval_frame(g, op, value, i);
            assert(h.values[i] == g.values[i]);
        } else {
            assert(h.ops[n] == op);
            match op {
                Op::Leaf(_) => {},
                Op::Sum(a, b) => {
                    lemma_eval_frame(g, op, value, a.0 as int);
                    lemma_eval_frame(g, op, value, b.0 as int);
                },
                Op::Mul(a, b) => {
                    lemma_eval_frame(g, op, value, a.0 as int);
                    lemma_eval_frame(g, op, value, b.0 as int);
                },
                Op::Pow(a, _) => lemma_eval_frame(g, op, value, a.0 as int),
                Op::Exp(a) => lemma_eval_frame(g, op, value, a.0 as int),
                Op::Relu(a) => lemma_eval_frame(g, op, value, a.0 as int),
            }
        }
    }
}

/// An arena of scalar nodes: the computation graph that operations build and that
/// [`Context::backward`] walks.
pub struct Context<S> {
    ops: Vec<Op<S>>,
    values: Vec<S>,
    grads: Vec<S>,
}

impl<S: Scalar> View for Context<S> {
    type V = Graph<S>;

    closed spec fn view(&self) -> Graph<S> {
        Graph { ops: self.ops@, values: self.values@, grads: self.grads@ }
    }
}

impl<S: Scalar> Context<S> {
    /// An empty graph.
    pub fn new() -> (r: Self)
        ensures
            r@.wf(),
            r@.len() == 0,
    {
        Context { ops: Vec::new(), values: Vec::new(), grads: Vec::new() }
    }

    /// The number of nodes.
    pub fn len(&self) -> (r: usize)
        requires
            self@.wf(),
        ensures
            r == self@.len(),
    {
        self.ops.len()
    }

    fn push_node(&mut self, op: Op<S>, value: S) -> (r: NodeId)
        requires
            old(self)@.wf(),
            operands_before(op, old(self)@.len() as int),
            old(self)@.len() < usize::MAX,
        ensures
            final(self)@ == old(self)@.with_node(op, value),
            final(self)@.wf(),
            r.0 == old(self)@.len(),
    {
        let ghost g = self@;
        let r = NodeId(self.ops.len());
        self.ops.push(op);
        self.values.push(value);
        let z = S::zero();
        self.grads.push(z);
        proof {
            let h = self@;
            assert forall|i: int| 0 <= i < h.ops.len() implies operands_before(
                #[trigger] h.ops[i],
                i,
            ) by {
                if i < g.ops.len() {
                    assert(h.ops[i] == g.ops[i]);
                }
            }
        }
        r
    }

    /// A named parameter leaf holding `value`, with gradient zero.
    pub fn param(&mut self, name: String, value: S) -> (r: NodeId)
        requires
            old(self)@.wf(),
            old(self)@.len() < usize::MAX,
        ensures
            final(self)@ == old(self)@.with_node(Op::Leaf(name), value),
            final(self)@.wf(),
            r.0 == old(self)@.len(),
    {
        self.push_node(Op::Leaf(name), value)
    }

    /// An anonymous constant leaf holding `value`, with gradient zero.
    pub fn constant(&mut self, value: S) -> (r: NodeId)
        requires
            old(self)@.wf(),
            old(self)@.len() < usize::MAX,
        ensures
            final(self)@ == old(self)@.with_node(final(self)@.ops.last(), value),
            is_constant(final(self)@.ops.last()),
            final(self)@.wf(),
            r.0 == old(self)@.len(),
    {
        let name = String::new();
        proof {
            assert(is_constant(Op::<S>::Leaf(name)));
        }
        self.push_node(Op::Leaf(name), value)
    }

    /// A new node `a + b`.
    pub fn sum(&mut self, a: NodeId, b: NodeId) -> (r: NodeId)
        requires
            old(self)@.wf(),
            old(self)@.valid(a),
            old(self)@.valid(b),
            old(self)@.len() < usize::MAX,
        ensures
            final(self)@ == old(self)@.applied(Op::Sum(a, b)),
            final(self)@.wf(),
            r.0 == old(self)@.len(),
    {
        let v = self.values[a.0].add(&self.values[b.0]);
        self.push_node(Op::Sum(a, b), v)
    }

    /// A new node `a * b`.
    pub fn mul(&mut self, a: NodeId, b: NodeId) -> (r: NodeId)
        requires
            old(self)@.wf(),
            old(self)@.valid(a),
            old(self)@.valid(b),
            old(self)@.len() < usize::MAX,
        ensures
            final(self)@ == old(self)@.applied(Op::Mul(a, b)),
            final(self)@.wf(),
            r.0 == old(self)@.len(),
    {
        let v = self.values[a.0].mul(&self.values[b.0]);
        self.push_node(Op::Mul(a, b), v)
    }

    /// A new node `a^p` for a constant exponent `p`.
    pub fn pow(&mut self, a: NodeId, p: S) -> (r: NodeId)
        requires
            old(self)@.wf(),
            old(self)@.valid(a),
            old(self)@.len() < usize::MAX,
        ensures
            final(self)@ == old(self)@.applied(Op::Pow(a, p)),
            final(self)@.wf(),
            r.0 == old(self)@.len(),
    {
        let v = self.values[a.0].powf(&p);
        self.push_node(Op::Pow(a, p), v)
    }

    /// A new node `exp(a)`.
    pub fn exp(&mut self, a: NodeId) -> (r: NodeId)
        requires
            old(self)@.wf(),
            old(self)@.valid(a),
            old(self)@.len() < usize::MAX,
        ensures
            final(self)@ == old(self)@.applied(Op::Exp(a)),
            final(self)@.wf(),
            r.0 == old(self)@.len(),
    {
        let v = self.values[a.0].exp();
        self.push_node(Op::Exp(a), v)
    }

    /// A new node `relu(a)`: `a` where it is positive, zero elsewhere.
    pub fn relu(&mut self, a: NodeId) -> (r: NodeId)
        requires
            old(self)@.wf(),
            old(self)@.valid(a),
            old(self)@.len() < usize::MAX,
        ensures
            final(self)@ == old(self)@.applied(Op::Relu(a)),
            final(self)@.wf(),
            r.0 == old(self)@.len(),
    {
        let x = self.values[a.0];
        let v = if x.is_positive() {
            x
        } else {
            S::zero()
        };
        self.push_node(Op::Relu(a), v)
    }

    /// A new node `a - b`, built as `a + b * (-1)` with a new constant `-1`.
    pub fn sub(&mut self, a: NodeId, b: NodeId) -> (r: NodeId)
        requires
            old(self)@.wf(),
            old(self)@.valid(a),
            old(self)@.valid(b),
            old(self)@.len() + 3 <= usize::MAX,
        ensures
            is_constant(final(self)@.ops[old(self)@.len() as int]),
            final(self)@ == old(self)@.subtracted(a, b, final(self)@.ops[old(self)@.len() as int]),
            final(self)@.wf(),
            r.0 == old(self)@.len() + 2,
    {
        let m = S::minus_one();
        let c = self.constant(m);
        let t = self.mul(b, c);
        self.sum(a, t)
    }

    /// A new node `a / b`, built as `a * b^-1`.
    pub fn div(&mut self, a: NodeId, b: NodeId) -> (r: NodeId)
        requires
            old(self)@.wf(),
            old(self)@.valid(a),
            old(self)@.valid(b),
            old(self)@.len() + 2 <= usize::MAX,
        ensures
            final(self)@ == old(self)@.divided(a, b),
            final(self)@.wf(),
            r.0 == old(self)@.len() + 1,
    {
        let m = S::minus_one();
        let q = self.pow(b, m);
        self.mul(a, q)
    }

    /// The cached forward value of a node.
    pub fn value(&self, id: NodeId) -> (r: S)
        requires
            self@.wf(),
            self@.valid(id),
        ensures
            r == self@.values[id.0 as int],
    {
        self.values[id.0]
    }

    /// The gradient accumulated in a node.
    pub fn grad(&self, id: NodeId) -> (r: S)
        requires
            self@.wf(),
            self@.valid(id),
        ensures
            r == self@.grads[id.0 as int],
    {
        self.grads[id.0]
    }

    /// Overwrites the value of a leaf. Nodes computed from it keep their cached values.
    pub fn set(&mut self, id: NodeId, value: S)
        requires
            old(self)@.wf(),
            old(self)@.valid(id),
            old(self)@.is_leaf(id),
        ensures
            final(self)@.ops == old(self)@.ops,
            final(self)@.values == old(self)@.values.update(id.0 as int, value),
            final(self)@.grads == old(self)@.grads,
            final(self)@.wf(),
    {
        self.values.set(id.0, value);
    }

    /// One gradient-descent step on a leaf: its value becomes `value - rate * grad`,
    /// unless that is not finite, in which case it becomes `fresh` (a caller's
    /// replacement, such as a random value) so that a diverged parameter recovers.
    pub fn descend(&mut self, id: NodeId, rate: S, fresh: S)
        requires
            old(self)@.wf(),
            old(self)@.valid(id),
            old(self)@.is_leaf(id),
        ensures
            final(self)@.ops == old(self)@.ops,
            final(self)@.grads == old(self)@.grads,
            final(self)@.values == old(self)@.values.update(
                id.0 as int,
                if S::spec_is_finite(
                    descent_step(old(self)@.values[id.0 as int], rate, old(self)@.grads[id.0 as int]),
                ) {
                    descent_step(old(self)@.values[id.0 as int], rate, old(self)@.grads[id.0 as int])
                } else {
                    fresh
                },
            ),
            final(self)@.wf(),
    {
        let step = S::minus_one().mul(&rate).mul(&self.grads[id.0]);
        let next = self.values[id.0].add(&step);
        let v = if next.is_finite() {
            next
        } else {
            fresh
        };
        self.set(id, v);
    }

    /// Resets the gradient of one node to zero.
    pub fn zero_grad(&mut self, id: NodeId)
        requires
            old(self)@.wf(),
            old(self)@.valid(id),
        ensures
            final(self)@.ops == old(self)@.ops,
            final(self)@.values == old(self)@.values,
            final(self)@.grads == old(self)@.grads.update(id.0 as int, S::spec_zero()),
            final(self)@.wf(),
    {
        let z = S::zero();
        self.grads.set(id.0, z);
    }

    /// Resets the gradient of every node to zero.
    pub fn zero_grads(&mut self)
        requires
            old(self)@.wf(),
        ensures
            final(self)@ == old(self)@.zeroed(),
            final(self)@.wf(),
    {
        let n = self.grads.len();
        let mut i: usize = 0;
        while i < n
            invariant
                self@.wf(),
                self@.ops == old(self)@.ops,
                self@.values == old(self)@.values,
                n == self@.len(),
                i <= n,
                forall|j: int| 0 <= j < i ==> self@.grads[j] == S::spec_zero(),
            decreases n - i,
        {
            let z = S::zero();
            self.grads.set(i, z);
            i = i + 1;
        }
        proof {
            assert(self@.grads =~= Seq::new(old(self)@.len(), |i: int| S::spec_zero()));
        }
    }

    /// Evaluates a node afresh from the current values of the leaves below it.
    pub fn compute(&self, id: NodeId) -> (r: S)
        requires
            self@.wf(),
            self@.valid(id),
        ensures
            r == self@.eval(id.0 as int),
        decreases id.0,
    {
        proof {
            assert(operands_before(self@.ops[id.0 as int], id.0 as int));
        }
        match &self.ops[id.0] {
            Op::Leaf(_) => self.values[id.0],
            Op::Sum(a, b) => self.compute(*a).add(&self.compute(*b)),
            Op::Mul(a, b) => self.compute(*a).mul(&self.compute(*b)),
            Op::Pow(a, p) => self.compute(*a).powf(p),
            Op::Exp(a) => self.compute(*a).exp(),
            Op::Relu(a) => {
                let x = self.compute(*a);
                if x.is_positive() {
                    x
                } else {
                    S::zero()
                }
            },
        }
    }

    /// The expression that a node stands for, written out: parameters by name,
    /// constants by value, operations in infix form with parentheses.
    pub fn expr(&self, id: NodeId) -> (r: String)
        requires
            self@.wf(),
            self@.valid(id),
        ensures
            r@ == self@.text(id.0 as int),
        decreases id.0,
    {
        proof {
            assert(operands_before(self@.ops[id.0 as int], id.0 as int));
            reveal_strlit("(");
            reveal_strlit(")");
            reveal_strlit(" + ");
            reveal_strlit(" * ");
            reveal_strlit(" ^ ");
            reveal_strlit("exp(");
            reveal_strlit("relu(");
        }
        match &self.ops[id.0] {
            Op::Leaf(name) => {
                if !name.as_str().is_empty() {
                    name.clone()
                } else {
                    self.values[id.0].to_text()
                }
            },
            Op::Sum(a, b) => {
                let mut s = String::from_str("(");
                s.append(self.expr(*a).as_str());
                s.append(" + ");
                s.append(self.expr(*b).as_str());
                s.append(")");
                s
            },
            Op::Mul(a, b) => {
                let mut s = String::from_str("(");
                s.append(self.expr(*a).as_str());
                s.append(" * ");
                s.append(self.expr(*b).as_str());
                s.append(")");
                s
            },
            Op::Pow(a, p) => {
                let mut s = String::from_str("(");
                s.append(self.expr(*a).as_str());
                s.append(" ^ ");
                s.append(p.to_text().as_str());
                s.append(")");
                s
            },
            Op::Exp(a) => {
                let mut s = String::from_str("exp(");
                s.append(self.expr(*a).as_str());
                s.append(")");
                s
            },
            Op::Relu(a) => {
                let mut s = String::from_str("relu(");
                s.append(self.expr(*a).as_str());
                s.append(")");
                s
            },
        }
    }

    /// Runs the local backward rule of node `k` with its current gradient: adds to
    /// each operand's gradient, and marks each operand as reached.
    fn propagate(&mut self, k: usize, marks: &mut Vec<bool>)
        requires
            old(self)@.wf(),
            k < old(self)@.len(),
            k < old(marks)@.len(),
        ensures
            final(self)@.wf(),
            final(self)@.ops == old(self)@.ops,
            final(self)@.values == old(self)@.values,
            forall|i: int|
                0 <= i < k ==> #[trigger] final(self)@.grads[i] == old(self)@.contribute(
                    k as int,
                    i,
                    old(self)@.grads[i],
                    old(self)@.grads[k as int],
                ),
            forall|i: int|
                k <= i < old(self)@.len() ==> #[trigger] final(self)@.grads[i]
                    == old(self)@.grads[i],
            final(marks)@.len() == old(marks)@.len(),
            forall|i: int|
                0 <= i < k ==> #[trigger] final(marks)@[i] == (old(marks)@[i] || uses(
                    old(self)@.ops[k as int],
                    i,
                )),
            forall|i: int|
                k <= i < old(marks)@.len() ==> #[trigger] final(marks)@[i] == old(marks)@[i],
    {
        proof {
            assert(operands_before(self@.ops[k as int], k as int));
        }
        let gk = self.grads[k];
        match &self.ops[k] {
            Op::Leaf(_) => {},
            Op::Sum(a, b) => {
                let (a, b) = (a.0, b.0);
                let ga = self.grads[a].add(&gk);
                self.grads.set(a, ga);
                let gb = self.grads[b].add(&gk);
                self.grads.set(b, gb);
                marks.set(a, true);
                marks.set(b, true);
            },
            Op::Mul(a, b) => {
                let (a, b) = (a.0, b.0);
                let da = self.values[b].mul(&gk);
                let ga = self.grads[a].add(&da);
                self.grads.set(a, ga);
                let db = self.values[a].mul(&gk);
                let gb = self.grads[b].add(&db);
                self.grads.set(b, gb);
                marks.set(a, true);
                marks.set(b, true);
            },
            Op::Pow(a, p) => {
                let (a, p) = (a.0, *p);
                let x = self.values[a];
                let e = p.add(&S::minus_one());
                let d = p.mul(&x.powf(&e)).mul(&gk);
                let ga = self.grads[a].add(&d);
                self.grads.set(a, ga);
                marks.set(a, true);
            },
            Op::Exp(a) => {
                let a = a.0;
                let d = self.values[k].mul(&gk);
                let ga = self.grads[a].add(&d);
                self.grads.set(a, ga);
                marks.set(a, true);
            },
            Op::Relu(a) => {
                let a = a.0;
                let d = if self.values[a].is_positive() {
                    gk
                } else {
                    S::zero()
                };
                let ga = self.grads[a].add(&d);
                self.grads.set(a, ga);
                marks.set(a, true);
            },
        }
    }

    /// The backward pass from `root`: sets the gradient of `root` to one, then lets
    /// every node reachable from `root`, each exactly once and only after all of its
    /// reachable consumers, add its local derivatives into its operands' gradients.
    /// Gradients already present elsewhere are accumulated onto, not replaced.
    pub fn backward(&mut self, root: NodeId)
        requires
            old(self)@.wf(),
            old(self)@.valid(root),
        ensures
            final(self)@ == old(self)@.backward_result(root.0 as int),
            final(self)@.wf(),
    {
        let ghost g = self@;
        let r = root.0;
        let n = self.ops.len();
        let mut marks: Vec<bool> = Vec::new();
        let mut t: usize = 0;
        while t <= r
            invariant
                t <= r + 1,
                r < n,
                n == g.len(),
                marks@.len() == t,
                forall|j: int| 0 <= j < t ==> !marks@[j],
            decreases r + 1 - t,
        {
            marks.push(false);
            t = t + 1;
        }
        marks.set(r, true);
        let one = S::one();
        self.grads.set(r, one);
        let mut k: usize = r + 1;
        while k > 0
            invariant
                self@.wf(),
                self@.ops == g.ops,
                self@.values == g.values,
                g.wf(),
                r < g.len(),
                marks@.len() == r + 1,
                k <= r + 1,
                forall|i: int| k <= i <= r ==> #[trigger] self@.grads[i] == g.adjoint(r as int, i),
                forall|i: int|
                    0 <= i < k ==> #[trigger] self@.grads[i] == g.gathered(r as int, i, k as int),
                forall|i: int| r < i < g.len() ==> #[trigger] self@.grads[i] == g.grads[i],
                forall|i: int| k <= i <= r ==> #[trigger] marks@[i] == g.reachable(r as int, i),
                forall|i: int|
                    0 <= i < k ==> #[trigger] marks@[i] == g.marked(r as int, i, k as int),
            decreases k,
        {
            k = k - 1;
            proof {
                assert(self@.grads[k as int] == g.adjoint(r as int, k as int));
                assert(marks@[k as int] == g.reachable(r as int, k as int));
            }
            let ghost before = self@;
            let ghost marks_before = marks@;
            if marks[k] {
                self.propagate(k, &mut marks);
            }
            proof {
                assert forall|i: int| 0 <= i < k implies #[trigger] self@.grads[i] == g.gathered(
                    r as int,
                    i,
                    k as int,
                ) by {
                    assert(before.grads[i] == g.gathered(r as int, i, k as int + 1));
                    if g.reachable(r as int, k as int) {
                        assert(before.contribute(k as int, i, before.grads[i], before.grads[k as int])
                            == g.contribute(k as int, i, before.grads[i], before.grads[k as int]));
                    }
                }
                assert forall|i: int| 0 <= i < k implies #[trigger] marks@[i] == g.marked(
                    r as int,
                    i,
                    k as int,
                ) by {
                    assert(marks_before[i] == g.marked(r as int, i, k as int + 1));
                }
            }
        }
        proof {
            assert(self@.grads =~= g.backward_result(r as int).grads);
        }
    }
}

} // verus!

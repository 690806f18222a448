//! What a backward pass computes, stated over a graph's model: reachability from
//! the root, each operation's local rule, and the resulting gradients; with the laws
//! that follow from it.

use vstd::prelude::*;

use crate::graph::{uses, Graph, NodeId, Op};
use crate::scalar::Scalar;

verus! {

/// The local derivative of `x^p` with respect to `x`, times the upstream gradient `g`:
/// `p * x^(p - 1) * g`.
pub open spec fn pow_slope<S: Scalar>(x: S, p: S, g: S) -> S {
    S::spec_mul(S::spec_mul(p, S::spec_powf(x, S::spec_add(p, S::spec_minus_one()))), g)
}

/// The local derivative of `relu` at `x`, times the upstream gradient `g`.
pub open spec fn relu_slope<S: Scalar>(x: S, g: S) -> S {
    if S::spec_is_positive(x) {
        g
    } else {
        S::spec_zero()
    }
}

impl<S: Scalar> Graph<S> {
    /// Node `i` is `root`, or a node reachable from `root` at a position from `k` up to
    /// `root` has `i` as an operand.
    pub open spec fn marked(self, root: int, i: int, k: int) -> bool
        decreases root + 2 - k, 0int,
    {
        if k > root {
            i == root
        } else {
            (self.reachable(root, k) && uses(self.ops[k], i)) || self.marked(root, i, k + 1)
        }
    }

    /// Node `i` can be reached from `root` by following operand edges.
    pub open spec fn reachable(self, root: int, i: int) -> bool
        decreases root + 1 - i, 1int,
    {
        if 0 <= i <= root {
            self.marked(root, i, i + 1)
        } else {
            false
        }
    }

    /// The gradient `acc` of node `i` after node `j`, whose own gradient is `gj`, has
    /// run its local backward rule. The rule reads the cached forward values only.
    pub open spec fn contribute(self, j: int, i: int, acc: S, gj: S) -> S {
        match self.ops[j] {
            Op::Leaf(_) => acc,
            Op::Sum(a, b) => {
                let s = if a.0 == i {
                    S::spec_add(acc, gj)
                } else {
                    acc
                };
                if b.0 == i {
                    S::spec_add(s, gj)
                } else {
                    s
                }
            },
            Op::Mul(a, b) => {
                let s = if a.0 == i {
                    S::spec_add(acc, S::spec_mul(self.values[b.0 as int], gj))
                } else {
                    acc
                };
                if b.0 == i {
                    S::spec_add(s, S::spec_mul(self.values[a.0 as int], gj))
                } else {
                    s
                }
            },
            Op::Pow(a, p) => if a.0 == i {
                S::spec_add(acc, pow_slope(self.values[a.0 as int], p, gj))
            } else {
                acc
            },
            Op::Exp(a) => if a.0 == i {
                S::spec_add(acc, S::spec_mul(self.values[j], gj))
            } else {
                acc
            },
            Op::Relu(a) => if a.0 == i {
                S::spec_add(acc, relu_slope(self.values[a.0 as int], gj))
            } else {
                acc
            },
        }
    }

    /// The gradient of node `i` during a backward pass from `root`, once every
    /// reachable node from `root` down to `k` has run its local rule. The pass starts
    /// from `1` at `root` and from the gradients already present everywhere else.
    pub open spec fn gathered(self, root: int, i: int, k: int) -> S
        decreases root + 2 - k, 0int,
    {
        if k > root {
            if i == root {
                S::spec_one()
            } else {
                self.grads[i]
            }
        } else {
            let prev = self.gathered(root, i, k + 1);
            if self.reachable(root, k) {
                self.contribute(k, i, prev, self.adjoint(root, k))
            } else {
                prev
            }
        }
    }

    /// The gradient that a backward pass from `root` leaves in node `i`: its starting
    /// gradient plus, consumer by consumer in decreasing position, what each reachable
    /// consumer's rule adds given that consumer's own final gradient (the chain rule).
    pub open spec fn adjoint(self, root: int, i: int) -> S
        decreases root + 1 - i, 1int,
    {
        if 0 <= i <= root {
            self.gathered(root, i, i + 1)
        } else {
            self.grads[i]
        }
    }

    /// The graph after a backward pass from `root`.
    pub open spec fn backward_result(self, root: int) -> Graph<S> {
        Graph {
            ops: self.ops,
            values: self.values,
            grads: Seq::new(
                self.grads.len(),
                |i: int|
                    if i <= root {
                        self.adjoint(root, i)
                    } else {
                        self.grads[i]
                    },
            ),
        }
    }
}

/// Resetting every gradient between two backward passes from the same root makes the
/// second pass leave exactly what a single pass leaves when it starts from gradients
/// that are all zero, as in a freshly built graph: nothing of the first pass remains.
pub proof fn lemma_zeroed_rerun<S: Scalar>(g: Graph<S>, root: int)
    requires
        g.wf(),
        0 <= root < g.len(),
    ensures
        g.backward_result(root).zeroed().backward_result(root) == g.zeroed().backward_result(
            root,
        ),
{
    assert(g.backward_result(root).zeroed() =~= g.zeroed());
}

proof fn lemma_gathered_unmarked<S: Scalar>(g: Graph<S>, root: int, i: int, k: int)
    requires
        0 <= i < k <= root + 1,
        i != root,
        !g.marked(root, i, k),
    ensures
        g.gathered(root, i, k) == g.grads[i],
    decreases root + 1 - k,
{
    if k <= root {
        lemma_gathered_unmarked(g, root, i, k + 1);
    }
}

/// A backward pass leaves the gradient of every node that `root` does not reach
/// exactly as it was.
pub proof fn lemma_unreached_unchanged<S: Scalar>(g: Graph<S>, root: int, i: int)
    requires
        g.wf(),
        0 <= i <= root < g.len(),
        !g.reachable(root, i),
    ensures
        g.backward_result(root).grads[i] == g.grads[i],
{
    if i != root {
        lemma_gathered_unmarked(g, root, i, i + 1);
    }
}

/// When `root` has the single operand `x`, no node strictly between them is reached.
proof fn lemma_between_unreached<S: Scalar>(g: Graph<S>, root: int, x: int, k: int)
    requires
        g.wf(),
        0 <= root < g.len(),
        x < k < root,
        forall|i: int| uses(g.ops[root], i) ==> i == x,
    ensures
        !g.reachable(root, k),
    decreases root - k, 1int,
{
    lemma_between_unmarked(g, root, x, k, k + 1);
}

proof fn lemma_between_unmarked<S: Scalar>(g: Graph<S>, root: int, x: int, k: int, j: int)
    requires
        g.wf(),
        0 <= root < g.len(),
        x < k < root,
        k < j <= root + 1,
        forall|i: int| uses(g.ops[root], i) ==> i == x,
    ensures
        !g.marked(root, k, j),
    decreases root + 1 - j, 0int,
{
    if j <= root {
        if j < root {
            lemma_between_unreached(g, root, x, j);
        } else {
            assert(!uses(g.ops[root], k));
        }
        lemma_between_unmarked(g, root, x, k, j + 1);
    }
}

/// Before the root runs its rule, operand `x` still holds its starting gradient.
proof fn lemma_gathered_below_root<S: Scalar>(g: Graph<S>, root: int, x: int, k: int)
    requires
        g.wf(),
        0 <= x < k <= root < g.len(),
        forall|i: int| uses(g.ops[root], i) ==> i == x,
    ensures
        g.gathered(root, x, k) == g.gathered(root, x, root),
    decreases root - k,
{
    if k < root {
        lemma_between_unreached(g, root, x, k);
        lemma_gathered_below_root(g, root, x, k + 1);
    }
}

/// A node that the root uses as both operands of a sum receives the root's gradient
/// once for each use: the pass adds one to its gradient twice, and nothing more.
pub proof fn lemma_shared_operand<S: Scalar>(g: Graph<S>, root: int, x: NodeId)
    requires
        g.wf(),
        0 <= root < g.len(),
        g.ops[root] == Op::<S>::Sum(x, x),
    ensures
        g.backward_result(root).grads[x.0 as int] == S::spec_add(
            S::spec_add(g.grads[x.0 as int], S::spec_one()),
            S::spec_one(),
        ),
{
    let xi = x.0 as int;
    assert(crate::graph::operands_before(g.ops[root], root));
    assert(g.reachable(root, root));
    assert(g.adjoint(root, root) == S::spec_one());
    if xi + 1 < root {
        lemma_gathered_below_root(g, root, xi, xi + 1);
    }
    assert(g.gathered(root, xi, root + 1) == g.grads[xi]);
    assert(g.gathered(root, xi, root) == g.contribute(root, xi, g.grads[xi], S::spec_one()));
    assert(g.adjoint(root, xi) == g.gathered(root, xi, xi + 1));
}

} // verus!

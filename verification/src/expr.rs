//! Small arithmetic-circuit AST used by compositions: variables,
//! constants, sums and products over the 128-bit field. It supports
//! evaluation, evaluation of the leading form (the value "at infinity"),
//! variable remapping for index compositions, and extraction of the
//! variable-usage mask.

use vstd::prelude::*;

use crate::field::{b128_mul, mul128};

verus! {

/// A multivariate polynomial over the 128-bit field, as a syntax tree.
#[derive(Debug, PartialEq, Eq)]
pub enum ArithExpr {
    Var(usize),
    Const(u128),
    Add(Box<ArithExpr>, Box<ArithExpr>),
    Mul(Box<ArithExpr>, Box<ArithExpr>),
}

/// Number of variables: one past the largest variable index.
pub open spec fn expr_n_vars(e: ArithExpr) -> nat
    decreases e,
{
    match e {
        ArithExpr::Var(v) => v as nat + 1,
        ArithExpr::Const(_) => 0,
        ArithExpr::Add(a, b) => {
            let na = expr_n_vars(*a);
            let nb = expr_n_vars(*b);
            if na >= nb {
                na
            } else {
                nb
            }
        },
        ArithExpr::Mul(a, b) => {
            let na = expr_n_vars(*a);
            let nb = expr_n_vars(*b);
            if na >= nb {
                na
            } else {
                nb
            }
        },
    }
}

/// Total degree.
pub open spec fn expr_degree(e: ArithExpr) -> nat
    decreases e,
{
    match e {
        ArithExpr::Var(_) => 1,
        ArithExpr::Const(_) => 0,
        ArithExpr::Add(a, b) => {
            let da = expr_degree(*a);
            let db = expr_degree(*b);
            if da >= db {
                da
            } else {
                db
            }
        },
        ArithExpr::Mul(a, b) => expr_degree(*a) + expr_degree(*b),
    }
}

/// Whether variable `v` occurs in the expression.
pub open spec fn expr_uses(e: ArithExpr, v: int) -> bool
    decreases e,
{
    match e {
        ArithExpr::Var(w) => w == v,
        ArithExpr::Const(_) => false,
        ArithExpr::Add(a, b) => expr_uses(*a, v) || expr_uses(*b, v),
        ArithExpr::Mul(a, b) => expr_uses(*a, v) || expr_uses(*b, v),
    }
}

/// Value of the expression on a query.
pub open spec fn eval_expr(e: ArithExpr, q: Seq<u128>) -> u128
    decreases e,
{
    match e {
        ArithExpr::Var(v) => q[v as int],
        ArithExpr::Const(c) => c,
        ArithExpr::Add(a, b) => eval_expr(*a, q) ^ eval_expr(*b, q),
        ArithExpr::Mul(a, b) => b128_mul(eval_expr(*a, q), eval_expr(*b, q)),
    }
}

/// Value of the leading form of the expression on a query: the
/// homogeneous part of highest degree, which is what a multilinear
/// handed `evals_1 - evals_0` contributes at the point at infinity.
pub open spec fn eval_expr_inf(e: ArithExpr, q: Seq<u128>) -> u128
    decreases e,
{
    match e {
        ArithExpr::Var(v) => q[v as int],
        ArithExpr::Const(c) => c,
        ArithExpr::Add(a, b) => {
            let da = expr_degree(*a);
            let db = expr_degree(*b);
            if da > db {
                eval_expr_inf(*a, q)
            } else if db > da {
                eval_expr_inf(*b, q)
            } else {
                eval_expr_inf(*a, q) ^ eval_expr_inf(*b, q)
            }
        },
        ArithExpr::Mul(a, b) => b128_mul(eval_expr_inf(*a, q), eval_expr_inf(*b, q)),
    }
}

/// The expression with each `Var(v)` replaced by `Var(indices[v])`.
pub open spec fn remap_expr(e: ArithExpr, indices: Seq<usize>) -> ArithExpr
    decreases e,
{
    match e {
        ArithExpr::Var(v) => ArithExpr::Var(indices[v as int]),
        ArithExpr::Const(c) => ArithExpr::Const(c),
        ArithExpr::Add(a, b) => ArithExpr::Add(
            Box::new(remap_expr(*a, indices)),
            Box::new(remap_expr(*b, indices)),
        ),
        ArithExpr::Mul(a, b) => ArithExpr::Mul(
            Box::new(remap_expr(*a, indices)),
            Box::new(remap_expr(*b, indices)),
        ),
    }
}

/// Remapping variables through indices below `n` keeps the variable
/// count below `n` and preserves the degree.
pub proof fn lemma_remap_bounds(e: ArithExpr, indices: Seq<usize>, n: nat)
    requires
        expr_n_vars(e) <= indices.len(),
        forall|k: int| 0 <= k < indices.len() ==> (indices[k] as nat) < n,
    ensures
        expr_n_vars(remap_expr(e, indices)) <= n,
        expr_degree(remap_expr(e, indices)) == expr_degree(e),
    decreases e,
{
    match e {
        ArithExpr::Var(v) => {},
        ArithExpr::Const(_) => {},
        ArithExpr::Add(a, b) => {
            lemma_remap_bounds(*a, indices, n);
            lemma_remap_bounds(*b, indices, n);
        },
        ArithExpr::Mul(a, b) => {
            lemma_remap_bounds(*a, indices, n);
            lemma_remap_bounds(*b, indices, n);
        },
    }
}

/// The value of an expression depends only on the variables it uses.
pub proof fn lemma_eval_agrees_on_used(e: ArithExpr, q1: Seq<u128>, q2: Seq<u128>)
    requires
        forall|v: int| 0 <= v < expr_n_vars(e) && expr_uses(e, v) ==> q1[v] == q2[v],
    ensures
        eval_expr(e, q1) == eval_expr(e, q2),
        eval_expr_inf(e, q1) == eval_expr_inf(e, q2),
    decreases e,
{
    match e {
        ArithExpr::Var(v) => {},
        ArithExpr::Const(_) => {},
        ArithExpr::Add(a, b) => {
            lemma_eval_agrees_on_used(*a, q1, q2);
            lemma_eval_agrees_on_used(*b, q1, q2);
        },
        ArithExpr::Mul(a, b) => {
            lemma_eval_agrees_on_used(*a, q1, q2);
            lemma_eval_agrees_on_used(*b, q1, q2);
        },
    }
}

impl ArithExpr {
    /// A structurally equal copy.
    pub fn duplicate(&self) -> (r: ArithExpr)
        ensures
            r == *self,
        decreases *self,
    {
        match self {
            ArithExpr::Var(v) => ArithExpr::Var(*v),
            ArithExpr::Const(c) => ArithExpr::Const(*c),
            ArithExpr::Add(a, b) => ArithExpr::Add(Box::new(a.duplicate()), Box::new(b.duplicate())),
            ArithExpr::Mul(a, b) => ArithExpr::Mul(Box::new(a.duplicate()), Box::new(b.duplicate())),
        }
    }

    /// Number of variables: one past the largest variable index.
    pub fn n_vars(&self) -> (r: usize)
        requires
            expr_n_vars(*self) <= usize::MAX,
        ensures
            r == expr_n_vars(*self),
        decreases *self,
    {
        match self {
            ArithExpr::Var(v) => *v + 1,
            ArithExpr::Const(_) => 0,
            ArithExpr::Add(a, b) => {
                let na = a.n_vars();
                let nb = b.n_vars();
                if na >= nb {
                    na
                } else {
                    nb
                }
            },
            ArithExpr::Mul(a, b) => {
                let na = a.n_vars();
                let nb = b.n_vars();
                if na >= nb {
                    na
                } else {
                    nb
                }
            },
        }
    }

    /// Total degree.
    pub fn degree(&self) -> (r: usize)
        requires
            expr_degree(*self) <= usize::MAX,
        ensures
            r == expr_degree(*self),
        decreases *self,
    {
        match self {
            ArithExpr::Var(_) => 1,
            ArithExpr::Const(_) => 0,
            ArithExpr::Add(a, b) => {
                let da = a.degree();
                let db = b.degree();
                if da >= db {
                    da
                } else {
                    db
                }
            },
            ArithExpr::Mul(a, b) => a.degree() + b.degree(),
        }
    }

    /// Value on a query covering all used variables.
    pub fn evaluate(&self, q: &Vec<u128>) -> (r: u128)
        requires
            expr_n_vars(*self) <= q.len(),
        ensures
            r == eval_expr(*self, q@),
        decreases *self,
    {
        match self {
            ArithExpr::Var(v) => q[*v],
            ArithExpr::Const(c) => *c,
            ArithExpr::Add(a, b) => a.evaluate(q) ^ b.evaluate(q),
            ArithExpr::Mul(a, b) => mul128(a.evaluate(q), b.evaluate(q)),
        }
    }

    /// Value of the leading form on a query covering all used variables.
    pub fn evaluate_inf(&self, q: &Vec<u128>) -> (r: u128)
        requires
            expr_n_vars(*self) <= q.len(),
            expr_degree(*self) <= usize::MAX,
        ensures
            r == eval_expr_inf(*self, q@),
        decreases *self,
    {
        match self {
            ArithExpr::Var(v) => q[*v],
            ArithExpr::Const(c) => *c,
            ArithExpr::Add(a, b) => {
                let da = a.degree();
                let db = b.degree();
                if da > db {
                    a.evaluate_inf(q)
                } else if db > da {
                    b.evaluate_inf(q)
                } else {
                    a.evaluate_inf(q) ^ b.evaluate_inf(q)
                }
            },
            ArithExpr::Mul(a, b) => mul128(a.evaluate_inf(q), b.evaluate_inf(q)),
        }
    }

    /// The expression with each variable routed through `indices`.
    pub fn remap_vars(&self, indices: &Vec<usize>) -> (r: ArithExpr)
        requires
            expr_n_vars(*self) <= indices.len(),
        ensures
            r == remap_expr(*self, indices@),
        decreases *self,
    {
        match self {
            ArithExpr::Var(v) => ArithExpr::Var(indices[*v]),
            ArithExpr::Const(c) => ArithExpr::Const(*c),
            ArithExpr::Add(a, b) => ArithExpr::Add(
                Box::new(a.remap_vars(indices)),
                Box::new(b.remap_vars(indices)),
            ),
            ArithExpr::Mul(a, b) => ArithExpr::Mul(
                Box::new(a.remap_vars(indices)),
                Box::new(b.remap_vars(indices)),
            ),
        }
    }

    /// Whether the expression reads variable `v`.
    pub fn uses_var(&self, v: usize) -> (r: bool)
        ensures
            r == expr_uses(*self, v as int),
        decreases *self,
    {
        match self {
            ArithExpr::Var(w) => *w == v,
            ArithExpr::Const(_) => false,
            ArithExpr::Add(a, b) => a.uses_var(v) || b.uses_var(v),
            ArithExpr::Mul(a, b) => a.uses_var(v) || b.uses_var(v),
        }
    }

    /// The variable-usage mask over `n` query positions: entry `v` says
    /// whether the expression reads variable `v`.
    pub fn vars_usage(&self, n: usize) -> (r: Vec<bool>)
        ensures
            r.len() == n,
            forall|v: int| 0 <= v < n ==> r[v] == expr_uses(*self, v),
    {
        let mut out: Vec<bool> = Vec::new();
        let mut k: usize = 0;
        while k < n
            invariant
                k <= n,
                out.len() == k,
                forall|t: int| 0 <= t < k ==> out[t] == expr_uses(*self, t),
            decreases n - k,
        {
            out.push(self.uses_var(k));
            k = k + 1;
        }
        out
    }
}

} // verus!

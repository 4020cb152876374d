//! Composition polynomials: low-degree multivariate polynomials evaluated
//! row-wise on columns. The `CompositionPoly` trait carries the arity,
//! degree, minimum tower level, evaluation, and the arithmetic circuit of
//! the polynomial; the adapters here inject a small composition into a
//! larger query (`IndexComposition`) or close the set of arities
//! (`FixedDimIndexCompositions`).

use vstd::prelude::*;

use crate::error::Error;
use crate::expr::{
    expr_degree, expr_n_vars, eval_expr, lemma_remap_bounds, remap_expr, ArithExpr,
};
use crate::field::{b128_mul, b128_mul_b8, b128_primitive, mul128, mul128_b8, mul_primitive};

verus! {

/// A multivariate polynomial treated as a row-wise predicate on columns.
/// `evaluate` answers queries of length `n_vars` exactly, and returns
/// `IncorrectQuerySize` for every other length.
pub trait CompositionPoly: Sized {
    /// Validity of the composition's own data.
    spec fn inv(&self) -> bool;

    spec fn spec_n_vars(&self) -> usize;

    spec fn spec_degree(&self) -> usize;

    spec fn spec_tower_level(&self) -> usize;

    spec fn spec_expression(&self) -> ArithExpr;

    spec fn spec_eval(&self, q: Seq<u128>) -> u128;

    fn n_vars(&self) -> (r: usize)
        requires
            self.inv(),
        ensures
            r == self.spec_n_vars(),
    ;

    fn degree(&self) -> (r: usize)
        requires
            self.inv(),
        ensures
            r == self.spec_degree(),
    ;

    fn binary_tower_level(&self) -> (r: usize)
        requires
            self.inv(),
        ensures
            r == self.spec_tower_level(),
    ;

    fn expression(&self) -> (r: ArithExpr)
        requires
            self.inv(),
        ensures
            r == self.spec_expression(),
            expr_n_vars(r) <= self.spec_n_vars(),
            expr_degree(r) <= usize::MAX,
    ;

    fn evaluate(&self, query: &Vec<u128>) -> (r: Result<u128, Error>)
        requires
            self.inv(),
        ensures
            (r is Ok) <==> query.len() == self.spec_n_vars(),
            r is Ok ==> r->Ok_0 == self.spec_eval(query@),
            r is Err ==> r->Err_0 == (Error::IncorrectQuerySize {
                expected: self.spec_n_vars(),
            }),
    ;

    /// A copy with the same behaviour, replacing `Clone` so that callers
    /// keep every spec projection of the value.
    fn duplicate(&self) -> (r: Self)
        ensures
            r.inv() == self.inv(),
            r.spec_n_vars() == self.spec_n_vars(),
            r.spec_degree() == self.spec_degree(),
            r.spec_tower_level() == self.spec_tower_level(),
            r.spec_expression() == self.spec_expression(),
            forall|q: Seq<u128>| #[trigger] r.spec_eval(q) == self.spec_eval(q),
    ;
}

/// Degree-1 composition over 9 variables encoding one output byte of the
/// fused ShiftBytes-MixBytes step: `0 == output + sum_k c_k * input_k`
/// with the circulant row `c = (02, 02, 03, 04, 05, 03, 05, 07)` acting in
/// the byte field.
#[derive(Debug)]
pub struct MixColumn {
    pub mix_bytes: [u8; 8],
}

/// The first row of the circulant matrix of the MixBytes step.
pub open spec fn mix_bytes_row() -> Seq<u8> {
    seq![0x02u8, 0x02u8, 0x03u8, 0x04u8, 0x05u8, 0x03u8, 0x05u8, 0x07u8]
}

/// Partial sum `sum_(t < k) c_t * q[t + 1]` of the mix column.
pub open spec fn mix_sum(c: Seq<u8>, q: Seq<u128>, k: int) -> u128
    decreases k,
{
    if k <= 0 {
        0
    } else {
        mix_sum(c, q, k - 1) ^ b128_mul_b8(q[k], c[k - 1])
    }
}

impl Default for MixColumn {
    /// The mix column with the Grøstl circulant row.
    fn default() -> (r: Self)
        ensures
            r.mix_bytes@ == mix_bytes_row(),
    {
        let r = MixColumn { mix_bytes: [0x02, 0x02, 0x03, 0x04, 0x05, 0x03, 0x05, 0x07] };
        proof {
            assert(r.mix_bytes@ =~= mix_bytes_row());
        }
        r
    }
}

/// Chain of additions `(...(e_1 + e_2) + ...) + e_k` of the mix-column
/// products, as an expression.
pub open spec fn mix_expr_sum(c: Seq<u8>, k: int) -> ArithExpr
    decreases k,
{
    if k <= 1 {
        ArithExpr::Mul(Box::new(ArithExpr::Const(c[0] as u128)), Box::new(ArithExpr::Var(1)))
    } else {
        ArithExpr::Add(
            Box::new(mix_expr_sum(c, k - 1)),
            Box::new(
                ArithExpr::Mul(
                    Box::new(ArithExpr::Const(c[k - 1] as u128)),
                    Box::new(ArithExpr::Var(k as usize)),
                ),
            ),
        )
    }
}

impl CompositionPoly for MixColumn {
    open spec fn inv(&self) -> bool {
        self.mix_bytes@ == mix_bytes_row()
    }

    open spec fn spec_n_vars(&self) -> usize {
        9
    }

    open spec fn spec_degree(&self) -> usize {
        1
    }

    open spec fn spec_tower_level(&self) -> usize {
        crate::field::TOWER_LEVEL_B8
    }

    open spec fn spec_expression(&self) -> ArithExpr {
        ArithExpr::Add(Box::new(ArithExpr::Var(0)), Box::new(mix_expr_sum(self.mix_bytes@, 8)))
    }

    open spec fn spec_eval(&self, q: Seq<u128>) -> u128 {
        mix_sum(self.mix_bytes@, q, 8) ^ q[0]
    }

    fn n_vars(&self) -> usize {
        9
    }

    fn degree(&self) -> usize {
        1
    }

    fn binary_tower_level(&self) -> usize {
        crate::field::TOWER_LEVEL_B8
    }

    fn expression(&self) -> (r: ArithExpr) {
        proof {
            reveal_with_fuel(expr_n_vars, 4);
            reveal_with_fuel(expr_degree, 4);
        }
        let mut sum = ArithExpr::Mul(
            Box::new(ArithExpr::Const(self.mix_bytes[0] as u128)),
            Box::new(ArithExpr::Var(1)),
        );
        let mut k: usize = 1;
        while k < 8
            invariant
                self.inv(),
                1 <= k <= 8,
                sum == mix_expr_sum(self.mix_bytes@, k as int),
                expr_n_vars(sum) == k + 1,
                expr_degree(sum) == 1,
            decreases 8 - k,
        {
            sum = ArithExpr::Add(
                Box::new(sum),
                Box::new(
                    ArithExpr::Mul(
                        Box::new(ArithExpr::Const(self.mix_bytes[k] as u128)),
                        Box::new(ArithExpr::Var(k + 1)),
                    ),
                ),
            );
            k = k + 1;
            proof {
                reveal_with_fuel(expr_n_vars, 4);
                reveal_with_fuel(expr_degree, 4);
            }
        }
        proof {
            reveal_with_fuel(expr_n_vars, 4);
            reveal_with_fuel(expr_degree, 4);
        }
        ArithExpr::Add(Box::new(ArithExpr::Var(0)), Box::new(sum))
    }

    fn evaluate(&self, query: &Vec<u128>) -> (r: Result<u128, Error>) {
        if query.len() != 9 {
            return Err(Error::IncorrectQuerySize { expected: 9 });
        }
        let mut acc: u128 = 0;
        let mut k: usize = 0;
        while k < 8
            invariant
                self.inv(),
                query.len() == 9,
                k <= 8,
                acc == mix_sum(self.mix_bytes@, query@, k as int),
            decreases 8 - k,
        {
            acc = acc ^ mul128_b8(query[k + 1], self.mix_bytes[k]);
            k = k + 1;
        }
        Ok(acc ^ query[0])
    }

    fn duplicate(&self) -> (r: Self) {
        let r = MixColumn { mix_bytes: self.mix_bytes };
        proof {
            assert(r.mix_bytes@ =~= self.mix_bytes@);
        }
        r
    }
}

/// Degree-3 composition over the two variables `(x, inv)` asserting the
/// S-box inversion relation `(x * inv - 1) * (x + X_4 * inv) == 0`: either
/// `x * inv == 1`, or `x` and `inv` are both zero. The second factor can
/// only vanish on byte-field values when both are zero, because `X_4`, the
/// primitive element of tower level 3, lies outside the byte field; that
/// is why the composition needs tower level 4.
#[derive(Debug)]
pub struct SBoxConstraint;

/// The S-box relation on a query `(x, inv)`.
pub open spec fn sbox_eval(q: Seq<u128>) -> u128 {
    b128_mul(b128_mul(q[0], q[1]) ^ 1, q[0] ^ b128_mul(q[1], b128_primitive(3)))
}

impl CompositionPoly for SBoxConstraint {
    open spec fn inv(&self) -> bool {
        true
    }

    open spec fn spec_n_vars(&self) -> usize {
        2
    }

    open spec fn spec_degree(&self) -> usize {
        3
    }

    open spec fn spec_tower_level(&self) -> usize {
        4
    }

    open spec fn spec_expression(&self) -> ArithExpr {
        ArithExpr::Mul(
            Box::new(
                ArithExpr::Add(
                    Box::new(
                        ArithExpr::Mul(Box::new(ArithExpr::Var(0)), Box::new(ArithExpr::Var(1))),
                    ),
                    Box::new(ArithExpr::Const(1)),
                ),
            ),
            Box::new(
                ArithExpr::Add(
                    Box::new(ArithExpr::Var(0)),
                    Box::new(
                        ArithExpr::Mul(
                            Box::new(ArithExpr::Const(0x100)),
                            Box::new(ArithExpr::Var(1)),
                        ),
                    ),
                ),
            ),
        )
    }

    open spec fn spec_eval(&self, q: Seq<u128>) -> u128 {
        sbox_eval(q)
    }

    fn n_vars(&self) -> usize {
        2
    }

    fn degree(&self) -> usize {
        3
    }

    fn binary_tower_level(&self) -> usize {
        4
    }

    fn expression(&self) -> (r: ArithExpr) {
        proof {
            reveal_with_fuel(expr_n_vars, 5);
            reveal_with_fuel(expr_degree, 5);
        }
        ArithExpr::Mul(
            Box::new(
                ArithExpr::Add(
                    Box::new(
                        ArithExpr::Mul(Box::new(ArithExpr::Var(0)), Box::new(ArithExpr::Var(1))),
                    ),
                    Box::new(ArithExpr::Const(1)),
                ),
            ),
            Box::new(
                ArithExpr::Add(
                    Box::new(ArithExpr::Var(0)),
                    Box::new(
                        ArithExpr::Mul(
                            Box::new(ArithExpr::Const(0x100)),
                            Box::new(ArithExpr::Var(1)),
                        ),
                    ),
                ),
            ),
        )
    }

    fn evaluate(&self, query: &Vec<u128>) -> (r: Result<u128, Error>) {
        if query.len() != 2 {
            return Err(Error::IncorrectQuerySize { expected: 2 });
        }
        let x = query[0];
        let inv = query[1];
        let non_zero_case = mul128(x, inv) ^ 1;
        let zero_case = x ^ (match mul_primitive(inv, 3) {
            Ok(v) => v,
            Err(_) => {
                proof {
                    assert(false);
                }
                0
            },
        });
        Ok(mul128(non_zero_case, zero_case))
    }

    fn duplicate(&self) -> (r: Self) {
        SBoxConstraint
    }
}

/// A composition given directly by an arithmetic circuit.
#[derive(Debug)]
pub struct ArithCircuitPoly {
    pub expr: ArithExpr,
}

impl ArithCircuitPoly {
    /// Wrap an expression. The variable count and degree must fit the
    /// machine word, which every circuit built by this crate satisfies.
    pub fn new(expr: ArithExpr) -> (r: ArithCircuitPoly)
        requires
            expr_n_vars(expr) <= usize::MAX,
            expr_degree(expr) <= usize::MAX,
        ensures
            r.expr == expr,
            r.inv(),
    {
        ArithCircuitPoly { expr }
    }
}

/// Tower level of a field constant: the smallest level whose field holds
/// it.
pub open spec fn const_tower_level(c: u128) -> usize {
    if c < 2 {
        0
    } else if c < 4 {
        1
    } else if c < 16 {
        2
    } else if c < 256 {
        3
    } else if c < 0x1_0000 {
        4
    } else if c < 0x1_0000_0000 {
        5
    } else if c < 0x1_0000_0000_0000_0000 {
        6
    } else {
        7
    }
}

/// The largest tower level of a constant in the expression.
pub open spec fn expr_tower_level(e: ArithExpr) -> usize
    decreases e,
{
    match e {
        ArithExpr::Var(_) => 0,
        ArithExpr::Const(c) => const_tower_level(c),
        ArithExpr::Add(a, b) => {
            let la = expr_tower_level(*a);
            let lb = expr_tower_level(*b);
            if la >= lb {
                la
            } else {
                lb
            }
        },
        ArithExpr::Mul(a, b) => {
            let la = expr_tower_level(*a);
            let lb = expr_tower_level(*b);
            if la >= lb {
                la
            } else {
                lb
            }
        },
    }
}

pub fn const_tower_level_exec(c: u128) -> (r: usize)
    ensures
        r == const_tower_level(c),
{
    if c < 2 {
        0
    } else if c < 4 {
        1
    } else if c < 16 {
        2
    } else if c < 256 {
        3
    } else if c < 0x1_0000 {
        4
    } else if c < 0x1_0000_0000 {
        5
    } else if c < 0x1_0000_0000_0000_0000 {
        6
    } else {
        7
    }
}

fn expr_tower_level_exec(e: &ArithExpr) -> (r: usize)
    ensures
        r == expr_tower_level(*e),
    decreases *e,
{
    match e {
        ArithExpr::Var(_) => 0,
        ArithExpr::Const(c) => const_tower_level_exec(*c),
        ArithExpr::Add(a, b) => {
            let la = expr_tower_level_exec(a);
            let lb = expr_tower_level_exec(b);
            if la >= lb {
                la
            } else {
                lb
            }
        },
        ArithExpr::Mul(a, b) => {
            let la = expr_tower_level_exec(a);
            let lb = expr_tower_level_exec(b);
            if la >= lb {
                la
            } else {
                lb
            }
        },
    }
}

impl CompositionPoly for ArithCircuitPoly {
    open spec fn inv(&self) -> bool {
        expr_n_vars(self.expr) <= usize::MAX && expr_degree(self.expr) <= usize::MAX
    }

    open spec fn spec_n_vars(&self) -> usize {
        expr_n_vars(self.expr) as usize
    }

    open spec fn spec_degree(&self) -> usize {
        expr_degree(self.expr) as usize
    }

    open spec fn spec_tower_level(&self) -> usize {
        expr_tower_level(self.expr)
    }

    open spec fn spec_expression(&self) -> ArithExpr {
        self.expr
    }

    open spec fn spec_eval(&self, q: Seq<u128>) -> u128 {
        eval_expr(self.expr, q)
    }

    fn n_vars(&self) -> usize {
        self.expr.n_vars()
    }

    fn degree(&self) -> usize {
        self.expr.degree()
    }

    fn binary_tower_level(&self) -> usize {
        expr_tower_level_exec(&self.expr)
    }

    fn expression(&self) -> (r: ArithExpr) {
        self.expr.duplicate()
    }

    fn evaluate(&self, query: &Vec<u128>) -> (r: Result<u128, Error>) {
        let n = self.expr.n_vars();
        if query.len() != n {
            return Err(Error::IncorrectQuerySize { expected: n });
        }
        Ok(self.expr.evaluate(query))
    }

    fn duplicate(&self) -> (r: Self) {
        ArithCircuitPoly { expr: self.expr.duplicate() }
    }
}

/// An adapter which evaluates a composition of arity `N` over a larger
/// query by indexing into it: variable `k` of the inner composition reads
/// position `indices[k]` of the outer query.
#[derive(Debug)]
pub struct IndexComposition<C, const N: usize> {
    /// Number of variables in the larger query.
    pub n_vars: usize,
    /// Mapping from inner query variables to outer query variables; holds
    /// exactly `N` entries.
    pub indices: Vec<usize>,
    /// Inner composition.
    pub composition: C,
}

/// The inner query gathered from an outer query through the index map.
pub open spec fn gather(q: Seq<u128>, indices: Seq<usize>) -> Seq<u128> {
    Seq::new(indices.len(), |k: int| q[indices[k] as int])
}

impl<C: CompositionPoly, const N: usize> IndexComposition<C, N> {
    /// Wrap a composition of arity `N`; fails when some index is not
    /// below the outer arity.
    pub fn new(n_vars: usize, indices: [usize; N], composition: C) -> (r: Result<Self, Error>)
        requires
            composition.inv(),
            composition.spec_n_vars() == N,
        ensures
            (r is Ok) <==> (forall|k: int| 0 <= k < N ==> (indices[k] as int) < n_vars),
            r is Ok ==> r->Ok_0.n_vars == n_vars && r->Ok_0.composition == composition
                && r->Ok_0.indices@ == indices@ && r->Ok_0.inv(),
            r is Err ==> r->Err_0 == Error::IndexCompositionIndicesOutOfBounds,
    {
        let mut vec_indices: Vec<usize> = Vec::new();
        let mut k: usize = 0;
        while k < N
            invariant
                k <= N,
                vec_indices.len() == k,
                forall|t: int| 0 <= t < k ==> vec_indices[t] == indices[t],
                forall|t: int| 0 <= t < k ==> (indices[t] as int) < n_vars,
            decreases N - k,
        {
            if indices[k] >= n_vars {
                return Err(Error::IndexCompositionIndicesOutOfBounds);
            }
            vec_indices.push(indices[k]);
            k = k + 1;
        }
        proof {
            assert(vec_indices@ =~= indices@);
        }
        Ok(IndexComposition { n_vars, indices: vec_indices, composition })
    }
}

impl<C: CompositionPoly, const N: usize> CompositionPoly for IndexComposition<C, N> {
    open spec fn inv(&self) -> bool {
        &&& self.composition.inv()
        &&& self.composition.spec_n_vars() == N
        &&& self.indices.len() == N
        &&& forall|k: int| 0 <= k < N ==> (self.indices[k] as int) < self.n_vars
    }

    open spec fn spec_n_vars(&self) -> usize {
        self.n_vars
    }

    open spec fn spec_degree(&self) -> usize {
        self.composition.spec_degree()
    }

    open spec fn spec_tower_level(&self) -> usize {
        self.composition.spec_tower_level()
    }

    open spec fn spec_expression(&self) -> ArithExpr {
        remap_expr(self.composition.spec_expression(), self.indices@)
    }

    open spec fn spec_eval(&self, q: Seq<u128>) -> u128 {
        self.composition.spec_eval(gather(q, self.indices@))
    }

    fn n_vars(&self) -> usize {
        self.n_vars
    }

    fn degree(&self) -> usize {
        self.composition.degree()
    }

    fn binary_tower_level(&self) -> usize {
        self.composition.binary_tower_level()
    }

    fn expression(&self) -> (r: ArithExpr) {
        let inner = self.composition.expression();
        proof {
            lemma_remap_bounds(inner, self.indices@, self.n_vars as nat);
        }
        inner.remap_vars(&self.indices)
    }

    fn evaluate(&self, query: &Vec<u128>) -> (r: Result<u128, Error>) {
        if query.len() != self.n_vars {
            return Err(Error::IncorrectQuerySize { expected: self.n_vars });
        }
        let mut subquery: Vec<u128> = Vec::new();
        let mut k: usize = 0;
        while k < N
            invariant
                self.inv(),
                query.len() == self.n_vars,
                k <= N,
                subquery.len() == k,
                forall|t: int| 0 <= t < k ==> subquery[t] == query[self.indices[t] as int],
            decreases N - k,
        {
            subquery.push(query[self.indices[k]]);
            k = k + 1;
        }
        proof {
            assert(subquery@ =~= gather(query@, self.indices@));
        }
        match self.composition.evaluate(&subquery) {
            Ok(v) => Ok(v),
            Err(_) => {
                proof {
                    assert(false);
                }
                Err(Error::IncorrectQuerySize { expected: self.n_vars })
            },
        }
    }

    fn duplicate(&self) -> (r: Self) {
        let mut vec_indices: Vec<usize> = Vec::new();
        let mut k: usize = 0;
        while k < self.indices.len()
            invariant
                k <= self.indices.len(),
                vec_indices.len() == k,
                forall|t: int| 0 <= t < k ==> vec_indices[t] == self.indices[t],
            decreases self.indices.len() - k,
        {
            vec_indices.push(self.indices[k]);
            k = k + 1;
        }
        proof {
            assert(vec_indices@ =~= self.indices@);
        }
        IndexComposition {
            n_vars: self.n_vars,
            indices: vec_indices,
            composition: self.composition.duplicate(),
        }
    }
}

/// Whether some entry of `ids` equals `x`.
pub open spec fn contains_id(ids: Seq<usize>, x: usize) -> bool {
    exists|j: int| 0 <= j < ids.len() && ids[j] == x
}

/// A factory for an [`IndexComposition`]: find each element of `subset`
/// in `superset` and record its first position. Fails with
/// `MixedMultilinearNotFound` when some subset element does not occur.
pub fn index_composition<C: CompositionPoly, const N: usize>(
    superset: &Vec<usize>,
    subset: [usize; N],
    composition: C,
) -> (r: Result<IndexComposition<C, N>, Error>)
    requires
        composition.inv(),
        composition.spec_n_vars() == N,
    ensures
        (r is Ok) <==> (forall|k: int| 0 <= k < N ==> contains_id(superset@, #[trigger] subset[k])),
        r is Ok ==> r->Ok_0.inv() && r->Ok_0.n_vars == superset.len()
            && r->Ok_0.composition == composition && r->Ok_0.indices.len() == N && (forall|k: int|
            0 <= k < N ==> 0 <= (r->Ok_0.indices[k] as int) < superset.len() && superset[
                r->Ok_0.indices[k] as int
            ] == subset[k]) && (forall|k: int, p: int|
            0 <= k < N && 0 <= p < ((#[trigger] r->Ok_0.indices[k]) as int) ==> (
            #[trigger] superset[p]) != subset[k]),
        r is Err ==> r->Err_0 == Error::MixedMultilinearNotFound,
{
    let n_vars = superset.len();
    let mut indices: Vec<usize> = Vec::new();
    let mut k: usize = 0;
    while k < N
        invariant
            composition.inv(),
            composition.spec_n_vars() == N,
            n_vars == superset.len(),
            k <= N,
            indices.len() == k,
            forall|t: int| 0 <= t < k ==> (#[trigger] indices[t] as int) < superset.len(),
            forall|t: int|
                0 <= t < k ==> superset[#[trigger] indices[t] as int] == subset[t],
            forall|t: int, p: int|
                0 <= t < k && 0 <= p < ((#[trigger] indices[t]) as int) ==> (
                #[trigger] superset[p]) != subset[t],
        decreases N - k,
    {
        let target: usize = subset[k];
        proof {
            assert(target == subset[k as int]);
        }
        let mut found: bool = false;
        let mut pos: usize = 0;
        let mut j: usize = 0;
        while j < n_vars
            invariant
                n_vars == superset.len(),
                target == subset[k as int],
                k < N,
                j <= n_vars,
                found ==> pos < n_vars,
                found ==> superset[pos as int] == target,
                found ==> forall|t: int| 0 <= t < pos ==> superset[t] != target,
                !found ==> forall|t: int| 0 <= t < j ==> superset[t] != target,
            decreases n_vars - j,
        {
            if !found && superset[j] == target {
                found = true;
                pos = j;
            }
            j = j + 1;
        }
        if !found {
            proof {
                assert(!contains_id(superset@, subset[k as int]));
            }
            return Err(Error::MixedMultilinearNotFound);
        }
        proof {
            assert(found);
            assert(pos < n_vars);
            assert(superset[pos as int] == subset[k as int]);
        }
        indices.push(pos);
        proof {
            assert(indices[k as int] == pos);
            assert(superset[indices[k as int] as int] == subset[k as int]);
        }
        k = k + 1;
    }
    proof {
        assert forall|k2: int| 0 <= k2 < N implies contains_id(
            superset@, #[trigger] subset[k2]) by {
            let j = indices@[k2] as int;
            assert(0 <= j < superset@.len() && superset@[j] == subset[k2]);
        }
    }
    Ok(IndexComposition { n_vars, indices, composition })
}

/// A closed set of index compositions of the two arities the builder
/// emits.
#[derive(Debug)]
pub enum FixedDimIndexCompositions<C> {
    Trivariate(IndexComposition<C, 3>),
    Bivariate(IndexComposition<C, 2>),
}

impl<C: CompositionPoly> CompositionPoly for FixedDimIndexCompositions<C> {
    open spec fn inv(&self) -> bool {
        match self {
            FixedDimIndexCompositions::Trivariate(c) => c.inv(),
            FixedDimIndexCompositions::Bivariate(c) => c.inv(),
        }
    }

    open spec fn spec_n_vars(&self) -> usize {
        match self {
            FixedDimIndexCompositions::Trivariate(c) => c.spec_n_vars(),
            FixedDimIndexCompositions::Bivariate(c) => c.spec_n_vars(),
        }
    }

    open spec fn spec_degree(&self) -> usize {
        match self {
            FixedDimIndexCompositions::Trivariate(c) => c.spec_degree(),
            FixedDimIndexCompositions::Bivariate(c) => c.spec_degree(),
        }
    }

    open spec fn spec_tower_level(&self) -> usize {
        match self {
            FixedDimIndexCompositions::Trivariate(c) => c.spec_tower_level(),
            FixedDimIndexCompositions::Bivariate(c) => c.spec_tower_level(),
        }
    }

    open spec fn spec_expression(&self) -> ArithExpr {
        match self {
            FixedDimIndexCompositions::Trivariate(c) => c.spec_expression(),
            FixedDimIndexCompositions::Bivariate(c) => c.spec_expression(),
        }
    }

    open spec fn spec_eval(&self, q: Seq<u128>) -> u128 {
        match self {
            FixedDimIndexCompositions::Trivariate(c) => c.spec_eval(q),
            FixedDimIndexCompositions::Bivariate(c) => c.spec_eval(q),
        }
    }

    fn n_vars(&self) -> usize {
        match self {
            FixedDimIndexCompositions::Trivariate(c) => c.n_vars(),
            FixedDimIndexCompositions::Bivariate(c) => c.n_vars(),
        }
    }

    fn degree(&self) -> usize {
        match self {
            FixedDimIndexCompositions::Trivariate(c) => c.degree(),
            FixedDimIndexCompositions::Bivariate(c) => c.degree(),
        }
    }

    fn binary_tower_level(&self) -> usize {
        match self {
            FixedDimIndexCompositions::Trivariate(c) => c.binary_tower_level(),
            FixedDimIndexCompositions::Bivariate(c) => c.binary_tower_level(),
        }
    }

    fn expression(&self) -> (r: ArithExpr) {
        match self {
            FixedDimIndexCompositions::Trivariate(c) => c.expression(),
            FixedDimIndexCompositions::Bivariate(c) => c.expression(),
        }
    }

    fn evaluate(&self, query: &Vec<u128>) -> (r: Result<u128, Error>) {
        match self {
            FixedDimIndexCompositions::Trivariate(c) => c.evaluate(query),
            FixedDimIndexCompositions::Bivariate(c) => c.evaluate(query),
        }
    }

    fn duplicate(&self) -> (r: Self) {
        match self {
            FixedDimIndexCompositions::Trivariate(c) => FixedDimIndexCompositions::Trivariate(
                c.duplicate(),
            ),
            FixedDimIndexCompositions::Bivariate(c) => FixedDimIndexCompositions::Bivariate(
                c.duplicate(),
            ),
        }
    }
}

} // verus!

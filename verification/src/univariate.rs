//! Univariate evaluation domains over the 128-bit field.
//!
//! An evaluation domain of size `d + 1` together with polynomial values on
//! it determines a polynomial of degree at most `d`. `EvaluationDomain`
//! supports second-form barycentric extrapolation; `InterpolationDomain`
//! additionally inverts the Vandermonde matrix (cubic work, done once) to
//! recover monomial coefficients.

use vstd::prelude::*;

use crate::error::Error;
use crate::field::{
    b128_inv, b128_mul, b8_mul, inv128, lemma_b8_no_zero_divisors, lemma_mul128_base, mul128,
};
use crate::matrix::{prod_entry, row_dot, Matrix};

verus! {

/// Product of the differences `points[i] - points[j]` over `j < k`,
/// `j != i`; subtraction in a binary field is xor.
pub open spec fn diff_prod(points: Seq<u128>, i: int, k: int) -> u128
    decreases k,
{
    if k <= 0 {
        1
    } else if k - 1 == i {
        diff_prod(points, i, k - 1)
    } else {
        b128_mul(diff_prod(points, i, k - 1), points[i] ^ points[k - 1])
    }
}

/// One step of the second-form barycentric accumulation: after `k` terms
/// the pair holds the running evaluation and the running product of
/// `(x - points[j])`.
pub open spec fn extrap_acc(
    points: Seq<u128>,
    weights: Seq<u128>,
    values: Seq<u128>,
    x: u128,
    k: int,
) -> (u128, u128)
    decreases k,
{
    if k <= 0 {
        (0, 1)
    } else {
        let prev = extrap_acc(points, weights, values, x, k - 1);
        let term = x ^ points[k - 1];
        let weighted = b128_mul(values[k - 1], weights[k - 1]);
        (b128_mul(prev.0, term) ^ b128_mul(weighted, prev.1), b128_mul(prev.1, term))
    }
}

/// Value extrapolated at `x` from `values` on the domain.
pub open spec fn extrap_value(
    points: Seq<u128>,
    weights: Seq<u128>,
    values: Seq<u128>,
    x: u128,
) -> u128 {
    extrap_acc(points, weights, values, x, points.len() as int).0
}

/// Horner evaluation of the monomial coefficients `coeffs` from index `i`
/// upward: `c_i + x * (c_(i+1) + x * (...))`.
pub open spec fn horner(coeffs: Seq<u128>, x: u128, i: int) -> u128
    decreases coeffs.len() - i,
{
    if i < 0 || i >= coeffs.len() {
        0
    } else {
        b128_mul(horner(coeffs, x, i + 1), x) ^ coeffs[i]
    }
}

/// A duplicate point forces its difference product to vanish, so
/// `from_points` rejects any point list with a repetition.
pub proof fn lemma_duplicate_point_vanishes(points: Seq<u128>, i: int, j: int)
    requires
        0 <= i < points.len(),
        0 <= j < points.len(),
        i != j,
        points[i] == points[j],
    ensures
        diff_prod(points, i, points.len() as int) == 0,
{
    lemma_diff_prod_zero_from(points, i, j, points.len() as int);
}

proof fn lemma_diff_prod_zero_from(points: Seq<u128>, i: int, j: int, k: int)
    requires
        0 <= i < points.len(),
        0 <= j < points.len(),
        i != j,
        points[i] == points[j],
        j < k <= points.len(),
    ensures
        diff_prod(points, i, k) == 0,
    decreases k,
{
    if k - 1 == j {
        crate::field::lemma_xor_shuffle(points[i], points[j], 0, 0);
        crate::field::lemma_mul128_zero(7, diff_prod(points, i, k - 1));
    } else if k - 1 == i {
        lemma_diff_prod_zero_from(points, i, j, k - 1);
    } else {
        lemma_diff_prod_zero_from(points, i, j, k - 1);
        crate::field::lemma_mul128_zero(7, points[i] ^ points[k - 1]);
    }
}

/// A domain that univariate polynomials may be evaluated on, with the
/// barycentric weights `w_i = prod_(j != i) (x_i - x_j)^(-1)` precomputed.
#[derive(Clone, Debug)]
pub struct EvaluationDomain {
    pub points: Vec<u128>,
    pub weights: Vec<u128>,
}

impl EvaluationDomain {
    /// One weight per point, each the inverse of a nonzero difference
    /// product.
    pub open spec fn wf(self) -> bool {
        &&& self.weights.len() == self.points.len()
        &&& forall|i: int|
            0 <= i < self.points.len() ==> self.weights[i] == b128_inv(
                diff_prod(self.points@, i, self.points.len() as int))
        &&& forall|i: int|
            0 <= i < self.points.len() ==> diff_prod(self.points@, i, self.points.len() as int)
                != 0
    }

    /// Build a domain from points, computing the barycentric weights.
    /// Fails exactly when some difference product vanishes; a duplicate
    /// point forces that (`lemma_duplicate_point_vanishes`), though the
    /// converse rests on the field having no zero divisors, which is not
    /// proved here.
    pub fn from_points(points: Vec<u128>) -> (r: Result<EvaluationDomain, Error>)
        ensures
            (r is Ok) <==> (forall|i: int|
                0 <= i < points.len() ==> diff_prod(points@, i, points.len() as int) != 0),
            r is Ok ==> r->Ok_0.wf() && r->Ok_0.points@ == points@,
            r is Err ==> r->Err_0 == Error::DuplicateDomainPoint,
    {
        let n = points.len();
        let mut weights: Vec<u128> = Vec::new();
        let mut i: usize = 0;
        while i < n
            invariant
                n == points.len(),
                i <= n,
                weights.len() == i,
                forall|t: int|
                    0 <= t < i ==> weights[t] == b128_inv(diff_prod(points@, t, n as int)),
                forall|t: int| 0 <= t < i ==> diff_prod(points@, t, n as int) != 0,
            decreases n - i,
        {
            let mut prod: u128 = 1;
            let mut j: usize = 0;
            while j < n
                invariant
                    n == points.len(),
                    i < n,
                    j <= n,
                    prod == diff_prod(points@, i as int, j as int),
                decreases n - j,
            {
                if j != i {
                    prod = mul128(prod, points[i] ^ points[j]);
                }
                j = j + 1;
            }
            if prod == 0 {
                return Err(Error::DuplicateDomainPoint);
            }
            weights.push(inv128(prod));
            i = i + 1;
        }
        Ok(EvaluationDomain { points, weights })
    }

    pub fn size(&self) -> (r: usize)
        ensures
            r == self.points.len(),
    {
        self.points.len()
    }

    pub fn points(&self) -> (r: &Vec<u128>)
        ensures
            r == &self.points,
    {
        &self.points
    }

    /// Second-form barycentric extrapolation of the domain values at `x`:
    /// a running product of `(x - x_i)` and a running evaluation
    /// `eval = eval * (x - x_i) + value_i * weight_i * prod_prev`.
    pub fn extrapolate(&self, values: &Vec<u128>, x: u128) -> (r: Result<u128, Error>)
        requires
            self.wf(),
        ensures
            (r is Ok) <==> values.len() == self.points.len(),
            r is Ok ==> r->Ok_0 == extrap_value(self.points@, self.weights@, values@, x),
            r is Err ==> r->Err_0 == Error::ExtrapolateNumberOfEvaluations,
    {
        let n = self.points.len();
        if values.len() != n {
            return Err(Error::ExtrapolateNumberOfEvaluations);
        }
        let mut eval: u128 = 0;
        let mut prod: u128 = 1;
        let mut k: usize = 0;
        while k < n
            invariant
                self.wf(),
                n == self.points.len(),
                values.len() == n,
                k <= n,
                (eval, prod) == extrap_acc(self.points@, self.weights@, values@, x, k as int),
            decreases n - k,
        {
            let term = x ^ self.points[k];
            let weighted = mul128(values[k], self.weights[k]);
            let next_eval = mul128(eval, term) ^ mul128(weighted, prod);
            prod = mul128(prod, term);
            eval = next_eval;
            k = k + 1;
        }
        Ok(eval)
    }
}

/// Evaluate a univariate polynomial given by monomial coefficients, by
/// Horner's method.
pub fn evaluate_univariate(coeffs: &Vec<u128>, x: u128) -> (r: u128)
    ensures
        r == horner(coeffs@, x, 0),
{
    let n = coeffs.len();
    let mut eval: u128 = 0;
    let mut k: usize = n;
    while k > 0
        invariant
            n == coeffs.len(),
            k <= n,
            eval == horner(coeffs@, x, k as int),
        decreases k,
    {
        k = k - 1;
        eval = mul128(eval, x) ^ coeffs[k];
    }
    eval
}

/// Linear extrapolation through `(0, x0)` and `(1, x1)` at `z`:
/// `x0 + z * (x1 - x0)`.
pub fn extrapolate_line_scalar(x0: u128, x1: u128, z: u128) -> (r: u128)
    ensures
        r == x0 ^ b128_mul(x1 ^ x0, z),
{
    x0 ^ mul128(x1 ^ x0, z)
}

/// Instantiates evaluation domains from the lexicographic successors of
/// zero, so the byte-field subset `0, 1, 2, ...` of the tower.
pub trait EvaluationDomainFactory: Sized + Clone {
    /// Largest domain size the factory can produce.
    spec fn spec_max_size(&self) -> usize;

    /// Create a domain of the given size; owed to succeed whenever the
    /// size is within reach of the factory.
    fn create(&self, size: usize) -> (r: Result<EvaluationDomain, Error>)
        ensures
            (r is Ok) <==> size <= self.spec_max_size(),
            r is Ok ==> r->Ok_0.wf() && r->Ok_0.points.len() == size,
            r is Ok ==> forall|i: int| 0 <= i < size ==> r->Ok_0.points[i] == i as u128,
            r is Err ==> r->Err_0 == Error::DomainSizeTooLarge,
    ;
}

/// Factory for domains made of the successors of zero in the byte field:
/// the points `0, 1, ..., 255` embedded into the 128-bit field.
#[derive(Clone, Debug)]
pub struct DefaultEvaluationDomainFactory {
    pub dummy: bool,
}

impl Default for DefaultEvaluationDomainFactory {
    fn default() -> (r: Self)
        ensures
            r == (DefaultEvaluationDomainFactory { dummy: false }),
    {
        DefaultEvaluationDomainFactory { dummy: false }
    }
}

/// Distinct byte-field points have nonzero difference products, because
/// the byte field has no zero divisors.
proof fn lemma_diff_prod_base_nonzero(points: Seq<u128>, i: int, k: int)
    requires
        0 <= i < points.len(),
        0 <= k <= points.len(),
        forall|t: int| 0 <= t < points.len() ==> points[t] < 256,
        forall|a: int, b: int| 0 <= a < points.len() && 0 <= b < points.len() && a != b ==> points[a]
            != points[b],
    ensures
        diff_prod(points, i, k) != 0,
        diff_prod(points, i, k) < 256,
    decreases k,
{
    if k > 0 {
        lemma_diff_prod_base_nonzero(points, i, k - 1);
        if k - 1 != i {
            let prev = diff_prod(points, i, k - 1);
            let pi = points[i];
            let pk = points[k - 1];
            assert(pi < 256 && pk < 256 && pi != pk ==> (pi ^ pk) != 0 && (pi ^ pk) < 256) by (
            bit_vector);
            lemma_mul128_base(prev, pi ^ pk);
            lemma_b8_no_zero_divisors(prev as u8, (pi ^ pk) as u8);
            let d = pi ^ pk;
            assert((prev < 256 && prev != 0 ==> prev as u8 != 0) && (d < 256 && d != 0 ==> d as u8
                != 0)) by (bit_vector)
                requires
                    d == pi ^ pk,
            ;
            assert(((b8_mul(prev as u8, d as u8) as u128) < 256));
        }
    }
}

impl EvaluationDomainFactory for DefaultEvaluationDomainFactory {
    open spec fn spec_max_size(&self) -> usize {
        256
    }

    fn create(&self, size: usize) -> (r: Result<EvaluationDomain, Error>) {
        if size > 256 {
            return Err(Error::DomainSizeTooLarge);
        }
        let mut points: Vec<u128> = Vec::new();
        let mut i: usize = 0;
        while i < size
            invariant
                size <= 256,
                i <= size,
                points.len() == i,
                forall|t: int| 0 <= t < i ==> points[t] == t as u128,
            decreases size - i,
        {
            points.push(i as u128);
            i = i + 1;
        }
        proof {
            assert(forall|t: int| 0 <= t < points.len() ==> points@[t] < 256);
            assert forall|a: int, b: int|
                0 <= a < points.len() && 0 <= b < points.len() && a != b implies points@[a]
                != points@[b] by {}
            assert forall|t: int|
                0 <= t < points.len() implies diff_prod(
                points@, t, points.len() as int) != 0 by {
                lemma_diff_prod_base_nonzero(points@, t, points.len() as int);
            }
        }
        let r = EvaluationDomain::from_points(points);
        r
    }
}

/// Sum over `k` powers: entry `(i, j)` of a matrix applied to the vector
/// of powers of the points, `sum_k m[i][k] * points[k]^j`.
pub open spec fn pow_nat(x: u128, j: nat) -> u128
    decreases j,
{
    if j == 0 {
        1
    } else {
        b128_mul(pow_nat(x, (j - 1) as nat), x)
    }
}

/// Vandermonde matrix of the points: entry `(i, j)` is `points[i]^j`.
pub fn vandermonde(xs: &Vec<u128>) -> (r: Matrix)
    requires
        xs.len() * xs.len() <= usize::MAX,
    ensures
        r.wf(),
        r.spec_rows() == xs.len(),
        r.spec_cols() == xs.len(),
        forall|i: int, j: int|
            0 <= i < xs.len() && 0 <= j < xs.len() ==> r.entry(i, j) == pow_nat(xs[i], j as nat),
{
    let n = xs.len();
    let mut mat = Matrix::zeros(n, n);
    let mut i: usize = 0;
    while i < n
        invariant
            n == xs.len(),
            mat.wf(),
            mat.spec_rows() == n,
            mat.spec_cols() == n,
            i <= n,
            forall|a: int, b: int|
                0 <= a < i && 0 <= b < n ==> mat.entry(a, b) == pow_nat(xs[a], b as nat),
        decreases n - i,
    {
        let mut acc: u128 = 1;
        let x_i = xs[i];
        mat.set(i, 0, acc);
        let mut j: usize = 1;
        while j < n
            invariant
                n == xs.len(),
                mat.wf(),
                mat.spec_rows() == n,
                mat.spec_cols() == n,
                i < n,
                1 <= j <= n,
                x_i == xs[i as int],
                acc == pow_nat(x_i, (j - 1) as nat),
                forall|a: int, b: int|
                    0 <= a < i && 0 <= b < n ==> mat.entry(a, b) == pow_nat(xs[a], b as nat),
                forall|b: int| 0 <= b < j ==> mat.entry(i as int, b) == pow_nat(x_i, b as nat),
            decreases n - j,
        {
            acc = mul128(acc, x_i);
            mat.set(i, j, acc);
            j = j + 1;
        }
        i = i + 1;
    }
    mat
}

/// Partial dot product of row `i` of `m` with column `j` of the
/// Vandermonde matrix of the points: `sum_(t < k) m[i][t] * points[t]^j`.
pub open spec fn vand_dot(m: Matrix, points: Seq<u128>, i: int, j: int, k: int) -> u128
    decreases k,
{
    if k <= 0 {
        0
    } else {
        vand_dot(m, points, i, j, k - 1) ^ b128_mul(m.entry(i, k - 1), pow_nat(
            points[k - 1],
            j as nat,
        ))
    }
}

/// Partial dot product of row `i` of the Vandermonde matrix of the points
/// with column `j` of `m`: `sum_(t < k) points[i]^t * m[t][j]`.
pub open spec fn dot_vand(points: Seq<u128>, m: Matrix, i: int, j: int, k: int) -> u128
    decreases k,
{
    if k <= 0 {
        0
    } else {
        dot_vand(points, m, i, j, k - 1) ^ b128_mul(pow_nat(points[i], (k - 1) as nat), m.entry(
            k - 1,
            j,
        ))
    }
}

/// The matrix is a two-sided inverse of the Vandermonde matrix of the
/// points: both products are the identity.
pub open spec fn inverts_vandermonde(m: Matrix, points: Seq<u128>) -> bool {
    &&& m.wf()
    &&& m.spec_rows() == points.len()
    &&& m.spec_cols() == points.len()
    &&& (forall|i: int, j: int|
        0 <= i < points.len() && 0 <= j < points.len() ==> #[trigger] vand_dot(
            m, points, i, j, points.len() as int) == (if i == j {
            1u128
        } else {
            0u128
        }))
    &&& (forall|i: int, j: int|
        0 <= i < points.len() && 0 <= j < points.len() ==> #[trigger] dot_vand(
            points, m, i, j, points.len() as int) == (if i == j {
            1u128
        } else {
            0u128
        }))
}

/// Matrix products against a matrix whose entries are the powers of the
/// points are the Vandermonde dot products.
proof fn lemma_prod_entry_vand(m: Matrix, v: Matrix, points: Seq<u128>, i: int, j: int, k: int)
    requires
        v.spec_rows() == points.len(),
        v.spec_cols() == points.len(),
        0 <= k <= points.len(),
        forall|a: int, b: int|
            0 <= a < points.len() && 0 <= b < points.len() ==> #[trigger] v.entry(a, b)
                == pow_nat(points[a], b as nat),
        0 <= i < points.len(),
        0 <= j < points.len(),
    ensures
        prod_entry(m, v, i, j, k) == vand_dot(m, points, i, j, k),
        prod_entry(v, m, i, j, k) == dot_vand(points, m, i, j, k),
    decreases k,
{
    if k > 0 {
        lemma_prod_entry_vand(m, v, points, i, j, k - 1);
    }
}

/// An extended domain that also supports interpolation to monomial form.
/// Construction inverts the Vandermonde matrix and keeps the candidate
/// only after confirming, by a verified product check, that it is a
/// two-sided inverse; that fact is part of `wf`, so every stored matrix
/// provably inverts the Vandermonde of the points. Distinct points make
/// the Vandermonde invertible, so the check then passes at run time; that
/// mathematical step is not proved here, which is why the matrix stays an
/// `Option` and no contract promises its presence.
#[derive(Clone, Debug)]
pub struct InterpolationDomain {
    pub evaluation_domain: EvaluationDomain,
    pub interpolation_matrix: Option<Matrix>,
}

impl InterpolationDomain {
    /// The stored matrix, when present, is a verified two-sided inverse
    /// of the Vandermonde matrix of the points: construction checks both
    /// products against the identity and keeps the matrix only when they
    /// pass.
    pub open spec fn wf(self) -> bool {
        &&& self.evaluation_domain.wf()
        &&& match self.interpolation_matrix {
            Option::Some(m) => inverts_vandermonde(m, self.evaluation_domain.points@),
            Option::None => true,
        }
    }

    /// Extend an evaluation domain with the inverse Vandermonde matrix.
    /// When the result carries a matrix, the contract records that it is
    /// a verified two-sided inverse of the Vandermonde of the points.
    pub fn from(evaluation_domain: EvaluationDomain) -> (r: InterpolationDomain)
        requires
            evaluation_domain.wf(),
            evaluation_domain.points.len() * evaluation_domain.points.len() <= usize::MAX,
        ensures
            r.wf(),
            r.evaluation_domain == evaluation_domain,
            r.interpolation_matrix matches Option::Some(m) ==> inverts_vandermonde(
                m,
                evaluation_domain.points@,
            ),
    {
        let n = evaluation_domain.points.len();
        let evaluation_matrix = vandermonde(&evaluation_domain.points);
        match evaluation_matrix.inverse() {
            Ok(candidate) => {
                let left = candidate.mul(&evaluation_matrix);
                let right = evaluation_matrix.mul(&candidate);
                if left.is_identity() && right.is_identity() {
                    proof {
                        assert forall|i: int, j: int|
                            0 <= i < n && 0 <= j < n implies #[trigger] vand_dot(
                            candidate,
                            evaluation_domain.points@,
                            i,
                            j,
                            n as int,
                        ) == (if i == j {
                            1u128
                        } else {
                            0u128
                        }) by {
                            lemma_prod_entry_vand(
                                candidate,
                                evaluation_matrix,
                                evaluation_domain.points@,
                                i,
                                j,
                                n as int,
                            );
                            assert(left.entry(i, j) == prod_entry(
                                candidate,
                                evaluation_matrix,
                                i,
                                j,
                                n as int,
                            ));
                        }
                        assert forall|i: int, j: int|
                            0 <= i < n && 0 <= j < n implies #[trigger] dot_vand(
                            evaluation_domain.points@,
                            candidate,
                            i,
                            j,
                            n as int,
                        ) == (if i == j {
                            1u128
                        } else {
                            0u128
                        }) by {
                            lemma_prod_entry_vand(
                                candidate,
                                evaluation_matrix,
                                evaluation_domain.points@,
                                i,
                                j,
                                n as int,
                            );
                            assert(right.entry(i, j) == prod_entry(
                                evaluation_matrix,
                                candidate,
                                i,
                                j,
                                n as int,
                            ));
                        }
                        assert(candidate.wf());
                        assert(candidate.spec_rows() == evaluation_domain.points@.len());
                        assert(candidate.spec_cols() == evaluation_domain.points@.len());
                        assert(n as int == evaluation_domain.points@.len());
                        assert(inverts_vandermonde(candidate, evaluation_domain.points@));
                    }
                    InterpolationDomain {
                        evaluation_domain,
                        interpolation_matrix: Some(candidate),
                    }
                } else {
                    InterpolationDomain { evaluation_domain, interpolation_matrix: None }
                }
            },
            Err(_) => InterpolationDomain { evaluation_domain, interpolation_matrix: None },
        }
    }

    pub fn size(&self) -> (r: usize)
        ensures
            r == self.evaluation_domain.points.len(),
    {
        self.evaluation_domain.size()
    }

    pub fn points(&self) -> (r: &Vec<u128>)
        ensures
            r == &self.evaluation_domain.points,
    {
        self.evaluation_domain.points()
    }

    /// Barycentric extrapolation on the underlying evaluation domain.
    pub fn extrapolate(&self, values: &Vec<u128>, x: u128) -> (r: Result<u128, Error>)
        requires
            self.wf(),
        ensures
            (r is Ok) <==> values.len() == self.evaluation_domain.points.len(),
            r is Ok ==> r->Ok_0 == extrap_value(
                self.evaluation_domain.points@, self.evaluation_domain.weights@, values@, x),
            r is Err ==> r->Err_0 == Error::ExtrapolateNumberOfEvaluations,
    {
        self.evaluation_domain.extrapolate(values, x)
    }

    /// Recover monomial coefficients from values on the domain: the
    /// product of the inverse Vandermonde matrix with the value vector.
    pub fn interpolate(&self, values: &Vec<u128>) -> (r: Result<Vec<u128>, Error>)
        requires
            self.wf(),
        ensures
            values.len() != self.evaluation_domain.points.len() ==> r == Err::<Vec<u128>, Error>(
                Error::ExtrapolateNumberOfEvaluations),
            values.len() == self.evaluation_domain.points.len() ==> match self
                .interpolation_matrix {
                Option::Some(m) => r is Ok && r->Ok_0.len() == values.len() && (forall|i: int|
                    0 <= i < values.len() ==> r->Ok_0[i] == row_dot(
                        m, values@, i, values.len() as int)) && inverts_vandermonde(
                    m,
                    self.evaluation_domain.points@,
                ),
                Option::None => r == Err::<Vec<u128>, Error>(Error::DuplicateDomainPoint),
            },
    {
        let n = self.evaluation_domain.size();
        if values.len() != n {
            return Err(Error::ExtrapolateNumberOfEvaluations);
        }
        match &self.interpolation_matrix {
            Some(m) => Ok(m.mul_vec(values)),
            None => Err(Error::DuplicateDomainPoint),
        }
    }
}

} // verus!

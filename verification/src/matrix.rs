//! Dense square-capable matrices over the 128-bit field, with
//! matrix-vector products, matrix products and Gauss-Jordan inversion.
//!
//! The inversion routine carries no algebraic contract of its own;
//! instead, a verified product check (`mul` plus `is_identity`) lets a
//! caller confirm that a candidate inverse really is one, so everything a
//! caller learns rests on the checked product.

use vstd::prelude::*;

use crate::error::Error;
use crate::field::{b128_mul, inv128, mul128};

verus! {

/// A dense row-major matrix over the 128-bit field.
#[derive(Clone, Debug)]
pub struct Matrix {
    pub n_rows: usize,
    pub n_cols: usize,
    pub elems: Vec<u128>,
}

impl Matrix {
    /// The backing vector holds exactly one element per entry.
    pub open spec fn wf(self) -> bool {
        self.elems.len() == self.n_rows * self.n_cols
    }

    pub open spec fn spec_rows(self) -> int {
        self.n_rows as int
    }

    pub open spec fn spec_cols(self) -> int {
        self.n_cols as int
    }

    /// Entry at row `i`, column `j`.
    pub open spec fn entry(self, i: int, j: int) -> u128 {
        self.elems[i * self.n_cols + j]
    }

    /// The all-zero matrix with the given shape.
    pub fn zeros(n_rows: usize, n_cols: usize) -> (r: Matrix)
        requires
            n_rows * n_cols <= usize::MAX,
        ensures
            r.wf(),
            r.spec_rows() == n_rows,
            r.spec_cols() == n_cols,
            forall|i: int, j: int|
                0 <= i < n_rows && 0 <= j < n_cols ==> r.entry(i, j) == 0,
    {
        let mut elems: Vec<u128> = Vec::new();
        let total: usize = n_rows * n_cols;
        let mut k: usize = 0;
        while k < total
            invariant
                k <= total,
                elems.len() == k,
                forall|t: int| 0 <= t < k ==> elems[t] == 0,
            decreases total - k,
        {
            elems.push(0);
            k = k + 1;
        }
        let r = Matrix { n_rows, n_cols, elems };
        proof {
            assert forall|i: int, j: int|
                0 <= i < n_rows && 0 <= j < n_cols implies #[trigger] r.entry(i, j) == 0 by {
                assert(0 <= i * n_cols + j < n_rows * n_cols) by (nonlinear_arith)
                    requires
                        0 <= i < n_rows,
                        0 <= j < n_cols,
                ;
            }
        }
        r
    }

    pub fn n_rows(&self) -> (r: usize)
        ensures
            r == self.spec_rows(),
    {
        self.n_rows
    }

    pub fn n_cols(&self) -> (r: usize)
        ensures
            r == self.spec_cols(),
    {
        self.n_cols
    }

    /// Read the entry at row `i`, column `j`.
    pub fn get(&self, i: usize, j: usize) -> (r: u128)
        requires
            self.wf(),
            i < self.spec_rows(),
            j < self.spec_cols(),
        ensures
            r == self.entry(i as int, j as int),
    {
        proof {
            assert(i * self.n_cols + j < self.n_rows * self.n_cols) by (nonlinear_arith)
                requires
                    i < self.n_rows,
                    j < self.n_cols,
            ;
        }
        self.elems[i * self.n_cols + j]
    }

    /// Write the entry at row `i`, column `j`.
    pub fn set(&mut self, i: usize, j: usize, v: u128)
        requires
            old(self).wf(),
            i < old(self).spec_rows(),
            j < old(self).spec_cols(),
        ensures
            final(self).wf(),
            final(self).spec_rows() == old(self).spec_rows(),
            final(self).spec_cols() == old(self).spec_cols(),
            final(self).entry(i as int, j as int) == v,
            forall|a: int, b: int|
                0 <= a < old(self).spec_rows() && 0 <= b < old(self).spec_cols() && !(a == i && b
                    == j) ==> final(self).entry(a, b) == old(self).entry(a, b),
    {
        proof {
            assert(i * self.n_cols + j < self.n_rows * self.n_cols) by (nonlinear_arith)
                requires
                    i < self.n_rows,
                    j < self.n_cols,
            ;
        }
        let idx: usize = i * self.n_cols + j;
        self.elems.set(idx, v);
        proof {
            assert forall|a: int, b: int|
                0 <= a < self.spec_rows() && 0 <= b < self.spec_cols() && !(a == i as int && b
                    == j as int) implies #[trigger] self.entry(a, b) == old(self).entry(a, b) by {
                assert(a * self.n_cols + b != i * self.n_cols + j && 0 <= a * self.n_cols + b < self.n_rows
                    * self.n_cols) by (nonlinear_arith)
                    requires
                        0 <= a < self.n_rows,
                        0 <= b < self.n_cols,
                        i < self.n_rows,
                        j < self.n_cols,
                        !(a == i && b == j),
                ;
            }
        }
    }
}

/// Partial dot product of row `i` of `m` with the vector `v`: the sum of
/// the first `k` products.
pub open spec fn row_dot(m: Matrix, v: Seq<u128>, i: int, k: int) -> u128
    decreases k,
{
    if k <= 0 {
        0
    } else {
        row_dot(m, v, i, k - 1) ^ b128_mul(m.entry(i, k - 1), v[k - 1])
    }
}

/// Partial dot product of row `i` of `a` with column `j` of `b`.
pub open spec fn prod_entry(a: Matrix, b: Matrix, i: int, j: int, k: int) -> u128
    decreases k,
{
    if k <= 0 {
        0
    } else {
        prod_entry(a, b, i, j, k - 1) ^ b128_mul(a.entry(i, k - 1), b.entry(k - 1, j))
    }
}

impl Matrix {
    /// Matrix-vector product: entry `i` of the result is the dot product
    /// of row `i` with `v`.
    pub fn mul_vec(&self, v: &Vec<u128>) -> (r: Vec<u128>)
        requires
            self.wf(),
            v.len() == self.spec_cols(),
        ensures
            r.len() == self.spec_rows(),
            forall|i: int|
                0 <= i < self.spec_rows() ==> r[i] == row_dot(*self, v@, i, self.spec_cols()),
    {
        let n = self.n_rows;
        let m = self.n_cols;
        let mut out: Vec<u128> = Vec::new();
        let mut i: usize = 0;
        while i < n
            invariant
                self.wf(),
                v.len() == self.spec_cols(),
                n == self.spec_rows(),
                m == self.spec_cols(),
                i <= n,
                out.len() == i,
                forall|t: int| 0 <= t < i ==> out[t] == row_dot(*self, v@, t, m as int),
            decreases n - i,
        {
            let mut acc: u128 = 0;
            let mut j: usize = 0;
            while j < m
                invariant
                    self.wf(),
                    v.len() == self.spec_cols(),
                    m == self.spec_cols(),
                    n == self.spec_rows(),
                    i < n,
                    j <= m,
                    acc == row_dot(*self, v@, i as int, j as int),
                decreases m - j,
            {
                acc = acc ^ mul128(self.get(i, j), v[j]);
                j = j + 1;
            }
            out.push(acc);
            i = i + 1;
        }
        out
    }

    /// Matrix product: entry `(i, j)` of the result is the dot product of
    /// row `i` of `self` with column `j` of `other`.
    pub fn mul(&self, other: &Matrix) -> (r: Matrix)
        requires
            self.wf(),
            other.wf(),
            self.spec_cols() == other.spec_rows(),
            self.spec_rows() * other.spec_cols() <= usize::MAX,
        ensures
            r.wf(),
            r.spec_rows() == self.spec_rows(),
            r.spec_cols() == other.spec_cols(),
            forall|i: int, j: int|
                0 <= i < r.spec_rows() && 0 <= j < r.spec_cols() ==> r.entry(i, j) == prod_entry(
                    *self, *other, i, j, self.spec_cols()),
    {
        let n = self.n_rows;
        let p = other.n_cols;
        let m = self.n_cols;
        let mut out = Matrix::zeros(n, p);
        let mut i: usize = 0;
        while i < n
            invariant
                self.wf(),
                other.wf(),
                out.wf(),
                m == self.spec_cols(),
                m == other.spec_rows(),
                n == self.spec_rows(),
                p == other.spec_cols(),
                out.spec_rows() == n,
                out.spec_cols() == p,
                i <= n,
                forall|a: int, b: int|
                    0 <= a < i && 0 <= b < p ==> out.entry(a, b) == prod_entry(
                        *self, *other, a, b, m as int),
            decreases n - i,
        {
            let mut j: usize = 0;
            while j < p
                invariant
                    self.wf(),
                    other.wf(),
                    out.wf(),
                    m == self.spec_cols(),
                    m == other.spec_rows(),
                    n == self.spec_rows(),
                    p == other.spec_cols(),
                    out.spec_rows() == n,
                    out.spec_cols() == p,
                    i < n,
                    j <= p,
                    forall|a: int, b: int|
                        0 <= a < i && 0 <= b < p ==> out.entry(a, b) == prod_entry(
                            *self, *other, a, b, m as int),
                    forall|b: int|
                        0 <= b < j ==> out.entry(i as int, b) == prod_entry(
                            *self, *other, i as int, b, m as int),
                decreases p - j,
            {
                let mut acc: u128 = 0;
                let mut k: usize = 0;
                while k < m
                    invariant
                        self.wf(),
                        other.wf(),
                        m == self.spec_cols(),
                        m == other.spec_rows(),
                        n == self.spec_rows(),
                        p == other.spec_cols(),
                        i < n,
                        j < p,
                        k <= m,
                        acc == prod_entry(*self, *other, i as int, j as int, k as int),
                    decreases m - k,
                {
                    acc = acc ^ mul128(self.get(i, k), other.get(k, j));
                    k = k + 1;
                }
                out.set(i, j, acc);
                j = j + 1;
            }
            i = i + 1;
        }
        out
    }

    /// Whether this is the identity matrix.
    pub open spec fn spec_is_identity(self) -> bool {
        &&& self.spec_rows() == self.spec_cols()
        &&& forall|i: int, j: int|
            0 <= i < self.spec_rows() && 0 <= j < self.spec_cols() ==> self.entry(i, j) == (
            if i == j {
                1u128
            } else {
                0u128
            })
    }

    /// Check whether this is the identity matrix.
    pub fn is_identity(&self) -> (r: bool)
        requires
            self.wf(),
        ensures
            r == self.spec_is_identity(),
    {
        if self.n_rows != self.n_cols {
            return false;
        }
        let n = self.n_rows;
        let mut i: usize = 0;
        while i < n
            invariant
                self.wf(),
                n == self.spec_rows(),
                n == self.spec_cols(),
                i <= n,
                forall|a: int, b: int|
                    0 <= a < i && 0 <= b < n ==> self.entry(a, b) == (
                    if a == b {
                        1u128
                    } else {
                        0u128
                    }),
            decreases n - i,
        {
            let mut j: usize = 0;
            while j < n
                invariant
                    self.wf(),
                    n == self.spec_rows(),
                    n == self.spec_cols(),
                    i < n,
                    j <= n,
                    forall|a: int, b: int|
                        0 <= a < i && 0 <= b < n ==> self.entry(a, b) == (
                        if a == b {
                            1u128
                        } else {
                            0u128
                        }),
                    forall|b: int|
                        0 <= b < j ==> self.entry(i as int, b) == (
                        if i == b {
                            1u128
                        } else {
                            0u128
                        }),
                decreases n - j,
            {
                let expected: u128 = if i == j {
                    1
                } else {
                    0
                };
                if self.get(i, j) != expected {
                    return false;
                }
                j = j + 1;
            }
            i = i + 1;
        }
        true
    }

    /// Gauss-Jordan elimination towards an inverse candidate. Fails when
    /// no nonzero pivot can be found in some column. The result carries
    /// no algebraic guarantee by itself; callers confirm it with `mul`
    /// and `is_identity`.
    /// A copy with the same shape and entries.
    pub fn duplicate(&self) -> (r: Matrix)
        ensures
            r.n_rows == self.n_rows,
            r.n_cols == self.n_cols,
            r.elems@ == self.elems@,
    {
        let mut elems: Vec<u128> = Vec::new();
        let len = self.elems.len();
        let mut k: usize = 0;
        while k < len
            invariant
                k <= len,
                len == self.elems.len(),
                elems.len() == k,
                forall|t: int| 0 <= t < k ==> elems[t] == self.elems[t],
            decreases len - k,
        {
            elems.push(self.elems[k]);
            k = k + 1;
        }
        proof {
            assert(elems@ =~= self.elems@);
        }
        Matrix { n_rows: self.n_rows, n_cols: self.n_cols, elems }
    }

    pub fn inverse(&self) -> (r: Result<Matrix, Error>)
        requires
            self.wf(),
            self.spec_rows() == self.spec_cols(),
            self.spec_rows() * self.spec_rows() <= usize::MAX,
        ensures
            r is Ok ==> (r->Ok_0.wf() && r->Ok_0.spec_rows() == self.spec_rows()
                && r->Ok_0.spec_cols() == self.spec_cols()),
    {
        let n = self.n_rows;
        let mut work = self.duplicate();
        let mut out = Matrix::zeros(n, n);
        let mut d: usize = 0;
        while d < n
            invariant
                out.wf(),
                out.spec_rows() == n,
                out.spec_cols() == n,
                d <= n,
            decreases n - d,
        {
            out.set(d, d, 1);
            d = d + 1;
        }
        proof {
            assert(work.wf() && work.spec_rows() == n && work.spec_cols() == n);
        }
        let mut col: usize = 0;
        while col < n
            invariant
                work.wf(),
                work.spec_rows() == n,
                work.spec_cols() == n,
                out.wf(),
                out.spec_rows() == n,
                out.spec_cols() == n,
                col <= n,
            decreases n - col,
        {
            // Find a row at or below the diagonal with a nonzero pivot.
            let mut pivot: usize = col;
            let mut found: bool = false;
            let mut r: usize = col;
            while r < n
                invariant
                    work.wf(),
                    work.spec_rows() == n,
                    work.spec_cols() == n,
                    col < n,
                    col <= r <= n,
                    found ==> col <= pivot < n,
                    !found ==> pivot == col,
                decreases n - r,
            {
                if !found && work.get(r, col) != 0 {
                    pivot = r;
                    found = true;
                }
                r = r + 1;
            }
            if !found {
                return Err(Error::DuplicateDomainPoint);
            }
            // Swap the pivot row up, in both matrices.
            let mut j: usize = 0;
            while j < n
                invariant
                    work.wf(),
                    work.spec_rows() == n,
                    work.spec_cols() == n,
                    out.wf(),
                    out.spec_rows() == n,
                    out.spec_cols() == n,
                    col < n,
                    pivot < n,
                    j <= n,
                decreases n - j,
            {
                let a = work.get(col, j);
                let b = work.get(pivot, j);
                work.set(col, j, b);
                work.set(pivot, j, a);
                let a2 = out.get(col, j);
                let b2 = out.get(pivot, j);
                out.set(col, j, b2);
                out.set(pivot, j, a2);
                j = j + 1;
            }
            // Scale the pivot row by the inverse of the pivot.
            let scale = inv128(work.get(col, col));
            let mut j2: usize = 0;
            while j2 < n
                invariant
                    work.wf(),
                    work.spec_rows() == n,
                    work.spec_cols() == n,
                    out.wf(),
                    out.spec_rows() == n,
                    out.spec_cols() == n,
                    col < n,
                    j2 <= n,
                decreases n - j2,
            {
                let v = mul128(work.get(col, j2), scale);
                work.set(col, j2, v);
                let v2 = mul128(out.get(col, j2), scale);
                out.set(col, j2, v2);
                j2 = j2 + 1;
            }
            // Eliminate the column from every other row.
            let mut r2: usize = 0;
            while r2 < n
                invariant
                    work.wf(),
                    work.spec_rows() == n,
                    work.spec_cols() == n,
                    out.wf(),
                    out.spec_rows() == n,
                    out.spec_cols() == n,
                    col < n,
                    r2 <= n,
                decreases n - r2,
            {
                if r2 != col {
                    let factor = work.get(r2, col);
                    if factor != 0 {
                        let mut j3: usize = 0;
                        while j3 < n
                            invariant
                                work.wf(),
                                work.spec_rows() == n,
                                work.spec_cols() == n,
                                out.wf(),
                                out.spec_rows() == n,
                                out.spec_cols() == n,
                                col < n,
                                r2 < n,
                                j3 <= n,
                            decreases n - j3,
                        {
                            let v = work.get(r2, j3) ^ mul128(factor, work.get(col, j3));
                            work.set(r2, j3, v);
                            let v2 = out.get(r2, j3) ^ mul128(factor, out.get(col, j3));
                            out.set(r2, j3, v2);
                            j3 = j3 + 1;
                        }
                    }
                }
                r2 = r2 + 1;
            }
            col = col + 1;
        }
        Ok(out)
    }
}

} // verus!

//! Multilinear polynomials over the boolean hypercube, stored as packed
//! evaluation columns in little-endian order: the scalar at index `i`
//! is the value on the point whose coordinates are the binary digits of
//! `i`. Supports subcube extraction and partial evaluation against a
//! tensor query contracting the lowest or highest variables.

use vstd::prelude::*;

use crate::error::Error;
use crate::field::{b128_mul, mul128};
use crate::packed::Packed;

verus! {

/// `2^n`.
pub open spec fn pow2(n: nat) -> int
    decreases n,
{
    if n == 0 {
        1
    } else {
        2 * pow2((n - 1) as nat)
    }
}

/// Powers of two are positive.
pub proof fn lemma_pow2_pos(n: nat)
    ensures
        pow2(n) >= 1,
    decreases n,
{
    if n > 0 {
        lemma_pow2_pos((n - 1) as nat);
    }
}

/// `2^a * 2^b == 2^(a+b)`.
pub proof fn lemma_pow2_add(a: nat, b: nat)
    ensures
        pow2(a) * pow2(b) == pow2(a + b),
    decreases a,
{
    if a == 0 {
    } else {
        lemma_pow2_add((a - 1) as nat, b);
        assert(pow2(a) * pow2(b) == 2 * (pow2((a - 1) as nat) * pow2(b))) by (nonlinear_arith)
            requires
                pow2(a) == 2 * pow2((a - 1) as nat),
        ;
    }
}

/// `2^n` exceeds `n`.
pub proof fn lemma_pow2_gt(n: nat)
    ensures
        pow2(n) > n,
    decreases n,
{
    if n > 0 {
        lemma_pow2_gt((n - 1) as nat);
    }
}

/// Powers of two grow with the exponent.
pub proof fn lemma_pow2_le(a: nat, b: nat)
    requires
        a <= b,
    ensures
        pow2(a) <= pow2(b),
    decreases b,
{
    if a < b && b > 0 {
        lemma_pow2_le(a, (b - 1) as nat);
        lemma_pow2_pos((b - 1) as nat);
    }
}

/// `2^n` as a run-time value.
pub fn pow2_exec(n: usize) -> (r: usize)
    requires
        pow2(n as nat) <= usize::MAX,
    ensures
        r as int == pow2(n as nat),
{
    let mut r: usize = 1;
    let mut k: usize = 0;
    while k < n
        invariant
            k <= n,
            r as int == pow2(k as nat),
            pow2(n as nat) <= usize::MAX,
        decreases n - k,
    {
        proof {
            lemma_pow2_le((k + 1) as nat, n as nat);
        }
        r = r * 2;
        k = k + 1;
    }
    r
}

/// Number of packed values backing a `n`-variate column.
pub open spec fn packed_count(n: nat) -> int {
    if n <= 2 {
        1
    } else {
        pow2((n - 2) as nat)
    }
}

/// A packed column holds four scalars per entry.
pub proof fn lemma_packed_count(n: nat)
    ensures
        n >= 2 ==> 4 * packed_count(n) == pow2(n),
        pow2(n) <= 4 * packed_count(n),
        packed_count(n) >= 1,
    decreases n,
{
    lemma_pow2_pos(n);
    reveal_with_fuel(pow2, 4);
    if n > 2 {
        lemma_pow2_add(2, (n - 2) as nat);
    }
}

/// `2^n` as a run-time packed count.
pub fn packed_count_exec(n: usize) -> (r: usize)
    requires
        pow2(n as nat) <= usize::MAX,
    ensures
        r as int == packed_count(n as nat),
{
    if n <= 2 {
        1
    } else {
        proof {
            lemma_pow2_le((n - 2) as nat, n as nat);
        }
        pow2_exec(n - 2)
    }
}

/// Scalar `idx` of a packed column.
pub open spec fn ml_scalar(evals: Seq<Packed>, idx: int) -> u128 {
    evals[idx / 4].lane(idx % 4)
}

/// Scalar `idx` of a packed prefix padded with a constant suffix.
pub open spec fn padded_scalar(evals: Seq<Packed>, suffix: u128, idx: int) -> u128 {
    if idx < evals.len() * 4 {
        ml_scalar(evals, idx)
    } else {
        suffix
    }
}

/// A multilinear polynomial over `n_vars` variables, as a dense packed
/// column of its `2^n_vars` hypercube evaluations.
#[derive(Debug)]
pub struct MultilinearCol {
    pub n_vars: usize,
    pub evals: Vec<Packed>,
}

impl MultilinearCol {
    /// The column holds exactly one scalar per hypercube point.
    pub open spec fn wf(self) -> bool {
        self.evals.len() == packed_count(self.n_vars as nat) && pow2(self.n_vars as nat)
            <= usize::MAX
    }

    /// Scalar at hypercube index `idx`.
    pub open spec fn scalar(self, idx: int) -> u128 {
        ml_scalar(self.evals@, idx)
    }

    pub fn n_vars(&self) -> (r: usize)
        ensures
            r == self.n_vars,
    {
        self.n_vars
    }

    /// The packed evaluations.
    pub fn evals(&self) -> (r: &Vec<Packed>)
        ensures
            r == &self.evals,
    {
        &self.evals
    }

    /// Build a multilinear from its scalar evaluations, padding the last
    /// packed entry with zeros.
    pub fn from_scalars(n_vars: usize, scalars: &Vec<u128>) -> (r: MultilinearCol)
        requires
            pow2(n_vars as nat) <= usize::MAX,
            scalars.len() as int == pow2(n_vars as nat),
        ensures
            r.wf(),
            r.n_vars == n_vars,
            forall|i: int| 0 <= i < scalars.len() ==> r.scalar(i) == scalars[i],
    {
        proof {
            lemma_packed_count(n_vars as nat);
        }
        let count = packed_count_exec(n_vars);
        proof {
            if n_vars >= 2 {
                assert(4 * count == pow2(n_vars as nat));
            }
        }
        let total = scalars.len();
        let mut evals: Vec<Packed> = Vec::new();
        let mut e: usize = 0;
        while e < count
            invariant
                count as int == packed_count(n_vars as nat),
                total as int == pow2(n_vars as nat),
                pow2(n_vars as nat) <= 4 * packed_count(n_vars as nat),
                4 * count <= usize::MAX,
                total == scalars.len(),
                e <= count,
                evals.len() == e,
                forall|i: int|
                    0 <= i < e * 4 && i < total ==> ml_scalar(evals@, i) == scalars[i],
            decreases count - e,
        {
            let mut p = Packed::zero();
            let mut l: usize = 0;
            while l < 4
                invariant
                    count as int == packed_count(n_vars as nat),
                    total as int == pow2(n_vars as nat),
                    pow2(n_vars as nat) <= 4 * packed_count(n_vars as nat),
                    total == scalars.len(),
                    4 * count <= usize::MAX,
                    e < count,
                    l <= 4,
                    forall|t: int|
                        0 <= t < l && e * 4 + t < total ==> p.lane(t) == scalars[e * 4 + t],
                decreases 4 - l,
            {
                proof {
                    assert(e * 4 + l < 4 * count) by (nonlinear_arith)
                        requires
                            e < count,
                            l < 4,
                    ;
                }
                if e * 4 + l < total {
                    p.set(l, scalars[e * 4 + l]);
                }
                l = l + 1;
            }
            evals.push(p);
            proof {
                assert forall|i: int|
                    0 <= i < (e + 1) * 4 && i < total implies ml_scalar(evals@, i)
                    == scalars[i] by {
                    if i >= e * 4 {
                        assert(i / 4 == e as int && i % 4 == i - e * 4) by (nonlinear_arith)
                            requires
                                e * 4 <= i < (e + 1) * 4,
                        ;
                    }
                }
            }
            e = e + 1;
        }
        MultilinearCol { n_vars, evals }
    }

    /// Write the evaluations of the restriction fixing the upper
    /// `n_vars - subcube_vars` variables to the bits of `subcube_index`:
    /// scalar `i` of the destination becomes scalar
    /// `subcube_index * 2^subcube_vars + i` of the column. Lanes past the
    /// subcube are zeroed. Fails when the destination length is not the
    /// packed count of the subcube.
    pub fn subcube_evals(&self, subcube_vars: usize, subcube_index: usize, dst: &mut Vec<Packed>)
        -> (r: Result<(), Error>)
        requires
            self.wf(),
            subcube_vars <= self.n_vars,
            subcube_index < pow2((self.n_vars - subcube_vars) as nat),
        ensures
            (r is Ok) <==> old(dst).len() as int == packed_count(subcube_vars as nat),
            r is Err ==> r->Err_0 == Error::IncorrectDestSliceLengths && final(dst)@ == old(dst)@,
            r is Ok ==> final(dst).len() == old(dst).len() && (forall|i: int|
                0 <= i < pow2(subcube_vars as nat) ==> ml_scalar(final(dst)@, i) == self.scalar(
                    subcube_index * pow2(subcube_vars as nat) + i)),
    {
        proof {
            lemma_packed_count(subcube_vars as nat);
            lemma_packed_count(self.n_vars as nat);
            lemma_pow2_add(subcube_vars as nat, (self.n_vars - subcube_vars) as nat);
            lemma_pow2_pos(subcube_vars as nat);
            lemma_pow2_pos((self.n_vars - subcube_vars) as nat);
            lemma_pow2_le(subcube_vars as nat, self.n_vars as nat);
        }
        let count = packed_count_exec(subcube_vars);
        if dst.len() != count {
            return Err(Error::IncorrectDestSliceLengths);
        }
        let total = pow2_exec(subcube_vars);
        proof {
            assert((subcube_index + 1) * total <= pow2(self.n_vars as nat)) by (nonlinear_arith)
                requires
                    total as int == pow2(subcube_vars as nat),
                    subcube_index < pow2((self.n_vars - subcube_vars) as nat),
                    total >= 1,
                    pow2(subcube_vars as nat) * pow2((self.n_vars - subcube_vars) as nat) == pow2(
                        self.n_vars as nat),
            ;
            assert(subcube_index * total + total == (subcube_index + 1) * total) by (
            nonlinear_arith);
        }
        let base: usize = subcube_index * total;
        let mut i: usize = 0;
        let ghost dst0 = dst@;
        while i < total
            invariant
                self.wf(),
                count as int == packed_count(subcube_vars as nat),
                total as int == pow2(subcube_vars as nat),
                total <= 4 * count,
                base == subcube_index * total,
                base + total <= pow2(self.n_vars as nat),
                pow2(self.n_vars as nat) <= 4 * packed_count(self.n_vars as nat),
                i <= total,
                dst.len() == count,
                forall|t: int| 0 <= t < i ==> ml_scalar(dst@, t) == self.scalar(base + t),
            decreases total - i,
        {
            let ghost dst_pre = dst@;
            let src: usize = base + i;
            let s = self.evals[src / 4].get(src % 4);
            let mut p = dst[i / 4];
            p.set(i % 4, s);
            dst.set(i / 4, p);
            proof {
                assert forall|t: int| 0 <= t < i + 1 implies ml_scalar(dst@, t) == self.scalar(
                    base + t) by {
                    assert(0 <= t / 4 < count && 0 <= t % 4 < 4) by (nonlinear_arith)
                        requires
                            0 <= t < total,
                            total <= 4 * count,
                    ;
                    if t == i {
                        assert((i / 4) as int == t / 4);
                        assert(((i % 4) as int) == t % 4);
                        assert(dst@[t / 4] == p);
                        assert(p.lane(t % 4) == s);
                        assert(s == self.evals@[(base + t) / 4].lane((base + t) % 4));
                        assert(ml_scalar(dst@, t) == s);
                        assert(self.scalar(base + t) == s);
                    } else {
                        assert(ml_scalar(dst_pre, t) == self.scalar(base + t));
                        if t / 4 != (i / 4) as int {
                            assert(dst@[t / 4] == dst_pre[t / 4]);
                        } else {
                            assert(t % 4 != i as int % 4) by (nonlinear_arith)
                                requires
                                    t / 4 == i as int / 4,
                                    0 <= t < i,
                            ;
                            assert(dst@[t / 4] == p);
                            assert(p.lane(t % 4) == dst_pre[t / 4].lane(t % 4));
                        }
                    }
                }
            }
            i = i + 1;
        }
        Ok(())
    }
}

/// Partial sum of the low contraction: the first `k` tensor terms of
/// `sum_t exp[t] * scalar(y * exp.len() + t)`.
pub open spec fn contract_low(evals: Seq<Packed>, exp: Seq<u128>, y: int, k: int) -> u128
    decreases k,
{
    if k <= 0 {
        0
    } else {
        contract_low(evals, exp, y, k - 1) ^ b128_mul(
            exp[k - 1],
            ml_scalar(evals, y * exp.len() + (k - 1)),
        )
    }
}

/// Partial sum of the high contraction: the first `k` tensor terms of
/// `sum_t exp[t] * scalar(t * rem + y)`, where `rem` is the number of
/// remaining hypercube points.
pub open spec fn contract_high(evals: Seq<Packed>, exp: Seq<u128>, rem: int, y: int, k: int) -> u128
    decreases k,
{
    if k <= 0 {
        0
    } else {
        contract_high(evals, exp, rem, y, k - 1) ^ b128_mul(
            exp[k - 1],
            ml_scalar(evals, (k - 1) * rem + y),
        )
    }
}

/// The tensor expansion of a prefix of sumcheck challenges:
/// `expansion[t]` is the product over `j` of `challenges[j]` when bit `j`
/// of `t` is set and `1 - challenges[j]` otherwise.
#[derive(Debug)]
pub struct MultilinearQuery {
    pub n_vars: usize,
    pub expansion: Vec<u128>,
}

/// Tensor coefficient `t` of a challenge list.
pub open spec fn tensor_at(ch: Seq<u128>, t: int) -> u128
    decreases ch.len(),
{
    if ch.len() == 0 {
        1
    } else {
        let half = pow2((ch.len() - 1) as nat);
        b128_mul(
            tensor_at(ch.drop_last(), t % half),
            if t / half == 1 {
                ch.last()
            } else {
                1 ^ ch.last()
            },
        )
    }
}

impl MultilinearQuery {
    pub open spec fn wf(self) -> bool {
        self.expansion.len() as int == pow2(self.n_vars as nat) && pow2(self.n_vars as nat)
            <= usize::MAX
    }

    /// The empty query: no challenges, a single unit coefficient.
    pub fn with_capacity() -> (r: MultilinearQuery)
        ensures
            r.wf(),
            r.n_vars == 0,
            r.expansion.len() == 1,
            r.expansion[0] == 1u128,
    {
        let mut expansion: Vec<u128> = Vec::new();
        expansion.push(1);
        MultilinearQuery { n_vars: 0, expansion }
    }

    pub fn n_vars(&self) -> (r: usize)
        ensures
            r == self.n_vars,
    {
        self.n_vars
    }

    /// Expand a challenge list into its tensor coefficients by repeated
    /// doubling.
    pub fn expand(challenges: &Vec<u128>) -> (r: MultilinearQuery)
        requires
            pow2(challenges.len() as nat) <= usize::MAX,
        ensures
            r.wf(),
            r.n_vars == challenges.len(),
            forall|t: int|
                0 <= t < pow2(challenges.len() as nat) ==> r.expansion[t] == tensor_at(
                    challenges@, t),
    {
        let mut expansion: Vec<u128> = Vec::new();
        expansion.push(1);
        let mut k: usize = 0;
        proof {
            assert(tensor_at(challenges@.subrange(0, 0), 0) == 1);
        }
        while k < challenges.len()
            invariant
                pow2(challenges.len() as nat) <= usize::MAX,
                k <= challenges.len(),
                expansion.len() as int == pow2(k as nat),
                forall|t: int|
                    0 <= t < pow2(k as nat) ==> expansion[t] == tensor_at(
                        challenges@.subrange(0, k as int), t),
            decreases challenges.len() - k,
        {
            proof {
                lemma_pow2_le((k + 1) as nat, challenges.len() as nat);
                lemma_pow2_pos(k as nat);
            }
            let z = challenges[k];
            let half = expansion.len();
            let mut next: Vec<u128> = Vec::new();
            let mut t: usize = 0;
            while t < half
                invariant
                    half as int == pow2(k as nat),
                    k < challenges.len(),
                    z == challenges[k as int],
                    expansion.len() == half,
                    forall|u: int|
                        0 <= u < half ==> expansion[u] == tensor_at(
                            challenges@.subrange(0, k as int), u),
                    t <= half,
                    next.len() == t,
                    forall|u: int|
                        0 <= u < t ==> next[u] == b128_mul(
                            tensor_at(challenges@.subrange(0, k as int), u), 1u128 ^ z),
                decreases half - t,
            {
                next.push(mul128(expansion[t], 1 ^ z));
                t = t + 1;
            }
            let mut t2: usize = 0;
            while t2 < half
                invariant
                    half as int == pow2(k as nat),
                    k < challenges.len(),
                    z == challenges[k as int],
                    expansion.len() == half,
                    forall|u: int|
                        0 <= u < half ==> expansion[u] == tensor_at(
                            challenges@.subrange(0, k as int), u),
                    t2 <= half,
                    next.len() == half + t2,
                    half + half <= usize::MAX,
                    forall|u: int|
                        0 <= u < half ==> next[u] == b128_mul(
                            tensor_at(challenges@.subrange(0, k as int), u), 1u128 ^ z),
                    forall|u: int|
                        half <= u < half + t2 ==> next[u] == b128_mul(
                            tensor_at(challenges@.subrange(0, k as int), u - half), z),
                decreases half - t2,
            {
                proof {
                    lemma_pow2_le((k + 1) as nat, challenges.len() as nat);
                }
                next.push(mul128(expansion[t2], z));
                t2 = t2 + 1;
            }
            proof {
                let chk1 = challenges@.subrange(0, (k + 1) as int);
                assert(chk1.drop_last() =~= challenges@.subrange(0, k as int));
                assert(chk1.last() == challenges@[k as int]);
                assert forall|u: int| 0 <= u < pow2((k + 1) as nat) implies next[u] == tensor_at(
                    chk1, u) by {
                    let half_i = pow2(k as nat);
                    if u < half_i {
                        assert(u / half_i == 0 && u % half_i == u) by (nonlinear_arith)
                            requires
                                0 <= u < half_i,
                        ;
                        assert(b128_mul(
                            tensor_at(chk1.drop_last(), u),
                            1u128 ^ chk1.last(),
                        ) == tensor_at(chk1, u));
                    } else {
                        assert(u / half_i == 1 && u % half_i == u - half_i) by (nonlinear_arith)
                            requires
                                half_i <= u < 2 * half_i,
                                half_i >= 1,
                        ;
                    }
                }
            }
            expansion = next;
            k = k + 1;
        }
        proof {
            assert(challenges@.subrange(0, challenges.len() as int) =~= challenges@);
        }
        MultilinearQuery { n_vars: challenges.len(), expansion }
    }
}


impl MultilinearCol {
    /// Project by contracting the first `query.n_vars` variables against
    /// the tensor expansion, then write the `subcube_index`-th subcube of
    /// the remaining variables: scalar `i` of the destination becomes
    /// `sum_t expansion[t] * scalar((subcube_index * 2^subcube_vars + i) * 2^r + t)`.
    pub fn subcube_partial_low_evals(
        &self,
        query: &MultilinearQuery,
        subcube_vars: usize,
        subcube_index: usize,
        dst: &mut Vec<Packed>,
    ) -> (r: Result<(), Error>)
        requires
            self.wf(),
            query.wf(),
            query.n_vars <= self.n_vars,
            subcube_vars <= self.n_vars - query.n_vars,
            subcube_index < pow2((self.n_vars - query.n_vars - subcube_vars) as nat),
        ensures
            (r is Ok) <==> old(dst).len() as int == packed_count(subcube_vars as nat),
            r is Err ==> r->Err_0 == Error::IncorrectDestSliceLengths && final(dst)@ == old(
                dst)@,
            r is Ok ==> final(dst).len() == old(dst).len() && (forall|i: int|
                0 <= i < pow2(subcube_vars as nat) ==> ml_scalar(final(dst)@, i) == contract_low(
                    self.evals@,
                    query.expansion@,
                    subcube_index * pow2(subcube_vars as nat) + i,
                    pow2(query.n_vars as nat),
                )),
    {
        proof {
            lemma_packed_count(subcube_vars as nat);
            lemma_packed_count(self.n_vars as nat);
            lemma_pow2_pos(subcube_vars as nat);
            lemma_pow2_pos(query.n_vars as nat);
            lemma_pow2_le(subcube_vars as nat, self.n_vars as nat);
            lemma_pow2_le(query.n_vars as nat, self.n_vars as nat);
            lemma_pow2_add(subcube_vars as nat, (self.n_vars - query.n_vars
                - subcube_vars) as nat);
            lemma_pow2_add(
                (self.n_vars - query.n_vars) as nat,
                query.n_vars as nat,
            );
            lemma_pow2_add(subcube_vars as nat, query.n_vars as nat);
        }
        let count = packed_count_exec(subcube_vars);
        if dst.len() != count {
            return Err(Error::IncorrectDestSliceLengths);
        }
        let total = pow2_exec(subcube_vars);
        let r_count = query.expansion.len();
        let ghost rem: int = pow2((self.n_vars - query.n_vars) as nat);
        proof {
            assert((subcube_index + 1) * total <= rem) by (nonlinear_arith)
                requires
                    total as int == pow2(subcube_vars as nat),
                    subcube_index < pow2((self.n_vars - query.n_vars - subcube_vars) as nat),
                    total >= 1,
                    pow2(subcube_vars as nat) * pow2((self.n_vars - query.n_vars
                        - subcube_vars) as nat) == rem,
            ;
        }
        let mut i: usize = 0;
        while i < total
            invariant
                self.wf(),
                query.wf(),
                query.n_vars <= self.n_vars,
                count as int == packed_count(subcube_vars as nat),
                total as int == pow2(subcube_vars as nat),
                total <= 4 * count,
                r_count == query.expansion.len(),
                r_count as int == pow2(query.n_vars as nat),
                rem == pow2((self.n_vars - query.n_vars) as nat),
                rem * pow2(query.n_vars as nat) == pow2(self.n_vars as nat),
                (subcube_index + 1) * total <= rem,
                pow2(self.n_vars as nat) <= usize::MAX,
                pow2(self.n_vars as nat) <= 4 * packed_count(self.n_vars as nat),
                i <= total,
                dst.len() == count,
                forall|t: int|
                    0 <= t < i ==> ml_scalar(dst@, t) == contract_low(
                        self.evals@,
                        query.expansion@,
                        subcube_index * total + t,
                        r_count as int,
                    ),
            decreases total - i,
        {
            proof {
                assert(subcube_index * total + i < rem) by (nonlinear_arith)
                    requires
                        i < total,
                        (subcube_index + 1) * total <= rem,
                ;
                lemma_pow2_pos(query.n_vars as nat);
                lemma_pow2_pos((self.n_vars - query.n_vars) as nat);
                assert(rem <= pow2(self.n_vars as nat)) by (nonlinear_arith)
                    requires
                        rem * pow2(query.n_vars as nat) == pow2(self.n_vars as nat),
                        pow2(query.n_vars as nat) >= 1,
                        rem >= 1,
                ;
            }
            let y: usize = subcube_index * total + i;
            proof {
                assert((y + 1) * r_count <= rem * r_count) by (nonlinear_arith)
                    requires
                        y < rem,
                        r_count >= 1,
                ;
            }
            let mut acc: u128 = 0;
            let mut t: usize = 0;
            while t < r_count
                invariant
                    self.wf(),
                    query.wf(),
                    r_count == query.expansion.len(),
                    rem * pow2(query.n_vars as nat) == pow2(self.n_vars as nat),
                    r_count as int == pow2(query.n_vars as nat),
                    (y + 1) * r_count <= rem * r_count,
                    pow2(self.n_vars as nat) <= usize::MAX,
                    pow2(self.n_vars as nat) <= 4 * packed_count(self.n_vars as nat),
                    t <= r_count,
                    acc == contract_low(self.evals@, query.expansion@, y as int, t as int),
                decreases r_count - t,
            {
                proof {
                    assert(y * r_count + t < pow2(self.n_vars as nat)) by (nonlinear_arith)
                        requires
                            t < r_count,
                            (y + 1) * r_count <= rem * r_count,
                            rem * pow2(query.n_vars as nat) == pow2(self.n_vars as nat),
                            r_count as int == pow2(query.n_vars as nat),
                    ;
                    assert(0 <= (y * r_count + t) / 4 < packed_count(self.n_vars as nat) && 0 <= (
                    y * r_count + t) % 4 < 4) by (nonlinear_arith)
                        requires
                            0 <= y * r_count + t < pow2(self.n_vars as nat),
                            pow2(self.n_vars as nat) <= 4 * packed_count(self.n_vars as nat),
                    ;
                }
                let src: usize = y * r_count + t;
                acc = acc ^ mul128(query.expansion[t], self.evals[src / 4].get(src % 4));
                t = t + 1;
            }
            let mut p = dst[i / 4];
            p.set(i % 4, acc);
            let ghost dst_pre = dst@;
            dst.set(i / 4, p);
            proof {
                assert forall|t2: int| 0 <= t2 < i + 1 implies ml_scalar(dst@, t2)
                    == contract_low(
                    self.evals@, query.expansion@, subcube_index * total + t2, r_count as int) by {
                    assert(0 <= t2 / 4 < count && 0 <= t2 % 4 < 4) by (nonlinear_arith)
                        requires
                            0 <= t2 < total,
                            total <= 4 * count,
                    ;
                    if t2 < i {
                        assert(ml_scalar(dst_pre, t2) == contract_low(
                            self.evals@,
                            query.expansion@,
                            subcube_index * total + t2,
                            r_count as int,
                        ));
                    }
                    if t2 == i {
                        assert((i / 4) as int == t2 / 4);
                        assert(((i % 4) as int) == t2 % 4);
                        assert(dst@[t2 / 4] == p);
                        assert(p.lane(t2 % 4) == acc);
                    } else {
                        if t2 / 4 != (i / 4) as int {
                            assert(dst@[t2 / 4] == dst_pre[t2 / 4]);
                        } else {
                            assert(t2 % 4 != i as int % 4) by (nonlinear_arith)
                                requires
                                    t2 / 4 == i as int / 4,
                                    0 <= t2 < i,
                            ;
                            assert(dst@[t2 / 4] == p);
                            assert(p.lane(t2 % 4) == dst_pre[t2 / 4].lane(t2 % 4));
                        }
                    }
                }
            }
            i = i + 1;
        }
        Ok(())
    }

    /// Project by contracting the last `query.n_vars` variables against
    /// the tensor expansion, then write the `subcube_index`-th subcube of
    /// the remaining variables: scalar `i` of the destination becomes
    /// `sum_t expansion[t] * scalar(t * 2^m + subcube_index * 2^subcube_vars + i)`
    /// with `m` the number of remaining variables.
    pub fn subcube_partial_high_evals(
        &self,
        query: &MultilinearQuery,
        subcube_vars: usize,
        subcube_index: usize,
        dst: &mut Vec<Packed>,
    ) -> (r: Result<(), Error>)
        requires
            self.wf(),
            query.wf(),
            query.n_vars <= self.n_vars,
            subcube_vars <= self.n_vars - query.n_vars,
            subcube_index < pow2((self.n_vars - query.n_vars - subcube_vars) as nat),
        ensures
            (r is Ok) <==> old(dst).len() as int == packed_count(subcube_vars as nat),
            r is Err ==> r->Err_0 == Error::IncorrectDestSliceLengths && final(dst)@ == old(
                dst)@,
            r is Ok ==> final(dst).len() == old(dst).len() && (forall|i: int|
                0 <= i < pow2(subcube_vars as nat) ==> ml_scalar(final(dst)@, i)
                    == contract_high(
                    self.evals@,
                    query.expansion@,
                    pow2((self.n_vars - query.n_vars) as nat),
                    subcube_index * pow2(subcube_vars as nat) + i,
                    pow2(query.n_vars as nat),
                )),
    {
        proof {
            lemma_packed_count(subcube_vars as nat);
            lemma_packed_count(self.n_vars as nat);
            lemma_pow2_pos(subcube_vars as nat);
            lemma_pow2_pos(query.n_vars as nat);
            lemma_pow2_le(subcube_vars as nat, self.n_vars as nat);
            lemma_pow2_le((self.n_vars - query.n_vars) as nat, self.n_vars as nat);
            lemma_pow2_add(subcube_vars as nat, (self.n_vars - query.n_vars
                - subcube_vars) as nat);
            lemma_pow2_add(
                (self.n_vars - query.n_vars) as nat,
                query.n_vars as nat,
            );
        }
        let count = packed_count_exec(subcube_vars);
        if dst.len() != count {
            return Err(Error::IncorrectDestSliceLengths);
        }
        let total = pow2_exec(subcube_vars);
        let r_count = query.expansion.len();
        let rem = pow2_exec(self.n_vars - query.n_vars);
        proof {
            assert((subcube_index + 1) * total <= rem) by (nonlinear_arith)
                requires
                    total as int == pow2(subcube_vars as nat),
                    subcube_index < pow2((self.n_vars - query.n_vars - subcube_vars) as nat),
                    total >= 1,
                    pow2(subcube_vars as nat) * pow2((self.n_vars - query.n_vars
                        - subcube_vars) as nat) == rem as int,
            ;
        }
        let mut i: usize = 0;
        while i < total
            invariant
                self.wf(),
                query.wf(),
                query.n_vars <= self.n_vars,
                count as int == packed_count(subcube_vars as nat),
                total as int == pow2(subcube_vars as nat),
                total <= 4 * count,
                r_count == query.expansion.len(),
                r_count as int == pow2(query.n_vars as nat),
                rem as int == pow2((self.n_vars - query.n_vars) as nat),
                rem as int * pow2(query.n_vars as nat) == pow2(self.n_vars as nat),
                (subcube_index + 1) * total <= rem,
                pow2(self.n_vars as nat) <= usize::MAX,
                pow2(self.n_vars as nat) <= 4 * packed_count(self.n_vars as nat),
                i <= total,
                dst.len() == count,
                forall|t: int|
                    0 <= t < i ==> ml_scalar(dst@, t) == contract_high(
                        self.evals@,
                        query.expansion@,
                        rem as int,
                        subcube_index * total + t,
                        r_count as int,
                    ),
            decreases total - i,
        {
            proof {
                assert(subcube_index * total + i < rem) by (nonlinear_arith)
                    requires
                        i < total,
                        (subcube_index + 1) * total <= rem,
                ;
            }
            let y: usize = subcube_index * total + i;
            let mut acc: u128 = 0;
            let mut t: usize = 0;
            while t < r_count
                invariant
                    self.wf(),
                    query.wf(),
                    r_count == query.expansion.len(),
                    rem as int * pow2(query.n_vars as nat) == pow2(self.n_vars as nat),
                    r_count as int == pow2(query.n_vars as nat),
                    y < rem,
                    pow2(self.n_vars as nat) <= usize::MAX,
                    pow2(self.n_vars as nat) <= 4 * packed_count(self.n_vars as nat),
                    t <= r_count,
                    acc == contract_high(
                        self.evals@, query.expansion@, rem as int, y as int, t as int),
                decreases r_count - t,
            {
                proof {
                    assert(t * rem + y < pow2(self.n_vars as nat)) by (nonlinear_arith)
                        requires
                            t < r_count,
                            y < rem,
                            rem as int * pow2(query.n_vars as nat) == pow2(self.n_vars as nat),
                            r_count as int == pow2(query.n_vars as nat),
                    ;
                    assert(0 <= (t * rem + y) / 4 < packed_count(self.n_vars as nat) && 0 <= (t
                        * rem + y) % 4 < 4) by (nonlinear_arith)
                        requires
                            0 <= t * rem + y < pow2(self.n_vars as nat),
                            pow2(self.n_vars as nat) <= 4 * packed_count(self.n_vars as nat),
                    ;
                }
                let src: usize = t * rem + y;
                acc = acc ^ mul128(query.expansion[t], self.evals[src / 4].get(src % 4));
                t = t + 1;
            }
            let mut p = dst[i / 4];
            p.set(i % 4, acc);
            let ghost dst_pre = dst@;
            dst.set(i / 4, p);
            proof {
                assert forall|t2: int| 0 <= t2 < i + 1 implies ml_scalar(dst@, t2)
                    == contract_high(
                    self.evals@,
                    query.expansion@,
                    rem as int,
                    subcube_index * total + t2,
                    r_count as int,
                ) by {
                    assert(0 <= t2 / 4 < count && 0 <= t2 % 4 < 4) by (nonlinear_arith)
                        requires
                            0 <= t2 < total,
                            total <= 4 * count,
                    ;
                    if t2 < i {
                        assert(ml_scalar(dst_pre, t2) == contract_high(
                            self.evals@,
                            query.expansion@,
                            rem as int,
                            subcube_index * total + t2,
                            r_count as int,
                        ));
                    }
                    if t2 == i {
                        assert((i / 4) as int == t2 / 4);
                        assert(((i % 4) as int) == t2 % 4);
                        assert(dst@[t2 / 4] == p);
                        assert(p.lane(t2 % 4) == acc);
                    } else {
                        if t2 / 4 != (i / 4) as int {
                            assert(dst@[t2 / 4] == dst_pre[t2 / 4]);
                        } else {
                            assert(t2 % 4 != i as int % 4) by (nonlinear_arith)
                                requires
                                    t2 / 4 == i as int / 4,
                                    0 <= t2 < i,
                            ;
                            assert(dst@[t2 / 4] == p);
                            assert(p.lane(t2 % 4) == dst_pre[t2 / 4].lane(t2 % 4));
                        }
                    }
                }
            }
            i = i + 1;
        }
        Ok(())
    }
}

} // verus!

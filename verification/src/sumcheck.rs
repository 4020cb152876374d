//! The sumcheck round-evaluation engine: per-round univariate evaluations
//! of composite polynomials over the boolean hypercube, for both
//! evaluation orders, with subcube batching over packed columns.
//!
//! The `n - 1` unfixed variables of a round are split into `subcube_vars`
//! inner variables and `index_vars` outer variables. For every outer
//! subcube index, the engine reads the two restrictions of every
//! multilinear (current variable fixed to 0 and to 1), materializes the
//! evaluations at every scheduled point of the univariate schedule
//! (0, 1, the point at infinity, then the finite points), hands the rows
//! to each evaluator, and accumulates packed sums which a final reduction
//! folds to scalars.

use vstd::prelude::*;

use crate::composition::{ArithCircuitPoly, CompositionPoly};
use crate::error::Error;
use crate::expr::{eval_expr, eval_expr_inf};
use crate::field::b128_mul_b8;
use crate::multilinear::{
    contract_high, contract_low, lemma_packed_count, lemma_pow2_add, lemma_pow2_gt,
    lemma_pow2_le, lemma_pow2_pos, ml_scalar, packed_count, packed_count_exec, padded_scalar,
    pow2, pow2_exec, MultilinearCol, MultilinearQuery,
};
use crate::packed::{concat_lane, unzip, Packed};

verus! {

/// The univariate round evaluations of one composite, at the scheduled
/// points.
#[derive(Debug)]
pub struct RoundEvals(pub Vec<u128>);

/// Whether sumcheck rounds fix the lowest or the highest remaining
/// variable.
#[derive(Debug, Clone, Copy, PartialEq, Eq, Structural)]
pub enum EvaluationOrder {
    LowToHigh,
    HighToLow,
}

/// A multilinear as the round engine sees it: still a transparent column
/// with a pending tensor query over the pre-switchover challenges, or
/// already folded into large-field evaluations with a constant suffix
/// covering the unmaterialized tail.
#[derive(Debug)]
pub enum SumcheckMultilinear {
    Transparent { multilinear: MultilinearCol },
    Folded { large_field_folded_evals: Vec<Packed>, suffix_eval: u128 },
}

/// Validity of a sumcheck multilinear for a round over `n_vars` variables
/// with a `tq_vars`-variate pending tensor query: a transparent column
/// carries the query variables on top of the round variables.
pub open spec fn sm_wf(ml: SumcheckMultilinear, tq_vars: nat, n_vars: nat) -> bool {
    match ml {
        SumcheckMultilinear::Transparent { multilinear } => multilinear.wf()
            && multilinear.n_vars as nat == n_vars + tq_vars,
        SumcheckMultilinear::Folded { .. } => true,
    }
}

/// Scalar `idx` of the current (possibly contracted) multilinear.
pub open spec fn sm_scalar(
    ml: SumcheckMultilinear,
    exp: Seq<u128>,
    tq_vars: nat,
    low: bool,
    idx: int,
) -> u128 {
    match ml {
        SumcheckMultilinear::Transparent { multilinear } => {
            if tq_vars == 0 {
                multilinear.scalar(idx)
            } else if low {
                contract_low(multilinear.evals@, exp, idx, pow2(tq_vars))
            } else {
                contract_high(
                    multilinear.evals@,
                    exp,
                    pow2((multilinear.n_vars - tq_vars) as nat),
                    idx,
                    pow2(tq_vars),
                )
            }
        },
        SumcheckMultilinear::Folded { large_field_folded_evals, suffix_eval } => padded_scalar(
            large_field_folded_evals@,
            suffix_eval,
            idx,
        ),
    }
}

/// A way to obtain the two restrictions of a multilinear during a
/// sumcheck round: writing, for every position of the chosen subcube of
/// the `n - 1` unfixed variables, the evaluation with the current
/// variable fixed to 0 and to 1.
pub trait SumcheckMultilinearAccess: Sized {
    /// The scalar the access must produce: the evaluation at subcube
    /// position `pos` with the current variable fixed to `one`, over
    /// `n1 = n - 1` unfixed variables.
    spec fn spec_value(
        &self,
        ml: SumcheckMultilinear,
        exp: Seq<u128>,
        tq_vars: nat,
        n1: nat,
        one: bool,
        pos: int,
    ) -> u128;

    /// Required scratch length, if the access needs scratch space.
    spec fn spec_scratch_ok(&self, scratch_len: int, subcube_vars: nat) -> bool;

    /// Whether the access needs scratch space at all.
    spec fn spec_needs_scratch(&self) -> bool;

    /// The size of scratch space used by `subcube_evaluations`, if any.
    fn scratch_space_len(&self, subcube_vars: usize) -> (r: Option<usize>)
        requires
            pow2((subcube_vars + 1) as nat) <= usize::MAX,
        ensures
            (r is Some) <==> self.spec_needs_scratch(),
            match r {
                Option::Some(len) => self.spec_scratch_ok(len as int, subcube_vars as nat),
                Option::None => self.spec_scratch_ok(0, subcube_vars as nat),
            },
    ;

    /// Fill `evals_0` and `evals_1` with the two restrictions of the
    /// subcube at `subcube_index`, where `subcube_vars + index_vars`
    /// equals the `n - 1` unfixed variables.
    fn subcube_evaluations(
        &self,
        multilinear: &SumcheckMultilinear,
        subcube_vars: usize,
        subcube_index: usize,
        index_vars: usize,
        tensor_query: &MultilinearQuery,
        scratch_space: &mut Vec<Packed>,
        evals_0: &mut Vec<Packed>,
        evals_1: &mut Vec<Packed>,
    ) -> (r: Result<(), Error>)
        requires
            tensor_query.wf(),
            sm_wf(
                *multilinear,
                tensor_query.n_vars as nat,
                (subcube_vars + index_vars + 1) as nat,
            ),
            subcube_index < pow2(index_vars as nat),
            pow2((subcube_vars + index_vars + 1 + tensor_query.n_vars) as nat) <= usize::MAX,
        ensures
            (r is Ok) <==> (old(evals_0).len() as int == packed_count(subcube_vars as nat) && old(
                evals_1,
            ).len() as int == packed_count(subcube_vars as nat) && self.spec_scratch_ok(
                old(scratch_space).len() as int,
                subcube_vars as nat,
            )),
            final(scratch_space).len() == old(scratch_space).len(),
            r is Err ==> r->Err_0 == (if !self.spec_scratch_ok(
                old(scratch_space).len() as int,
                subcube_vars as nat,
            ) {
                Error::NoScratchSpace
            } else {
                Error::IncorrectDestSliceLengths
            }),
            r is Err ==> final(evals_0)@ == old(evals_0)@ && final(evals_1)@ == old(evals_1)@
                && final(scratch_space)@ == old(scratch_space)@,
            r is Ok ==> {
                &&& final(evals_0).len() == old(evals_0).len()
                &&& final(evals_1).len() == old(evals_1).len()
                &&& (forall|i: int|
                    0 <= i < pow2(subcube_vars as nat) ==> ml_scalar(final(evals_0)@, i)
                        == self.spec_value(
                        *multilinear,
                        tensor_query.expansion@,
                        tensor_query.n_vars as nat,
                        (subcube_vars + index_vars) as nat,
                        false,
                        subcube_index * pow2(subcube_vars as nat) + i,
                    ))
                &&& (forall|i: int|
                    0 <= i < pow2(subcube_vars as nat) ==> ml_scalar(final(evals_1)@, i)
                        == self.spec_value(
                        *multilinear,
                        tensor_query.expansion@,
                        tensor_query.n_vars as nat,
                        (subcube_vars + index_vars) as nat,
                        true,
                        subcube_index * pow2(subcube_vars as nat) + i,
                    ))
            },
    ;
}

/// Access that fixes the lowest remaining variable: the evaluations at 0
/// and 1 are interleaved at stride 1, so a double-size subcube is read
/// into scratch space and then de-interleaved.
#[derive(Debug, Clone, Copy)]
pub struct LowToHighAccess;

/// Access that fixes the highest remaining variable: two independent
/// subcube reads at `subcube_index` and `subcube_index + 2^index_vars`.
#[derive(Debug, Clone, Copy)]
pub struct HighToLowAccess;

impl SumcheckMultilinearAccess for LowToHighAccess {
    open spec fn spec_value(
        &self,
        ml: SumcheckMultilinear,
        exp: Seq<u128>,
        tq_vars: nat,
        n1: nat,
        one: bool,
        pos: int,
    ) -> u128 {
        sm_scalar(
            ml,
            exp,
            tq_vars,
            true,
            2 * pos + if one {
                1int
            } else {
                0int
            },
        )
    }

    open spec fn spec_scratch_ok(&self, scratch_len: int, subcube_vars: nat) -> bool {
        scratch_len == packed_count((subcube_vars + 1) as nat)
    }

    open spec fn spec_needs_scratch(&self) -> bool {
        true
    }

    fn scratch_space_len(&self, subcube_vars: usize) -> (r: Option<usize>) {
        proof {
            lemma_pow2_gt((subcube_vars + 1) as nat);
        }
        Some(packed_count_exec(subcube_vars + 1))
    }

    fn subcube_evaluations(
        &self,
        multilinear: &SumcheckMultilinear,
        subcube_vars: usize,
        subcube_index: usize,
        index_vars: usize,
        tensor_query: &MultilinearQuery,
        scratch_space: &mut Vec<Packed>,
        evals_0: &mut Vec<Packed>,
        evals_1: &mut Vec<Packed>,
    ) -> (r: Result<(), Error>) {
        proof {
            lemma_packed_count(subcube_vars as nat);
            lemma_packed_count((subcube_vars + 1) as nat);
            lemma_pow2_pos(subcube_vars as nat);
            lemma_pow2_le(
                (subcube_vars + 1) as nat,
                (subcube_vars + index_vars + 1 + tensor_query.n_vars) as nat,
            );
            lemma_pow2_gt((subcube_vars + 1) as nat);
            lemma_pow2_add(1, subcube_vars as nat);
        }
        let count = packed_count_exec(subcube_vars);
        let scount = packed_count_exec(subcube_vars + 1);
        if scratch_space.len() != scount {
            return Err(Error::NoScratchSpace);
        }
        if evals_0.len() != count || evals_1.len() != count {
            return Err(Error::IncorrectDestSliceLengths);
        }
        let ghost tqv = tensor_query.n_vars as nat;
        let ghost exp = tensor_query.expansion@;
        let ghost n1 = (subcube_vars + index_vars) as nat;
        // Fill scratch with the double-size subcube: scalar `j` becomes
        // the current multilinear's scalar `subcube_index * 2^(sv+1) + j`.
        match multilinear {
            SumcheckMultilinear::Transparent { multilinear: m } => {
                if tensor_query.n_vars() == 0 {
                    let res = m.subcube_evals(subcube_vars + 1, subcube_index, scratch_space);
                    proof {
                        assert(res is Ok);
                    }
                } else {
                    let res = m.subcube_partial_low_evals(
                        tensor_query,
                        subcube_vars + 1,
                        subcube_index,
                        scratch_space,
                    );
                    proof {
                        assert(res is Ok);
                    }
                }
            },
            SumcheckMultilinear::Folded { large_field_folded_evals: evals, suffix_eval } => {
                let total = pow2_exec(subcube_vars + 1);
                proof {
                    lemma_pow2_add((subcube_vars + 1) as nat, index_vars as nat);
                    lemma_pow2_le(
                        (subcube_vars + 1 + index_vars) as nat,
                        (subcube_vars + index_vars + 1 + tensor_query.n_vars) as nat,
                    );
                    assert((subcube_index + 1) * total <= pow2(
                        (subcube_vars + 1 + index_vars) as nat,
                    )) by (nonlinear_arith)
                        requires
                            total as int == pow2((subcube_vars + 1) as nat),
                            subcube_index < pow2(index_vars as nat),
                            total >= 1,
                            pow2((subcube_vars + 1) as nat) * pow2(index_vars as nat) == pow2(
                                (subcube_vars + 1 + index_vars) as nat),
                    ;
                    assert((subcube_index + 1) * total == subcube_index * total + total) by (
                    nonlinear_arith);
                }
                let base: usize = subcube_index * total;
                let mut j: usize = 0;
                while j < total
                    invariant
                        total as int == pow2((subcube_vars + 1) as nat),
                        total <= 4 * scount,
                        scount as int == packed_count((subcube_vars + 1) as nat),
                        base == subcube_index * total,
                        base + total <= usize::MAX,
                        j <= total,
                        scratch_space.len() == scount,
                        forall|t: int|
                            0 <= t < j ==> ml_scalar(scratch_space@, t) == padded_scalar(
                                evals@, *suffix_eval, base + t),
                    decreases total - j,
                {
                    let idx: usize = base + j;
                    let s: u128 = if idx / 4 < evals.len() {
                        evals[idx / 4].get(idx % 4)
                    } else {
                        *suffix_eval
                    };
                    proof {
                        assert((idx / 4 < evals@.len()) <==> (idx < evals@.len() * 4)) by (
                        nonlinear_arith)
                            requires
                                idx >= 0,
                        ;
                    }
                    let mut p = scratch_space[j / 4];
                    p.set(j % 4, s);
                    let ghost pre = scratch_space@;
                    scratch_space.set(j / 4, p);
                    proof {
                        assert forall|t: int| 0 <= t < j + 1 implies ml_scalar(
                            scratch_space@, t) == padded_scalar(evals@, *suffix_eval, base + t) by {
                            assert(0 <= t / 4 < scount && 0 <= t % 4 < 4) by (nonlinear_arith)
                                requires
                                    0 <= t < total,
                                    total <= 4 * scount,
                            ;
                            if t < j {
                                assert(ml_scalar(pre, t) == padded_scalar(
                                    evals@, *suffix_eval, base + t));
                                if t / 4 == (j / 4) as int {
                                    assert(t % 4 != j as int % 4) by (nonlinear_arith)
                                        requires
                                            t / 4 == j as int / 4,
                                            0 <= t < j,
                                    ;
                                    assert(scratch_space@[t / 4] == p);
                                    assert(p.lane(t % 4) == pre[t / 4].lane(t % 4));
                                } else {
                                    assert(scratch_space@[t / 4] == pre[t / 4]);
                                }
                            } else {
                                assert((j / 4) as int == t / 4);
                                assert(((j % 4) as int) == t % 4);
                                assert(scratch_space@[t / 4] == p);
                                assert(p.lane(t % 4) == s);
                            }
                        }
                    }
                    j = j + 1;
                }
            },
        }
        // Evaluations at 0 and 1 are interleaved at stride 1; de-interleave.
        let ghost scratch_snap = scratch_space@;
        let ghost ml_snap = *multilinear;
        proof {
            assert forall|t: int|
                0 <= t < pow2((subcube_vars + 1) as nat) implies ml_scalar(scratch_snap, t)
                == sm_scalar(
                ml_snap,
                exp,
                tqv,
                true,
                subcube_index * pow2((subcube_vars + 1) as nat) + t,
            ) by {}
        }
        let mut e: usize = 0;
        while e < count
            invariant
                count as int == packed_count(subcube_vars as nat),
                scount as int == packed_count((subcube_vars + 1) as nat),
                pow2(subcube_vars as nat) <= 4 * count,
                2 * pow2(subcube_vars as nat) == pow2((subcube_vars + 1) as nat),
                pow2((subcube_vars + 1) as nat) <= 4 * scount,
                scratch_space.len() == scount,
                scratch_space@ == scratch_snap,
                evals_0.len() == count,
                evals_1.len() == count,
                e <= count,
                forall|i: int|
                    0 <= i < e * 4 && i < pow2(subcube_vars as nat) ==> ml_scalar(evals_0@, i)
                        == ml_scalar(scratch_snap, 2 * i),
                forall|i: int|
                    0 <= i < e * 4 && i < pow2(subcube_vars as nat) ==> ml_scalar(evals_1@, i)
                        == ml_scalar(scratch_snap, 2 * i + 1),
            decreases count - e,
        {
            let (a, b) = if scount == 1 {
                (scratch_space[0], Packed::zero())
            } else {
                proof {
                    lemma_packed_count(subcube_vars as nat);
                    lemma_packed_count((subcube_vars + 1) as nat);
                    assert(subcube_vars >= 2);
                    assert(4 * scount == pow2((subcube_vars + 1) as nat));
                    assert(4 * count == pow2(subcube_vars as nat));
                    assert(scount == 2 * count);
                }
                (scratch_space[2 * e], scratch_space[2 * e + 1])
            };
            let (d0, d1) = unzip(a, b, 0);
            let ghost e0_pre = evals_0@;
            let ghost e1_pre = evals_1@;
            evals_0.set(e, d0);
            evals_1.set(e, d1);
            proof {
                assert forall|i: int|
                    0 <= i < (e + 1) * 4 && i < pow2(subcube_vars as nat) implies ml_scalar(
                    evals_0@, i) == ml_scalar(scratch_snap, 2 * i) && ml_scalar(evals_1@, i)
                    == ml_scalar(scratch_snap, 2 * i + 1) by {
                    if i >= e * 4 {
                        let l = i - e * 4;
                        assert(i / 4 == e as int && i % 4 == l) by (nonlinear_arith)
                            requires
                                e * 4 <= i < (e + 1) * 4,
                                l == i - e * 4,
                        ;
                        assert(evals_0@[e as int] == d0 && evals_1@[e as int] == d1);
                        assert(crate::packed::block_len(0) == 1);
                        assert((l / 1) * 2 * 1 + (l % 1) == 2 * l && (l / 1) * 2 * 1 + (l % 1)
                            + 1 == 2 * l + 1) by (nonlinear_arith)
                            requires
                                l >= 0,
                        ;
                        assert(d0.lane(l) == concat_lane(a, b, 2 * l) && d1.lane(l)
                            == concat_lane(a, b, 2 * l + 1));
                        if scount == 1 {
                            assert((2 * i) / 4 == 0 && (2 * i) % 4 == 2 * l && (2 * i + 1) / 4
                                == 0 && (2 * i + 1) % 4 == 2 * l + 1) by (nonlinear_arith)
                                requires
                                    i == l,
                                    0 <= l < 2,
                            ;
                        } else {
                            if l < 2 {
                                assert((2 * i) / 4 == 2 * e && (2 * i) % 4 == 2 * l && (2 * i
                                    + 1) / 4 == 2 * e && (2 * i + 1) % 4 == 2 * l + 1) by (
                                nonlinear_arith)
                                    requires
                                        i == e * 4 + l,
                                        0 <= l < 2,
                                ;
                            } else {
                                assert((2 * i) / 4 == 2 * e + 1 && (2 * i) % 4 == 2 * (l - 2)
                                    && (2 * i + 1) / 4 == 2 * e + 1 && (2 * i + 1) % 4 == 2 * (l
                                    - 2) + 1) by (nonlinear_arith)
                                    requires
                                        i == e * 4 + l,
                                        2 <= l < 4,
                                ;
                            }
                        }
                    } else {
                        assert(i / 4 < e as int) by (nonlinear_arith)
                            requires
                                0 <= i < e * 4,
                        ;
                        assert(evals_0@[i / 4] == e0_pre[i / 4] && evals_1@[i / 4] == e1_pre[i
                            / 4]);
                        assert(ml_scalar(e0_pre, i) == ml_scalar(scratch_snap, 2 * i));
                        assert(ml_scalar(e1_pre, i) == ml_scalar(scratch_snap, 2 * i + 1));
                    }
                }
            }
            e = e + 1;
        }
        proof {
            assert forall|i: int|
                0 <= i < pow2(subcube_vars as nat) implies ml_scalar(evals_0@, i)
                == self.spec_value(
                ml_snap, exp, tqv, n1, false, subcube_index * pow2(subcube_vars as nat) + i)
                && ml_scalar(evals_1@, i) == self.spec_value(
                ml_snap, exp, tqv, n1, true, subcube_index * pow2(subcube_vars as nat) + i) by {
                let pos = subcube_index * pow2(subcube_vars as nat) + i;
                assert(2 * pos == subcube_index * pow2((subcube_vars + 1) as nat) + 2 * i && 2
                    * pos + 1 == subcube_index * pow2((subcube_vars + 1) as nat) + 2 * i + 1) by (
                nonlinear_arith)
                    requires
                        pos == subcube_index * pow2(subcube_vars as nat) + i,
                        2 * pow2(subcube_vars as nat) == pow2((subcube_vars + 1) as nat),
                ;
            }
        }
        Ok(())
    }
}


impl SumcheckMultilinearAccess for HighToLowAccess {
    open spec fn spec_value(
        &self,
        ml: SumcheckMultilinear,
        exp: Seq<u128>,
        tq_vars: nat,
        n1: nat,
        one: bool,
        pos: int,
    ) -> u128 {
        sm_scalar(
            ml,
            exp,
            tq_vars,
            false,
            pos + if one {
                pow2(n1)
            } else {
                0int
            },
        )
    }

    open spec fn spec_scratch_ok(&self, scratch_len: int, subcube_vars: nat) -> bool {
        true
    }

    open spec fn spec_needs_scratch(&self) -> bool {
        false
    }

    fn scratch_space_len(&self, subcube_vars: usize) -> (r: Option<usize>) {
        None
    }

    fn subcube_evaluations(
        &self,
        multilinear: &SumcheckMultilinear,
        subcube_vars: usize,
        subcube_index: usize,
        index_vars: usize,
        tensor_query: &MultilinearQuery,
        scratch_space: &mut Vec<Packed>,
        evals_0: &mut Vec<Packed>,
        evals_1: &mut Vec<Packed>,
    ) -> (r: Result<(), Error>) {
        proof {
            lemma_packed_count(subcube_vars as nat);
            lemma_pow2_pos(subcube_vars as nat);
            lemma_pow2_pos(index_vars as nat);
            lemma_pow2_gt((subcube_vars + 1) as nat);
            lemma_pow2_le(
                subcube_vars as nat,
                (subcube_vars + index_vars + 1 + tensor_query.n_vars) as nat,
            );
            lemma_pow2_le(
                (subcube_vars + index_vars + 1) as nat,
                (subcube_vars + index_vars + 1 + tensor_query.n_vars) as nat,
            );
            lemma_pow2_le(
                index_vars as nat,
                (subcube_vars + index_vars + 1 + tensor_query.n_vars) as nat,
            );
            lemma_pow2_add(subcube_vars as nat, index_vars as nat);
            lemma_pow2_add((subcube_vars + index_vars) as nat, 1);
            lemma_pow2_add(1, (subcube_vars + index_vars) as nat);
        }
        let count = packed_count_exec(subcube_vars);
        if evals_0.len() != count || evals_1.len() != count {
            return Err(Error::IncorrectDestSliceLengths);
        }
        let ghost tqv = tensor_query.n_vars as nat;
        let ghost exp = tensor_query.expansion@;
        let ghost n1 = (subcube_vars + index_vars) as nat;
        proof {
            lemma_pow2_le((index_vars + 1) as nat, (subcube_vars + index_vars + 1
                + tensor_query.n_vars) as nat);
            lemma_pow2_le(
                (subcube_vars + index_vars) as nat,
                (subcube_vars + index_vars + 1 + tensor_query.n_vars) as nat,
            );
            lemma_pow2_add(index_vars as nat, 1);
            assert(pow2(0) == 1);
            assert(pow2(1) == 2);
            assert(pow2((index_vars + 1) as nat) == 2 * pow2(index_vars as nat)) by (
            nonlinear_arith)
                requires
                    pow2(index_vars as nat) * pow2(1) == pow2((index_vars + 1) as nat),
                    pow2(1) == 2,
            ;
            assert(pow2((subcube_vars + index_vars + 1) as nat) == 2 * pow2(
                (subcube_vars + index_vars) as nat,
            )) by (nonlinear_arith)
                requires
                    pow2((subcube_vars + index_vars) as nat) * pow2(1) == pow2(
                        (subcube_vars + index_vars + 1) as nat),
                    pow2(1) == 2,
            ;
        }
        let hi_index: usize = subcube_index + pow2_exec(index_vars);
        proof {
            assert((subcube_index + pow2(index_vars as nat)) * pow2(subcube_vars as nat)
                == subcube_index * pow2(subcube_vars as nat) + pow2(index_vars as nat) * pow2(
                subcube_vars as nat)) by (nonlinear_arith);
            lemma_pow2_add(index_vars as nat, subcube_vars as nat);
            assert(pow2(index_vars as nat) * pow2(subcube_vars as nat) == pow2(n1));
        }
        match multilinear {
            SumcheckMultilinear::Transparent { multilinear: m } => {
                if tensor_query.n_vars() == 0 {
                    let r0 = m.subcube_evals(subcube_vars, subcube_index, evals_0);
                    let r1 = m.subcube_evals(subcube_vars, hi_index, evals_1);
                    proof {
                        assert(r0 is Ok && r1 is Ok);
                    }
                } else {
                    let r0 = m.subcube_partial_high_evals(
                        tensor_query,
                        subcube_vars,
                        subcube_index,
                        evals_0,
                    );
                    let r1 = m.subcube_partial_high_evals(
                        tensor_query,
                        subcube_vars,
                        hi_index,
                        evals_1,
                    );
                    proof {
                        assert(r0 is Ok && r1 is Ok);
                        assert(m.n_vars - tqv == n1 + 1);
                    }
                }
            },
            SumcheckMultilinear::Folded { large_field_folded_evals: evals, suffix_eval } => {
                let total = pow2_exec(subcube_vars);
                proof {
                    assert((subcube_index + 1) * total <= pow2(n1) && (hi_index + 1) * total <= 2
                        * pow2(n1)) by (nonlinear_arith)
                        requires
                            total as int == pow2(subcube_vars as nat),
                            subcube_index < pow2(index_vars as nat),
                            hi_index < 2 * pow2(index_vars as nat),
                            total >= 1,
                            pow2(subcube_vars as nat) * pow2(index_vars as nat) == pow2(
                                (subcube_vars + index_vars) as nat),
                            pow2(n1) == pow2((subcube_vars + index_vars) as nat),
                    ;
                    assert((subcube_index + 1) * total == subcube_index * total + total && (
                    hi_index + 1) * total == hi_index * total + total) by (nonlinear_arith);
                }
                let base0: usize = subcube_index * total;
                let base1: usize = hi_index * total;
                proof {
                    assert(base1 == base0 + pow2(n1)) by (nonlinear_arith)
                        requires
                            base0 == subcube_index * total,
                            base1 == hi_index * total,
                            hi_index == subcube_index + pow2(index_vars as nat),
                            total as int == pow2(subcube_vars as nat),
                            pow2(index_vars as nat) * pow2(subcube_vars as nat) == pow2(n1),
                    ;
                }
                let mut j: usize = 0;
                while j < total
                    invariant
                        total as int == pow2(subcube_vars as nat),
                        total <= 4 * count,
                        count as int == packed_count(subcube_vars as nat),
                        base0 == subcube_index * total,
                        base1 == hi_index * total,
                        base0 + total <= usize::MAX,
                        base1 + total <= usize::MAX,
                        j <= total,
                        evals_0.len() == count,
                        evals_1.len() == count,
                        forall|t: int|
                            0 <= t < j ==> ml_scalar(evals_0@, t) == padded_scalar(
                                evals@, *suffix_eval, base0 + t),
                        forall|t: int|
                            0 <= t < j ==> ml_scalar(evals_1@, t) == padded_scalar(
                                evals@, *suffix_eval, base1 + t),
                    decreases total - j,
                {
                    let idx0: usize = base0 + j;
                    let idx1: usize = base1 + j;
                    let s0: u128 = if idx0 / 4 < evals.len() {
                        evals[idx0 / 4].get(idx0 % 4)
                    } else {
                        *suffix_eval
                    };
                    let s1: u128 = if idx1 / 4 < evals.len() {
                        evals[idx1 / 4].get(idx1 % 4)
                    } else {
                        *suffix_eval
                    };
                    proof {
                        assert(((idx0 / 4 < evals@.len()) <==> (idx0 < evals@.len() * 4)) && ((
                        idx1 / 4 < evals@.len()) <==> (idx1 < evals@.len() * 4))) by (
                        nonlinear_arith)
                            requires
                                idx0 >= 0,
                                idx1 >= 0,
                        ;
                    }
                    let mut p0 = evals_0[j / 4];
                    p0.set(j % 4, s0);
                    let mut p1 = evals_1[j / 4];
                    p1.set(j % 4, s1);
                    let ghost pre0 = evals_0@;
                    let ghost pre1 = evals_1@;
                    evals_0.set(j / 4, p0);
                    evals_1.set(j / 4, p1);
                    proof {
                        assert forall|t: int| 0 <= t < j + 1 implies ml_scalar(evals_0@, t)
                            == padded_scalar(evals@, *suffix_eval, base0 + t) && ml_scalar(
                            evals_1@, t) == padded_scalar(evals@, *suffix_eval, base1 + t) by {
                            assert(0 <= t / 4 < count && 0 <= t % 4 < 4) by (nonlinear_arith)
                                requires
                                    0 <= t < total,
                                    total <= 4 * count,
                            ;
                            if t < j {
                                assert(ml_scalar(pre0, t) == padded_scalar(
                                    evals@, *suffix_eval, base0 + t) && ml_scalar(pre1, t)
                                    == padded_scalar(evals@, *suffix_eval, base1 + t));
                                if t / 4 == (j / 4) as int {
                                    assert(t % 4 != j as int % 4) by (nonlinear_arith)
                                        requires
                                            t / 4 == j as int / 4,
                                            0 <= t < j,
                                    ;
                                    assert(evals_0@[t / 4] == p0 && evals_1@[t / 4] == p1);
                                    assert(p0.lane(t % 4) == pre0[t / 4].lane(t % 4)
                                        && p1.lane(t % 4) == pre1[t / 4].lane(t % 4));
                                } else {
                                    assert(evals_0@[t / 4] == pre0[t / 4] && evals_1@[t / 4]
                                        == pre1[t / 4]);
                                }
                            } else {
                                assert((j / 4) as int == t / 4);
                                assert(((j % 4) as int) == t % 4);
                                assert(evals_0@[t / 4] == p0 && evals_1@[t / 4] == p1);
                                assert(p0.lane(t % 4) == s0 && p1.lane(t % 4) == s1);
                            }
                        }
                    }
                    j = j + 1;
                }
            },
        }
        proof {
            assert forall|i: int|
                0 <= i < pow2(subcube_vars as nat) implies ml_scalar(evals_0@, i)
                == self.spec_value(
                *multilinear, exp, tqv, n1, false, subcube_index * pow2(subcube_vars as nat) + i)
                && ml_scalar(evals_1@, i) == self.spec_value(
                *multilinear, exp, tqv, n1, true, subcube_index * pow2(subcube_vars as nat)
                    + i) by {
                let pos = subcube_index * pow2(subcube_vars as nat) + i;
                assert(hi_index * pow2(subcube_vars as nat) + i == pos + pow2(n1)) by (
                nonlinear_arith)
                    requires
                        pos == subcube_index * pow2(subcube_vars as nat) + i,
                        hi_index == subcube_index + pow2(index_vars as nat),
                        pow2(index_vars as nat) * pow2(subcube_vars as nat) == pow2(n1),
                ;
            }
        }
        Ok(())
    }
}


/// Evaluations of one multilinear over one subcube: the two restrictions
/// and a buffer for the interpolated point. Per-worker scratch state.
#[derive(Debug)]
pub struct MultilinearEvals {
    pub evals_0: Vec<Packed>,
    pub evals_1: Vec<Packed>,
    pub evals_z: Vec<Packed>,
}

/// A zeroed packed buffer of the given length.
fn zeroed_buf(len: usize) -> (r: Vec<Packed>)
    ensures
        r.len() == len,
    decreases len,
{
    let mut out: Vec<Packed> = Vec::new();
    let mut k: usize = 0;
    while k < len
        invariant
            k <= len,
            out.len() == k,
        decreases len - k,
    {
        out.push(Packed::zero());
        k = k + 1;
    }
    out
}

impl MultilinearEvals {
    /// Three zeroed buffers sized for a subcube.
    pub fn new(subcube_vars: usize) -> (r: MultilinearEvals)
        requires
            pow2(subcube_vars as nat) <= usize::MAX,
        ensures
            r.evals_0.len() as int == packed_count(subcube_vars as nat),
            r.evals_1.len() as int == packed_count(subcube_vars as nat),
            r.evals_z.len() as int == packed_count(subcube_vars as nat),
    {
        let len = packed_count_exec(subcube_vars);
        MultilinearEvals { evals_0: zeroed_buf(len), evals_1: zeroed_buf(len), evals_z: zeroed_buf(
            len,
        ) }
    }
}

/// The value of one evaluation-point materialization: the evaluation at
/// index 0 is the restriction at 0, at index 1 the restriction at 1, at
/// index 2 the difference (the leading coefficient, read at the point at
/// infinity), and past the gap the linear interpolation at the finite
/// point.
pub open spec fn z_value<A: SumcheckMultilinearAccess>(
    access: A,
    ml: SumcheckMultilinear,
    exp: Seq<u128>,
    tqv: nat,
    n1: nat,
    j: int,
    points: Seq<u8>,
    pos: int,
) -> u128 {
    let v0 = access.spec_value(ml, exp, tqv, n1, false, pos);
    let v1 = access.spec_value(ml, exp, tqv, n1, true, pos);
    if j == 0 {
        v0
    } else if j == 1 {
        v1
    } else if j == 2 {
        v0 ^ v1
    } else {
        v0 ^ b128_mul_b8(v0 ^ v1, points[j - 3])
    }
}

/// The query row handed to a composition at one subcube position.
pub open spec fn z_row<A: SumcheckMultilinearAccess>(
    access: A,
    mls: Seq<SumcheckMultilinear>,
    exp: Seq<u128>,
    tqv: nat,
    n1: nat,
    j: int,
    points: Seq<u8>,
    pos: int,
) -> Seq<u128> {
    Seq::new(mls.len(), |m: int| z_value(access, mls[m], exp, tqv, n1, j, points, pos))
}

/// A composition evaluated on a row: the leading form at the point at
/// infinity, the polynomial itself elsewhere.
pub open spec fn point_contrib(e: crate::expr::ArithExpr, q: Seq<u128>, is_inf: bool) -> u128 {
    if is_inf {
        eval_expr_inf(e, q)
    } else {
        eval_expr(e, q)
    }
}

/// The query row read from materialized buffers at one position.
pub open spec fn buf_row(zs: Seq<Seq<Packed>>, i: int) -> Seq<u128> {
    Seq::new(zs.len(), |m: int| ml_scalar(zs[m], i))
}

/// Lane `l` of the packed sum a subcube contributes: the xor of the
/// composition over the positions of the subcube that sit in lane `l`,
/// over the first `k` positions.
pub open spec fn proc_lane(
    e: crate::expr::ArithExpr,
    zs: Seq<Seq<Packed>>,
    is_inf: bool,
    l: int,
    k: int,
) -> u128
    decreases k,
{
    if k <= 0 {
        0
    } else {
        proc_lane(e, zs, is_inf, l, k - 1) ^ (if (k - 1) % 4 == l {
            point_contrib(e, buf_row(zs, k - 1), is_inf)
        } else {
            0
        })
    }
}

/// The materialized evaluation buffers of all multilinears.
pub open spec fn z_views(mles: Seq<MultilinearEvals>) -> Seq<Seq<Packed>> {
    Seq::new(mles.len(), |m: int| mles[m].evals_z@)
}

/// Per-round evaluator: owns a composition, a range into the point
/// schedule, and the claim that the multilinears are constant, with the
/// given row of values, on a trailing region of the hypercube of the
/// stated size.
#[derive(Debug)]
pub struct SumcheckEvaluator {
    pub composition: ArithCircuitPoly,
    pub eval_points_start: usize,
    pub eval_points_end: usize,
    pub const_eval_suffix: usize,
    pub suffix_row: Vec<u128>,
}

/// The analytic contribution of the constant tail: over a binary field,
/// the sum of `suffix` copies of the constant row's composition value,
/// which vanishes for an even count and at the point at infinity.
pub open spec fn suffix_contrib(ev: SumcheckEvaluator, suffix: int, is_inf: bool) -> u128 {
    if ev.const_eval_suffix == 0 {
        0
    } else if is_inf {
        0
    } else if suffix % 2 == 1 {
        eval_expr(ev.composition.expr, ev.suffix_row@)
    } else {
        0
    }
}

impl SumcheckEvaluator {
    pub open spec fn inv(&self) -> bool {
        &&& self.composition.inv()
        &&& self.eval_points_start <= self.eval_points_end
        &&& self.suffix_row.len() == self.composition.spec_n_vars()
    }

    /// The range of scheduled point indices this evaluator covers.
    pub fn eval_point_indices(&self) -> (r: (usize, usize))
        ensures
            r.0 == self.eval_points_start,
            r.1 == self.eval_points_end,
    {
        (self.eval_points_start, self.eval_points_end)
    }

    /// The size of the trailing region handled analytically.
    pub fn const_eval_suffix(&self) -> (r: usize)
        ensures
            r == self.const_eval_suffix,
    {
        self.const_eval_suffix
    }

    /// Accumulate the composition over one subcube of materialized rows,
    /// lane by lane.
    pub fn process_subcube_at_eval_point(
        &self,
        subcube_vars: usize,
        is_infinity_point: bool,
        mles: &Vec<MultilinearEvals>,
    ) -> (r: Packed)
        requires
            self.inv(),
            self.composition.spec_n_vars() == mles.len(),
            pow2(subcube_vars as nat) <= usize::MAX,
            forall|m: int|
                0 <= m < mles.len() ==> (#[trigger] mles[m].evals_z).len() as int == packed_count(
                    subcube_vars as nat),
        ensures
            forall|l: int|
                0 <= l < 4 ==> r.lane(l) == proc_lane(
                    self.composition.expr,
                    z_views(mles@),
                    is_infinity_point,
                    l,
                    pow2(subcube_vars as nat),
                ),
    {
        proof {
            lemma_packed_count(subcube_vars as nat);
        }
        let total = pow2_exec(subcube_vars);
        let n_ml = mles.len();
        let mut acc = Packed::zero();
        let mut i: usize = 0;
        while i < total
            invariant
                self.inv(),
                self.composition.spec_n_vars() == mles.len(),
                n_ml == mles.len(),
                total as int == pow2(subcube_vars as nat),
                total <= 4 * packed_count(subcube_vars as nat),
                forall|m: int|
                    0 <= m < mles.len() ==> (#[trigger] mles[m].evals_z).len() as int
                        == packed_count(subcube_vars as nat),
                i <= total,
                forall|l: int|
                    0 <= l < 4 ==> acc.lane(l) == proc_lane(
                        self.composition.expr,
                        z_views(mles@),
                        is_infinity_point,
                        l,
                        i as int,
                    ),
            decreases total - i,
        {
            let mut q: Vec<u128> = Vec::new();
            let mut m: usize = 0;
            while m < n_ml
                invariant
                    self.inv(),
                    n_ml == mles.len(),
                    total as int == pow2(subcube_vars as nat),
                    total <= 4 * packed_count(subcube_vars as nat),
                    i < total,
                    forall|m2: int|
                        0 <= m2 < mles.len() ==> (#[trigger] mles[m2].evals_z).len() as int
                            == packed_count(subcube_vars as nat),
                    m <= n_ml,
                    q.len() == m,
                    forall|m2: int|
                        0 <= m2 < m ==> q[m2] == ml_scalar(mles[m2].evals_z@, i as int),
                decreases n_ml - m,
            {
                proof {
                    assert(0 <= (i as int) / 4 < packed_count(subcube_vars as nat) && 0 <= (
                    i as int) % 4 < 4) by (nonlinear_arith)
                        requires
                            0 <= i < total,
                            total <= 4 * packed_count(subcube_vars as nat),
                    ;
                }
                q.push(mles[m].evals_z[i / 4].get(i % 4));
                m = m + 1;
            }
            proof {
                assert(q@ =~= buf_row(z_views(mles@), i as int));
            }
            let v = if is_infinity_point {
                self.composition.expr.evaluate_inf(&q)
            } else {
                self.composition.expr.evaluate(&q)
            };
            let lane_idx = i % 4;
            let ghost acc_pre = acc;
            let cur = acc.get(lane_idx);
            acc.set(lane_idx, cur ^ v);
            proof {
                assert forall|l: int|
                    0 <= l < 4 implies acc.lane(l) == proc_lane(
                    self.composition.expr,
                    z_views(mles@),
                    is_infinity_point,
                    l,
                    i + 1,
                ) by {
                    if l == (i as int) % 4 {
                        assert((lane_idx as int) == (i as int) % 4);
                        assert(acc.lane(l) == acc_pre.lane(l) ^ v);
                    } else {
                        assert(acc.lane(l) == acc_pre.lane(l));
                        let x = acc_pre.lane(l);
                        assert(x ^ 0u128 == x) by (bit_vector);
                    }
                }
            }
            i = i + 1;
        }
        acc
    }

    /// The analytic contribution of the constant tail to one scheduled
    /// point.
    pub fn process_constant_eval_suffix(
        &self,
        const_eval_suffix: usize,
        is_infinity_point: bool,
    ) -> (r: u128)
        requires
            self.inv(),
        ensures
            r == suffix_contrib(*self, const_eval_suffix as int, is_infinity_point),
    {
        if self.const_eval_suffix == 0 {
            0
        } else if is_infinity_point {
            0
        } else if const_eval_suffix % 2 == 1 {
            self.composition.expr.evaluate(&self.suffix_row)
        } else {
            0
        }
    }
}


/// Target number of source bits one subcube read should cover.
pub const MAX_SRC_SUBCUBE_LOG_BITS: usize = 8;

/// The subcube split of the `n1 = n - 1` unfixed variables: as many inner
/// variables as the source-size target allows after the tensor-query
/// variables, at least one when any variable is unfixed, and never more
/// than are available.
pub open spec fn chosen_subcube_vars(n1: nat, tqv: nat) -> nat {
    if n1 == 0 {
        0
    } else {
        let budget: nat = if MAX_SRC_SUBCUBE_LOG_BITS > tqv + 1 {
            (MAX_SRC_SUBCUBE_LOG_BITS - tqv) as nat
        } else {
            1
        };
        if budget <= n1 {
            budget
        } else {
            n1
        }
    }
}

fn chosen_subcube_vars_exec(n1: usize, tqv: usize) -> (r: usize)
    ensures
        r as nat == chosen_subcube_vars(n1 as nat, tqv as nat),
        r <= n1,
        n1 > 0 ==> r >= 1,
{
    if n1 == 0 {
        0
    } else {
        let budget: usize = if tqv < MAX_SRC_SUBCUBE_LOG_BITS - 1 {
            MAX_SRC_SUBCUBE_LOG_BITS - tqv
        } else {
            1
        };
        if budget <= n1 {
            budget
        } else {
            n1
        }
    }
}

/// Ceiling division.
pub open spec fn ceil_div(a: int, b: int) -> int {
    (a + b - 1) / b
}

/// The smaller of two values.
pub open spec fn min_int(a: int, b: int) -> int {
    if a < b {
        a
    } else {
        b
    }
}

/// Lane `l` of the sum a subcube contributes, over the specified rows of
/// the multilinears rather than materialized buffers.
pub open spec fn spec_lane<A: SumcheckMultilinearAccess>(
    access: A,
    e: crate::expr::ArithExpr,
    mls: Seq<SumcheckMultilinear>,
    exp: Seq<u128>,
    tqv: nat,
    n1: nat,
    sv: nat,
    si: int,
    j: int,
    points: Seq<u8>,
    l: int,
    k: int,
) -> u128
    decreases k,
{
    if k <= 0 {
        0
    } else {
        spec_lane(access, e, mls, exp, tqv, n1, sv, si, j, points, l, k - 1) ^ (if (k - 1) % 4
            == l {
            point_contrib(
                e,
                z_row(access, mls, exp, tqv, n1, j, points, si * pow2(sv) + (k - 1)),
                j == 2,
            )
        } else {
            0
        })
    }
}

/// Accumulated lane `l` over the first `upto` subcubes.
pub open spec fn acc_sum<A: SumcheckMultilinearAccess>(
    access: A,
    e: crate::expr::ArithExpr,
    mls: Seq<SumcheckMultilinear>,
    exp: Seq<u128>,
    tqv: nat,
    n1: nat,
    sv: nat,
    j: int,
    points: Seq<u8>,
    l: int,
    upto: int,
) -> u128
    decreases upto,
{
    if upto <= 0 {
        0
    } else {
        acc_sum(access, e, mls, exp, tqv, n1, sv, j, points, l, upto - 1) ^ spec_lane(
            access,
            e,
            mls,
            exp,
            tqv,
            n1,
            sv,
            upto - 1,
            j,
            points,
            l,
            pow2(sv),
        )
    }
}

/// Fold of the first `lanes` accumulator lanes, truncating the lanes a
/// small subcube never fills.
pub open spec fn lane_fold<A: SumcheckMultilinearAccess>(
    access: A,
    e: crate::expr::ArithExpr,
    mls: Seq<SumcheckMultilinear>,
    exp: Seq<u128>,
    tqv: nat,
    n1: nat,
    sv: nat,
    j: int,
    points: Seq<u8>,
    count: int,
    lanes: int,
) -> u128
    decreases lanes,
{
    if lanes <= 0 {
        0
    } else {
        lane_fold(access, e, mls, exp, tqv, n1, sv, j, points, count, lanes - 1) ^ acc_sum(
            access,
            e,
            mls,
            exp,
            tqv,
            n1,
            sv,
            j,
            points,
            lanes - 1,
            count,
        )
    }
}

/// The scalar round evaluation of one evaluator at one scheduled point:
/// the truncated lane fold of the accumulated subcube sums, plus the
/// analytic contribution of the unprocessed tail.
pub open spec fn round_scalar<A: SumcheckMultilinearAccess>(
    access: A,
    ev: SumcheckEvaluator,
    mls: Seq<SumcheckMultilinear>,
    exp: Seq<u128>,
    tqv: nat,
    n_vars: nat,
    j: int,
    points: Seq<u8>,
) -> u128 {
    let n1 = (n_vars - 1) as nat;
    let sv = chosen_subcube_vars(n1, tqv);
    let count = ceil_div(pow2(n1) - ev.const_eval_suffix, pow2(sv));
    let lanes = if pow2(sv) < 4 {
        pow2(sv)
    } else {
        4
    };
    lane_fold(access, ev.composition.expr, mls, exp, tqv, n1, sv, j, points, count, lanes)
        ^ suffix_contrib(ev, pow2(n_vars) - count * pow2(sv), j == 2)
}

/// Rows materialized in the buffers equal the specified rows, so the
/// buffer lane sums equal the specified lane sums.
proof fn lemma_proc_lane_eq<A: SumcheckMultilinearAccess>(
    access: A,
    e: crate::expr::ArithExpr,
    zs: Seq<Seq<Packed>>,
    mls: Seq<SumcheckMultilinear>,
    exp: Seq<u128>,
    tqv: nat,
    n1: nat,
    sv: nat,
    si: int,
    j: int,
    points: Seq<u8>,
    l: int,
    k: int,
)
    requires
        zs.len() == mls.len(),
        forall|i: int, m: int|
            0 <= i < k && 0 <= m < mls.len() ==> #[trigger] ml_scalar(zs[m], i) == z_value(
                access, mls[m], exp, tqv, n1, j, points, si * pow2(sv) + i),
    ensures
        proc_lane(e, zs, j == 2, l, k) == spec_lane(
            access, e, mls, exp, tqv, n1, sv, si, j, points, l, k),
    decreases k,
{
    if k > 0 {
        lemma_proc_lane_eq(access, e, zs, mls, exp, tqv, n1, sv, si, j, points, l, k - 1);
        assert(buf_row(zs, k - 1) =~= z_row(
            access, mls, exp, tqv, n1, j, points, si * pow2(sv) + (k - 1)));
    }
}


/// Per-worker fold state: the evaluation buffers of every multilinear,
/// the optional scratch area of the access method, and one packed
/// accumulator per scheduled point of every evaluator.
#[derive(Debug)]
pub struct ParFoldStates {
    pub multilinear_evals: Vec<MultilinearEvals>,
    pub scratch_space: Vec<Packed>,
    pub round_evals: Vec<Vec<Packed>>,
}

impl ParFoldStates {
    /// Fresh zeroed state for `n_multilinears` multilinears and the given
    /// evaluators.
    pub fn new<A: SumcheckMultilinearAccess>(
        access: &A,
        n_multilinears: usize,
        evaluators: &Vec<SumcheckEvaluator>,
        subcube_vars: usize,
    ) -> (r: ParFoldStates)
        requires
            pow2((subcube_vars + 1) as nat) <= usize::MAX,
            forall|k: int| 0 <= k < evaluators.len() ==> (#[trigger] evaluators[k]).inv(),
        ensures
            r.multilinear_evals.len() == n_multilinears,
            forall|m: int|
                0 <= m < n_multilinears ==> {
                    let me = #[trigger] r.multilinear_evals[m];
                    me.evals_0.len() as int == packed_count(subcube_vars as nat)
                        && me.evals_1.len() as int == packed_count(subcube_vars as nat)
                        && me.evals_z.len() as int == packed_count(subcube_vars as nat)
                },
            access.spec_scratch_ok(r.scratch_space.len() as int, subcube_vars as nat),
            r.round_evals.len() == evaluators.len(),
            forall|k: int|
                0 <= k < evaluators.len() ==> (#[trigger] r.round_evals[k]).len()
                    == evaluators[k].eval_points_end - evaluators[k].eval_points_start,
            forall|k: int, jj: int, l: int|
                0 <= k < evaluators.len() && 0 <= jj < r.round_evals[k].len() && 0 <= l < 4
                    ==> (#[trigger] r.round_evals[k][jj].lane(l)) == 0,
    {
        proof {
            lemma_pow2_le(subcube_vars as nat, (subcube_vars + 1) as nat);
        }
        let mut multilinear_evals: Vec<MultilinearEvals> = Vec::new();
        let mut m: usize = 0;
        while m < n_multilinears
            invariant
                pow2(subcube_vars as nat) <= usize::MAX,
                m <= n_multilinears,
                multilinear_evals.len() == m,
                forall|t: int|
                    0 <= t < m ==> {
                        let me = #[trigger] multilinear_evals[t];
                        me.evals_0.len() as int == packed_count(subcube_vars as nat)
                            && me.evals_1.len() as int == packed_count(subcube_vars as nat)
                            && me.evals_z.len() as int == packed_count(subcube_vars as nat)
                    },
            decreases n_multilinears - m,
        {
            multilinear_evals.push(MultilinearEvals::new(subcube_vars));
            m = m + 1;
        }
        let scratch_space: Vec<Packed> = match access.scratch_space_len(subcube_vars) {
            Some(len) => zeroed_buf(len),
            None => Vec::new(),
        };
        let mut round_evals: Vec<Vec<Packed>> = Vec::new();
        let mut k: usize = 0;
        while k < evaluators.len()
            invariant
                forall|k2: int| 0 <= k2 < evaluators.len() ==> (#[trigger] evaluators[k2]).inv(),
                k <= evaluators.len(),
                round_evals.len() == k,
                forall|k2: int|
                    0 <= k2 < k ==> (#[trigger] round_evals[k2]).len()
                        == evaluators[k2].eval_points_end - evaluators[k2].eval_points_start,
                forall|k2: int, jj: int, l: int|
                    0 <= k2 < k && 0 <= jj < round_evals[k2].len() && 0 <= l < 4
                        ==> (#[trigger] round_evals[k2][jj].lane(l)) == 0,
            decreases evaluators.len() - k,
        {
            let (st, en) = evaluators[k].eval_point_indices();
            let mut row: Vec<Packed> = Vec::new();
            let mut jj: usize = 0;
            while jj < en - st
                invariant
                    jj <= en - st,
                    row.len() == jj,
                    forall|t: int, l: int|
                        0 <= t < jj && 0 <= l < 4 ==> (#[trigger] row[t].lane(l)) == 0,
                decreases en - st - jj,
            {
                row.push(Packed::zero());
                jj = jj + 1;
            }
            round_evals.push(row);
            k = k + 1;
        }
        ParFoldStates { multilinear_evals, scratch_space, round_evals }
    }
}

/// The largest scheduled point index any of the first `k` evaluators
/// covers.
pub open spec fn max_end(evs: Seq<SumcheckEvaluator>, k: int) -> int
    decreases k,
{
    if k <= 0 {
        0
    } else {
        let prev = max_end(evs, k - 1);
        if evs[k - 1].eval_points_end > prev {
            evs[k - 1].eval_points_end as int
        } else {
            prev
        }
    }
}

/// Every evaluator's range end is below the union end.
proof fn lemma_max_end(evs: Seq<SumcheckEvaluator>, k: int, n: int)
    requires
        0 <= k < n <= evs.len(),
    ensures
        evs[k].eval_points_end <= max_end(evs, n),
    decreases n,
{
    if k < n - 1 {
        lemma_max_end(evs, k, n - 1);
    }
}

/// Calculate the accumulated round evaluations for one sumcheck round
/// with the given access method: for every outer subcube, read the two
/// restrictions of every multilinear, materialize every scheduled point,
/// accumulate every evaluator's packed sums, and finally fold lanes and
/// add the analytic tail contributions.
pub fn calculate_round_evals_with_access<A: SumcheckMultilinearAccess>(
    access: A,
    n_vars: usize,
    tensor_query: &MultilinearQuery,
    multilinears: &Vec<SumcheckMultilinear>,
    evaluators: &Vec<SumcheckEvaluator>,
    nontrivial_evaluation_points: &Vec<u8>,
) -> (r: Result<Vec<RoundEvals>, Error>)
    requires
        n_vars >= 1,
        tensor_query.wf(),
        forall|m: int|
            0 <= m < multilinears.len() ==> sm_wf(
                #[trigger] multilinears[m], tensor_query.n_vars as nat, n_vars as nat),
        pow2((n_vars + tensor_query.n_vars + 1) as nat) <= usize::MAX,
        forall|k: int|
            0 <= k < evaluators.len() ==> (#[trigger] evaluators[k]).inv()
                && evaluators[k].composition.spec_n_vars() == multilinears.len()
                && evaluators[k].const_eval_suffix as int <= pow2((n_vars - 1) as nat),
    ensures
        (r is Ok) <==> nontrivial_evaluation_points.len() as int == (if max_end(
            evaluators@,
            evaluators.len() as int,
        ) > 3 {
            max_end(evaluators@, evaluators.len() as int) - 3
        } else {
            0
        }),
        r is Err ==> r->Err_0 == Error::IncorrectNontrivialEvalPointsLength,
        r is Ok ==> {
            &&& r->Ok_0.len() == evaluators.len()
            &&& (forall|k: int|
                0 <= k < evaluators.len() ==> (#[trigger] r->Ok_0[k].0).len()
                    == evaluators[k].eval_points_end - evaluators[k].eval_points_start)
            &&& (forall|k: int, j: int|
                0 <= k < evaluators.len() && evaluators[k].eval_points_start <= j
                    < evaluators[k].eval_points_end ==> (#[trigger] r->Ok_0[k].0[j - evaluators[
                    k
                ].eval_points_start]) == round_scalar(
                    access,
                    evaluators[k],
                    multilinears@,
                    tensor_query.expansion@,
                    tensor_query.n_vars as nat,
                    n_vars as nat,
                    j,
                    nontrivial_evaluation_points@,
                ))
        },
{
    let ghost tqv = tensor_query.n_vars as nat;
    let ghost exp = tensor_query.expansion@;
    let ghost points = nontrivial_evaluation_points@;
    let n_ml = multilinears.len();
    // Union of the evaluation point ranges.
    let mut end_max: usize = 0;
    let mut k0: usize = 0;
    while k0 < evaluators.len()
        invariant
            k0 <= evaluators.len(),
            end_max as int == max_end(evaluators@, k0 as int),
        decreases evaluators.len() - k0,
    {
        let (_, en) = evaluators[k0].eval_point_indices();
        if en > end_max {
            end_max = en;
        }
        k0 = k0 + 1;
    }
    let needed: usize = if end_max > 3 {
        end_max - 3
    } else {
        0
    };
    if nontrivial_evaluation_points.len() != needed {
        return Err(Error::IncorrectNontrivialEvalPointsLength);
    }
    let n1 = n_vars - 1;
    let sv = chosen_subcube_vars_exec(n1, tensor_query.n_vars());
    let iv = n1 - sv;
    proof {
        lemma_pow2_le(n1 as nat, (n_vars + tensor_query.n_vars + 1) as nat);
        lemma_pow2_le(n_vars as nat, (n_vars + tensor_query.n_vars + 1) as nat);
        lemma_pow2_le(iv as nat, n1 as nat);
        lemma_pow2_le(sv as nat, n1 as nat);
        lemma_pow2_le((sv + 1) as nat, (n_vars + tensor_query.n_vars + 1) as nat);
        lemma_pow2_pos(sv as nat);
        lemma_pow2_pos(iv as nat);
        lemma_pow2_add(sv as nat, iv as nat);
        lemma_packed_count(sv as nat);
    }
    let count_total = pow2_exec(iv);
    let total_sv = pow2_exec(sv);
    let pow_n1 = pow2_exec(n1);
    let pow_n = pow2_exec(n_vars);
    proof {
        assert(pow2(n_vars as nat) == 2 * pow2(n1 as nat));
        lemma_pow2_pos(sv as nat);
    }
    // Per-evaluator subcube counts.
    let mut counts: Vec<usize> = Vec::new();
    let mut k1: usize = 0;
    while k1 < evaluators.len()
        invariant
            forall|k: int|
                0 <= k < evaluators.len() ==> (#[trigger] evaluators[k]).inv()
                    && evaluators[k].const_eval_suffix as int <= pow2((n_vars - 1) as nat),
            n_vars >= 1,
            n1 == n_vars - 1,
            total_sv as int == pow2(sv as nat),
            pow_n1 as int == pow2(n1 as nat),
            count_total as int == pow2(iv as nat),
            pow2(sv as nat) * pow2(iv as nat) == pow2(n1 as nat),
            total_sv >= 1,
            total_sv <= pow_n1,
            pow_n as int == pow2(n_vars as nat),
            pow_n == 2 * pow_n1,
            pow_n <= usize::MAX,
            k1 <= evaluators.len(),
            counts.len() == k1,
            forall|k: int|
                0 <= k < k1 ==> (#[trigger] counts[k]) as int == ceil_div(
                    pow2((n_vars - 1) as nat) - evaluators[k].const_eval_suffix,
                    pow2(sv as nat),
                ) && counts[k] * total_sv <= pow_n1 && counts[k] <= count_total,
        decreases evaluators.len() - k1,
    {
        let a: usize = pow_n1 - evaluators[k1].const_eval_suffix();
        let cnt: usize = (a + total_sv - 1) / total_sv;
        proof {
            assert(cnt as int == ceil_div(
                pow2((n_vars - 1) as nat) - evaluators[k1 as int].const_eval_suffix,
                pow2(sv as nat),
            ));
            assert(cnt * total_sv <= pow_n1 && cnt <= count_total) by (nonlinear_arith)
                requires
                    cnt as int == (a + total_sv - 1) as int / total_sv as int,
                    a <= pow_n1,
                    total_sv >= 1,
                    pow2(sv as nat) * pow2(iv as nat) == pow2(n1 as nat),
                    total_sv as int == pow2(sv as nat),
                    pow_n1 as int == pow2(n1 as nat),
                    count_total as int == pow2(iv as nat),
            ;
        }
        counts.push(cnt);
        k1 = k1 + 1;
    }
    proof {
        assert forall|k: int|
            0 <= k < evaluators.len() implies (#[trigger] evaluators@[k]).eval_points_end
            <= end_max by {
            lemma_max_end(evaluators@, k, evaluators.len() as int);
        }
    }
    let mut states = ParFoldStates::new(&access, n_ml, evaluators, sv);
    let mut si: usize = 0;
    while si < count_total
        invariant
            n_vars >= 1,
            n1 == n_vars - 1,
            sv as nat == chosen_subcube_vars(n1 as nat, tqv),
            sv + iv == n1,
            tensor_query.wf(),
            tqv == tensor_query.n_vars as nat,
            exp == tensor_query.expansion@,
            points == nontrivial_evaluation_points@,
            n_ml == multilinears.len(),
            forall|m: int|
                0 <= m < multilinears.len() ==> sm_wf(
                    #[trigger] multilinears[m], tqv, n_vars as nat),
            pow2((n_vars + tensor_query.n_vars + 1) as nat) <= usize::MAX,
            forall|k: int|
                0 <= k < evaluators.len() ==> (#[trigger] evaluators[k]).inv()
                    && evaluators[k].composition.spec_n_vars() == multilinears.len(),
            count_total as int == pow2(iv as nat),
            total_sv as int == pow2(sv as nat),
            counts.len() == evaluators.len(),
            forall|k: int|
                0 <= k < evaluators.len() ==> (#[trigger] counts[k]) as int == ceil_div(
                    pow2((n_vars - 1) as nat) - evaluators[k].const_eval_suffix,
                    pow2(sv as nat),
                ) && counts[k] <= count_total,
            forall|k: int|
                0 <= k < evaluators.len() ==> (#[trigger] evaluators@[k]).eval_points_end
                    <= end_max,
            points.len() == needed,
            needed == (if end_max > 3 {
                end_max - 3
            } else {
                0
            }),
            si <= count_total,
            states.multilinear_evals.len() == n_ml,
            forall|m: int|
                0 <= m < n_ml ==> {
                    let me = #[trigger] states.multilinear_evals[m];
                    me.evals_0.len() as int == packed_count(sv as nat) && me.evals_1.len() as int
                        == packed_count(sv as nat) && me.evals_z.len() as int == packed_count(
                        sv as nat)
                },
            access.spec_scratch_ok(states.scratch_space.len() as int, sv as nat),
            states.round_evals.len() == evaluators.len(),
            forall|k: int|
                0 <= k < evaluators.len() ==> (#[trigger] states.round_evals[k]).len()
                    == evaluators[k].eval_points_end - evaluators[k].eval_points_start,
            forall|k: int, jj: int, l: int|
                0 <= k < evaluators.len() && 0 <= jj < states.round_evals[k].len() && 0 <= l < 4
                    ==> (#[trigger] states.round_evals[k][jj].lane(l)) == acc_sum(
                    access,
                    evaluators[k].composition.expr,
                    multilinears@,
                    exp,
                    tqv,
                    n1 as nat,
                    sv as nat,
                    evaluators[k].eval_points_start + jj,
                    points,
                    l,
                    min_int(si as int, counts[k] as int),
                ),
        decreases count_total - si,
    {
        // Read the two restrictions of every multilinear.
        let ghost states_pre = states;
        let mut processed: Vec<MultilinearEvals> = Vec::new();
        let mut m: usize = 0;
        while m < n_ml
            invariant
                n_vars >= 1,
                n1 == n_vars - 1,
                sv + iv == n1,
                tensor_query.wf(),
                tqv == tensor_query.n_vars as nat,
                exp == tensor_query.expansion@,
                n_ml == multilinears.len(),
                forall|m2: int|
                    0 <= m2 < multilinears.len() ==> sm_wf(
                        #[trigger] multilinears[m2], tqv, n_vars as nat),
                pow2((n_vars + tensor_query.n_vars + 1) as nat) <= usize::MAX,
                si < count_total,
                count_total as int == pow2(iv as nat),
                m <= n_ml,
                processed.len() == m,
                states.multilinear_evals.len() == n_ml - m,
                states.round_evals == states_pre.round_evals,
                access.spec_scratch_ok(states.scratch_space.len() as int, sv as nat),
                forall|m2: int|
                    0 <= m2 < n_ml - m ==> #[trigger] states.multilinear_evals[m2]
                        == states_pre.multilinear_evals[m + m2],
                forall|m2: int|
                    0 <= m2 < n_ml ==> {
                        let me = #[trigger] states_pre.multilinear_evals[m2];
                        me.evals_0.len() as int == packed_count(sv as nat) && me.evals_1.len() as int
                            == packed_count(sv as nat) && me.evals_z.len() as int == packed_count(
                            sv as nat)
                    },
                forall|m2: int|
                    0 <= m2 < m ==> {
                        let me = #[trigger] processed[m2];
                        me.evals_0.len() as int == packed_count(sv as nat) && me.evals_1.len() as int
                            == packed_count(sv as nat) && me.evals_z.len() as int == packed_count(
                            sv as nat)
                    },
                forall|m2: int, i: int|
                    0 <= m2 < m && 0 <= i < pow2(sv as nat) ==> #[trigger] ml_scalar(
                        processed[m2].evals_0@, i) == access.spec_value(
                        multilinears@[m2], exp, tqv, n1 as nat, false, si * pow2(sv as nat) + i),
                forall|m2: int, i: int|
                    0 <= m2 < m && 0 <= i < pow2(sv as nat) ==> #[trigger] ml_scalar(
                        processed[m2].evals_1@, i) == access.spec_value(
                        multilinears@[m2], exp, tqv, n1 as nat, true, si * pow2(sv as nat) + i),
            decreases n_ml - m,
        {
            let mut entry = states.multilinear_evals.remove(0);
            proof {
                assert(entry == states_pre.multilinear_evals[m as int]);
                assert(entry.evals_0.len() as int == packed_count(sv as nat)
                    && entry.evals_1.len() as int == packed_count(sv as nat));
            }
            let res = access.subcube_evaluations(
                &multilinears[m],
                sv,
                si,
                iv,
                tensor_query,
                &mut states.scratch_space,
                &mut entry.evals_0,
                &mut entry.evals_1,
            );
            proof {
                assert(res is Ok);
            }
            processed.push(entry);
            m = m + 1;
        }
        states.multilinear_evals = processed;
        // Materialize each scheduled point and feed every evaluator.
        let ghost mls_read = states.multilinear_evals;
        let mut j: usize = 0;
        while j < end_max
            invariant
                n_vars >= 1,
                n1 == n_vars - 1,
                sv + iv == n1,
                sv as nat == chosen_subcube_vars(n1 as nat, tqv),
                tensor_query.wf(),
                tqv == tensor_query.n_vars as nat,
                exp == tensor_query.expansion@,
                points == nontrivial_evaluation_points@,
                points.len() == needed,
                needed == (if end_max > 3 {
                    end_max - 3
                } else {
                    0
                }),
                n_ml == multilinears.len(),
                pow2((n_vars + tensor_query.n_vars + 1) as nat) <= usize::MAX,
                forall|k: int|
                    0 <= k < evaluators.len() ==> (#[trigger] evaluators[k]).inv()
                        && evaluators[k].composition.spec_n_vars() == multilinears.len()
                        && evaluators[k].eval_points_end <= end_max,
                count_total as int == pow2(iv as nat),
                total_sv as int == pow2(sv as nat),
                counts.len() == evaluators.len(),
                si < count_total,
                j <= end_max,
                states.multilinear_evals.len() == n_ml,
                access.spec_scratch_ok(states.scratch_space.len() as int, sv as nat),
                forall|m2: int|
                    0 <= m2 < n_ml ==> {
                        let me = #[trigger] states.multilinear_evals[m2];
                        me.evals_0.len() as int == packed_count(sv as nat) && me.evals_1.len() as int
                            == packed_count(sv as nat) && me.evals_z.len() as int == packed_count(
                            sv as nat)
                    },
                forall|m2: int, i: int|
                    0 <= m2 < n_ml && 0 <= i < pow2(sv as nat) ==> #[trigger] ml_scalar(
                        states.multilinear_evals[m2].evals_0@, i) == access.spec_value(
                        multilinears@[m2], exp, tqv, n1 as nat, false, si * pow2(sv as nat) + i),
                forall|m2: int, i: int|
                    0 <= m2 < n_ml && 0 <= i < pow2(sv as nat) ==> #[trigger] ml_scalar(
                        states.multilinear_evals[m2].evals_1@, i) == access.spec_value(
                        multilinears@[m2], exp, tqv, n1 as nat, true, si * pow2(sv as nat) + i),
                states.round_evals.len() == evaluators.len(),
                forall|k: int|
                    0 <= k < evaluators.len() ==> (#[trigger] states.round_evals[k]).len()
                        == evaluators[k].eval_points_end - evaluators[k].eval_points_start,
                forall|k: int, jj: int, l: int|
                    0 <= k < evaluators.len() && 0 <= jj < states.round_evals[k].len() && 0 <= l
                        < 4 ==> (#[trigger] states.round_evals[k][jj].lane(l)) == acc_sum(
                        access,
                        evaluators[k].composition.expr,
                        multilinears@,
                        exp,
                        tqv,
                        n1 as nat,
                        sv as nat,
                        evaluators[k].eval_points_start + jj,
                        points,
                        l,
                        if evaluators[k].eval_points_start + jj < j {
                            min_int(si + 1, counts[k] as int)
                        } else {
                            min_int(si as int, counts[k] as int)
                        },
                    ),
            decreases end_max - j,
        {
            // Materialize the evaluations at point `j` for every multilinear.
            proof {
                lemma_packed_count(sv as nat);
            }
            let mut zdone: Vec<MultilinearEvals> = Vec::new();
            let ghost z_pre = states.multilinear_evals;
            let mut m2: usize = 0;
            while m2 < n_ml
                invariant
                    n_ml == multilinears.len(),
                    si < count_total,
                    j < end_max,
                    points.len() == needed,
                    needed == (if end_max > 3 {
                        end_max - 3
                    } else {
                        0
                    }),
                    total_sv as int == pow2(sv as nat),
                    total_sv <= 4 * packed_count(sv as nat),
                    points == nontrivial_evaluation_points@,
                    access.spec_scratch_ok(states.scratch_space.len() as int, sv as nat),
                    n_vars >= 1,
                    n1 == n_vars - 1,
                    sv + iv == n1,
                    tqv == tensor_query.n_vars as nat,
                    exp == tensor_query.expansion@,
                    forall|k: int|
                        0 <= k < evaluators.len() ==> (#[trigger] evaluators[k]).inv()
                            && evaluators[k].composition.spec_n_vars() == multilinears.len(),
                    counts.len() == evaluators.len(),
                    states.round_evals.len() == evaluators.len(),
                    forall|k: int|
                        0 <= k < evaluators.len() ==> (#[trigger] states.round_evals[k]).len()
                            == evaluators[k].eval_points_end - evaluators[k].eval_points_start,
                    forall|k: int, jj: int, l: int|
                        0 <= k < evaluators.len() && 0 <= jj < states.round_evals[k].len() && 0
                            <= l < 4 ==> (#[trigger] states.round_evals[k][jj].lane(l))
                            == acc_sum(
                            access,
                            evaluators[k].composition.expr,
                            multilinears@,
                            exp,
                            tqv,
                            n1 as nat,
                            sv as nat,
                            evaluators[k].eval_points_start + jj,
                            points,
                            l,
                            if evaluators[k].eval_points_start + jj < j {
                                min_int(si + 1, counts[k] as int)
                            } else {
                                min_int(si as int, counts[k] as int)
                            },
                        ),
                    m2 <= n_ml,
                    zdone.len() == m2,
                    z_pre.len() == n_ml,
                    states.multilinear_evals.len() == n_ml - m2,
                    forall|t: int|
                        0 <= t < n_ml - m2 ==> #[trigger] states.multilinear_evals[t] == z_pre[
                        m2 + t],
                    forall|t: int|
                        0 <= t < n_ml ==> {
                            let me = #[trigger] z_pre[t];
                            me.evals_0.len() as int == packed_count(sv as nat)
                                && me.evals_1.len() as int == packed_count(sv as nat)
                                && me.evals_z.len() as int == packed_count(sv as nat)
                        },
                    forall|t: int|
                        0 <= t < m2 ==> {
                            let me = #[trigger] zdone[t];
                            me.evals_0@ == z_pre[t].evals_0@ && me.evals_1@ == z_pre[t].evals_1@
                                && me.evals_0.len() as int == packed_count(sv as nat)
                                && me.evals_1.len() as int == packed_count(sv as nat)
                                && me.evals_z.len() as int == packed_count(sv as nat)
                        },
                    forall|t: int, i: int|
                        0 <= t < m2 && 0 <= i < pow2(sv as nat) ==> #[trigger] ml_scalar(
                            zdone[t].evals_z@, i) == (
                        if j == 0 {
                            ml_scalar(z_pre[t].evals_0@, i)
                        } else if j == 1 {
                            ml_scalar(z_pre[t].evals_1@, i)
                        } else if j == 2 {
                            ml_scalar(z_pre[t].evals_0@, i) ^ ml_scalar(z_pre[t].evals_1@, i)
                        } else {
                            ml_scalar(z_pre[t].evals_0@, i) ^ b128_mul_b8(
                                ml_scalar(z_pre[t].evals_0@, i) ^ ml_scalar(
                                    z_pre[t].evals_1@, i),
                                points[j - 3],
                            )
                        }),
                decreases n_ml - m2,
            {
                let mut entry = states.multilinear_evals.remove(0);
                proof {
                    assert(entry == z_pre[m2 as int]);
                }
                let ghost e_pre = entry;
                proof {
                    lemma_packed_count(sv as nat);
                }
                let mut b: usize = 0;
                let cnt = entry.evals_z.len();
                while b < cnt
                    invariant
                        j < end_max,
                        points.len() == needed,
                        needed == (if end_max > 3 {
                            end_max - 3
                        } else {
                            0
                        }),
                        cnt == e_pre.evals_z.len(),
                        cnt as int == packed_count(sv as nat),
                        total_sv as int == pow2(sv as nat),
                        pow2(sv as nat) <= 4 * cnt,
                        j < end_max,
                        points.len() == needed,
                        needed == (if end_max > 3 {
                            end_max - 3
                        } else {
                            0
                        }),
                        points == nontrivial_evaluation_points@,
                        b <= cnt,
                        entry.evals_0 == e_pre.evals_0,
                        entry.evals_1 == e_pre.evals_1,
                        entry.evals_0.len() == e_pre.evals_0.len(),
                        entry.evals_z.len() == cnt,
                        cnt == e_pre.evals_0.len(),
                        cnt == e_pre.evals_1.len(),
                        forall|t: int, l: int|
                            0 <= t < b && 0 <= l < 4 ==> #[trigger] entry.evals_z@[t].lane(l)
                                == (if j == 0 {
                                e_pre.evals_0@[t].lane(l)
                            } else if j == 1 {
                                e_pre.evals_1@[t].lane(l)
                            } else if j == 2 {
                                e_pre.evals_0@[t].lane(l) ^ e_pre.evals_1@[t].lane(l)
                            } else {
                                e_pre.evals_0@[t].lane(l) ^ b128_mul_b8(
                                    e_pre.evals_0@[t].lane(l) ^ e_pre.evals_1@[t].lane(l),
                                    points[j - 3],
                                )
                            }),
                    decreases cnt - b,
                {
                    let val: Packed = if j == 0 {
                        entry.evals_0[b]
                    } else if j == 1 {
                        entry.evals_1[b]
                    } else if j == 2 {
                        entry.evals_0[b].add(entry.evals_1[b])
                    } else {
                        crate::packed::extrapolate_line(
                            entry.evals_0[b],
                            entry.evals_1[b],
                            nontrivial_evaluation_points[j - 3],
                        )
                    };
                    entry.evals_z.set(b, val);
                    b = b + 1;
                }
                proof {
                    assert forall|i: int|
                        0 <= i < pow2(sv as nat) implies #[trigger] ml_scalar(
                        entry.evals_z@, i) == (
                    if j == 0 {
                        ml_scalar(e_pre.evals_0@, i)
                    } else if j == 1 {
                        ml_scalar(e_pre.evals_1@, i)
                    } else if j == 2 {
                        ml_scalar(e_pre.evals_0@, i) ^ ml_scalar(e_pre.evals_1@, i)
                    } else {
                        ml_scalar(e_pre.evals_0@, i) ^ b128_mul_b8(
                            ml_scalar(e_pre.evals_0@, i) ^ ml_scalar(e_pre.evals_1@, i),
                            points[j - 3],
                        )
                    }) by {
                        assert(0 <= i / 4 < cnt && 0 <= i % 4 < 4) by (nonlinear_arith)
                            requires
                                0 <= i < pow2(sv as nat),
                                pow2(sv as nat) <= 4 * cnt,
                        ;
                    }
                }
                zdone.push(entry);
                m2 = m2 + 1;
            }
            states.multilinear_evals = zdone;
            proof {
                assert forall|t: int, i: int|
                    0 <= t < n_ml && 0 <= i < pow2(sv as nat) implies #[trigger] ml_scalar(
                    states.multilinear_evals[t].evals_z@, i) == z_value(
                    access,
                    multilinears@[t],
                    exp,
                    tqv,
                    n1 as nat,
                    j as int,
                    points,
                    si * pow2(sv as nat) + i,
                ) by {
                    assert(ml_scalar(z_pre[t].evals_0@, i) == access.spec_value(
                        multilinears@[t], exp, tqv, n1 as nat, false, si * pow2(sv as nat) + i));
                    assert(ml_scalar(z_pre[t].evals_1@, i) == access.spec_value(
                        multilinears@[t], exp, tqv, n1 as nat, true, si * pow2(sv as nat) + i));
                }
            }
            // Feed every evaluator whose range covers the point.
            let ghost re_pre = states.round_evals;
            let mut k2: usize = 0;
            while k2 < evaluators.len()
                invariant
                    n_vars >= 1,
                    n1 == n_vars - 1,
                    sv + iv == n1,
                    tqv == tensor_query.n_vars as nat,
                    exp == tensor_query.expansion@,
                    points == nontrivial_evaluation_points@,
                    n_ml == multilinears.len(),
                    forall|k: int|
                        0 <= k < evaluators.len() ==> (#[trigger] evaluators[k]).inv()
                            && evaluators[k].composition.spec_n_vars() == multilinears.len(),
                    si < count_total,
                    j < end_max,
                    total_sv as int == pow2(sv as nat),
                    counts.len() == evaluators.len(),
                    k2 <= evaluators.len(),
                    states.multilinear_evals.len() == n_ml,
                    access.spec_scratch_ok(states.scratch_space.len() as int, sv as nat),
                    forall|t: int|
                        0 <= t < n_ml ==> {
                            let me = #[trigger] states.multilinear_evals[t];
                            me.evals_0.len() as int == packed_count(sv as nat)
                                && me.evals_1.len() as int == packed_count(sv as nat)
                                && me.evals_z.len() as int == packed_count(sv as nat)
                        },
                    forall|t: int, i: int|
                        0 <= t < n_ml && 0 <= i < pow2(sv as nat) ==> #[trigger] ml_scalar(
                            states.multilinear_evals[t].evals_0@, i) == access.spec_value(
                            multilinears@[t], exp, tqv, n1 as nat, false, si * pow2(sv as nat)
                                + i),
                    forall|t: int, i: int|
                        0 <= t < n_ml && 0 <= i < pow2(sv as nat) ==> #[trigger] ml_scalar(
                            states.multilinear_evals[t].evals_1@, i) == access.spec_value(
                            multilinears@[t], exp, tqv, n1 as nat, true, si * pow2(sv as nat)
                                + i),
                    forall|t: int, i: int|
                        0 <= t < n_ml && 0 <= i < pow2(sv as nat) ==> #[trigger] ml_scalar(
                            states.multilinear_evals[t].evals_z@, i) == z_value(
                            access,
                            multilinears@[t],
                            exp,
                            tqv,
                            n1 as nat,
                            j as int,
                            points,
                            si * pow2(sv as nat) + i,
                        ),
                    states.round_evals.len() == evaluators.len(),
                    forall|k: int|
                        0 <= k < evaluators.len() ==> (#[trigger] states.round_evals[k]).len()
                            == evaluators[k].eval_points_end - evaluators[k].eval_points_start,
                    forall|k: int, jj: int, l: int|
                        0 <= k < evaluators.len() && 0 <= jj < states.round_evals[k].len() && 0
                            <= l < 4 ==> (#[trigger] states.round_evals[k][jj].lane(l))
                            == acc_sum(
                            access,
                            evaluators[k].composition.expr,
                            multilinears@,
                            exp,
                            tqv,
                            n1 as nat,
                            sv as nat,
                            evaluators[k].eval_points_start + jj,
                            points,
                            l,
                            if evaluators[k].eval_points_start + jj < j || (k < k2
                                && evaluators[k].eval_points_start + jj == j) {
                                min_int(si + 1, counts[k] as int)
                            } else {
                                min_int(si as int, counts[k] as int)
                            },
                        ),
                decreases evaluators.len() - k2,
            {
                let (st, en) = evaluators[k2].eval_point_indices();
                if st <= j && j < en && si < counts[k2] {
                    let pl = evaluators[k2].process_subcube_at_eval_point(
                        sv,
                        j == 2,
                        &states.multilinear_evals,
                    );
                    proof {
                        assert forall|l: int| 0 <= l < 4 implies pl.lane(l) == spec_lane(
                            access,
                            evaluators[k2 as int].composition.expr,
                            multilinears@,
                            exp,
                            tqv,
                            n1 as nat,
                            sv as nat,
                            si as int,
                            j as int,
                            points,
                            l,
                            pow2(sv as nat),
                        ) by {
                            lemma_proc_lane_eq(
                                access,
                                evaluators[k2 as int].composition.expr,
                                z_views(states.multilinear_evals@),
                                multilinears@,
                                exp,
                                tqv,
                                n1 as nat,
                                sv as nat,
                                si as int,
                                j as int,
                                points,
                                l,
                                pow2(sv as nat),
                            );
                        }
                    }
                    let ghost re_before = states.round_evals;
                    let mut rowk = states.round_evals.remove(k2);
                    let cur = rowk[j - st];
                    rowk.set(j - st, cur.add(pl));
                    states.round_evals.insert(k2, rowk);
                    proof {
                        let re_now = states.round_evals@;
                        assert(re_now.len() == re_before@.len());
                        assert forall|k: int|
                            0 <= k < evaluators.len() && k != k2 implies re_now[k]
                            == re_before@[k] by {
                            if k < k2 {
                                assert(re_now[k] == re_before@.remove(k2 as int).insert(
                                    k2 as int, rowk)[k]);
                            } else {
                                assert(re_now[k] == re_before@.remove(k2 as int).insert(
                                    k2 as int, rowk)[k]);
                            }
                        }
                        assert(re_now[k2 as int] == rowk);
                        assert(forall|l: int|
                            0 <= l < 4 ==> #[trigger] rowk@[j - st].lane(l) == (
                            re_before@[k2 as int]@[j - st].lane(l) ^ pl.lane(l)));
                        assert(forall|t: int|
                            0 <= t < rowk.len() && t != j - st ==> #[trigger] rowk@[t]
                                == re_before@[k2 as int]@[t]);
                    }
                }
                k2 = k2 + 1;
            }
            j = j + 1;
        }
        si = si + 1;
    }
    // Final reduction: fold lanes and add the analytic tail.
    let mut results: Vec<RoundEvals> = Vec::new();
    let mut k3: usize = 0;
    while k3 < evaluators.len()
        invariant
            n_vars >= 1,
            n1 == n_vars - 1,
            sv as nat == chosen_subcube_vars(n1 as nat, tqv),
            sv + iv == n1,
            tqv == tensor_query.n_vars as nat,
            exp == tensor_query.expansion@,
            points == nontrivial_evaluation_points@,
            n_ml == multilinears.len(),
            forall|k: int|
                0 <= k < evaluators.len() ==> (#[trigger] evaluators[k]).inv()
                    && evaluators[k].const_eval_suffix as int <= pow2((n_vars - 1) as nat),
            count_total as int == pow2(iv as nat),
            total_sv as int == pow2(sv as nat),
            pow_n as int == pow2(n_vars as nat),
            pow_n1 as int == pow2(n1 as nat),
            pow_n1 <= pow_n,
            counts.len() == evaluators.len(),
            forall|k: int|
                0 <= k < evaluators.len() ==> (#[trigger] counts[k]) as int == ceil_div(
                    pow2((n_vars - 1) as nat) - evaluators[k].const_eval_suffix,
                    pow2(sv as nat),
                ) && counts[k] <= count_total && counts[k] * total_sv <= pow_n1,
            states.round_evals.len() == evaluators.len(),
            forall|k: int|
                0 <= k < evaluators.len() ==> (#[trigger] states.round_evals[k]).len()
                    == evaluators[k].eval_points_end - evaluators[k].eval_points_start,
            forall|k: int, jj: int, l: int|
                0 <= k < evaluators.len() && 0 <= jj < states.round_evals[k].len() && 0 <= l < 4
                    ==> (#[trigger] states.round_evals[k][jj].lane(l)) == acc_sum(
                    access,
                    evaluators[k].composition.expr,
                    multilinears@,
                    exp,
                    tqv,
                    n1 as nat,
                    sv as nat,
                    evaluators[k].eval_points_start + jj,
                    points,
                    l,
                    counts[k] as int,
                ),
            k3 <= evaluators.len(),
            results.len() == k3,
            forall|k: int|
                0 <= k < k3 ==> (#[trigger] results[k].0).len() == evaluators[k].eval_points_end
                    - evaluators[k].eval_points_start,
            forall|k: int, j: int|
                0 <= k < k3 && evaluators[k].eval_points_start <= j
                    < evaluators[k].eval_points_end ==> (#[trigger] results[k].0[j - evaluators[
                    k
                ].eval_points_start]) == round_scalar(
                    access,
                    evaluators[k],
                    multilinears@,
                    exp,
                    tqv,
                    n_vars as nat,
                    j,
                    points,
                ),
        decreases evaluators.len() - k3,
    {
        let (st, en) = evaluators[k3].eval_point_indices();
        let lanes: usize = if total_sv < 4 {
            total_sv
        } else {
            4
        };
        let suffix_arg: usize = pow_n - counts[k3] * total_sv;
        let mut row_out: Vec<u128> = Vec::new();
        let mut jj: usize = 0;
        while jj < en - st
            invariant
                n_vars >= 1,
                n1 == n_vars - 1,
                sv as nat == chosen_subcube_vars(n1 as nat, tqv),
                k3 < evaluators.len(),
                st == evaluators[k3 as int].eval_points_start,
                en == evaluators[k3 as int].eval_points_end,
                evaluators[k3 as int].inv(),
                total_sv as int == pow2(sv as nat),
                pow_n as int == pow2(n_vars as nat),
                lanes as int == min_int(pow2(sv as nat), 4),
                counts.len() == evaluators.len(),
                counts[k3 as int] as int == ceil_div(
                    pow2((n_vars - 1) as nat) - evaluators[k3 as int].const_eval_suffix,
                    pow2(sv as nat),
                ),
                suffix_arg as int == pow2(n_vars as nat) - counts[k3 as int] * pow2(sv as nat),
                states.round_evals.len() == evaluators.len(),
                states.round_evals[k3 as int].len() == en - st,
                forall|jj2: int, l: int|
                    0 <= jj2 < states.round_evals[k3 as int].len() && 0 <= l < 4
                        ==> (#[trigger] states.round_evals[k3 as int][jj2].lane(l)) == acc_sum(
                        access,
                        evaluators[k3 as int].composition.expr,
                        multilinears@,
                        exp,
                        tqv,
                        n1 as nat,
                        sv as nat,
                        st + jj2,
                        points,
                        l,
                        counts[k3 as int] as int,
                    ),
                jj <= en - st,
                row_out.len() == jj,
                forall|j2: int|
                    0 <= j2 < jj ==> (#[trigger] row_out[j2]) == round_scalar(
                        access,
                        evaluators[k3 as int],
                        multilinears@,
                        exp,
                        tqv,
                        n_vars as nat,
                        st + j2,
                        points,
                    ),
            decreases en - st - jj,
        {
            let acc = states.round_evals[k3][jj];
            let mut sval: u128 = 0;
            let mut l: usize = 0;
            while l < lanes
                invariant
                    lanes <= 4,
                    acc == states.round_evals[k3 as int][jj as int],
                    states.round_evals.len() == evaluators.len(),
                    k3 < evaluators.len(),
                    jj < states.round_evals[k3 as int].len(),
                    l <= lanes,
                    sval == lane_fold(
                        access,
                        evaluators[k3 as int].composition.expr,
                        multilinears@,
                        exp,
                        tqv,
                        n1 as nat,
                        sv as nat,
                        st + jj,
                        points,
                        counts[k3 as int] as int,
                        l as int,
                    ),
                    forall|l2: int|
                        0 <= l2 < 4 ==> acc.lane(l2) == acc_sum(
                            access,
                            evaluators[k3 as int].composition.expr,
                            multilinears@,
                            exp,
                            tqv,
                            n1 as nat,
                            sv as nat,
                            st + jj,
                            points,
                            l2,
                            counts[k3 as int] as int,
                        ),
                decreases lanes - l,
            {
                sval = sval ^ acc.get(l);
                l = l + 1;
            }
            let tail = evaluators[k3].process_constant_eval_suffix(suffix_arg, st + jj == 2);
            row_out.push(sval ^ tail);
            jj = jj + 1;
        }
        results.push(RoundEvals(row_out));
        k3 = k3 + 1;
    }
    Ok(results)
}


/// The number of tensor-query variables, with a missing query counting as
/// empty.
pub open spec fn eff_tqv(tensor_query: Option<&MultilinearQuery>) -> nat {
    match tensor_query {
        Option::Some(q) => q.n_vars as nat,
        Option::None => 0,
    }
}

/// The tensor expansion, with a missing query counting as the single unit
/// coefficient.
pub open spec fn eff_exp(tensor_query: Option<&MultilinearQuery>) -> Seq<u128> {
    match tensor_query {
        Option::Some(q) => q.expansion@,
        Option::None => seq![1u128],
    }
}

/// Calculate the accumulated evaluations for an arbitrary sumcheck round,
/// dispatching on the evaluation order. Requires at least one remaining
/// variable.
pub fn calculate_round_evals(
    evaluation_order: EvaluationOrder,
    n_vars: usize,
    tensor_query: Option<&MultilinearQuery>,
    multilinears: &Vec<SumcheckMultilinear>,
    evaluators: &Vec<SumcheckEvaluator>,
    finite_evaluation_points: &Vec<u8>,
) -> (r: Result<Vec<RoundEvals>, Error>)
    requires
        n_vars >= 1,
        (match tensor_query {
            Option::Some(q) => q.wf(),
            Option::None => true,
        }),
        forall|m: int|
            0 <= m < multilinears.len() ==> sm_wf(
                #[trigger] multilinears[m], eff_tqv(tensor_query), n_vars as nat),
        pow2((n_vars as nat + eff_tqv(tensor_query) + 1) as nat) <= usize::MAX,
        forall|k: int|
            0 <= k < evaluators.len() ==> (#[trigger] evaluators[k]).inv()
                && evaluators[k].composition.spec_n_vars() == multilinears.len()
                && evaluators[k].const_eval_suffix as int <= pow2((n_vars - 1) as nat),
    ensures
        (r is Ok) <==> finite_evaluation_points.len() as int == (if max_end(
            evaluators@,
            evaluators.len() as int,
        ) > 3 {
            max_end(evaluators@, evaluators.len() as int) - 3
        } else {
            0
        }),
        r is Err ==> r->Err_0 == Error::IncorrectNontrivialEvalPointsLength,
        r is Ok ==> r->Ok_0.len() == evaluators.len() && (forall|k: int|
            0 <= k < evaluators.len() ==> (#[trigger] r->Ok_0[k].0).len()
                == evaluators[k].eval_points_end - evaluators[k].eval_points_start),
        r is Ok && evaluation_order == EvaluationOrder::LowToHigh ==> (forall|k: int, j: int|
            0 <= k < evaluators.len() && evaluators[k].eval_points_start <= j < evaluators[
                k
            ].eval_points_end ==> (#[trigger] r->Ok_0[k].0[j - evaluators[k].eval_points_start])
                == round_scalar(
                LowToHighAccess,
                evaluators[k],
                multilinears@,
                eff_exp(tensor_query),
                eff_tqv(tensor_query),
                n_vars as nat,
                j,
                finite_evaluation_points@,
            )),
        r is Ok && evaluation_order == EvaluationOrder::HighToLow ==> (forall|k: int, j: int|
            0 <= k < evaluators.len() && evaluators[k].eval_points_start <= j < evaluators[
                k
            ].eval_points_end ==> (#[trigger] r->Ok_0[k].0[j - evaluators[k].eval_points_start])
                == round_scalar(
                HighToLowAccess,
                evaluators[k],
                multilinears@,
                eff_exp(tensor_query),
                eff_tqv(tensor_query),
                n_vars as nat,
                j,
                finite_evaluation_points@,
            )),
{
    match tensor_query {
        Some(q) => match evaluation_order {
            EvaluationOrder::LowToHigh => calculate_round_evals_with_access(
                LowToHighAccess,
                n_vars,
                q,
                multilinears,
                evaluators,
                finite_evaluation_points,
            ),
            EvaluationOrder::HighToLow => calculate_round_evals_with_access(
                HighToLowAccess,
                n_vars,
                q,
                multilinears,
                evaluators,
                finite_evaluation_points,
            ),
        },
        None => {
            let empty_query = MultilinearQuery::with_capacity();
            proof {
                assert(empty_query.expansion@ =~= seq![1u128]);
                assert(pow2(0) == 1);
            }
            match evaluation_order {
                EvaluationOrder::LowToHigh => calculate_round_evals_with_access(
                    LowToHighAccess,
                    n_vars,
                    &empty_query,
                    multilinears,
                    evaluators,
                    finite_evaluation_points,
                ),
                EvaluationOrder::HighToLow => calculate_round_evals_with_access(
                    HighToLowAccess,
                    n_vars,
                    &empty_query,
                    multilinears,
                    evaluators,
                    finite_evaluation_points,
                ),
            }
        },
    }
}

} // verus!

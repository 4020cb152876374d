//! Oracle registry: named shapes of multilinear polynomials. An oracle
//! describes a column over `2^n_vars` hypercube points at some tower
//! level; it is committed, publicly computable (transparent), a linear
//! combination of other oracles, or a reindexing of one. Oracles are
//! append-only and their ids are stable dense indices.

use vstd::prelude::*;

use crate::composition::{const_tower_level, CompositionPoly};
use crate::error::Error;

verus! {

/// Stable index of an oracle in its registry.
pub type OracleId = usize;

/// What defines an oracle's column.
#[derive(Debug)]
pub enum MultilinearOracleVariant {
    /// A column the prover must supply.
    Committed,
    /// A publicly computable constant column.
    Transparent { value: u128 },
    /// `offset + sum_t coeff_t * inner_t` over other oracles.
    LinearCombination { offset: u128, terms: Vec<(OracleId, u128)> },
    /// A reindexing of another oracle by a cyclic shift of the hypercube.
    Shifted { inner: OracleId, shift: usize },
}

/// An oracle: an identifier, a fixed number of variables (log-height), a
/// fixed tower level, and its provenance.
#[derive(Debug)]
pub struct MultilinearPolyOracle {
    pub id: OracleId,
    pub n_vars: usize,
    pub tower_level: usize,
    pub variant: MultilinearOracleVariant,
}

/// Structural equality of oracle variants, over the views of the term
/// lists.
pub open spec fn variant_eq(a: MultilinearOracleVariant, b: MultilinearOracleVariant) -> bool {
    match (a, b) {
        (MultilinearOracleVariant::Committed, MultilinearOracleVariant::Committed) => true,
        (
            MultilinearOracleVariant::Transparent { value: va },
            MultilinearOracleVariant::Transparent { value: vb },
        ) => va == vb,
        (
            MultilinearOracleVariant::LinearCombination { offset: oa, terms: ta },
            MultilinearOracleVariant::LinearCombination { offset: ob, terms: tb },
        ) => oa == ob && ta@ == tb@,
        (
            MultilinearOracleVariant::Shifted { inner: ia, shift: sa },
            MultilinearOracleVariant::Shifted { inner: ib, shift: sb },
        ) => ia == ib && sa == sb,
        _ => false,
    }
}

/// The variant is the linear combination with exactly this offset and
/// these terms.
pub open spec fn lc_variant_is(
    v: MultilinearOracleVariant,
    offset: u128,
    terms: Seq<(OracleId, u128)>,
) -> bool {
    &&& v is LinearCombination
    &&& v->LinearCombination_offset == offset
    &&& v->LinearCombination_terms@ == terms
}

/// Structural equality of oracles.
pub open spec fn oracle_eq(a: MultilinearPolyOracle, b: MultilinearPolyOracle) -> bool {
    a.id == b.id && a.n_vars == b.n_vars && a.tower_level == b.tower_level && variant_eq(
        a.variant, b.variant)
}

impl MultilinearPolyOracle {
    pub fn n_vars(&self) -> (r: usize)
        ensures
            r == self.n_vars,
    {
        self.n_vars
    }

    pub fn binary_tower_level(&self) -> (r: usize)
        ensures
            r == self.tower_level,
    {
        self.tower_level
    }

    /// A structurally equal copy.
    pub fn duplicate(&self) -> (r: MultilinearPolyOracle)
        ensures
            oracle_eq(r, *self),
    {
        let variant = match &self.variant {
            MultilinearOracleVariant::Committed => MultilinearOracleVariant::Committed,
            MultilinearOracleVariant::Transparent { value } => MultilinearOracleVariant::Transparent {
                value: *value,
            },
            MultilinearOracleVariant::LinearCombination { offset, terms } => {
                let mut t2: Vec<(OracleId, u128)> = Vec::new();
                let mut k: usize = 0;
                while k < terms.len()
                    invariant
                        k <= terms.len(),
                        t2.len() == k,
                        forall|i: int| 0 <= i < k ==> t2[i] == terms[i],
                    decreases terms.len() - k,
                {
                    t2.push(terms[k]);
                    k = k + 1;
                }
                proof {
                    assert(t2@ =~= terms@);
                }
                MultilinearOracleVariant::LinearCombination { offset: *offset, terms: t2 }
            },
            MultilinearOracleVariant::Shifted { inner, shift } => MultilinearOracleVariant::Shifted {
                inner: *inner,
                shift: *shift,
            },
        };
        MultilinearPolyOracle {
            id: self.id,
            n_vars: self.n_vars,
            tower_level: self.tower_level,
            variant,
        }
    }
}

/// Shape of a batch of committed oracles registered together.
#[derive(Debug, Clone, Copy, PartialEq, Eq, Structural)]
pub struct CommittedBatchSpec {
    pub round_id: usize,
    pub n_vars: usize,
    pub n_polys: usize,
    pub tower_level: usize,
}

/// A committed oracle named by its batch and position in the batch.
#[derive(Debug, Clone, Copy, PartialEq, Eq, Structural)]
pub struct CommittedId {
    pub batch_id: usize,
    pub index: usize,
}

/// A registered batch: where it starts and its shape.
#[derive(Debug, Clone, Copy, PartialEq, Eq, Structural)]
pub struct CommittedBatch {
    pub first_oracle_id: OracleId,
    pub spec_data: CommittedBatchSpec,
}

/// The first error the linear-combination checks meet, scanning the terms
/// in order: an unknown oracle id, then a log-size mismatch.
pub open spec fn lc_first_error(
    oracles: Seq<MultilinearPolyOracle>,
    n_vars: usize,
    terms: Seq<(OracleId, u128)>,
    k: int,
) -> Option<Error>
    decreases terms.len() - k,
{
    if k < 0 || k >= terms.len() {
        Option::None
    } else if terms[k].0 >= oracles.len() {
        Option::Some(Error::OracleNotFound)
    } else if oracles[terms[k].0 as int].n_vars != n_vars {
        Option::Some(Error::LogSizeMismatch)
    } else {
        lc_first_error(oracles, n_vars, terms, k + 1)
    }
}

/// A term list whose ids are all registered at the right log size never
/// produces a linear-combination error.
pub proof fn lemma_lc_ok(
    oracles: Seq<MultilinearPolyOracle>,
    n_vars: usize,
    terms: Seq<(OracleId, u128)>,
    k: int,
)
    requires
        0 <= k <= terms.len(),
        forall|t: int|
            k <= t < terms.len() ==> ((#[trigger] terms[t]).0 as int) < oracles.len()
                && oracles[terms[t].0 as int].n_vars == n_vars,
    ensures
        lc_first_error(oracles, n_vars, terms, k) is None,
    decreases terms.len() - k,
{
    if k < terms.len() {
        lemma_lc_ok(oracles, n_vars, terms, k + 1);
    }
}

/// Tower level inferred for a linear combination: the largest level among
/// the operands, the coefficients and the constant offset.
pub open spec fn lc_tower_level(
    oracles: Seq<MultilinearPolyOracle>,
    terms: Seq<(OracleId, u128)>,
    offset: u128,
    k: int,
) -> usize
    decreases k,
{
    if k <= 0 {
        const_tower_level(offset)
    } else {
        let prev = lc_tower_level(oracles, terms, offset, k - 1);
        let inner_level = oracles[terms[k - 1].0 as int].tower_level;
        let coeff_level = const_tower_level(terms[k - 1].1);
        let here = if inner_level >= coeff_level {
            inner_level
        } else {
            coeff_level
        };
        if prev >= here {
            prev
        } else {
            here
        }
    }
}

/// The append-only registry of oracles.
#[derive(Debug)]
pub struct MultilinearOracleSet {
    pub oracles: Vec<MultilinearPolyOracle>,
    pub batches: Vec<CommittedBatch>,
}

impl MultilinearOracleSet {
    /// Every oracle sits at its own index.
    pub open spec fn wf(self) -> bool {
        forall|i: int| 0 <= i < self.oracles.len() ==> (#[trigger] self.oracles[i].id) == i
    }

    pub fn new() -> (r: MultilinearOracleSet)
        ensures
            r.wf(),
            r.oracles.len() == 0,
            r.batches.len() == 0,
    {
        MultilinearOracleSet { oracles: Vec::new(), batches: Vec::new() }
    }

    pub fn size(&self) -> (r: usize)
        ensures
            r == self.oracles.len(),
    {
        self.oracles.len()
    }

    /// Read an oracle by id.
    pub fn oracle(&self, id: OracleId) -> (r: &MultilinearPolyOracle)
        requires
            id < self.oracles.len(),
        ensures
            r == &self.oracles[id as int],
    {
        &self.oracles[id]
    }

    /// Register one committed oracle.
    pub fn add_committed(&mut self, n_vars: usize, tower_level: usize) -> (id: OracleId)
        requires
            old(self).wf(),
            old(self).oracles.len() < usize::MAX,
        ensures
            final(self).wf(),
            id == old(self).oracles.len(),
            final(self).oracles.len() == old(self).oracles.len() + 1,
            final(self).batches@ == old(self).batches@,
            forall|i: int|
                0 <= i < old(self).oracles.len() ==> final(self).oracles[i] == old(
                    self).oracles[i],
            final(self).oracles[id as int].id == id,
            final(self).oracles[id as int].n_vars == n_vars,
            final(self).oracles[id as int].tower_level == tower_level,
            final(self).oracles[id as int].variant is Committed,
    {
        let id = self.oracles.len();
        self.oracles.push(
            MultilinearPolyOracle {
                id,
                n_vars,
                tower_level,
                variant: MultilinearOracleVariant::Committed,
            },
        );
        id
    }

    /// Register a batch of committed oracles of one shape; the batch id
    /// indexes the batch list.
    pub fn add_committed_batch(&mut self, batch: CommittedBatchSpec) -> (batch_id: usize)
        requires
            old(self).wf(),
            old(self).oracles.len() + batch.n_polys <= usize::MAX,
            old(self).batches.len() < usize::MAX,
        ensures
            final(self).wf(),
            batch_id == old(self).batches.len(),
            final(self).batches.len() == old(self).batches.len() + 1,
            final(self).batches[batch_id as int] == (CommittedBatch {
                first_oracle_id: old(self).oracles.len(),
                spec_data: batch,
            }),
            final(self).oracles.len() == old(self).oracles.len() + batch.n_polys,
            forall|i: int|
                0 <= i < old(self).oracles.len() ==> final(self).oracles[i] == old(
                    self).oracles[i],
            forall|i: int|
                old(self).oracles.len() <= i < old(self).oracles.len() + batch.n_polys ==> {
                    let o = #[trigger] final(self).oracles[i];
                    o.n_vars == batch.n_vars && o.tower_level == batch.tower_level && o.variant
                        is Committed
                },
    {
        let first_oracle_id = self.oracles.len();
        let batch_id = self.batches.len();
        self.batches.push(CommittedBatch { first_oracle_id, spec_data: batch });
        let mut t: usize = 0;
        while t < batch.n_polys
            invariant
                old(self).wf(),
                self.wf(),
                t <= batch.n_polys,
                first_oracle_id == old(self).oracles.len(),
                self.oracles.len() == first_oracle_id + t,
                first_oracle_id + batch.n_polys <= usize::MAX,
                self.batches@ == old(self).batches@.push(
                    CommittedBatch { first_oracle_id, spec_data: batch },
                ),
                forall|i: int|
                    0 <= i < first_oracle_id ==> self.oracles[i] == old(self).oracles[i],
                forall|i: int|
                    first_oracle_id <= i < first_oracle_id + t ==> {
                        let o = #[trigger] self.oracles[i];
                        o.n_vars == batch.n_vars && o.tower_level == batch.tower_level
                            && o.variant is Committed
                    },
            decreases batch.n_polys - t,
        {
            self.add_committed(batch.n_vars, batch.tower_level);
            t = t + 1;
        }
        batch_id
    }

    /// The oracle id of one committed column of a batch.
    pub fn committed_oracle_id(&self, id: CommittedId) -> (r: OracleId)
        requires
            id.batch_id < self.batches.len(),
            id.index < self.batches[id.batch_id as int].spec_data.n_polys,
            self.batches[id.batch_id as int].first_oracle_id + id.index <= usize::MAX,
        ensures
            r == self.batches[id.batch_id as int].first_oracle_id + id.index,
    {
        self.batches[id.batch_id].first_oracle_id + id.index
    }

    /// Register a transparent constant oracle.
    pub fn add_transparent(&mut self, n_vars: usize, value: u128) -> (id: OracleId)
        requires
            old(self).wf(),
            old(self).oracles.len() < usize::MAX,
        ensures
            final(self).wf(),
            id == old(self).oracles.len(),
            final(self).oracles.len() == old(self).oracles.len() + 1,
            final(self).batches@ == old(self).batches@,
            forall|i: int|
                0 <= i < old(self).oracles.len() ==> final(self).oracles[i] == old(
                    self).oracles[i],
            final(self).oracles[id as int].id == id,
            final(self).oracles[id as int].n_vars == n_vars,
            final(self).oracles[id as int].tower_level == const_tower_level(value),
            final(self).oracles[id as int].variant == (MultilinearOracleVariant::Transparent {
                value,
            }),
    {
        let id = self.oracles.len();
        let tower_level = crate::composition::const_tower_level_exec(value);
        self.oracles.push(
            MultilinearPolyOracle {
                id,
                n_vars,
                tower_level,
                variant: MultilinearOracleVariant::Transparent { value },
            },
        );
        id
    }

    /// Register a linear combination `offset + sum_t coeff_t * inner_t`
    /// of existing oracles, all of the given log size. The new oracle's
    /// tower level is the largest level among operands, coefficients and
    /// offset. Fails on an unknown id or a log-size mismatch, first
    /// failure first.
    pub fn add_linear_combination(
        &mut self,
        n_vars: usize,
        terms: Vec<(OracleId, u128)>,
        offset: u128,
    ) -> (r: Result<OracleId, Error>)
        requires
            old(self).wf(),
            old(self).oracles.len() < usize::MAX,
        ensures
            final(self).wf(),
            (r is Ok) <==> lc_first_error(old(self).oracles@, n_vars, terms@, 0) is None,
            r is Err ==> Option::Some(r->Err_0) == lc_first_error(
                old(self).oracles@, n_vars, terms@, 0) && *final(self) == *old(self),
            r is Ok ==> {
                &&& r->Ok_0 == old(self).oracles.len()
                &&& final(self).oracles.len() == old(self).oracles.len() + 1
                &&& final(self).batches@ == old(self).batches@
                &&& (forall|i: int|
                    0 <= i < old(self).oracles.len() ==> final(self).oracles[i] == old(
                        self).oracles[i])
                &&& final(self).oracles[r->Ok_0 as int].id == r->Ok_0
                &&& final(self).oracles[r->Ok_0 as int].n_vars == n_vars
                &&& final(self).oracles[r->Ok_0 as int].tower_level == lc_tower_level(
                    old(self).oracles@, terms@, offset, terms.len() as int)
                &&& variant_eq(
                    final(self).oracles[r->Ok_0 as int].variant,
                    MultilinearOracleVariant::LinearCombination { offset, terms },
                )
            },
    {
        let n = terms.len();
        let mut level = crate::composition::const_tower_level_exec(offset);
        let mut k: usize = 0;
        while k < n
            invariant
                self.wf(),
                *self == *old(self),
                n == terms.len(),
                k <= n,
                lc_first_error(self.oracles@, n_vars, terms@, 0) == lc_first_error(
                    self.oracles@, n_vars, terms@, k as int),
                level == lc_tower_level(self.oracles@, terms@, offset, k as int),
            decreases n - k,
        {
            let (id, coeff) = terms[k];
            if id >= self.oracles.len() {
                return Err(Error::OracleNotFound);
            }
            if self.oracles[id].n_vars != n_vars {
                return Err(Error::LogSizeMismatch);
            }
            let inner_level = self.oracles[id].tower_level;
            let coeff_level = crate::composition::const_tower_level_exec(coeff);
            let here = if inner_level >= coeff_level {
                inner_level
            } else {
                coeff_level
            };
            if here > level {
                level = here;
            }
            k = k + 1;
        }
        let id = self.oracles.len();
        self.oracles.push(
            MultilinearPolyOracle {
                id,
                n_vars,
                tower_level: level,
                variant: MultilinearOracleVariant::LinearCombination { offset, terms },
            },
        );
        Ok(id)
    }
}

/// The largest tower level among the oracles of a list, up to index `k`.
pub open spec fn max_inner_level(inner: Seq<MultilinearPolyOracle>, k: int) -> usize
    decreases k,
{
    if k <= 0 {
        0
    } else {
        let prev = max_inner_level(inner, k - 1);
        let here = inner[k - 1].tower_level;
        if prev >= here {
            prev
        } else {
            here
        }
    }
}

/// A composition applied to a list of inner multilinear oracles: the
/// virtual multivariate polynomial `composition(inner_0, ..., inner_(m-1))`
/// over a common `n_vars`-dimensional hypercube.
#[derive(Debug)]
pub struct CompositePolyOracle<C> {
    pub n_vars: usize,
    pub inner: Vec<MultilinearPolyOracle>,
    pub composition: C,
}

impl<C: CompositionPoly> CompositePolyOracle<C> {
    /// Pair inner oracles with a composition. Fails with
    /// `CompositionMismatch` when the number of oracles is not the
    /// composition arity, and with `IncorrectNumberOfVariables` when some
    /// oracle has another number of variables.
    pub fn new(n_vars: usize, inner: Vec<MultilinearPolyOracle>, composition: C) -> (r: Result<
        Self,
        Error,
    >)
        requires
            composition.inv(),
        ensures
            (r is Ok) <==> (inner.len() == composition.spec_n_vars() && (forall|i: int|
                0 <= i < inner.len() ==> (#[trigger] inner[i].n_vars) == n_vars)),
            r is Ok ==> r->Ok_0.n_vars == n_vars && r->Ok_0.inner == inner
                && r->Ok_0.composition == composition,
            r is Err ==> (r->Err_0 == Error::CompositionMismatch <==> inner.len()
                != composition.spec_n_vars()),
            r is Err ==> (inner.len() != composition.spec_n_vars() || r->Err_0 == (
            Error::IncorrectNumberOfVariables { expected: n_vars })),
    {
        if inner.len() != composition.n_vars() {
            return Err(Error::CompositionMismatch);
        }
        let mut i: usize = 0;
        while i < inner.len()
            invariant
                composition.inv(),
                inner.len() == composition.spec_n_vars(),
                i <= inner.len(),
                forall|t: int| 0 <= t < i ==> (#[trigger] inner[t].n_vars) == n_vars,
            decreases inner.len() - i,
        {
            if inner[i].n_vars() != n_vars {
                return Err(Error::IncorrectNumberOfVariables { expected: n_vars });
            }
            i = i + 1;
        }
        Ok(Self { n_vars, inner, composition })
    }

    /// The maximum individual degree of the composite, which equals the
    /// composition degree because the inner polynomials are multilinear.
    pub fn max_individual_degree(&self) -> (r: usize)
        requires
            self.composition.inv(),
        ensures
            r == self.composition.spec_degree(),
    {
        self.composition.degree()
    }

    pub fn n_multilinears(&self) -> (r: usize)
        requires
            self.composition.inv(),
        ensures
            r == self.composition.spec_n_vars(),
    {
        self.composition.n_vars()
    }

    /// The tower level of the composite: the largest among the
    /// composition's level and the levels of the inner oracles.
    pub fn binary_tower_level(&self) -> (r: usize)
        requires
            self.composition.inv(),
        ensures
            r == if self.composition.spec_tower_level() >= max_inner_level(
                self.inner@, self.inner.len() as int) {
                self.composition.spec_tower_level()
            } else {
                max_inner_level(self.inner@, self.inner.len() as int)
            },
    {
        let mut level = self.composition.binary_tower_level();
        let mut i: usize = 0;
        while i < self.inner.len()
            invariant
                self.composition.inv(),
                i <= self.inner.len(),
                level == if self.composition.spec_tower_level() >= max_inner_level(
                    self.inner@, i as int) {
                    self.composition.spec_tower_level()
                } else {
                    max_inner_level(self.inner@, i as int)
                },
            decreases self.inner.len() - i,
        {
            let here = self.inner[i].binary_tower_level();
            if here > level {
                level = here;
            }
            i = i + 1;
        }
        level
    }

    pub fn n_vars(&self) -> (r: usize)
        ensures
            r == self.n_vars,
    {
        self.n_vars
    }

    /// The inner oracles.
    pub fn inner_polys(&self) -> (r: &Vec<MultilinearPolyOracle>)
        ensures
            r == &self.inner,
    {
        &self.inner
    }

    /// The composition.
    pub fn composition(&self) -> (r: C)
        ensures
            r.inv() == self.composition.inv(),
            r.spec_n_vars() == self.composition.spec_n_vars(),
            r.spec_degree() == self.composition.spec_degree(),
            r.spec_tower_level() == self.composition.spec_tower_level(),
            r.spec_expression() == self.composition.spec_expression(),
            forall|q: Seq<u128>| #[trigger] r.spec_eval(q) == self.composition.spec_eval(q),
    {
        self.composition.duplicate()
    }
}

} // verus!

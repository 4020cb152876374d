//! Constraint-system builder: registers oracles under namespaced labels,
//! pushes zero-constraints, optionally populates a witness index, and
//! checks a witness against the registered constraints row by row.

use vstd::prelude::*;

use crate::composition::{
    ArithCircuitPoly, CompositionPoly, MixColumn, SBoxConstraint,
};
use crate::error::Error;
use crate::expr::ArithExpr;
use crate::oracle::{
    lc_first_error, lc_tower_level, variant_eq, MultilinearOracleSet, MultilinearOracleVariant,
    MultilinearPolyOracle, OracleId,
};
use crate::witness::WitnessIndex;

verus! {

/// The closed set of composition kinds a constraint can carry.
#[derive(Debug)]
pub enum ConstraintComposition {
    Mix(MixColumn),
    SBox(SBoxConstraint),
    Circuit(ArithCircuitPoly),
}

impl CompositionPoly for ConstraintComposition {
    open spec fn inv(&self) -> bool {
        match self {
            ConstraintComposition::Mix(c) => c.inv(),
            ConstraintComposition::SBox(c) => c.inv(),
            ConstraintComposition::Circuit(c) => c.inv(),
        }
    }

    open spec fn spec_n_vars(&self) -> usize {
        match self {
            ConstraintComposition::Mix(c) => c.spec_n_vars(),
            ConstraintComposition::SBox(c) => c.spec_n_vars(),
            ConstraintComposition::Circuit(c) => c.spec_n_vars(),
        }
    }

    open spec fn spec_degree(&self) -> usize {
        match self {
            ConstraintComposition::Mix(c) => c.spec_degree(),
            ConstraintComposition::SBox(c) => c.spec_degree(),
            ConstraintComposition::Circuit(c) => c.spec_degree(),
        }
    }

    open spec fn spec_tower_level(&self) -> usize {
        match self {
            ConstraintComposition::Mix(c) => c.spec_tower_level(),
            ConstraintComposition::SBox(c) => c.spec_tower_level(),
            ConstraintComposition::Circuit(c) => c.spec_tower_level(),
        }
    }

    open spec fn spec_expression(&self) -> ArithExpr {
        match self {
            ConstraintComposition::Mix(c) => c.spec_expression(),
            ConstraintComposition::SBox(c) => c.spec_expression(),
            ConstraintComposition::Circuit(c) => c.spec_expression(),
        }
    }

    open spec fn spec_eval(&self, q: Seq<u128>) -> u128 {
        match self {
            ConstraintComposition::Mix(c) => c.spec_eval(q),
            ConstraintComposition::SBox(c) => c.spec_eval(q),
            ConstraintComposition::Circuit(c) => c.spec_eval(q),
        }
    }

    fn n_vars(&self) -> usize {
        match self {
            ConstraintComposition::Mix(c) => c.n_vars(),
            ConstraintComposition::SBox(c) => c.n_vars(),
            ConstraintComposition::Circuit(c) => c.n_vars(),
        }
    }

    fn degree(&self) -> usize {
        match self {
            ConstraintComposition::Mix(c) => c.degree(),
            ConstraintComposition::SBox(c) => c.degree(),
            ConstraintComposition::Circuit(c) => c.degree(),
        }
    }

    fn binary_tower_level(&self) -> usize {
        match self {
            ConstraintComposition::Mix(c) => c.binary_tower_level(),
            ConstraintComposition::SBox(c) => c.binary_tower_level(),
            ConstraintComposition::Circuit(c) => c.binary_tower_level(),
        }
    }

    fn expression(&self) -> (r: ArithExpr) {
        match self {
            ConstraintComposition::Mix(c) => c.expression(),
            ConstraintComposition::SBox(c) => c.expression(),
            ConstraintComposition::Circuit(c) => c.expression(),
        }
    }

    fn evaluate(&self, query: &Vec<u128>) -> (r: Result<u128, Error>) {
        match self {
            ConstraintComposition::Mix(c) => c.evaluate(query),
            ConstraintComposition::SBox(c) => c.evaluate(query),
            ConstraintComposition::Circuit(c) => c.evaluate(query),
        }
    }

    fn duplicate(&self) -> (r: Self) {
        match self {
            ConstraintComposition::Mix(c) => ConstraintComposition::Mix(c.duplicate()),
            ConstraintComposition::SBox(c) => ConstraintComposition::SBox(c.duplicate()),
            ConstraintComposition::Circuit(c) => ConstraintComposition::Circuit(c.duplicate()),
        }
    }
}

/// A zero-constraint: the composition vanishes row-wise on the named
/// columns.
#[derive(Debug)]
pub struct Constraint {
    pub oracle_ids: Vec<OracleId>,
    pub composition: ConstraintComposition,
}

/// The builder of a constraint system, optionally carrying a witness.
#[derive(Debug)]
pub struct ConstraintSystemBuilder {
    pub oracles: MultilinearOracleSet,
    pub constraints: Vec<Constraint>,
    pub witness: Option<WitnessIndex>,
    /// Stack of name prefixes for debug labeling.
    pub namespace_stack: Vec<String>,
    /// Label of each oracle, parallel to the registry.
    pub names: Vec<String>,
}

impl ConstraintSystemBuilder {
    /// Registry indices are consistent, every constraint's arity matches
    /// its id list, every id is registered, and a present witness is
    /// well-formed.
    pub open spec fn wf(self) -> bool {
        &&& self.oracles.wf()
        &&& self.names.len() == self.oracles.oracles.len()
        &&& (match self.witness {
            Option::Some(w) => w.wf(),
            Option::None => true,
        })
        &&& forall|c: int|
            0 <= c < self.constraints.len() ==> {
                let con = #[trigger] self.constraints[c];
                &&& con.composition.inv()
                &&& con.oracle_ids.len() == con.composition.spec_n_vars()
                &&& forall|t: int|
                    0 <= t < con.oracle_ids.len() ==> (#[trigger] con.oracle_ids[t] as int)
                        < self.oracles.oracles.len()
            }
    }

    /// A builder without a witness.
    pub fn new() -> (r: ConstraintSystemBuilder)
        ensures
            r.wf(),
            r.oracles.oracles.len() == 0,
            r.constraints.len() == 0,
            r.witness is None,
            r.namespace_stack.len() == 0,
    {
        ConstraintSystemBuilder {
            oracles: MultilinearOracleSet::new(),
            constraints: Vec::new(),
            witness: None,
            namespace_stack: Vec::new(),
            names: Vec::new(),
        }
    }

    /// A builder that also populates a witness.
    pub fn new_with_witness() -> (r: ConstraintSystemBuilder)
        ensures
            r.wf(),
            r.oracles.oracles.len() == 0,
            r.constraints.len() == 0,
            r.witness is Some,
            r.witness->Some_0.cols.len() == 0,
            r.namespace_stack.len() == 0,
    {
        ConstraintSystemBuilder {
            oracles: MultilinearOracleSet::new(),
            constraints: Vec::new(),
            witness: Some(WitnessIndex::new()),
            namespace_stack: Vec::new(),
            names: Vec::new(),
        }
    }

    pub fn has_witness(&self) -> (r: bool)
        ensures
            r == (self.witness is Some),
    {
        match &self.witness {
            Some(_) => true,
            None => false,
        }
    }

    /// Push a name prefix for debug labeling.
    pub fn push_namespace(&mut self, name: String)
        requires
            old(self).wf(),
        ensures
            final(self).wf(),
            final(self).namespace_stack@ == old(self).namespace_stack@.push(name),
            final(self).oracles == old(self).oracles,
            final(self).constraints == old(self).constraints,
            final(self).witness == old(self).witness,
            final(self).names == old(self).names,
    {
        self.namespace_stack.push(name);
    }

    /// Pop the innermost name prefix; without one, nothing changes.
    pub fn pop_namespace(&mut self)
        requires
            old(self).wf(),
        ensures
            final(self).wf(),
            old(self).namespace_stack.len() > 0 ==> final(self).namespace_stack@ == old(
                self).namespace_stack@.drop_last(),
            old(self).namespace_stack.len() == 0 ==> final(self).namespace_stack@ == old(
                self).namespace_stack@,
            final(self).oracles == old(self).oracles,
            final(self).constraints == old(self).constraints,
            final(self).witness == old(self).witness,
            final(self).names == old(self).names,
    {
        if self.namespace_stack.len() > 0 {
            self.namespace_stack.pop();
        }
    }

    /// Register one committed column.
    pub fn add_committed(&mut self, name: String, log_size: usize, tower_level: usize) -> (id:
        OracleId)
        requires
            old(self).wf(),
            old(self).oracles.oracles.len() < usize::MAX,
        ensures
            final(self).wf(),
            id == old(self).oracles.oracles.len(),
            final(self).oracles.oracles.len() == old(self).oracles.oracles.len() + 1,
            forall|i: int|
                0 <= i < old(self).oracles.oracles.len() ==> final(self).oracles.oracles[i]
                    == old(self).oracles.oracles[i],
            final(self).oracles.oracles[id as int].n_vars == log_size,
            final(self).oracles.oracles[id as int].tower_level == tower_level,
            final(self).oracles.oracles[id as int].variant is Committed,
            final(self).oracles.batches@ == old(self).oracles.batches@,
            final(self).constraints == old(self).constraints,
            final(self).witness == old(self).witness,
            final(self).namespace_stack == old(self).namespace_stack,
    {
        let id = self.oracles.add_committed(log_size, tower_level);
        self.names.push(name);
        id
    }

    /// Register several committed columns of one shape; the ids are the
    /// consecutive indices starting at the previous registry size.
    pub fn add_committed_multiple(
        &mut self,
        name: String,
        log_size: usize,
        tower_level: usize,
        count: usize,
    ) -> (ids: Vec<OracleId>)
        requires
            old(self).wf(),
            old(self).oracles.oracles.len() + count <= usize::MAX,
        ensures
            final(self).wf(),
            ids.len() == count,
            forall|t: int|
                0 <= t < count ==> (#[trigger] ids[t] as int) == old(
                    self).oracles.oracles.len() + t,
            final(self).oracles.oracles.len() == old(self).oracles.oracles.len() + count,
            forall|i: int|
                0 <= i < old(self).oracles.oracles.len() ==> final(self).oracles.oracles[i]
                    == old(self).oracles.oracles[i],
            forall|i: int|
                old(self).oracles.oracles.len() <= i < old(self).oracles.oracles.len() + count
                    ==> {
                    let o = #[trigger] final(self).oracles.oracles[i];
                    o.n_vars == log_size && o.tower_level == tower_level && o.variant
                        is Committed
                },
            final(self).oracles.batches@ == old(self).oracles.batches@,
            final(self).constraints == old(self).constraints,
            final(self).witness == old(self).witness,
            final(self).namespace_stack == old(self).namespace_stack,
    {
        let first = self.oracles.size();
        let mut ids: Vec<OracleId> = Vec::new();
        let mut t: usize = 0;
        while t < count
            invariant
                self.wf(),
                t <= count,
                ids.len() == t,
                first == old(self).oracles.oracles.len(),
                first + count <= usize::MAX,
                self.oracles.oracles.len() == first + t,
                forall|u: int| 0 <= u < t ==> (#[trigger] ids[u] as int) == first + u,
                forall|i: int|
                    0 <= i < first ==> self.oracles.oracles[i] == old(self).oracles.oracles[i],
                forall|i: int|
                    first <= i < first + t ==> {
                        let o = #[trigger] self.oracles.oracles[i];
                        o.n_vars == log_size && o.tower_level == tower_level && o.variant
                            is Committed
                    },
                self.oracles.batches@ == old(self).oracles.batches@,
                self.constraints == old(self).constraints,
                self.witness == old(self).witness,
                self.namespace_stack == old(self).namespace_stack,
            decreases count - t,
        {
            let id = self.add_committed(name.clone(), log_size, tower_level);
            ids.push(id);
            t = t + 1;
        }
        ids
    }

    /// Register a transparent constant column; its tower level is the
    /// level of the constant.
    pub fn add_transparent_constant(&mut self, name: String, log_size: usize, value: u128) -> (id:
        OracleId)
        requires
            old(self).wf(),
            old(self).oracles.oracles.len() < usize::MAX,
        ensures
            final(self).wf(),
            id == old(self).oracles.oracles.len(),
            final(self).oracles.oracles.len() == old(self).oracles.oracles.len() + 1,
            forall|i: int|
                0 <= i < old(self).oracles.oracles.len() ==> final(self).oracles.oracles[i]
                    == old(self).oracles.oracles[i],
            final(self).oracles.oracles[id as int].n_vars == log_size,
            final(self).oracles.oracles[id as int].tower_level
                == crate::composition::const_tower_level(value),
            final(self).oracles.oracles[id as int].variant
                == (MultilinearOracleVariant::Transparent { value }),
            final(self).oracles.batches@ == old(self).oracles.batches@,
            final(self).constraints == old(self).constraints,
            final(self).witness == old(self).witness,
            final(self).namespace_stack == old(self).namespace_stack,
    {
        let id = self.oracles.add_transparent(log_size, value);
        self.names.push(name);
        id
    }

    /// Register a linear combination with a constant offset.
    pub fn add_linear_combination_with_offset(
        &mut self,
        name: String,
        log_size: usize,
        offset: u128,
        terms: Vec<(OracleId, u128)>,
    ) -> (r: Result<OracleId, Error>)
        requires
            old(self).wf(),
            old(self).oracles.oracles.len() < usize::MAX,
        ensures
            final(self).wf(),
            (r is Ok) <==> lc_first_error(old(self).oracles.oracles@, log_size, terms@, 0)
                is None,
            r is Err ==> Option::Some(r->Err_0) == lc_first_error(
                old(self).oracles.oracles@, log_size, terms@, 0) && final(self).oracles == old(
                self).oracles && final(self).names == old(self).names,
            r is Ok ==> {
                &&& r->Ok_0 == old(self).oracles.oracles.len()
                &&& final(self).oracles.oracles.len() == old(self).oracles.oracles.len() + 1
                &&& (forall|i: int|
                    0 <= i < old(self).oracles.oracles.len() ==> final(self).oracles.oracles[i]
                        == old(self).oracles.oracles[i])
                &&& final(self).oracles.oracles[r->Ok_0 as int].n_vars == log_size
                &&& final(self).oracles.oracles[r->Ok_0 as int].tower_level == lc_tower_level(
                    old(self).oracles.oracles@, terms@, offset, terms.len() as int)
                &&& variant_eq(
                    final(self).oracles.oracles[r->Ok_0 as int].variant,
                    MultilinearOracleVariant::LinearCombination { offset, terms },
                )
                &&& final(self).oracles.batches@ == old(self).oracles.batches@
            },
            final(self).constraints == old(self).constraints,
            final(self).witness == old(self).witness,
            final(self).namespace_stack == old(self).namespace_stack,
    {
        let r = self.oracles.add_linear_combination(log_size, terms, offset);
        match r {
            Ok(id) => {
                self.names.push(name);
                Ok(id)
            },
            Err(e) => Err(e),
        }
    }

    /// Register a linear combination without an offset.
    pub fn add_linear_combination(
        &mut self,
        name: String,
        log_size: usize,
        terms: Vec<(OracleId, u128)>,
    ) -> (r: Result<OracleId, Error>)
        requires
            old(self).wf(),
            old(self).oracles.oracles.len() < usize::MAX,
        ensures
            final(self).wf(),
            (r is Ok) <==> lc_first_error(old(self).oracles.oracles@, log_size, terms@, 0)
                is None,
            r is Err ==> Option::Some(r->Err_0) == lc_first_error(
                old(self).oracles.oracles@, log_size, terms@, 0) && final(self).oracles == old(
                self).oracles && final(self).names == old(self).names,
            r is Ok ==> {
                &&& r->Ok_0 == old(self).oracles.oracles.len()
                &&& final(self).oracles.oracles.len() == old(self).oracles.oracles.len() + 1
                &&& (forall|i: int|
                    0 <= i < old(self).oracles.oracles.len() ==> final(self).oracles.oracles[i]
                        == old(self).oracles.oracles[i])
                &&& final(self).oracles.oracles[r->Ok_0 as int].n_vars == log_size
                &&& final(self).oracles.oracles[r->Ok_0 as int].tower_level == lc_tower_level(
                    old(self).oracles.oracles@, terms@, 0, terms.len() as int)
                &&& variant_eq(
                    final(self).oracles.oracles[r->Ok_0 as int].variant,
                    MultilinearOracleVariant::LinearCombination { offset: 0, terms },
                )
                &&& final(self).oracles.batches@ == old(self).oracles.batches@
            },
            final(self).constraints == old(self).constraints,
            final(self).witness == old(self).witness,
            final(self).namespace_stack == old(self).namespace_stack,
    {
        self.add_linear_combination_with_offset(name, log_size, 0, terms)
    }

    /// Register a zero-constraint. Fails with `CompositionMismatch` when
    /// the number of ids is not the composition arity, and with
    /// `OracleNotFound` when some id is not registered; the arity is
    /// checked first.
    pub fn assert_zero(&mut self, oracle_ids: Vec<OracleId>, composition: ConstraintComposition)
        -> (r: Result<(), Error>)
        requires
            old(self).wf(),
            composition.inv(),
        ensures
            final(self).wf(),
            (r is Ok) <==> (oracle_ids.len() == composition.spec_n_vars() && (forall|t: int|
                0 <= t < oracle_ids.len() ==> (#[trigger] oracle_ids[t] as int) < old(
                    self).oracles.oracles.len())),
            r is Err ==> (r->Err_0 == Error::CompositionMismatch <==> oracle_ids.len()
                != composition.spec_n_vars()),
            r is Err ==> final(self).constraints == old(self).constraints,
            r is Ok ==> final(self).constraints.len() == old(self).constraints.len() + 1 && (
            forall|c: int|
                0 <= c < old(self).constraints.len() ==> final(self).constraints[c] == old(
                    self).constraints[c]) && final(self).constraints[old(
                self).constraints.len() as int].oracle_ids@ == oracle_ids@ && final(
                self).constraints[old(self).constraints.len() as int].composition == composition,
            final(self).oracles == old(self).oracles,
            final(self).witness == old(self).witness,
            final(self).names == old(self).names,
            final(self).namespace_stack == old(self).namespace_stack,
    {
        if oracle_ids.len() != composition.n_vars() {
            return Err(Error::CompositionMismatch);
        }
        let mut t: usize = 0;
        while t < oracle_ids.len()
            invariant
                self.wf(),
                composition.inv(),
                oracle_ids.len() == composition.spec_n_vars(),
                t <= oracle_ids.len(),
                forall|u: int|
                    0 <= u < t ==> (#[trigger] oracle_ids[u] as int)
                        < self.oracles.oracles.len(),
            decreases oracle_ids.len() - t,
        {
            if oracle_ids[t] >= self.oracles.size() {
                return Err(Error::OracleNotFound);
            }
            t = t + 1;
        }
        self.constraints.push(Constraint { oracle_ids, composition });
        proof {
            assert(final(self).constraints[old(self).constraints.len() as int].oracle_ids@
                =~= final(self).constraints[old(self).constraints.len() as int].oracle_ids@);
        }
        Ok(())
    }
}


/// The column stored for `id`, where an index past the end stores
/// nothing.
pub open spec fn col_opt(w: WitnessIndex, id: int) -> Option<crate::witness::WitnessColumn> {
    if 0 <= id < w.cols.len() {
        w.cols[id]
    } else {
        Option::None
    }
}

/// Both builders agree on the presence of a witness, and on every column
/// below `upto`.
pub open spec fn witness_frame(
    a: ConstraintSystemBuilder,
    b: ConstraintSystemBuilder,
    upto: int,
) -> bool {
    &&& (a.witness is Some <==> b.witness is Some)
    &&& (a.witness is Some ==> forall|id: int|
        0 <= id < upto ==> col_opt(b.witness->Some_0, id) == col_opt(a.witness->Some_0, id))
}

impl ConstraintSystemBuilder {
    /// Bytes stored in the witness for `id`.
    pub open spec fn wit_bytes(self, id: OracleId) -> Seq<u8> {
        col_opt(self.witness->Some_0, id as int)->Some_0->Bytes_0@
    }

    /// Bits stored in the witness for `id`.
    pub open spec fn wit_bits(self, id: OracleId) -> Seq<u8> {
        col_opt(self.witness->Some_0, id as int)->Some_0->Bits_0@
    }

    pub open spec fn wit_has_bytes(self, id: OracleId) -> bool {
        self.witness is Some && col_opt(self.witness->Some_0, id as int) matches Option::Some(
            crate::witness::WitnessColumn::Bytes(_))
    }

    pub open spec fn wit_has_bits(self, id: OracleId) -> bool {
        self.witness is Some && col_opt(self.witness->Some_0, id as int) matches Option::Some(
            crate::witness::WitnessColumn::Bits(_))
    }

    /// Install a byte column in the witness.
    pub fn witness_set_bytes(&mut self, id: OracleId, data: Vec<u8>)
        requires
            old(self).wf(),
            old(self).witness is Some,
            id < usize::MAX,
        ensures
            final(self).wf(),
            final(self).witness is Some,
            final(self).wit_has_bytes(id),
            final(self).wit_bytes(id) == data@,
            witness_frame(*old(self), *final(self), id as int),
            forall|i: int|
                i > id ==> col_opt(final(self).witness->Some_0, i) == col_opt(
                    old(self).witness->Some_0, i),
            final(self).oracles == old(self).oracles,
            final(self).constraints == old(self).constraints,
            final(self).names == old(self).names,
            final(self).namespace_stack == old(self).namespace_stack,
    {
        match &mut self.witness {
            Some(w) => w.set_bytes(id, data),
            None => {
                proof {
                    assert(false);
                }
            },
        }
    }

    /// Install a bit column in the witness; the entries must be zeros and
    /// ones.
    pub fn witness_set_bits(&mut self, id: OracleId, data: Vec<u8>)
        requires
            old(self).wf(),
            old(self).witness is Some,
            id < usize::MAX,
            forall|z: int| 0 <= z < data.len() ==> data[z] <= 1,
        ensures
            final(self).wf(),
            final(self).witness is Some,
            final(self).wit_has_bits(id),
            final(self).wit_bits(id) == data@,
            witness_frame(*old(self), *final(self), id as int),
            forall|i: int|
                i > id ==> col_opt(final(self).witness->Some_0, i) == col_opt(
                    old(self).witness->Some_0, i),
            final(self).oracles == old(self).oracles,
            final(self).constraints == old(self).constraints,
            final(self).names == old(self).names,
            final(self).namespace_stack == old(self).namespace_stack,
    {
        match &mut self.witness {
            Some(w) => w.set_bits(id, data),
            None => {
                proof {
                    assert(false);
                }
            },
        }
    }

    /// Install a 128-bit column in the witness.
    pub fn witness_set_words(&mut self, id: OracleId, data: Vec<u128>)
        requires
            old(self).wf(),
            old(self).witness is Some,
            id < usize::MAX,
        ensures
            final(self).wf(),
            final(self).witness is Some,
            witness_frame(*old(self), *final(self), id as int),
            forall|i: int|
                i > id ==> col_opt(final(self).witness->Some_0, i) == col_opt(
                    old(self).witness->Some_0, i),
            final(self).witness->Some_0.has_words(id),
            final(self).witness->Some_0.words_at(id) == data@,
            final(self).oracles == old(self).oracles,
            final(self).constraints == old(self).constraints,
            final(self).names == old(self).names,
            final(self).namespace_stack == old(self).namespace_stack,
    {
        match &mut self.witness {
            Some(w) => w.set_words(id, data),
            None => {
                proof {
                    assert(false);
                }
            },
        }
    }

    /// Read a byte column of the witness. Fails with `WitnessNotFound`
    /// when there is no witness or no column, and with
    /// `TowerLevelMismatch` when a column of another level is stored.
    pub fn witness_get_bytes(&self, id: OracleId) -> (r: Result<&Vec<u8>, Error>)
        ensures
            (r is Ok) <==> self.wit_has_bytes(id),
            r is Ok ==> r->Ok_0@ == self.wit_bytes(id),
    {
        match &self.witness {
            Some(w) => w.get_bytes(id),
            None => Err(Error::WitnessNotFound),
        }
    }
}


/// Row `z` of the columns one constraint reads, each scalar embedded into
/// the 128-bit field.
pub open spec fn constraint_row(b: ConstraintSystemBuilder, c: int, z: int) -> Seq<u128> {
    Seq::new(
        b.constraints[c].oracle_ids.len() as nat,
        |t: int| b.witness->Some_0.scalar_at(b.constraints[c].oracle_ids[t], z),
    )
}

/// Every column a constraint reads is stored and has one scalar per
/// hypercube point of its oracle.
pub open spec fn constraint_cols_ok(b: ConstraintSystemBuilder, c: int) -> bool {
    forall|t: int|
        0 <= t < b.constraints[c].oracle_ids.len() ==> b.witness->Some_0.has(
            #[trigger] b.constraints[c].oracle_ids[t],
        ) && b.witness->Some_0.col_len(b.constraints[c].oracle_ids[t])
            == crate::multilinear::pow2(
            b.oracles.oracles[b.constraints[c].oracle_ids[t] as int].n_vars as nat,
        ) && b.oracles.oracles[b.constraints[c].oracle_ids[t] as int].n_vars
            == b.oracles.oracles[b.constraints[c].oracle_ids[0] as int].n_vars
}

/// Number of rows a constraint is checked on: the hypercube of its first
/// oracle.
pub open spec fn constraint_height(b: ConstraintSystemBuilder, c: int) -> int {
    if b.constraints[c].oracle_ids.len() == 0 {
        0
    } else {
        crate::multilinear::pow2(
            b.oracles.oracles[b.constraints[c].oracle_ids[0] as int].n_vars as nat,
        )
    }
}

/// The constraint vanishes on row `z`.
pub open spec fn constraint_holds_at(b: ConstraintSystemBuilder, c: int, z: int) -> bool {
    b.constraints[c].composition.spec_eval(constraint_row(b, c, z)) == 0
}

/// One constraint passes the check: its columns are stored with the
/// right length and it vanishes on every row.
pub open spec fn constraint_checked(b: ConstraintSystemBuilder, c: int) -> bool {
    constraint_cols_ok(b, c) && (forall|z: int|
        0 <= z < constraint_height(b, c) ==> #[trigger] constraint_holds_at(b, c, z))
}

/// The witness satisfies the whole constraint system: every referenced
/// column is stored with the right length and every constraint vanishes
/// on every row.
pub open spec fn witness_valid(b: ConstraintSystemBuilder) -> bool {
    forall|c: int| 0 <= c < b.constraints.len() ==> #[trigger] constraint_checked(b, c)
}

impl ConstraintSystemBuilder {
    /// Check the witness against every registered constraint, row by row:
    /// succeeds exactly when every referenced column is stored with one
    /// scalar per hypercube point and every constraint evaluates to zero
    /// on every row. A missing column reports `WitnessNotFound`, a
    /// missized one `WitnessSizeMismatch`, and a nonzero constraint value
    /// `WitnessInvalid`.
    pub fn validate_witness(&self) -> (r: Result<(), Error>)
        requires
            self.wf(),
            self.witness is Some,
            forall|i: int|
                0 <= i < self.oracles.oracles.len() ==> crate::multilinear::pow2(
                    (#[trigger] self.oracles.oracles[i]).n_vars as nat,
                ) <= usize::MAX,
        ensures
            (r is Ok) <==> witness_valid(*self),
            r is Err ==> r->Err_0 == Error::WitnessNotFound || r->Err_0
                == Error::WitnessSizeMismatch || r->Err_0 == Error::WitnessInvalid,
    {
        let w = match &self.witness {
            Some(w) => w,
            None => {
                proof {
                    assert(false);
                }
                return Err(Error::WitnessNotFound);
            },
        };
        let n_con = self.constraints.len();
        let mut c: usize = 0;
        while c < n_con
            invariant
                self.wf(),
                self.witness is Some,
                self.witness matches Option::Some(wi) && wi == w,
                forall|i: int|
                    0 <= i < self.oracles.oracles.len() ==> crate::multilinear::pow2(
                        (#[trigger] self.oracles.oracles[i]).n_vars as nat,
                    ) <= usize::MAX,
                n_con == self.constraints.len(),
                c <= n_con,
                forall|c2: int| 0 <= c2 < c ==> #[trigger] constraint_checked(*self, c2),
            decreases n_con - c,
        {
            let ids = &self.constraints[c].oracle_ids;
            let n_ids = ids.len();
            let mut t: usize = 0;
            while t < n_ids
                invariant
                    self.wf(),
                    self.witness is Some,
                    self.witness matches Option::Some(wi) && wi == w,
                    forall|i: int|
                        0 <= i < self.oracles.oracles.len() ==> crate::multilinear::pow2(
                            (#[trigger] self.oracles.oracles[i]).n_vars as nat,
                        ) <= usize::MAX,
                    c < self.constraints.len(),
                    ids == &self.constraints[c as int].oracle_ids,
                    n_ids == ids.len(),
                    t <= n_ids,
                    forall|t2: int|
                        0 <= t2 < t ==> w.has(#[trigger] ids[t2]) && w.col_len(ids[t2])
                            == crate::multilinear::pow2(
                            self.oracles.oracles[ids[t2] as int].n_vars as nat,
                        ) && self.oracles.oracles[ids[t2] as int].n_vars
                            == self.oracles.oracles[ids[0] as int].n_vars,
                decreases n_ids - t,
            {
                let id = ids[t];
                if id >= w.cols.len() {
                    proof {
                        assert(!w.has(ids[t as int]));
                        assert(!witness_valid(*self)) by {
                            if witness_valid(*self) {
                                assert(constraint_checked(*self, c as int));
                                assert(constraint_cols_ok(*self, c as int));
                            }
                        }
                    }
                    return Err(Error::WitnessNotFound);
                }
                let is_there = match &w.cols[id] {
                    Some(_) => true,
                    None => false,
                };
                if !is_there {
                    proof {
                        assert(!w.has(ids[t as int]));
                        assert(!witness_valid(*self)) by {
                            if witness_valid(*self) {
                                assert(constraint_checked(*self, c as int));
                                assert(constraint_cols_ok(*self, c as int));
                            }
                        }
                    }
                    return Err(Error::WitnessNotFound);
                }
                let expected = crate::multilinear::pow2_exec(
                    self.oracles.oracles[id].n_vars,
                );
                if w.len_of(id) != expected {
                    proof {
                        assert(!witness_valid(*self)) by {
                            if witness_valid(*self) {
                                assert(constraint_checked(*self, c as int));
                                assert(constraint_cols_ok(*self, c as int));
                            }
                        }
                    }
                    return Err(Error::WitnessSizeMismatch);
                }
                if self.oracles.oracles[id].n_vars != self.oracles.oracles[ids[0]].n_vars {
                    proof {
                        assert(!witness_valid(*self)) by {
                            if witness_valid(*self) {
                                assert(constraint_checked(*self, c as int));
                                assert(constraint_cols_ok(*self, c as int));
                            }
                        }
                    }
                    return Err(Error::WitnessSizeMismatch);
                }
                t = t + 1;
            }
            if n_ids > 0 {
                let height = crate::multilinear::pow2_exec(
                    self.oracles.oracles[ids[0]].n_vars,
                );
                let mut z: usize = 0;
                while z < height
                    invariant
                        self.wf(),
                        self.witness is Some,
                        self.witness matches Option::Some(wi) && wi == w,
                        c < self.constraints.len(),
                        ids == &self.constraints[c as int].oracle_ids,
                        n_ids == ids.len(),
                        n_ids > 0,
                        height as int == constraint_height(*self, c as int),
                        forall|t2: int|
                            0 <= t2 < n_ids ==> w.has(#[trigger] ids[t2]) && w.col_len(ids[t2])
                                == crate::multilinear::pow2(
                                self.oracles.oracles[ids[t2] as int].n_vars as nat,
                            ) && self.oracles.oracles[ids[t2] as int].n_vars
                                == self.oracles.oracles[ids[0] as int].n_vars,
                        z <= height,
                        forall|z2: int|
                            0 <= z2 < z ==> #[trigger] constraint_holds_at(*self, c as int, z2),
                    decreases height - z,
                {
                    let mut q: Vec<u128> = Vec::new();
                    let mut t2: usize = 0;
                    while t2 < n_ids
                        invariant
                            self.wf(),
                            self.witness is Some,
                            self.witness matches Option::Some(wi) && wi == w,
                            c < self.constraints.len(),
                            ids == &self.constraints[c as int].oracle_ids,
                            n_ids == ids.len(),
                            height as int == constraint_height(*self, c as int),
                            forall|t3: int|
                                0 <= t3 < n_ids ==> w.has(#[trigger] ids[t3]) && w.col_len(
                                    ids[t3],
                                ) == crate::multilinear::pow2(
                                    self.oracles.oracles[ids[t3] as int].n_vars as nat,
                                ) && self.oracles.oracles[ids[t3] as int].n_vars
                                    == self.oracles.oracles[ids[0] as int].n_vars,
                            z < height,
                            n_ids > 0,
                            t2 <= n_ids,
                            q.len() == t2,
                            forall|t3: int|
                                0 <= t3 < t2 ==> q[t3] == w.scalar_at(ids[t3], z as int),
                        decreases n_ids - t2,
                    {
                        proof {
                            assert(w.col_len(ids[t2 as int]) == constraint_height(
                                *self,
                                c as int,
                            ));
                        }
                        q.push(w.scalar(ids[t2], z));
                        t2 = t2 + 1;
                    }
                    proof {
                        assert(q@ =~= constraint_row(*self, c as int, z as int));
                    }
                    let v = match self.constraints[c].composition.evaluate(&q) {
                        Ok(v) => v,
                        Err(_) => {
                            proof {
                                assert(false);
                            }
                            return Err(Error::WitnessInvalid);
                        },
                    };
                    if v != 0 {
                        proof {
                            assert(constraint_row(*self, c as int, z as int) =~= q@);
                            assert(!constraint_holds_at(*self, c as int, z as int));
                            assert(!witness_valid(*self)) by {
                                if witness_valid(*self) {
                                    assert(constraint_checked(*self, c as int));
                                    assert(constraint_holds_at(*self, c as int, z as int));
                                }
                            }
                        }
                        return Err(Error::WitnessInvalid);
                    }
                    z = z + 1;
                }
            }
            proof {
                assert(constraint_cols_ok(*self, c as int));
                assert forall|z2: int|
                    0 <= z2 < constraint_height(*self, c as int) implies
                    #[trigger] constraint_holds_at(*self, c as int, z2) by {}
                assert(constraint_checked(*self, c as int));
            }
            c = c + 1;
        }
        Ok(())
    }
}

} // verus!

//! Witness index: per-oracle backing storage. Each entry is a dense
//! column of scalars at the oracle's tower level, keyed by the oracle id.
//! Columns are written once and read during proving and validation.

use vstd::prelude::*;

use crate::error::Error;
use crate::oracle::OracleId;

verus! {

/// One column of witness data, at the tower level it was written with.
/// Bit columns hold the scalars `0` and `1` as bytes.
#[derive(Debug)]
pub enum WitnessColumn {
    Bits(Vec<u8>),
    Bytes(Vec<u8>),
    Words(Vec<u128>),
}

/// A partial map from oracle id to a column, as a growable vector of
/// options.
#[derive(Debug)]
pub struct WitnessIndex {
    pub cols: Vec<Option<WitnessColumn>>,
}

/// Bit columns hold only zeros and ones.
pub open spec fn column_wf(c: WitnessColumn) -> bool {
    match c {
        WitnessColumn::Bits(data) => forall|z: int| 0 <= z < data.len() ==> data[z] <= 1,
        WitnessColumn::Bytes(_) => true,
        WitnessColumn::Words(_) => true,
    }
}

impl WitnessIndex {
    pub open spec fn wf(self) -> bool {
        forall|i: int|
            0 <= i < self.cols.len() ==> ((#[trigger] self.cols[i]) matches Option::Some(c)
                ==> column_wf(c))
    }

    /// Whether a column is stored for the id.
    pub open spec fn has(self, id: OracleId) -> bool {
        id < self.cols.len() && self.cols[id as int] is Some
    }

    /// The stored bytes of a byte column.
    pub open spec fn bytes_at(self, id: OracleId) -> Seq<u8> {
        self.cols[id as int]->Some_0->Bytes_0@
    }

    /// The stored bits of a bit column.
    pub open spec fn bits_at(self, id: OracleId) -> Seq<u8> {
        self.cols[id as int]->Some_0->Bits_0@
    }

    /// The stored words of a 128-bit column.
    pub open spec fn words_at(self, id: OracleId) -> Seq<u128> {
        self.cols[id as int]->Some_0->Words_0@
    }

    pub open spec fn has_bytes(self, id: OracleId) -> bool {
        self.has(id) && self.cols[id as int]->Some_0 is Bytes
    }

    pub open spec fn has_bits(self, id: OracleId) -> bool {
        self.has(id) && self.cols[id as int]->Some_0 is Bits
    }

    pub open spec fn has_words(self, id: OracleId) -> bool {
        self.has(id) && self.cols[id as int]->Some_0 is Words
    }

    pub fn new() -> (r: WitnessIndex)
        ensures
            r.wf(),
            r.cols.len() == 0,
    {
        WitnessIndex { cols: Vec::new() }
    }

    /// Grow the map so that `id` is indexable.
    fn reserve(&mut self, id: OracleId)
        requires
            old(self).wf(),
            id < usize::MAX,
        ensures
            final(self).wf(),
            final(self).cols.len() > id,
            final(self).cols.len() >= old(self).cols.len(),
            forall|i: int|
                0 <= i < old(self).cols.len() ==> final(self).cols[i] == old(self).cols[i],
            forall|i: int|
                old(self).cols.len() <= i < final(self).cols.len() ==> final(self).cols[i]
                    is None,
    {
        while self.cols.len() <= id
            invariant
                self.wf(),
                id < usize::MAX,
                self.cols.len() >= old(self).cols.len(),
                forall|i: int|
                    0 <= i < old(self).cols.len() ==> self.cols[i] == old(self).cols[i],
                forall|i: int|
                    old(self).cols.len() <= i < self.cols.len() ==> self.cols[i] is None,
            decreases id + 1 - self.cols.len(),
        {
            self.cols.push(None);
        }
    }

    /// Install one column of one kind; any column previously stored for
    /// the id is replaced.
    pub fn set_column(&mut self, id: OracleId, column: WitnessColumn)
        requires
            old(self).wf(),
            column_wf(column),
            id < usize::MAX,
        ensures
            final(self).wf(),
            final(self).cols.len() > id,
            final(self).cols.len() >= old(self).cols.len(),
            final(self).cols[id as int] == Option::Some(column),
            forall|i: int|
                0 <= i < final(self).cols.len() && i != id ==> final(self).cols[i] == (
                if i < old(self).cols.len() {
                    old(self).cols[i]
                } else {
                    Option::<WitnessColumn>::None
                }),
    {
        self.reserve(id);
        self.cols.set(id, Some(column));
    }

    /// Install a byte column for the id.
    pub fn set_bytes(&mut self, id: OracleId, data: Vec<u8>)
        requires
            old(self).wf(),
            id < usize::MAX,
        ensures
            final(self).wf(),
            final(self).cols.len() > id,
            final(self).cols.len() >= old(self).cols.len(),
            final(self).has_bytes(id),
            final(self).bytes_at(id) == data@,
            forall|i: int|
                0 <= i < final(self).cols.len() && i != id ==> final(self).cols[i] == (
                if i < old(self).cols.len() {
                    old(self).cols[i]
                } else {
                    Option::<WitnessColumn>::None
                }),
    {
        self.set_column(id, WitnessColumn::Bytes(data));
    }

    /// Install a bit column for the id; the entries must be zeros and
    /// ones.
    pub fn set_bits(&mut self, id: OracleId, data: Vec<u8>)
        requires
            old(self).wf(),
            id < usize::MAX,
            forall|z: int| 0 <= z < data.len() ==> data[z] <= 1,
        ensures
            final(self).wf(),
            final(self).cols.len() > id,
            final(self).cols.len() >= old(self).cols.len(),
            final(self).has_bits(id),
            final(self).bits_at(id) == data@,
            forall|i: int|
                0 <= i < final(self).cols.len() && i != id ==> final(self).cols[i] == (
                if i < old(self).cols.len() {
                    old(self).cols[i]
                } else {
                    Option::<WitnessColumn>::None
                }),
    {
        self.set_column(id, WitnessColumn::Bits(data));
    }

    /// Install a 128-bit column for the id.
    pub fn set_words(&mut self, id: OracleId, data: Vec<u128>)
        requires
            old(self).wf(),
            id < usize::MAX,
        ensures
            final(self).wf(),
            final(self).cols.len() > id,
            final(self).cols.len() >= old(self).cols.len(),
            final(self).has_words(id),
            final(self).words_at(id) == data@,
            forall|i: int|
                0 <= i < final(self).cols.len() && i != id ==> final(self).cols[i] == (
                if i < old(self).cols.len() {
                    old(self).cols[i]
                } else {
                    Option::<WitnessColumn>::None
                }),
    {
        self.set_column(id, WitnessColumn::Words(data));
    }

    /// Read a byte column. Fails with `WitnessNotFound` when nothing is
    /// stored for the id, and with `TowerLevelMismatch` when a column of
    /// another level is.
    pub fn get_bytes(&self, id: OracleId) -> (r: Result<&Vec<u8>, Error>)
        ensures
            (r is Ok) <==> self.has_bytes(id),
            r is Ok ==> r->Ok_0@ == self.bytes_at(id),
            r is Err ==> (r->Err_0 == Error::WitnessNotFound <==> !self.has(id)),
            r is Err ==> (r->Err_0 == Error::TowerLevelMismatch <==> self.has(id)),
    {
        if id >= self.cols.len() {
            return Err(Error::WitnessNotFound);
        }
        match &self.cols[id] {
            Some(WitnessColumn::Bytes(data)) => Ok(data),
            Some(_) => Err(Error::TowerLevelMismatch),
            None => Err(Error::WitnessNotFound),
        }
    }

    /// Read a bit column, with the same failure rules as `get_bytes`.
    pub fn get_bits(&self, id: OracleId) -> (r: Result<&Vec<u8>, Error>)
        requires
            self.wf(),
        ensures
            (r is Ok) <==> self.has_bits(id),
            r is Ok ==> r->Ok_0@ == self.bits_at(id),
            r is Ok ==> forall|z: int| 0 <= z < r->Ok_0.len() ==> r->Ok_0[z] <= 1,
            r is Err ==> (r->Err_0 == Error::WitnessNotFound <==> !self.has(id)),
            r is Err ==> (r->Err_0 == Error::TowerLevelMismatch <==> self.has(id)),
    {
        if id >= self.cols.len() {
            return Err(Error::WitnessNotFound);
        }
        match &self.cols[id] {
            Some(WitnessColumn::Bits(data)) => Ok(data),
            Some(_) => Err(Error::TowerLevelMismatch),
            None => Err(Error::WitnessNotFound),
        }
    }

    /// Read a 128-bit column, with the same failure rules as `get_bytes`.
    pub fn get_words(&self, id: OracleId) -> (r: Result<&Vec<u128>, Error>)
        ensures
            (r is Ok) <==> self.has_words(id),
            r is Ok ==> r->Ok_0@ == self.words_at(id),
            r is Err ==> (r->Err_0 == Error::WitnessNotFound <==> !self.has(id)),
            r is Err ==> (r->Err_0 == Error::TowerLevelMismatch <==> self.has(id)),
    {
        if id >= self.cols.len() {
            return Err(Error::WitnessNotFound);
        }
        match &self.cols[id] {
            Some(WitnessColumn::Words(data)) => Ok(data),
            Some(_) => Err(Error::TowerLevelMismatch),
            None => Err(Error::WitnessNotFound),
        }
    }

    /// The scalar at row `z` of the column for `id`, embedded into the
    /// 128-bit field; bits and bytes embed as their representation.
    pub open spec fn scalar_at(self, id: OracleId, z: int) -> u128 {
        match self.cols[id as int]->Some_0 {
            WitnessColumn::Bits(data) => data[z] as u128,
            WitnessColumn::Bytes(data) => data[z] as u128,
            WitnessColumn::Words(data) => data[z],
        }
    }

    /// Length of the column for `id`.
    pub open spec fn col_len(self, id: OracleId) -> int {
        match self.cols[id as int]->Some_0 {
            WitnessColumn::Bits(data) => data.len() as int,
            WitnessColumn::Bytes(data) => data.len() as int,
            WitnessColumn::Words(data) => data.len() as int,
        }
    }

    /// Read one scalar of a stored column, embedded into the 128-bit
    /// field.
    pub fn scalar(&self, id: OracleId, z: usize) -> (r: u128)
        requires
            self.has(id),
            z < self.col_len(id),
        ensures
            r == self.scalar_at(id, z as int),
    {
        match &self.cols[id] {
            Some(WitnessColumn::Bits(data)) => data[z] as u128,
            Some(WitnessColumn::Bytes(data)) => data[z] as u128,
            Some(WitnessColumn::Words(data)) => data[z],
            None => {
                proof {
                    assert(false);
                }
                0
            },
        }
    }

    /// Length of a stored column.
    pub fn len_of(&self, id: OracleId) -> (r: usize)
        requires
            self.has(id),
        ensures
            r == self.col_len(id),
    {
        match &self.cols[id] {
            Some(WitnessColumn::Bits(data)) => data.len(),
            Some(WitnessColumn::Bytes(data)) => data.len(),
            Some(WitnessColumn::Words(data)) => data.len(),
            None => {
                proof {
                    assert(false);
                }
                0
            },
        }
    }
}

} // verus!

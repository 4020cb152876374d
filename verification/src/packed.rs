//! Packed field values: a SIMD-style vector of four 128-bit scalars.
//! Supports broadcast, lane get/set, elementwise addition, de-interleaving
//! of lane blocks, and linear extrapolation against a byte-field point
//! acting on every lane.

use vstd::prelude::*;

use crate::field::{b128_mul_b8, mul128_b8};

verus! {

/// Base-2 logarithm of the number of lanes.
pub const LOG_WIDTH: usize = 2;

/// Number of scalar lanes of a packed value.
pub const WIDTH: usize = 4;

/// Four 128-bit scalars in one value.
#[derive(Clone, Copy, Debug, PartialEq, Eq, Structural)]
pub struct Packed {
    pub l0: u128,
    pub l1: u128,
    pub l2: u128,
    pub l3: u128,
}

impl Packed {
    /// Lane `i`.
    pub open spec fn lane(self, i: int) -> u128 {
        if i == 0 {
            self.l0
        } else if i == 1 {
            self.l1
        } else if i == 2 {
            self.l2
        } else {
            self.l3
        }
    }

    /// The all-zero pack.
    pub fn zero() -> (r: Packed)
        ensures
            forall|i: int| 0 <= i < 4 ==> r.lane(i) == 0,
    {
        Packed { l0: 0, l1: 0, l2: 0, l3: 0 }
    }

    /// Every lane holds the scalar.
    pub fn broadcast(s: u128) -> (r: Packed)
        ensures
            forall|i: int| 0 <= i < 4 ==> r.lane(i) == s,
    {
        Packed { l0: s, l1: s, l2: s, l3: s }
    }

    /// Read lane `i`.
    pub fn get(&self, i: usize) -> (r: u128)
        requires
            i < 4,
        ensures
            r == self.lane(i as int),
    {
        if i == 0 {
            self.l0
        } else if i == 1 {
            self.l1
        } else if i == 2 {
            self.l2
        } else {
            self.l3
        }
    }

    /// Write lane `i`.
    pub fn set(&mut self, i: usize, v: u128)
        requires
            i < 4,
        ensures
            final(self).lane(i as int) == v,
            forall|t: int| 0 <= t < 4 && t != i ==> final(self).lane(t) == old(self).lane(t),
    {
        if i == 0 {
            self.l0 = v;
        } else if i == 1 {
            self.l1 = v;
        } else if i == 2 {
            self.l2 = v;
        } else {
            self.l3 = v;
        }
    }

    /// Elementwise sum; addition of binary field elements is xor.
    pub fn add(self, other: Packed) -> (r: Packed)
        ensures
            forall|i: int| 0 <= i < 4 ==> r.lane(i) == (self.lane(i) ^ other.lane(i)),
    {
        Packed {
            l0: self.l0 ^ other.l0,
            l1: self.l1 ^ other.l1,
            l2: self.l2 ^ other.l2,
            l3: self.l3 ^ other.l3,
        }
    }
}

/// Number of lanes in one interleaved block.
pub open spec fn block_len(log_block_len: usize) -> int {
    if log_block_len == 0 {
        1
    } else {
        2
    }
}

/// Lane `i` of the concatenation of two packs.
pub open spec fn concat_lane(a: Packed, b: Packed, i: int) -> u128 {
    if i < 4 {
        a.lane(i)
    } else {
        b.lane(i - 4)
    }
}

/// De-interleave two packs holding interleaved blocks of `2^log_block_len`
/// lanes: the first result gathers the even blocks of the concatenation,
/// the second the odd blocks.
pub fn unzip(a: Packed, b: Packed, log_block_len: usize) -> (r: (Packed, Packed))
    requires
        log_block_len < 2,
    ensures
        forall|i: int|
            0 <= i < 4 ==> r.0.lane(i) == concat_lane(
                a, b, (i / block_len(log_block_len)) * 2 * block_len(log_block_len) + (i
                    % block_len(log_block_len))),
        forall|i: int|
            0 <= i < 4 ==> r.1.lane(i) == concat_lane(
                a, b, (i / block_len(log_block_len)) * 2 * block_len(log_block_len) + (i
                    % block_len(log_block_len)) + block_len(log_block_len)),
{
    if log_block_len == 0 {
        (
            Packed { l0: a.l0, l1: a.l2, l2: b.l0, l3: b.l2 },
            Packed { l0: a.l1, l1: a.l3, l2: b.l1, l3: b.l3 },
        )
    } else {
        (
            Packed { l0: a.l0, l1: a.l1, l2: b.l0, l3: b.l1 },
            Packed { l0: a.l2, l1: a.l3, l2: b.l2, l3: b.l3 },
        )
    }
}

/// Linear extrapolation through `(0, x0)` and `(1, x1)` at a byte-field
/// point `z`, on every lane at once: `x0 + z * (x1 - x0)` with the
/// subfield scalar acting bytewise.
pub fn extrapolate_line(x0: Packed, x1: Packed, z: u8) -> (r: Packed)
    ensures
        forall|i: int|
            0 <= i < 4 ==> r.lane(i) == (x0.lane(i) ^ b128_mul_b8(x0.lane(i) ^ x1.lane(i), z)),
{
    Packed {
        l0: x0.l0 ^ mul128_b8(x0.l0 ^ x1.l0, z),
        l1: x0.l1 ^ mul128_b8(x0.l1 ^ x1.l1, z),
        l2: x0.l2 ^ mul128_b8(x0.l2 ^ x1.l2, z),
        l3: x0.l3 ^ mul128_b8(x0.l3 ^ x1.l3, z),
    }
}

} // verus!

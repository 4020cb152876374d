//! Arithmetization of the ten-round Grøstl-P permutation over a 64-byte
//! state laid out as 64 columns of height `2^log_size`, each byte an
//! element of the AES field.
//!
//! Per round: `AddRoundConstant` replaces column `8i` with
//! `input[8i] + round + i*0x10` through a linear-combination oracle;
//! `SubBytes` allocates 8 committed bits for the byte of `x^(-1)`,
//! declares `inv` and the affine S-box output as linear combinations, and
//! asserts the `SBoxConstraint` on `(input, inv)`; the fused
//! `ShiftBytes + MixBytes` step commits the output columns and asserts
//! one `MixColumn` constraint per column.
//!
//! The specification functions in this module double as the reference
//! permutation: the witness the builder populates is proved to satisfy
//! it row by row.

use vstd::prelude::*;

use crate::builder::{col_opt, witness_frame, ConstraintComposition, ConstraintSystemBuilder};
use crate::composition::{mix_bytes_row, MixColumn, SBoxConstraint};
use crate::error::Error;
use crate::field::{b8_inv, b8_mul, b8_xtime, inv8, mul8, xtime};
use crate::oracle::{lc_variant_is, lemma_lc_ok, MultilinearOracleVariant, OracleId};

verus! {

/// The Rijndael S-box.
const S_BOX: [u8; 256] = [
    0x63, 0x7c, 0x77, 0x7b, 0xf2, 0x6b, 0x6f, 0xc5,
    0x30, 0x01, 0x67, 0x2b, 0xfe, 0xd7, 0xab, 0x76,
    0xca, 0x82, 0xc9, 0x7d, 0xfa, 0x59, 0x47, 0xf0,
    0xad, 0xd4, 0xa2, 0xaf, 0x9c, 0xa4, 0x72, 0xc0,
    0xb7, 0xfd, 0x93, 0x26, 0x36, 0x3f, 0xf7, 0xcc,
    0x34, 0xa5, 0xe5, 0xf1, 0x71, 0xd8, 0x31, 0x15,
    0x04, 0xc7, 0x23, 0xc3, 0x18, 0x96, 0x05, 0x9a,
    0x07, 0x12, 0x80, 0xe2, 0xeb, 0x27, 0xb2, 0x75,
    0x09, 0x83, 0x2c, 0x1a, 0x1b, 0x6e, 0x5a, 0xa0,
    0x52, 0x3b, 0xd6, 0xb3, 0x29, 0xe3, 0x2f, 0x84,
    0x53, 0xd1, 0x00, 0xed, 0x20, 0xfc, 0xb1, 0x5b,
    0x6a, 0xcb, 0xbe, 0x39, 0x4a, 0x4c, 0x58, 0xcf,
    0xd0, 0xef, 0xaa, 0xfb, 0x43, 0x4d, 0x33, 0x85,
    0x45, 0xf9, 0x02, 0x7f, 0x50, 0x3c, 0x9f, 0xa8,
    0x51, 0xa3, 0x40, 0x8f, 0x92, 0x9d, 0x38, 0xf5,
    0xbc, 0xb6, 0xda, 0x21, 0x10, 0xff, 0xf3, 0xd2,
    0xcd, 0x0c, 0x13, 0xec, 0x5f, 0x97, 0x44, 0x17,
    0xc4, 0xa7, 0x7e, 0x3d, 0x64, 0x5d, 0x19, 0x73,
    0x60, 0x81, 0x4f, 0xdc, 0x22, 0x2a, 0x90, 0x88,
    0x46, 0xee, 0xb8, 0x14, 0xde, 0x5e, 0x0b, 0xdb,
    0xe0, 0x32, 0x3a, 0x0a, 0x49, 0x06, 0x24, 0x5c,
    0xc2, 0xd3, 0xac, 0x62, 0x91, 0x95, 0xe4, 0x79,
    0xe7, 0xc8, 0x37, 0x6d, 0x8d, 0xd5, 0x4e, 0xa9,
    0x6c, 0x56, 0xf4, 0xea, 0x65, 0x7a, 0xae, 0x08,
    0xba, 0x78, 0x25, 0x2e, 0x1c, 0xa6, 0xb4, 0xc6,
    0xe8, 0xdd, 0x74, 0x1f, 0x4b, 0xbd, 0x8b, 0x8a,
    0x70, 0x3e, 0xb5, 0x66, 0x48, 0x03, 0xf6, 0x0e,
    0x61, 0x35, 0x57, 0xb9, 0x86, 0xc1, 0x1d, 0x9e,
    0xe1, 0xf8, 0x98, 0x11, 0x69, 0xd9, 0x8e, 0x94,
    0x9b, 0x1e, 0x87, 0xe9, 0xce, 0x55, 0x28, 0xdf,
    0x8c, 0xa1, 0x89, 0x0d, 0xbf, 0xe6, 0x42, 0x68,
    0x41, 0x99, 0x2d, 0x0f, 0xb0, 0x54, 0xbb, 0x16,
];

/// The Rijndael S-box, as a sequence.
pub open spec fn sbox_table() -> Seq<u8> {
    seq![
        0x63u8, 0x7cu8, 0x77u8, 0x7bu8, 0xf2u8, 0x6bu8, 0x6fu8, 0xc5u8,
        0x30u8, 0x01u8, 0x67u8, 0x2bu8, 0xfeu8, 0xd7u8, 0xabu8, 0x76u8,
        0xcau8, 0x82u8, 0xc9u8, 0x7du8, 0xfau8, 0x59u8, 0x47u8, 0xf0u8,
        0xadu8, 0xd4u8, 0xa2u8, 0xafu8, 0x9cu8, 0xa4u8, 0x72u8, 0xc0u8,
        0xb7u8, 0xfdu8, 0x93u8, 0x26u8, 0x36u8, 0x3fu8, 0xf7u8, 0xccu8,
        0x34u8, 0xa5u8, 0xe5u8, 0xf1u8, 0x71u8, 0xd8u8, 0x31u8, 0x15u8,
        0x04u8, 0xc7u8, 0x23u8, 0xc3u8, 0x18u8, 0x96u8, 0x05u8, 0x9au8,
        0x07u8, 0x12u8, 0x80u8, 0xe2u8, 0xebu8, 0x27u8, 0xb2u8, 0x75u8,
        0x09u8, 0x83u8, 0x2cu8, 0x1au8, 0x1bu8, 0x6eu8, 0x5au8, 0xa0u8,
        0x52u8, 0x3bu8, 0xd6u8, 0xb3u8, 0x29u8, 0xe3u8, 0x2fu8, 0x84u8,
        0x53u8, 0xd1u8, 0x00u8, 0xedu8, 0x20u8, 0xfcu8, 0xb1u8, 0x5bu8,
        0x6au8, 0xcbu8, 0xbeu8, 0x39u8, 0x4au8, 0x4cu8, 0x58u8, 0xcfu8,
        0xd0u8, 0xefu8, 0xaau8, 0xfbu8, 0x43u8, 0x4du8, 0x33u8, 0x85u8,
        0x45u8, 0xf9u8, 0x02u8, 0x7fu8, 0x50u8, 0x3cu8, 0x9fu8, 0xa8u8,
        0x51u8, 0xa3u8, 0x40u8, 0x8fu8, 0x92u8, 0x9du8, 0x38u8, 0xf5u8,
        0xbcu8, 0xb6u8, 0xdau8, 0x21u8, 0x10u8, 0xffu8, 0xf3u8, 0xd2u8,
        0xcdu8, 0x0cu8, 0x13u8, 0xecu8, 0x5fu8, 0x97u8, 0x44u8, 0x17u8,
        0xc4u8, 0xa7u8, 0x7eu8, 0x3du8, 0x64u8, 0x5du8, 0x19u8, 0x73u8,
        0x60u8, 0x81u8, 0x4fu8, 0xdcu8, 0x22u8, 0x2au8, 0x90u8, 0x88u8,
        0x46u8, 0xeeu8, 0xb8u8, 0x14u8, 0xdeu8, 0x5eu8, 0x0bu8, 0xdbu8,
        0xe0u8, 0x32u8, 0x3au8, 0x0au8, 0x49u8, 0x06u8, 0x24u8, 0x5cu8,
        0xc2u8, 0xd3u8, 0xacu8, 0x62u8, 0x91u8, 0x95u8, 0xe4u8, 0x79u8,
        0xe7u8, 0xc8u8, 0x37u8, 0x6du8, 0x8du8, 0xd5u8, 0x4eu8, 0xa9u8,
        0x6cu8, 0x56u8, 0xf4u8, 0xeau8, 0x65u8, 0x7au8, 0xaeu8, 0x08u8,
        0xbau8, 0x78u8, 0x25u8, 0x2eu8, 0x1cu8, 0xa6u8, 0xb4u8, 0xc6u8,
        0xe8u8, 0xddu8, 0x74u8, 0x1fu8, 0x4bu8, 0xbdu8, 0x8bu8, 0x8au8,
        0x70u8, 0x3eu8, 0xb5u8, 0x66u8, 0x48u8, 0x03u8, 0xf6u8, 0x0eu8,
        0x61u8, 0x35u8, 0x57u8, 0xb9u8, 0x86u8, 0xc1u8, 0x1du8, 0x9eu8,
        0xe1u8, 0xf8u8, 0x98u8, 0x11u8, 0x69u8, 0xd9u8, 0x8eu8, 0x94u8,
        0x9bu8, 0x1eu8, 0x87u8, 0xe9u8, 0xceu8, 0x55u8, 0x28u8, 0xdfu8,
        0x8cu8, 0xa1u8, 0x89u8, 0x0du8, 0xbfu8, 0xe6u8, 0x42u8, 0x68u8,
        0x41u8, 0x99u8, 0x2du8, 0x0fu8, 0xb0u8, 0x54u8, 0xbbu8, 0x16u8,
    ]
}

/// S-box output for one byte.
pub open spec fn s_box_spec(x: u8) -> u8 {
    sbox_table()[x as int]
}

/// The Rijndael S-box applied to one byte.
pub fn s_box(x: u8) -> (r: u8)
    ensures
        r == s_box_spec(x),
{
    proof {
        assert(S_BOX@ =~= sbox_table());
    }
    S_BOX[x as usize]
}

/// Number of rounds in a Grøstl-256 permutation.
pub const N_ROUNDS: usize = 10;

/// Number of byte columns of the state.
pub const STATE_SIZE: usize = 64;

/// Constant vector of the Rijndael S-box affine transformation.
pub const SBOX_VEC: u8 = 0x63;

/// Matrix columns of the Rijndael S-box affine transformation, as a
/// sequence.
pub open spec fn sbox_matrix() -> Seq<u8> {
    seq![0b00011111u8, 0b00111110u8, 0b01111100u8, 0b11111000u8, 0b11110001u8, 0b11100011u8,
        0b11000111u8, 0b10001111u8]
}

/// State byte after the round-constant injection: column `8i` takes
/// `input + round + i*0x10`, the others pass through.
pub open spec fn arc_at(s: Seq<u8>, round: u8, ij: int) -> u8 {
    if ij % 8 == 0 {
        (s[ij] ^ round ^ (((ij / 8) * 0x10) as u8)) as u8
    } else {
        s[ij]
    }
}

/// State after the round-constant injection.
pub open spec fn arc_state(s: Seq<u8>, round: u8) -> Seq<u8> {
    Seq::new(64, |ij: int| arc_at(s, round, ij))
}

/// State after SubBytes.
pub open spec fn sub_state(s: Seq<u8>) -> Seq<u8> {
    Seq::new(64, |ij: int| s_box_spec(s[ij]))
}

/// Source index of the `k`-th MixColumn operand of output column `ij`:
/// the fused ShiftBytes and MixBytes reindexing.
pub open spec fn mix_src(ij: int, k: int) -> int {
    let i = ij / 8;
    let j = ij % 8;
    let jp = (j + k) % 8;
    let ip = (i + jp) % 8;
    ip * 8 + jp
}

/// Partial MixBytes sum for output column `ij`:
/// `sum_(t < k) sub[mix_src(ij, t)] * c_t` with the circulant row `c`.
pub open spec fn mix_acc(sub: Seq<u8>, ij: int, k: int) -> u8
    decreases k,
{
    if k <= 0 {
        0
    } else {
        mix_acc(sub, ij, k - 1) ^ b8_mul(sub[mix_src(ij, k - 1)], mix_bytes_row()[k - 1])
    }
}

/// State after the fused ShiftBytes and MixBytes step.
pub open spec fn mix_state(sub: Seq<u8>) -> Seq<u8> {
    Seq::new(64, |ij: int| mix_acc(sub, ij, 8))
}

/// One full round of the permutation.
pub open spec fn round_spec(s: Seq<u8>, round: u8) -> Seq<u8> {
    mix_state(sub_state(arc_state(s, round)))
}

/// The first `n` rounds of the permutation.
pub open spec fn perm_rounds(s: Seq<u8>, n: int) -> Seq<u8>
    decreases n,
{
    if n <= 0 {
        s
    } else {
        round_spec(perm_rounds(s, n - 1), (n - 1) as u8)
    }
}

/// The Grøstl-P permutation of a 64-byte state.
pub open spec fn groestl_p_spec(s: Seq<u8>) -> Seq<u8> {
    perm_rounds(s, 10)
}

/// The optimized MixBytes recurrence of the implementation guide equals
/// the circulant row sum `2a0 + 2a1 + 3a2 + 4a3 + 5a4 + 3a5 + 5a6 + 7a7`.
#[verifier::rlimit(100)]
pub proof fn lemma_mix_recurrence(a0: u8, a1: u8, a2: u8, a3: u8, a4: u8, a5: u8, a6: u8, a7: u8)
    by (bit_vector)
    ensures
        b8_xtime(b8_xtime(a3 ^ a4 ^ a6 ^ a7) ^ (a0 ^ a1 ^ a2 ^ a5 ^ a7)) ^ a2 ^ a4 ^ a5 ^ a6 ^ a7
            == b8_mul(a0, 2) ^ b8_mul(a1, 2) ^ b8_mul(a2, 3) ^ b8_mul(a3, 4) ^ b8_mul(a4, 5)
            ^ b8_mul(a5, 3) ^ b8_mul(a6, 5) ^ b8_mul(a7, 7),
{
}

/// The recurrence applied to the gathered operands of column `ij` yields
/// the MixBytes sum for that column.
#[verifier::rlimit(80)]
proof fn lemma_mix_step(sub: Seq<u8>, ij: int, a: Seq<u8>)
    requires
        sub.len() == 64,
        0 <= ij < 64,
        a.len() == 8,
        forall|t: int| 0 <= t < 8 ==> 0 <= mix_src(ij, t) < 64 && a[t] == sub[mix_src(ij, t)],
    ensures
        b8_xtime(b8_xtime(a[3] ^ a[4] ^ a[6] ^ a[7]) ^ (a[0] ^ a[1] ^ a[2] ^ a[5] ^ a[7])) ^ a[2]
            ^ a[4] ^ a[5] ^ a[6] ^ a[7] == mix_acc(sub, ij, 8),
{
    lemma_mix_recurrence(a[0], a[1], a[2], a[3], a[4], a[5], a[6], a[7]);
    reveal_with_fuel(mix_acc, 9);
    assert(mix_bytes_row()[0] == 2 && mix_bytes_row()[1] == 2 && mix_bytes_row()[2] == 3
        && mix_bytes_row()[3] == 4 && mix_bytes_row()[4] == 5 && mix_bytes_row()[5] == 3
        && mix_bytes_row()[6] == 5 && mix_bytes_row()[7] == 7);
    let m0 = b8_mul(a[0], 2);
    assert(0u8 ^ m0 == m0) by (bit_vector);
}

/// One round of the reference permutation.
pub fn round_reference(state: &Vec<u8>, round: u8) -> (r: Vec<u8>)
    requires
        state.len() == 64,
        round < 10,
    ensures
        r@ == round_spec(state@, round),
{
    let mut after_arc: Vec<u8> = Vec::new();
    let mut ij: usize = 0;
    while ij < 64
        invariant
            state.len() == 64,
            ij <= 64,
            after_arc.len() == ij,
            forall|t: int| 0 <= t < ij ==> after_arc[t] == arc_at(state@, round, t),
        decreases 64 - ij,
    {
        let v = if ij % 8 == 0 {
            state[ij] ^ round ^ (((ij / 8) * 0x10) as u8)
        } else {
            state[ij]
        };
        after_arc.push(v);
        ij = ij + 1;
    }
    let mut sub: Vec<u8> = Vec::new();
    let mut ij2: usize = 0;
    while ij2 < 64
        invariant
            after_arc.len() == 64,
            forall|t: int| 0 <= t < 64 ==> after_arc[t] == arc_at(state@, round, t),
            state.len() == 64,
            ij2 <= 64,
            sub.len() == ij2,
            forall|t: int| 0 <= t < ij2 ==> sub[t] == s_box_spec(arc_at(state@, round, t)),
        decreases 64 - ij2,
    {
        sub.push(s_box(after_arc[ij2]));
        ij2 = ij2 + 1;
    }
    proof {
        assert(sub@ =~= sub_state(arc_state(state@, round)));
    }
    let out = mix_reference(&sub);
    proof {
        assert(out@ =~= round_spec(state@, round));
    }
    out
}

/// The fused ShiftBytes and MixBytes step on a 64-byte state, computed
/// with the optimized recurrence
/// `b = 2*(2*(a3+a4+a6+a7) + a0+a1+a2+a5+a7) + a2+a4+a5+a6+a7`.
#[verifier::rlimit(60)]
pub fn mix_reference(sub: &Vec<u8>) -> (r: Vec<u8>)
    requires
        sub.len() == 64,
    ensures
        r@ == mix_state(sub@),
{
    let mut out: Vec<u8> = Vec::new();
    let mut ij: usize = 0;
    while ij < 64
        invariant
            sub.len() == 64,
            ij <= 64,
            out.len() == ij,
            forall|t: int| 0 <= t < ij ==> out[t] == mix_acc(sub@, t, 8),
        decreases 64 - ij,
    {
        let mut a: Vec<u8> = Vec::new();
        let i = ij / 8;
        let j = ij % 8;
        let mut k: usize = 0;
        while k < 8
            invariant
                sub.len() == 64,
                ij < 64,
                i == ij / 8,
                j == ij % 8,
                k <= 8,
                a.len() == k,
                forall|t: int|
                    0 <= t < k ==> 0 <= mix_src(ij as int, t) < 64 && a[t] == sub[mix_src(
                        ij as int, t)],
            decreases 8 - k,
        {
            let jp = (j + k) % 8;
            let ip = (i + jp) % 8;
            a.push(sub[ip * 8 + jp]);
            k = k + 1;
        }
        let b = xtime(xtime(a[3] ^ a[4] ^ a[6] ^ a[7]) ^ (a[0] ^ a[1] ^ a[2] ^ a[5] ^ a[7])) ^ a[2]
            ^ a[4] ^ a[5] ^ a[6] ^ a[7];
        proof {
            lemma_mix_step(sub@, ij as int, a@);
        }
        out.push(b);
        ij = ij + 1;
    }
    out
}

/// The full reference permutation: ten rounds.
pub fn groestl_p_reference(state: &Vec<u8>) -> (r: Vec<u8>)
    requires
        state.len() == 64,
    ensures
        r@ == groestl_p_spec(state@),
{
    let mut s = round_reference(state, 0);
    proof {
        assert(perm_rounds(state@, 0) == state@);
        assert(perm_rounds(state@, 1) == round_spec(state@, 0));
    }
    let mut round: usize = 1;
    while round < 10
        invariant
            1 <= round <= 10,
            s.len() == 64,
            s@ == perm_rounds(state@, round as int),
        decreases 10 - round,
    {
        s = round_reference(&s, round as u8);
        round = round + 1;
    }
    s
}


/// A column holding `len` copies of one byte.
fn const_col(len: usize, v: u8) -> (r: Vec<u8>)
    ensures
        r.len() == len,
        forall|z: int| 0 <= z < len ==> r[z] == v,
{
    let mut col: Vec<u8> = Vec::new();
    let mut z: usize = 0;
    while z < len
        invariant
            z <= len,
            col.len() == z,
            forall|t: int| 0 <= t < z ==> col[t] == v,
        decreases len - z,
    {
        col.push(v);
        z = z + 1;
    }
    col
}

/// The terms of one round-constant linear combination: the matching
/// input column, the round-index column and the matching multiple of
/// `0x10`, each with coefficient one.
pub open spec fn rc_terms(
    inp: Seq<OracleId>,
    round_id: OracleId,
    m16: Seq<OracleId>,
    i: int,
) -> Seq<(OracleId, u128)> {
    seq![(inp[8 * i], 1u128), (round_id, 1u128), (m16[i], 1u128)]
}

/// A stored byte column of the builder's witness with the given length.
pub open spec fn wit_col_ok(b: ConstraintSystemBuilder, id: OracleId, len: int) -> bool {
    b.wit_has_bytes(id) && b.wit_bytes(id).len() == len
}

/// Register the round-constant columns of one round: column `i` of the
/// result is the linear combination `input[8i] + round + i*0x10`, with the
/// round index and the multiples of `0x10` supplied as transparent
/// columns. In witness mode the columns are populated.
pub fn permutation_round_consts(
    builder: &mut ConstraintSystemBuilder,
    log_size: usize,
    round_index: usize,
    multiples_16: &Vec<OracleId>,
    input: &Vec<OracleId>,
) -> (r: Result<Vec<OracleId>, Error>)
    requires
        old(builder).wf(),
        log_size <= 24,
        round_index < 10,
        multiples_16.len() == 8,
        input.len() == 64,
        forall|t: int|
            0 <= t < 8 ==> (#[trigger] multiples_16[t] as int) < old(
                builder).oracles.oracles.len() && old(builder).oracles.oracles[multiples_16[t] as int].n_vars
                == log_size,
        forall|t: int|
            0 <= t < 64 ==> (#[trigger] input[t] as int) < old(builder).oracles.oracles.len()
                && old(builder).oracles.oracles[input[t] as int].n_vars == log_size,
        old(builder).oracles.oracles.len() + 16 <= usize::MAX,
        old(builder).witness is Some ==> forall|i: int|
            0 <= i < 8 ==> wit_col_ok(*old(builder), #[trigger] input[8 * i], (1usize << log_size) as int),
    ensures
        final(builder).wf(),
        r is Ok,
        r->Ok_0.len() == 8,
        final(builder).oracles.oracles.len() == old(builder).oracles.oracles.len() + 9,
        forall|i: int|
            0 <= i < old(builder).oracles.oracles.len() ==> final(builder).oracles.oracles[i]
                == old(builder).oracles.oracles[i],
        forall|i: int|
            0 <= i < 8 ==> (#[trigger] r->Ok_0[i] as int) == old(builder).oracles.oracles.len()
                + 1 + i && final(builder).oracles.oracles[r->Ok_0[i] as int].n_vars == log_size,
        final(builder).oracles.oracles[old(builder).oracles.oracles.len() as int].variant == (
        MultilinearOracleVariant::Transparent { value: round_index as u128 }),
        forall|i: int|
            0 <= i < 8 ==> lc_variant_is(
                final(builder).oracles.oracles[#[trigger] r->Ok_0[i] as int].variant,
                0,
                rc_terms(
                    input@,
                    old(builder).oracles.oracles.len() as OracleId,
                    multiples_16@,
                    i,
                ),
            ),
        final(builder).constraints == old(builder).constraints,
        final(builder).namespace_stack == old(builder).namespace_stack,
        witness_frame(*old(builder), *final(builder), old(builder).oracles.oracles.len() as int),
        final(builder).witness is Some <==> old(builder).witness is Some,
        old(builder).witness is Some ==> forall|i: int|
            0 <= i < 8 ==> wit_col_ok(*final(builder), #[trigger] r->Ok_0[i], (1usize << log_size) as int)
                && (forall|z: int|
                0 <= z < (1usize << log_size) ==> #[trigger] final(builder).wit_bytes(r->Ok_0[i])[z]
                    == (
                old(builder).wit_bytes(input[8 * i])[z] ^ (round_index as u8) ^ ((i
                    * 0x10) as u8))),
{
    let len: usize = 1usize << log_size;
    let round = builder.add_transparent_constant("round_index".to_string(), log_size, round_index as u128);
    if builder.has_witness() {
        builder.witness_set_bytes(round, const_col(len, round_index as u8));
    }
    let ghost b_round = *builder;
    let mut round_consts: Vec<OracleId> = Vec::new();
    let mut i: usize = 0;
    while i < 8
        invariant
            builder.wf(),
            log_size <= 24,
            len == 1usize << log_size,
            round_index < 10,
            multiples_16.len() == 8,
            input.len() == 64,
            i <= 8,
            round_consts.len() == i,
            round as int == old(builder).oracles.oracles.len(),
            forall|t: int|
                0 <= t < 8 ==> (#[trigger] multiples_16[t] as int) < old(
                    builder).oracles.oracles.len() && old(builder).oracles.oracles[multiples_16[t] as int].n_vars
                    == log_size,
            forall|t: int|
                0 <= t < 64 ==> (#[trigger] input[t] as int) < old(builder).oracles.oracles.len()
                    && old(builder).oracles.oracles[input[t] as int].n_vars == log_size,
            old(builder).oracles.oracles.len() + 16 <= usize::MAX,
            builder.oracles.oracles.len() == old(builder).oracles.oracles.len() + 1 + i,
            forall|t: int|
                0 <= t < old(builder).oracles.oracles.len() + 1 ==> builder.oracles.oracles[t]
                    == b_round.oracles.oracles[t],
            forall|t: int|
                0 <= t < old(builder).oracles.oracles.len() ==> builder.oracles.oracles[t]
                    == old(builder).oracles.oracles[t],
            b_round.oracles.oracles.len() == old(builder).oracles.oracles.len() + 1,
            b_round.oracles.oracles[round as int].n_vars == log_size,
            forall|t: int|
                0 <= t < i ==> (#[trigger] round_consts[t] as int) == old(
                    builder).oracles.oracles.len() + 1 + t && builder.oracles.oracles[round_consts[t] as int].n_vars
                    == log_size,
            b_round.oracles.oracles[round as int].variant == (
            MultilinearOracleVariant::Transparent { value: round_index as u128 }),
            forall|t: int|
                0 <= t < i ==> lc_variant_is(
                    builder.oracles.oracles[#[trigger] round_consts[t] as int].variant,
                    0,
                    rc_terms(input@, round as OracleId, multiples_16@, t),
                ),
            builder.constraints == old(builder).constraints,
            builder.namespace_stack == old(builder).namespace_stack,
            builder.witness is Some <==> old(builder).witness is Some,
            witness_frame(*old(builder), *builder, old(builder).oracles.oracles.len() as int),
            old(builder).witness is Some ==> forall|t: int|
                0 <= t < 8 ==> wit_col_ok(*builder, #[trigger] input[8 * t], len as int) && (
                forall|z: int|
                    0 <= z < len ==> #[trigger] builder.wit_bytes(input[8 * t])[z] == old(
                        builder).wit_bytes(input[8 * t])[z]),
            old(builder).witness is Some ==> forall|t: int|
                0 <= t < i ==> wit_col_ok(*builder, #[trigger] round_consts[t], len as int) && (
                forall|z: int|
                    0 <= z < len ==> #[trigger] builder.wit_bytes(round_consts[t])[z] == (old(
                        builder).wit_bytes(input[8 * t])[z] ^ (round_index as u8) ^ ((t
                        * 0x10) as u8))),
        decreases 8 - i,
    {
        let mut terms: Vec<(OracleId, u128)> = Vec::new();
        terms.push((input[8 * i], 1));
        terms.push((round, 1));
        terms.push((multiples_16[i], 1));
        proof {
            lemma_lc_ok(builder.oracles.oracles@, log_size, terms@, 0);
            assert(terms@ =~= rc_terms(input@, round as OracleId, multiples_16@, i as int));
        }
        let rc = match builder.add_linear_combination("round_consts".to_string(), log_size, terms) {
            Ok(id) => id,
            Err(_) => {
                proof {
                    assert(false);
                }
                return Err(Error::OracleNotFound);
            },
        };
        if builder.has_witness() {
            let mut col: Vec<u8> = Vec::new();
            let mut z: usize = 0;
            let in_id = input[8 * i];
            while z < len
                invariant
                    builder.wf(),
                    builder.witness is Some,
                    z <= len,
                    col.len() == z,
                    in_id == input[8 * i as int],
                    0 <= 8 * i < 64,
                    i < 8,
                    round_index < 10,
                    wit_col_ok(*builder, in_id, len as int),
                    forall|t: int|
                        0 <= t < z ==> col[t] == (builder.wit_bytes(in_id)[t] ^ (
                        round_index as u8) ^ ((i * 0x10) as u8)),
                decreases len - z,
            {
                let in_col = match builder.witness_get_bytes(in_id) {
                    Ok(c) => c,
                    Err(_) => {
                        proof {
                            assert(false);
                        }
                        return Err(Error::WitnessNotFound);
                    },
                };
                col.push(in_col[z] ^ (round_index as u8) ^ ((i * 0x10) as u8));
                z = z + 1;
            }
            builder.witness_set_bytes(rc, col);
        }
        round_consts.push(rc);
        i = i + 1;
    }
    Ok(round_consts)
}


/// The Rijndael S-box affine matrix columns, as run-time values.
const SBOX_MATRIX: [u8; 8] = [
    0b00011111, 0b00111110, 0b01111100, 0b11111000, 0b11110001, 0b11100011, 0b11000111, 0b10001111,
];

/// Column of the `b`-th bits of a byte column.
fn bit_col(col: &Vec<u8>, b: usize) -> (r: Vec<u8>)
    requires
        b < 8,
    ensures
        r.len() == col.len(),
        forall|z: int| 0 <= z < col.len() ==> r[z] == (col[z] >> (b as u8)) & 1,
        forall|z: int| 0 <= z < col.len() ==> r[z] <= 1,
    decreases col.len(),
{
    let mut out: Vec<u8> = Vec::new();
    let mut z: usize = 0;
    while z < col.len()
        invariant
            b < 8,
            z <= col.len(),
            out.len() == z,
            forall|t: int| 0 <= t < z ==> out[t] == (col[t] >> (b as u8)) & 1 && out[t] <= 1,
        decreases col.len() - z,
    {
        let v = (col[z] >> (b as u8)) & 1;
        proof {
            let x = col[z as int];
            assert((x >> (b as u8)) & 1 <= 1) by (bit_vector);
        }
        out.push(v);
        z = z + 1;
    }
    out
}

/// The terms of the `inv` linear combination: bit column `b` of the
/// inverse with the basis coefficient `2^b`.
pub open spec fn inv_terms(base: int) -> Seq<(OracleId, u128)> {
    Seq::new(8, |b: int| (((base + b) as OracleId), 1u128 << (b as u128)))
}

/// The terms of the affine S-box output: bit column `b` of the inverse
/// with the matching matrix column of the Rijndael affine map.
pub open spec fn sbox_out_terms(base: int) -> Seq<(OracleId, u128)> {
    Seq::new(8, |b: int| (((base + b) as OracleId), sbox_matrix()[b] as u128))
}

/// Register the S-box gadget for one input column: 8 committed bit
/// columns for the byte of the inverse, the `inv` byte as their linear
/// combination over the bit basis, the output byte as the Rijndael affine
/// map of the bits, and the `SBoxConstraint` on `(input, inv)`. In
/// witness mode the columns are populated; the output column is the
/// S-box of the input column and the `inv` column is the
/// inverse-or-zero.
pub fn groestl_p_permutation_sbox(
    builder: &mut ConstraintSystemBuilder,
    name: String,
    log_size: usize,
    input: OracleId,
) -> (r: Result<OracleId, Error>)
    requires
        old(builder).wf(),
        log_size <= 24,
        (input as int) < old(builder).oracles.oracles.len(),
        old(builder).oracles.oracles[input as int].n_vars == log_size,
        old(builder).oracles.oracles.len() + 16 <= usize::MAX,
        old(builder).witness is Some ==> wit_col_ok(
            *old(builder), input, (1usize << log_size) as int),
    ensures
        final(builder).wf(),
        r is Ok,
        final(builder).oracles.oracles.len() == old(builder).oracles.oracles.len() + 10,
        forall|i: int|
            0 <= i < old(builder).oracles.oracles.len() ==> final(builder).oracles.oracles[i]
                == old(builder).oracles.oracles[i],
        (r->Ok_0 as int) == old(builder).oracles.oracles.len() + 9,
        final(builder).oracles.oracles[r->Ok_0 as int].n_vars == log_size,
        forall|b: int|
            0 <= b < 8 ==> {
                let o = #[trigger] final(builder).oracles.oracles[old(
                    builder,
                ).oracles.oracles.len() + b];
                o.variant is Committed && o.tower_level == crate::field::TOWER_LEVEL_B1
                    && o.n_vars == log_size
            },
        lc_variant_is(
            final(builder).oracles.oracles[old(builder).oracles.oracles.len() + 8].variant,
            0,
            inv_terms(old(builder).oracles.oracles.len() as int),
        ),
        final(builder).oracles.oracles[old(builder).oracles.oracles.len() + 8].n_vars
            == log_size,
        lc_variant_is(
            final(builder).oracles.oracles[r->Ok_0 as int].variant,
            SBOX_VEC as u128,
            sbox_out_terms(old(builder).oracles.oracles.len() as int),
        ),
        final(builder).constraints.len() == old(builder).constraints.len() + 1,
        forall|c: int|
            0 <= c < old(builder).constraints.len() ==> final(builder).constraints[c] == old(
                builder).constraints[c],
        final(builder).constraints[old(builder).constraints.len() as int].oracle_ids@ == seq![
            input,
            ((old(builder).oracles.oracles.len() + 8) as OracleId),
        ],
        final(builder).constraints[old(builder).constraints.len() as int].composition == (
        ConstraintComposition::SBox(SBoxConstraint)),
        final(builder).namespace_stack@ == old(builder).namespace_stack@,
        witness_frame(*old(builder), *final(builder), old(builder).oracles.oracles.len() as int),
        final(builder).witness is Some <==> old(builder).witness is Some,
        old(builder).witness is Some ==> wit_col_ok(
            *final(builder), r->Ok_0, (1usize << log_size) as int) && (forall|z: int|
            0 <= z < (1usize << log_size) ==> #[trigger] final(builder).wit_bytes(r->Ok_0)[z]
                == s_box_spec(old(builder).wit_bytes(input)[z])),
        old(builder).witness is Some ==> wit_col_ok(
            *final(builder),
            ((old(builder).oracles.oracles.len() + 8) as OracleId),
            (1usize << log_size) as int,
        ) && (forall|z: int|
            0 <= z < (1usize << log_size) ==> #[trigger] final(builder).wit_bytes(
                ((old(builder).oracles.oracles.len() + 8) as OracleId),
            )[z] == b8_inv(old(builder).wit_bytes(input)[z])),
{
    let len: usize = 1usize << log_size;
    builder.push_namespace(name);
    let inv_bits = builder.add_committed_multiple(
        "inv_bits".to_string(),
        log_size,
        crate::field::TOWER_LEVEL_B1,
        8,
    );
    let mut inv_terms: Vec<(OracleId, u128)> = Vec::new();
    let mut b: usize = 0;
    while b < 8
        invariant
            builder.wf(),
            b <= 8,
            inv_bits.len() == 8,
            inv_terms.len() == b,
            forall|t: int|
                0 <= t < 8 ==> (#[trigger] inv_bits[t] as int) < builder.oracles.oracles.len()
                    && builder.oracles.oracles[inv_bits[t] as int].n_vars == log_size,
            forall|t: int|
                0 <= t < b ==> (#[trigger] inv_terms[t]).0 == inv_bits[t] && inv_terms[t].1 == (
                1u128 << t),
        decreases 8 - b,
    {
        inv_terms.push((inv_bits[b], 1u128 << (b as u128)));
        b = b + 1;
    }
    proof {
        lemma_lc_ok(builder.oracles.oracles@, log_size, inv_terms@, 0);
        assert(inv_terms@ =~= crate::groestl::inv_terms(
            old(builder).oracles.oracles.len() as int,
        ));
    }
    let inv = match builder.add_linear_combination("inv".to_string(), log_size, inv_terms) {
        Ok(id) => id,
        Err(_) => {
            proof {
                assert(false);
            }
            return Err(Error::OracleNotFound);
        },
    };
    let mut out_terms: Vec<(OracleId, u128)> = Vec::new();
    let mut b2: usize = 0;
    while b2 < 8
        invariant
            builder.wf(),
            b2 <= 8,
            inv_bits.len() == 8,
            out_terms.len() == b2,
            forall|t: int|
                0 <= t < 8 ==> (#[trigger] inv_bits[t] as int) < builder.oracles.oracles.len()
                    && builder.oracles.oracles[inv_bits[t] as int].n_vars == log_size,
            forall|t: int|
                0 <= t < b2 ==> (#[trigger] out_terms[t]).0 == inv_bits[t] && out_terms[t].1 == (
                SBOX_MATRIX@[t] as u128),
        decreases 8 - b2,
    {
        out_terms.push((inv_bits[b2], SBOX_MATRIX[b2] as u128));
        b2 = b2 + 1;
    }
    proof {
        lemma_lc_ok(builder.oracles.oracles@, log_size, out_terms@, 0);
        assert(SBOX_MATRIX@ =~= sbox_matrix());
        assert(out_terms@ =~= sbox_out_terms(old(builder).oracles.oracles.len() as int));
    }
    let output = match builder.add_linear_combination_with_offset(
        "output".to_string(),
        log_size,
        SBOX_VEC as u128,
        out_terms,
    ) {
        Ok(id) => id,
        Err(_) => {
            proof {
                assert(false);
            }
            return Err(Error::OracleNotFound);
        },
    };
    if builder.has_witness() {
        let mut inv_col: Vec<u8> = Vec::new();
        let mut out_col: Vec<u8> = Vec::new();
        let in_col = match builder.witness_get_bytes(input) {
            Ok(c) => c,
            Err(_) => {
                proof {
                    assert(false);
                }
                return Err(Error::WitnessNotFound);
            },
        };
        let mut z: usize = 0;
        while z < len
            invariant
                z <= len,
                in_col.len() == len,
                inv_col.len() == z,
                out_col.len() == z,
                forall|t: int| 0 <= t < z ==> inv_col[t] == b8_inv(in_col[t]),
                forall|t: int| 0 <= t < z ==> out_col[t] == s_box_spec(in_col[t]),
            decreases len - z,
        {
            let x = in_col[z];
            inv_col.push(inv8(x));
            out_col.push(s_box(x));
            z = z + 1;
        }
        let ghost in_snapshot = in_col@;
        let ghost b_before_wit = *builder;
        let mut b3: usize = 0;
        while b3 < 8
            invariant
                builder.wf(),
                builder.witness is Some,
                b3 <= 8,
                inv_bits.len() == 8,
                inv_col.len() == len,
                out_col.len() == len,
                (input as int) < old(builder).oracles.oracles.len(),
                forall|t: int|
                    0 <= t < 8 ==> (#[trigger] inv_bits[t] as int) >= old(
                        builder).oracles.oracles.len() && (inv_bits[t] as int) < old(
                        builder).oracles.oracles.len() + 8 && (inv_bits[t] as int) < usize::MAX,
                old(builder).oracles.oracles.len() + 16 <= usize::MAX,
                witness_frame(*old(builder), *builder, old(builder).oracles.oracles.len() as int),
                builder.wit_has_bytes(input),
                builder.wit_bytes(input) == in_snapshot,
                builder.oracles == b_before_wit.oracles,
                builder.constraints == b_before_wit.constraints,
                builder.namespace_stack == b_before_wit.namespace_stack,
                forall|t: int|
                    0 <= t < b3 ==> builder.wit_has_bits(#[trigger] inv_bits[t]),
            decreases 8 - b3,
        {
            builder.witness_set_bits(inv_bits[b3], bit_col(&inv_col, b3));
            b3 = b3 + 1;
        }
        builder.witness_set_bytes(inv, inv_col);
        builder.witness_set_bytes(output, out_col);
    }
    let mut cids: Vec<OracleId> = Vec::new();
    cids.push(input);
    cids.push(inv);
    match builder.assert_zero(cids, ConstraintComposition::SBox(SBoxConstraint)) {
        Ok(_) => {},
        Err(_) => {
            proof {
                assert(false);
            }
            return Err(Error::CompositionMismatch);
        },
    }
    builder.pop_namespace();
    proof {
        assert(builder.namespace_stack@ =~= old(builder).namespace_stack@);
    }
    Ok(output)
}


/// Row `z` across a list of columns.
pub open spec fn cols_row(cols: Seq<Seq<u8>>, z: int) -> Seq<u8> {
    Seq::new(cols.len(), |ij: int| cols[ij][z])
}

/// The views of a list of columns.
pub open spec fn col_views(cols: Vec<Vec<u8>>) -> Seq<Seq<u8>> {
    Seq::new(cols.len() as nat, |ij: int| cols[ij]@)
}

/// An owned copy of a column.
fn copy_col(c: &Vec<u8>) -> (r: Vec<u8>)
    ensures
        r@ == c@,
{
    let mut out: Vec<u8> = Vec::new();
    let mut z: usize = 0;
    while z < c.len()
        invariant
            z <= c.len(),
            out.len() == z,
            forall|t: int| 0 <= t < z ==> out[t] == c[t],
        decreases c.len() - z,
    {
        out.push(c[z]);
        z = z + 1;
    }
    proof {
        assert(out@ =~= c@);
    }
    out
}

/// The 64 output columns of the fused ShiftBytes and MixBytes step,
/// computed row-wise with the optimized recurrence.
fn mix_witness_cols(sub: &Vec<Vec<u8>>, len: usize) -> (r: Vec<Vec<u8>>)
    requires
        sub.len() == 64,
        forall|ij: int| 0 <= ij < 64 ==> (#[trigger] sub[ij]).len() == len,
    ensures
        r.len() == 64,
        forall|w: int| 0 <= w < 64 ==> (#[trigger] r[w]).len() == len,
        forall|w: int, z: int|
            0 <= w < 64 && 0 <= z < len ==> (#[trigger] r[w]@[z]) == mix_acc(
                cols_row(col_views(*sub), z), w, 8),
    decreases len,
{
    let mut out: Vec<Vec<u8>> = Vec::new();
    let mut w: usize = 0;
    while w < 64
        invariant
            sub.len() == 64,
            forall|ij: int| 0 <= ij < 64 ==> (#[trigger] sub[ij]).len() == len,
            w <= 64,
            out.len() == w,
            forall|t: int| 0 <= t < w ==> (#[trigger] out[t]).len() == len,
            forall|t: int, z: int|
                0 <= t < w && 0 <= z < len ==> (#[trigger] out[t]@[z]) == mix_acc(
                    cols_row(col_views(*sub), z), t, 8),
        decreases 64 - w,
    {
        let mut col: Vec<u8> = Vec::new();
        let i = w / 8;
        let j = w % 8;
        let mut z: usize = 0;
        while z < len
            invariant
                sub.len() == 64,
                forall|ij: int| 0 <= ij < 64 ==> (#[trigger] sub[ij]).len() == len,
                w < 64,
                i == w / 8,
                j == w % 8,
                z <= len,
                col.len() == z,
                forall|t: int|
                    0 <= t < z ==> (#[trigger] col[t]) == mix_acc(
                        cols_row(col_views(*sub), t), w as int, 8),
            decreases len - z,
        {
            let mut a: Vec<u8> = Vec::new();
            let mut k: usize = 0;
            while k < 8
                invariant
                    sub.len() == 64,
                    forall|ij: int| 0 <= ij < 64 ==> (#[trigger] sub[ij]).len() == len,
                    w < 64,
                    i == w / 8,
                    j == w % 8,
                    z < len,
                    k <= 8,
                    a.len() == k,
                    forall|t: int|
                        0 <= t < k ==> 0 <= mix_src(w as int, t) < 64 && (#[trigger] a[t])
                            == cols_row(col_views(*sub), z as int)[mix_src(w as int, t)],
                decreases 8 - k,
            {
                let jp = (j + k) % 8;
                let ip = (i + jp) % 8;
                a.push(sub[ip * 8 + jp][z]);
                k = k + 1;
            }
            let b = xtime(xtime(a[3] ^ a[4] ^ a[6] ^ a[7]) ^ (a[0] ^ a[1] ^ a[2] ^ a[5] ^ a[7]))
                ^ a[2] ^ a[4] ^ a[5] ^ a[6] ^ a[7];
            proof {
                lemma_mix_step(cols_row(col_views(*sub), z as int), w as int, a@);
            }
            col.push(b);
            z = z + 1;
        }
        out.push(col);
        w = w + 1;
    }
    out
}

/// The oracle each S-box gadget of a round reads: the round-constant
/// column for the first column of each row of the state matrix, the round
/// input elsewhere.
pub open spec fn sbox_src(rc: Seq<OracleId>, inp: Seq<OracleId>, ij: int) -> OracleId {
    if ij % 8 == 0 {
        rc[ij / 8]
    } else {
        inp[ij]
    }
}

/// The byte each S-box of a round reads: the round-constant column for
/// the first column of each row of the state matrix, the round input
/// elsewhere.
pub open spec fn sbox_in_row(
    b: ConstraintSystemBuilder,
    rc: Seq<OracleId>,
    inp: Seq<OracleId>,
    z: int,
) -> Seq<u8> {
    Seq::new(
        64,
        |ij: int|
            if ij % 8 == 0 {
                b.wit_bytes(rc[ij / 8])[z]
            } else {
                b.wit_bytes(inp[ij])[z]
            },
    )
}

/// Register one round of the permutation: the S-box gadget on every
/// column (reading the round-constant column in place of each first
/// column of a row), then 64 committed output columns constrained with
/// the `MixColumn` composition over the fused ShiftBytes and MixBytes
/// reindexing. In witness mode the output columns are populated; row `z`
/// of the output is the round function of row `z` of the S-box inputs.
pub fn groestl_p_permutation_round(
    builder: &mut ConstraintSystemBuilder,
    name: String,
    log_size: usize,
    round_consts: &Vec<OracleId>,
    input: &Vec<OracleId>,
) -> (r: Result<Vec<OracleId>, Error>)
    requires
        old(builder).wf(),
        log_size <= 24,
        round_consts.len() == 8,
        input.len() == 64,
        forall|t: int|
            0 <= t < 8 ==> (#[trigger] round_consts[t] as int) < old(
                builder).oracles.oracles.len() && old(builder).oracles.oracles[round_consts[t] as int].n_vars
                == log_size,
        forall|t: int|
            0 <= t < 64 ==> (#[trigger] input[t] as int) < old(builder).oracles.oracles.len()
                && old(builder).oracles.oracles[input[t] as int].n_vars == log_size,
        old(builder).oracles.oracles.len() + 1000 <= usize::MAX,
        old(builder).witness is Some ==> (forall|t: int|
            0 <= t < 8 ==> wit_col_ok(
                *old(builder), #[trigger] round_consts[t], (1usize << log_size) as int)) && (
        forall|t: int|
            0 <= t < 64 ==> wit_col_ok(
                *old(builder), #[trigger] input[t], (1usize << log_size) as int)),
    ensures
        final(builder).wf(),
        r is Ok,
        r->Ok_0.len() == 64,
        final(builder).oracles.oracles.len() == old(builder).oracles.oracles.len() + 704,
        forall|i: int|
            0 <= i < old(builder).oracles.oracles.len() ==> final(builder).oracles.oracles[i]
                == old(builder).oracles.oracles[i],
        forall|w: int|
            0 <= w < 64 ==> (#[trigger] r->Ok_0[w] as int) == old(builder).oracles.oracles.len()
                + 640 + w && final(builder).oracles.oracles[r->Ok_0[w] as int].n_vars
                == log_size && final(builder).oracles.oracles[r->Ok_0[w] as int].variant
                is Committed && final(builder).oracles.oracles[r->Ok_0[w] as int].tower_level
                == crate::field::TOWER_LEVEL_B8,
        final(builder).constraints.len() == old(builder).constraints.len() + 128,
        forall|c: int|
            0 <= c < old(builder).constraints.len() ==> final(builder).constraints[c] == old(
                builder).constraints[c],
        forall|ij: int|
            0 <= ij < 64 ==> {
                let con = #[trigger] final(builder).constraints[old(
                    builder,
                ).constraints.len() + ij];
                con.composition == (ConstraintComposition::SBox(SBoxConstraint))
                    && con.oracle_ids@ == seq![
                    sbox_src(round_consts@, input@, ij),
                    ((old(builder).oracles.oracles.len() + 10 * ij + 8) as OracleId),
                ]
            },
        forall|ij: int|
            0 <= ij < 64 ==> {
                let con = #[trigger] final(builder).constraints[old(
                    builder,
                ).constraints.len() + 64 + ij];
                &&& (con.composition matches ConstraintComposition::Mix(m) && m.mix_bytes@
                    == mix_bytes_row())
                &&& con.oracle_ids.len() == 9
                &&& con.oracle_ids[0] == r->Ok_0[ij]
                &&& (forall|k: int|
                    0 <= k < 8 ==> ((#[trigger] con.oracle_ids[1 + k]) as int) == old(
                        builder).oracles.oracles.len() + 10 * mix_src(ij, k) + 9)
            },
        final(builder).namespace_stack@ == old(builder).namespace_stack@,
        witness_frame(*old(builder), *final(builder), old(builder).oracles.oracles.len() as int),
        final(builder).witness is Some <==> old(builder).witness is Some,
        old(builder).witness is Some ==> forall|w: int|
            0 <= w < 64 ==> wit_col_ok(
                *final(builder), #[trigger] r->Ok_0[w], (1usize << log_size) as int) && (forall|
                z: int,
            |
                0 <= z < (1usize << log_size) ==> final(builder).wit_bytes(r->Ok_0[w])[z]
                    == mix_acc(
                    sub_state(sbox_in_row(*old(builder), round_consts@, input@, z)), w, 8)),
{
    let len: usize = 1usize << log_size;
    builder.push_namespace(name);
    let ghost b0 = *builder;
    let mut sub_ids: Vec<OracleId> = Vec::new();
    let mut ij: usize = 0;
    while ij < 64
        invariant
            builder.wf(),
            log_size <= 24,
            len == 1usize << log_size,
            round_consts.len() == 8,
            input.len() == 64,
            ij <= 64,
            sub_ids.len() == ij,
            forall|t: int|
                0 <= t < 8 ==> (#[trigger] round_consts[t] as int) < old(
                    builder).oracles.oracles.len() && old(builder).oracles.oracles[round_consts[t] as int].n_vars
                    == log_size,
            forall|t: int|
                0 <= t < 64 ==> (#[trigger] input[t] as int) < old(
                    builder).oracles.oracles.len() && old(builder).oracles.oracles[input[t] as int].n_vars
                    == log_size,
            old(builder).oracles.oracles.len() + 1000 <= usize::MAX,
            builder.oracles.oracles.len() == old(builder).oracles.oracles.len() + 10 * ij,
            forall|i: int|
                0 <= i < old(builder).oracles.oracles.len() ==> builder.oracles.oracles[i]
                    == old(builder).oracles.oracles[i],
            forall|t: int|
                0 <= t < ij ==> (#[trigger] sub_ids[t] as int) == old(
                    builder).oracles.oracles.len() + 10 * t + 9
                    && builder.oracles.oracles[sub_ids[t] as int].n_vars == log_size,
            builder.constraints.len() == old(builder).constraints.len() + ij,
            forall|c: int|
                0 <= c < old(builder).constraints.len() ==> builder.constraints[c] == old(
                    builder).constraints[c],
            forall|t: int|
                0 <= t < ij ==> {
                    let con = #[trigger] builder.constraints[old(
                        builder,
                    ).constraints.len() + t];
                    con.composition == (ConstraintComposition::SBox(SBoxConstraint))
                        && con.oracle_ids@ == seq![
                        sbox_src(round_consts@, input@, t),
                        ((old(builder).oracles.oracles.len() + 10 * t + 8) as OracleId),
                    ]
                },
            builder.namespace_stack@ == b0.namespace_stack@,
            witness_frame(*old(builder), *builder, old(builder).oracles.oracles.len() as int),
            builder.witness is Some <==> old(builder).witness is Some,
            old(builder).witness is Some ==> (forall|t: int|
                0 <= t < 8 ==> wit_col_ok(
                    *old(builder), #[trigger] round_consts[t], len as int)) && (forall|t: int|
                0 <= t < 64 ==> wit_col_ok(*old(builder), #[trigger] input[t], len as int)),
            old(builder).witness is Some ==> forall|t: int|
                0 <= t < ij ==> wit_col_ok(*builder, #[trigger] sub_ids[t], len as int) && (
                forall|z: int|
                    0 <= z < len ==> #[trigger] builder.wit_bytes(sub_ids[t])[z] == s_box_spec(
                        sbox_in_row(*old(builder), round_consts@, input@, z)[t])),
        decreases 64 - ij,
    {
        let src: OracleId = if ij % 8 == 0 {
            round_consts[ij / 8]
        } else {
            input[ij]
        };
        let sid = match groestl_p_permutation_sbox(builder, "s_box".to_string(), log_size, src) {
            Ok(id) => id,
            Err(_) => {
                proof {
                    assert(false);
                }
                return Err(Error::OracleNotFound);
            },
        };
        sub_ids.push(sid);
        ij = ij + 1;
    }
    let output = builder.add_committed_multiple(
        "output".to_string(),
        log_size,
        crate::field::TOWER_LEVEL_B8,
        64,
    );
    if builder.has_witness() {
        let mut sub_matrix: Vec<Vec<u8>> = Vec::new();
        let mut t: usize = 0;
        while t < 64
            invariant
                builder.wf(),
                builder.witness is Some,
                sub_ids.len() == 64,
                t <= 64,
                sub_matrix.len() == t,
                forall|u: int| 0 <= u < 64 ==> wit_col_ok(*builder, #[trigger] sub_ids[u], len as int),
                forall|u: int|
                    0 <= u < t ==> (#[trigger] sub_matrix[u]@) == builder.wit_bytes(sub_ids[u]),
                forall|u: int| 0 <= u < t ==> (#[trigger] sub_matrix[u]).len() == len,
            decreases 64 - t,
        {
            let c = match builder.witness_get_bytes(sub_ids[t]) {
                Ok(c) => c,
                Err(_) => {
                    proof {
                        assert(false);
                    }
                    return Err(Error::WitnessNotFound);
                },
            };
            sub_matrix.push(copy_col(c));
            t = t + 1;
        }
        let outs = mix_witness_cols(&sub_matrix, len);
        proof {
            assert forall|wq: int, z: int|
                0 <= wq < 64 && 0 <= z < len implies #[trigger] outs[wq]@[z] == mix_acc(
                sub_state(sbox_in_row(*old(builder), round_consts@, input@, z)), wq, 8) by {
                assert(cols_row(col_views(sub_matrix), z) =~= sub_state(
                    sbox_in_row(*old(builder), round_consts@, input@, z)));
            }
        }
        let ghost b_mid = *builder;
        let mut w: usize = 0;
        while w < 64
            invariant
                builder.wf(),
                builder.witness is Some,
                output.len() == 64,
                outs.len() == 64,
                w <= 64,
                old(builder).oracles.oracles.len() + 1000 <= usize::MAX,
                forall|u: int|
                    0 <= u < 64 ==> (#[trigger] output[u] as int) == old(
                        builder).oracles.oracles.len() + 640 + u,
                forall|u: int| 0 <= u < 64 ==> (#[trigger] outs[u]).len() == len,
                forall|wq: int, z: int|
                    0 <= wq < 64 && 0 <= z < len ==> #[trigger] outs[wq]@[z] == mix_acc(
                        sub_state(sbox_in_row(*old(builder), round_consts@, input@, z)), wq, 8),
                builder.oracles == b_mid.oracles,
                builder.constraints == b_mid.constraints,
                builder.namespace_stack == b_mid.namespace_stack,
                witness_frame(b_mid, *builder, (old(builder).oracles.oracles.len() + 640) as int),
                forall|u: int|
                    0 <= u < w ==> wit_col_ok(*builder, #[trigger] output[u], len as int) && (
                    forall|z: int|
                        0 <= z < len ==> #[trigger] builder.wit_bytes(output[u])[z] == mix_acc(
                            sub_state(sbox_in_row(*old(builder), round_consts@, input@, z)),
                            u,
                            8,
                        )),
            decreases 64 - w,
        {
            builder.witness_set_bytes(output[w], copy_col(&outs[w]));
            w = w + 1;
        }
    }
    let mut cij: usize = 0;
    let ghost b_wit = *builder;
    while cij < 64
        invariant
            builder.wf(),
            sub_ids.len() == 64,
            output.len() == 64,
            cij <= 64,
            old(builder).oracles.oracles.len() + 1000 <= usize::MAX,
            forall|t: int|
                0 <= t < 64 ==> (#[trigger] sub_ids[t] as int) == old(
                    builder).oracles.oracles.len() + 10 * t + 9 && (sub_ids[t] as int)
                    < builder.oracles.oracles.len(),
            forall|t: int|
                0 <= t < 64 ==> (#[trigger] output[t] as int) == old(
                    builder).oracles.oracles.len() + 640 + t && (output[t] as int)
                    < builder.oracles.oracles.len(),
            builder.oracles == b_wit.oracles,
            builder.witness == b_wit.witness,
            builder.namespace_stack == b_wit.namespace_stack,
            builder.constraints.len() == old(builder).constraints.len() + 64 + cij,
            b_wit.constraints.len() == old(builder).constraints.len() + 64,
            forall|c: int|
                0 <= c < old(builder).constraints.len() + 64 ==> #[trigger] builder.constraints[c]
                    == b_wit.constraints[c],
            forall|t: int|
                0 <= t < cij ==> {
                    let con = #[trigger] builder.constraints[old(
                        builder,
                    ).constraints.len() + 64 + t];
                    &&& (con.composition matches ConstraintComposition::Mix(m) && m.mix_bytes@
                        == mix_bytes_row())
                    &&& con.oracle_ids.len() == 9
                    &&& con.oracle_ids[0] == output[t]
                    &&& (forall|k: int|
                        0 <= k < 8 ==> ((#[trigger] con.oracle_ids[1 + k]) as int) == old(
                            builder).oracles.oracles.len() + 10 * mix_src(t, k) + 9)
                },
        decreases 64 - cij,
    {
        let mut cids: Vec<OracleId> = Vec::new();
        cids.push(output[cij]);
        let i = cij / 8;
        let j = cij % 8;
        let mut k: usize = 0;
        while k < 8
            invariant
                builder.wf(),
                sub_ids.len() == 64,
                output.len() == 64,
                cij < 64,
                i == cij / 8,
                j == cij % 8,
                k <= 8,
                cids.len() == k + 1,
                forall|t: int|
                    0 <= t < 64 ==> (#[trigger] sub_ids[t] as int) == old(
                        builder).oracles.oracles.len() + 10 * t + 9 && (sub_ids[t] as int)
                        < builder.oracles.oracles.len(),
                forall|t: int|
                    0 <= t < 64 ==> (#[trigger] output[t] as int)
                        < builder.oracles.oracles.len(),
                cids[0] == output[cij as int],
                forall|t: int|
                    0 <= t < k ==> ((#[trigger] cids[1 + t]) as int) == old(
                        builder).oracles.oracles.len() + 10 * mix_src(cij as int, t) + 9,
                forall|t: int|
                    0 <= t < cids.len() ==> (#[trigger] cids[t] as int)
                        < builder.oracles.oracles.len(),
            decreases 8 - k,
        {
            let jp = (j + k) % 8;
            let ip = (i + jp) % 8;
            proof {
                assert(0 <= mix_src(cij as int, k as int) < 64 && ip * 8 + jp == mix_src(
                    cij as int,
                    k as int,
                ));
            }
            cids.push(sub_ids[ip * 8 + jp]);
            k = k + 1;
        }
        match builder.assert_zero(cids, ConstraintComposition::Mix(MixColumn::default())) {
            Ok(_) => {},
            Err(_) => {
                proof {
                    assert(false);
                }
                return Err(Error::CompositionMismatch);
            },
        }
        cij = cij + 1;
    }
    builder.pop_namespace();
    proof {
        assert(builder.namespace_stack@ =~= old(builder).namespace_stack@);
    }
    Ok(output)
}


/// Deterministic filler for the unconstrained input columns: a value that
/// varies with both the row and the column.
pub open spec fn fill_byte(col: int, z: int) -> u8 {
    (((z % 256) as u8) ^ ((col * 2) as u8)) as u8
}

/// The input row of the permutation at hypercube index `z`.
pub open spec fn fill_row(z: int) -> Seq<u8> {
    Seq::new(64, |c: int| fill_byte(c, z))
}

/// Row `z` of the columns named by `ids`.
pub open spec fn out_row(b: ConstraintSystemBuilder, ids: Seq<OracleId>, z: int) -> Seq<u8> {
    Seq::new(64, |w: int| b.wit_bytes(ids[w])[z])
}

/// Register the full ten-round Grøstl-P permutation: 64 committed input
/// columns (filled with arbitrary deterministic data in witness mode),
/// the eight transparent multiples of `0x10`, and the ten rounds. The
/// result names the 64 output columns. In witness mode, row `z` of the
/// output columns is the reference permutation of row `z` of the input
/// columns.
pub fn groestl_p_permutation(builder: &mut ConstraintSystemBuilder, log_size: usize) -> (r: Result<
    Vec<OracleId>,
    Error,
>)
    requires
        old(builder).wf(),
        log_size <= 24,
        old(builder).oracles.oracles.len() + 8000 <= usize::MAX,
    ensures
        final(builder).wf(),
        r is Ok,
        r->Ok_0.len() == 64,
        forall|w: int|
            0 <= w < 64 ==> (#[trigger] r->Ok_0[w] as int) < final(
                builder).oracles.oracles.len() && final(builder).oracles.oracles[r->Ok_0[w] as int].n_vars
                == log_size,
        final(builder).witness is Some <==> old(builder).witness is Some,
        final(builder).namespace_stack@ == old(builder).namespace_stack@,
        old(builder).witness is Some ==> forall|id: OracleId|
            old(builder).oracles.oracles.len() <= id < old(builder).oracles.oracles.len() + 64
                ==> #[trigger] wit_col_ok(*final(builder), id, (1usize << log_size) as int) && (
            forall|z: int|
                0 <= z < (1usize << log_size) ==> #[trigger] final(builder).wit_bytes(id)[z]
                    == fill_byte(id - old(builder).oracles.oracles.len(), z)),
        old(builder).witness is Some ==> forall|w: int|
            0 <= w < 64 ==> wit_col_ok(
                *final(builder), #[trigger] r->Ok_0[w], (1usize << log_size) as int) && (forall|
                z: int,
            |
                0 <= z < (1usize << log_size) ==> final(builder).wit_bytes(r->Ok_0[w])[z]
                    == groestl_p_spec(fill_row(z))[w]),
{
    let len: usize = 1usize << log_size;
    let p_in = builder.add_committed_multiple(
        "p_in".to_string(),
        log_size,
        crate::field::TOWER_LEVEL_B8,
        64,
    );
    if builder.has_witness() {
        let mut c: usize = 0;
        while c < 64
            invariant
                builder.wf(),
                builder.witness is Some,
                log_size <= 24,
                len == 1usize << log_size,
                p_in.len() == 64,
                c <= 64,
                old(builder).oracles.oracles.len() + 8000 <= usize::MAX,
                forall|t: int|
                    0 <= t < 64 ==> (#[trigger] p_in[t] as int) == old(
                        builder).oracles.oracles.len() + t
                        && builder.oracles.oracles[p_in[t] as int].n_vars == log_size,
                builder.oracles.oracles.len() == old(builder).oracles.oracles.len() + 64,
                builder.namespace_stack@ == old(builder).namespace_stack@,
                forall|i2: int|
                    0 <= i2 < old(builder).oracles.oracles.len() ==> builder.oracles.oracles[i2]
                        == old(builder).oracles.oracles[i2],
                forall|t: int|
                    0 <= t < c ==> wit_col_ok(*builder, #[trigger] p_in[t], len as int) && (
                    forall|z: int|
                        0 <= z < len ==> #[trigger] builder.wit_bytes(p_in[t])[z] == fill_byte(
                            t, z)),
            decreases 64 - c,
        {
            let mut col: Vec<u8> = Vec::new();
            let mut z: usize = 0;
            while z < len
                invariant
                    c < 64,
                    z <= len,
                    col.len() == z,
                    forall|t: int| 0 <= t < z ==> #[trigger] col[t] == fill_byte(c as int, t),
                decreases len - z,
            {
                col.push(((z % 256) as u8) ^ ((c * 2) as u8));
                z = z + 1;
            }
            builder.witness_set_bytes(p_in[c], col);
            c = c + 1;
        }
    }
    let mut multiples_16: Vec<OracleId> = Vec::new();
    let ghost b_in = *builder;
    let mut i: usize = 0;
    while i < 8
        invariant
            builder.wf(),
            log_size <= 24,
            len == 1usize << log_size,
            p_in.len() == 64,
            i <= 8,
            multiples_16.len() == i,
            old(builder).oracles.oracles.len() + 8000 <= usize::MAX,
            b_in.oracles.oracles.len() == old(builder).oracles.oracles.len() + 64,
            builder.oracles.oracles.len() == b_in.oracles.oracles.len() + i,
            forall|t: int|
                0 <= t < 64 ==> (#[trigger] p_in[t] as int) == old(
                    builder).oracles.oracles.len() + t && builder.oracles.oracles[p_in[t] as int].n_vars
                    == log_size,
            forall|t: int|
                0 <= t < i ==> (#[trigger] multiples_16[t] as int)
                    < builder.oracles.oracles.len() && builder.oracles.oracles[multiples_16[t] as int].n_vars
                    == log_size,
            builder.witness is Some <==> old(builder).witness is Some,
            witness_frame(b_in, *builder, b_in.oracles.oracles.len() as int),
            builder.namespace_stack@ == old(builder).namespace_stack@,
            old(builder).witness is Some ==> forall|t: int|
                0 <= t < 64 ==> wit_col_ok(*builder, #[trigger] p_in[t], len as int) && (forall|
                    z: int,
                |
                    0 <= z < len ==> #[trigger] builder.wit_bytes(p_in[t])[z] == fill_byte(
                        t, z)),
        decreases 8 - i,
    {
        let id = builder.add_transparent_constant(
            "multiples_16".to_string(),
            log_size,
            (i * 0x10) as u128,
        );
        if builder.has_witness() {
            builder.witness_set_bytes(id, const_col(len, (i * 0x10) as u8));
        }
        multiples_16.push(id);
        i = i + 1;
    }
    proof {
        if old(builder).witness is Some {
            assert forall|id: OracleId|
                old(builder).oracles.oracles.len() <= id < old(builder).oracles.oracles.len()
                    + 64 implies #[trigger] wit_col_ok(*builder, id, len as int) && (forall|
                z: int,
            |
                0 <= z < len ==> #[trigger] builder.wit_bytes(id)[z] == fill_byte(
                    id - old(builder).oracles.oracles.len(), z)) by {
                let t = id - old(builder).oracles.oracles.len();
                assert(p_in[t] == id);
                assert(wit_col_ok(*builder, p_in[t], len as int));
                assert(forall|z: int|
                    0 <= z < len ==> #[trigger] builder.wit_bytes(p_in[t as int])[z]
                        == fill_byte(t, z));
            }
        }
    }
    let mut state_ids = p_in;
    let mut round_index: usize = 0;
    let ghost b_setup = *builder;
    while round_index < 10
        invariant
            builder.wf(),
            log_size <= 24,
            len == 1usize << log_size,
            round_index <= 10,
            state_ids.len() == 64,
            multiples_16.len() == 8,
            old(builder).oracles.oracles.len() + 8000 <= usize::MAX,
            b_setup.oracles.oracles.len() == old(builder).oracles.oracles.len() + 72,
            builder.oracles.oracles.len() == b_setup.oracles.oracles.len() + 713 * round_index,
            forall|t: int|
                0 <= t < 8 ==> (#[trigger] multiples_16[t] as int)
                    < b_setup.oracles.oracles.len() && builder.oracles.oracles[multiples_16[t] as int].n_vars
                    == log_size,
            forall|t: int|
                0 <= t < 64 ==> (#[trigger] state_ids[t] as int) < builder.oracles.oracles.len()
                    && builder.oracles.oracles[state_ids[t] as int].n_vars == log_size,
            builder.witness is Some <==> old(builder).witness is Some,
            witness_frame(b_setup, *builder, b_setup.oracles.oracles.len() as int),
            builder.namespace_stack@ == old(builder).namespace_stack@,
            old(builder).witness is Some ==> forall|id: OracleId|
                old(builder).oracles.oracles.len() <= id < old(builder).oracles.oracles.len()
                    + 64 ==> #[trigger] wit_col_ok(b_setup, id, len as int) && (forall|z: int|
                    0 <= z < len ==> #[trigger] b_setup.wit_bytes(id)[z] == fill_byte(
                        id - old(builder).oracles.oracles.len(), z)),
            old(builder).witness is Some ==> forall|t: int|
                0 <= t < 64 ==> wit_col_ok(*builder, #[trigger] state_ids[t], len as int) && (
                forall|z: int|
                    0 <= z < len ==> #[trigger] builder.wit_bytes(state_ids[t])[z]
                        == perm_rounds(fill_row(z), round_index as int)[t]),
        decreases 10 - round_index,
    {
        let ghost b_iter = *builder;
        let round_consts = match permutation_round_consts(
            builder,
            log_size,
            round_index,
            &multiples_16,
            &state_ids,
        ) {
            Ok(ids) => ids,
            Err(_) => {
                proof {
                    assert(false);
                }
                return Err(Error::OracleNotFound);
            },
        };
        let ghost b_rc = *builder;
        let next_ids = match groestl_p_permutation_round(
            builder,
            "round".to_string(),
            log_size,
            &round_consts,
            &state_ids,
        ) {
            Ok(ids) => ids,
            Err(_) => {
                proof {
                    assert(false);
                }
                return Err(Error::OracleNotFound);
            },
        };
        proof {
            if old(builder).witness is Some {
                assert forall|z: int|
                    0 <= z < len implies sub_state(
                    sbox_in_row(b_rc, round_consts@, state_ids@, z),
                ) =~= sub_state(arc_state(perm_rounds(fill_row(z), round_index as int), round_index as u8)) by {
                    assert(sbox_in_row(b_rc, round_consts@, state_ids@, z) =~= arc_state(
                        perm_rounds(fill_row(z), round_index as int),
                        round_index as u8,
                    ));
                }
                assert forall|w: int, z: int|
                    0 <= w < 64 && 0 <= z < len implies #[trigger] builder.wit_bytes(
                    next_ids[w],
                )[z] == perm_rounds(fill_row(z), round_index + 1)[w] by {
                    assert(builder.wit_bytes(next_ids[w])[z] == mix_acc(
                        sub_state(sbox_in_row(b_rc, round_consts@, state_ids@, z)), w, 8));
                    assert(perm_rounds(fill_row(z), round_index + 1) == round_spec(
                        perm_rounds(fill_row(z), round_index as int), round_index as u8));
                }
            }
        }
        state_ids = next_ids;
        round_index = round_index + 1;
    }
    proof {
        if old(builder).witness is Some {
            assert forall|id: OracleId|
                old(builder).oracles.oracles.len() <= id < old(builder).oracles.oracles.len()
                    + 64 implies #[trigger] wit_col_ok(*builder, id, len as int) && (forall|
                z: int,
            |
                0 <= z < len ==> #[trigger] builder.wit_bytes(id)[z] == fill_byte(
                    id - old(builder).oracles.oracles.len(), z)) by {
                assert(wit_col_ok(b_setup, id, len as int));
                assert(forall|z: int|
                    0 <= z < len ==> #[trigger] b_setup.wit_bytes(id)[z] == fill_byte(
                        id - old(builder).oracles.oracles.len(), z));
                assert(col_opt(builder.witness->Some_0, id as int) == col_opt(
                    b_setup.witness->Some_0, id as int));
            }
        }
    }
    Ok(state_ids)
}

} // verus!

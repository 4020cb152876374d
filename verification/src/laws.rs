//! Laws relating the public operations: proved statements about the
//! round engine's access methods and the primitive compositions.

use vstd::prelude::*;

use crate::composition::{mix_sum, sbox_eval, CompositionPoly, MixColumn};
use crate::expr::{eval_expr, ArithExpr};
use crate::field::{
    b128_mul, b128_mul_at, b128_mul_b8, b128_mul_b8_rec, b8_mul, lemma_b8_no_zero_divisors,
    lemma_mul128_base, lemma_mul128_zero, lemma_xor_shuffle, b128_primitive,
};
use crate::multilinear::{padded_scalar, pow2, MultilinearCol};
use crate::sumcheck::{
    acc_sum, lane_fold, round_scalar, spec_lane, z_row, z_value, HighToLowAccess,
    LowToHighAccess, SumcheckEvaluator, SumcheckMultilinear, SumcheckMultilinearAccess,
};

verus! {

/// Two multilinear lists whose access values agree position by position
/// produce equal query rows.
proof fn lemma_z_row_congruence<A: SumcheckMultilinearAccess>(
    access: A,
    mls1: Seq<SumcheckMultilinear>,
    mls2: Seq<SumcheckMultilinear>,
    exp: Seq<u128>,
    tqv: nat,
    n1: nat,
    j: int,
    points: Seq<u8>,
    pos: int,
)
    requires
        mls1.len() == mls2.len(),
        forall|m: int, one: bool, p: int|
            0 <= m < mls1.len() ==> #[trigger] access.spec_value(mls1[m], exp, tqv, n1, one, p)
                == access.spec_value(mls2[m], exp, tqv, n1, one, p),
    ensures
        z_row(access, mls1, exp, tqv, n1, j, points, pos) == z_row(
            access, mls2, exp, tqv, n1, j, points, pos),
{
    assert(z_row(access, mls1, exp, tqv, n1, j, points, pos) =~= z_row(
        access, mls2, exp, tqv, n1, j, points, pos));
}

proof fn lemma_spec_lane_congruence<A: SumcheckMultilinearAccess>(
    access: A,
    e: ArithExpr,
    mls1: Seq<SumcheckMultilinear>,
    mls2: Seq<SumcheckMultilinear>,
    exp: Seq<u128>,
    tqv: nat,
    n1: nat,
    sv: nat,
    si: int,
    j: int,
    points: Seq<u8>,
    l: int,
    k: int,
)
    requires
        mls1.len() == mls2.len(),
        forall|m: int, one: bool, p: int|
            0 <= m < mls1.len() ==> #[trigger] access.spec_value(mls1[m], exp, tqv, n1, one, p)
                == access.spec_value(mls2[m], exp, tqv, n1, one, p),
    ensures
        spec_lane(access, e, mls1, exp, tqv, n1, sv, si, j, points, l, k) == spec_lane(
            access, e, mls2, exp, tqv, n1, sv, si, j, points, l, k),
    decreases k,
{
    if k > 0 {
        lemma_spec_lane_congruence(
            access, e, mls1, mls2, exp, tqv, n1, sv, si, j, points, l, k - 1);
        lemma_z_row_congruence(
            access, mls1, mls2, exp, tqv, n1, j, points, si * pow2(sv) + (k - 1));
    }
}

proof fn lemma_acc_sum_congruence<A: SumcheckMultilinearAccess>(
    access: A,
    e: ArithExpr,
    mls1: Seq<SumcheckMultilinear>,
    mls2: Seq<SumcheckMultilinear>,
    exp: Seq<u128>,
    tqv: nat,
    n1: nat,
    sv: nat,
    j: int,
    points: Seq<u8>,
    l: int,
    upto: int,
)
    requires
        mls1.len() == mls2.len(),
        forall|m: int, one: bool, p: int|
            0 <= m < mls1.len() ==> #[trigger] access.spec_value(mls1[m], exp, tqv, n1, one, p)
                == access.spec_value(mls2[m], exp, tqv, n1, one, p),
    ensures
        acc_sum(access, e, mls1, exp, tqv, n1, sv, j, points, l, upto) == acc_sum(
            access, e, mls2, exp, tqv, n1, sv, j, points, l, upto),
    decreases upto,
{
    if upto > 0 {
        lemma_acc_sum_congruence(access, e, mls1, mls2, exp, tqv, n1, sv, j, points, l, upto - 1);
        lemma_spec_lane_congruence(
            access, e, mls1, mls2, exp, tqv, n1, sv, upto - 1, j, points, l, pow2(sv));
    }
}

proof fn lemma_lane_fold_congruence<A: SumcheckMultilinearAccess>(
    access: A,
    e: ArithExpr,
    mls1: Seq<SumcheckMultilinear>,
    mls2: Seq<SumcheckMultilinear>,
    exp: Seq<u128>,
    tqv: nat,
    n1: nat,
    sv: nat,
    j: int,
    points: Seq<u8>,
    count: int,
    lanes: int,
)
    requires
        mls1.len() == mls2.len(),
        forall|m: int, one: bool, p: int|
            0 <= m < mls1.len() ==> #[trigger] access.spec_value(mls1[m], exp, tqv, n1, one, p)
                == access.spec_value(mls2[m], exp, tqv, n1, one, p),
    ensures
        lane_fold(access, e, mls1, exp, tqv, n1, sv, j, points, count, lanes) == lane_fold(
            access, e, mls2, exp, tqv, n1, sv, j, points, count, lanes),
    decreases lanes,
{
    if lanes > 0 {
        lemma_lane_fold_congruence(
            access, e, mls1, mls2, exp, tqv, n1, sv, j, points, count, lanes - 1);
        lemma_acc_sum_congruence(
            access, e, mls1, mls2, exp, tqv, n1, sv, j, points, lanes - 1, count);
    }
}

/// Replacing multilinears by ones whose access values agree everywhere
/// leaves every round evaluation unchanged.
pub proof fn lemma_round_scalar_congruence<A: SumcheckMultilinearAccess>(
    access: A,
    ev: SumcheckEvaluator,
    mls1: Seq<SumcheckMultilinear>,
    mls2: Seq<SumcheckMultilinear>,
    exp: Seq<u128>,
    tqv: nat,
    n_vars: nat,
    j: int,
    points: Seq<u8>,
)
    requires
        n_vars >= 1,
        mls1.len() == mls2.len(),
        forall|m: int, one: bool, p: int|
            0 <= m < mls1.len() ==> #[trigger] access.spec_value(
                mls1[m], exp, tqv, (n_vars - 1) as nat, one, p) == access.spec_value(
                mls2[m], exp, tqv, (n_vars - 1) as nat, one, p),
    ensures
        round_scalar(access, ev, mls1, exp, tqv, n_vars, j, points) == round_scalar(
            access, ev, mls2, exp, tqv, n_vars, j, points),
{
    let n1 = (n_vars - 1) as nat;
    let sv = crate::sumcheck::chosen_subcube_vars(n1, tqv);
    let count = crate::sumcheck::ceil_div(pow2(n1) - ev.const_eval_suffix, pow2(sv));
    let lanes = if pow2(sv) < 4 {
        pow2(sv)
    } else {
        4int
    };
    lemma_lane_fold_congruence(
        access, ev.composition.expr, mls1, mls2, exp, tqv, n1, sv, j, points, count, lanes);
}

/// A multilinear given as a packed prefix with a constant suffix yields
/// exactly the access values of a fully materialized transparent
/// multilinear whose scalars are the padded prefix, in both evaluation
/// orders; so by `lemma_round_scalar_congruence` the two produce the same
/// round contribution.
pub proof fn lemma_folded_shortcut(
    f: SumcheckMultilinear,
    m: MultilinearCol,
    exp: Seq<u128>,
    n1: nat,
    one: bool,
    pos: int,
)
    requires
        f is Folded,
        forall|idx: int| #[trigger] m.scalar(idx) == padded_scalar(
            f->Folded_large_field_folded_evals@,
            f->Folded_suffix_eval,
            idx,
        ),
    ensures
        LowToHighAccess.spec_value(f, exp, 0, n1, one, pos) == LowToHighAccess.spec_value(
            SumcheckMultilinear::Transparent { multilinear: m }, exp, 0, n1, one, pos),
        HighToLowAccess.spec_value(f, exp, 0, n1, one, pos) == HighToLowAccess.spec_value(
            SumcheckMultilinear::Transparent { multilinear: m }, exp, 0, n1, one, pos),
{
}

/// The engine's evaluations at the infinity index are exactly the
/// difference of the restrictions at one and at zero, for every
/// multilinear, both access orders and every position: index 2 of the
/// point schedule reads `evals_1 - evals_0`.
pub proof fn lemma_infinity_point_identity<A: SumcheckMultilinearAccess>(
    access: A,
    ml: SumcheckMultilinear,
    exp: Seq<u128>,
    tqv: nat,
    n1: nat,
    points: Seq<u8>,
    pos: int,
)
    ensures
        z_value(access, ml, exp, tqv, n1, 2, points, pos) == (z_value(
            access, ml, exp, tqv, n1, 1, points, pos) ^ z_value(
            access, ml, exp, tqv, n1, 0, points, pos)),
{
    let v0 = access.spec_value(ml, exp, tqv, n1, false, pos);
    let v1 = access.spec_value(ml, exp, tqv, n1, true, pos);
    assert(v0 ^ v1 == v1 ^ v0) by (bit_vector);
}

/// In the final round, when one variable remains and no tensor query is
/// pending, both evaluation orders read the same two restrictions, so
/// every round evaluation agrees between `LowToHighAccess` and
/// `HighToLowAccess`.
pub proof fn lemma_order_equivalence_final_round(
    ml: SumcheckMultilinear,
    exp: Seq<u128>,
    one: bool,
    pos: int,
)
    requires
        pos == 0,
    ensures
        LowToHighAccess.spec_value(ml, exp, 0, 0, one, pos) == HighToLowAccess.spec_value(
            ml, exp, 0, 0, one, pos),
{
    assert(pow2(0) == 1);
}


/// Multiplying a byte-field value by the level-3 primitive element shifts
/// its representation into the second byte.
proof fn lemma_mul_primitive3_base(x: u128)
    requires
        x < 256,
    ensures
        b128_mul(x, b128_primitive(3)) == x << 8,
        (x << 8) < 0x10000,
{
    let p: u128 = b128_primitive(3);
    assert((1usize << 3usize) == 8usize) by (bit_vector);
    assert(1u128 << 8u128 == 0x100u128) by (bit_vector);
    assert(p == 0x100);
    assert(1u128 << 3u128 == 8 && 1u128 << 4u128 == 16 && 1u128 << 5u128 == 32 && 1u128 << 6u128
        == 64) by (bit_vector);
    assert((1u128 << 8u128) - 1 == 0xffu128 && (1u128 << 16u128) - 1 == 0xffffu128 && (1u128
        << 32u128) - 1 == 0xffff_ffffu128 && (1u128 << 64u128) - 1
        == 0xffff_ffff_ffff_ffffu128) by (bit_vector);

    assert(x < 256 ==> x & 0xffff_ffff_ffff_ffffu128 == x && x >> 64 == 0 && x
        & 0xffff_ffffu128 == x && x >> 32 == 0 && x & 0xffffu128 == x && x >> 16 == 0 && x
        & 0xffu128 == x && x >> 8 == 0) by (bit_vector);
    assert(0x100u128 & 0xffff_ffff_ffff_ffffu128 == 0x100 && 0x100u128 >> 64 == 0 && 0x100u128
        & 0xffff_ffffu128 == 0x100 && 0x100u128 >> 32 == 0 && 0x100u128 & 0xffffu128 == 0x100
        && 0x100u128 >> 16 == 0 && 0x100u128 & 0xffu128 == 0 && 0x100u128 >> 8 == 1) by (
    bit_vector);
    lemma_mul128_zero(6, x);
    lemma_mul128_zero(5, x);
    lemma_mul128_zero(4, x);
    lemma_mul128_zero(3, x);
    lemma_mul128_zero(6, 0x100);
    lemma_mul128_zero(5, 0x100);
    lemma_mul128_zero(4, 0x100);
    lemma_mul128_zero(4, 0);
    lemma_mul128_zero(5, 0);
    lemma_mul128_zero(6, 0);
    lemma_mul128_zero(3, 0);
    assert(b8_mul(x as u8, 0) == 0 && b8_mul(x as u8, 1) == x as u8 && b8_mul(0u8, 0x02u8)
        == 0) by (bit_vector);
    lemma_mul128_zero(3, 1);
    let m01 = b128_mul_at(3, x, 1);
    assert(m01 == b8_mul(x as u8, 1) as u128);
    assert((0u128 ^ 0u128) ^ ((m01 ^ 0u128 ^ 0u128) << 8) == m01 << 8) by (bit_vector);
    assert(x < 256 && m01 == x ==> (m01 << 8) == (x << 8) && (x << 8) < 0x10000) by (bit_vector)
        requires
            m01 == x,
            x < 256,
    ;
    let lvl4 = b128_mul_at(4, x, 0x100);
    assert(lvl4 == x << 8);
    assert(x << 8 < 0x10000);
    assert(((x << 8) ^ 0u128) == x << 8) by (bit_vector);
    assert((x << 8) >> 16 == 0 && (x << 8) & 0xffffu128 == (x << 8) && (x << 8) >> 32 == 0 && (x
        << 8) & 0xffff_ffffu128 == (x << 8) && (x << 8) >> 64 == 0 && (x << 8)
        & 0xffff_ffff_ffff_ffffu128 == (x << 8)) by (bit_vector)
        requires
            x < 256,
    ;
    lemma_mul128_zero(4, x << 8);
    lemma_mul128_zero(5, x << 8);
    lemma_mul128_zero(6, x << 8);
    assert((((x << 8) ^ 0u128) ^ ((0u128 ^ 0u128 ^ 0u128) << 16)) == (x << 8) && (((x << 8)
        ^ 0u128) ^ ((0u128 ^ 0u128 ^ 0u128) << 32)) == (x << 8) && (((x << 8) ^ 0u128) ^ ((0u128
        ^ 0u128 ^ 0u128) << 64)) == (x << 8)) by (bit_vector);
    let lvl5 = b128_mul_at(5, x, 0x100);
    assert(lvl5 == x << 8);
    let lvl6 = b128_mul_at(6, x, 0x100);
    assert(lvl6 == x << 8);
    assert(b128_mul_at(7, x, 0x100) == x << 8);
}

/// A nonzero byte-field value times a nonzero two-byte value is nonzero.
proof fn lemma_mul_base_16_nonzero(a: u128, b: u128)
    requires
        0 < a < 256,
        0 < b < 0x10000,
    ensures
        b128_mul(a, b) != 0,
{
    assert(1u128 << 3u128 == 8 && 1u128 << 4u128 == 16 && 1u128 << 5u128 == 32 && 1u128 << 6u128
        == 64 && (1u128 << 8u128) - 1 == 0xffu128 && (1u128 << 16u128) - 1 == 0xffffu128 && (
    1u128 << 32u128) - 1 == 0xffff_ffffu128 && (1u128 << 64u128) - 1
        == 0xffff_ffff_ffff_ffffu128) by (bit_vector);
    assert((a < 256 ==> a & 0xffff_ffff_ffff_ffffu128 == a && a >> 64 == 0 && a
        & 0xffff_ffffu128 == a && a >> 32 == 0 && a & 0xffffu128 == a && a >> 16 == 0 && a
        & 0xffu128 == a && a >> 8 == 0) && (b < 0x10000 ==> b & 0xffff_ffff_ffff_ffffu128 == b
        && b >> 64 == 0 && b & 0xffff_ffffu128 == b && b >> 32 == 0 && b & 0xffffu128 == b && b
        >> 16 == 0)) by (bit_vector);
    let b0 = b & 0xffu128;
    let b1 = b >> 8;
    assert(b < 0x10000 ==> b1 < 256 && b0 < 256 && (0 < b ==> (b0 != 0 || b1 != 0))) by (
    bit_vector)
        requires
            b0 == b & 0xffu128,
            b1 == b >> 8,
    ;
    lemma_mul128_zero(6, a);
    lemma_mul128_zero(5, a);
    lemma_mul128_zero(4, a);
    lemma_mul128_zero(6, b);
    lemma_mul128_zero(5, b);
    lemma_mul128_zero(4, b);
    lemma_mul128_zero(4, 0);
    lemma_mul128_zero(5, 0);
    lemma_mul128_zero(6, 0);
    lemma_mul128_zero(3, 0);
    lemma_mul128_zero(3, a);
    lemma_mul128_zero(3, b0);
    lemma_mul128_zero(3, b1);
    let m00 = b128_mul_at(3, a, b0);
    let m01 = b128_mul_at(3, a, b1);
    assert(m00 == b8_mul(a as u8, b0 as u8) as u128);
    assert(m01 == b8_mul(a as u8, b1 as u8) as u128);
    lemma_b8_no_zero_divisors(a as u8, b0 as u8);
    lemma_b8_no_zero_divisors(a as u8, b1 as u8);
    assert((a != 0 && a < 256 ==> a as u8 != 0) && (b0 < 256 && b0 != 0 ==> b0 as u8 != 0) && (
    b1 < 256 && b1 != 0 ==> b1 as u8 != 0)) by (bit_vector);
    let lvl4 = b128_mul_at(4, a, b);
    assert(lvl4 == (m00 ^ 0u128) ^ ((m01 ^ 0u128 ^ 0u128) << 8));
    let p0 = b8_mul(a as u8, b0 as u8);
    let p1 = b8_mul(a as u8, b1 as u8);
    assert((p0 != 0 || p1 != 0) ==> ((p0 as u128 ^ 0u128) ^ ((p1 as u128 ^ 0u128 ^ 0u128) << 8))
        != 0) by (bit_vector);
    assert(((lvl4 ^ 0u128) ^ ((0u128 ^ 0u128 ^ 0u128) << 16)) == lvl4 && ((lvl4 ^ 0u128) ^ ((
    0u128 ^ 0u128 ^ 0u128) << 32)) == lvl4 && ((lvl4 ^ 0u128) ^ ((0u128 ^ 0u128 ^ 0u128) << 64))
        == lvl4) by (bit_vector);
    let lvl5 = b128_mul_at(5, a, b);
    assert(lvl5 == lvl4);
    let lvl6 = b128_mul_at(6, a, b);
    assert(lvl6 == lvl4);
    assert(b128_mul_at(7, a, b) == lvl4);
}

/// The S-box inversion relation: on byte-field operands, the composition
/// vanishes exactly when `x * inv == 1` or both operands are zero, and is
/// nonzero on every other byte pair.
pub proof fn lemma_sbox_composition(x: u8, inv: u8)
    ensures
        b8_mul(x, inv) == 1 ==> sbox_eval(seq![x as u128, inv as u128]) == 0,
        x == 0 && inv == 0 ==> sbox_eval(seq![x as u128, inv as u128]) == 0,
        b8_mul(x, inv) != 1 && !(x == 0 && inv == 0) ==> sbox_eval(
            seq![x as u128, inv as u128]) != 0,
{
    let q = seq![x as u128, inv as u128];
    lemma_mul128_base(x as u128, inv as u128);
    lemma_mul_primitive3_base(inv as u128);
    let f1 = b128_mul(x as u128, inv as u128) ^ 1;
    let f2 = (x as u128) ^ ((inv as u128) << 8);
    assert(sbox_eval(q) == b128_mul(f1, f2));
    let prod = b8_mul(x, inv);
    assert((prod as u128) ^ 1 == (if prod == 1 {
        0u128
    } else {
        ((prod ^ 1) as u128)
    })) by (bit_vector);
    if prod == 1 {
        lemma_mul128_zero(7, f2);
    } else if x == 0 && inv == 0 {
        assert(b8_mul(0u8, 0u8) == 0 && (0u128 ^ (0u128 << 8)) == 0) by (bit_vector);
        lemma_mul128_zero(7, f1);
    } else {
        assert(f1 == ((prod ^ 1) as u128));
        assert(prod != 1 ==> (prod ^ 1) != 0 && ((prod ^ 1) as u128) < 256) by (bit_vector);
        assert(!(x == 0 && inv == 0) ==> 0 < ((x as u128) ^ ((inv as u128) << 8))
            < 0x10000) by (bit_vector);
        lemma_mul_base_16_nonzero(f1, f2);
    }
}

/// Multiplying the low byte by a byte-field scalar acts as the byte
/// field on values below 256.
proof fn lemma_mul_b8_small(x: u128, c: u8)
    requires
        x < 256,
    ensures
        b128_mul_b8(x, c) == b8_mul(x as u8, c) as u128,
{
    lemma_mul_b8_rec_zero(c, 15);
    assert(b128_mul_b8_rec(x, c, 16) == (b8_mul(x as u8, c) as u128) ^ (b128_mul_b8_rec(
        x >> 8,
        c,
        15,
    ) << 8));
    let v = b8_mul(x as u8, c) as u128;
    assert(x < 256 ==> x >> 8 == 0 && (v ^ (0u128 << 8)) == v) by (bit_vector);
}

proof fn lemma_mul_b8_rec_zero(c: u8, n: nat)
    ensures
        b128_mul_b8_rec(0, c, n) == 0,
    decreases n,
{
    if n > 0 {
        lemma_mul_b8_rec_zero(c, (n - 1) as nat);
        assert(0u128 >> 8 == 0 && b8_mul(0u8, c) == 0 && ((0u128) ^ (0u128 << 8)) == 0) by (
        bit_vector);
    }
}

/// The mix-column partial sums stay in the byte field on byte operands.
proof fn lemma_mix_sum_base(c: Seq<u8>, q: Seq<u128>, k: int)
    requires
        0 <= k <= 8,
        q.len() == 9,
        forall|t: int| 0 <= t < 9 ==> q[t] < 256,
    ensures
        mix_sum(c, q, k) < 256,
    decreases k,
{
    if k > 0 {
        lemma_mix_sum_base(c, q, k - 1);
        lemma_mul_b8_small(q[k], c[k - 1]);
        let prev = mix_sum(c, q, k - 1);
        let term = b8_mul(q[k] as u8, c[k - 1]) as u128;
        assert(prev < 256 && term < 256 ==> (prev ^ term) < 256) by (bit_vector);
    }
}

/// The MixColumn composition vanishes exactly when the output byte equals
/// the circulant combination of the input bytes.
pub proof fn lemma_mix_column_zero(mix: MixColumn, q: Seq<u128>)
    requires
        mix.inv(),
        q.len() == 9,
        forall|t: int| 0 <= t < 9 ==> q[t] < 256,
    ensures
        mix.spec_eval(q) == 0 <==> q[0] == mix_sum(mix.mix_bytes@, q, 8),
{
    lemma_mix_sum_base(mix.mix_bytes@, q, 8);
    let s = mix_sum(mix.mix_bytes@, q, 8);
    let y = q[0];
    assert((s ^ y) == 0 <==> s == y) by (bit_vector);
}


/// Rows added entry by entry.
pub open spec fn xor_rows(q1: Seq<u128>, q2: Seq<u128>) -> Seq<u128> {
    Seq::new(q1.len(), |i: int| q1[i] ^ q2[i])
}

/// A homogeneous linear expression: a sum of variables and of variables
/// scaled by constants.
pub open spec fn homlin(e: ArithExpr) -> bool
    decreases e,
{
    match e {
        ArithExpr::Var(_) => true,
        ArithExpr::Const(_) => false,
        ArithExpr::Add(a, b) => homlin(*a) && homlin(*b),
        ArithExpr::Mul(a, b) => (*a) is Const && homlin(*b),
    }
}

/// A homogeneous linear expression has degree one and equals its leading
/// form.
proof fn lemma_homlin_inf(e: ArithExpr, q: Seq<u128>)
    requires
        homlin(e),
    ensures
        crate::expr::expr_degree(e) == 1,
        crate::expr::eval_expr_inf(e, q) == eval_expr(e, q),
    decreases e,
{
    match e {
        ArithExpr::Var(_) => {},
        ArithExpr::Const(_) => {},
        ArithExpr::Add(a, b) => {
            lemma_homlin_inf(*a, q);
            lemma_homlin_inf(*b, q);
            assert(crate::expr::expr_degree(e) == 1);
            assert(crate::expr::eval_expr_inf(e, q) == (crate::expr::eval_expr_inf(*a, q)
                ^ crate::expr::eval_expr_inf(*b, q)));
        },
        ArithExpr::Mul(a, b) => {
            lemma_homlin_inf(*b, q);
            let c = (*a)->Const_0;
            assert(*a == ArithExpr::Const(c));
            assert(crate::expr::expr_degree(*a) == 0);
            assert(crate::expr::expr_degree(e) == 1);
            assert(crate::expr::eval_expr_inf(*a, q) == c && eval_expr(*a, q) == c);
            assert(crate::expr::eval_expr_inf(e, q) == crate::field::b128_mul(
                c,
                crate::expr::eval_expr_inf(*b, q),
            ));
        },
    }
}

/// A homogeneous linear expression is additive in its query.
proof fn lemma_homlin_linear(e: ArithExpr, q1: Seq<u128>, q2: Seq<u128>)
    requires
        homlin(e),
        crate::expr::expr_n_vars(e) <= q1.len(),
        q1.len() == q2.len(),
    ensures
        eval_expr(e, xor_rows(q1, q2)) == (eval_expr(e, q1) ^ eval_expr(e, q2)),
    decreases e,
{
    match e {
        ArithExpr::Var(_) => {},
        ArithExpr::Const(_) => {},
        ArithExpr::Add(a, b) => {
            lemma_homlin_linear(*a, q1, q2);
            lemma_homlin_linear(*b, q1, q2);
            lemma_xor_shuffle(
                eval_expr(*a, q1),
                eval_expr(*a, q2),
                eval_expr(*b, q1),
                eval_expr(*b, q2),
            );
        },
        ArithExpr::Mul(a, b) => {
            lemma_homlin_linear(*b, q1, q2);
            let c = (*a)->Const_0;
            assert(*a == ArithExpr::Const(c));
            assert(eval_expr(*a, xor_rows(q1, q2)) == c && eval_expr(*a, q1) == c && eval_expr(
                *a,
                q2,
            ) == c);
            crate::field::lemma_b128_xor_linear(7, c, eval_expr(*b, q1), eval_expr(*b, q2));
        },
    }
}

proof fn lemma_spec_lane_infinity<A: SumcheckMultilinearAccess>(
    access: A,
    e: ArithExpr,
    mls: Seq<SumcheckMultilinear>,
    exp: Seq<u128>,
    tqv: nat,
    n1: nat,
    sv: nat,
    si: int,
    points: Seq<u8>,
    l: int,
    k: int,
)
    requires
        homlin(e),
        crate::expr::expr_n_vars(e) <= mls.len(),
    ensures
        spec_lane(access, e, mls, exp, tqv, n1, sv, si, 2, points, l, k) == (spec_lane(
            access, e, mls, exp, tqv, n1, sv, si, 1, points, l, k) ^ spec_lane(
            access, e, mls, exp, tqv, n1, sv, si, 0, points, l, k)),
    decreases k,
{
    if k <= 0 {
        lemma_xor_shuffle(0, 0, 0, 0);
    } else {
        lemma_spec_lane_infinity(access, e, mls, exp, tqv, n1, sv, si, points, l, k - 1);
        let pos = si * pow2(sv) + (k - 1);
        let row0 = z_row(access, mls, exp, tqv, n1, 0, points, pos);
        let row1 = z_row(access, mls, exp, tqv, n1, 1, points, pos);
        let row2 = z_row(access, mls, exp, tqv, n1, 2, points, pos);
        let s2 = spec_lane(access, e, mls, exp, tqv, n1, sv, si, 2, points, l, k - 1);
        let s1 = spec_lane(access, e, mls, exp, tqv, n1, sv, si, 1, points, l, k - 1);
        let s0 = spec_lane(access, e, mls, exp, tqv, n1, sv, si, 0, points, l, k - 1);
        if (k - 1) % 4 == l {
            assert forall|i: int| 0 <= i < mls.len() implies row2[i] == (row1[i] ^ row0[i]) by {
                let v0 = access.spec_value(mls[i], exp, tqv, n1, false, pos);
                let v1 = access.spec_value(mls[i], exp, tqv, n1, true, pos);
                lemma_xor_shuffle(v0, v1, 0, 0);
            }
            assert(row2 =~= xor_rows(row1, row0));
            lemma_homlin_inf(e, row2);
            lemma_homlin_linear(e, row1, row0);
            let c2 = crate::sumcheck::point_contrib(e, row2, true);
            let c1 = crate::sumcheck::point_contrib(e, row1, false);
            let c0 = crate::sumcheck::point_contrib(e, row0, false);
            assert(c2 == (c1 ^ c0));
            lemma_xor_shuffle(s1, s0, c1, c0);
            assert(spec_lane(access, e, mls, exp, tqv, n1, sv, si, 2, points, l, k) == (s2 ^ c2));
            assert(spec_lane(access, e, mls, exp, tqv, n1, sv, si, 1, points, l, k) == (s1 ^ c1));
            assert(spec_lane(access, e, mls, exp, tqv, n1, sv, si, 0, points, l, k) == (s0 ^ c0));
        } else {
            lemma_xor_shuffle(s1, s0, 0, 0);
            lemma_xor_shuffle(s1 ^ s0, 0, 0, 0);
            lemma_xor_shuffle(0, 0, 0, 0);
            assert(spec_lane(access, e, mls, exp, tqv, n1, sv, si, 2, points, l, k) == (s2
                ^ 0u128));
        }
    }
}

proof fn lemma_acc_sum_infinity<A: SumcheckMultilinearAccess>(
    access: A,
    e: ArithExpr,
    mls: Seq<SumcheckMultilinear>,
    exp: Seq<u128>,
    tqv: nat,
    n1: nat,
    sv: nat,
    points: Seq<u8>,
    l: int,
    upto: int,
)
    requires
        homlin(e),
        crate::expr::expr_n_vars(e) <= mls.len(),
    ensures
        acc_sum(access, e, mls, exp, tqv, n1, sv, 2, points, l, upto) == (acc_sum(
            access, e, mls, exp, tqv, n1, sv, 1, points, l, upto) ^ acc_sum(
            access, e, mls, exp, tqv, n1, sv, 0, points, l, upto)),
    decreases upto,
{
    if upto <= 0 {
        lemma_xor_shuffle(0, 0, 0, 0);
    } else {
        lemma_acc_sum_infinity(access, e, mls, exp, tqv, n1, sv, points, l, upto - 1);
        lemma_spec_lane_infinity(
            access, e, mls, exp, tqv, n1, sv, upto - 1, points, l, pow2(sv));
        lemma_xor_shuffle(
            acc_sum(access, e, mls, exp, tqv, n1, sv, 1, points, l, upto - 1),
            acc_sum(access, e, mls, exp, tqv, n1, sv, 0, points, l, upto - 1),
            spec_lane(access, e, mls, exp, tqv, n1, sv, upto - 1, 1, points, l, pow2(sv)),
            spec_lane(access, e, mls, exp, tqv, n1, sv, upto - 1, 0, points, l, pow2(sv)),
        );
    }
}

proof fn lemma_lane_fold_infinity<A: SumcheckMultilinearAccess>(
    access: A,
    e: ArithExpr,
    mls: Seq<SumcheckMultilinear>,
    exp: Seq<u128>,
    tqv: nat,
    n1: nat,
    sv: nat,
    points: Seq<u8>,
    count: int,
    lanes: int,
)
    requires
        homlin(e),
        crate::expr::expr_n_vars(e) <= mls.len(),
    ensures
        lane_fold(access, e, mls, exp, tqv, n1, sv, 2, points, count, lanes) == (lane_fold(
            access, e, mls, exp, tqv, n1, sv, 1, points, count, lanes) ^ lane_fold(
            access, e, mls, exp, tqv, n1, sv, 0, points, count, lanes)),
    decreases lanes,
{
    if lanes <= 0 {
        lemma_xor_shuffle(0, 0, 0, 0);
    } else {
        lemma_lane_fold_infinity(access, e, mls, exp, tqv, n1, sv, points, count, lanes - 1);
        lemma_acc_sum_infinity(access, e, mls, exp, tqv, n1, sv, points, lanes - 1, count);
        lemma_xor_shuffle(
            lane_fold(access, e, mls, exp, tqv, n1, sv, 1, points, count, lanes - 1),
            lane_fold(access, e, mls, exp, tqv, n1, sv, 0, points, count, lanes - 1),
            acc_sum(access, e, mls, exp, tqv, n1, sv, 1, points, lanes - 1, count),
            acc_sum(access, e, mls, exp, tqv, n1, sv, 0, points, lanes - 1, count),
        );
    }
}

/// For a homogeneous linear composition, the round evaluation at the
/// infinity index equals the round evaluation at one minus the round
/// evaluation at zero, whatever the multilinears, the evaluation order
/// and the constant tail.
pub proof fn lemma_infinity_round_identity<A: SumcheckMultilinearAccess>(
    access: A,
    ev: SumcheckEvaluator,
    mls: Seq<SumcheckMultilinear>,
    exp: Seq<u128>,
    tqv: nat,
    n_vars: nat,
    points: Seq<u8>,
)
    requires
        n_vars >= 1,
        homlin(ev.composition.expr),
        crate::expr::expr_n_vars(ev.composition.expr) <= mls.len(),
    ensures
        round_scalar(access, ev, mls, exp, tqv, n_vars, 2, points) == (round_scalar(
            access, ev, mls, exp, tqv, n_vars, 1, points) ^ round_scalar(
            access, ev, mls, exp, tqv, n_vars, 0, points)),
{
    let n1 = (n_vars - 1) as nat;
    let sv = crate::sumcheck::chosen_subcube_vars(n1, tqv);
    let count = crate::sumcheck::ceil_div(pow2(n1) - ev.const_eval_suffix, pow2(sv));
    let lanes = if pow2(sv) < 4 {
        pow2(sv)
    } else {
        4int
    };
    lemma_lane_fold_infinity(
        access, ev.composition.expr, mls, exp, tqv, n1, sv, points, count, lanes);
    let f1 = lane_fold(access, ev.composition.expr, mls, exp, tqv, n1, sv, 1, points, count, lanes);
    let f0 = lane_fold(access, ev.composition.expr, mls, exp, tqv, n1, sv, 0, points, count, lanes);
    let s = crate::sumcheck::suffix_contrib(ev, pow2(n_vars) - count * pow2(sv), false);
    lemma_xor_shuffle(f1, f0, s, s);
    lemma_xor_shuffle(s, s, 0, 0);
    lemma_xor_shuffle(f1 ^ f0, 0, 0, 0);
}

/// The MixColumn composition is homogeneous linear of arity nine, so the
/// infinity-round identity applies to every constraint it forms.
pub proof fn lemma_mix_column_homlin(mix: MixColumn)
    requires
        mix.inv(),
    ensures
        homlin(mix.spec_expression()),
        crate::expr::expr_n_vars(mix.spec_expression()) == 9,
{
    lemma_mix_expr_homlin(mix.mix_bytes@, 8);
    let e = mix.spec_expression();
    assert(homlin(ArithExpr::Var(0)));
    assert(crate::expr::expr_n_vars(ArithExpr::Var(0)) == 1);
    assert(crate::expr::expr_n_vars(e) == 9);
    assert(homlin(e));
}

proof fn lemma_mix_expr_homlin(c: Seq<u8>, k: int)
    requires
        1 <= k <= 8,
    ensures
        homlin(crate::composition::mix_expr_sum(c, k)),
        crate::expr::expr_n_vars(crate::composition::mix_expr_sum(c, k)) == k + 1,
    decreases k,
{
    let e = crate::composition::mix_expr_sum(c, k);
    if k == 1 {
        assert(e == ArithExpr::Mul(
            Box::new(ArithExpr::Const(c[0] as u128)),
            Box::new(ArithExpr::Var(1)),
        ));
        assert(homlin(ArithExpr::Var(1)));
        assert(crate::expr::expr_n_vars(ArithExpr::Var(1)) == 2);
        assert(crate::expr::expr_n_vars(ArithExpr::Const(c[0] as u128)) == 0);
        assert(crate::expr::expr_n_vars(e) == 2);
        assert(homlin(e));
    } else {
        lemma_mix_expr_homlin(c, k - 1);
        assert(homlin(ArithExpr::Var(k as usize)));
        assert(crate::expr::expr_n_vars(ArithExpr::Var(k as usize)) == k + 1);
        assert(crate::expr::expr_n_vars(ArithExpr::Const(c[k - 1] as u128)) == 0);
        assert(homlin(
            ArithExpr::Mul(
                Box::new(ArithExpr::Const(c[k - 1] as u128)),
                Box::new(ArithExpr::Var(k as usize)),
            ),
        ));
        assert(crate::expr::expr_n_vars(
            ArithExpr::Mul(
                Box::new(ArithExpr::Const(c[k - 1] as u128)),
                Box::new(ArithExpr::Var(k as usize)),
            ),
        ) == k + 1);
        assert(crate::expr::expr_n_vars(e) == k + 1);
        assert(homlin(e));
    }
}

} // verus!


//! Binary tower field scalars.
//!
//! Two concrete fields are provided as plain machine integers:
//!
//! * `u8` values are elements of the 8-bit AES field (tower level 3): the
//!   field of 256 elements presented on the Rijndael basis, with the
//!   reduction polynomial `x^8 + x^4 + x^3 + x + 1`.
//! * `u128` values are elements of the 128-bit field (tower level 7) built
//!   above the AES byte field by four Fan-Paar quadratic extensions: each
//!   level `l + 1` is `F_l[X] / (X^2 + A_l * X + 1)`, where `A_3 = 0x02`
//!   (chosen so the quadratic is irreducible over the AES field) and
//!   `A_l` for `l >= 4` is the variable adjoined at level `l`.
//!
//! In this representation the byte field embeds into the 128-bit field as
//! the low byte, and multiplying a 128-bit element by a byte-field scalar
//! acts on each 8-bit coefficient separately. Addition in every binary
//! field is bitwise xor.

use vstd::prelude::*;

verus! {

/// Tower level of the 1-bit field.
pub const TOWER_LEVEL_B1: usize = 0;
/// Tower level of the 8-bit AES field.
pub const TOWER_LEVEL_B8: usize = 3;
/// Tower level of the 128-bit field.
pub const TOWER_LEVEL_B128: usize = 7;

/// Multiplication by `x` in the AES field: shift and reduce by the
/// Rijndael polynomial.
pub open spec fn b8_xtime(a: u8) -> u8 {
    ((((a as u16) << 1) ^ (if (a as u16) & 0x80 == 0x80 { 0x11b } else { 0 })) & 0xff) as u8
}

/// Product of two elements of the AES field: the carry-less product of the
/// operands reduced by the Rijndael polynomial, written as the xor of the
/// shifted copies of `a` selected by the bits of `b`.
pub open spec fn b8_mul(a: u8, b: u8) -> u8 {
    let a1 = b8_xtime(a);
    let a2 = b8_xtime(a1);
    let a3 = b8_xtime(a2);
    let a4 = b8_xtime(a3);
    let a5 = b8_xtime(a4);
    let a6 = b8_xtime(a5);
    let a7 = b8_xtime(a6);
    (if b & 0x01 != 0 { a } else { 0 })
        ^ (if b & 0x02 != 0 { a1 } else { 0 })
        ^ (if b & 0x04 != 0 { a2 } else { 0 })
        ^ (if b & 0x08 != 0 { a3 } else { 0 })
        ^ (if b & 0x10 != 0 { a4 } else { 0 })
        ^ (if b & 0x20 != 0 { a5 } else { 0 })
        ^ (if b & 0x40 != 0 { a6 } else { 0 })
        ^ (if b & 0x80 != 0 { a7 } else { 0 })
}

/// Multiplication by `x` in the AES field.
pub fn xtime(a: u8) -> (r: u8)
    ensures
        r == b8_xtime(a),
{
    let t: u16 = ((a as u16) << 1u16) ^ (if (a as u16) & 0x80 == 0x80 { 0x11bu16 } else { 0u16 });
    (t & 0xff) as u8
}

/// Product of two elements of the AES field.
pub fn mul8(a: u8, b: u8) -> (r: u8)
    ensures
        r == b8_mul(a, b),
{
    let a1 = xtime(a);
    let a2 = xtime(a1);
    let a3 = xtime(a2);
    let a4 = xtime(a3);
    let a5 = xtime(a4);
    let a6 = xtime(a5);
    let a7 = xtime(a6);
    let r = (if b & 0x01 != 0 { a } else { 0 })
        ^ (if b & 0x02 != 0 { a1 } else { 0 })
        ^ (if b & 0x04 != 0 { a2 } else { 0 })
        ^ (if b & 0x08 != 0 { a3 } else { 0 })
        ^ (if b & 0x10 != 0 { a4 } else { 0 })
        ^ (if b & 0x20 != 0 { a5 } else { 0 })
        ^ (if b & 0x40 != 0 { a6 } else { 0 })
        ^ (if b & 0x80 != 0 { a7 } else { 0 });
    r
}

/// The constant `A_3 = 0x02`: `X^2 + A_3 * X + 1` is irreducible over the
/// AES field, so it defines the extension from level 3 to level 4.
pub const TOWER_ALPHA_3: u8 = 0x02;

/// Number of bits in one half of a level-`l` element, `2^(l-1)`.
pub open spec fn b128_half_bits(l: nat) -> u128 {
    1u128 << ((l - 1) as u128)
}

/// Mask selecting the low half of a level-`l` element.
pub open spec fn b128_half_mask(l: nat) -> u128 {
    ((1u128 << b128_half_bits(l)) - 1) as u128
}

/// Product of a level-`l` element and the level constant `A_l`
/// (`A_3 = 0x02`; for `l >= 4`, `A_l` is the variable adjoined at level
/// `l`, with representation `1 << 2^(l-1)`). Splitting `x = x0 + x1 * A_l`
/// at `l >= 4` gives `A_l * x = x1 + (x0 + A_(l-1) * x1) * A_l`, since
/// `A_l^2 = A_(l-1) * A_l + 1`.
pub open spec fn b128_mul_alpha_at(l: nat, x: u128) -> u128
    decreases l,
{
    if l <= 3 {
        b8_mul(x as u8, TOWER_ALPHA_3) as u128
    } else {
        let h = b128_half_bits(l);
        let x0 = x & b128_half_mask(l);
        let x1 = x >> h;
        x1 ^ ((x0 ^ b128_mul_alpha_at((l - 1) as nat, x1)) << h)
    }
}

/// Product of two level-`l` elements. At level 3 this is the AES field
/// product of the low bytes; above it, splitting both operands at the
/// half width `2^(l-1)` bits, the Fan-Paar rule gives
/// `(a0 + a1 X)(b0 + b1 X) = (a0 b0 + a1 b1) + (a0 b1 + a1 b0 + A_(l-1) a1 b1) X`.
pub open spec fn b128_mul_at(l: nat, a: u128, b: u128) -> u128
    decreases l,
{
    if l <= 3 {
        b8_mul(a as u8, b as u8) as u128
    } else {
        let h = b128_half_bits(l);
        let mask = b128_half_mask(l);
        let a0 = a & mask;
        let a1 = a >> h;
        let b0 = b & mask;
        let b1 = b >> h;
        let m00 = b128_mul_at((l - 1) as nat, a0, b0);
        let m01 = b128_mul_at((l - 1) as nat, a0, b1);
        let m10 = b128_mul_at((l - 1) as nat, a1, b0);
        let m11 = b128_mul_at((l - 1) as nat, a1, b1);
        (m00 ^ m11) ^ ((m01 ^ m10 ^ b128_mul_alpha_at((l - 1) as nat, m11)) << h)
    }
}

/// Product in the 128-bit field.
pub open spec fn b128_mul(a: u128, b: u128) -> u128 {
    b128_mul_at(7, a, b)
}

/// Half width and low-half mask of a level-`l` element, as run-time values.
fn half_bits_and_mask(l: usize) -> (r: (u128, u128))
    requires
        4 <= l <= 7,
    ensures
        r.0 == b128_half_bits(l as nat),
        r.1 == b128_half_mask(l as nat),
        r.0 <= 64,
{
    proof {
        assert(1u128 << 3u128 == 8 && 1u128 << 4u128 == 16 && 1u128 << 5u128 == 32 && 1u128 << 6u128
            == 64 && (1u128 << 8u128) - 1 == 0xffu128 && (1u128 << 16u128) - 1 == 0xffffu128 && (
        1u128 << 32u128) - 1 == 0xffff_ffffu128 && (1u128 << 64u128) - 1
            == 0xffff_ffff_ffff_ffffu128) by (bit_vector);
    }
    if l == 4 {
        (8, 0xff)
    } else if l == 5 {
        (16, 0xffff)
    } else if l == 6 {
        (32, 0xffff_ffff)
    } else {
        (64, 0xffff_ffff_ffff_ffff)
    }
}

/// Product of a level-`l` element and `A_l`.
pub fn mul_alpha_at(l: usize, x: u128) -> (r: u128)
    requires
        3 <= l <= 7,
    ensures
        r == b128_mul_alpha_at(l as nat, x),
    decreases l,
{
    if l == 3 {
        mul8(x as u8, TOWER_ALPHA_3) as u128
    } else {
        let (h, mask) = half_bits_and_mask(l);
        let x0 = x & mask;
        let x1 = x >> h;
        x1 ^ ((x0 ^ mul_alpha_at(l - 1, x1)) << h)
    }
}

/// Product of two level-`l` elements.
pub fn mul128_at(l: usize, a: u128, b: u128) -> (r: u128)
    requires
        3 <= l <= 7,
    ensures
        r == b128_mul_at(l as nat, a, b),
    decreases l,
{
    if l == 3 {
        mul8(a as u8, b as u8) as u128
    } else {
        let (h, mask) = half_bits_and_mask(l);
        let a0 = a & mask;
        let a1 = a >> h;
        let b0 = b & mask;
        let b1 = b >> h;
        let m00 = mul128_at(l - 1, a0, b0);
        let m01 = mul128_at(l - 1, a0, b1);
        let m10 = mul128_at(l - 1, a1, b0);
        let m11 = mul128_at(l - 1, a1, b1);
        (m00 ^ m11) ^ ((m01 ^ m10 ^ mul_alpha_at(l - 1, m11)) << h)
    }
}

/// Product in the 128-bit field.
pub fn mul128(a: u128, b: u128) -> (r: u128)
    ensures
        r == b128_mul(a, b),
{
    mul128_at(7, a, b)
}

/// `x` squared `k` times: `x^(2^k)`.
pub open spec fn b8_sq_pow(x: u8, k: nat) -> u8
    decreases k,
{
    if k == 0 {
        x
    } else {
        let y = b8_sq_pow(x, (k - 1) as nat);
        b8_mul(y, y)
    }
}

/// Product `x^2 * x^4 * ... * x^(2^k)`, so that `b8_inv_chain(x, 7)` is
/// `x^254`.
pub open spec fn b8_inv_chain(x: u8, k: nat) -> u8
    decreases k,
{
    if k <= 1 {
        b8_sq_pow(x, 1)
    } else {
        b8_mul(b8_inv_chain(x, (k - 1) as nat), b8_sq_pow(x, k))
    }
}

/// `x^254` in the AES field. By Fermat's little theorem this is the
/// multiplicative inverse of a nonzero `x`, and it is `0` for `x == 0`.
pub open spec fn b8_inv(x: u8) -> u8 {
    b8_inv_chain(x, 7)
}

/// Inverse-or-zero in the AES field, computed as `x^254` by
/// square-and-multiply.
pub fn inv8(x: u8) -> (r: u8)
    ensures
        r == b8_inv(x),
{
    let mut acc = mul8(x, x);
    let mut r = acc;
    let mut k: usize = 1;
    proof {
        assert(b8_sq_pow(x, 0) == x);
        assert(b8_sq_pow(x, 1) == b8_mul(x, x));
    }
    while k < 7
        invariant
            1 <= k <= 7,
            acc == b8_sq_pow(x, k as nat),
            r == b8_inv_chain(x, k as nat),
        decreases 7 - k,
    {
        acc = mul8(acc, acc);
        k = k + 1;
        r = mul8(r, acc);
    }
    r
}

/// `x` squared `k` times in the 128-bit field: `x^(2^k)`.
pub open spec fn b128_sq_pow(x: u128, k: nat) -> u128
    decreases k,
{
    if k == 0 {
        x
    } else {
        let y = b128_sq_pow(x, (k - 1) as nat);
        b128_mul(y, y)
    }
}

/// Product `x^2 * x^4 * ... * x^(2^k)`, so that `b128_inv_chain(x, 127)`
/// is `x^(2^128 - 2)`.
pub open spec fn b128_inv_chain(x: u128, k: nat) -> u128
    decreases k,
{
    if k <= 1 {
        b128_sq_pow(x, 1)
    } else {
        b128_mul(b128_inv_chain(x, (k - 1) as nat), b128_sq_pow(x, k))
    }
}

/// `x^(2^128 - 2)` in the 128-bit field: the multiplicative inverse of a
/// nonzero `x`, and `0` for `x == 0`.
pub open spec fn b128_inv(x: u128) -> u128 {
    b128_inv_chain(x, 127)
}

/// Inverse-or-zero in the 128-bit field, computed as `x^(2^128 - 2)` by
/// square-and-multiply.
pub fn inv128(x: u128) -> (r: u128)
    ensures
        r == b128_inv(x),
{
    let mut acc = mul128(x, x);
    let mut r = acc;
    let mut k: usize = 1;
    proof {
        assert(b128_sq_pow(x, 0) == x);
        assert(b128_sq_pow(x, 1) == b128_mul(x, x));
    }
    while k < 127
        invariant
            1 <= k <= 127,
            acc == b128_sq_pow(x, k as nat),
            r == b128_inv_chain(x, k as nat),
        decreases 127 - k,
    {
        acc = mul128(acc, acc);
        k = k + 1;
        r = mul128(r, acc);
    }
    r
}

/// Product of the low `n` byte coefficients of `a` with the byte-field
/// scalar `c`, each byte separately.
pub open spec fn b128_mul_b8_rec(a: u128, c: u8, n: nat) -> u128
    decreases n,
{
    if n == 0 {
        0
    } else {
        (b8_mul(a as u8, c) as u128) ^ (b128_mul_b8_rec(a >> 8, c, (n - 1) as nat) << 8)
    }
}

/// Product of a 128-bit element and a byte-field scalar. A level-7
/// element is a vector of sixteen level-3 coefficients, so a byte-field
/// scalar acts on each byte separately.
pub open spec fn b128_mul_b8(a: u128, c: u8) -> u128 {
    b128_mul_b8_rec(a, c, 16)
}

fn mul_b8_rec(a: u128, c: u8, n: usize) -> (r: u128)
    requires
        n <= 16,
    ensures
        r == b128_mul_b8_rec(a, c, n as nat),
    decreases n,
{
    if n == 0 {
        0
    } else {
        (mul8(a as u8, c) as u128) ^ (mul_b8_rec(a >> 8u128, c, n - 1) << 8u128)
    }
}

/// Product of a 128-bit element and a byte-field scalar.
pub fn mul128_b8(a: u128, c: u8) -> (r: u128)
    ensures
        r == b128_mul_b8(a, c),
{
    mul_b8_rec(a, c, 16)
}

/// The `i`-th primitive tower element: the variable adjoined at level
/// `i + 1`, with representation `1 << 2^i`.
pub open spec fn b128_primitive(i: nat) -> u128 {
    1u128 << ((1usize << i) as u128)
}

/// Product of `x` and the `i`-th primitive tower element.
///
/// The 128-bit field has tower level 7, so the product is defined for
/// `3 <= i < 7`; the basis elements below level 3 are not represented on
/// the AES basis of the byte field, and above level 6 the field is too
/// small, so both are rejected.
pub fn mul_primitive(x: u128, i: usize) -> (r: Result<u128, ()>)
    ensures
        3 <= i < 7 ==> r == Ok::<u128, ()>(b128_mul(x, b128_primitive(i as nat))),
        !(3 <= i < 7) ==> r == Err::<u128, ()>(()),
{
    if 3 <= i && i < 7 {
        assert(3 <= i < 7 ==> (1usize << i) < 128usize) by (bit_vector);
        let e: usize = 1usize << i;
        Ok(mul128(x, 1u128 << (e as u128)))
    } else {
        Err(())
    }
}

/// Multiplication by zero gives zero, at every level.
pub proof fn lemma_mul128_zero(l: nat, x: u128)
    ensures
        b128_mul_at(l, x, 0) == 0,
        b128_mul_at(l, 0, x) == 0,
        b128_mul_alpha_at(l, 0) == 0,
    decreases l,
{
    if l <= 3 {
        assert(b8_mul(x as u8, 0) == 0 && b8_mul(0, x as u8) == 0 && b8_mul(0, 0x02u8) == 0) by (
        bit_vector);
    } else {
        let h = b128_half_bits(l);
        let mask = b128_half_mask(l);
        assert(0u128 & mask == 0 && 0u128 >> h == 0) by (bit_vector);
        lemma_mul128_zero((l - 1) as nat, x & mask);
        lemma_mul128_zero((l - 1) as nat, x >> h);
        lemma_mul128_zero((l - 1) as nat, 0);
        assert((0u128 ^ 0u128) == 0 && ((0u128 ^ 0u128 ^ 0u128) << h) == 0) by (bit_vector);
    }
}

/// For operands of the byte field (values below 256), the 128-bit product
/// agrees with the AES field product.
pub proof fn lemma_mul128_base(a: u128, b: u128)
    requires
        a < 256,
        b < 256,
    ensures
        b128_mul(a, b) == b8_mul(a as u8, b as u8) as u128,
{
    lemma_mul128_base_at(7, a, b);
}

proof fn lemma_mul128_base_at(l: nat, a: u128, b: u128)
    requires
        3 <= l <= 7,
        a < 256,
        b < 256,
    ensures
        b128_mul_at(l, a, b) == b8_mul(a as u8, b as u8) as u128,
    decreases l,
{
    if l > 3 {
        let h = b128_half_bits(l);
        let mask = b128_half_mask(l);
        assert(1u128 << 3u128 == 8 && 1u128 << 4u128 == 16 && 1u128 << 5u128 == 32 && 1u128 << 6u128
            == 64) by (bit_vector);
        assert(a < 256 && (h == 8 || h == 16 || h == 32 || h == 64) ==> a >> h == 0 && a & (((1u128
            << h) - 1) as u128) == a) by (bit_vector);
        assert(b < 256 && (h == 8 || h == 16 || h == 32 || h == 64) ==> b >> h == 0 && b & (((1u128
            << h) - 1) as u128) == b) by (bit_vector);
        lemma_mul128_base_at((l - 1) as nat, a, b);
        lemma_mul128_zero((l - 1) as nat, a);
        lemma_mul128_zero((l - 1) as nat, b);
        lemma_mul128_zero((l - 1) as nat, 0);
        let m00 = b128_mul_at((l - 1) as nat, a, b);
        assert((m00 ^ 0u128) ^ ((0u128 ^ 0u128 ^ 0u128) << h) == m00) by (bit_vector);
    }
}

/// The AES field has no zero divisors.
pub proof fn lemma_b8_no_zero_divisors(a: u8, b: u8)
    by (bit_vector)
    ensures
        b8_mul(a, b) == 0 ==> a == 0 || b == 0,
{
}

/// In a binary field, a sum is zero exactly when its terms agree.
pub proof fn lemma_xor_cancel(a: u128, b: u128)
    by (bit_vector)
    ensures
        (a ^ b) == 0 <==> a == b,
{
}


/// Multiplication and the `A_l` action distribute over addition (xor):
/// the tower product is linear in each operand.
#[verifier::rlimit(100)]
pub proof fn lemma_b128_xor_linear(l: nat, c: u128, x: u128, y: u128)
    ensures
        b128_mul_at(l, c, x ^ y) == (b128_mul_at(l, c, x) ^ b128_mul_at(l, c, y)),
        b128_mul_alpha_at(l, x ^ y) == (b128_mul_alpha_at(l, x) ^ b128_mul_alpha_at(l, y)),
    decreases l,
{
    if l <= 3 {
        assert(b8_mul(c as u8, (x ^ y) as u8) == (b8_mul(c as u8, x as u8) ^ b8_mul(
            c as u8,
            y as u8,
        )) && b8_mul((x ^ y) as u8, TOWER_ALPHA_3) == (b8_mul(x as u8, TOWER_ALPHA_3) ^ b8_mul(
            y as u8,
            TOWER_ALPHA_3,
        )) && ((b8_mul(c as u8, x as u8) ^ b8_mul(c as u8, y as u8)) as u128) == ((b8_mul(
            c as u8,
            x as u8,
        ) as u128) ^ (b8_mul(c as u8, y as u8) as u128)) && ((b8_mul(x as u8, TOWER_ALPHA_3)
            ^ b8_mul(y as u8, TOWER_ALPHA_3)) as u128) == ((b8_mul(
            x as u8,
            TOWER_ALPHA_3,
        ) as u128) ^ (b8_mul(y as u8, TOWER_ALPHA_3) as u128))) by (bit_vector);
    } else {
        let h = b128_half_bits(l);
        let mask = b128_half_mask(l);
        let c0 = c & mask;
        let c1 = c >> h;
        let x0 = x & mask;
        let x1 = x >> h;
        let y0 = y & mask;
        let y1 = y >> h;
        assert((x ^ y) & mask == (x0 ^ y0) && (x ^ y) >> h == (x1 ^ y1)) by (bit_vector)
            requires
                x0 == x & mask,
                x1 == x >> h,
                y0 == y & mask,
                y1 == y >> h,
        ;
        lemma_b128_xor_linear((l - 1) as nat, c0, x0, y0);
        lemma_b128_xor_linear((l - 1) as nat, c0, x1, y1);
        lemma_b128_xor_linear((l - 1) as nat, c1, x0, y0);
        lemma_b128_xor_linear((l - 1) as nat, c1, x1, y1);
        let m11x = b128_mul_at((l - 1) as nat, c1, x1);
        let m11y = b128_mul_at((l - 1) as nat, c1, y1);
        lemma_b128_xor_linear((l - 1) as nat, c0, m11x, m11y);
        let ax1 = b128_mul_alpha_at((l - 1) as nat, x1);
        let ay1 = b128_mul_alpha_at((l - 1) as nat, y1);
        let am11x = b128_mul_alpha_at((l - 1) as nat, m11x);
        let am11y = b128_mul_alpha_at((l - 1) as nat, m11y);
        let p0x = b128_mul_at((l - 1) as nat, c0, x0);
        let p0y = b128_mul_at((l - 1) as nat, c0, y0);
        let p1x = b128_mul_at((l - 1) as nat, c0, x1);
        let p1y = b128_mul_at((l - 1) as nat, c0, y1);
        let p2x = b128_mul_at((l - 1) as nat, c1, x0);
        let p2y = b128_mul_at((l - 1) as nat, c1, y0);
        assert((((p0x ^ p0y) ^ (m11x ^ m11y)) ^ (((p1x ^ p1y) ^ (p2x ^ p2y) ^ (am11x ^ am11y))
            << h)) == (((p0x ^ m11x) ^ ((p1x ^ p2x ^ am11x) << h)) ^ ((p0y ^ m11y) ^ ((p1y ^ p2y
            ^ am11y) << h))) && (((x1 ^ y1) ^ (((x0 ^ y0) ^ (ax1 ^ ay1)) << h)) == ((x1 ^ ((x0
            ^ ax1) << h)) ^ (y1 ^ ((y0 ^ ay1) << h))))) by (bit_vector);
    }
}

/// Rearrangement facts for sums in a binary field.
pub proof fn lemma_xor_shuffle(a: u128, b: u128, c: u128, d: u128)
    by (bit_vector)
    ensures
        ((a ^ c) ^ (b ^ d)) == ((a ^ b) ^ (c ^ d)),
        (a ^ b) == (b ^ a),
        (a ^ 0u128) == a,
        (a ^ a) == 0u128,
{
}

} // verus!

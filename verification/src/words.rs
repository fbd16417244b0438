//! Word-level arithmetic of the simulated processor.
//!
//! All register storage is unsigned 32-bit; signed operations reinterpret the
//! bit pattern as two's complement only at the operation. This module defines
//! that reinterpretation, reduction modulo 2^32, sign extension of immediates,
//! and the 64-bit product and truncating-division semantics used by the
//! multiply and divide instructions, together with executable helpers proved
//! against those definitions.

use vstd::prelude::*;

verus! {

use vstd::arithmetic::div_mod::{
    lemma_div_nonincreasing,
    lemma_div_pos_is_pos,
    lemma_fundamental_div_mod,
    lemma_fundamental_div_mod_converse,
    lemma_mod_add_multiples_vanish,
    lemma_mod_bound,
    lemma_small_mod,
};
use vstd::arithmetic::mul::{
    lemma_mul_cancels_negatives,
    lemma_mul_unary_negation,
    lemma_mul_upper_bound,
};
use vstd::arithmetic::power2::pow2;
use vstd::bits::{lemma_u32_pow2_no_overflow, lemma_u32_shr_is_div};
use vstd::math::abs;
use vstd::wrapping::{u32_specs, u64_specs};

/// The value `x` reduced into the unsigned 32-bit range.
pub open spec fn wrap32(x: int) -> u32 {
    (x % 0x1_0000_0000) as u32
}

/// The two's-complement reading of a 32-bit word.
pub open spec fn to_signed32(x: u32) -> int {
    if x < 0x8000_0000 {
        x as int
    } else {
        x as int - 0x1_0000_0000
    }
}

/// The two's-complement reading of a 16-bit immediate.
pub open spec fn signed16(imm: u32) -> int
    recommends
        imm < 0x1_0000,
{
    if imm < 0x8000 {
        imm as int
    } else {
        imm as int - 0x1_0000
    }
}

/// A 16-bit immediate promoted to 32 bits, copying the top bit.
pub open spec fn sign_extend16(imm: u32) -> u32
    recommends
        imm < 0x1_0000,
{
    if imm < 0x8000 {
        imm
    } else {
        (imm + 0xffff_0000) as u32
    }
}

/// An 8-bit value promoted to 32 bits, copying the top bit.
pub open spec fn sign_extend8(b: u32) -> u32
    recommends
        b < 0x100,
{
    if b < 0x80 {
        b
    } else {
        (b + 0xffff_ff00) as u32
    }
}

/// Reduction into the 32-bit range leaves a value below 2^32 unchanged.
pub proof fn lemma_wrap32_small(x: int)
    requires
        0 <= x < 0x1_0000_0000,
    ensures
        wrap32(x) == x,
{
    lemma_small_mod(x as nat, 0x1_0000_0000);
}

/// Adding one full period does not change the reduced value.
pub proof fn lemma_wrap32_period(x: int)
    ensures
        wrap32(x + 0x1_0000_0000) == wrap32(x),
{
    lemma_mod_add_multiples_vanish(x, 0x1_0000_0000);
}

/// `sign_extend16` is the signed immediate value reduced into 32 bits,
/// and its two's-complement reading is that signed value.
pub proof fn lemma_sign_extend16(imm: u32)
    requires
        imm < 0x1_0000,
    ensures
        sign_extend16(imm) == wrap32(signed16(imm)),
        to_signed32(sign_extend16(imm)) == signed16(imm),
{
    if imm < 0x8000 {
        lemma_wrap32_small(imm as int);
    } else {
        lemma_wrap32_period(imm - 0x1_0000);
        lemma_wrap32_small(imm + 0xffff_0000);
    }
}

/// Promote a 16-bit immediate to 32 bits, copying the top bit.
pub fn sext16(imm: u32) -> (r: u32)
    requires
        imm < 0x1_0000,
    ensures
        r == sign_extend16(imm),
{
    if imm >= 0x8000 {
        imm + 0xffff_0000
    } else {
        imm
    }
}

/// Promote an 8-bit value to 32 bits, copying the top bit.
pub fn sext8(b: u32) -> (r: u32)
    requires
        b < 0x100,
    ensures
        r == sign_extend8(b),
{
    if b >= 0x80 {
        b + 0xffff_ff00
    } else {
        b
    }
}

/// The magnitude of the two's-complement reading of a word.
///
/// The magnitude of any 32-bit signed value fits in a `u32`
/// (the largest case is 2^31, for the word 0x8000_0000).
pub fn magnitude32(a: u32) -> (m: u32)
    ensures
        m == abs(to_signed32(a)),
        m <= 0x8000_0000,
{
    if a >= 0x8000_0000 {
        (0xffff_ffff - a) + 1
    } else {
        a
    }
}

/// The word whose two's-complement reading is `-m`, for a magnitude
/// `m <= 2^31`; that is, `m` negated modulo 2^32.
pub fn negate32(m: u32) -> (r: u32)
    requires
        m <= 0x8000_0000,
    ensures
        r == wrap32(-(m as int)),
{
    proof {
        if m == 0 {
            lemma_wrap32_small(0);
        } else {
            lemma_wrap32_period(-(m as int));
            lemma_wrap32_small(0x1_0000_0000 - m);
        }
    }
    if m == 0 {
        0
    } else {
        (0xffff_ffff - m) + 1
    }
}

/// The wrapping sum of two words is their mathematical sum reduced mod 2^32.
pub proof fn lemma_wrapping_add_is_wrap32(a: u32, b: u32)
    ensures
        u32_specs::wrapping_add(a, b) == wrap32(a + b),
{
    if a + b > u32::MAX {
        lemma_wrap32_period(a + b - 0x1_0000_0000);
        lemma_wrap32_small(a + b - 0x1_0000_0000);
    } else {
        lemma_wrap32_small(a + b);
    }
}

/// The wrapping difference of two words is their mathematical difference
/// reduced mod 2^32.
pub proof fn lemma_wrapping_sub_is_wrap32(a: u32, b: u32)
    ensures
        u32_specs::wrapping_sub(a, b) == wrap32(a - b),
{
    if a - b < 0 {
        lemma_wrap32_period(a - b);
        lemma_wrap32_small(a - b + 0x1_0000_0000);
    } else {
        lemma_wrap32_small(a - b);
    }
}

/// The wrapping product of two words is their mathematical product reduced
/// mod 2^32.
pub proof fn lemma_wrapping_mul_is_wrap32(a: u32, b: u32)
    ensures
        u32_specs::wrapping_mul(a, b) == wrap32(a * b),
{
}

/// The value `x` reduced into the unsigned 64-bit range.
pub open spec fn wrap64(x: int) -> u64 {
    (x % 0x1_0000_0000_0000_0000) as u64
}

/// The wrapping sum of two 64-bit values is their mathematical sum reduced
/// mod 2^64.
pub proof fn lemma_wrapping_add64_is_wrap64(a: u64, b: u64)
    ensures
        u64_specs::wrapping_add(a, b) == wrap64(a + b),
{
    if a + b > u64::MAX {
        lemma_mod_add_multiples_vanish(a + b - 0x1_0000_0000_0000_0000, 0x1_0000_0000_0000_0000);
        lemma_small_mod((a + b - 0x1_0000_0000_0000_0000) as nat, 0x1_0000_0000_0000_0000);
    } else {
        lemma_small_mod((a + b) as nat, 0x1_0000_0000_0000_0000);
    }
}

/// A HI/LO register pair read as one 64-bit accumulator.
pub open spec fn combine64(hi: u32, lo: u32) -> u64 {
    (hi * 0x1_0000_0000 + lo) as u64
}

/// The signed product of two words, reduced into the unsigned 64-bit range.
/// The multiply instruction splits this across HI (upper half) and LO
/// (lower half).
pub open spec fn product64_signed(a: u32, b: u32) -> u64 {
    ((to_signed32(a) * to_signed32(b)) % 0x1_0000_0000_0000_0000) as u64
}

/// The unsigned product of two words; it always fits in 64 bits.
pub open spec fn product64_unsigned(a: u32, b: u32) -> u64 {
    (a * b) as u64
}

/// The upper 32 bits of a 64-bit value.
pub open spec fn hi32(p: u64) -> u32 {
    (p / 0x1_0000_0000) as u32
}

/// The lower 32 bits of a 64-bit value.
pub open spec fn lo32(p: u64) -> u32 {
    (p % 0x1_0000_0000) as u32
}

/// Both halves of a 64-bit value are 32-bit values, and they reassemble it.
pub proof fn lemma_hi_lo_split(p: u64)
    ensures
        p / 0x1_0000_0000 < 0x1_0000_0000,
        p % 0x1_0000_0000 < 0x1_0000_0000,
        p == (p / 0x1_0000_0000) * 0x1_0000_0000 + (p % 0x1_0000_0000),
{
    lemma_fundamental_div_mod(p as int, 0x1_0000_0000);
}

/// The signed product of two words, computed in the unsigned domain by
/// multiplying the operands' magnitudes and negating modulo 2^64 when the
/// operand signs differ.
pub fn signed_product(a: u32, b: u32) -> (p: u64)
    ensures
        p == product64_signed(a, b),
{
    let neg = (a >= 0x8000_0000) != (b >= 0x8000_0000);
    let ma = magnitude32(a);
    let mb = magnitude32(b);
    proof {
        lemma_mul_upper_bound(ma as int, 0x8000_0000, mb as int, 0x8000_0000);
    }
    let pm: u64 = (ma as u64) * (mb as u64);
    proof {
        let sa = to_signed32(a);
        let sb = to_signed32(b);
        let ia = ma as int;
        let ib = mb as int;
        lemma_mul_unary_negation(ia, ib);
        lemma_mul_cancels_negatives(ia, ib);
        if neg {
            assert(sa * sb == -(pm as int));
            if pm == 0 {
                lemma_small_mod(0, 0x1_0000_0000_0000_0000);
            } else {
                lemma_mod_add_multiples_vanish(-(pm as int), 0x1_0000_0000_0000_0000);
                lemma_small_mod((0x1_0000_0000_0000_0000 - pm) as nat, 0x1_0000_0000_0000_0000);
            }
        } else {
            assert(sa * sb == pm as int);
            lemma_small_mod(pm as nat, 0x1_0000_0000_0000_0000);
        }
    }
    if neg && pm != 0 {
        (0xffff_ffff_ffff_ffff - pm) + 1
    } else {
        pm
    }
}

/// The unsigned product of two words, widened to 64 bits.
pub fn unsigned_product(a: u32, b: u32) -> (p: u64)
    ensures
        p == product64_unsigned(a, b),
{
    proof {
        lemma_mul_upper_bound(a as int, 0xffff_ffff, b as int, 0xffff_ffff);
    }
    (a as u64) * (b as u64)
}

/// The quotient of signed division truncating toward zero, as a 32-bit word:
/// the magnitudes divide, and the quotient is negative exactly when the
/// operand signs differ.
pub open spec fn sdiv_quotient(a: u32, b: u32) -> u32
    recommends
        b != 0,
{
    let q = (abs(to_signed32(a)) / abs(to_signed32(b))) as int;
    if (to_signed32(a) < 0) == (to_signed32(b) < 0) {
        wrap32(q)
    } else {
        wrap32(-q)
    }
}

/// The remainder of signed division truncating toward zero, as a 32-bit
/// word: it carries the sign of the dividend.
pub open spec fn sdiv_remainder(a: u32, b: u32) -> u32
    recommends
        b != 0,
{
    let r = (abs(to_signed32(a)) % abs(to_signed32(b))) as int;
    if to_signed32(a) < 0 {
        wrap32(-r)
    } else {
        wrap32(r)
    }
}

/// Signed division, quotient and remainder, computed on the magnitudes.
///
/// The one case whose quotient magnitude does not fit in a signed 32-bit
/// value, `0x8000_0000 / 0xffff_ffff` (the minimum value divided by minus
/// one), comes out as `(0x8000_0000, 0)`, the quotient reduced mod 2^32.
pub fn signed_divide(a: u32, b: u32) -> (qr: (u32, u32))
    requires
        b != 0,
    ensures
        qr.0 == sdiv_quotient(a, b),
        qr.1 == sdiv_remainder(a, b),
{
    let ma = magnitude32(a);
    let mb = magnitude32(b);
    let mq = ma / mb;
    let mr = ma % mb;
    proof {
        lemma_div_nonincreasing(ma as int, mb as int);
        lemma_mod_bound(ma as int, mb as int);
        lemma_wrap32_small(mq as int);
        lemma_wrap32_small(mr as int);
    }
    let q = if (a >= 0x8000_0000) == (b >= 0x8000_0000) {
        mq
    } else {
        negate32(mq)
    };
    let r = if a >= 0x8000_0000 {
        negate32(mr)
    } else {
        mr
    };
    (q, r)
}

/// Arithmetic shift right: the two's-complement reading divided by 2^s,
/// rounding toward minus infinity, reduced back into 32 bits.
pub open spec fn shift_right_arithmetic(x: u32, s: u32) -> u32
    recommends
        s < 32,
{
    wrap32(to_signed32(x) / pow2(s as nat) as int)
}

/// Arithmetic shift right, computed in the unsigned domain: a logical shift
/// for a word with a clear sign bit, and the bitwise complement of a logical
/// shift of the complement for a negative one.
pub fn sra32(x: u32, s: u32) -> (r: u32)
    requires
        s < 32,
    ensures
        r == shift_right_arithmetic(x, s),
{
    proof {
        lemma_u32_pow2_no_overflow(s as nat);
    }
    if x < 0x8000_0000 {
        proof {
            lemma_u32_shr_is_div(x, s);
            lemma_wrap32_small(x as int / pow2(s as nat) as int);
        }
        x >> s
    } else {
        let y = !x;
        proof {
            assert(forall|z: u32| (#[trigger] (!z)) as int == 0xffff_ffff - z) by (bit_vector);
            lemma_u32_shr_is_div(y, s);
            let p = pow2(s as nat) as int;
            let v = to_signed32(x);
            let d = y as int / p;
            lemma_fundamental_div_mod(y as int, p);
            lemma_mod_bound(y as int, p);
            lemma_div_pos_is_pos(y as int, p);
            lemma_div_nonincreasing(y as int, p);
            assert((-d - 1) * p == -(d * p) - p) by (nonlinear_arith);
            // v == -(y as int) - 1, so v has Euclidean quotient -d - 1 and
            // remainder p - 1 - (y % p).
            lemma_fundamental_div_mod_converse(v, p, -d - 1, p - 1 - (y as int % p));
            lemma_wrap32_period(v / p);
            lemma_wrap32_small(v / p + 0x1_0000_0000);
        }
        !(y >> s)
    }
}

} // verus!

//! Single-operation workloads over encrypted values.
//!
//! These are the representative compositions the cost model's unit times
//! are measured on: a multiply feeding a comparison (`mul_cmp`), a
//! comparison feeding a multiply (`cmp_mul`), and two multiplies feeding a
//! comparison (`mul_cmp_mul`), each at the widths the library supports.
//! Products of two W-bit operands are formed at a doubled width so they
//! cannot overflow.

use vstd::prelude::*;
use vstd::arithmetic::power2::*;
use crate::fhe::{widen_12_to_32, widen_16_to_32, widen_6_to_12, widen_8_to_16, Enc12, Enc16, Enc32, Enc6, Enc8, EncVal, FheContext};
use crate::oblivious::{op_le, op_mul, OperationCount};

verus! {

/// One `cp_mul`-class workload at width 6: compare, cast, then multiply
/// the comparison result with a third encrypted value.
pub fn fhe_cmp_mul_6bit(
    clear_a: u8,
    clear_b: u8,
    clear_c: u8,
    ctx: &FheContext,
    ops: &mut OperationCount,
) -> (r: u8)
    requires
        ctx.holds_server_key(),
        clear_a <= 63,
        clear_b <= 63,
        clear_c <= 63,
        old(ops).cp_mul_count < u64::MAX,
        old(ops).mul_cp_count < u64::MAX,
    ensures
        r == (if clear_a <= clear_b { clear_c } else { 0u8 }),
{
    proof {
        lemma2_to64();
    }
    let enc_a = Enc6::encrypt(clear_a as u32, ctx);
    let enc_b = Enc6::encrypt(clear_b as u32, ctx);
    let enc_c = Enc6::encrypt(clear_c as u32, ctx);
    let cmp = op_le(&enc_a, &enc_b, ctx, ops);
    let cmp_w = Enc6::from_bool(&cmp, ctx);
    let product = op_mul(&cmp_w, &enc_c, ctx, ops);
    let clear: u32 = product.decrypt(ctx);
    clear as u8
}

/// One `cp_mul`-class workload at width 8: compare, cast, then multiply
/// the comparison result with a third encrypted value.
pub fn fhe_cmp_mul_8bit(
    clear_a: u8,
    clear_b: u8,
    clear_c: u8,
    ctx: &FheContext,
    ops: &mut OperationCount,
) -> (r: u8)
    requires
        ctx.holds_server_key(),
        clear_a <= 255,
        clear_b <= 255,
        clear_c <= 255,
        old(ops).cp_mul_count < u64::MAX,
        old(ops).mul_cp_count < u64::MAX,
    ensures
        r == (if clear_a <= clear_b { clear_c } else { 0u8 }),
{
    proof {
        lemma2_to64();
    }
    let enc_a = Enc8::encrypt(clear_a as u32, ctx);
    let enc_b = Enc8::encrypt(clear_b as u32, ctx);
    let enc_c = Enc8::encrypt(clear_c as u32, ctx);
    let cmp = op_le(&enc_a, &enc_b, ctx, ops);
    let cmp_w = Enc8::from_bool(&cmp, ctx);
    let product = op_mul(&cmp_w, &enc_c, ctx, ops);
    let clear: u32 = product.decrypt(ctx);
    clear as u8
}

/// One `cp_mul`-class workload at width 12: compare, cast, then multiply
/// the comparison result with a third encrypted value.
pub fn fhe_cmp_mul_12bit(
    clear_a: u16,
    clear_b: u16,
    clear_c: u16,
    ctx: &FheContext,
    ops: &mut OperationCount,
) -> (r: u16)
    requires
        ctx.holds_server_key(),
        clear_a <= 4095,
        clear_b <= 4095,
        clear_c <= 4095,
        old(ops).cp_mul_count < u64::MAX,
        old(ops).mul_cp_count < u64::MAX,
    ensures
        r == (if clear_a <= clear_b { clear_c } else { 0u16 }),
{
    proof {
        lemma2_to64();
    }
    let enc_a = Enc12::encrypt(clear_a as u32, ctx);
    let enc_b = Enc12::encrypt(clear_b as u32, ctx);
    let enc_c = Enc12::encrypt(clear_c as u32, ctx);
    let cmp = op_le(&enc_a, &enc_b, ctx, ops);
    let cmp_w = Enc12::from_bool(&cmp, ctx);
    let product = op_mul(&cmp_w, &enc_c, ctx, ops);
    let clear: u32 = product.decrypt(ctx);
    clear as u16
}

/// One `cp_mul`-class workload at width 16: compare, cast, then multiply
/// the comparison result with a third encrypted value.
pub fn fhe_cmp_mul_16bit(
    clear_a: u16,
    clear_b: u16,
    clear_c: u16,
    ctx: &FheContext,
    ops: &mut OperationCount,
) -> (r: u16)
    requires
        ctx.holds_server_key(),
        clear_a <= 65535,
        clear_b <= 65535,
        clear_c <= 65535,
        old(ops).cp_mul_count < u64::MAX,
        old(ops).mul_cp_count < u64::MAX,
    ensures
        r == (if clear_a <= clear_b { clear_c } else { 0u16 }),
{
    proof {
        lemma2_to64();
    }
    let enc_a = Enc16::encrypt(clear_a as u32, ctx);
    let enc_b = Enc16::encrypt(clear_b as u32, ctx);
    let enc_c = Enc16::encrypt(clear_c as u32, ctx);
    let cmp = op_le(&enc_a, &enc_b, ctx, ops);
    let cmp_w = Enc16::from_bool(&cmp, ctx);
    let product = op_mul(&cmp_w, &enc_c, ctx, ops);
    let clear: u32 = product.decrypt(ctx);
    clear as u16
}

/// One `mul_cp`-then-compare workload on 6-bit operands: multiply two
/// encrypted values at the doubled width, then compare the product with a
/// third encrypted value.
pub fn fhe_mul_cmp_6bit(
    clear_a: u8,
    clear_b: u8,
    clear_c: u16,
    ctx: &FheContext,
    ops: &mut OperationCount,
) -> (r: bool)
    requires
        ctx.holds_server_key(),
        clear_a <= 63,
        clear_b <= 63,
        clear_c <= 4095,
        old(ops).cp_mul_count < u64::MAX,
        old(ops).mul_cp_count < u64::MAX,
    ensures
        r == (clear_a * clear_b <= clear_c),
{
    proof {
        lemma2_to64();
        assert(clear_a * clear_b <= 63 * 63) by (nonlinear_arith)
            requires
                clear_a <= 63,
                clear_b <= 63,
        ;
    }
    let enc_a = Enc6::encrypt(clear_a as u32, ctx);
    let enc_b = Enc6::encrypt(clear_b as u32, ctx);
    let enc_c = Enc12::encrypt(clear_c as u32, ctx);
    let wide_a = widen_6_to_12(&enc_a, ctx);
    let wide_b = widen_6_to_12(&enc_b, ctx);
    let product = op_mul(&wide_a, &wide_b, ctx, ops);
    let cmp = op_le(&product, &enc_c, ctx, ops);
    cmp.decrypt(ctx)
}

/// One `mul_cp`-then-compare workload on 8-bit operands: multiply two
/// encrypted values at the doubled width, then compare the product with a
/// third encrypted value.
pub fn fhe_mul_cmp_8bit(
    clear_a: u8,
    clear_b: u8,
    clear_c: u16,
    ctx: &FheContext,
    ops: &mut OperationCount,
) -> (r: bool)
    requires
        ctx.holds_server_key(),
        clear_a <= 255,
        clear_b <= 255,
        clear_c <= 65535,
        old(ops).cp_mul_count < u64::MAX,
        old(ops).mul_cp_count < u64::MAX,
    ensures
        r == (clear_a * clear_b <= clear_c),
{
    proof {
        lemma2_to64();
        assert(clear_a * clear_b <= 255 * 255) by (nonlinear_arith)
            requires
                clear_a <= 255,
                clear_b <= 255,
        ;
    }
    let enc_a = Enc8::encrypt(clear_a as u32, ctx);
    let enc_b = Enc8::encrypt(clear_b as u32, ctx);
    let enc_c = Enc16::encrypt(clear_c as u32, ctx);
    let wide_a = widen_8_to_16(&enc_a, ctx);
    let wide_b = widen_8_to_16(&enc_b, ctx);
    let product = op_mul(&wide_a, &wide_b, ctx, ops);
    let cmp = op_le(&product, &enc_c, ctx, ops);
    cmp.decrypt(ctx)
}

/// One `mul_cp`-then-compare workload on 12-bit operands: multiply two
/// encrypted values at the doubled width, then compare the product with a
/// third encrypted value.
pub fn fhe_mul_cmp_12bit(
    clear_a: u16,
    clear_b: u16,
    clear_c: u32,
    ctx: &FheContext,
    ops: &mut OperationCount,
) -> (r: bool)
    requires
        ctx.holds_server_key(),
        clear_a <= 4095,
        clear_b <= 4095,
        clear_c <= 16777215,
        old(ops).cp_mul_count < u64::MAX,
        old(ops).mul_cp_count < u64::MAX,
    ensures
        r == (clear_a * clear_b <= clear_c),
{
    proof {
        lemma2_to64();
        assert(clear_a * clear_b <= 4095 * 4095) by (nonlinear_arith)
            requires
                clear_a <= 4095,
                clear_b <= 4095,
        ;
    }
    let enc_a = Enc12::encrypt(clear_a as u32, ctx);
    let enc_b = Enc12::encrypt(clear_b as u32, ctx);
    let enc_c = Enc32::encrypt(clear_c as u32, ctx);
    let wide_a = widen_12_to_32(&enc_a, ctx);
    let wide_b = widen_12_to_32(&enc_b, ctx);
    let product = op_mul(&wide_a, &wide_b, ctx, ops);
    let cmp = op_le(&product, &enc_c, ctx, ops);
    cmp.decrypt(ctx)
}

/// One `mul_cp`-then-compare workload on 16-bit operands: multiply two
/// encrypted values at the doubled width, then compare the product with a
/// third encrypted value.
pub fn fhe_mul_cmp_16bit(
    clear_a: u16,
    clear_b: u16,
    clear_c: u32,
    ctx: &FheContext,
    ops: &mut OperationCount,
) -> (r: bool)
    requires
        ctx.holds_server_key(),
        clear_a <= 65535,
        clear_b <= 65535,
        clear_c <= 4294967295,
        old(ops).cp_mul_count < u64::MAX,
        old(ops).mul_cp_count < u64::MAX,
    ensures
        r == (clear_a * clear_b <= clear_c),
{
    proof {
        lemma2_to64();
        assert(clear_a * clear_b <= 65535 * 65535) by (nonlinear_arith)
            requires
                clear_a <= 65535,
                clear_b <= 65535,
        ;
    }
    let enc_a = Enc16::encrypt(clear_a as u32, ctx);
    let enc_b = Enc16::encrypt(clear_b as u32, ctx);
    let enc_c = Enc32::encrypt(clear_c as u32, ctx);
    let wide_a = widen_16_to_32(&enc_a, ctx);
    let wide_b = widen_16_to_32(&enc_b, ctx);
    let product = op_mul(&wide_a, &wide_b, ctx, ops);
    let cmp = op_le(&product, &enc_c, ctx, ops);
    cmp.decrypt(ctx)
}

/// A two-multiply comparison workload on 6-bit operands: form both
/// encrypted products at the doubled width and compare them.
pub fn fhe_mul_cmp_mul_6bit(
    clear_a: u8,
    clear_b: u8,
    clear_c: u8,
    clear_d: u8,
    ctx: &FheContext,
    ops: &mut OperationCount,
) -> (r: bool)
    requires
        ctx.holds_server_key(),
        clear_a <= 63,
        clear_b <= 63,
        clear_c <= 63,
        clear_d <= 63,
        old(ops).cp_mul_count < u64::MAX,
        old(ops).mul_cp_count + 2 <= u64::MAX,
    ensures
        r == (clear_a * clear_b <= clear_c * clear_d),
{
    proof {
        lemma2_to64();
        assert(clear_a * clear_b <= 63 * 63 && clear_c * clear_d <= 63 * 63)
            by (nonlinear_arith)
            requires
                clear_a <= 63,
                clear_b <= 63,
                clear_c <= 63,
                clear_d <= 63,
        ;
    }
    let enc_a = Enc6::encrypt(clear_a as u32, ctx);
    let enc_b = Enc6::encrypt(clear_b as u32, ctx);
    let enc_c = Enc6::encrypt(clear_c as u32, ctx);
    let enc_d = Enc6::encrypt(clear_d as u32, ctx);
    let wide_a = widen_6_to_12(&enc_a, ctx);
    let wide_b = widen_6_to_12(&enc_b, ctx);
    let wide_c = widen_6_to_12(&enc_c, ctx);
    let wide_d = widen_6_to_12(&enc_d, ctx);
    let product_ab = op_mul(&wide_a, &wide_b, ctx, ops);
    let product_cd = op_mul(&wide_c, &wide_d, ctx, ops);
    let cmp = op_le(&product_ab, &product_cd, ctx, ops);
    cmp.decrypt(ctx)
}

/// A two-multiply comparison workload on 8-bit operands: form both
/// encrypted products at the doubled width and compare them.
pub fn fhe_mul_cmp_mul_8bit(
    clear_a: u8,
    clear_b: u8,
    clear_c: u8,
    clear_d: u8,
    ctx: &FheContext,
    ops: &mut OperationCount,
) -> (r: bool)
    requires
        ctx.holds_server_key(),
        clear_a <= 255,
        clear_b <= 255,
        clear_c <= 255,
        clear_d <= 255,
        old(ops).cp_mul_count < u64::MAX,
        old(ops).mul_cp_count + 2 <= u64::MAX,
    ensures
        r == (clear_a * clear_b <= clear_c * clear_d),
{
    proof {
        lemma2_to64();
        assert(clear_a * clear_b <= 255 * 255 && clear_c * clear_d <= 255 * 255)
            by (nonlinear_arith)
            requires
                clear_a <= 255,
                clear_b <= 255,
                clear_c <= 255,
                clear_d <= 255,
        ;
    }
    let enc_a = Enc8::encrypt(clear_a as u32, ctx);
    let enc_b = Enc8::encrypt(clear_b as u32, ctx);
    let enc_c = Enc8::encrypt(clear_c as u32, ctx);
    let enc_d = Enc8::encrypt(clear_d as u32, ctx);
    let wide_a = widen_8_to_16(&enc_a, ctx);
    let wide_b = widen_8_to_16(&enc_b, ctx);
    let wide_c = widen_8_to_16(&enc_c, ctx);
    let wide_d = widen_8_to_16(&enc_d, ctx);
    let product_ab = op_mul(&wide_a, &wide_b, ctx, ops);
    let product_cd = op_mul(&wide_c, &wide_d, ctx, ops);
    let cmp = op_le(&product_ab, &product_cd, ctx, ops);
    cmp.decrypt(ctx)
}

/// A two-multiply comparison workload on 16-bit operands: form both
/// encrypted products at the doubled width and compare them.
pub fn fhe_mul_cmp_mul_16bit(
    clear_a: u16,
    clear_b: u16,
    clear_c: u16,
    clear_d: u16,
    ctx: &FheContext,
    ops: &mut OperationCount,
) -> (r: bool)
    requires
        ctx.holds_server_key(),
        clear_a <= 65535,
        clear_b <= 65535,
        clear_c <= 65535,
        clear_d <= 65535,
        old(ops).cp_mul_count < u64::MAX,
        old(ops).mul_cp_count + 2 <= u64::MAX,
    ensures
        r == (clear_a * clear_b <= clear_c * clear_d),
{
    proof {
        lemma2_to64();
        assert(clear_a * clear_b <= 65535 * 65535 && clear_c * clear_d <= 65535 * 65535)
            by (nonlinear_arith)
            requires
                clear_a <= 65535,
                clear_b <= 65535,
                clear_c <= 65535,
                clear_d <= 65535,
        ;
    }
    let enc_a = Enc16::encrypt(clear_a as u32, ctx);
    let enc_b = Enc16::encrypt(clear_b as u32, ctx);
    let enc_c = Enc16::encrypt(clear_c as u32, ctx);
    let enc_d = Enc16::encrypt(clear_d as u32, ctx);
    let wide_a = widen_16_to_32(&enc_a, ctx);
    let wide_b = widen_16_to_32(&enc_b, ctx);
    let wide_c = widen_16_to_32(&enc_c, ctx);
    let wide_d = widen_16_to_32(&enc_d, ctx);
    let product_ab = op_mul(&wide_a, &wide_b, ctx, ops);
    let product_cd = op_mul(&wide_c, &wide_d, ctx, ops);
    let cmp = op_le(&product_ab, &product_cd, ctx, ops);
    cmp.decrypt(ctx)
}

} // verus!

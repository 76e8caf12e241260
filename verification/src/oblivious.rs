//! Oblivious evaluation primitives.
//!
//! Everything here is built from the encrypted-integer capability alone.
//! No primitive ever decrypts its arguments or branches on an encrypted
//! value: a data-dependent decision is expressed as arithmetic over an
//! encrypted 0/1 value, so the sequence of homomorphic operations issued
//! is a function of the call structure alone.
//!
//! Each primitive is instrumented with an [`OperationCount`]: comparisons
//! count as `cp_mul`-class work, ciphertext-ciphertext multiplies as
//! `mul_cp`-class work.  The contracts pin the exact increments, so a
//! caller can prove that its total operation count depends only on its
//! public control structure, never on encrypted data.

use vstd::prelude::*;
use vstd::arithmetic::power2::*;
use vstd::arithmetic::div_mod::{lemma_small_mod, lemma_mod_multiples_vanish};
use crate::fhe::{EncBool, EncVal, FheContext};

verus! {

/// How many operations of each homomorphic class a run has issued.
#[derive(Debug, Clone, Copy, PartialEq, Eq, Structural)]
pub struct OperationCount {
    pub cp_mul_count: u64,
    pub mul_cp_count: u64,
}

impl OperationCount {
    pub fn new() -> (r: OperationCount)
        ensures
            r.cp_mul_count == 0,
            r.mul_cp_count == 0,
    {
        OperationCount { cp_mul_count: 0, mul_cp_count: 0 }
    }
}

/// Encrypted strict comparison: one `cp_mul`-class operation.
pub fn op_lt<E: EncVal>(a: &E, b: &E, ctx: &FheContext, ops: &mut OperationCount) -> (r: EncBool)
    requires
        ctx.holds_server_key(),
        a.ctx_id() == ctx.id(),
        b.ctx_id() == ctx.id(),
        old(ops).cp_mul_count < u64::MAX,
    ensures
        r.plain() == (a.plain() < b.plain()),
        r.ctx_id() == ctx.id(),
        final(ops).cp_mul_count == old(ops).cp_mul_count + 1,
        final(ops).mul_cp_count == old(ops).mul_cp_count,
{
    let r = a.hom_lt(b, ctx);
    ops.cp_mul_count = ops.cp_mul_count + 1;
    r
}

/// Encrypted non-strict comparison: one `cp_mul`-class operation.
pub fn op_le<E: EncVal>(a: &E, b: &E, ctx: &FheContext, ops: &mut OperationCount) -> (r: EncBool)
    requires
        ctx.holds_server_key(),
        a.ctx_id() == ctx.id(),
        b.ctx_id() == ctx.id(),
        old(ops).cp_mul_count < u64::MAX,
    ensures
        r.plain() == (a.plain() <= b.plain()),
        r.ctx_id() == ctx.id(),
        final(ops).cp_mul_count == old(ops).cp_mul_count + 1,
        final(ops).mul_cp_count == old(ops).mul_cp_count,
{
    let r = a.hom_le(b, ctx);
    ops.cp_mul_count = ops.cp_mul_count + 1;
    r
}

/// Encrypted strict greater-than, by swapping the comparison's sides.
pub fn op_gt<E: EncVal>(a: &E, b: &E, ctx: &FheContext, ops: &mut OperationCount) -> (r: EncBool)
    requires
        ctx.holds_server_key(),
        a.ctx_id() == ctx.id(),
        b.ctx_id() == ctx.id(),
        old(ops).cp_mul_count < u64::MAX,
    ensures
        r.plain() == (a.plain() > b.plain()),
        r.ctx_id() == ctx.id(),
        final(ops).cp_mul_count == old(ops).cp_mul_count + 1,
        final(ops).mul_cp_count == old(ops).mul_cp_count,
{
    op_lt(b, a, ctx, ops)
}

/// Encrypted greater-or-equal, by swapping the comparison's sides.
pub fn op_ge<E: EncVal>(a: &E, b: &E, ctx: &FheContext, ops: &mut OperationCount) -> (r: EncBool)
    requires
        ctx.holds_server_key(),
        a.ctx_id() == ctx.id(),
        b.ctx_id() == ctx.id(),
        old(ops).cp_mul_count < u64::MAX,
    ensures
        r.plain() == (a.plain() >= b.plain()),
        r.ctx_id() == ctx.id(),
        final(ops).cp_mul_count == old(ops).cp_mul_count + 1,
        final(ops).mul_cp_count == old(ops).mul_cp_count,
{
    op_le(b, a, ctx, ops)
}

/// Oblivious selection: returns the first value where the condition
/// decrypts true, the second otherwise, without decrypting the condition.
///
/// Computed as `c*a + (1-c)*b` with `c` the condition cast to the working
/// width and `1` a pre-encrypted constant: exactly one ciphertext multiply
/// per term, so the work is identical whichever branch is selected.
pub fn op_select<E: EncVal>(
    cond: &EncBool,
    a: &E,
    b: &E,
    one: &E,
    ctx: &FheContext,
    ops: &mut OperationCount,
) -> (r: E)
    requires
        ctx.holds_server_key(),
        cond.ctx_id() == ctx.id(),
        a.ctx_id() == ctx.id(),
        b.ctx_id() == ctx.id(),
        one.ctx_id() == ctx.id(),
        one.plain() == 1,
        a.plain() < pow2(E::width()),
        b.plain() < pow2(E::width()),
        old(ops).mul_cp_count + 2 <= u64::MAX,
    ensures
        r.plain() == (if cond.plain() { a.plain() } else { b.plain() }),
        r.plain() < pow2(E::width()),
        r.ctx_id() == ctx.id(),
        final(ops).mul_cp_count == old(ops).mul_cp_count + 2,
        final(ops).cp_mul_count == old(ops).cp_mul_count,
{
    proof {
        E::lemma_width();
        lemma_pow2_pos(E::width());
        lemma_pow2_strictly_increases(0, E::width());
        lemma2_to64();
    }
    let cw = E::from_bool(cond, ctx);
    let inv = one.hom_sub(&cw, ctx);
    let ta = cw.hom_mul(a, ctx);
    let tb = inv.hom_mul(b, ctx);
    let r = ta.hom_add(&tb, ctx);
    proof {
        if cond.plain() {
            lemma_small_mod(a.plain(), pow2(E::width()));
        } else {
            lemma_small_mod(b.plain(), pow2(E::width()));
        }
    }
    ops.mul_cp_count = ops.mul_cp_count + 2;
    r
}

/// Oblivious conjunction of two encrypted 0/1 values: defined as their
/// ciphertext product, one `mul_cp`-class operation.
pub fn op_and<E: EncVal>(a: &E, b: &E, ctx: &FheContext, ops: &mut OperationCount) -> (r: E)
    requires
        ctx.holds_server_key(),
        a.ctx_id() == ctx.id(),
        b.ctx_id() == ctx.id(),
        a.plain() <= 1,
        b.plain() <= 1,
        old(ops).mul_cp_count < u64::MAX,
    ensures
        r.plain() == a.plain() * b.plain(),
        r.plain() == (if a.plain() == 1 && b.plain() == 1 { 1nat } else { 0nat }),
        r.ctx_id() == ctx.id(),
        final(ops).mul_cp_count == old(ops).mul_cp_count + 1,
        final(ops).cp_mul_count == old(ops).cp_mul_count,
{
    proof {
        E::lemma_width();
        lemma_pow2_strictly_increases(0, E::width());
        lemma2_to64();
    }
    let r = a.hom_mul(b, ctx);
    ops.mul_cp_count = ops.mul_cp_count + 1;
    r
}

/// Counted ciphertext multiplication of two encrypted values: one
/// `mul_cp`-class operation.
pub fn op_mul<E: EncVal>(a: &E, b: &E, ctx: &FheContext, ops: &mut OperationCount) -> (r: E)
    requires
        ctx.holds_server_key(),
        a.ctx_id() == ctx.id(),
        b.ctx_id() == ctx.id(),
        a.plain() * b.plain() < pow2(E::width()),
        old(ops).mul_cp_count < u64::MAX,
    ensures
        r.plain() == a.plain() * b.plain(),
        r.ctx_id() == ctx.id(),
        final(ops).mul_cp_count == old(ops).mul_cp_count + 1,
        final(ops).cp_mul_count == old(ops).cp_mul_count,
{
    let r = a.hom_mul(b, ctx);
    ops.mul_cp_count = ops.mul_cp_count + 1;
    r
}

/// Oblivious range check: an encrypted 0/1 value that decrypts to 1
/// exactly when `lo <= x <= hi`.  Two comparisons, then one conjunction;
/// an empty range (lo > hi) yields 0 for every x, it is not an error.
pub fn op_range_check<E: EncVal>(
    x: &E,
    lo: &E,
    hi: &E,
    ctx: &FheContext,
    ops: &mut OperationCount,
) -> (r: E)
    requires
        ctx.holds_server_key(),
        x.ctx_id() == ctx.id(),
        lo.ctx_id() == ctx.id(),
        hi.ctx_id() == ctx.id(),
        old(ops).cp_mul_count + 2 <= u64::MAX,
        old(ops).mul_cp_count < u64::MAX,
    ensures
        r.plain() == (if lo.plain() <= x.plain() && x.plain() <= hi.plain() { 1nat } else { 0nat }),
        r.plain() <= 1,
        r.ctx_id() == ctx.id(),
        final(ops).cp_mul_count == old(ops).cp_mul_count + 2,
        final(ops).mul_cp_count == old(ops).mul_cp_count + 1,
{
    let above_lo = op_ge(x, lo, ctx, ops);
    let below_hi = op_le(x, hi, ctx, ops);
    let ca = E::from_bool(&above_lo, ctx);
    let cb = E::from_bool(&below_hi, ctx);
    op_and(&ca, &cb, ctx, ops)
}

/// Oblivious compare-free swap: given an already-encrypted swap condition,
/// returns the pair in swapped order when the condition decrypts true and
/// unchanged otherwise.  The condition is cast once and both outputs are
/// formed with two ciphertext multiplies each.
pub fn op_cswap<E: EncVal>(
    cond: &EncBool,
    x: &E,
    y: &E,
    one: &E,
    ctx: &FheContext,
    ops: &mut OperationCount,
) -> (r: (E, E))
    requires
        ctx.holds_server_key(),
        cond.ctx_id() == ctx.id(),
        x.ctx_id() == ctx.id(),
        y.ctx_id() == ctx.id(),
        one.ctx_id() == ctx.id(),
        one.plain() == 1,
        x.plain() < pow2(E::width()),
        y.plain() < pow2(E::width()),
        old(ops).mul_cp_count + 4 <= u64::MAX,
    ensures
        r.0.plain() == (if cond.plain() { y.plain() } else { x.plain() }),
        r.1.plain() == (if cond.plain() { x.plain() } else { y.plain() }),
        r.0.plain() < pow2(E::width()),
        r.1.plain() < pow2(E::width()),
        r.0.ctx_id() == ctx.id(),
        r.1.ctx_id() == ctx.id(),
        final(ops).mul_cp_count == old(ops).mul_cp_count + 4,
        final(ops).cp_mul_count == old(ops).cp_mul_count,
{
    proof {
        E::lemma_width();
        lemma_pow2_pos(E::width());
        lemma_pow2_strictly_increases(0, E::width());
        lemma2_to64();
    }
    let cw = E::from_bool(cond, ctx);
    let keep = one.hom_sub(&cw, ctx);
    let first_swapped = cw.hom_mul(y, ctx);
    let first_kept = keep.hom_mul(x, ctx);
    let first = first_swapped.hom_add(&first_kept, ctx);
    let second_swapped = cw.hom_mul(x, ctx);
    let second_kept = keep.hom_mul(y, ctx);
    let second = second_swapped.hom_add(&second_kept, ctx);
    proof {
        lemma_small_mod(x.plain(), pow2(E::width()));
        lemma_small_mod(y.plain(), pow2(E::width()));
    }
    ops.mul_cp_count = ops.mul_cp_count + 4;
    (first, second)
}

/// Oblivious clamped addition: the sum of the two values, saturated at the
/// width's maximum, never wrapping.  Computed as one homomorphic addition,
/// one comparison that detects the wrap, and one selection of the
/// pre-encrypted maximum.
pub fn sat_add<E: EncVal>(
    a: &E,
    b: &E,
    one: &E,
    maxc: &E,
    ctx: &FheContext,
    ops: &mut OperationCount,
) -> (r: E)
    requires
        ctx.holds_server_key(),
        a.ctx_id() == ctx.id(),
        b.ctx_id() == ctx.id(),
        one.ctx_id() == ctx.id(),
        maxc.ctx_id() == ctx.id(),
        one.plain() == 1,
        maxc.plain() == pow2(E::width()) - 1,
        a.plain() < pow2(E::width()),
        b.plain() < pow2(E::width()),
        old(ops).cp_mul_count < u64::MAX,
        old(ops).mul_cp_count + 2 <= u64::MAX,
    ensures
        r.plain() == (if a.plain() + b.plain() < pow2(E::width()) {
            a.plain() + b.plain()
        } else {
            (pow2(E::width()) - 1) as nat
        }),
        r.plain() < pow2(E::width()),
        r.ctx_id() == ctx.id(),
        final(ops).cp_mul_count == old(ops).cp_mul_count + 1,
        final(ops).mul_cp_count == old(ops).mul_cp_count + 2,
{
    proof {
        lemma_pow2_pos(E::width());
    }
    let s = a.hom_add(b, ctx);
    proof {
        let m = pow2(E::width());
        if a.plain() + b.plain() < m {
            lemma_small_mod(a.plain() + b.plain(), m);
        } else {
            lemma_mod_multiples_vanish(1, a.plain() + b.plain() - m, m as int);
            lemma_small_mod((a.plain() + b.plain() - m) as nat, m);
        }
    }
    let wrapped = op_lt(&s, a, ctx, ops);
    op_select(&wrapped, maxc, &s, one, ctx, ops)
}

/// The plain values a sequence of ciphertexts decrypts to.
pub open spec fn plains_of<E: EncVal>(s: Seq<E>) -> Seq<nat> {
    s.map_values(|e: E| e.plain())
}

/// All ciphertexts of the sequence belong to the context and carry values
/// of the type's width.
pub open spec fn enc_seq_wf<E: EncVal>(s: Seq<E>, ctx_id: int) -> bool {
    forall|i: int|
        0 <= i < s.len() ==> (#[trigger] s[i]).ctx_id() == ctx_id && s[i].plain() < pow2(E::width())
}

} // verus!

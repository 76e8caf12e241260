//! Predicate-filtered aggregation over an encrypted database.
//!
//! The query keeps the rows whose field product lies in one range and
//! whose field sum lies in another.  For every row the predicate is
//! evaluated entirely obliviously — two range checks and a conjunction —
//! and only the final 0/1 predicate value is decrypted.  That one
//! decryption per row is the deliberate, documented leak: which rows match
//! must become known to build the result set.  Row order never affects
//! which rows match, since each row is judged independently.

use vstd::prelude::*;
use vstd::arithmetic::power2::*;
use vstd::arithmetic::div_mod::lemma_small_mod;
use crate::fhe::{widen_8_to_16, Enc16, Enc8, EncVal, FheContext};
use crate::oblivious::{op_and, op_mul, op_range_check, OperationCount};

verus! {

/// One database row: a public id and the fields the predicate reads.
#[derive(Debug, Clone)]
pub struct DatabaseRecord {
    pub id: u8,
    pub salary: u8,
    pub work_hours: u8,
    pub bonus: u16,
}

/// The query's predicate: the product of salary and hours lies in
/// [5000, 6000], and the sum of salary and bonus lies in [700, 800].
pub open spec fn record_matches(r: DatabaseRecord) -> bool {
    &&& 5000 <= r.salary * r.work_hours <= 6000
    &&& 700 <= r.salary + r.bonus <= 800
}

/// The ids of the matching rows, in input order.
pub open spec fn spec_query(records: Seq<DatabaseRecord>) -> Seq<u8>
    decreases records.len(),
{
    if records.len() == 0 {
        Seq::empty()
    } else {
        let rest = spec_query(records.drop_last());
        if record_matches(records.last()) {
            rest.push(records.last().id)
        } else {
            rest
        }
    }
}

/// Plaintext evaluation of the query, the correctness oracle for the
/// encrypted filter.
pub fn execute_query1_plaintext(records: &Vec<DatabaseRecord>) -> (r: Vec<u8>)
    requires
        forall|i: int|
            0 <= i < records@.len() ==> (#[trigger] records@[i]).salary + records@[i].bonus
                <= u16::MAX,
    ensures
        r@ == spec_query(records@),
{
    let mut matching_ids: Vec<u8> = Vec::new();
    let mut i: usize = 0;
    while i < records.len()
        invariant
            i <= records@.len(),
            matching_ids@ == spec_query(records@.subrange(0, i as int)),
            forall|p: int|
                0 <= p < records@.len() ==> (#[trigger] records@[p]).salary + records@[p].bonus
                    <= u16::MAX,
        decreases records@.len() - i,
    {
        let record = &records[i];
        proof {
            assert(record.salary * record.work_hours <= 255 * 255) by (nonlinear_arith)
                requires
                    record.salary <= 255,
                    record.work_hours <= 255,
            ;
        }
        let product: u16 = (record.salary as u16) * (record.work_hours as u16);
        let total: u16 = (record.salary as u16) + record.bonus;
        if 5000 <= product && product <= 6000 && 700 <= total && total <= 800 {
            matching_ids.push(record.id);
        }
        proof {
            assert(records@.subrange(0, i + 1).drop_last() =~= records@.subrange(0, i as int));
            assert(records@.subrange(0, i + 1).last() == records@[i as int]);
        }
        i = i + 1;
    }
    proof {
        assert(records@.subrange(0, records@.len() as int) =~= records@);
    }
    matching_ids
}

/// Oblivious evaluation of the query: the fields are encrypted, the whole
/// predicate is computed homomorphically, and only the final 0/1 value is
/// decrypted, once per row.  Exactly four comparisons and four ciphertext
/// multiplies are issued per row, whatever the field values are.
pub fn execute_query1_enc(
    records: &Vec<DatabaseRecord>,
    ctx: &FheContext,
    ops: &mut OperationCount,
) -> (r: Vec<u8>)
    requires
        ctx.holds_server_key(),
        forall|i: int|
            0 <= i < records@.len() ==> (#[trigger] records@[i]).salary + records@[i].bonus
                <= u16::MAX,
        old(ops).cp_mul_count + 4 * records@.len() <= u64::MAX,
        old(ops).mul_cp_count + 4 * records@.len() <= u64::MAX,
    ensures
        r@ == spec_query(records@),
        final(ops).cp_mul_count == old(ops).cp_mul_count + 4 * records@.len(),
        final(ops).mul_cp_count == old(ops).mul_cp_count + 4 * records@.len(),
{
    proof {
        lemma2_to64();
    }
    let ghost cp0 = old(ops).cp_mul_count;
    let ghost mu0 = old(ops).mul_cp_count;
    let mut matching_ids: Vec<u8> = Vec::new();
    let mut i: usize = 0;
    while i < records.len()
        invariant
            ctx.holds_server_key(),
            i <= records@.len(),
            matching_ids@ == spec_query(records@.subrange(0, i as int)),
            forall|p: int|
                0 <= p < records@.len() ==> (#[trigger] records@[p]).salary + records@[p].bonus
                    <= u16::MAX,
            ops.cp_mul_count == cp0 + 4 * i,
            ops.mul_cp_count == mu0 + 4 * i,
            cp0 + 4 * records@.len() <= u64::MAX,
            mu0 + 4 * records@.len() <= u64::MAX,
        decreases records@.len() - i,
    {
        proof {
            lemma2_to64();
        }
        let record = &records[i];
        let enc_salary = Enc8::encrypt(record.salary as u32, ctx);
        let enc_hours = Enc8::encrypt(record.work_hours as u32, ctx);
        let enc_bonus = Enc16::encrypt(record.bonus as u32, ctx);

        // The product of two 8-bit fields needs 16 bits.
        let salary_16 = widen_8_to_16(&enc_salary, ctx);
        let hours_16 = widen_8_to_16(&enc_hours, ctx);
        proof {
            assert(record.salary * record.work_hours <= 255 * 255) by (nonlinear_arith)
                requires
                    record.salary <= 255,
                    record.work_hours <= 255,
            ;
        }
        let product = op_mul(&salary_16, &hours_16, ctx, ops);

        let lower1 = Enc16::encrypt(5000, ctx);
        let upper1 = Enc16::encrypt(6000, ctx);
        let pred1 = op_range_check(&product, &lower1, &upper1, ctx, ops);

        let total = salary_16.hom_add(&enc_bonus, ctx);
        proof {
            lemma_small_mod((record.salary + record.bonus) as nat, pow2(16));
        }
        let lower2 = Enc16::encrypt(700, ctx);
        let upper2 = Enc16::encrypt(800, ctx);
        let pred2 = op_range_check(&total, &lower2, &upper2, ctx, ops);

        let final_pred = op_and(&pred1, &pred2, ctx, ops);

        // The one deliberate leak: whether this row matches.
        let matches_row: u32 = final_pred.decrypt(ctx);
        if matches_row > 0 {
            matching_ids.push(record.id);
        }
        proof {
            assert(records@.subrange(0, i + 1).drop_last() =~= records@.subrange(0, i as int));
            assert(records@.subrange(0, i + 1).last() == records@[i as int]);
        }
        i = i + 1;
    }
    proof {
        assert(records@.subrange(0, records@.len() as int) =~= records@);
    }
    matching_ids
}

/// The record the deterministic sample database holds at a given row.
pub open spec fn spec_sample_record(i: int) -> DatabaseRecord {
    DatabaseRecord {
        id: (i % 256) as u8,
        salary: (20 + (i * 7) % 80) as u8,
        work_hours: (40 + (i * 11) % 40) as u8,
        bonus: (600 + (i * 13) % 200) as u16,
    }
}

/// Build a deterministic sample database whose rows occasionally match
/// the query.
pub fn generate_sample_database(num_rows: usize) -> (r: Vec<DatabaseRecord>)
    requires
        num_rows * 13 <= usize::MAX,
    ensures
        r@.len() == num_rows,
        forall|i: int| 0 <= i < num_rows ==> r@[i] == spec_sample_record(i),
{
    let mut records: Vec<DatabaseRecord> = Vec::new();
    let mut i: usize = 0;
    while i < num_rows
        invariant
            i <= num_rows,
            num_rows * 13 <= usize::MAX,
            records@.len() == i,
            forall|p: int| 0 <= p < i ==> records@[p] == spec_sample_record(p),
        decreases num_rows - i,
    {
        proof {
            assert(i * 7 <= num_rows * 13) by (nonlinear_arith)
                requires
                    i < num_rows,
            ;
            assert(i * 11 <= num_rows * 13) by (nonlinear_arith)
                requires
                    i < num_rows,
            ;
            assert(i * 13 <= num_rows * 13) by (nonlinear_arith)
                requires
                    i < num_rows,
            ;
        }
        let salary: u8 = (20 + ((i * 7) % 80)) as u8;
        let work_hours: u8 = (40 + ((i * 11) % 40)) as u8;
        let bonus: u16 = (600 + ((i * 13) % 200)) as u16;
        let id: u8 = (i % 256) as u8;
        records.push(DatabaseRecord { id, salary, work_hours, bonus });
        i = i + 1;
    }
    records
}

} // verus!

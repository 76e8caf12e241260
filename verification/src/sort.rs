//! Oblivious comparison-based sorting.
//!
//! A bubble-sort network: n passes, each sweeping all adjacent pairs in a
//! fixed order, with every pair handled by one encrypted comparison and
//! one oblivious compare-free swap.  There is no early exit — stopping
//! early would reveal how sorted the data already was — so the sort always
//! issues exactly n(n-1) comparisons.
//!
//! The functional model (`spec_pass`, `spec_passes`) folds the same pair
//! sequence; the lemmas below prove once, at the model level, that the
//! result is non-decreasing and a permutation of the input, and both the
//! plaintext and the encrypted sorter are proved equal to the model.

use vstd::prelude::*;
use vstd::seq_lib::lemma_multiset_commutative;
use vstd::multiset::Multiset;
use vstd::arithmetic::power2::*;
use crate::fhe::{EncVal, FheContext};
use crate::oblivious::{enc_seq_wf, op_cswap, op_gt, plains_of, OperationCount};

verus! {

/// Everything from position b on is sorted, and no earlier element
/// exceeds any element from position b on.
pub open spec fn sorted_from(m: Seq<nat>, b: int) -> bool {
    &&& forall|p: int, q: int| b <= p < q < m.len() ==> m[p] <= m[q]
    &&& forall|p: int, q: int| 0 <= p < b <= q < m.len() ==> m[p] <= m[q]
}

/// The whole sequence is non-decreasing.
pub open spec fn sorted_nats(m: Seq<nat>) -> bool {
    forall|p: int, q: int| 0 <= p < q < m.len() ==> m[p] <= m[q]
}

/// One compare-and-swap of the adjacent pair (j, j+1).
pub open spec fn spec_swap_step(m: Seq<nat>, j: int) -> Seq<nat> {
    if m[j] > m[j + 1] {
        m.update(j, m[j + 1]).update(j + 1, m[j])
    } else {
        m
    }
}

/// The sequence after sweeping pairs (0,1) .. (j-1,j).
pub open spec fn spec_pass(m: Seq<nat>, j: nat) -> Seq<nat>
    decreases j,
{
    if j == 0 {
        m
    } else {
        spec_swap_step(spec_pass(m, (j - 1) as nat), j - 1)
    }
}

/// The sequence after t complete sweeps.
pub open spec fn spec_passes(m: Seq<nat>, t: nat) -> Seq<nat>
    decreases t,
{
    if t == 0 {
        m
    } else {
        let prev = spec_passes(m, (t - 1) as nat);
        if prev.len() == 0 {
            prev
        } else {
            spec_pass(prev, (prev.len() - 1) as nat)
        }
    }
}

/// The bubble-sort model: as many sweeps as there are elements.
pub open spec fn spec_bubble_sort(m: Seq<nat>) -> Seq<nat> {
    spec_passes(m, m.len())
}

/// Swapping two adjacent elements preserves the multiset of the sequence.
pub proof fn lemma_adjacent_swap_multiset<A>(s: Seq<A>, j: int)
    requires
        0 <= j,
        j + 1 < s.len(),
    ensures
        s.update(j, s[j + 1]).update(j + 1, s[j]).to_multiset() == s.to_multiset(),
{
    broadcast use vstd::seq_lib::group_to_multiset_ensures;

    let t = s.update(j, s[j + 1]).update(j + 1, s[j]);
    let pre = s.subrange(0, j);
    let mid_s = seq![s[j], s[j + 1]];
    let mid_t = seq![s[j + 1], s[j]];
    let suf = s.subrange(j + 2, s.len() as int);
    assert(s =~= pre + mid_s + suf);
    assert(t =~= pre + mid_t + suf);
    lemma_multiset_commutative(pre + mid_s, suf);
    lemma_multiset_commutative(pre + mid_t, suf);
    lemma_multiset_commutative(pre, mid_s);
    lemma_multiset_commutative(pre, mid_t);
    assert(mid_s =~= Seq::empty().push(s[j]).push(s[j + 1]));
    assert(mid_t =~= Seq::empty().push(s[j + 1]).push(s[j]));
    assert(Seq::<A>::empty().to_multiset() =~= Multiset::<A>::empty()) by {
        Seq::<A>::empty().to_multiset_ensures();
    }
    assert(mid_s.to_multiset() =~= mid_t.to_multiset());
}

/// The value is one of the sequence's first b elements.
pub open spec fn from_prefix(m: Seq<nat>, b: int, v: nat) -> bool {
    exists|q: int| 0 <= q < b && v == #[trigger] m[q]
}

/// What one full or partial sweep does: the tail beyond j is untouched,
/// position j carries the running maximum of the prefix, values strictly
/// before the sorted boundary b stay bounded by the input's tail, values
/// from b through j are unchanged, and once the sweep has crossed the
/// boundary, position b-1 dominates everything before it.
#[verifier::rlimit(60)]
pub proof fn lemma_pass_props(m: Seq<nat>, j: nat, b: int)
    requires
        j < m.len(),
        1 <= b <= m.len(),
        sorted_from(m, b),
    ensures
        spec_pass(m, j).len() == m.len(),
        spec_pass(m, j).to_multiset() == m.to_multiset(),
        forall|p: int| j < p < m.len() ==> spec_pass(m, j)[p] == m[p],
        forall|p: int| 0 <= p < j ==> spec_pass(m, j)[p] <= spec_pass(m, j)[j as int],
        forall|p: int|
            0 <= p <= j && p < b ==> from_prefix(m, b, #[trigger] spec_pass(m, j)[p]),
        forall|p: int| b <= p <= j ==> spec_pass(m, j)[p] == m[p],
        j >= b ==> forall|p: int|
            0 <= p < b - 1 ==> #[trigger] spec_pass(m, j)[p] <= spec_pass(m, j)[b - 1],
    decreases j,
{
    if j == 0 {
        assert forall|p: int| 0 <= p <= j && p < b implies from_prefix(
            m,
            b,
            #[trigger] spec_pass(m, j)[p],
        ) by {
            assert(spec_pass(m, j) == m);
            assert(0 <= p < b && spec_pass(m, j)[p] == m[p]);
        }
    } else {
        let jm = (j - 1) as nat;
        lemma_pass_props(m, jm, b);
        let prev = spec_pass(m, jm);
        let cur = spec_pass(m, j);
        assert(cur == spec_swap_step(prev, j - 1));
        assert(prev[j as int] == m[j as int]);
        if prev[j - 1] > prev[j as int] {
            assert(cur == prev.update(j - 1, prev[j as int]).update(j as int, prev[j - 1]));
            lemma_adjacent_swap_multiset(prev, j - 1);
        } else {
            assert(cur == prev);
        }
        // The boundary pair and pairs inside the sorted tail never swap.
        if j - 1 >= b - 1 {
            let pv = prev[j - 1];
            if j - 1 == b - 1 {
                assert(from_prefix(m, b, spec_pass(m, jm)[j - 1]));
                let q = choose|q: int| 0 <= q < b && pv == m[q];
                assert(m[q] <= m[j as int]);
                assert(pv <= prev[j as int]);
            } else {
                assert(pv == m[j - 1]);
                assert(pv <= m[j as int]);
            }
            assert(cur == prev);
        }
        assert forall|p: int| 0 <= p <= j && p < b implies from_prefix(
            m,
            b,
            #[trigger] spec_pass(m, j)[p],
        ) by {
            if p < j - 1 {
                assert(cur[p] == prev[p]);
                assert(from_prefix(m, b, spec_pass(m, jm)[p]));
                let qq = choose|q: int| 0 <= q < b && prev[p] == m[q];
                assert(0 <= qq < b && cur[p] == m[qq]);
            } else if p == j - 1 {
                if cur[p] == prev[j - 1] {
                    assert(from_prefix(m, b, spec_pass(m, jm)[j - 1]));
                    let qq = choose|q: int| 0 <= q < b && prev[j - 1] == m[q];
                    assert(0 <= qq < b && cur[p] == m[qq]);
                } else {
                    assert(cur[p] == prev[j as int]);
                    assert(prev[j as int] == m[j as int]);
                    assert(j < b);
                    assert(0 <= (j as int) < b && cur[p] == m[j as int]);
                }
            } else {
                assert(p == j);
                if cur[p] == prev[j as int] {
                    assert(prev[j as int] == m[j as int]);
                    assert(j < b);
                    assert(0 <= (j as int) < b && cur[p] == m[j as int]);
                } else {
                    assert(cur[p] == prev[j - 1]);
                    assert(from_prefix(m, b, spec_pass(m, jm)[j - 1]));
                    let qq = choose|q: int| 0 <= q < b && prev[j - 1] == m[q];
                    assert(0 <= qq < b && cur[p] == m[qq]);
                }
            }
        }
    }
}

/// One full sweep extends the sorted tail by one position to the left.
pub proof fn lemma_full_pass_extends(m: Seq<nat>, b: int)
    requires
        1 <= m.len(),
        1 <= b <= m.len(),
        sorted_from(m, b),
    ensures
        spec_pass(m, (m.len() - 1) as nat).len() == m.len(),
        spec_pass(m, (m.len() - 1) as nat).to_multiset() == m.to_multiset(),
        sorted_from(spec_pass(m, (m.len() - 1) as nat), b - 1),
{
    let n = m.len() as int;
    let j = (m.len() - 1) as nat;
    lemma_pass_props(m, j, b);
    let r = spec_pass(m, j);
    assert forall|p: int, q: int| b - 1 <= p < q < n implies r[p] <= r[q] by {
        if p >= b {
            assert(r[p] == m[p] && r[q] == m[q]);
        } else {
            assert(p == b - 1);
            if q == n - 1 && p == j {
            } else {
                assert(q >= b);
                assert(r[q] == m[q]);
                if p == j {
                } else {
                    assert(from_prefix(m, b, spec_pass(m, j)[p]));
                    let s = choose|ss: int| 0 <= ss < b && r[p] == m[ss];
                    assert(m[s] <= m[q]);
                }
            }
        }
    }
    assert forall|p: int, q: int| 0 <= p < b - 1 <= q < n implies r[p] <= r[q] by {
        if q == b - 1 {
            if b <= j {
                assert(r[p] <= r[b - 1]);
            } else {
                assert(b == m.len());
                assert(b - 1 == j);
                assert(r[p] <= r[j as int]);
            }
        } else {
            assert(q >= b);
            assert(r[q] == m[q]);
            assert(from_prefix(m, b, spec_pass(m, j)[p]));
            let s = choose|ss: int| 0 <= ss < b && r[p] == m[ss];
            assert(m[s] <= m[q]);
        }
    }
}

/// After t sweeps the last t positions are sorted and dominate the rest,
/// and the multiset of values is unchanged.
pub proof fn lemma_passes_props(m: Seq<nat>, t: nat)
    requires
        t <= m.len(),
    ensures
        spec_passes(m, t).len() == m.len(),
        spec_passes(m, t).to_multiset() == m.to_multiset(),
        sorted_from(spec_passes(m, t), m.len() - t),
    decreases t,
{
    if t == 0 {
    } else {
        lemma_passes_props(m, (t - 1) as nat);
        let prev = spec_passes(m, (t - 1) as nat);
        lemma_full_pass_extends(prev, m.len() - (t - 1));
    }
}

/// The bubble-sort model sorts its input and permutes its multiset.
pub proof fn lemma_bubble_sort_sorts(m: Seq<nat>)
    ensures
        spec_bubble_sort(m).len() == m.len(),
        spec_bubble_sort(m).to_multiset() == m.to_multiset(),
        sorted_nats(spec_bubble_sort(m)),
{
    lemma_passes_props(m, m.len());
}


/// The mathematical values a plaintext array stands for.
pub open spec fn nats_of_u16(s: Seq<u16>) -> Seq<nat> {
    Seq::new(s.len(), |i: int| s[i] as nat)
}

/// Plaintext comparison sort, the correctness oracle for the encrypted
/// sorter: the result is non-decreasing and holds exactly the input's
/// values.
pub fn sort_plaintext(arr: Vec<u16>) -> (r: Vec<u16>)
    ensures
        r@.len() == arr@.len(),
        forall|p: int, q: int| 0 <= p < q < r@.len() ==> r@[p] <= r@[q],
        r@.to_multiset() == arr@.to_multiset(),
{
    let n = arr.len();
    let ghost m0 = nats_of_u16(arr@);
    let ghost ms0 = arr@.to_multiset();
    let mut arr = arr;
    let mut t: usize = 0;
    while t < n
        invariant
            t <= n,
            arr@.len() == n,
            nats_of_u16(arr@) == spec_passes(m0, t as nat),
            arr@.to_multiset() == ms0,
        decreases n - t,
    {
        let ghost mt = spec_passes(m0, t as nat);
        let mut j: usize = 0;
        while j + 1 < n
            invariant
                t < n,
                j < n,
                arr@.len() == n,
                nats_of_u16(arr@) == spec_pass(mt, j as nat),
                arr@.to_multiset() == ms0,
            decreases n - j,
        {
            let ghost mj = spec_pass(mt, j as nat);
            let a: u16 = arr[j];
            let b: u16 = arr[j + 1];
            if a > b {
                let ghost before = arr@;
                arr.set(j, b);
                arr.set(j + 1, a);
                proof {
                    lemma_adjacent_swap_multiset(before, j as int);
                    assert(arr@ =~= before.update(j as int, b).update(j + 1, a));
                }
            }
            proof {
                assert(nats_of_u16(arr@) =~= spec_swap_step(mj, j as int));
            }
            j = j + 1;
        }
        proof {
            if n > 1 {
                assert(spec_pass(mt, (n - 1) as nat) == spec_passes(m0, (t + 1) as nat));
            } else {
                assert(nats_of_u16(arr@) =~= spec_passes(m0, (t + 1) as nat));
            }
        }
        t = t + 1;
    }
    proof {
        lemma_bubble_sort_sorts(m0);
        assert(m0.len() == n);
        assert(nats_of_u16(arr@) == spec_bubble_sort(m0));
        assert forall|p: int, q: int| 0 <= p < q < arr@.len() implies arr@[p] <= arr@[q] by {
            assert(nats_of_u16(arr@)[p] <= nats_of_u16(arr@)[q]);
        }
    }
    arr
}


/// Oblivious sort over encrypted values, at any supported width: the
/// result decrypts to the non-decreasing permutation of the input's
/// values, and exactly n(n-1) comparisons and 4n(n-1) ciphertext
/// multiplies are issued whatever the encrypted values are.
pub fn sort_encrypted<E: EncVal>(arr: Vec<E>, ctx: &FheContext, ops: &mut OperationCount) -> (r:
    Vec<E>)
    requires
        ctx.holds_server_key(),
        enc_seq_wf(arr@, ctx.id()),
        old(ops).cp_mul_count + arr@.len() * (arr@.len() - 1) <= u64::MAX,
        old(ops).mul_cp_count + 4 * (arr@.len() * (arr@.len() - 1)) <= u64::MAX,
    ensures
        r@.len() == arr@.len(),
        sorted_nats(plains_of(r@)),
        plains_of(r@).to_multiset() == plains_of(arr@).to_multiset(),
        enc_seq_wf(r@, ctx.id()),
        final(ops).cp_mul_count == old(ops).cp_mul_count + arr@.len() * (arr@.len() - 1),
        final(ops).mul_cp_count == old(ops).mul_cp_count + 4 * (arr@.len() * (arr@.len() - 1)),
{
    proof {
        E::lemma_width();
        lemma_pow2_pos(E::width());
        lemma_pow2_strictly_increases(0, E::width());
        lemma2_to64();
    }
    let n = arr.len();
    let ghost m0 = plains_of(arr@);
    let ghost cp0 = old(ops).cp_mul_count;
    let ghost mu0 = old(ops).mul_cp_count;
    let one = E::encrypt(1, ctx);
    let mut arr = arr;
    let mut t: usize = 0;
    while t < n
        invariant
            ctx.holds_server_key(),
            one.plain() == 1,
            one.ctx_id() == ctx.id(),
            t <= n,
            arr@.len() == n,
            enc_seq_wf(arr@, ctx.id()),
            plains_of(arr@) == spec_passes(m0, t as nat),
            ops.cp_mul_count == cp0 + t * (n - 1),
            ops.mul_cp_count == mu0 + 4 * (t * (n - 1)),
            cp0 + n * (n - 1) <= u64::MAX,
            mu0 + 4 * (n * (n - 1)) <= u64::MAX,
        decreases n - t,
    {
        let ghost mt = spec_passes(m0, t as nat);
        let mut j: usize = 0;
        while j + 1 < n
            invariant
                ctx.holds_server_key(),
                one.plain() == 1,
                one.ctx_id() == ctx.id(),
                t < n,
                j < n,
                arr@.len() == n,
                enc_seq_wf(arr@, ctx.id()),
                plains_of(arr@) == spec_pass(mt, j as nat),
                ops.cp_mul_count == cp0 + t * (n - 1) + j,
                ops.mul_cp_count == mu0 + 4 * (t * (n - 1) + j),
                cp0 + n * (n - 1) <= u64::MAX,
                mu0 + 4 * (n * (n - 1)) <= u64::MAX,
            decreases n - j,
        {
            let ghost mj = spec_pass(mt, j as nat);
            proof {
                assert(t * (n - 1) + j <= n * (n - 1) - 1) by (nonlinear_arith)
                    requires
                        t < n,
                        j < n - 1,
                        n >= 2,
                ;
            }
            let swap_b = op_gt(&arr[j], &arr[j + 1], ctx, ops);
            let (first, second) = op_cswap(&swap_b, &arr[j], &arr[j + 1], &one, ctx, ops);
            arr.set(j, first);
            arr.set(j + 1, second);
            proof {
                assert(plains_of(arr@) =~= spec_swap_step(mj, j as int));
            }
            j = j + 1;
        }
        proof {
            if n > 1 {
                assert(j == n - 1);
                assert(spec_pass(mt, (n - 1) as nat) == spec_passes(m0, (t + 1) as nat));
            } else {
                assert(plains_of(arr@) =~= spec_passes(m0, (t + 1) as nat));
            }
            assert(t * (n - 1) + (n - 1) == (t + 1) * (n - 1)) by (nonlinear_arith);
        }
        t = t + 1;
    }
    proof {
        lemma_bubble_sort_sorts(m0);
        assert(m0.len() == n);
        assert(plains_of(arr@) == spec_bubble_sort(m0));
        assert(n * (n - 1) == n * (n - 1));
        if n == 0 {
            assert(plains_of(arr@) =~= m0);
        }
    }
    arr
}


/// Build a reverse-sorted array, the worst case for a comparison sort.
pub fn create_sample_array(n: usize) -> (r: Vec<u16>)
    requires
        n <= 65536,
    ensures
        r@.len() == n,
        forall|i: int| 0 <= i < n ==> (#[trigger] r@[i]) == n - i - 1,
{
    let mut arr: Vec<u16> = Vec::new();
    let mut i: usize = 0;
    while i < n
        invariant
            i <= n,
            n <= 65536,
            arr@.len() == i,
            forall|p: int| 0 <= p < i ==> (#[trigger] arr@[p]) == n - p - 1,
        decreases n - i,
    {
        arr.push((n - i - 1) as u16);
        i = i + 1;
    }
    arr
}
} // verus!

//! All-pairs shortest-path relaxation (Floyd–Warshall), oblivious form.
//!
//! The triple loop over intermediate vertex k, source i and destination j
//! always runs n^3 steps in a fixed order; graph density is not
//! observable.  Each step forms the candidate `dist[i][k] + dist[k][j]`
//! under clamped (saturating) addition — the width's maximum plays the
//! role of infinity — compares it against `dist[i][j]`, and keeps the
//! smaller value by oblivious selection.
//!
//! The functional model `spec_floyd` folds exactly that step sequence in
//! loop order; the plaintext and the encrypted relaxer are both proved
//! equal to it, which makes them agree cell for cell under a matching
//! saturation cap.

use vstd::prelude::*;
use vstd::arithmetic::power2::*;
use crate::fhe::{EncVal, FheContext};
use crate::oblivious::{op_lt, op_select, sat_add, OperationCount};

verus! {

/// Addition clamped at the cap: the model of saturating arithmetic, where
/// the cap stands for infinity.
pub open spec fn cap_add(a: nat, b: nat, cap: nat) -> nat {
    if a + b <= cap {
        (a + b) as nat
    } else {
        cap
    }
}

/// The value of cell (i, j) after one relaxation step through k.
pub open spec fn relaxed(m: Seq<Seq<nat>>, k: int, i: int, j: int, cap: nat) -> nat {
    let cand = cap_add(m[i][k], m[k][j], cap);
    if cand < m[i][j] {
        cand
    } else {
        m[i][j]
    }
}

/// One relaxation step applied to the matrix.
pub open spec fn fw_step(m: Seq<Seq<nat>>, k: int, i: int, j: int, cap: nat) -> Seq<Seq<nat>> {
    m.update(i, m[i].update(j, relaxed(m, k, i, j, cap)))
}

/// The matrix after steps (k, i, 0) .. (k, i, j-1).
pub open spec fn fw_row(m: Seq<Seq<nat>>, k: int, i: int, j: nat, cap: nat) -> Seq<Seq<nat>>
    decreases j,
{
    if j == 0 {
        m
    } else {
        fw_step(fw_row(m, k, i, (j - 1) as nat, cap), k, i, j - 1, cap)
    }
}

/// The matrix after all steps of rows 0 .. i-1 of round k.
pub open spec fn fw_rows(m: Seq<Seq<nat>>, k: int, i: nat, n: nat, cap: nat) -> Seq<Seq<nat>>
    decreases i,
{
    if i == 0 {
        m
    } else {
        fw_row(fw_rows(m, k, (i - 1) as nat, n, cap), k, i - 1, n, cap)
    }
}

/// The matrix after complete rounds 0 .. k-1.
pub open spec fn fw_rounds(m: Seq<Seq<nat>>, k: nat, n: nat, cap: nat) -> Seq<Seq<nat>>
    decreases k,
{
    if k == 0 {
        m
    } else {
        fw_rows(fw_rounds(m, (k - 1) as nat, n, cap), k - 1, n, n, cap)
    }
}

/// The full relaxation: n rounds over an n-by-n matrix.
pub open spec fn spec_floyd(m: Seq<Seq<nat>>, n: nat, cap: nat) -> Seq<Seq<nat>> {
    fw_rounds(m, n, n, cap)
}

/// The mathematical matrix a plaintext distance matrix stands for.
pub open spec fn mat_of_u16(d: Seq<Vec<u16>>) -> Seq<Seq<nat>> {
    Seq::new(d.len(), |i: int| Seq::new(d[i]@.len(), |j: int| d[i]@[j] as nat))
}

/// Pointwise agreement of a plaintext matrix with a model matrix.
pub open spec fn mat_matches_u16(d: Seq<Vec<u16>>, m: Seq<Seq<nat>>, n: nat) -> bool {
    &&& d.len() == n
    &&& m.len() == n
    &&& forall|i: int| 0 <= i < n ==> (#[trigger] d[i])@.len() == n
    &&& forall|i: int| 0 <= i < n ==> (#[trigger] m[i]).len() == n
    &&& forall|i: int, j: int|
        0 <= i < n && 0 <= j < n ==> (#[trigger] d[i]@[j]) as nat == m[i][j]
}

/// Pointwise agreement of an encrypted matrix with a model matrix: every
/// cell belongs to the context, fits the width, and decrypts to the model
/// value.
pub open spec fn mat_matches_enc<E: EncVal>(
    d: Seq<Vec<E>>,
    m: Seq<Seq<nat>>,
    n: nat,
    ctx_id: int,
) -> bool {
    &&& d.len() == n
    &&& m.len() == n
    &&& forall|i: int| 0 <= i < n ==> (#[trigger] d[i])@.len() == n
    &&& forall|i: int| 0 <= i < n ==> (#[trigger] m[i]).len() == n
    &&& forall|i: int, j: int|
        0 <= i < n && 0 <= j < n ==> {
            &&& (#[trigger] d[i]@[j]).plain() == m[i][j]
            &&& d[i]@[j].ctx_id() == ctx_id
            &&& d[i]@[j].plain() < pow2(E::width())
        }
}

/// Plaintext relaxation over 16-bit distances with saturating addition:
/// the correctness oracle for the encrypted relaxer at width 16.
pub fn floyd_warshall_plaintext(dist: Vec<Vec<u16>>, n: usize) -> (r: Vec<Vec<u16>>)
    requires
        dist@.len() == n,
        forall|i: int| 0 <= i < n ==> (#[trigger] dist@[i])@.len() == n,
    ensures
        mat_matches_u16(r@, spec_floyd(mat_of_u16(dist@), n as nat, 65535), n as nat),
{
    let ghost m0 = mat_of_u16(dist@);
    let mut dist = dist;
    proof {
        assert(mat_matches_u16(dist@, m0, n as nat));
    }
    let mut k: usize = 0;
    while k < n
        invariant
            k <= n,
            mat_matches_u16(dist@, fw_rounds(m0, k as nat, n as nat, 65535), n as nat),
        decreases n - k,
    {
        let ghost mk = fw_rounds(m0, k as nat, n as nat, 65535);
        let mut i: usize = 0;
        while i < n
            invariant
                k < n,
                i <= n,
                mat_matches_u16(dist@, fw_rows(mk, k as int, i as nat, n as nat, 65535), n as nat),
            decreases n - i,
        {
            let ghost mi = fw_rows(mk, k as int, i as nat, n as nat, 65535);
            let mut j: usize = 0;
            while j < n
                invariant
                    k < n,
                    i < n,
                    j <= n,
                    mat_matches_u16(dist@, fw_row(mi, k as int, i as int, j as nat, 65535), n as nat),
                decreases n - j,
            {
                let ghost mj = fw_row(mi, k as int, i as int, j as nat, 65535);
                let a: u16 = dist[i][k];
                let b: u16 = dist[k][j];
                let cur: u16 = dist[i][j];
                let sum32: u32 = a as u32 + b as u32;
                let cand: u16 = if sum32 > 65535 {
                    65535
                } else {
                    sum32 as u16
                };
                let newv: u16 = if cand < cur {
                    cand
                } else {
                    cur
                };
                proof {
                    assert(cand as nat == cap_add(mj[i as int][k as int], mj[k as int][j as int], 65535));
                    assert(newv as nat == relaxed(mj, k as int, i as int, j as int, 65535));
                }
                dist[i].set(j, newv);
                proof {
                    assert(fw_row(mi, k as int, i as int, (j + 1) as nat, 65535)
                        == fw_step(mj, k as int, i as int, j as int, 65535));
                }
                j = j + 1;
            }
            proof {
                assert(fw_rows(mk, k as int, (i + 1) as nat, n as nat, 65535)
                    == fw_row(mi, k as int, i as int, n as nat, 65535));
            }
            i = i + 1;
        }
        proof {
            assert(fw_rounds(m0, (k + 1) as nat, n as nat, 65535)
                == fw_rows(mk, k as int, n as nat, n as nat, 65535));
        }
        k = k + 1;
    }
    dist
}


/// Oblivious relaxation over an encrypted distance matrix, at any
/// supported width.  Every cell of the result decrypts to the
/// corresponding cell of the functional model, and the operation counts
/// added to `ops` are exactly 2n^3 comparisons-class and 4n^3
/// multiplies-class operations: a function of the public size alone,
/// never of the encrypted distances.
pub fn floyd_warshall_enc<E: EncVal>(
    dist: Vec<Vec<E>>,
    n: usize,
    ctx: &FheContext,
    ops: &mut OperationCount,
) -> (r: Vec<Vec<E>>)
    requires
        ctx.holds_server_key(),
        mat_matches_enc(dist@, mat_plains(dist@), n as nat, ctx.id()),
        old(ops).cp_mul_count + 2 * (n * n * n) <= u64::MAX,
        old(ops).mul_cp_count + 4 * (n * n * n) <= u64::MAX,
    ensures
        mat_matches_enc(
            r@,
            spec_floyd(mat_plains(dist@), n as nat, (pow2(E::width()) - 1) as nat),
            n as nat,
            ctx.id(),
        ),
        final(ops).cp_mul_count == old(ops).cp_mul_count + 2 * (n * n * n),
        final(ops).mul_cp_count == old(ops).mul_cp_count + 4 * (n * n * n),
{
    proof {
        E::lemma_width();
        lemma_pow2_pos(E::width());
        lemma_pow2_strictly_increases(0, E::width());
        lemma2_to64();
    }
    let ghost cap: nat = (pow2(E::width()) - 1) as nat;
    let ghost m0 = mat_plains(dist@);
    let ghost cp0 = old(ops).cp_mul_count;
    let ghost mu0 = old(ops).mul_cp_count;
    let one = E::encrypt(1, ctx);
    let maxc = E::encrypt(E::max_value(), ctx);
    let mut dist = dist;
    let mut k: usize = 0;
    while k < n
        invariant
            ctx.holds_server_key(),
            one.plain() == 1,
            one.ctx_id() == ctx.id(),
            maxc.plain() == cap,
            maxc.ctx_id() == ctx.id(),
            cap == (pow2(E::width()) - 1) as nat,
            k <= n,
            mat_matches_enc(dist@, fw_rounds(m0, k as nat, n as nat, cap), n as nat, ctx.id()),
            ops.cp_mul_count == cp0 + 2 * (k * (n * n)),
            ops.mul_cp_count == mu0 + 4 * (k * (n * n)),
            cp0 + 2 * (n * n * n) <= u64::MAX,
            mu0 + 4 * (n * n * n) <= u64::MAX,
        decreases n - k,
    {
        let ghost mk = fw_rounds(m0, k as nat, n as nat, cap);
        let mut i: usize = 0;
        proof {
            assert(k * (n * n) + 0 * n == k * (n * n)) by (nonlinear_arith);
        }
        while i < n
            invariant
                ctx.holds_server_key(),
                one.plain() == 1,
                one.ctx_id() == ctx.id(),
                maxc.plain() == cap,
                maxc.ctx_id() == ctx.id(),
                cap == (pow2(E::width()) - 1) as nat,
                k < n,
                i <= n,
                mat_matches_enc(dist@, fw_rows(mk, k as int, i as nat, n as nat, cap), n as nat, ctx.id()),
                ops.cp_mul_count == cp0 + 2 * (k * (n * n) + i * n),
                ops.mul_cp_count == mu0 + 4 * (k * (n * n) + i * n),
                cp0 + 2 * (n * n * n) <= u64::MAX,
                mu0 + 4 * (n * n * n) <= u64::MAX,
            decreases n - i,
        {
            let ghost mi = fw_rows(mk, k as int, i as nat, n as nat, cap);
            let mut j: usize = 0;
            while j < n
                invariant
                    ctx.holds_server_key(),
                    one.plain() == 1,
                    one.ctx_id() == ctx.id(),
                    maxc.plain() == cap,
                    maxc.ctx_id() == ctx.id(),
                    cap == (pow2(E::width()) - 1) as nat,
                    k < n,
                    i < n,
                    j <= n,
                    mat_matches_enc(dist@, fw_row(mi, k as int, i as int, j as nat, cap), n as nat, ctx.id()),
                    ops.cp_mul_count == cp0 + 2 * (k * (n * n) + i * n + j),
                    ops.mul_cp_count == mu0 + 4 * (k * (n * n) + i * n + j),
                    cp0 + 2 * (n * n * n) <= u64::MAX,
                    mu0 + 4 * (n * n * n) <= u64::MAX,
                decreases n - j,
            {
                let ghost mj = fw_row(mi, k as int, i as int, j as nat, cap);
                proof {
                    assert(k * (n * n) + i * n + j <= n * n * n - 1) by (nonlinear_arith)
                        requires
                            k < n,
                            i < n,
                            j < n,
                    ;
                }
                let cand = sat_add(&dist[i][k], &dist[k][j], &one, &maxc, ctx, ops);
                let shorter = op_lt(&cand, &dist[i][j], ctx, ops);
                let newv = op_select(&shorter, &cand, &dist[i][j], &one, ctx, ops);
                proof {
                    assert(cand.plain() == cap_add(mj[i as int][k as int], mj[k as int][j as int], cap));
                    assert(newv.plain() == relaxed(mj, k as int, i as int, j as int, cap));
                }
                dist[i].set(j, newv);
                proof {
                    assert(fw_row(mi, k as int, i as int, (j + 1) as nat, cap)
                        == fw_step(mj, k as int, i as int, j as int, cap));
                }
                j = j + 1;
            }
            proof {
                assert(fw_rows(mk, k as int, (i + 1) as nat, n as nat, cap)
                    == fw_row(mi, k as int, i as int, n as nat, cap));
                assert(k * (n * n) + i * n + n == k * (n * n) + (i + 1) * n) by (nonlinear_arith);
            }
            i = i + 1;
        }
        proof {
            assert(fw_rounds(m0, (k + 1) as nat, n as nat, cap)
                == fw_rows(mk, k as int, n as nat, n as nat, cap));
            assert(k * (n * n) + n * n == (k + 1) * (n * n)) by (nonlinear_arith);
        }
        k = k + 1;
    }
    proof {
        assert(n * (n * n) == n * n * n) by (nonlinear_arith);
    }
    dist
}

/// The plain values an encrypted matrix decrypts to.
pub open spec fn mat_plains<E: EncVal>(d: Seq<Vec<E>>) -> Seq<Seq<nat>> {
    Seq::new(d.len(), |i: int| Seq::new(d[i]@.len(), |j: int| d[i]@[j].plain()))
}


/// Distance of the sample graph between vertices i and j: a path graph
/// with unit edges, a couple of fixed shortcuts, 99 as "no edge", and 0 on
/// the diagonal.
pub open spec fn sample_graph_cell(n: int, i: int, j: int) -> u16 {
    if i == j {
        0
    } else if j == i + 1 || i == j + 1 {
        1
    } else if n >= 4 && ((i == 0 && j == 2) || (i == 2 && j == 0)) {
        3
    } else if n >= 6 && ((i == 1 && j == 4) || (i == 4 && j == 1)) {
        5
    } else {
        99
    }
}

/// Build the sample distance matrix used by the relaxation benchmarks.
pub fn create_sample_graph(n: usize) -> (r: Vec<Vec<u16>>)
    ensures
        r@.len() == n,
        forall|i: int| 0 <= i < n ==> (#[trigger] r@[i])@.len() == n,
        forall|i: int, j: int|
            0 <= i < n && 0 <= j < n ==> (#[trigger] r@[i]@[j]) == sample_graph_cell(n as int, i, j),
{
    let mut dist: Vec<Vec<u16>> = Vec::new();
    let mut i: usize = 0;
    while i < n
        invariant
            i <= n,
            dist@.len() == i,
            forall|a: int| 0 <= a < i ==> (#[trigger] dist@[a])@.len() == n,
            forall|a: int, b: int|
                0 <= a < i && 0 <= b < n ==> (#[trigger] dist@[a]@[b]) == sample_graph_cell(n as int, a, b),
        decreases n - i,
    {
        let mut row: Vec<u16> = Vec::new();
        let mut j: usize = 0;
        while j < n
            invariant
                i < n,
                j <= n,
                row@.len() == j,
                forall|b: int| 0 <= b < j ==> (#[trigger] row@[b]) == sample_graph_cell(n as int, i as int, b),
            decreases n - j,
        {
            let cell: u16 = if i == j {
                0
            } else if j == i + 1 || i == j + 1 {
                1
            } else if n >= 4 && ((i == 0 && j == 2) || (i == 2 && j == 0)) {
                3
            } else if n >= 6 && ((i == 1 && j == 4) || (i == 4 && j == 1)) {
                5
            } else {
                99
            };
            row.push(cell);
            j = j + 1;
        }
        dist.push(row);
        i = i + 1;
    }
    dist
}

/// The encrypted relaxer agrees with the plaintext oracle cell for cell
/// when run at the oracle's saturation width: both contracts land in the
/// same functional model, so matching inputs give matching outputs.
pub proof fn lemma_floyd_matches_oracle(
    enc_in: Seq<Vec<crate::fhe::Enc16>>,
    plain_in: Seq<Vec<u16>>,
    enc_out: Seq<Vec<crate::fhe::Enc16>>,
    plain_out: Seq<Vec<u16>>,
    n: nat,
    cid: int,
)
    requires
        mat_plains(enc_in) == mat_of_u16(plain_in),
        mat_matches_enc(
            enc_out,
            spec_floyd(mat_plains(enc_in), n, (pow2(crate::fhe::Enc16::width()) - 1) as nat),
            n,
            cid,
        ),
        mat_matches_u16(plain_out, spec_floyd(mat_of_u16(plain_in), n, 65535), n),
    ensures
        forall|i: int, j: int|
            0 <= i < n && 0 <= j < n ==> (#[trigger] enc_out[i]@[j]).plain() == plain_out[i]@[j] as nat,
{
    lemma2_to64();
    assert((pow2(crate::fhe::Enc16::width()) - 1) as nat == 65535);
}


/// Lengths are n-by-n and every entry is at most the cap.
pub open spec fn mat_ok(m: Seq<Seq<nat>>, n: nat, cap: nat) -> bool {
    &&& m.len() == n
    &&& forall|i: int| 0 <= i < n ==> (#[trigger] m[i]).len() == n
    &&& forall|i: int, j: int| 0 <= i < n && 0 <= j < n ==> (#[trigger] m[i][j]) <= cap
}

/// The textbook shortest-path dynamic program under clamped addition:
/// cheapest cost from i to j using only intermediate vertices below k.
pub open spec fn sp(m: Seq<Seq<nat>>, i: int, j: int, k: nat, cap: nat) -> nat
    decreases k,
{
    if k == 0 {
        m[i][j]
    } else {
        let without = sp(m, i, j, (k - 1) as nat, cap);
        let through = cap_add(
            sp(m, i, k - 1, (k - 1) as nat, cap),
            sp(m, k - 1, j, (k - 1) as nat, cap),
            cap,
        );
        if through < without {
            through
        } else {
            without
        }
    }
}

/// The dynamic program never exceeds the cap.
pub proof fn lemma_sp_bound(m: Seq<Seq<nat>>, i: int, j: int, k: nat, n: nat, cap: nat)
    requires
        mat_ok(m, n, cap),
        0 <= i < n,
        0 <= j < n,
        k <= n,
    ensures
        sp(m, i, j, k, cap) <= cap,
    decreases k,
{
    if k > 0 {
        lemma_sp_bound(m, i, j, (k - 1) as nat, n, cap);
    }
}

/// Row k-1 and column k-1 are fixed points of round k: routing a path
/// from vertex k-1 through vertex k-1 cannot improve it.
pub proof fn lemma_sp_fixed_point(m: Seq<Seq<nat>>, i: int, j: int, k: nat, n: nat, cap: nat)
    requires
        mat_ok(m, n, cap),
        1 <= k <= n,
        0 <= i < n,
        0 <= j < n,
    ensures
        i == k - 1 || j == k - 1 ==> sp(m, i, j, k, cap) == sp(m, i, j, (k - 1) as nat, cap),
{
    let km = (k - 1) as nat;
    lemma_sp_bound(m, i, j, km, n, cap);
    lemma_sp_bound(m, i, k - 1, km, n, cap);
    lemma_sp_bound(m, k - 1, j, km, n, cap);
}


/// The mixed state mid-round: cells before scan position (i, j) of round
/// k already hold the next level of the dynamic program, the rest still
/// hold the current level.
pub open spec fn round_state(
    cur: Seq<Seq<nat>>,
    m: Seq<Seq<nat>>,
    k: int,
    i: int,
    j: int,
    n: nat,
    cap: nat,
) -> bool {
    &&& cur.len() == n
    &&& forall|a: int| 0 <= a < n ==> (#[trigger] cur[a]).len() == n
    &&& forall|a: int, b: int|
        0 <= a < n && 0 <= b < n && (a < i || (a == i && b < j)) ==> (#[trigger] cur[a][b])
            == sp(m, a, b, (k + 1) as nat, cap)
    &&& forall|a: int, b: int|
        0 <= a < n && 0 <= b < n && !(a < i || (a == i && b < j)) ==> (#[trigger] cur[a][b])
            == sp(m, a, b, k as nat, cap)
}

/// Sweeping one row of round k advances its cells by one level of the
/// dynamic program: the values read for the relaxation always equal the
/// current-level values, because row k and column k are fixed points of
/// the round.
pub proof fn lemma_fw_row_dp(
    m: Seq<Seq<nat>>,
    mid: Seq<Seq<nat>>,
    k: int,
    i: int,
    j: nat,
    n: nat,
    cap: nat,
)
    requires
        mat_ok(m, n, cap),
        0 <= k < n,
        0 <= i < n,
        j <= n,
        round_state(mid, m, k, i, 0, n, cap),
    ensures
        round_state(fw_row(mid, k, i, j, cap), m, k, i, j as int, n, cap),
    decreases j,
{
    if j > 0 {
        let jm = (j - 1) as nat;
        lemma_fw_row_dp(m, mid, k, i, jm, n, cap);
        let prev = fw_row(mid, k, i, jm, cap);
        let cur = fw_row(mid, k, i, j, cap);
        assert(cur == fw_step(prev, k, i, j - 1, cap));

        // The three cells the step reads all carry current-level values.
        assert(prev[i][j - 1] == sp(m, i, j - 1, k as nat, cap));
        lemma_sp_fixed_point(m, i, k, (k + 1) as nat, n, cap);
        assert(prev[i][k] == sp(m, i, k, k as nat, cap));
        lemma_sp_fixed_point(m, k, j - 1, (k + 1) as nat, n, cap);
        assert(prev[k][j - 1] == sp(m, k, j - 1, k as nat, cap));

        // So the relaxed cell is exactly the next-level value.
        assert(relaxed(prev, k, i, j - 1, cap) == sp(m, i, j - 1, (k + 1) as nat, cap));
    }
}

/// Sweeping rows 0 .. i-1 of round k advances those rows by one level.
pub proof fn lemma_fw_rows_dp(
    m: Seq<Seq<nat>>,
    base: Seq<Seq<nat>>,
    k: int,
    i: nat,
    n: nat,
    cap: nat,
)
    requires
        mat_ok(m, n, cap),
        0 <= k < n,
        i <= n,
        round_state(base, m, k, 0, 0, n, cap),
    ensures
        round_state(fw_rows(base, k, i, n, cap), m, k, i as int, 0, n, cap),
    decreases i,
{
    if i > 0 {
        let im = (i - 1) as nat;
        lemma_fw_rows_dp(m, base, k, im, n, cap);
        let s = fw_rows(base, k, im, n, cap);
        lemma_fw_row_dp(m, s, k, i - 1, n, n, cap);
        assert(fw_rows(base, k, i, n, cap) == fw_row(s, k, i - 1, n, cap));
    }
}

/// After k complete rounds every cell holds level k of the dynamic
/// program.
pub proof fn lemma_fw_rounds_dp(m: Seq<Seq<nat>>, k: nat, n: nat, cap: nat)
    requires
        mat_ok(m, n, cap),
        k <= n,
    ensures
        fw_rounds(m, k, n, cap).len() == n,
        forall|a: int| 0 <= a < n ==> (#[trigger] fw_rounds(m, k, n, cap)[a]).len() == n,
        forall|a: int, b: int|
            0 <= a < n && 0 <= b < n ==> (#[trigger] fw_rounds(m, k, n, cap)[a][b])
                == sp(m, a, b, k, cap),
    decreases k,
{
    if k > 0 {
        let km = (k - 1) as nat;
        lemma_fw_rounds_dp(m, km, n, cap);
        let prev = fw_rounds(m, km, n, cap);
        assert(round_state(prev, m, km as int, 0, 0, n, cap));
        lemma_fw_rows_dp(m, prev, km as int, n, n, cap);
        assert(fw_rounds(m, k, n, cap) == fw_rows(prev, km as int, n, n, cap));
    }
}

/// The relaxation computes the classical shortest-path recurrence: after
/// the full fold, cell (i, j) holds the cheapest cost from i to j over
/// any chain of intermediate vertices, under clamped addition.
pub proof fn lemma_floyd_computes_shortest_paths(m: Seq<Seq<nat>>, n: nat, cap: nat)
    requires
        mat_ok(m, n, cap),
    ensures
        forall|i: int, j: int|
            0 <= i < n && 0 <= j < n ==> (#[trigger] spec_floyd(m, n, cap)[i][j])
                == sp(m, i, j, n, cap),
{
    lemma_fw_rounds_dp(m, n, n, cap);
}

} // verus!

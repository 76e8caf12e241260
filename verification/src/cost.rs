//! Operation-cost model.
//!
//! Each oblivious algorithm issues a fixed number of homomorphic operations
//! that depends only on its public size parameter (tree depth, graph size,
//! array length, row count), never on encrypted data.  Two operation classes
//! are counted separately, because their unit costs differ:
//!
//! - `cp_mul`: a ciphertext comparison followed by a multiply with the
//!   comparison result;
//! - `mul_cp`: a multiply of two ciphertexts (or by a pre-encrypted
//!   constant).
//!
//! `analyze_*` computes the counts in closed form; `estimate_time` projects
//! a total latency from measured unit-operation times, given in nanoseconds.

use vstd::prelude::*;
use vstd::arithmetic::power2::*;

verus! {

/// Number of internal nodes of a complete binary tree of the given depth
/// (a tree of depth 0 is empty; a tree of depth 1 is a single leaf).
pub open spec fn spec_internal_nodes(depth: nat) -> nat {
    if depth == 0 {
        0
    } else {
        (pow2((depth - 1) as nat) - 1) as nat
    }
}

/// Number of leaf nodes of a complete binary tree of the given depth.
/// A degenerate tree of depth 0 still produces one result, so it is
/// counted as a single leaf.
pub open spec fn spec_leaf_nodes(depth: nat) -> nat {
    if depth == 0 {
        1
    } else {
        pow2((depth - 1) as nat)
    }
}

/// Projected latency: each operation class contributes its count times its
/// measured unit time.
pub open spec fn spec_estimate(cp_mul_ops: nat, mul_cp_ops: nat, cp_mul_ns: nat, mul_cp_ns: nat) -> nat {
    cp_mul_ops * cp_mul_ns + mul_cp_ops * mul_cp_ns
}

/// The projection is exactly linear in each measured unit time: doubling
/// one unit time increases the estimate by exactly that class's term.
pub proof fn lemma_estimate_linear(cp_mul_ops: nat, mul_cp_ops: nat, cp_mul_ns: nat, mul_cp_ns: nat)
    ensures
        spec_estimate(cp_mul_ops, mul_cp_ops, 2 * cp_mul_ns, mul_cp_ns)
            == spec_estimate(cp_mul_ops, mul_cp_ops, cp_mul_ns, mul_cp_ns) + cp_mul_ops * cp_mul_ns,
        spec_estimate(cp_mul_ops, mul_cp_ops, cp_mul_ns, 2 * mul_cp_ns)
            == spec_estimate(cp_mul_ops, mul_cp_ops, cp_mul_ns, mul_cp_ns) + mul_cp_ops * mul_cp_ns,
{
    assert(cp_mul_ops * (2 * cp_mul_ns) == cp_mul_ops * cp_mul_ns + cp_mul_ops * cp_mul_ns)
        by (nonlinear_arith);
    assert(mul_cp_ops * (2 * mul_cp_ns) == mul_cp_ops * mul_cp_ns + mul_cp_ops * mul_cp_ns)
        by (nonlinear_arith);
}

/// The model's `cp_mul` total for a complete tree — one comparison per
/// internal node plus one conditional assignment per leaf — is exactly
/// one operation per node of the tree, matching the per-node comparison
/// count of the oblivious evaluator.
pub proof fn lemma_tree_counts_closed_form(depth: nat)
    requires
        1 <= depth,
    ensures
        spec_internal_nodes(depth) + spec_leaf_nodes(depth) == pow2(depth) - 1,
{
    lemma_pow2_unfold(depth);
    lemma_pow2_pos((depth - 1) as nat);
}

/// 2^e, computed executably.
pub fn pow2_usize(e: usize) -> (r: usize)
    requires
        pow2(e as nat) <= usize::MAX,
    ensures
        r == pow2(e as nat),
{
    proof {
        lemma2_to64();
    }
    let mut p: usize = 1;
    let mut i: usize = 0;
    while i < e
        invariant
            i <= e,
            p == pow2(i as nat),
            pow2(e as nat) <= usize::MAX,
        decreases e - i,
    {
        proof {
            lemma_pow2_adds(i as nat, 1);
            lemma2_to64();
            if i + 1 < e {
                lemma_pow2_strictly_increases((i + 1) as nat, e as nat);
            }
        }
        p = p * 2;
        i = i + 1;
    }
    p
}

/// Operation counts for one oblivious decision-tree evaluation over a
/// complete binary tree of a given depth.
#[derive(Debug, Clone)]
pub struct DecisionTreeComplexity {
    pub algorithm_name: String,
    pub tree_depth: usize,
    pub total_nodes: usize,
    pub comparison_count: usize,
    pub conditional_assignment_count: usize,
    pub total_cp_mul_operations: usize,
    pub total_mul_cp_operations: usize,
}

impl DecisionTreeComplexity {
    /// Projected total latency in nanoseconds from measured unit times.
    pub fn estimate_time(&self, cp_mul_time_ns: u64, mul_cp_time_ns: u64) -> (t: u64)
        requires
            spec_estimate(
                self.total_cp_mul_operations as nat,
                self.total_mul_cp_operations as nat,
                cp_mul_time_ns as nat,
                mul_cp_time_ns as nat,
            ) <= u64::MAX,
        ensures
            t == spec_estimate(
                self.total_cp_mul_operations as nat,
                self.total_mul_cp_operations as nat,
                cp_mul_time_ns as nat,
                mul_cp_time_ns as nat,
            ),
    {
        (self.total_cp_mul_operations as u64) * cp_mul_time_ns
            + (self.total_mul_cp_operations as u64) * mul_cp_time_ns
    }
}

/// Closed-form operation counts for evaluating a complete binary decision
/// tree of the given depth: one comparison per internal node, one
/// conditional assignment per leaf; every comparison result is also used
/// once for path weighting.
pub fn analyze_decision_tree(tree_depth: usize) -> (r: DecisionTreeComplexity)
    requires
        pow2(tree_depth as nat) <= usize::MAX,
    ensures
        r.tree_depth == tree_depth,
        r.total_nodes == pow2(tree_depth as nat) - 1,
        r.comparison_count == spec_internal_nodes(tree_depth as nat),
        r.conditional_assignment_count == spec_leaf_nodes(tree_depth as nat),
        r.total_cp_mul_operations == spec_internal_nodes(tree_depth as nat) + spec_leaf_nodes(tree_depth as nat),
        r.total_mul_cp_operations == spec_internal_nodes(tree_depth as nat),
        r.algorithm_name@ == "Decision Tree Evaluation"@,
{
    proof {
        lemma_pow2_pos(tree_depth as nat);
        if tree_depth > 0 {
            lemma_pow2_pos((tree_depth - 1) as nat);
            lemma_pow2_strictly_increases((tree_depth - 1) as nat, tree_depth as nat);
            lemma_pow2_unfold(tree_depth as nat);
        }
    }
    let total_nodes = pow2_usize(tree_depth) - 1;
    let comparison_count = if tree_depth > 0 {
        pow2_usize(tree_depth - 1) - 1
    } else {
        0
    };
    let conditional_assignment_count = if tree_depth > 0 {
        pow2_usize(tree_depth - 1)
    } else {
        1
    };
    DecisionTreeComplexity {
        algorithm_name: "Decision Tree Evaluation".to_owned(),
        tree_depth,
        total_nodes,
        comparison_count,
        conditional_assignment_count,
        total_cp_mul_operations: comparison_count + conditional_assignment_count,
        total_mul_cp_operations: comparison_count,
    }
}

/// Operation counts for one all-pairs shortest-path relaxation over an
/// encrypted distance matrix with a given node count.
#[derive(Debug, Clone)]
pub struct FloydWarshallComplexity {
    pub algorithm_name: String,
    pub node_count: usize,
    pub comparison_count: usize,
    pub addition_count: usize,
    pub total_cp_mul_operations: usize,
    pub total_mul_cp_operations: usize,
}

impl FloydWarshallComplexity {
    /// Projected total latency in nanoseconds from measured unit times.
    pub fn estimate_time(&self, cp_mul_time_ns: u64, mul_cp_time_ns: u64) -> (t: u64)
        requires
            spec_estimate(
                self.total_cp_mul_operations as nat,
                self.total_mul_cp_operations as nat,
                cp_mul_time_ns as nat,
                mul_cp_time_ns as nat,
            ) <= u64::MAX,
        ensures
            t == spec_estimate(
                self.total_cp_mul_operations as nat,
                self.total_mul_cp_operations as nat,
                cp_mul_time_ns as nat,
                mul_cp_time_ns as nat,
            ),
    {
        (self.total_cp_mul_operations as u64) * cp_mul_time_ns
            + (self.total_mul_cp_operations as u64) * mul_cp_time_ns
    }
}

/// Closed-form operation counts for the relaxation: the triple loop always
/// runs n^3 steps, each with one addition (`mul_cp`), one comparison and
/// one conditional update (`cp_mul` each).
pub fn analyze_floyd_warshall(n: usize) -> (r: FloydWarshallComplexity)
    requires
        2 * n * n * n <= usize::MAX,
    ensures
        r.node_count == n,
        r.comparison_count == n * n * n,
        r.addition_count == n * n * n,
        r.total_cp_mul_operations == 2 * n * n * n,
        r.total_mul_cp_operations == n * n * n,
        r.algorithm_name@ == "Floyd-Warshall"@,
{
    proof {
        assert(2 * n * n * n == 2 * (n * n * n)) by (nonlinear_arith);
        assert(n * n <= 2 * n * n * n || n == 0) by (nonlinear_arith);
        assert(n * n * n <= 2 * n * n * n) by (nonlinear_arith);
    }
    let total_iterations = n * n * n;
    FloydWarshallComplexity {
        algorithm_name: "Floyd-Warshall".to_owned(),
        node_count: n,
        comparison_count: total_iterations,
        addition_count: total_iterations,
        total_cp_mul_operations: 2 * total_iterations,
        total_mul_cp_operations: total_iterations,
    }
}

/// Operation counts for one oblivious bubble sort of a given array length.
#[derive(Debug, Clone)]
pub struct SortingComplexity {
    pub algorithm_name: String,
    pub array_size: usize,
    pub comparison_count: usize,
    pub swap_count: usize,
    pub total_cp_mul_operations: usize,
}

impl SortingComplexity {
    /// Projected total latency in nanoseconds: the sort issues only
    /// `cp_mul`-class operations.
    pub fn estimate_time(&self, cp_mul_time_ns: u64) -> (t: u64)
        requires
            self.total_cp_mul_operations * cp_mul_time_ns <= u64::MAX,
        ensures
            t == self.total_cp_mul_operations * cp_mul_time_ns,
    {
        (self.total_cp_mul_operations as u64) * cp_mul_time_ns
    }
}

/// Closed-form operation counts for the oblivious bubble sort: n(n-1)/2
/// comparisons, each pessimistically paired with a swap of two conditional
/// assignments.
pub fn analyze_bubble_sort(n: usize) -> (r: SortingComplexity)
    requires
        3 * (n * (n - 1) / 2) <= usize::MAX,
    ensures
        r.array_size == n,
        r.comparison_count == n * (n - 1) / 2,
        r.swap_count == n * (n - 1) / 2,
        r.total_cp_mul_operations == 3 * (n * (n - 1) / 2),
        r.algorithm_name@ == "Bubble Sort"@,
{
    let comparison_count = if n == 0 {
        0
    } else {
        proof {
            assert(n * (n - 1) <= n * (n - 1) / 2 * 3 || n == 0) by (nonlinear_arith);
        }
        n * (n - 1) / 2
    };
    SortingComplexity {
        algorithm_name: "Bubble Sort".to_owned(),
        array_size: n,
        comparison_count,
        swap_count: comparison_count,
        total_cp_mul_operations: comparison_count + comparison_count * 2,
    }
}

/// Operation counts for the predicate-filtered aggregation over a given
/// number of rows.
#[derive(Debug, Clone)]
pub struct DatabaseAggregationComplexity {
    pub algorithm_name: String,
    pub num_rows: usize,
    pub comparison_count: usize,
    pub multiplication_count: usize,
    pub total_cp_mul_operations: usize,
    pub total_mul_cp_operations: usize,
}

impl DatabaseAggregationComplexity {
    /// Projected total latency in nanoseconds from measured unit times.
    pub fn estimate_time(&self, cp_mul_time_ns: u64, mul_cp_time_ns: u64) -> (t: u64)
        requires
            spec_estimate(
                self.total_cp_mul_operations as nat,
                self.total_mul_cp_operations as nat,
                cp_mul_time_ns as nat,
                mul_cp_time_ns as nat,
            ) <= u64::MAX,
        ensures
            t == spec_estimate(
                self.total_cp_mul_operations as nat,
                self.total_mul_cp_operations as nat,
                cp_mul_time_ns as nat,
                mul_cp_time_ns as nat,
            ),
    {
        (self.total_cp_mul_operations as u64) * cp_mul_time_ns
            + (self.total_mul_cp_operations as u64) * mul_cp_time_ns
    }
}

/// Closed-form operation counts for the predicate filter: per row, four
/// comparisons (two per range check) and four multiplies (the field
/// product, the field sum, and two boolean conjunctions).
pub fn analyze_database_aggregation(num_rows: usize) -> (r: DatabaseAggregationComplexity)
    requires
        4 * num_rows <= usize::MAX,
    ensures
        r.num_rows == num_rows,
        r.comparison_count == 4 * num_rows,
        r.multiplication_count == 4 * num_rows,
        r.total_cp_mul_operations == 4 * num_rows,
        r.total_mul_cp_operations == 4 * num_rows,
        r.algorithm_name@ == "Private Database Aggregation"@,
{
    DatabaseAggregationComplexity {
        algorithm_name: "Private Database Aggregation".to_owned(),
        num_rows,
        comparison_count: 4 * num_rows,
        multiplication_count: 4 * num_rows,
        total_cp_mul_operations: 4 * num_rows,
        total_mul_cp_operations: 4 * num_rows,
    }
}

} // verus!

//! Oblivious decision-tree evaluation.
//!
//! The tree shape is public; only the feature values are encrypted.  The
//! evaluator therefore traverses the whole tree unconditionally: at every
//! internal node it compares the addressed feature against the encrypted
//! threshold, evaluates both children, and combines them with an oblivious
//! selection.  Skipping a subtree would reveal which branch the encrypted
//! comparison took, so the dual-branch recursion is a correctness
//! requirement, not an inefficiency.

use vstd::prelude::*;
use vstd::arithmetic::power2::*;
use crate::fhe::{EncVal, FheContext};
use crate::oblivious::{enc_seq_wf, op_lt, op_select, plains_of, OperationCount};

verus! {

/// A public binary decision-tree node: a feature index and threshold, and
/// on each side either a class label (when that side is a leaf) or a child
/// node.
pub struct TreeNode {
    pub feature_idx: usize,
    pub threshold: u16,
    pub left_class: u8,
    pub right_class: u8,
    pub is_leaf_left: bool,
    pub is_leaf_right: bool,
    pub left_child: Option<Box<TreeNode>>,
    pub right_child: Option<Box<TreeNode>>,
}

/// Structural well-formedness against a feature count: every feature index
/// is in range and every non-leaf side has a child.
pub open spec fn tree_wf(node: TreeNode, num_features: nat) -> bool
    decreases node,
{
    &&& node.feature_idx < num_features
    &&& (!node.is_leaf_left ==> match node.left_child {
        Some(c) => tree_wf(*c, num_features),
        None => false,
    })
    &&& (!node.is_leaf_right ==> match node.right_child {
        Some(c) => tree_wf(*c, num_features),
        None => false,
    })
}

/// The smaller of two naturals.
pub open spec fn nat_min(a: nat, b: nat) -> nat {
    if a <= b {
        a
    } else {
        b
    }
}

/// Plaintext tree evaluation: descend left exactly when the addressed
/// feature is strictly below the threshold.  A side without a child is
/// treated as a leaf.
pub open spec fn spec_eval_plain(features: Seq<nat>, node: TreeNode) -> nat
    decreases node,
{
    if features[node.feature_idx as int] < node.threshold {
        match node.left_child {
            Some(c) => if node.is_leaf_left {
                node.left_class as nat
            } else {
                spec_eval_plain(features, *c)
            },
            None => node.left_class as nat,
        }
    } else {
        match node.right_child {
            Some(c) => if node.is_leaf_right {
                node.right_class as nat
            } else {
                spec_eval_plain(features, *c)
            },
            None => node.right_class as nat,
        }
    }
}

/// Tree evaluation as performed at a bounded width: thresholds and class
/// labels are clamped to the cap before use, matching the caller-side
/// clamping policy applied before encryption.
pub open spec fn spec_eval_capped(features: Seq<nat>, node: TreeNode, cap: nat) -> nat
    decreases node,
{
    if features[node.feature_idx as int] < nat_min(node.threshold as nat, cap) {
        match node.left_child {
            Some(c) => if node.is_leaf_left {
                nat_min(node.left_class as nat, cap)
            } else {
                spec_eval_capped(features, *c, cap)
            },
            None => nat_min(node.left_class as nat, cap),
        }
    } else {
        match node.right_child {
            Some(c) => if node.is_leaf_right {
                nat_min(node.right_class as nat, cap)
            } else {
                spec_eval_capped(features, *c, cap)
            },
            None => nat_min(node.right_class as nat, cap),
        }
    }
}

/// Whether every threshold and class label of the tree already fits under
/// the cap, so that clamping changes nothing.
pub open spec fn tree_fits(node: TreeNode, cap: nat) -> bool
    decreases node,
{
    &&& node.threshold as nat <= cap
    &&& node.left_class as nat <= cap
    &&& node.right_class as nat <= cap
    &&& (match node.left_child {
        Some(c) => tree_fits(*c, cap),
        None => true,
    })
    &&& (match node.right_child {
        Some(c) => tree_fits(*c, cap),
        None => true,
    })
}

/// Evaluating at a width whose cap the whole tree fits under agrees with
/// the plaintext evaluation: the clamping applied before encryption is
/// invisible as long as thresholds and labels are representable.
pub proof fn lemma_eval_capped_matches_plain(features: Seq<nat>, node: TreeNode, cap: nat)
    requires
        tree_fits(node, cap),
    ensures
        spec_eval_capped(features, node, cap) == spec_eval_plain(features, node),
    decreases node,
{
    match node.left_child {
        Some(c) => lemma_eval_capped_matches_plain(features, *c, cap),
        None => {},
    }
    match node.right_child {
        Some(c) => lemma_eval_capped_matches_plain(features, *c, cap),
        None => {},
    }
}

/// Comparisons issued when a tree is evaluated obliviously: one per node
/// reached, and both children are always reached.
pub open spec fn tree_cp_ops(node: TreeNode) -> nat
    decreases node,
{
    let from_left: nat = match node.left_child {
        Some(c) => if node.is_leaf_left {
            0
        } else {
            tree_cp_ops(*c)
        },
        None => 0,
    };
    let from_right: nat = match node.right_child {
        Some(c) => if node.is_leaf_right {
            0
        } else {
            tree_cp_ops(*c)
        },
        None => 0,
    };
    1 + from_left + from_right
}

/// Ciphertext multiplies issued when a tree is evaluated obliviously: two
/// per node reached (one per selection term).
pub open spec fn tree_mul_ops(node: TreeNode) -> nat
    decreases node,
{
    let from_left: nat = match node.left_child {
        Some(c) => if node.is_leaf_left {
            0
        } else {
            tree_mul_ops(*c)
        },
        None => 0,
    };
    let from_right: nat = match node.right_child {
        Some(c) => if node.is_leaf_right {
            0
        } else {
            tree_mul_ops(*c)
        },
        None => 0,
    };
    2 + from_left + from_right
}

/// Depth of the tree: a node whose both sides are leaves has depth 1.
pub open spec fn spec_depth(node: TreeNode) -> nat
    decreases node,
{
    let dl: nat = match node.left_child {
        Some(c) => if node.is_leaf_left {
            0
        } else {
            spec_depth(*c)
        },
        None => 0,
    };
    let dr: nat = match node.right_child {
        Some(c) => if node.is_leaf_right {
            0
        } else {
            spec_depth(*c)
        },
        None => 0,
    };
    1 + (if dl >= dr {
        dl
    } else {
        dr
    })
}

/// Plaintext decision-tree evaluation, the correctness oracle for the
/// encrypted evaluator.
pub fn evaluate_tree_plain(features: &Vec<u16>, tree: &TreeNode) -> (r: u8)
    requires
        tree_wf(*tree, features@.len() as nat),
    ensures
        r as nat == spec_eval_plain(features@.map_values(|x: u16| x as nat), *tree),
    decreases *tree,
{
    let feature_val = features[tree.feature_idx];
    if feature_val < tree.threshold {
        if tree.is_leaf_left {
            tree.left_class
        } else {
            match &tree.left_child {
                Some(c) => evaluate_tree_plain(features, c),
                None => tree.left_class,
            }
        }
    } else {
        if tree.is_leaf_right {
            tree.right_class
        } else {
            match &tree.right_child {
                Some(c) => evaluate_tree_plain(features, c),
                None => tree.right_class,
            }
        }
    }
}

/// Oblivious tree evaluation over encrypted features, at any supported
/// width.  The encrypted result decrypts to the capped evaluation of the
/// tree, and the operation counts added to `ops` depend on the tree shape
/// alone, never on the encrypted feature values.
pub fn evaluate_node_enc<E: EncVal>(
    features: &Vec<E>,
    node: &TreeNode,
    ctx: &FheContext,
    ops: &mut OperationCount,
) -> (r: E)
    requires
        ctx.holds_server_key(),
        tree_wf(*node, features@.len() as nat),
        enc_seq_wf(features@, ctx.id()),
        old(ops).cp_mul_count + tree_cp_ops(*node) <= u64::MAX,
        old(ops).mul_cp_count + tree_mul_ops(*node) <= u64::MAX,
    ensures
        r.plain() == spec_eval_capped(plains_of(features@), *node, (pow2(E::width()) - 1) as nat),
        r.plain() < pow2(E::width()),
        r.ctx_id() == ctx.id(),
        final(ops).cp_mul_count == old(ops).cp_mul_count + tree_cp_ops(*node),
        final(ops).mul_cp_count == old(ops).mul_cp_count + tree_mul_ops(*node),
    decreases *node,
{
    proof {
        E::lemma_width();
        lemma_pow2_pos(E::width());
        lemma_pow2_strictly_increases(0, E::width());
        lemma2_to64();
    }
    let feature_val = &features[node.feature_idx];
    let maxv = E::max_value();
    let thr32: u32 = node.threshold as u32;
    let thr_clamped: u32 = if thr32 > maxv {
        maxv
    } else {
        thr32
    };
    let threshold_enc = E::encrypt(thr_clamped, ctx);
    let go_left = op_lt(feature_val, &threshold_enc, ctx, ops);
    let one = E::encrypt(1, ctx);
    let left_result: E = if node.is_leaf_left {
        let c32: u32 = node.left_class as u32;
        E::encrypt(if c32 > maxv { maxv } else { c32 }, ctx)
    } else {
        match &node.left_child {
            Some(c) => evaluate_node_enc(features, c, ctx, ops),
            None => unreached(),
        }
    };
    let right_result: E = if node.is_leaf_right {
        let c32: u32 = node.right_class as u32;
        E::encrypt(if c32 > maxv { maxv } else { c32 }, ctx)
    } else {
        match &node.right_child {
            Some(c) => evaluate_node_enc(features, c, ctx, ops),
            None => unreached(),
        }
    };
    op_select(&go_left, &left_result, &right_result, &one, ctx, ops)
}


/// The left subtree of the sample tree: a depth-1 classifier on feature 1
/// with threshold 30.
pub open spec fn sample_left_subtree() -> TreeNode {
    TreeNode {
        feature_idx: 1,
        threshold: 30,
        left_class: 0,
        right_class: 1,
        is_leaf_left: true,
        is_leaf_right: true,
        left_child: None,
        right_child: None,
    }
}

/// The right subtree of the sample tree: a depth-1 classifier on feature 1
/// with threshold 70.
pub open spec fn sample_right_subtree() -> TreeNode {
    TreeNode {
        feature_idx: 1,
        threshold: 70,
        left_class: 1,
        right_class: 0,
        is_leaf_left: true,
        is_leaf_right: true,
        left_child: None,
        right_child: None,
    }
}

/// Build the sample binary classifier: feature 0 against 50 at the root,
/// then feature 1 against 30 on the left and against 70 on the right.
pub fn create_sample_tree() -> (r: TreeNode)
    ensures
        r.feature_idx == 0,
        r.threshold == 50,
        r.left_class == 0,
        r.right_class == 0,
        !r.is_leaf_left,
        !r.is_leaf_right,
        r.left_child is Some,
        *r.left_child->Some_0 == sample_left_subtree(),
        r.right_child is Some,
        *r.right_child->Some_0 == sample_right_subtree(),
{
    TreeNode {
        feature_idx: 0,
        threshold: 50,
        left_class: 0,
        right_class: 0,
        is_leaf_left: false,
        is_leaf_right: false,
        left_child: Some(Box::new(TreeNode {
            feature_idx: 1,
            threshold: 30,
            left_class: 0,
            right_class: 1,
            is_leaf_left: true,
            is_leaf_right: true,
            left_child: None,
            right_child: None,
        })),
        right_child: Some(Box::new(TreeNode {
            feature_idx: 1,
            threshold: 70,
            left_class: 1,
            right_class: 0,
            is_leaf_left: true,
            is_leaf_right: true,
            left_child: None,
            right_child: None,
        })),
    }
}

/// Build a complete tree of the given depth whose every node compares
/// feature 0 against 50; the deepest level classifies into 0 and 1.
pub fn create_tree_with_depth(depth: usize) -> (r: TreeNode)
    requires
        1 <= depth,
    ensures
        spec_depth(r) == depth,
        tree_wf(r, 1),
        tree_fits(r, 255),
        tree_cp_ops(r) == pow2(depth as nat) - 1,
        tree_mul_ops(r) == 2 * (pow2(depth as nat) - 1),
    decreases depth,
{
    proof {
        lemma_pow2_pos(depth as nat);
        lemma2_to64();
        if depth > 1 {
            lemma_pow2_unfold(depth as nat);
        }
    }
    if depth == 1 {
        TreeNode {
            feature_idx: 0,
            threshold: 50,
            left_class: 0,
            right_class: 1,
            is_leaf_left: true,
            is_leaf_right: true,
            left_child: None,
            right_child: None,
        }
    } else {
        let left = create_tree_with_depth(depth - 1);
        let right = create_tree_with_depth(depth - 1);
        TreeNode {
            feature_idx: 0,
            threshold: 50,
            left_class: 0,
            right_class: 0,
            is_leaf_left: false,
            is_leaf_right: false,
            left_child: Some(Box::new(left)),
            right_child: Some(Box::new(right)),
        }
    }
}

/// Depth of a tree, computed as the evaluator sees it: each side without a
/// child contributes nothing.
pub fn tree_depth(node: &TreeNode) -> (r: usize)
    requires
        spec_depth(*node) <= usize::MAX,
    ensures
        r == spec_depth(*node),
    decreases *node,
{
    let left_depth: usize = if node.is_leaf_left {
        0
    } else {
        match &node.left_child {
            Some(c) => tree_depth(c),
            None => 0,
        }
    };
    let right_depth: usize = if node.is_leaf_right {
        0
    } else {
        match &node.right_child {
            Some(c) => tree_depth(c),
            None => 0,
        }
    };
    let deeper = if left_depth >= right_depth {
        left_depth
    } else {
        right_depth
    };
    1 + deeper
}

} // verus!

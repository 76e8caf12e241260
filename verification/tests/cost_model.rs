use oblivious_fhe::cost::{
    analyze_bubble_sort, analyze_database_aggregation, analyze_decision_tree,
    analyze_floyd_warshall,
};

#[test]
fn test_analyze_decision_tree_depth_four() {
    let c = analyze_decision_tree(4);
    assert_eq!(c.tree_depth, 4);
    assert_eq!(c.total_nodes, 15);
    assert_eq!(c.comparison_count, 7);
    assert_eq!(c.conditional_assignment_count, 8);
    assert_eq!(c.total_cp_mul_operations, 15);
    assert_eq!(c.total_mul_cp_operations, 7);
    assert_eq!(c.algorithm_name, "Decision Tree Evaluation");
}

#[test]
fn test_analyze_decision_tree_edge_depths() {
    let c0 = analyze_decision_tree(0);
    assert_eq!(c0.total_nodes, 0);
    assert_eq!(c0.total_cp_mul_operations, 1);
    assert_eq!(c0.total_mul_cp_operations, 0);
    let c1 = analyze_decision_tree(1);
    assert_eq!(c1.total_nodes, 1);
    assert_eq!(c1.comparison_count, 0);
    assert_eq!(c1.conditional_assignment_count, 1);
}

#[test]
fn test_estimate_time_is_linear_in_unit_times() {
    let c = analyze_decision_tree(4);
    let base = c.estimate_time(10, 100);
    assert_eq!(base, 15 * 10 + 7 * 100);
    // Doubling one unit time grows the estimate by exactly that term.
    assert_eq!(c.estimate_time(20, 100), base + 15 * 10);
    assert_eq!(c.estimate_time(10, 200), base + 7 * 100);
}

#[test]
fn test_analyze_floyd_warshall_counts() {
    let c = analyze_floyd_warshall(16);
    assert_eq!(c.node_count, 16);
    assert_eq!(c.comparison_count, 4096);
    assert_eq!(c.addition_count, 4096);
    assert_eq!(c.total_cp_mul_operations, 8192);
    assert_eq!(c.total_mul_cp_operations, 4096);
    assert_eq!(c.algorithm_name, "Floyd-Warshall");
    assert_eq!(c.estimate_time(3, 5), 8192 * 3 + 4096 * 5);
}

#[test]
fn test_analyze_bubble_sort_counts() {
    let c = analyze_bubble_sort(8);
    assert_eq!(c.array_size, 8);
    assert_eq!(c.comparison_count, 28);
    assert_eq!(c.swap_count, 28);
    assert_eq!(c.total_cp_mul_operations, 84);
    assert_eq!(c.algorithm_name, "Bubble Sort");
    assert_eq!(c.estimate_time(5), 420);
    let empty = analyze_bubble_sort(0);
    assert_eq!(empty.total_cp_mul_operations, 0);
}

#[test]
fn test_analyze_database_aggregation_counts() {
    let c = analyze_database_aggregation(10);
    assert_eq!(c.num_rows, 10);
    assert_eq!(c.comparison_count, 40);
    assert_eq!(c.multiplication_count, 40);
    assert_eq!(c.total_cp_mul_operations, 40);
    assert_eq!(c.total_mul_cp_operations, 40);
    assert_eq!(c.algorithm_name, "Private Database Aggregation");
    assert_eq!(c.estimate_time(7, 11), 40 * 7 + 40 * 11);
}

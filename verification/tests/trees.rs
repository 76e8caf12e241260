use oblivious_fhe::tree::{create_sample_tree, create_tree_with_depth, evaluate_tree_plain, tree_depth};

#[test]
fn test_plaintext_tree() {
    let tree = create_sample_tree();

    // Test case 1: feature[0]=20, feature[1]=10 -> class 0
    let features = vec![20, 10];
    assert_eq!(evaluate_tree_plain(&features, &tree), 0);

    // Test case 2: feature[0]=20, feature[1]=40 -> class 1
    let features = vec![20, 40];
    assert_eq!(evaluate_tree_plain(&features, &tree), 1);

    // Test case 3: feature[0]=60, feature[1]=50 -> class 1
    let features = vec![60, 50];
    assert_eq!(evaluate_tree_plain(&features, &tree), 1);

    // Test case 4: feature[0]=60, feature[1]=80 -> class 0
    let features = vec![60, 80];
    assert_eq!(evaluate_tree_plain(&features, &tree), 0);
}

#[test]
fn test_tree_depth_of_sample_tree() {
    let tree = create_sample_tree();
    assert_eq!(tree_depth(&tree), 2);
}

#[test]
fn test_create_tree_with_depth() {
    for d in 1..5usize {
        let tree = create_tree_with_depth(d);
        assert_eq!(tree_depth(&tree), d);
    }
    // The deepest level classifies by the single feature against 50.
    let tree = create_tree_with_depth(3);
    let features = vec![10];
    assert_eq!(evaluate_tree_plain(&features, &tree), 0);
    let features = vec![90];
    assert_eq!(evaluate_tree_plain(&features, &tree), 1);
}

#[test]
fn test_boundary_feature_goes_right() {
    // A feature equal to the threshold is not strictly below it.
    let tree = create_sample_tree();
    let features = vec![50, 70];
    assert_eq!(evaluate_tree_plain(&features, &tree), 0);
    let features = vec![50, 69];
    assert_eq!(evaluate_tree_plain(&features, &tree), 1);
}

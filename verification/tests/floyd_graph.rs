use oblivious_fhe::floyd::{create_sample_graph, floyd_warshall_plaintext};

#[test]
fn test_plaintext_floyd() {
    let n = 4;
    let dist = create_sample_graph(n);

    println!("Initial distance matrix:");
    for row in &dist {
        println!("{:?}", row);
    }

    let result = floyd_warshall_plaintext(dist, n);

    println!("After Floyd-Warshall:");
    for row in &result {
        println!("{:?}", row);
    }

    // Verify some properties
    assert_eq!(result[0][0], 0); // Distance to self
    assert!(result[0][3] <= 3); // Should find shortest path
}

#[test]
fn test_floyd_full_matrix_on_path_graph() {
    let n = 4;
    let dist = create_sample_graph(n);
    let result = floyd_warshall_plaintext(dist, n);
    let expected: Vec<Vec<u16>> = vec![
        vec![0, 1, 2, 3],
        vec![1, 0, 1, 2],
        vec![2, 1, 0, 1],
        vec![3, 2, 1, 0],
    ];
    assert_eq!(result, expected);
}

#[test]
fn test_floyd_saturates_instead_of_wrapping() {
    // Two disconnected islands at the saturation cap: the relaxation must
    // clamp candidate sums at 65535, never wrap them around.
    let dist: Vec<Vec<u16>> = vec![
        vec![0, 65535, 65535],
        vec![65535, 0, 1],
        vec![65535, 1, 0],
    ];
    let result = floyd_warshall_plaintext(dist, 3);
    assert_eq!(result[0][1], 65535);
    assert_eq!(result[0][2], 65535);
    assert_eq!(result[1][2], 1);
}

#[test]
fn test_sample_graph_shape() {
    let g = create_sample_graph(6);
    assert_eq!(g.len(), 6);
    assert_eq!(g[0][0], 0);
    assert_eq!(g[0][1], 1);
    assert_eq!(g[1][0], 1);
    assert_eq!(g[0][2], 3);
    assert_eq!(g[2][0], 3);
    assert_eq!(g[1][4], 5);
    assert_eq!(g[4][1], 5);
    assert_eq!(g[0][3], 99);
    // Small graphs have no shortcuts.
    let g3 = create_sample_graph(3);
    assert_eq!(g3[0][2], 99);
}

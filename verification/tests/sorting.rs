use oblivious_fhe::sort::{create_sample_array, sort_plaintext};

#[test]
fn test_plaintext_sort() {
    let arr = vec![5, 2, 8, 1, 9];
    let sorted = sort_plaintext(arr);
    assert_eq!(sorted, vec![1, 2, 5, 8, 9]);
}

#[test]
fn test_sort_empty_and_tiny() {
    let empty: Vec<u16> = Vec::new();
    assert_eq!(sort_plaintext(empty), Vec::<u16>::new());
    assert_eq!(sort_plaintext(vec![7]), vec![7]);
    assert_eq!(sort_plaintext(vec![2, 1]), vec![1, 2]);
    assert_eq!(sort_plaintext(vec![1, 2]), vec![1, 2]);
}

#[test]
fn test_sort_reverse_sorted_arrays() {
    for &n in &[5usize, 8, 16] {
        let arr = create_sample_array(n);
        // The sample array counts down from n-1.
        assert_eq!(arr[0], (n - 1) as u16);
        let sorted = sort_plaintext(arr);
        let expected: Vec<u16> = (0..n as u16).collect();
        assert_eq!(sorted, expected);
    }
}

#[test]
fn test_sort_keeps_duplicates() {
    let sorted = sort_plaintext(vec![3, 1, 3, 0, 1]);
    assert_eq!(sorted, vec![0, 1, 1, 3, 3]);
}

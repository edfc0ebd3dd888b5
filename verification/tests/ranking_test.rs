use sbm_core::ranking::top_indices_by_key;

#[test]
fn largest_keys_first() {
    assert_eq!(top_indices_by_key(&vec![3, 9, 1, 7], 2), vec![1, 3]);
    assert_eq!(top_indices_by_key(&vec![3, 9, 1, 7], 4), vec![1, 3, 0, 2]);
}

#[test]
fn equal_keys_keep_their_order() {
    assert_eq!(top_indices_by_key(&vec![5, 8, 5, 8, 5], 5), vec![1, 3, 0, 2, 4]);
    assert_eq!(top_indices_by_key(&vec![4, 4, 4], 2), vec![0, 1]);
}

#[test]
fn asking_for_more_than_there_is_lists_everything() {
    assert_eq!(top_indices_by_key(&vec![2, 6], 10), vec![1, 0]);
    assert!(top_indices_by_key(&vec![], 3).is_empty());
    assert!(top_indices_by_key(&vec![1, 2, 3], 0).is_empty());
}

#[test]
fn shorter_list_is_head_of_longer() {
    let keys = vec![10, 40, 20, 40, 30, 0, 20];
    let long = top_indices_by_key(&keys, 7);
    for n in 0..=7 {
        assert_eq!(top_indices_by_key(&keys, n), long[..n].to_vec());
    }
}

#[test]
fn matches_stable_descending_sort() {
    let keys: Vec<u64> = (0..40u64).map(|i| (i * 7919 + 13) % 11).collect();
    let mut expected: Vec<usize> = (0..keys.len()).collect();
    expected.sort_by(|&a, &b| keys[b].cmp(&keys[a]));
    expected.truncate(15);
    assert_eq!(top_indices_by_key(&keys, 15), expected);
}

use beacon_light_client::constants::{
    FINALIZED_ROOT_INDEX, FINALIZED_ROOT_INDEX_FLOOR_LOG2, NEXT_SYNC_COMMITTEE_INDEX,
    NEXT_SYNC_COMMITTEE_INDEX_FLOOR_LOG2,
};
use beacon_light_client::merkle_proofs::{
    generalized_index_parent, generalized_index_sibling, get_branch, get_branch_indices,
    get_generalized_index_length,
};

#[test]
fn branch_indices_of_next_sync_committee() {
    assert_eq!(get_branch_indices(55), vec![54, 26, 12, 7, 2]);
}

#[test]
fn branch_indices_of_root_and_zero_are_empty() {
    assert_eq!(get_branch_indices(1), Vec::<u64>::new());
    assert_eq!(get_branch_indices(0), Vec::<u64>::new());
    assert_eq!(get_branch_indices(2), vec![3]);
    assert_eq!(get_branch_indices(3), vec![2]);
    assert_eq!(get_branch_indices(105), vec![104, 53, 27, 12, 7, 2]);
}

#[test]
fn index_length_is_floor_log2() {
    assert_eq!(get_generalized_index_length(0), 0);
    assert_eq!(get_generalized_index_length(1), 0);
    assert_eq!(get_generalized_index_length(2), 1);
    assert_eq!(get_generalized_index_length(7), 2);
    assert_eq!(get_generalized_index_length(8), 3);
    assert_eq!(get_generalized_index_length(u64::MAX), 63);
}

#[test]
fn floor_log2_constants_match_their_indices() {
    assert_eq!(
        get_generalized_index_length(NEXT_SYNC_COMMITTEE_INDEX),
        NEXT_SYNC_COMMITTEE_INDEX_FLOOR_LOG2
    );
    assert_eq!(
        get_generalized_index_length(FINALIZED_ROOT_INDEX),
        FINALIZED_ROOT_INDEX_FLOOR_LOG2
    );
}

#[test]
fn branch_length_equals_index_length() {
    for idx in [0u64, 1, 2, 5, 55, 105, 1000, 4096] {
        assert_eq!(
            get_branch_indices(idx).len() as u64,
            get_generalized_index_length(idx)
        );
    }
}

#[test]
fn sibling_and_parent() {
    assert_eq!(generalized_index_sibling(10), 11);
    assert_eq!(generalized_index_sibling(11), 10);
    assert_eq!(generalized_index_sibling(0), 1);
    assert_eq!(generalized_index_sibling(u64::MAX), u64::MAX - 1);
    assert_eq!(generalized_index_parent(10), 5);
    assert_eq!(generalized_index_parent(11), 5);
    assert_eq!(generalized_index_parent(1), 0);
}

#[test]
fn branch_takes_nodes_from_tree() {
    let tree: Vec<Vec<u8>> = (0u8..16).map(|i| vec![i, i]).collect();
    let branch = get_branch(&tree, 13);
    assert_eq!(branch, vec![vec![12, 12], vec![7, 7], vec![2, 2]]);
    assert_eq!(get_branch(&tree, 1), Vec::<Vec<u8>>::new());
}

#[test]
fn sync_committee_branch_has_floor_log2_nodes() {
    let tree: Vec<Vec<u8>> = (0u8..64).map(|i| vec![i]).collect();
    let branch = get_branch(&tree, NEXT_SYNC_COMMITTEE_INDEX);
    assert_eq!(branch.len() as u64, NEXT_SYNC_COMMITTEE_INDEX_FLOOR_LOG2);
}

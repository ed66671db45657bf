use beacon_light_client::expand_vecs::expand_eth1_data_votes;
use beacon_light_client::keys::{
    BALANCES, CURRENT_EPOCH_PARTICIPATION, ETH1_DATA_VOTES, FIXED_PARTS, FORK, GENESIS_TIME,
    HISTORICAL_ROOTS, INACTIVITY_SCORES, JUSTIFICATION_BITS, LATEST_BLOCK_HEADER,
    PREVIOUS_EPOCH_PARTICIPATION, TOTAL_LENGTH, VALIDATORS,
};
use beacon_light_client::merkleize::{
    chunks_readable, generate_chunks, merkle_tree, remove_cap_from_justification_bits,
    try_generate_chunks,
};
use beacon_light_client::pipeline::update_branches;
use sha2::{Digest, Sha256};
use beacon_light_client::serialize::{
    length_cap_to_justification_bits, serialize_beacon_state, try_serialize_beacon_state,
    SszBeaconState,
};
use beacon_light_client::serialize_and_merkleize;
use beacon_light_client::types::Eth1Data;

fn vote() -> Eth1Data {
    Eth1Data { deposit_root: vec![0x11; 32], deposit_count: 0x0102, block_hash: vec![0x22; 32] }
}

fn vote_bytes() -> Vec<u8> {
    let mut v = vec![0x11; 32];
    v.extend_from_slice(&[0x02, 0x01, 0, 0, 0, 0, 0, 0]);
    v.extend_from_slice(&[0x22; 32]);
    v
}

/// Every fixed-size field one byte (numbered from 1), the justification
/// bits [0x01], and small variable-size fields.
fn small_state() -> SszBeaconState {
    SszBeaconState {
        genesis_time: vec![1],
        genesis_validators_root: vec![2],
        slot: vec![3],
        fork_previous_version: vec![4],
        fork_current_version: vec![5],
        fork_epoch: vec![6],
        header_slot: vec![7],
        header_proposer_index: vec![8],
        header_parent_root: vec![9],
        header_state_root: vec![10],
        header_body_root: vec![11],
        block_roots: vec![12],
        state_roots: vec![13],
        historical_roots: vec![0xa1],
        eth1_deposit_root: vec![14],
        eth1_deposit_count: vec![15],
        eth1_block_hash: vec![16],
        eth1_data_votes: vec![vote()],
        eth1_deposit_index: vec![17],
        validators: vec![0xb1, 0xb2],
        balances: vec![0xc1],
        randao_mixes: vec![18],
        slashings: vec![19],
        previous_epoch_participation: vec![0xd1],
        current_epoch_participation: vec![0xe1, 0xe2],
        justification_bits: vec![0x01],
        previous_justified_epoch: vec![20],
        previous_justified_root: vec![21],
        current_justified_epoch: vec![22],
        current_justified_root: vec![23],
        finalized_epoch: vec![24],
        finalized_root: vec![25],
        inactivity_scores: vec![0xf1],
        current_sync_committee_pubkeys: vec![26],
        current_sync_committee_aggregate_pubkey: vec![27],
        next_sync_committee_pubkeys: vec![28],
        next_sync_committee_aggregate_pubkey: vec![29],
    }
}

fn offset(n: u32) -> Vec<u8> {
    n.to_le_bytes().to_vec()
}

fn variable_part() -> Vec<u8> {
    let mut v = vec![0xa1];
    v.extend(vote_bytes());
    v.extend([0xb1, 0xb2, 0xc1, 0xd1, 0xe1, 0xe2, 0xf1]);
    v
}

#[test]
fn length_cap_adds_a_bit_and_pads_to_four_bytes() {
    assert_eq!(length_cap_to_justification_bits(&vec![0x0f]), vec![0x0f, 0x80, 0, 0]);
    assert_eq!(length_cap_to_justification_bits(&vec![]), vec![0x80, 0, 0, 0]);
    assert_eq!(length_cap_to_justification_bits(&vec![1, 2, 3, 4]), vec![1, 2, 3, 4, 0x80]);
}

#[test]
fn removing_the_cap_gives_the_bits_back() {
    for bits in [vec![0x0f], vec![], vec![1, 2, 3], vec![0x7f], vec![0, 0, 0, 0, 1]] {
        let capped = length_cap_to_justification_bits(&bits);
        let back = remove_cap_from_justification_bits(&capped);
        assert_eq!(&back[..bits.len()], &bits[..]);
        assert!(back[bits.len()..].iter().all(|b| *b == 0));
    }
    assert_eq!(
        remove_cap_from_justification_bits(&length_cap_to_justification_bits(&vec![1, 2, 3, 4])),
        vec![1, 2, 3, 4, 0]
    );
}

#[test]
fn expand_votes_lays_out_root_count_hash() {
    assert_eq!(expand_eth1_data_votes(&vec![vote()]), vote_bytes());
    assert_eq!(expand_eth1_data_votes(&vec![]), Vec::<u8>::new());
    let two = expand_eth1_data_votes(&vec![vote(), vote()]);
    assert_eq!(two.len(), 144);
    assert_eq!(&two[72..], &vote_bytes()[..]);
}

fn expected_ssz() -> Vec<u8> {
    let mut expected: Vec<u8> = (1..=13).collect();
    expected.extend(offset(58));
    expected.extend([14, 15, 16]);
    expected.extend(offset(59));
    expected.extend([17]);
    expected.extend(offset(131));
    expected.extend(offset(133));
    expected.extend([18, 19]);
    expected.extend(offset(134));
    expected.extend(offset(135));
    expected.extend([0x01]);
    expected.extend(20..=25);
    expected.extend(offset(137));
    expected.extend(26..=29);
    assert_eq!(expected.len(), 58);
    expected.extend(variable_part());
    expected
}

#[test]
fn serialize_lays_out_fixed_then_variable_part() {
    let (bytes, sizes, offsets) = serialize_beacon_state(&small_state());
    assert_eq!(bytes, expected_ssz());
    assert_eq!(sizes[&GENESIS_TIME], 1);
    assert_eq!(sizes[&ETH1_DATA_VOTES], 72);
    assert_eq!(sizes[&JUSTIFICATION_BITS], 1);
    assert_eq!(sizes[&CURRENT_EPOCH_PARTICIPATION], 2);
    assert_eq!(sizes[&FORK], 3);
    assert_eq!(sizes[&LATEST_BLOCK_HEADER], 5);
    assert_eq!(sizes[&FIXED_PARTS], 58);
    assert_eq!(sizes[&TOTAL_LENGTH], 138);
    assert_eq!(offsets.len(), 7);
    assert_eq!(offsets[&HISTORICAL_ROOTS], 58);
    assert_eq!(offsets[&ETH1_DATA_VOTES], 59);
    assert_eq!(offsets[&VALIDATORS], 131);
    assert_eq!(offsets[&BALANCES], 133);
    assert_eq!(offsets[&PREVIOUS_EPOCH_PARTICIPATION], 134);
    assert_eq!(offsets[&CURRENT_EPOCH_PARTICIPATION], 135);
    assert_eq!(offsets[&INACTIVITY_SCORES], 137);
}

#[test]
fn both_serializations_agree() {
    let bytes = serialize_and_merkleize::serialize_beacon_state(&small_state());
    assert_eq!(bytes, expected_ssz());
}

#[test]
fn h256_chunks_fill_the_last_leaf_with_zeros() {
    let state: Vec<u8> = (0..40).collect();
    let leaves = serialize_and_merkleize::to_h256_chunks(&state);
    assert_eq!(leaves.len(), 2);
    assert_eq!(leaves[0].to_vec(), (0..32).collect::<Vec<u8>>());
    let mut last = [0u8; 32];
    last[..8].copy_from_slice(&(32..40).collect::<Vec<u8>>());
    assert_eq!(leaves[1], last);
    assert!(serialize_and_merkleize::to_h256_chunks(&vec![]).is_empty());
}

#[test]
fn proof_indices_go_sibling_then_parent() {
    assert_eq!(serialize_and_merkleize::get_branch_indices(5), vec![5, 4, 2, 3, 1]);
    assert_eq!(serialize_and_merkleize::get_branch_indices(1), vec![1]);
    assert_eq!(serialize_and_merkleize::get_branch_indices(6), vec![6, 7, 3, 2, 1]);
}

#[test]
fn tables_describe_the_layout() {
    let (bytes, sizes, offsets) = serialize_beacon_state(&small_state());
    assert_eq!(sizes[&TOTAL_LENGTH], bytes.len());
    let fixed = sizes[&FIXED_PARTS];
    assert_eq!(offsets[&HISTORICAL_ROOTS], fixed);
    let field = |k: u64| &bytes[offsets[&k]..offsets[&k] + sizes[&k]];
    assert_eq!(field(HISTORICAL_ROOTS), &[0xa1]);
    assert_eq!(field(ETH1_DATA_VOTES), &vote_bytes()[..]);
    assert_eq!(field(VALIDATORS), &[0xb1, 0xb2]);
    assert_eq!(field(BALANCES), &[0xc1]);
    assert_eq!(field(PREVIOUS_EPOCH_PARTICIPATION), &[0xd1]);
    assert_eq!(field(CURRENT_EPOCH_PARTICIPATION), &[0xe1, 0xe2]);
    assert_eq!(field(INACTIVITY_SCORES), &[0xf1]);
    assert_eq!(offsets[&INACTIVITY_SCORES] + sizes[&INACTIVITY_SCORES], bytes.len());
}

#[test]
fn checked_serialization_gives_the_same_bytes() {
    let st = small_state();
    let (bytes, _, _) = try_serialize_beacon_state(&st).unwrap();
    assert_eq!(bytes, serialize_beacon_state(&st).0);
}

#[test]
fn checked_second_serialization_refuses_short_votes() {
    let mut st = small_state();
    assert_eq!(
        serialize_and_merkleize::try_serialize_beacon_state(&st).unwrap(),
        serialize_and_merkleize::serialize_beacon_state(&st)
    );
    st.eth1_data_votes[0].block_hash = vec![0x22; 31];
    assert!(serialize_and_merkleize::try_serialize_beacon_state(&st).is_none());
}

#[test]
fn a_serialized_state_can_be_chunked_with_its_tables() {
    let (bytes, sizes, offsets) = serialize_beacon_state(&small_state());
    assert!(chunks_readable(&bytes, &sizes, &offsets));
    let chunks = try_generate_chunks(&bytes, &sizes, &offsets).unwrap();
    assert_eq!(chunks.len(), 768);
    // the validators, read at their offset, with their length mixed in
    let mut length = vec![0u8; 32];
    length[0] = 2;
    let mut leaf = vec![0xb1, 0xb2];
    leaf.resize(32, 0);
    let mut data = leaf.clone();
    data.extend(length);
    assert_eq!(&chunks[11 * 32..12 * 32], &Sha256::digest(&data)[..]);
}

fn fold(leaf: &[u8], index: u64, branch: &[Vec<u8>]) -> Vec<u8> {
    let mut node = leaf.to_vec();
    let mut g = index;
    for sib in branch {
        let mut data = Vec::new();
        if g % 2 == 0 {
            data.extend(&node);
            data.extend(sib);
        } else {
            data.extend(sib);
            data.extend(&node);
        }
        node = Sha256::digest(&data).to_vec();
        g /= 2;
    }
    node
}

fn padded(bytes: &[u8]) -> Vec<u8> {
    let mut v = bytes.to_vec();
    v.resize(32, 0);
    v
}

#[test]
fn update_branches_fold_into_the_state_root() {
    let (b1, b2) = update_branches(&small_state()).unwrap();
    assert_eq!(b1.len(), 5);
    assert_eq!(b2.len(), 6);
    assert!(b1.iter().chain(b2.iter()).all(|n| n.len() == 32));
    let (bytes, sizes, offsets) = serialize_beacon_state(&small_state());
    let tree = merkle_tree(generate_chunks(&bytes, &sizes, &offsets));
    assert_eq!(b1, vec![tree[54].clone(), tree[26].clone(), tree[12].clone(), tree[7].clone(), tree[2].clone()]);
    assert_eq!(fold(&tree[55], 55, &b1), tree[0]);
    // the finality branch: the epoch chunk, then the branch of node 52
    assert_eq!(b2[0], padded(&[24]));
    assert_eq!(
        b2[1..].to_vec(),
        vec![tree[53].clone(), tree[27].clone(), tree[12].clone(), tree[7].clone(), tree[2].clone()]
    );
    assert_eq!(fold(&padded(&[25]), 105, &b2), tree[0]);
    assert_ne!(b1, b2);
}

#[test]
fn update_branches_refuse_a_finalized_root_over_one_chunk() {
    let mut st = small_state();
    st.finalized_root = vec![7; 33];
    assert!(update_branches(&st).is_none());
}


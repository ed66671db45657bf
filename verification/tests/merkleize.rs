use beacon_light_client::chunks::packed_len_checked;
use beacon_light_client::keys::{
    BALANCES, BLOCK_ROOTS, CURRENT_CHECKPOINT_EPOCH, CURRENT_CHECKPOINT_ROOT,
    CURRENT_EPOCH_PARTICIPATION, CURRENT_JUSTIFIED_CHECKPOINT, CURRENT_SYNC_COMMITTEE,
    CURRENT_SYNC_COMMITTEE_AGG_PUBKEY, CURRENT_SYNC_COMMITTEE_PUBKEYS, ETH1_DATA,
    ETH1_DATA_VOTES, ETH1_DEPOSIT_COUNT, ETH1_DEPOSIT_INDEX, ETH1_DEPOSIT_ROOT,
    FINALIZED_CHECKPOINT, FINALIZED_CHECKPOINT_EPOCH, FINALIZED_CHECKPOINT_ROOT, FORK,
    FORK_CURRENT_VERSION, FORK_PREVIOUS_VERSION, GENESIS_TIME, GENESIS_VALIDATORS_ROOT,
    HEADER_BODY_ROOT, HEADER_PARENT_ROOT, HEADER_PROPOSER_INDEX, HEADER_SLOT, HEADER_STATE_ROOT,
    HISTORICAL_ROOTS, INACTIVITY_SCORES, JUSTIFICATION_BITS, LATEST_BLOCK_HEADER,
    NEXT_SYNC_COMMITTEE, NEXT_SYNC_COMMITTEE_AGG_PUBKEY, NEXT_SYNC_COMMITTEE_PUBKEYS,
    PREVIOUS_CHECKPOINT_EPOCH, PREVIOUS_CHECKPOINT_ROOT, PREVIOUS_EPOCH_PARTICIPATION,
    PREVIOUS_JUSTIFIED_CHECKPOINT, RANDAO_MIXES, SLASHINGS, SLOT, STATE_ROOTS, VALIDATORS,
};
use beacon_light_client::merkleize::{
    chunks_readable, generate_chunks, get_var_bytes, try_generate_chunks, hash_tree_root, hash_tree_root_container, merkle_tree,
    mix_in_length_data, pack, pad_chunks_to_power2, pad_to_32, pad_to_multiple_of_32,
    remove_cap_from_justification_bits,
};
use sha2::{Digest, Sha256};
use std::collections::HashMap;

fn sha(data: &[u8]) -> Vec<u8> {
    Sha256::digest(data).to_vec()
}

fn concat(a: &[u8], b: &[u8]) -> Vec<u8> {
    let mut v = a.to_vec();
    v.extend_from_slice(b);
    v
}

fn chunk(fill: u8) -> Vec<u8> {
    vec![fill; 32]
}

#[test]
fn pad_to_32_fills_with_zeros() {
    let padded = pad_to_32(&[1, 2, 3, 4, 5]);
    assert_eq!(padded.len(), 32);
    assert_eq!(&padded[..5], &[1, 2, 3, 4, 5]);
    assert!(padded[5..].iter().all(|b| *b == 0));
    assert_eq!(pad_to_32(&[]), vec![0u8; 32]);
    assert_eq!(pad_to_32(&chunk(7)), chunk(7));
}

#[test]
fn pad_to_multiple_of_32_rounds_up() {
    let v: Vec<u8> = (1..=33).collect();
    let padded = pad_to_multiple_of_32(&v);
    assert_eq!(padded.len(), 64);
    assert_eq!(&padded[..33], &v[..]);
    assert!(padded[33..].iter().all(|b| *b == 0));
    assert_eq!(pad_to_multiple_of_32(&chunk(3)), chunk(3));
    assert_eq!(pad_to_multiple_of_32(&[]), Vec::<u8>::new());
}

#[test]
fn pad_chunks_to_power2_adds_zero_chunks() {
    let three = [chunk(1), chunk(2), chunk(3)].concat();
    let padded = pad_chunks_to_power2(&three);
    assert_eq!(padded.len(), 128);
    assert_eq!(&padded[..96], &three[..]);
    assert!(padded[96..].iter().all(|b| *b == 0));
    let two = [chunk(1), chunk(2)].concat();
    assert_eq!(pad_chunks_to_power2(&two), two);
}

#[test]
fn pack_lengths() {
    assert_eq!(pack(vec![]), vec![0u8; 32]);
    assert_eq!(pack(vec![9; 5]).len(), 32);
    assert_eq!(pack(chunk(4)), chunk(4));
    assert_eq!(pack(vec![1; 33]).len(), 64);
    assert_eq!(pack(vec![1; 64]), vec![1; 64]);
    assert_eq!(pack(vec![1; 96]).len(), 128);
    let packed = pack(vec![2; 100]);
    assert_eq!(packed.len(), 128);
    assert_eq!(&packed[..100], &[2u8; 100][..]);
    assert!(packed[100..].iter().all(|b| *b == 0));
    assert_eq!(pack(vec![1; 160]).len(), 256);
}

#[test]
fn packing_twice_changes_nothing() {
    for n in [0usize, 1, 31, 32, 33, 64, 65, 100, 200] {
        let once = pack(vec![5; n]);
        let twice = pack(once.clone());
        assert_eq!(once, twice);
    }
}

#[test]
fn hash_tree_root_of_one_chunk_is_the_chunk() {
    assert_eq!(hash_tree_root(&chunk(8)), chunk(8));
}

#[test]
fn hash_tree_root_hashes_pairs_up_to_the_root() {
    let two = [chunk(1), chunk(2)].concat();
    assert_eq!(hash_tree_root(&two), sha(&two));
    let four = [chunk(1), chunk(2), chunk(3), chunk(4)].concat();
    let left = sha(&[chunk(1), chunk(2)].concat());
    let right = sha(&[chunk(3), chunk(4)].concat());
    assert_eq!(hash_tree_root(&four), sha(&concat(&left, &right)));
}

#[test]
fn mix_in_length_hashes_root_and_length() {
    let root = chunk(6);
    let mut length = vec![0u8; 32];
    length[0] = 5;
    assert_eq!(mix_in_length_data(&root, &5), sha(&concat(&root, &length)));
    let mut big = vec![0u8; 32];
    big[0] = 0x34;
    big[1] = 0x12;
    assert_eq!(mix_in_length_data(&root, &0x1234), sha(&concat(&root, &big)));
}

#[test]
fn merkle_tree_lists_nodes_root_first() {
    let chunks = [chunk(1), chunk(2)].concat();
    let tree = merkle_tree(chunks.clone());
    assert_eq!(tree, vec![sha(&chunks), sha(&chunks), chunk(1), chunk(2)]);
}

#[test]
fn merkle_tree_root_is_hash_tree_root_of_packed_chunks() {
    let chunks = [chunk(1), chunk(2), chunk(3)].concat();
    let tree = merkle_tree(chunks.clone());
    assert_eq!(tree.len(), 8);
    assert_eq!(tree[0], hash_tree_root(&pack(chunks)));
    assert_eq!(tree[1], tree[0]);
    assert_eq!(tree[2], sha(&[chunk(1), chunk(2)].concat()));
    assert_eq!(tree[3], sha(&[chunk(3), vec![0u8; 32]].concat()));
    assert_eq!(tree[4], chunk(1));
    assert_eq!(tree[6], chunk(3));
    assert_eq!(tree[7], vec![0u8; 32]);
}

#[test]
fn merkle_tree_of_one_chunk_is_the_chunk() {
    assert_eq!(merkle_tree(vec![1, 2, 3]), vec![pad_to_32(&[1, 2, 3]), pad_to_32(&[1, 2, 3])]);
}

#[test]
fn remove_cap_clears_last_set_bit() {
    assert_eq!(remove_cap_from_justification_bits(&vec![0x0f]), vec![0x0e]);
    assert_eq!(remove_cap_from_justification_bits(&vec![0x0f, 0x80]), vec![0x0f, 0x00]);
    assert_eq!(remove_cap_from_justification_bits(&vec![0x80, 0x00]), vec![0x00, 0x00]);
    assert_eq!(remove_cap_from_justification_bits(&vec![0, 0]), vec![0, 0]);
    assert_eq!(remove_cap_from_justification_bits(&vec![]), Vec::<u8>::new());
}

#[test]
fn get_var_bytes_reads_a_slice() {
    let state = vec![1, 2, 3, 4];
    assert_eq!(get_var_bytes(1, 2, &state, &false), vec![2, 3]);
    assert_eq!(get_var_bytes(1, 2, &state, &true), vec![2, 2]);
    assert_eq!(get_var_bytes(4, 0, &state, &false), Vec::<u8>::new());
}

#[test]
fn fork_root_from_its_three_fields() {
    let var: Vec<u8> = (1..=16).collect();
    let mut sizes = HashMap::new();
    sizes.insert(FORK_PREVIOUS_VERSION, 4usize);
    sizes.insert(FORK_CURRENT_VERSION, 4usize);
    let c0 = pad_to_32(&[1, 2, 3, 4]);
    let c1 = pad_to_32(&[5, 6, 7, 8]);
    let c2 = pad_to_32(&(9..=16).collect::<Vec<u8>>());
    let left = sha(&concat(&c0, &c1));
    let right = sha(&concat(&c2, &[0u8; 32]));
    assert_eq!(hash_tree_root_container(FORK, var, &sizes), sha(&concat(&left, &right)));
}

#[test]
fn checkpoint_root_from_its_two_fields() {
    let var: Vec<u8> = (1..=40).collect();
    let mut sizes = HashMap::new();
    sizes.insert(FINALIZED_CHECKPOINT_EPOCH, 8usize);
    sizes.insert(FINALIZED_CHECKPOINT_ROOT, 32usize);
    let c0 = pad_to_32(&var[..8]);
    let c1 = var[8..40].to_vec();
    assert_eq!(
        hash_tree_root_container(FINALIZED_CHECKPOINT, var, &sizes),
        sha(&concat(&c0, &c1))
    );
}

#[test]
fn eth1_data_root_from_its_three_fields() {
    let var: Vec<u8> = (1..=12).collect();
    let mut sizes = HashMap::new();
    sizes.insert(ETH1_DEPOSIT_ROOT, 4usize);
    sizes.insert(ETH1_DEPOSIT_COUNT, 2usize);
    let c0 = pad_to_32(&var[0..4]);
    let c1 = pad_to_32(&var[4..6]);
    let c2 = pad_to_32(&var[6..12]);
    let left = sha(&concat(&c0, &c1));
    let right = sha(&concat(&c2, &[0u8; 32]));
    assert_eq!(hash_tree_root_container(ETH1_DATA, var, &sizes), sha(&concat(&left, &right)));
}

#[test]
fn generate_chunks_gives_one_root_per_field() {
    let mut sizes: HashMap<u64, usize> = HashMap::new();
    let plain = [
        GENESIS_TIME,
        GENESIS_VALIDATORS_ROOT,
        SLOT,
        BLOCK_ROOTS,
        STATE_ROOTS,
        HISTORICAL_ROOTS,
        ETH1_DATA_VOTES,
        ETH1_DEPOSIT_INDEX,
        VALIDATORS,
        BALANCES,
        RANDAO_MIXES,
        SLASHINGS,
        PREVIOUS_EPOCH_PARTICIPATION,
        CURRENT_EPOCH_PARTICIPATION,
        JUSTIFICATION_BITS,
        INACTIVITY_SCORES,
    ];
    for k in plain {
        sizes.insert(k, 2);
    }
    for k in [
        FORK,
        LATEST_BLOCK_HEADER,
        ETH1_DATA,
        PREVIOUS_JUSTIFIED_CHECKPOINT,
        CURRENT_JUSTIFIED_CHECKPOINT,
        FINALIZED_CHECKPOINT,
        CURRENT_SYNC_COMMITTEE,
        NEXT_SYNC_COMMITTEE,
    ] {
        sizes.insert(k, 2);
    }
    for k in [
        FORK_PREVIOUS_VERSION,
        FORK_CURRENT_VERSION,
        HEADER_SLOT,
        HEADER_PROPOSER_INDEX,
        HEADER_PARENT_ROOT,
        HEADER_STATE_ROOT,
        HEADER_BODY_ROOT,
        ETH1_DEPOSIT_ROOT,
        ETH1_DEPOSIT_COUNT,
        PREVIOUS_CHECKPOINT_EPOCH,
        PREVIOUS_CHECKPOINT_ROOT,
        CURRENT_CHECKPOINT_EPOCH,
        CURRENT_CHECKPOINT_ROOT,
        FINALIZED_CHECKPOINT_EPOCH,
        FINALIZED_CHECKPOINT_ROOT,
        CURRENT_SYNC_COMMITTEE_PUBKEYS,
        CURRENT_SYNC_COMMITTEE_AGG_PUBKEY,
        NEXT_SYNC_COMMITTEE_PUBKEYS,
        NEXT_SYNC_COMMITTEE_AGG_PUBKEY,
    ] {
        sizes.insert(k, 1);
    }
    let offsets: HashMap<u64, usize> = HashMap::new();
    let state: Vec<u8> = (1..=48).collect();
    assert!(chunks_readable(&state, &sizes, &offsets));
    let chunks = generate_chunks(&state, &sizes, &offsets);
    assert_eq!(try_generate_chunks(&state, &sizes, &offsets), Some(chunks.clone()));
    assert_eq!(chunks.len(), 24 * 32);
    // genesis time: bytes 0..2, one packed chunk
    assert_eq!(&chunks[0..32], &pad_to_32(&[1, 2])[..]);
    // historical roots: bytes 14..16, packed, with its size mixed in
    let mut length = vec![0u8; 32];
    length[0] = 2;
    let historical = sha(&concat(&pad_to_32(&[15, 16]), &length));
    assert_eq!(&chunks[7 * 32..8 * 32], &historical[..]);
    // the fork: bytes 6..8 packed, split at one byte and one byte
    let fork_var = pad_to_32(&[7, 8]);
    let fork_parts = [pad_to_32(&fork_var[0..1]), pad_to_32(&fork_var[1..2]), pad_to_32(&fork_var[2..32])];
    let left = sha(&concat(&fork_parts[0], &fork_parts[1]));
    let right = sha(&concat(&fork_parts[2], &[0u8; 32]));
    assert_eq!(&chunks[3 * 32..4 * 32], &sha(&concat(&left, &right))[..]);
    // one byte too few, or a missing sub-field size, and nothing can be read
    assert!(try_generate_chunks(&state[..47].to_vec(), &sizes, &offsets).is_none());
    let mut missing = sizes.clone();
    missing.remove(&FORK_CURRENT_VERSION);
    assert!(!chunks_readable(&state, &missing, &offsets));
    let mut too_big = sizes.clone();
    too_big.insert(HEADER_SLOT, 40);
    assert!(!chunks_readable(&state, &too_big, &offsets));
}

#[test]
fn packed_length_when_it_fits() {
    assert_eq!(packed_len_checked(0), Some(32));
    assert_eq!(packed_len_checked(33), Some(64));
    assert_eq!(packed_len_checked(96), Some(128));
    assert_eq!(packed_len_checked(1000), Some(1024));
    assert_eq!(packed_len_checked(usize::MAX), None);
    assert_eq!(packed_len_checked(usize::MAX / 2 + 2), None);
}

#[test]
fn a_branch_folds_into_the_root() {
    let chunks: Vec<u8> = (0..5u8).flat_map(|i| vec![i; 32]).collect();
    let tree = merkle_tree(chunks);
    assert_eq!(tree.len(), 16);
    for idx in 1u64..16 {
        let branch = beacon_light_client::merkle_proofs::get_branch(&tree, idx);
        let mut node = tree[idx as usize].clone();
        let mut g = idx;
        for sib in branch {
            node = if g % 2 == 0 { sha(&concat(&node, &sib)) } else { sha(&concat(&sib, &node)) };
            g /= 2;
        }
        assert_eq!(node, tree[0]);
    }
}

#[test]
fn inactivity_scores_get_their_length_mixed_in() {
    let mut sizes: HashMap<u64, usize> = HashMap::new();
    for k in [GENESIS_TIME, GENESIS_VALIDATORS_ROOT, SLOT, BLOCK_ROOTS, STATE_ROOTS, HISTORICAL_ROOTS,
        ETH1_DATA_VOTES, ETH1_DEPOSIT_INDEX, VALIDATORS, BALANCES, RANDAO_MIXES, SLASHINGS,
        PREVIOUS_EPOCH_PARTICIPATION, CURRENT_EPOCH_PARTICIPATION, JUSTIFICATION_BITS, INACTIVITY_SCORES,
        FORK, LATEST_BLOCK_HEADER, ETH1_DATA, PREVIOUS_JUSTIFIED_CHECKPOINT, CURRENT_JUSTIFIED_CHECKPOINT,
        FINALIZED_CHECKPOINT, CURRENT_SYNC_COMMITTEE, NEXT_SYNC_COMMITTEE] {
        sizes.insert(k, 2);
    }
    for k in [FORK_PREVIOUS_VERSION, FORK_CURRENT_VERSION, HEADER_SLOT, HEADER_PROPOSER_INDEX,
        HEADER_PARENT_ROOT, HEADER_STATE_ROOT, HEADER_BODY_ROOT, ETH1_DEPOSIT_ROOT, ETH1_DEPOSIT_COUNT,
        PREVIOUS_CHECKPOINT_EPOCH, PREVIOUS_CHECKPOINT_ROOT, CURRENT_CHECKPOINT_EPOCH, CURRENT_CHECKPOINT_ROOT,
        FINALIZED_CHECKPOINT_EPOCH, FINALIZED_CHECKPOINT_ROOT, CURRENT_SYNC_COMMITTEE_PUBKEYS,
        CURRENT_SYNC_COMMITTEE_AGG_PUBKEY, NEXT_SYNC_COMMITTEE_PUBKEYS, NEXT_SYNC_COMMITTEE_AGG_PUBKEY] {
        sizes.insert(k, 1);
    }
    let mut offsets: HashMap<u64, usize> = HashMap::new();
    offsets.insert(INACTIVITY_SCORES, 40);
    let state: Vec<u8> = (1..=50).collect();
    let chunks = generate_chunks(&state, &sizes, &offsets);
    let mut length = vec![0u8; 32];
    length[0] = 2;
    // inactivity scores: field 21, read at its offset 40
    let root = sha(&concat(&pad_to_32(&[41, 42]), &length));
    assert_eq!(&chunks[21 * 32..22 * 32], &root[..]);
    // the justification bits, field 17, as they are
    assert_eq!(&chunks[17 * 32..18 * 32], &pad_to_32(&[35, 36])[..]);
}

#[test]
fn padding_to_a_multiple_of_32_twice_is_padding_once() {
    for n in [0usize, 1, 31, 32, 33, 70] {
        let once = pad_to_multiple_of_32(&vec![9u8; n]);
        assert_eq!(once.len() % 32, 0);
        assert_eq!(pad_to_multiple_of_32(&once), once);
    }
}

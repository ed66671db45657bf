//! A second SSZ serialization of the beacon state, with the offsets
//! computed from the length of the fixed part up front, and the chunking of
//! a serialized state into 32-byte leaves.

use crate::chunks::ceil32;
use crate::constants::BYTES_PER_LENGTH_OFFSET;
use crate::expand_vecs::{expand_eth1_data_votes, push_bytes, votes_bytes, votes_len_below};
use crate::serialize::{
    fixed_len, fixed_len_of, lemma_fixed_part_len, lemma_var_ends, offset_bytes_spec, serialized_spec,
    var_end, variable_part, SszBeaconState,
};
use vstd::bytes::u64_to_le_bytes;
use vstd::prelude::*;
use vstd::slice::slice_subrange;

verus! {

/// Appends an offset: the low 4 bytes of `n`, little endian.
fn push_offset4(out: &mut Vec<u8>, n: usize)
    ensures
        final(out)@ == old(out)@ + offset_bytes_spec(n as nat),
{
    proof {
        vstd::bytes::lemma_auto_spec_u64_to_from_le_bytes();
    }
    let offset_bytes = u64_to_le_bytes(n as u64);
    push_bytes(out, slice_subrange(offset_bytes.as_slice(), 0, 4));
}

/// Serializes a beacon state in SSZ: counts the length of the fixed part,
/// computes the offsets of the variable-size fields from it, and lays the
/// fields out after one another (the eth1 data votes expanded to 72 bytes
/// each); the bytes are those of `serialize::serialize_beacon_state`.
#[verifier::rlimit(100)]
pub fn serialize_beacon_state(state: &SszBeaconState) -> (serialized_state: Vec<u8>)
    requires
        state.eth1_data_votes@.len() * 72 <= usize::MAX,
        votes_bytes(state.eth1_data_votes@).len() == state.eth1_data_votes@.len() * 72,
        fixed_len(*state) + var_end(*state, 6) <= usize::MAX,
    ensures
        serialized_state@ == serialized_spec(*state),
{
    let ghost st = *state;
    proof {
        lemma_var_ends(st);
        lemma_fixed_part_len(st);
        vstd::bytes::lemma_auto_spec_u64_to_from_le_bytes();
    }
    let eth1_data_votes = expand_eth1_data_votes(&state.eth1_data_votes);
    // the length of the fixed part, each offset counted as 4 bytes
    let mut byte_len_fixed_parts: usize = 0;
    assert(fixed_len(st) <= usize::MAX);
    byte_len_fixed_parts = byte_len_fixed_parts + state.genesis_time.len();
    byte_len_fixed_parts = byte_len_fixed_parts + state.genesis_validators_root.len();
    byte_len_fixed_parts = byte_len_fixed_parts + state.slot.len();
    byte_len_fixed_parts = byte_len_fixed_parts + state.fork_previous_version.len();
    byte_len_fixed_parts = byte_len_fixed_parts + state.fork_current_version.len();
    byte_len_fixed_parts = byte_len_fixed_parts + state.fork_epoch.len();
    byte_len_fixed_parts = byte_len_fixed_parts + state.header_slot.len();
    byte_len_fixed_parts = byte_len_fixed_parts + state.header_proposer_index.len();
    byte_len_fixed_parts = byte_len_fixed_parts + state.header_parent_root.len();
    byte_len_fixed_parts = byte_len_fixed_parts + state.header_state_root.len();
    byte_len_fixed_parts = byte_len_fixed_parts + state.header_body_root.len();
    byte_len_fixed_parts = byte_len_fixed_parts + state.block_roots.len();
    byte_len_fixed_parts = byte_len_fixed_parts + state.state_roots.len();
    byte_len_fixed_parts = byte_len_fixed_parts + BYTES_PER_LENGTH_OFFSET;
    byte_len_fixed_parts = byte_len_fixed_parts + state.eth1_deposit_root.len();
    byte_len_fixed_parts = byte_len_fixed_parts + state.eth1_deposit_count.len();
    byte_len_fixed_parts = byte_len_fixed_parts + state.eth1_block_hash.len();
    byte_len_fixed_parts = byte_len_fixed_parts + BYTES_PER_LENGTH_OFFSET;
    byte_len_fixed_parts = byte_len_fixed_parts + state.eth1_deposit_index.len();
    byte_len_fixed_parts = byte_len_fixed_parts + BYTES_PER_LENGTH_OFFSET;
    byte_len_fixed_parts = byte_len_fixed_parts + BYTES_PER_LENGTH_OFFSET;
    byte_len_fixed_parts = byte_len_fixed_parts + state.randao_mixes.len();
    byte_len_fixed_parts = byte_len_fixed_parts + state.slashings.len();
    byte_len_fixed_parts = byte_len_fixed_parts + BYTES_PER_LENGTH_OFFSET;
    byte_len_fixed_parts = byte_len_fixed_parts + BYTES_PER_LENGTH_OFFSET;
    byte_len_fixed_parts = byte_len_fixed_parts + state.justification_bits.len();
    byte_len_fixed_parts = byte_len_fixed_parts + state.previous_justified_epoch.len();
    byte_len_fixed_parts = byte_len_fixed_parts + state.previous_justified_root.len();
    byte_len_fixed_parts = byte_len_fixed_parts + state.current_justified_epoch.len();
    byte_len_fixed_parts = byte_len_fixed_parts + state.current_justified_root.len();
    byte_len_fixed_parts = byte_len_fixed_parts + state.finalized_epoch.len();
    byte_len_fixed_parts = byte_len_fixed_parts + state.finalized_root.len();
    byte_len_fixed_parts = byte_len_fixed_parts + BYTES_PER_LENGTH_OFFSET;
    byte_len_fixed_parts = byte_len_fixed_parts + state.current_sync_committee_pubkeys.len();
    byte_len_fixed_parts = byte_len_fixed_parts + state.current_sync_committee_aggregate_pubkey.len();
    byte_len_fixed_parts = byte_len_fixed_parts + state.next_sync_committee_pubkeys.len();
    byte_len_fixed_parts = byte_len_fixed_parts + state.next_sync_committee_aggregate_pubkey.len();
    assert(byte_len_fixed_parts == fixed_len(st));
    let hr = state.historical_roots.len();
    assert(var_end(st, 0) == 0);
    assert(var_end(st, 1) == hr);
    assert(var_end(st, 2) == hr + eth1_data_votes.len());
    assert(var_end(st, 3) == var_end(st, 2) + state.validators.len());
    assert(var_end(st, 4) == var_end(st, 3) + state.balances.len());
    assert(var_end(st, 5) == var_end(st, 4) + state.previous_epoch_participation.len());
    assert(var_end(st, 6) == var_end(st, 5) + state.current_epoch_participation.len());
    let historical_roots_offset = byte_len_fixed_parts;
    let eth1_data_votes_offset = byte_len_fixed_parts + hr;
    let validators_offset = eth1_data_votes_offset + eth1_data_votes.len();
    let balances_offset = validators_offset + state.validators.len();
    let previous_epoch_participation_offset = balances_offset + state.balances.len();
    let current_epoch_participation_offset = previous_epoch_participation_offset
        + state.previous_epoch_participation.len();
    let inactivity_scores_offset = current_epoch_participation_offset
        + state.current_epoch_participation.len();
    assert(validators_offset == fixed_len(st) + var_end(st, 2));
    assert(balances_offset == fixed_len(st) + var_end(st, 3));
    assert(previous_epoch_participation_offset == fixed_len(st) + var_end(st, 4));
    assert(current_epoch_participation_offset == fixed_len(st) + var_end(st, 5));
    assert(inactivity_scores_offset == fixed_len(st) + var_end(st, 6));

    let mut serialized_state: Vec<u8> = Vec::new();
    push_bytes(&mut serialized_state, state.genesis_time.as_slice());
    push_bytes(&mut serialized_state, state.genesis_validators_root.as_slice());
    push_bytes(&mut serialized_state, state.slot.as_slice());
    push_bytes(&mut serialized_state, state.fork_previous_version.as_slice());
    push_bytes(&mut serialized_state, state.fork_current_version.as_slice());
    push_bytes(&mut serialized_state, state.fork_epoch.as_slice());
    push_bytes(&mut serialized_state, state.header_slot.as_slice());
    push_bytes(&mut serialized_state, state.header_proposer_index.as_slice());
    push_bytes(&mut serialized_state, state.header_parent_root.as_slice());
    push_bytes(&mut serialized_state, state.header_state_root.as_slice());
    push_bytes(&mut serialized_state, state.header_body_root.as_slice());
    push_bytes(&mut serialized_state, state.block_roots.as_slice());
    push_bytes(&mut serialized_state, state.state_roots.as_slice());
    push_offset4(&mut serialized_state, historical_roots_offset);
    push_bytes(&mut serialized_state, state.eth1_deposit_root.as_slice());
    push_bytes(&mut serialized_state, state.eth1_deposit_count.as_slice());
    push_bytes(&mut serialized_state, state.eth1_block_hash.as_slice());
    push_offset4(&mut serialized_state, eth1_data_votes_offset);
    push_bytes(&mut serialized_state, state.eth1_deposit_index.as_slice());
    push_offset4(&mut serialized_state, validators_offset);
    push_offset4(&mut serialized_state, balances_offset);
    push_bytes(&mut serialized_state, state.randao_mixes.as_slice());
    push_bytes(&mut serialized_state, state.slashings.as_slice());
    push_offset4(&mut serialized_state, previous_epoch_participation_offset);
    push_offset4(&mut serialized_state, current_epoch_participation_offset);
    push_bytes(&mut serialized_state, state.justification_bits.as_slice());
    push_bytes(&mut serialized_state, state.previous_justified_epoch.as_slice());
    push_bytes(&mut serialized_state, state.previous_justified_root.as_slice());
    push_bytes(&mut serialized_state, state.current_justified_epoch.as_slice());
    push_bytes(&mut serialized_state, state.current_justified_root.as_slice());
    push_bytes(&mut serialized_state, state.finalized_epoch.as_slice());
    push_bytes(&mut serialized_state, state.finalized_root.as_slice());
    push_offset4(&mut serialized_state, inactivity_scores_offset);
    push_bytes(&mut serialized_state, state.current_sync_committee_pubkeys.as_slice());
    push_bytes(&mut serialized_state, state.current_sync_committee_aggregate_pubkey.as_slice());
    push_bytes(&mut serialized_state, state.next_sync_committee_pubkeys.as_slice());
    push_bytes(&mut serialized_state, state.next_sync_committee_aggregate_pubkey.as_slice());
    push_bytes(&mut serialized_state, state.historical_roots.as_slice());
    push_bytes(&mut serialized_state, eth1_data_votes.as_slice());
    push_bytes(&mut serialized_state, state.validators.as_slice());
    push_bytes(&mut serialized_state, state.balances.as_slice());
    push_bytes(&mut serialized_state, state.previous_epoch_participation.as_slice());
    push_bytes(&mut serialized_state, state.current_epoch_participation.as_slice());
    push_bytes(&mut serialized_state, state.inactivity_scores.as_slice());
    assert(serialized_state@ =~= serialized_spec(st));
    serialized_state
}

/// Serializes a beacon state as `serialize_beacon_state` does, when it
/// can: `None` when the eth1 data votes do not take 72 bytes each, or when
/// the offsets pass `usize::MAX`.
pub fn try_serialize_beacon_state(state: &SszBeaconState) -> (serialized_state: Option<Vec<u8>>)
    ensures
        serialized_state is Some <==> {
            &&& state.eth1_data_votes@.len() * 72 <= usize::MAX
            &&& votes_bytes(state.eth1_data_votes@).len() == state.eth1_data_votes@.len() * 72
            &&& fixed_len(*state) + var_end(*state, 6) <= usize::MAX
        },
        serialized_state matches Some(s) ==> s@ == serialized_spec(*state),
{
    let count = state.eth1_data_votes.len();
    let expected = match count.checked_mul(72) {
        Some(e) => e,
        None => {
            return None;
        },
    };
    match votes_len_below(&state.eth1_data_votes, expected as u128 + 1) {
        Some(v) => {
            if v != expected as u128 {
                return None;
            }
        },
        None => {
            return None;
        },
    }
    let ghost st = *state;
    proof {
        reveal_with_fuel(var_end, 7);
    }
    let total: u128 = fixed_len_of(state) + state.historical_roots.len() as u128 + expected as u128
        + state.validators.len() as u128 + state.balances.len() as u128
        + state.previous_epoch_participation.len() as u128
        + state.current_epoch_participation.len() as u128;
    assert(total == fixed_len(st) + var_end(st, 6));
    if total > usize::MAX as u128 {
        return None;
    }
    Some(serialize_beacon_state(state))
}

/// Chunk `i` of `s` as a 32-byte leaf: its bytes, zeros past the end.
pub open spec fn leaf_chunk(s: Seq<u8>, i: int) -> Seq<u8> {
    Seq::new(32, |j: int| if 32 * i + j < s.len() { s[32 * i + j] } else { 0u8 })
}

/// Cuts a serialized state into 32-byte leaves, the last one filled up
/// with zeros.
pub fn to_h256_chunks(serialized_state: &Vec<u8>) -> (leaves: Vec<[u8; 32]>)
    ensures
        leaves@.len() == ceil32(serialized_state@.len()),
        forall|i: int| 0 <= i < leaves@.len() ==> (#[trigger] leaves@[i])@ == leaf_chunk(serialized_state@, i),
{
    let n = serialized_state.len();
    let count: usize = if n % 32 == 0 {
        n / 32
    } else {
        n / 32 + 1
    };
    assert(count == ceil32(n as nat));
    let mut leaves: Vec<[u8; 32]> = Vec::new();
    let mut i: usize = 0;
    while i < count
        invariant
            n == serialized_state@.len(),
            count == ceil32(n as nat),
            i <= count,
            leaves@.len() == i,
            forall|k: int| 0 <= k < i ==> (#[trigger] leaves@[k])@ == leaf_chunk(serialized_state@, k),
        decreases count - i,
    {
        assert(32 * i < n) by (nonlinear_arith)
            requires
                i < count,
                count == (n + 31) / 32,
        ;
        let start = 32 * i;
        let mut arr = [0u8; 32];
        let mut j: usize = 0;
        while j < 32 && j < n - start
            invariant
                n == serialized_state@.len(),
                start < n,
                start == 32 * i,
                j <= 32,
                j <= n - start,
                forall|t: int| 0 <= t < 32 ==> arr@[t] == (if t < j { serialized_state@[start + t] } else { 0u8 }),
            decreases 32 - j,
        {
            arr[j] = serialized_state[start + j];
            j = j + 1;
        }
        assert(arr@.len() == 32);
        assert forall|t: int| 0 <= t < 32 implies arr@[t] == leaf_chunk(serialized_state@, i as int)[t] by {
            if t < j {
                assert(start + t < n);
            } else {
                assert(j == n - start);
            }
        }
        assert(arr@ =~= leaf_chunk(serialized_state@, i as int));
        leaves.push(arr);
        i = i + 1;
    }
    leaves
}

/// The sibling of a node: the right neighbour of a left child, the left
/// neighbour of a right child.
pub open spec fn sibling_index(i: nat) -> nat {
    if i % 2 == 0 {
        i + 1
    } else {
        (i - 1) as nat
    }
}

/// From node `i` up to the root: each node's sibling, then its parent.
pub open spec fn sibling_parent_path(i: nat) -> Seq<nat>
    decreases i,
{
    if i <= 1 {
        Seq::empty()
    } else {
        seq![sibling_index(i), i / 2] + sibling_parent_path(i / 2)
    }
}

/// The numbers of some indices.
pub open spec fn index_nats(v: Seq<usize>) -> Seq<nat> {
    v.map_values(|x: usize| x as nat)
}

/// The indices of a merkle proof for leaf `leaf_index`: the leaf, then for
/// each level its sibling and its parent, up to the root (index 1).
pub fn get_branch_indices(leaf_index: usize) -> (branch_indices: Vec<usize>)
    requires
        leaf_index < u64::MAX,
    ensures
        index_nats(branch_indices@) == seq![leaf_index as nat] + sibling_parent_path(leaf_index as nat),
{
    let mut branch_indices: Vec<usize> = Vec::new();
    branch_indices.push(leaf_index);
    assert(index_nats(branch_indices@) =~= seq![leaf_index as nat]);
    let ghost target = seq![leaf_index as nat] + sibling_parent_path(leaf_index as nat);
    while branch_indices[branch_indices.len() - 1] as u64 > 1
        invariant
            branch_indices@.len() >= 1,
            branch_indices@.last() <= leaf_index,
            leaf_index < u64::MAX,
            index_nats(branch_indices@) + sibling_parent_path(branch_indices@.last() as nat) == target,
        decreases branch_indices@.last(),
    {
        let leaf = branch_indices[branch_indices.len() - 1] as u64;
        let left = leaf - 1;
        let right = leaf + 1;
        let ghost before = branch_indices@;
        if leaf % 2 == 0 {
            branch_indices.push(right as usize);
        } else {
            branch_indices.push(left as usize);
        }
        branch_indices.push((leaf / 2) as usize);
        proof {
            let p = sibling_parent_path(leaf as nat);
            assert(p == seq![sibling_index(leaf as nat), (leaf / 2) as nat] + sibling_parent_path(
                (leaf / 2) as nat,
            ));
            assert(index_nats(branch_indices@) =~= index_nats(before) + seq![
                sibling_index(leaf as nat),
                (leaf / 2) as nat,
            ]);
        }
    }
    proof {
        let last = branch_indices@.last() as nat;
        assert(sibling_parent_path(last) == Seq::<nat>::empty());
        assert(index_nats(branch_indices@) + Seq::<nat>::empty() =~= index_nats(branch_indices@));
    }
    branch_indices
}

} // verus!

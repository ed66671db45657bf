//! From a beacon state to the merkle branches of a light-client update:
//! the serialized state, the roots of its fields, the tree over them and
//! the branches the update carries.

use crate::chunks::{
    ceil32, is_pow2, lemma_next_pow2_min, lemma_pack_spec_len, lemma_packed_len, pack_spec,
    packed_len, packed_len_checked,
};
use crate::constants::{
    FINALIZED_ROOT_INDEX, FINALIZED_ROOT_INDEX_FLOOR_LOG2, MAXIMUM_LENGTH, NEXT_SYNC_COMMITTEE_INDEX,
    NEXT_SYNC_COMMITTEE_INDEX_FLOOR_LOG2,
};
use crate::keys::{
    BALANCES, BLOCK_ROOTS, CURRENT_CHECKPOINT_EPOCH, CURRENT_CHECKPOINT_ROOT,
    CURRENT_EPOCH_PARTICIPATION, CURRENT_JUSTIFIED_CHECKPOINT, CURRENT_SYNC_COMMITTEE,
    CURRENT_SYNC_COMMITTEE_AGG_PUBKEY, CURRENT_SYNC_COMMITTEE_PUBKEYS, ETH1_DATA,
    ETH1_DATA_VOTES, ETH1_DEPOSIT_COUNT, ETH1_DEPOSIT_INDEX, ETH1_DEPOSIT_ROOT,
    FINALIZED_CHECKPOINT, FINALIZED_CHECKPOINT_EPOCH, FINALIZED_CHECKPOINT_ROOT, FORK,
    FORK_CURRENT_VERSION, FORK_PREVIOUS_VERSION, GENESIS_TIME, GENESIS_VALIDATORS_ROOT,
    HEADER_BODY_ROOT, HEADER_PARENT_ROOT, HEADER_PROPOSER_INDEX, HEADER_SLOT, HEADER_STATE_ROOT,
    HISTORICAL_ROOTS, INACTIVITY_SCORES, JUSTIFICATION_BITS, LATEST_BLOCK_HEADER,
    NEXT_SYNC_COMMITTEE, NEXT_SYNC_COMMITTEE_AGG_PUBKEY, NEXT_SYNC_COMMITTEE_PUBKEYS,
    PREVIOUS_CHECKPOINT_EPOCH, PREVIOUS_CHECKPOINT_ROOT, PREVIOUS_EPOCH_PARTICIPATION,
    PREVIOUS_JUSTIFIED_CHECKPOINT, RANDAO_MIXES, SLASHINGS, SLOT, STATE_ROOTS, VALIDATORS,
};
use crate::merkle_proofs::{branch_path, get_branch, sibling_of};
use crate::merkleize::{
    chunks_ok, chunks_spec, container_fits, container_ok, container_parts, field_ok, field_raw, pair_keys,
    field_start, field_step, is_container_key, lemma_packed_concat_len, merkle_tree, merkle_tree_spec, packed_concat,
    packed_sum, part_lens, top_level_keys, try_generate_chunks, views, branch_nodes, fold_branch,
    lemma_branch_proves_root, chunks_of, container_root_spec, field_bytes, hash_pairs, root_of_level,
};
use crate::serialize::{
    fixed_len, lemma_fixed_part_len, lemma_var_ends, serialized_spec, sizes_spec, offsets_spec,
    try_serialize_beacon_state, var_offset, variable_part, SszBeaconState, offset_bytes_spec,
    lemma_offset_bytes_read_back, u32_le_value,
};
use crate::hashing::sha256_spec;
use crate::merkleize::pack;
use std::collections::HashMap;
use vstd::prelude::*;
use vstd::slice::{slice_subrange, slice_to_vec};

verus! {

/// `2^k` is a power of two.
proof fn lemma_is_pow2_pow2(k: nat)
    ensures
        is_pow2(vstd::arithmetic::power2::pow2(k)),
    decreases k,
{
    if k > 0 {
        lemma_is_pow2_pow2((k - 1) as nat);
        vstd::arithmetic::power2::lemma_pow2_unfold(k);
        crate::chunks::lemma_pow2_times2(vstd::arithmetic::power2::pow2((k - 1) as nat));
    } else {
        vstd::arithmetic::power2::lemma2_to64();
    }
}

/// `2^27` and `2^30` are powers of two.
proof fn lemma_big_pow2s()
    ensures
        is_pow2(0x800_0000),
        is_pow2(0x4000_0000),
{
    vstd::arithmetic::power2::lemma2_to64();
    lemma_is_pow2_pow2(27);
    lemma_is_pow2_pow2(30);
}

/// A packed length is at most any power-of-two number of chunks that holds
/// the bytes.
proof fn lemma_packed_len_le(n: nat, q: nat)
    requires
        is_pow2(q),
        n <= 32 * q,
    ensures
        packed_len(n) <= 32 * q,
{
    if n > 32 {
        assert(ceil32(n) <= q);
        lemma_next_pow2_min(ceil32(n), q);
    } else {
        assert(q >= 1);
    }
}

/// Packed sums of lengths that each pack within `b` stay within
/// `lens.len() * b`.
proof fn lemma_packed_sum_bound(lens: Seq<nat>, b: nat)
    requires
        forall|k: int| 0 <= k < lens.len() ==> packed_len(#[trigger] lens[k]) <= b,
    ensures
        packed_sum(lens) <= lens.len() * b,
    decreases lens.len(),
{
    if lens.len() > 0 {
        lemma_packed_sum_bound(lens.drop_last(), b);
        assert(packed_len(lens[lens.len() - 1]) <= b);
        assert(lens.drop_last().len() * b + b == lens.len() * b) by (nonlinear_arith)
            requires
                lens.drop_last().len() + 1 == lens.len(),
        ;
    }
}

/// A container whose sub-fields lie in a packed field of at most `2^32`
/// bytes fits, on a machine whose `usize` holds `2^35`.
proof fn lemma_container_fits_small(key: u64, var: Seq<u8>, sizes: Map<u64, usize>)
    requires
        container_ok(key, var.len() as int, sizes),
        var.len() <= 0x1_0000_0000,
        0x8_0000_0000 <= usize::MAX,
    ensures
        container_fits(key, var, sizes),
{
    let parts = container_parts(key, var, sizes);
    lemma_big_pow2s();
    assert(parts.len() <= 5);
    assert forall|k: int| 0 <= k < parts.len() implies parts[k].len() <= var.len() by {}
    assert forall|k: int| 0 <= k < parts.len() implies packed_len(#[trigger] parts[k].len()) <= 0x1_0000_0000 by {
        lemma_packed_len_le(parts[k].len(), 0x800_0000);
    }
    assert forall|k: int| 0 <= k < part_lens(parts).len() implies packed_len(#[trigger] part_lens(parts)[k]) <= 0x1_0000_0000 by {
        assert(part_lens(parts)[k] == parts[k].len());
    }
    lemma_packed_sum_bound(part_lens(parts), 0x1_0000_0000);
    lemma_packed_concat_len(parts);
    lemma_packed_len_le(packed_concat(parts).len(), 0x4000_0000);
}

/// Reading positions only move forward.
proof fn lemma_field_start_mono(i: nat, j: nat, sizes: Map<u64, usize>, offsets: Map<u64, usize>)
    requires
        i <= j,
    ensures
        field_start(i, sizes, offsets) <= field_start(j, sizes, offsets),
    decreases j,
{
    if i < j {
        lemma_field_start_mono(i, (j - 1) as nat, sizes, offsets);
    }
}

/// Where the fixed part of a state's serialization holds the offset of
/// each variable-size field, read with the tables of that serialization:
/// after the bytes of every field before it, an offset taking four bytes.
#[verifier::opaque]
pub open spec fn offset_starts(st: SszBeaconState) -> bool {
    &&& field_start(7, sizes_spec(st), offsets_spec(st)) == st.genesis_time@.len() + st.genesis_validators_root@.len() + st.slot@.len() + st.fork_previous_version@.len() + st.fork_current_version@.len() + st.fork_epoch@.len() + st.header_slot@.len() + st.header_proposer_index@.len() + st.header_parent_root@.len() + st.header_state_root@.len() + st.header_body_root@.len() + st.block_roots@.len() + st.state_roots@.len()
    &&& field_start(9, sizes_spec(st), offsets_spec(st)) == st.genesis_time@.len() + st.genesis_validators_root@.len() + st.slot@.len() + st.fork_previous_version@.len() + st.fork_current_version@.len() + st.fork_epoch@.len() + st.header_slot@.len() + st.header_proposer_index@.len() + st.header_parent_root@.len() + st.header_state_root@.len() + st.header_body_root@.len() + st.block_roots@.len() + st.state_roots@.len() + 4 + st.eth1_deposit_root@.len() + st.eth1_deposit_count@.len() + st.eth1_block_hash@.len()
    &&& field_start(11, sizes_spec(st), offsets_spec(st)) == st.genesis_time@.len() + st.genesis_validators_root@.len() + st.slot@.len() + st.fork_previous_version@.len() + st.fork_current_version@.len() + st.fork_epoch@.len() + st.header_slot@.len() + st.header_proposer_index@.len() + st.header_parent_root@.len() + st.header_state_root@.len() + st.header_body_root@.len() + st.block_roots@.len() + st.state_roots@.len() + 4 + st.eth1_deposit_root@.len() + st.eth1_deposit_count@.len() + st.eth1_block_hash@.len() + 4 + st.eth1_deposit_index@.len()
    &&& field_start(12, sizes_spec(st), offsets_spec(st)) == st.genesis_time@.len() + st.genesis_validators_root@.len() + st.slot@.len() + st.fork_previous_version@.len() + st.fork_current_version@.len() + st.fork_epoch@.len() + st.header_slot@.len() + st.header_proposer_index@.len() + st.header_parent_root@.len() + st.header_state_root@.len() + st.header_body_root@.len() + st.block_roots@.len() + st.state_roots@.len() + 4 + st.eth1_deposit_root@.len() + st.eth1_deposit_count@.len() + st.eth1_block_hash@.len() + 4 + st.eth1_deposit_index@.len() + 4
    &&& field_start(15, sizes_spec(st), offsets_spec(st)) == st.genesis_time@.len() + st.genesis_validators_root@.len() + st.slot@.len() + st.fork_previous_version@.len() + st.fork_current_version@.len() + st.fork_epoch@.len() + st.header_slot@.len() + st.header_proposer_index@.len() + st.header_parent_root@.len() + st.header_state_root@.len() + st.header_body_root@.len() + st.block_roots@.len() + st.state_roots@.len() + 4 + st.eth1_deposit_root@.len() + st.eth1_deposit_count@.len() + st.eth1_block_hash@.len() + 4 + st.eth1_deposit_index@.len() + 4 + 4 + st.randao_mixes@.len() + st.slashings@.len()
    &&& field_start(16, sizes_spec(st), offsets_spec(st)) == st.genesis_time@.len() + st.genesis_validators_root@.len() + st.slot@.len() + st.fork_previous_version@.len() + st.fork_current_version@.len() + st.fork_epoch@.len() + st.header_slot@.len() + st.header_proposer_index@.len() + st.header_parent_root@.len() + st.header_state_root@.len() + st.header_body_root@.len() + st.block_roots@.len() + st.state_roots@.len() + 4 + st.eth1_deposit_root@.len() + st.eth1_deposit_count@.len() + st.eth1_block_hash@.len() + 4 + st.eth1_deposit_index@.len() + 4 + 4 + st.randao_mixes@.len() + st.slashings@.len() + 4
    &&& field_start(21, sizes_spec(st), offsets_spec(st)) == st.genesis_time@.len() + st.genesis_validators_root@.len() + st.slot@.len() + st.fork_previous_version@.len() + st.fork_current_version@.len() + st.fork_epoch@.len() + st.header_slot@.len() + st.header_proposer_index@.len() + st.header_parent_root@.len() + st.header_state_root@.len() + st.header_body_root@.len() + st.block_roots@.len() + st.state_roots@.len() + 4 + st.eth1_deposit_root@.len() + st.eth1_deposit_count@.len() + st.eth1_block_hash@.len() + 4 + st.eth1_deposit_index@.len() + 4 + 4 + st.randao_mixes@.len() + st.slashings@.len() + 4 + 4 + st.justification_bits@.len() + st.previous_justified_epoch@.len() + st.previous_justified_root@.len() + st.current_justified_epoch@.len() + st.current_justified_root@.len() + st.finalized_epoch@.len() + st.finalized_root@.len()
}

/// Read with the tables of its own serialization, the fixed part of a
/// state ends where the fields of the fixed part end.
proof fn lemma_field_start_end(st: SszBeaconState)
    requires
        fixed_len(st) < MAXIMUM_LENGTH,
    ensures
        field_start(24, sizes_spec(st), offsets_spec(st)) == fixed_len(st),
        offset_starts(st),
        field_start(20, sizes_spec(st), offsets_spec(st)) == fixed_len(st) - (st.finalized_epoch@.len()
            + st.finalized_root@.len() + 4 + st.current_sync_committee_pubkeys@.len()
            + st.current_sync_committee_aggregate_pubkey@.len() + st.next_sync_committee_pubkeys@.len()
            + st.next_sync_committee_aggregate_pubkey@.len()),
{
    let sz = sizes_spec(st);
    let off = offsets_spec(st);
    assert(field_start(0, sz, off) == 0);
    assert(top_level_keys()[0] == GENESIS_TIME);
    assert(!off.contains_key(GENESIS_TIME));
    assert(field_start(1, sz, off) == field_start(0, sz, off) + field_step(GENESIS_TIME, sz, off));
    assert(field_step(GENESIS_TIME, sz, off) == st.genesis_time@.len());
    assert(top_level_keys()[1] == GENESIS_VALIDATORS_ROOT);
    assert(!off.contains_key(GENESIS_VALIDATORS_ROOT));
    assert(field_start(2, sz, off) == field_start(1, sz, off) + field_step(GENESIS_VALIDATORS_ROOT, sz, off));
    assert(field_step(GENESIS_VALIDATORS_ROOT, sz, off) == st.genesis_validators_root@.len());
    assert(top_level_keys()[2] == SLOT);
    assert(!off.contains_key(SLOT));
    assert(field_start(3, sz, off) == field_start(2, sz, off) + field_step(SLOT, sz, off));
    assert(field_step(SLOT, sz, off) == st.slot@.len());
    assert(top_level_keys()[3] == FORK);
    assert(!off.contains_key(FORK));
    assert(field_start(4, sz, off) == field_start(3, sz, off) + field_step(FORK, sz, off));
    assert(field_step(FORK, sz, off) == st.fork_previous_version@.len() + st.fork_current_version@.len() + st.fork_epoch@.len());
    assert(top_level_keys()[4] == LATEST_BLOCK_HEADER);
    assert(!off.contains_key(LATEST_BLOCK_HEADER));
    assert(field_start(5, sz, off) == field_start(4, sz, off) + field_step(LATEST_BLOCK_HEADER, sz, off));
    assert(field_step(LATEST_BLOCK_HEADER, sz, off) == st.header_slot@.len() + st.header_proposer_index@.len() + st.header_parent_root@.len() + st.header_state_root@.len() + st.header_body_root@.len());
    assert(top_level_keys()[5] == BLOCK_ROOTS);
    assert(!off.contains_key(BLOCK_ROOTS));
    assert(field_start(6, sz, off) == field_start(5, sz, off) + field_step(BLOCK_ROOTS, sz, off));
    assert(field_step(BLOCK_ROOTS, sz, off) == st.block_roots@.len());
    assert(top_level_keys()[6] == STATE_ROOTS);
    assert(!off.contains_key(STATE_ROOTS));
    assert(field_start(7, sz, off) == field_start(6, sz, off) + field_step(STATE_ROOTS, sz, off));
    assert(field_step(STATE_ROOTS, sz, off) == st.state_roots@.len());
    assert(top_level_keys()[7] == HISTORICAL_ROOTS);
    assert(off.contains_key(HISTORICAL_ROOTS));
    assert(field_start(8, sz, off) == field_start(7, sz, off) + field_step(HISTORICAL_ROOTS, sz, off));
    assert(field_step(HISTORICAL_ROOTS, sz, off) == 4);
    assert(top_level_keys()[8] == ETH1_DATA);
    assert(!off.contains_key(ETH1_DATA));
    assert(field_start(9, sz, off) == field_start(8, sz, off) + field_step(ETH1_DATA, sz, off));
    assert(field_step(ETH1_DATA, sz, off) == st.eth1_deposit_root@.len() + st.eth1_deposit_count@.len() + st.eth1_block_hash@.len());
    assert(top_level_keys()[9] == ETH1_DATA_VOTES);
    assert(off.contains_key(ETH1_DATA_VOTES));
    assert(field_start(10, sz, off) == field_start(9, sz, off) + field_step(ETH1_DATA_VOTES, sz, off));
    assert(field_step(ETH1_DATA_VOTES, sz, off) == 4);
    assert(top_level_keys()[10] == ETH1_DEPOSIT_INDEX);
    assert(!off.contains_key(ETH1_DEPOSIT_INDEX));
    assert(field_start(11, sz, off) == field_start(10, sz, off) + field_step(ETH1_DEPOSIT_INDEX, sz, off));
    assert(field_step(ETH1_DEPOSIT_INDEX, sz, off) == st.eth1_deposit_index@.len());
    assert(top_level_keys()[11] == VALIDATORS);
    assert(off.contains_key(VALIDATORS));
    assert(field_start(12, sz, off) == field_start(11, sz, off) + field_step(VALIDATORS, sz, off));
    assert(field_step(VALIDATORS, sz, off) == 4);
    assert(top_level_keys()[12] == BALANCES);
    assert(off.contains_key(BALANCES));
    assert(field_start(13, sz, off) == field_start(12, sz, off) + field_step(BALANCES, sz, off));
    assert(field_step(BALANCES, sz, off) == 4);
    assert(top_level_keys()[13] == RANDAO_MIXES);
    assert(!off.contains_key(RANDAO_MIXES));
    assert(field_start(14, sz, off) == field_start(13, sz, off) + field_step(RANDAO_MIXES, sz, off));
    assert(field_step(RANDAO_MIXES, sz, off) == st.randao_mixes@.len());
    assert(top_level_keys()[14] == SLASHINGS);
    assert(!off.contains_key(SLASHINGS));
    assert(field_start(15, sz, off) == field_start(14, sz, off) + field_step(SLASHINGS, sz, off));
    assert(field_step(SLASHINGS, sz, off) == st.slashings@.len());
    assert(top_level_keys()[15] == PREVIOUS_EPOCH_PARTICIPATION);
    assert(off.contains_key(PREVIOUS_EPOCH_PARTICIPATION));
    assert(field_start(16, sz, off) == field_start(15, sz, off) + field_step(PREVIOUS_EPOCH_PARTICIPATION, sz, off));
    assert(field_step(PREVIOUS_EPOCH_PARTICIPATION, sz, off) == 4);
    assert(top_level_keys()[16] == CURRENT_EPOCH_PARTICIPATION);
    assert(off.contains_key(CURRENT_EPOCH_PARTICIPATION));
    assert(field_start(17, sz, off) == field_start(16, sz, off) + field_step(CURRENT_EPOCH_PARTICIPATION, sz, off));
    assert(field_step(CURRENT_EPOCH_PARTICIPATION, sz, off) == 4);
    assert(top_level_keys()[17] == JUSTIFICATION_BITS);
    assert(!off.contains_key(JUSTIFICATION_BITS));
    assert(field_start(18, sz, off) == field_start(17, sz, off) + field_step(JUSTIFICATION_BITS, sz, off));
    assert(field_step(JUSTIFICATION_BITS, sz, off) == st.justification_bits@.len());
    assert(top_level_keys()[18] == PREVIOUS_JUSTIFIED_CHECKPOINT);
    assert(!off.contains_key(PREVIOUS_JUSTIFIED_CHECKPOINT));
    assert(field_start(19, sz, off) == field_start(18, sz, off) + field_step(PREVIOUS_JUSTIFIED_CHECKPOINT, sz, off));
    assert(field_step(PREVIOUS_JUSTIFIED_CHECKPOINT, sz, off) == st.previous_justified_epoch@.len() + st.previous_justified_root@.len());
    assert(top_level_keys()[19] == CURRENT_JUSTIFIED_CHECKPOINT);
    assert(!off.contains_key(CURRENT_JUSTIFIED_CHECKPOINT));
    assert(field_start(20, sz, off) == field_start(19, sz, off) + field_step(CURRENT_JUSTIFIED_CHECKPOINT, sz, off));
    assert(field_step(CURRENT_JUSTIFIED_CHECKPOINT, sz, off) == st.current_justified_epoch@.len() + st.current_justified_root@.len());
    assert(top_level_keys()[20] == FINALIZED_CHECKPOINT);
    assert(!off.contains_key(FINALIZED_CHECKPOINT));
    assert(field_start(21, sz, off) == field_start(20, sz, off) + field_step(FINALIZED_CHECKPOINT, sz, off));
    assert(field_step(FINALIZED_CHECKPOINT, sz, off) == st.finalized_epoch@.len() + st.finalized_root@.len());
    assert(top_level_keys()[21] == INACTIVITY_SCORES);
    assert(off.contains_key(INACTIVITY_SCORES));
    assert(field_start(22, sz, off) == field_start(21, sz, off) + field_step(INACTIVITY_SCORES, sz, off));
    assert(field_step(INACTIVITY_SCORES, sz, off) == 4);
    assert(top_level_keys()[22] == CURRENT_SYNC_COMMITTEE);
    assert(!off.contains_key(CURRENT_SYNC_COMMITTEE));
    assert(field_start(23, sz, off) == field_start(22, sz, off) + field_step(CURRENT_SYNC_COMMITTEE, sz, off));
    assert(field_step(CURRENT_SYNC_COMMITTEE, sz, off) == st.current_sync_committee_pubkeys@.len() + st.current_sync_committee_aggregate_pubkey@.len());
    assert(top_level_keys()[23] == NEXT_SYNC_COMMITTEE);
    assert(!off.contains_key(NEXT_SYNC_COMMITTEE));
    assert(field_start(24, sz, off) == field_start(23, sz, off) + field_step(NEXT_SYNC_COMMITTEE, sz, off));
    assert(field_step(NEXT_SYNC_COMMITTEE, sz, off) == st.next_sync_committee_pubkeys@.len() + st.next_sync_committee_aggregate_pubkey@.len());
    reveal(offset_starts);
}

/// Field `i` of a serialized state can be read with the tables of its
/// serialization: a variable-size field lies within the state at its
/// offset; a fixed-size one lies before the end of the fixed part, where
/// the reading positions end; a container's sub-fields lie within its
/// packed bytes, small enough to pack.
#[verifier::rlimit(100)]
proof fn lemma_field_ok(st: SszBeaconState, i: nat)
    requires
        i < 24,
        fixed_len(st) + variable_part(st).len() < MAXIMUM_LENGTH,
        0x8_0000_0000 <= usize::MAX,
        field_start(24, sizes_spec(st), offsets_spec(st)) == fixed_len(st),
    ensures
        field_ok(i, serialized_spec(st), sizes_spec(st), offsets_spec(st)),
{
    let s = serialized_spec(st);
    let sz = sizes_spec(st);
    let off = offsets_spec(st);
    let key = top_level_keys()[i as int];
    assert(top_level_keys().contains(key));
    lemma_var_ends(st);
    lemma_fixed_part_len(st);
    lemma_big_pow2s();
    lemma_field_start_mono(i + 1, 24, sz, off);
    lemma_field_start_mono(0, i, sz, off);
    assert(field_start(i + 1, sz, off) == field_start(i, sz, off) + field_step(key, sz, off));
    lemma_key_fits(st, key);
    lemma_packed_len_le(sz[key] as nat, 0x800_0000);
    if is_container_key(key) {
        lemma_packed_len(sz[key] as nat);
        let raw = field_raw(i, s, sz, off);
        assert(raw.len() == sz[key]);
        lemma_pack_spec_len(raw);
        lemma_container_fits_small(key, pack_spec(raw), sz);
    }
}

/// What the tables of a state's serialization hold for a top-level field
/// `key`: its size; a variable-size field's bytes lie within the state at
/// its offset; a container's sub-fields fit in its size.
proof fn lemma_key_fits(st: SszBeaconState, key: u64)
    requires
        top_level_keys().contains(key),
        fixed_len(st) + variable_part(st).len() < MAXIMUM_LENGTH,
    ensures
        sizes_spec(st).contains_key(key),
        sizes_spec(st)[key] <= fixed_len(st) + variable_part(st).len(),
        offsets_spec(st).contains_key(key) ==> offsets_spec(st)[key] + sizes_spec(st)[key]
            <= fixed_len(st) + variable_part(st).len(),
        is_container_key(key) ==> container_ok(key, sizes_spec(st)[key] as int, sizes_spec(st)),
        (key == HISTORICAL_ROOTS || key == ETH1_DATA_VOTES || key == VALIDATORS || key == BALANCES
            || key == PREVIOUS_EPOCH_PARTICIPATION || key == CURRENT_EPOCH_PARTICIPATION || key
            == INACTIVITY_SCORES) <==> offsets_spec(st).contains_key(key),
{
    lemma_var_ends(st);
    let k = choose|k: int| 0 <= k < 24 && top_level_keys()[k] == key;
    assert(k == 0 || k == 1 || k == 2 || k == 3 || k == 4 || k == 5 || k == 6 || k == 7 || k == 8
        || k == 9 || k == 10 || k == 11 || k == 12 || k == 13 || k == 14 || k == 15 || k == 16
        || k == 17 || k == 18 || k == 19 || k == 20 || k == 21 || k == 22 || k == 23);
}

/// Law: the tables of a state's serialization let every field of the
/// serialized state be read and hashed (`chunks_ok`), on a machine whose
/// `usize` holds `2^35`.
pub proof fn lemma_serialized_state_can_be_chunked(st: SszBeaconState)
    requires
        fixed_len(st) + variable_part(st).len() < MAXIMUM_LENGTH,
        0x8_0000_0000 <= usize::MAX,
    ensures
        chunks_ok(serialized_spec(st), sizes_spec(st), offsets_spec(st)),
{
    let s = serialized_spec(st);
    let sz = sizes_spec(st);
    let off = offsets_spec(st);
    lemma_var_ends(st);
    lemma_fixed_part_len(st);
    lemma_field_start_end(st);
    lemma_big_pow2s();
    assert forall|i: nat| i < 24 implies #[trigger] field_ok(i, s, sz, off) by {
        lemma_field_ok(st, i);
    }
}

/// The offset of each variable-size field, where the fixed part holds it.
#[verifier::spinoff_prover]
#[verifier::rlimit(100)]
proof fn lemma_offset_read_back_historical_roots(st: SszBeaconState)
    requires
        fixed_len(st) + variable_part(st).len() < MAXIMUM_LENGTH,
    ensures
        u32_le_value(serialized_spec(st).subrange(field_start(7, sizes_spec(st), offsets_spec(st)), field_start(7, sizes_spec(st), offsets_spec(st)) + 4)) == offsets_spec(st)[HISTORICAL_ROOTS] as nat,
{
    lemma_var_ends(st);
    lemma_fixed_part_len(st);
    lemma_field_start_end(st);
    reveal(offset_starts);
    vstd::bytes::lemma_auto_spec_u64_to_from_le_bytes();
    assert(forall|n: nat| #[trigger] offset_bytes_spec(n).len() == 4);
    assert(u32_le_value(serialized_spec(st).subrange(field_start(7, sizes_spec(st), offsets_spec(st)), field_start(7, sizes_spec(st), offsets_spec(st)) + 4)) == offsets_spec(st)[HISTORICAL_ROOTS] as nat) by {
        let h = field_start(7, sizes_spec(st), offsets_spec(st));
        assert(serialized_spec(st).subrange(h, h + 4) =~= offset_bytes_spec(var_offset(st, 1)));
        lemma_offset_bytes_read_back(var_offset(st, 1));
    }
}

#[verifier::spinoff_prover]
#[verifier::rlimit(100)]
proof fn lemma_offset_read_back_eth1_data_votes(st: SszBeaconState)
    requires
        fixed_len(st) + variable_part(st).len() < MAXIMUM_LENGTH,
    ensures
        u32_le_value(serialized_spec(st).subrange(field_start(9, sizes_spec(st), offsets_spec(st)), field_start(9, sizes_spec(st), offsets_spec(st)) + 4)) == offsets_spec(st)[ETH1_DATA_VOTES] as nat,
{
    lemma_var_ends(st);
    lemma_fixed_part_len(st);
    lemma_field_start_end(st);
    reveal(offset_starts);
    vstd::bytes::lemma_auto_spec_u64_to_from_le_bytes();
    assert(forall|n: nat| #[trigger] offset_bytes_spec(n).len() == 4);
    assert(u32_le_value(serialized_spec(st).subrange(field_start(9, sizes_spec(st), offsets_spec(st)), field_start(9, sizes_spec(st), offsets_spec(st)) + 4)) == offsets_spec(st)[ETH1_DATA_VOTES] as nat) by {
        let h = field_start(9, sizes_spec(st), offsets_spec(st));
        assert(serialized_spec(st).subrange(h, h + 4) =~= offset_bytes_spec(var_offset(st, 2)));
        lemma_offset_bytes_read_back(var_offset(st, 2));
    }
}

#[verifier::spinoff_prover]
#[verifier::rlimit(100)]
proof fn lemma_offset_read_back_validators(st: SszBeaconState)
    requires
        fixed_len(st) + variable_part(st).len() < MAXIMUM_LENGTH,
    ensures
        u32_le_value(serialized_spec(st).subrange(field_start(11, sizes_spec(st), offsets_spec(st)), field_start(11, sizes_spec(st), offsets_spec(st)) + 4)) == offsets_spec(st)[VALIDATORS] as nat,
{
    lemma_var_ends(st);
    lemma_fixed_part_len(st);
    lemma_field_start_end(st);
    reveal(offset_starts);
    vstd::bytes::lemma_auto_spec_u64_to_from_le_bytes();
    assert(forall|n: nat| #[trigger] offset_bytes_spec(n).len() == 4);
    assert(u32_le_value(serialized_spec(st).subrange(field_start(11, sizes_spec(st), offsets_spec(st)), field_start(11, sizes_spec(st), offsets_spec(st)) + 4)) == offsets_spec(st)[VALIDATORS] as nat) by {
        let h = field_start(11, sizes_spec(st), offsets_spec(st));
        assert(serialized_spec(st).subrange(h, h + 4) =~= offset_bytes_spec(var_offset(st, 3)));
        lemma_offset_bytes_read_back(var_offset(st, 3));
    }
}

#[verifier::spinoff_prover]
#[verifier::rlimit(100)]
proof fn lemma_offset_read_back_balances(st: SszBeaconState)
    requires
        fixed_len(st) + variable_part(st).len() < MAXIMUM_LENGTH,
    ensures
        u32_le_value(serialized_spec(st).subrange(field_start(12, sizes_spec(st), offsets_spec(st)), field_start(12, sizes_spec(st), offsets_spec(st)) + 4)) == offsets_spec(st)[BALANCES] as nat,
{
    lemma_var_ends(st);
    lemma_fixed_part_len(st);
    lemma_field_start_end(st);
    reveal(offset_starts);
    vstd::bytes::lemma_auto_spec_u64_to_from_le_bytes();
    assert(forall|n: nat| #[trigger] offset_bytes_spec(n).len() == 4);
    assert(u32_le_value(serialized_spec(st).subrange(field_start(12, sizes_spec(st), offsets_spec(st)), field_start(12, sizes_spec(st), offsets_spec(st)) + 4)) == offsets_spec(st)[BALANCES] as nat) by {
        let h = field_start(12, sizes_spec(st), offsets_spec(st));
        assert(serialized_spec(st).subrange(h, h + 4) =~= offset_bytes_spec(var_offset(st, 4)));
        lemma_offset_bytes_read_back(var_offset(st, 4));
    }
}

#[verifier::spinoff_prover]
#[verifier::rlimit(100)]
proof fn lemma_offset_read_back_previous_epoch_participation(st: SszBeaconState)
    requires
        fixed_len(st) + variable_part(st).len() < MAXIMUM_LENGTH,
    ensures
        u32_le_value(serialized_spec(st).subrange(field_start(15, sizes_spec(st), offsets_spec(st)), field_start(15, sizes_spec(st), offsets_spec(st)) + 4)) == offsets_spec(st)[PREVIOUS_EPOCH_PARTICIPATION] as nat,
{
    lemma_var_ends(st);
    lemma_fixed_part_len(st);
    lemma_field_start_end(st);
    reveal(offset_starts);
    vstd::bytes::lemma_auto_spec_u64_to_from_le_bytes();
    assert(forall|n: nat| #[trigger] offset_bytes_spec(n).len() == 4);
    assert(u32_le_value(serialized_spec(st).subrange(field_start(15, sizes_spec(st), offsets_spec(st)), field_start(15, sizes_spec(st), offsets_spec(st)) + 4)) == offsets_spec(st)[PREVIOUS_EPOCH_PARTICIPATION] as nat) by {
        let h = field_start(15, sizes_spec(st), offsets_spec(st));
        assert(serialized_spec(st).subrange(h, h + 4) =~= offset_bytes_spec(var_offset(st, 5)));
        lemma_offset_bytes_read_back(var_offset(st, 5));
    }
}

#[verifier::spinoff_prover]
#[verifier::rlimit(100)]
proof fn lemma_offset_read_back_current_epoch_participation(st: SszBeaconState)
    requires
        fixed_len(st) + variable_part(st).len() < MAXIMUM_LENGTH,
    ensures
        u32_le_value(serialized_spec(st).subrange(field_start(16, sizes_spec(st), offsets_spec(st)), field_start(16, sizes_spec(st), offsets_spec(st)) + 4)) == offsets_spec(st)[CURRENT_EPOCH_PARTICIPATION] as nat,
{
    lemma_var_ends(st);
    lemma_fixed_part_len(st);
    lemma_field_start_end(st);
    reveal(offset_starts);
    vstd::bytes::lemma_auto_spec_u64_to_from_le_bytes();
    assert(forall|n: nat| #[trigger] offset_bytes_spec(n).len() == 4);
    assert(u32_le_value(serialized_spec(st).subrange(field_start(16, sizes_spec(st), offsets_spec(st)), field_start(16, sizes_spec(st), offsets_spec(st)) + 4)) == offsets_spec(st)[CURRENT_EPOCH_PARTICIPATION] as nat) by {
        let h = field_start(16, sizes_spec(st), offsets_spec(st));
        assert(serialized_spec(st).subrange(h, h + 4) =~= offset_bytes_spec(var_offset(st, 6)));
        lemma_offset_bytes_read_back(var_offset(st, 6));
    }
}

#[verifier::spinoff_prover]
#[verifier::rlimit(100)]
proof fn lemma_offset_read_back_inactivity_scores(st: SszBeaconState)
    requires
        fixed_len(st) + variable_part(st).len() < MAXIMUM_LENGTH,
    ensures
        u32_le_value(serialized_spec(st).subrange(field_start(21, sizes_spec(st), offsets_spec(st)), field_start(21, sizes_spec(st), offsets_spec(st)) + 4)) == offsets_spec(st)[INACTIVITY_SCORES] as nat,
{
    lemma_var_ends(st);
    lemma_fixed_part_len(st);
    lemma_field_start_end(st);
    reveal(offset_starts);
    vstd::bytes::lemma_auto_spec_u64_to_from_le_bytes();
    assert(forall|n: nat| #[trigger] offset_bytes_spec(n).len() == 4);
    assert(u32_le_value(serialized_spec(st).subrange(field_start(21, sizes_spec(st), offsets_spec(st)), field_start(21, sizes_spec(st), offsets_spec(st)) + 4)) == offsets_spec(st)[INACTIVITY_SCORES] as nat) by {
        let h = field_start(21, sizes_spec(st), offsets_spec(st));
        assert(serialized_spec(st).subrange(h, h + 4) =~= offset_bytes_spec(var_offset(st, 7)));
        lemma_offset_bytes_read_back(var_offset(st, 7));
    }
}

/// In a state's serialization, the four bytes at the place of each
/// variable-size field in the fixed part (historical roots, eth1 data
/// votes, validators, balances, previous and current epoch participation,
/// inactivity scores), read in little-endian order, are that field's
/// offset in the offsets table.
pub proof fn lemma_offsets_read_back(st: SszBeaconState)
    requires
        fixed_len(st) + variable_part(st).len() < MAXIMUM_LENGTH,
    ensures
        u32_le_value(serialized_spec(st).subrange(field_start(7, sizes_spec(st), offsets_spec(st)), field_start(7, sizes_spec(st), offsets_spec(st)) + 4)) == offsets_spec(st)[HISTORICAL_ROOTS] as nat,
        u32_le_value(serialized_spec(st).subrange(field_start(9, sizes_spec(st), offsets_spec(st)), field_start(9, sizes_spec(st), offsets_spec(st)) + 4)) == offsets_spec(st)[ETH1_DATA_VOTES] as nat,
        u32_le_value(serialized_spec(st).subrange(field_start(11, sizes_spec(st), offsets_spec(st)), field_start(11, sizes_spec(st), offsets_spec(st)) + 4)) == offsets_spec(st)[VALIDATORS] as nat,
        u32_le_value(serialized_spec(st).subrange(field_start(12, sizes_spec(st), offsets_spec(st)), field_start(12, sizes_spec(st), offsets_spec(st)) + 4)) == offsets_spec(st)[BALANCES] as nat,
        u32_le_value(serialized_spec(st).subrange(field_start(15, sizes_spec(st), offsets_spec(st)), field_start(15, sizes_spec(st), offsets_spec(st)) + 4)) == offsets_spec(st)[PREVIOUS_EPOCH_PARTICIPATION] as nat,
        u32_le_value(serialized_spec(st).subrange(field_start(16, sizes_spec(st), offsets_spec(st)), field_start(16, sizes_spec(st), offsets_spec(st)) + 4)) == offsets_spec(st)[CURRENT_EPOCH_PARTICIPATION] as nat,
        u32_le_value(serialized_spec(st).subrange(field_start(21, sizes_spec(st), offsets_spec(st)), field_start(21, sizes_spec(st), offsets_spec(st)) + 4)) == offsets_spec(st)[INACTIVITY_SCORES] as nat,
{
    lemma_offset_read_back_historical_roots(st);
    lemma_offset_read_back_eth1_data_votes(st);
    lemma_offset_read_back_validators(st);
    lemma_offset_read_back_balances(st);
    lemma_offset_read_back_previous_epoch_participation(st);
    lemma_offset_read_back_current_epoch_participation(st);
    lemma_offset_read_back_inactivity_scores(st);
}

/// Field roots of 768 bytes pack into 1024.
proof fn lemma_packed_len_768()
    ensures
        packed_len(768) == 1024,
{
    reveal_with_fuel(crate::chunks::next_pow2, 7);
    assert(crate::chunks::next_pow2(24) == 32);
}

/// The merkle tree over the field roots of a state's serialization.
pub open spec fn state_tree(st: SszBeaconState) -> Seq<Seq<u8>> {
    merkle_tree_spec(chunks_spec(24, serialized_spec(st), sizes_spec(st), offsets_spec(st)))
}

/// The two sub-fields of the finalized checkpoint, cut from its packed
/// field: the epoch, then the root.
pub open spec fn finalized_parts(st: SszBeaconState) -> Seq<Seq<u8>> {
    container_parts(
        FINALIZED_CHECKPOINT,
        pack_spec(field_raw(20, serialized_spec(st), sizes_spec(st), offsets_spec(st))),
        sizes_spec(st),
    )
}

/// The root of a container of two sub-fields of at most 32 bytes each is
/// the hash of their two packed chunks.
proof fn lemma_two_chunk_container(key: u64, var: Seq<u8>, sizes: Map<u64, usize>)
    requires
        container_parts(key, var, sizes).len() == 2,
        container_parts(key, var, sizes)[0].len() <= 32,
        container_parts(key, var, sizes)[1].len() <= 32,
    ensures
        container_root_spec(key, var, sizes) == sha256_spec(
            pack_spec(container_parts(key, var, sizes)[0]) + pack_spec(container_parts(key, var, sizes)[1]),
        ),
        pack_spec(container_parts(key, var, sizes)[0]).len() == 32,
        pack_spec(container_parts(key, var, sizes)[1]).len() == 32,
{
    let parts = container_parts(key, var, sizes);
    let p0 = pack_spec(parts[0]);
    let p1 = pack_spec(parts[1]);
    lemma_pack_spec_len(parts[0]);
    lemma_pack_spec_len(parts[1]);
    crate::merkleize::lemma_packed_concat_small(parts);
    let x = p0 + p1;
    assert(packed_concat(parts) == x);
    reveal_with_fuel(crate::chunks::next_pow2, 3);
    assert(packed_len(64) == 64);
    assert(pack_spec(x) =~= x);
    let level = chunks_of(x);
    assert(level.len() == 2);
    assert(level[0] =~= p0);
    assert(level[1] =~= p1);
    reveal_with_fuel(root_of_level, 2);
    assert(hash_pairs(level).len() == 1);
    assert(root_of_level(level) == root_of_level(hash_pairs(level)));
    assert(root_of_level(hash_pairs(level)) == hash_pairs(level)[0]);
}

/// Folding the root chunk of the finalized checkpoint through its sibling
/// chunk and the branch of the checkpoint (node 52) in the tree over 24
/// field roots gives the tree's root.
proof fn lemma_finality_fold(c: Seq<u8>, p0: Seq<u8>, p1: Seq<u8>)
    requires
        c.len() == 768,
        c.subrange(640, 672) == sha256_spec(p0 + p1),
    ensures
        fold_branch(p1, FINALIZED_ROOT_INDEX, seq![p0] + branch_nodes(merkle_tree_spec(c), 52))
            == merkle_tree_spec(c)[0],
{
    lemma_packed_len_768();
    lemma_pack_spec_len(c);
    let leaves = chunks_of(pack_spec(c));
    assert(leaves.len() == 32);
    crate::merkleize::lemma_tree_of(leaves);
    let t = merkle_tree_spec(c);
    assert(t[52] == leaves[20]);
    assert(leaves[20] =~= c.subrange(640, 672));
    crate::merkleize::lemma_merkle_tree_len(c);
    lemma_branch_proves_root(c, 52);
    let branch = seq![p0] + branch_nodes(t, 52);
    assert(branch.skip(1) =~= branch_nodes(t, 52));
    assert(branch[0] == p0);
    assert(fold_branch(p1, FINALIZED_ROOT_INDEX, branch) == fold_branch(
        sha256_spec(p0 + p1),
        52,
        branch.skip(1),
    ));
}

/// The branch of node `idx` of a tree of 32-byte nodes.
fn tree_branch(tree: &Vec<Vec<u8>>, idx: u64) -> (branch: Vec<Vec<u8>>)
    requires
        forall|j: int| 0 <= j < tree@.len() ==> (#[trigger] tree@[j])@.len() == 32,
        idx > 1,
        sibling_of(idx) < tree.len(),
    ensures
        views(branch@) == branch_nodes(views(tree@), idx),
        forall|j: int| 0 <= j < branch@.len() ==> (#[trigger] branch@[j])@.len() == 32,
{
    let branch = get_branch(tree, idx);
    proof {
        crate::merkle_proofs::lemma_branch_path_bounded(idx);
        let bp = branch_path(idx);
        assert forall|k: int| 0 <= k < bp.len() implies views(branch@)[k] == branch_nodes(
            views(tree@),
            idx,
        )[k] by {
            assert(branch[k]@ == tree[bp[k] as int]@);
        }
        assert forall|j: int| 0 <= j < branch@.len() implies (#[trigger] branch@[j])@.len() == 32 by {
            assert(branch[j]@ == tree[bp[j] as int]@);
        }
    }
    assert(views(branch@) =~= branch_nodes(views(tree@), idx));
    branch
}

/// Read with the tables of its serialization, the finalized checkpoint of
/// a serialized state is its epoch followed by its root.
#[verifier::spinoff_prover]
#[verifier::rlimit(80)]
proof fn lemma_finalized_layout(st: SszBeaconState)
    requires
        fixed_len(st) + variable_part(st).len() < MAXIMUM_LENGTH,
    ensures
        field_raw(20, serialized_spec(st), sizes_spec(st), offsets_spec(st)) == st.finalized_epoch@
            + st.finalized_root@,
{
    let s = serialized_spec(st);
    let sz = sizes_spec(st);
    let off = offsets_spec(st);
    lemma_var_ends(st);
    lemma_fixed_part_len(st);
    lemma_field_start_end(st);
    vstd::bytes::lemma_auto_spec_u64_to_from_le_bytes();
    assert(forall|n: nat| #[trigger] crate::serialize::offset_bytes_spec(n).len() == 4);
    assert(top_level_keys()[20] == FINALIZED_CHECKPOINT);
    assert(!off.contains_key(FINALIZED_CHECKPOINT));
    let e = st.finalized_epoch@;
    let r = st.finalized_root@;
    let tail = crate::serialize::offset_bytes_spec(var_offset(st, 7)) + st.current_sync_committee_pubkeys@
        + st.current_sync_committee_aggregate_pubkey@ + st.next_sync_committee_pubkeys@
        + st.next_sync_committee_aggregate_pubkey@;
    let f = crate::serialize::fixed_part(st);
    let head = f.subrange(0, f.len() - (e.len() + r.len() + tail.len()));
    assert(f =~= head + (e + r) + tail);
    let pos = f.len() - (e.len() + r.len() + tail.len());
    assert(s.subrange(pos, pos + e.len() + r.len()) =~= e + r);
}

/// The two sub-fields of the finalized checkpoint read from a state's
/// serialization are its epoch and its root.
proof fn lemma_finalized_parts(st: SszBeaconState)
    requires
        fixed_len(st) + variable_part(st).len() < MAXIMUM_LENGTH,
    ensures
        finalized_parts(st)[0] == st.finalized_epoch@,
        finalized_parts(st)[1] == st.finalized_root@,
{
    lemma_finalized_layout(st);
    lemma_finalized_sizes(st);
    lemma_checkpoint_parts(
        pack_spec(field_raw(20, serialized_spec(st), sizes_spec(st), offsets_spec(st))),
        sizes_spec(st),
        st.finalized_epoch@,
        st.finalized_root@,
    );
}

/// The sizes table gives the finalized checkpoint's epoch and root their
/// lengths.
proof fn lemma_finalized_sizes(st: SszBeaconState)
    ensures
        sizes_spec(st)[FINALIZED_CHECKPOINT_EPOCH] == st.finalized_epoch@.len() as usize,
        sizes_spec(st)[FINALIZED_CHECKPOINT_ROOT] == st.finalized_root@.len() as usize,
{
}

/// Cut with the sizes of its epoch and root, the packed bytes of a
/// finalized checkpoint give back the epoch and the root.
proof fn lemma_checkpoint_parts(var: Seq<u8>, sz: Map<u64, usize>, e: Seq<u8>, r: Seq<u8>)
    requires
        var == pack_spec(e + r),
        e.len() + r.len() < MAXIMUM_LENGTH,
        sz[FINALIZED_CHECKPOINT_EPOCH] == e.len() as usize,
        sz[FINALIZED_CHECKPOINT_ROOT] == r.len() as usize,
    ensures
        container_parts(FINALIZED_CHECKPOINT, var, sz)[0] == e,
        container_parts(FINALIZED_CHECKPOINT, var, sz)[1] == r,
{
    lemma_pack_spec_len(e + r);
    let a = e.len() as int;
    let b = r.len() as int;
    assert(pair_keys(FINALIZED_CHECKPOINT) == (FINALIZED_CHECKPOINT_EPOCH, FINALIZED_CHECKPOINT_ROOT));
    assert(var.subrange(0, a) =~= e);
    assert(var.subrange(a, a + b) =~= r);
}

/// The packed epoch chunk of the finalized checkpoint (field 20), read
/// from a serialized state; the checkpoint's root is the hash of that chunk
/// and of its packed root chunk.
fn finalized_epoch_chunk(
    serialized: &Vec<u8>,
    sizes: &HashMap<u64, usize>,
    offsets: &HashMap<u64, usize>,
) -> (epoch_chunk: Vec<u8>)
    requires
        chunks_ok(serialized@, sizes@, offsets@),
        sizes@.contains_key(FINALIZED_CHECKPOINT_EPOCH),
        sizes@.contains_key(FINALIZED_CHECKPOINT_ROOT),
        sizes@[FINALIZED_CHECKPOINT_EPOCH] <= 32,
        sizes@[FINALIZED_CHECKPOINT_ROOT] <= 32,
    ensures
        ({
            let parts = container_parts(
                FINALIZED_CHECKPOINT,
                pack_spec(field_raw(20, serialized@, sizes@, offsets@)),
                sizes@,
            );
            &&& epoch_chunk@ == pack_spec(parts[0])
            &&& epoch_chunk@.len() == 32
            &&& pack_spec(parts[1]).len() == 32
            &&& container_root_spec(
                FINALIZED_CHECKPOINT,
                pack_spec(field_raw(20, serialized@, sizes@, offsets@)),
                sizes@,
            ) == sha256_spec(pack_spec(parts[0]) + pack_spec(parts[1]))
        }),
{
    let raw = field_bytes(serialized, sizes, offsets, 20);
    assert(top_level_keys()[20] == FINALIZED_CHECKPOINT);
    assert(field_ok(20, serialized@, sizes@, offsets@));
    proof {
        lemma_field_start_mono(0, 20, sizes@, offsets@);
    }
    assert(raw@.len() == sizes@[FINALIZED_CHECKPOINT]);
    proof {
        lemma_pack_spec_len(raw@);
    }
    let var = pack(raw);
    let a = *sizes.get(&FINALIZED_CHECKPOINT_EPOCH).unwrap();
    let b = *sizes.get(&FINALIZED_CHECKPOINT_ROOT).unwrap();
    let ghost parts = container_parts(FINALIZED_CHECKPOINT, var@, sizes@);
    assert(parts[0] == var@.subrange(0, a as int));
    assert(parts[1] == var@.subrange(a as int, a + b));
    proof {
        lemma_two_chunk_container(FINALIZED_CHECKPOINT, var@, sizes@);
        lemma_pack_spec_len(parts[0]);
    }
    let piece = slice_to_vec(slice_subrange(var.as_slice(), 0, a));
    assert(piece@ == parts[0]);
    pack(piece)
}

/// The branches of a light-client update for a state: the state is
/// serialized, the roots of its fields computed and the merkle tree built
/// over them. The next sync committee's branch is the branch of node
/// `NEXT_SYNC_COMMITTEE_INDEX` in that tree. The finality branch is that of
/// the finalized checkpoint's root, `FINALIZED_ROOT_INDEX`: the packed
/// epoch chunk beside it, then the branch of the checkpoint's node in the
/// tree; folding the packed root through it gives the tree's root. `None`
/// when the state cannot be serialized, its fields cannot be read, or a
/// sub-field of the finalized checkpoint takes more than one chunk. Every
/// entry is 32 bytes, and each branch folds into the tree's root.
#[verifier::spinoff_prover]
#[verifier::rlimit(100)]
pub fn update_branches(state: &SszBeaconState) -> (r: Option<(Vec<Vec<u8>>, Vec<Vec<u8>>)>)
    ensures
        r is Some <==> {
            &&& fixed_len(*state) + variable_part(*state).len() < MAXIMUM_LENGTH
            &&& chunks_ok(serialized_spec(*state), sizes_spec(*state), offsets_spec(*state))
            &&& state.finalized_epoch@.len() <= 32
            &&& state.finalized_root@.len() <= 32
        },
        r matches Some(b) ==> {
            &&& views(b.0@) == branch_nodes(state_tree(*state), NEXT_SYNC_COMMITTEE_INDEX)
            &&& b.0@.len() == NEXT_SYNC_COMMITTEE_INDEX_FLOOR_LOG2
            &&& fold_branch(
                state_tree(*state)[NEXT_SYNC_COMMITTEE_INDEX as int],
                NEXT_SYNC_COMMITTEE_INDEX,
                views(b.0@),
            ) == state_tree(*state)[0]
            &&& views(b.1@) == seq![pack_spec(state.finalized_epoch@)] + branch_nodes(
                state_tree(*state),
                FINALIZED_ROOT_INDEX / 2,
            )
            &&& b.1@.len() == FINALIZED_ROOT_INDEX_FLOOR_LOG2
            &&& fold_branch(
                pack_spec(state.finalized_root@),
                FINALIZED_ROOT_INDEX,
                views(b.1@),
            ) == state_tree(*state)[0]
            &&& forall|j: int| 0 <= j < b.0@.len() ==> (#[trigger] b.0@[j])@.len() == 32
            &&& forall|j: int| 0 <= j < b.1@.len() ==> (#[trigger] b.1@[j])@.len() == 32
        },
{
    let ghost st = *state;
    let (serialized, sizes, offsets) = match try_serialize_beacon_state(state) {
        Some(o) => o,
        None => {
            return None;
        },
    };
    let chunks = match try_generate_chunks(&serialized, &sizes, &offsets) {
        Some(c) => c,
        None => {
            return None;
        },
    };
    proof {
        lemma_var_ends(st);
    }
    if state.finalized_epoch.len() > 32 || state.finalized_root.len() > 32 {
        return None;
    }
    // the finalized checkpoint's epoch chunk
    assert(sizes@[FINALIZED_CHECKPOINT_EPOCH] == st.finalized_epoch@.len());
    assert(sizes@[FINALIZED_CHECKPOINT_ROOT] == st.finalized_root@.len());
    let epoch_chunk = finalized_epoch_chunk(&serialized, &sizes, &offsets);
    let ghost parts = finalized_parts(st);
    proof {
        lemma_finalized_parts(st);
    }
    // the tree and its branches
    let ghost c = chunks@;
    proof {
        lemma_packed_len_768();
    }
    let tree = merkle_tree(chunks);
    proof {
        crate::merkleize::lemma_merkle_tree_len(c);
        assert(sibling_of(NEXT_SYNC_COMMITTEE_INDEX) == 54);
        assert(sibling_of(52) == 53);
        lemma_branch_proves_root(c, NEXT_SYNC_COMMITTEE_INDEX);
        assert(top_level_keys()[20] == FINALIZED_CHECKPOINT);
        assert(c.subrange(32 * 20int, 32 * 20int + 32) == crate::merkleize::field_root(20, serialized@, sizes@, offsets@));
        lemma_finality_fold(c, pack_spec(parts[0]), pack_spec(parts[1]));
        reveal_with_fuel(crate::merkle_proofs::floor_log2, 7);
        crate::merkle_proofs::lemma_branch_length(NEXT_SYNC_COMMITTEE_INDEX);
        crate::merkle_proofs::lemma_branch_length(52);
    }
    let sync_branch = tree_branch(&tree, NEXT_SYNC_COMMITTEE_INDEX);
    let checkpoint_branch = tree_branch(&tree, 52);
    let mut finality_branch: Vec<Vec<u8>> = Vec::new();
    finality_branch.push(epoch_chunk);
    let mut k: usize = 0;
    while k < checkpoint_branch.len()
        invariant
            k <= checkpoint_branch@.len(),
            finality_branch@.len() == k + 1,
            finality_branch@[0]@ == pack_spec(parts[0]),
            forall|j: int| 1 <= j <= k ==> (#[trigger] finality_branch@[j])@ == checkpoint_branch@[j - 1]@,
        decreases checkpoint_branch@.len() - k,
    {
        finality_branch.push(checkpoint_branch[k].clone());
        k = k + 1;
    }
    proof {
        assert(views(finality_branch@) =~= seq![pack_spec(parts[0])] + views(checkpoint_branch@));
        assert forall|j: int| 0 <= j < finality_branch@.len() implies (#[trigger] finality_branch@[j])@.len() == 32 by {
            if j > 0 {
                assert(checkpoint_branch@[j - 1]@.len() == 32);
            }
        }
    }
    Some((sync_branch, finality_branch))
}

} // verus!

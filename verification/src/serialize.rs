//! SSZ serialization of the beacon state: fixed-size fields and offsets
//! first, variable-size fields after them, with tables of the size of
//! every field and the offset of every variable-size one.

use crate::bitfield::{
    bitvec_bits, bitvec_from_bytes, bitvec_len, bitvec_push, bitvec_to_bytes, byte_bit,
    bytes_to_bits, clear_last_set, lemma_bytes_bits_push_true, lemma_bytes_bits_roundtrip,
    lemma_bytes_to_bits_append, lemma_clear_last_set_at,
};
use crate::merkleize::remove_cap_spec;
use crate::chunks::zeros;
use crate::constants::MAXIMUM_LENGTH;
use crate::expand_vecs::{push_bytes, votes_bytes, votes_len_below, votes_ssz};
use crate::keys::{
    BALANCES, BLOCK_ROOTS, CURRENT_CHECKPOINT_EPOCH, CURRENT_CHECKPOINT_ROOT,
    CURRENT_EPOCH_PARTICIPATION, CURRENT_JUSTIFIED_CHECKPOINT, CURRENT_SYNC_COMMITTEE,
    CURRENT_SYNC_COMMITTEE_AGG_PUBKEY, CURRENT_SYNC_COMMITTEE_PUBKEYS, ETH1_DATA,
    ETH1_DATA_BLOCK_HASH, ETH1_DATA_VOTES, ETH1_DEPOSIT_COUNT, ETH1_DEPOSIT_INDEX,
    ETH1_DEPOSIT_ROOT, FINALIZED_CHECKPOINT, FINALIZED_CHECKPOINT_EPOCH,
    FINALIZED_CHECKPOINT_ROOT, FIXED_PARTS, FORK, FORK_CURRENT_VERSION, FORK_EPOCH,
    FORK_PREVIOUS_VERSION, GENESIS_TIME, GENESIS_VALIDATORS_ROOT, HEADER_BODY_ROOT,
    HEADER_PARENT_ROOT, HEADER_PROPOSER_INDEX, HEADER_SLOT, HEADER_STATE_ROOT, HISTORICAL_ROOTS,
    INACTIVITY_SCORES, JUSTIFICATION_BITS, LATEST_BLOCK_HEADER, NEXT_SYNC_COMMITTEE,
    NEXT_SYNC_COMMITTEE_AGG_PUBKEY, NEXT_SYNC_COMMITTEE_PUBKEYS, PREVIOUS_CHECKPOINT_EPOCH,
    PREVIOUS_CHECKPOINT_ROOT, PREVIOUS_EPOCH_PARTICIPATION, PREVIOUS_JUSTIFIED_CHECKPOINT,
    RANDAO_MIXES, SLASHINGS, SLOT, STATE_ROOTS, TOTAL_LENGTH, VALIDATORS,
};
use crate::types::Eth1Data;
use std::collections::HashMap;
use vstd::bytes::{spec_u64_to_le_bytes, u64_to_le_bytes};
use vstd::prelude::*;
use vstd::slice::{slice_subrange, slice_to_vec};

verus! {

/// A beacon state whose fields are held in their SSZ encoding (the eth1
/// data votes as records).
pub struct SszBeaconState {
    pub genesis_time: Vec<u8>,
    pub genesis_validators_root: Vec<u8>,
    pub slot: Vec<u8>,
    pub fork_previous_version: Vec<u8>,
    pub fork_current_version: Vec<u8>,
    pub fork_epoch: Vec<u8>,
    pub header_slot: Vec<u8>,
    pub header_proposer_index: Vec<u8>,
    pub header_parent_root: Vec<u8>,
    pub header_state_root: Vec<u8>,
    pub header_body_root: Vec<u8>,
    pub block_roots: Vec<u8>,
    pub state_roots: Vec<u8>,
    pub historical_roots: Vec<u8>,
    pub eth1_deposit_root: Vec<u8>,
    pub eth1_deposit_count: Vec<u8>,
    pub eth1_block_hash: Vec<u8>,
    pub eth1_data_votes: Vec<Eth1Data>,
    pub eth1_deposit_index: Vec<u8>,
    pub validators: Vec<u8>,
    pub balances: Vec<u8>,
    pub randao_mixes: Vec<u8>,
    pub slashings: Vec<u8>,
    pub previous_epoch_participation: Vec<u8>,
    pub current_epoch_participation: Vec<u8>,
    pub justification_bits: Vec<u8>,
    pub previous_justified_epoch: Vec<u8>,
    pub previous_justified_root: Vec<u8>,
    pub current_justified_epoch: Vec<u8>,
    pub current_justified_root: Vec<u8>,
    pub finalized_epoch: Vec<u8>,
    pub finalized_root: Vec<u8>,
    pub inactivity_scores: Vec<u8>,
    pub current_sync_committee_pubkeys: Vec<u8>,
    pub current_sync_committee_aggregate_pubkey: Vec<u8>,
    pub next_sync_committee_pubkeys: Vec<u8>,
    pub next_sync_committee_aggregate_pubkey: Vec<u8>,
}

/// The sum of some bytes.
pub open spec fn byte_sum(bytes: Seq<u8>) -> nat
    decreases bytes.len(),
{
    if bytes.len() == 0 {
        0
    } else {
        byte_sum(bytes.drop_last()) + bytes.last() as nat
    }
}

/// Justification bits with their length cap: the bytes, then a byte with
/// only its high bit set (the cap bit right after the last bit), then zero
/// bytes up to 4 bytes in all.
pub open spec fn length_cap_spec(bits: Seq<u8>) -> Seq<u8> {
    bits.push(128u8) + zeros(
        if bits.len() + 1 < 4 {
            (3 - bits.len()) as nat
        } else {
            0
        },
    )
}

proof fn lemma_byte_sum_push(bytes: Seq<u8>, b: u8)
    ensures
        byte_sum(bytes.push(b)) == byte_sum(bytes) + b,
{
    assert(bytes.push(b).drop_last() =~= bytes);
}

proof fn lemma_byte_sum_prefix(bytes: Seq<u8>, j: int)
    requires
        0 <= j <= bytes.len(),
    ensures
        byte_sum(bytes.take(j)) <= byte_sum(bytes),
    decreases bytes.len(),
{
    if j < bytes.len() {
        lemma_byte_sum_prefix(bytes.drop_last(), j);
        assert(bytes.drop_last().take(j) =~= bytes.take(j));
    } else {
        assert(bytes.take(j) =~= bytes);
    }
}

proof fn lemma_byte_sum_zeros(bytes: Seq<u8>, n: nat)
    ensures
        byte_sum(bytes + zeros(n)) == byte_sum(bytes),
    decreases n,
{
    if n > 0 {
        lemma_byte_sum_zeros(bytes, (n - 1) as nat);
        assert((bytes + zeros(n)).drop_last() =~= bytes + zeros((n - 1) as nat));
    } else {
        assert(bytes + zeros(0) =~= bytes);
    }
}

/// Adds the length cap to serialized justification bits: a set bit after
/// the last one, the bytes padded with zeros to at least 4. The bytes and
/// the cap must sum below 256.
pub fn length_cap_to_justification_bits(justification_bits: &Vec<u8>) -> (bytes: Vec<u8>)
    requires
        byte_sum(justification_bits@) < 128,
        8 * justification_bits@.len() < usize::MAX,
    ensures
        bytes@ == length_cap_spec(justification_bits@),
{
    let mut bits = bitvec_from_bytes(justification_bits.as_slice());
    let n = bitvec_len(&bits);
    assert(n % 4 == 0);
    bitvec_push(&mut bits, true);
    let mut bytes: Vec<u8> = bitvec_to_bytes(&bits);
    proof {
        lemma_bytes_bits_push_true(justification_bits@);
    }
    let pad = [0u8; 1];
    let ghost capped = justification_bits@.push(128u8);
    while bytes.len() < 4
        invariant
            capped.len() <= bytes@.len() <= (if capped.len() < 4 { 4 } else { capped.len() }),
            bytes@ == capped + zeros((bytes@.len() - capped.len()) as nat),
            pad@ == seq![0u8],
        decreases 4 - bytes@.len(),
    {
        bytes.extend_from_slice(&pad);
        assert(bytes@ =~= capped + zeros((bytes@.len() - capped.len()) as nat));
    }
    assert(bytes@ =~= length_cap_spec(justification_bits@));
    proof {
        lemma_byte_sum_push(justification_bits@, 128u8);
        lemma_byte_sum_zeros(capped, (bytes@.len() - capped.len()) as nat);
    }
    let mut sum: u8 = 0;
    let mut k: usize = 0;
    while k < bytes.len()
        invariant
            k <= bytes@.len(),
            sum == byte_sum(bytes@.take(k as int)),
            byte_sum(bytes@) < 256,
        decreases bytes@.len() - k,
    {
        proof {
            lemma_byte_sum_push(bytes@.take(k as int), bytes@[k as int]);
            assert(bytes@.take(k + 1) =~= bytes@.take(k as int).push(bytes@[k as int]));
            lemma_byte_sum_prefix(bytes@, k + 1);
        }
        sum = sum + bytes[k];
        k = k + 1;
    }
    assert(bytes@.take(bytes@.len() as int) =~= bytes@);
    assert(sum > 0);
    bytes
}

/// The variable-size fields, one after the other.
pub open spec fn variable_part(st: SszBeaconState) -> Seq<u8> {
    st.historical_roots@ + votes_bytes(st.eth1_data_votes@) + st.validators@ + st.balances@
        + st.previous_epoch_participation@ + st.current_epoch_participation@
        + st.inactivity_scores@
}

/// Where the `k`-th variable-size field (counting from 1) ends within the
/// variable part: historical roots, eth1 data votes, validators, balances,
/// previous and current epoch participation, inactivity scores.
pub open spec fn var_end(st: SszBeaconState, k: nat) -> nat
    decreases k,
{
    if k == 0 {
        0
    } else {
        var_end(st, (k - 1) as nat) + (if k == 1 {
            st.historical_roots@.len()
        } else if k == 2 {
            votes_bytes(st.eth1_data_votes@).len()
        } else if k == 3 {
            st.validators@.len()
        } else if k == 4 {
            st.balances@.len()
        } else if k == 5 {
            st.previous_epoch_participation@.len()
        } else if k == 6 {
            st.current_epoch_participation@.len()
        } else {
            st.inactivity_scores@.len()
        })
    }
}

/// An offset as it is serialized: the low 4 bytes of the number, little
/// endian.
pub open spec fn offset_bytes_spec(n: nat) -> Seq<u8> {
    spec_u64_to_le_bytes(n as u64).subrange(0, 4)
}

/// The length of the fixed part: the fixed-size fields and 4 bytes for the
/// offset of each of the seven variable-size fields.
pub open spec fn fixed_len(st: SszBeaconState) -> nat {
    st.genesis_time@.len() + st.genesis_validators_root@.len() + st.slot@.len()
        + st.fork_previous_version@.len() + st.fork_current_version@.len() + st.fork_epoch@.len()
        + st.header_slot@.len() + st.header_proposer_index@.len() + st.header_parent_root@.len()
        + st.header_state_root@.len() + st.header_body_root@.len() + st.block_roots@.len()
        + st.state_roots@.len() + st.eth1_deposit_root@.len() + st.eth1_deposit_count@.len()
        + st.eth1_block_hash@.len() + st.eth1_deposit_index@.len() + st.randao_mixes@.len()
        + st.slashings@.len() + st.justification_bits@.len() + st.previous_justified_epoch@.len()
        + st.previous_justified_root@.len() + st.current_justified_epoch@.len()
        + st.current_justified_root@.len() + st.finalized_epoch@.len() + st.finalized_root@.len()
        + st.current_sync_committee_pubkeys@.len() + st.current_sync_committee_aggregate_pubkey@.len()
        + st.next_sync_committee_pubkeys@.len() + st.next_sync_committee_aggregate_pubkey@.len()
        + 28
}

/// The offset of the `k`-th variable-size field (counting from 1): the
/// length of the fixed part plus where the field starts in the variable
/// part.
pub open spec fn var_offset(st: SszBeaconState, k: nat) -> nat {
    fixed_len(st) + var_end(st, (k - 1) as nat)
}

/// The fixed part, in SSZ order: the fixed-size fields, with the offset of
/// each variable-size field (historical roots, eth1 data votes, validators,
/// balances, previous and current epoch participation, inactivity scores)
/// in its place.
pub open spec fn fixed_part(st: SszBeaconState) -> Seq<u8> {
    st.genesis_time@
        + st.genesis_validators_root@
        + st.slot@
        + st.fork_previous_version@
        + st.fork_current_version@
        + st.fork_epoch@
        + st.header_slot@
        + st.header_proposer_index@
        + st.header_parent_root@
        + st.header_state_root@
        + st.header_body_root@
        + st.block_roots@
        + st.state_roots@
        + offset_bytes_spec(var_offset(st, 1))
        + st.eth1_deposit_root@
        + st.eth1_deposit_count@
        + st.eth1_block_hash@
        + offset_bytes_spec(var_offset(st, 2))
        + st.eth1_deposit_index@
        + offset_bytes_spec(var_offset(st, 3))
        + offset_bytes_spec(var_offset(st, 4))
        + st.randao_mixes@
        + st.slashings@
        + offset_bytes_spec(var_offset(st, 5))
        + offset_bytes_spec(var_offset(st, 6))
        + st.justification_bits@
        + st.previous_justified_epoch@
        + st.previous_justified_root@
        + st.current_justified_epoch@
        + st.current_justified_root@
        + st.finalized_epoch@
        + st.finalized_root@
        + offset_bytes_spec(var_offset(st, 7))
        + st.current_sync_committee_pubkeys@
        + st.current_sync_committee_aggregate_pubkey@
        + st.next_sync_committee_pubkeys@
        + st.next_sync_committee_aggregate_pubkey@
}

/// The SSZ serialization of the state: the fixed part, then the variable
/// part.
pub open spec fn serialized_spec(st: SszBeaconState) -> Seq<u8> {
    fixed_part(st) + variable_part(st)
}

/// The table of sizes: the serialized length of each field, of each
/// container (fork, latest block header, eth1 data, the three checkpoints,
/// the two sync committees), of the fixed part and of the whole.
pub open spec fn sizes_spec(st: SszBeaconState) -> Map<u64, usize> {
    Map::<u64, usize>::empty()
        .insert(GENESIS_TIME, st.genesis_time@.len() as usize)
        .insert(GENESIS_VALIDATORS_ROOT, st.genesis_validators_root@.len() as usize)
        .insert(SLOT, st.slot@.len() as usize)
        .insert(FORK_PREVIOUS_VERSION, st.fork_previous_version@.len() as usize)
        .insert(FORK_CURRENT_VERSION, st.fork_current_version@.len() as usize)
        .insert(FORK_EPOCH, st.fork_epoch@.len() as usize)
        .insert(FORK, (st.fork_previous_version@.len() + st.fork_current_version@.len() + st.fork_epoch@.len()) as usize)
        .insert(HEADER_SLOT, st.header_slot@.len() as usize)
        .insert(HEADER_PROPOSER_INDEX, st.header_proposer_index@.len() as usize)
        .insert(HEADER_PARENT_ROOT, st.header_parent_root@.len() as usize)
        .insert(HEADER_STATE_ROOT, st.header_state_root@.len() as usize)
        .insert(HEADER_BODY_ROOT, st.header_body_root@.len() as usize)
        .insert(LATEST_BLOCK_HEADER, (st.header_slot@.len() + st.header_proposer_index@.len() + st.header_parent_root@.len() + st.header_state_root@.len() + st.header_body_root@.len()) as usize)
        .insert(BLOCK_ROOTS, st.block_roots@.len() as usize)
        .insert(STATE_ROOTS, st.state_roots@.len() as usize)
        .insert(HISTORICAL_ROOTS, st.historical_roots@.len() as usize)
        .insert(ETH1_DEPOSIT_ROOT, st.eth1_deposit_root@.len() as usize)
        .insert(ETH1_DEPOSIT_COUNT, st.eth1_deposit_count@.len() as usize)
        .insert(ETH1_DATA_BLOCK_HASH, st.eth1_block_hash@.len() as usize)
        .insert(ETH1_DATA, (st.eth1_deposit_root@.len() + st.eth1_deposit_count@.len() + st.eth1_block_hash@.len()) as usize)
        .insert(ETH1_DATA_VOTES, votes_bytes(st.eth1_data_votes@).len() as usize)
        .insert(ETH1_DEPOSIT_INDEX, st.eth1_deposit_index@.len() as usize)
        .insert(VALIDATORS, st.validators@.len() as usize)
        .insert(BALANCES, st.balances@.len() as usize)
        .insert(RANDAO_MIXES, st.randao_mixes@.len() as usize)
        .insert(SLASHINGS, st.slashings@.len() as usize)
        .insert(PREVIOUS_EPOCH_PARTICIPATION, st.previous_epoch_participation@.len() as usize)
        .insert(CURRENT_EPOCH_PARTICIPATION, st.current_epoch_participation@.len() as usize)
        .insert(JUSTIFICATION_BITS, st.justification_bits@.len() as usize)
        .insert(PREVIOUS_CHECKPOINT_EPOCH, st.previous_justified_epoch@.len() as usize)
        .insert(PREVIOUS_CHECKPOINT_ROOT, st.previous_justified_root@.len() as usize)
        .insert(PREVIOUS_JUSTIFIED_CHECKPOINT, (st.previous_justified_epoch@.len() + st.previous_justified_root@.len()) as usize)
        .insert(CURRENT_CHECKPOINT_EPOCH, st.current_justified_epoch@.len() as usize)
        .insert(CURRENT_CHECKPOINT_ROOT, st.current_justified_root@.len() as usize)
        .insert(CURRENT_JUSTIFIED_CHECKPOINT, (st.current_justified_epoch@.len() + st.current_justified_root@.len()) as usize)
        .insert(FINALIZED_CHECKPOINT_EPOCH, st.finalized_epoch@.len() as usize)
        .insert(FINALIZED_CHECKPOINT_ROOT, st.finalized_root@.len() as usize)
        .insert(FINALIZED_CHECKPOINT, (st.finalized_epoch@.len() + st.finalized_root@.len()) as usize)
        .insert(INACTIVITY_SCORES, st.inactivity_scores@.len() as usize)
        .insert(CURRENT_SYNC_COMMITTEE_PUBKEYS, st.current_sync_committee_pubkeys@.len() as usize)
        .insert(CURRENT_SYNC_COMMITTEE_AGG_PUBKEY, st.current_sync_committee_aggregate_pubkey@.len() as usize)
        .insert(CURRENT_SYNC_COMMITTEE, (st.current_sync_committee_pubkeys@.len() + st.current_sync_committee_aggregate_pubkey@.len()) as usize)
        .insert(NEXT_SYNC_COMMITTEE_PUBKEYS, st.next_sync_committee_pubkeys@.len() as usize)
        .insert(NEXT_SYNC_COMMITTEE_AGG_PUBKEY, st.next_sync_committee_aggregate_pubkey@.len() as usize)
        .insert(NEXT_SYNC_COMMITTEE, (st.next_sync_committee_pubkeys@.len() + st.next_sync_committee_aggregate_pubkey@.len()) as usize)
        .insert(FIXED_PARTS, fixed_len(st) as usize)
        .insert(TOTAL_LENGTH, (fixed_len(st) + variable_part(st).len()) as usize)
}

/// The table of offsets: where each variable-size field starts in the
/// serialized state.
pub open spec fn offsets_spec(st: SszBeaconState) -> Map<u64, usize> {
    Map::<u64, usize>::empty()
        .insert(HISTORICAL_ROOTS, var_offset(st, 1) as usize)
        .insert(ETH1_DATA_VOTES, var_offset(st, 2) as usize)
        .insert(VALIDATORS, var_offset(st, 3) as usize)
        .insert(BALANCES, var_offset(st, 4) as usize)
        .insert(PREVIOUS_EPOCH_PARTICIPATION, var_offset(st, 5) as usize)
        .insert(CURRENT_EPOCH_PARTICIPATION, var_offset(st, 6) as usize)
        .insert(INACTIVITY_SCORES, var_offset(st, 7) as usize)
}

/// Appends a fixed-size field and records its size.
fn add_fixed(fixed: &mut Vec<u8>, sizes: &mut HashMap<u64, usize>, key: u64, bytes: &[u8])
    ensures
        final(fixed)@ == old(fixed)@ + bytes@,
        final(sizes)@ == old(sizes)@.insert(key, bytes@.len() as usize),
{
    push_bytes(fixed, bytes);
    let _ = sizes.insert(key, bytes.len());
}

/// Appends the offset `n` (its low 4 bytes, little endian).
pub(crate) fn push_offset(fixed: &mut Vec<u8>, n: usize)
    ensures
        final(fixed)@ == old(fixed)@ + offset_bytes_spec(n as nat),
{
    proof {
        vstd::bytes::lemma_auto_spec_u64_to_from_le_bytes();
    }
    let offset_bytes = u64_to_le_bytes(n as u64);
    push_bytes(fixed, slice_subrange(offset_bytes.as_slice(), 0, 4));
}

/// Where each variable-size field ends within the variable part.
pub proof fn lemma_var_ends(st: SszBeaconState)
    ensures
        var_end(st, 0) == 0,
        var_end(st, 1) == st.historical_roots@.len(),
        var_end(st, 2) == var_end(st, 1) + votes_bytes(st.eth1_data_votes@).len(),
        var_end(st, 3) == var_end(st, 2) + st.validators@.len(),
        var_end(st, 4) == var_end(st, 3) + st.balances@.len(),
        var_end(st, 5) == var_end(st, 4) + st.previous_epoch_participation@.len(),
        var_end(st, 6) == var_end(st, 5) + st.current_epoch_participation@.len(),
        var_end(st, 7) == var_end(st, 6) + st.inactivity_scores@.len(),
        var_end(st, 7) == variable_part(st).len(),
{
    reveal_with_fuel(var_end, 8);
}

/// The fixed part is `fixed_len` bytes long.
pub proof fn lemma_fixed_part_len(st: SszBeaconState)
    ensures
        fixed_part(st).len() == fixed_len(st),
{
    vstd::bytes::lemma_auto_spec_u64_to_from_le_bytes();
    assert(forall|n: nat| #[trigger] offset_bytes_spec(n).len() == 4);
}

/// The length of the fixed part, computed from the field lengths.
#[verifier::rlimit(50)]
pub(crate) fn fixed_len_of(state: &SszBeaconState) -> (n: u128)
    ensures
        n == fixed_len(*state),
        n < 0x1_0000_0000_0000_0000_0000u128,
{
    state.genesis_time.len() as u128 + state.genesis_validators_root.len() as u128
        + state.slot.len() as u128 + state.fork_previous_version.len() as u128
        + state.fork_current_version.len() as u128 + state.fork_epoch.len() as u128
        + state.header_slot.len() as u128 + state.header_proposer_index.len() as u128
        + state.header_parent_root.len() as u128 + state.header_state_root.len() as u128
        + state.header_body_root.len() as u128 + state.block_roots.len() as u128
        + state.state_roots.len() as u128 + state.eth1_deposit_root.len() as u128
        + state.eth1_deposit_count.len() as u128 + state.eth1_block_hash.len() as u128
        + state.eth1_deposit_index.len() as u128 + state.randao_mixes.len() as u128
        + state.slashings.len() as u128 + state.justification_bits.len() as u128
        + state.previous_justified_epoch.len() as u128 + state.previous_justified_root.len() as u128
        + state.current_justified_epoch.len() as u128 + state.current_justified_root.len() as u128
        + state.finalized_epoch.len() as u128 + state.finalized_root.len() as u128
        + state.current_sync_committee_pubkeys.len() as u128
        + state.current_sync_committee_aggregate_pubkey.len() as u128
        + state.next_sync_committee_pubkeys.len() as u128
        + state.next_sync_committee_aggregate_pubkey.len() as u128 + 28
}

/// Appends the container sizes to a table of field sizes.
fn add_container_sizes(sizes: &mut HashMap<u64, usize>, state: &SszBeaconState)
    requires
        fixed_len(*state) < MAXIMUM_LENGTH,
    ensures
        final(sizes)@ == old(sizes)@
            .insert(FORK, (state.fork_previous_version@.len() + state.fork_current_version@.len() + state.fork_epoch@.len()) as usize)
            .insert(LATEST_BLOCK_HEADER, (state.header_slot@.len() + state.header_proposer_index@.len() + state.header_parent_root@.len() + state.header_state_root@.len() + state.header_body_root@.len()) as usize)
            .insert(ETH1_DATA, (state.eth1_deposit_root@.len() + state.eth1_deposit_count@.len() + state.eth1_block_hash@.len()) as usize)
            .insert(PREVIOUS_JUSTIFIED_CHECKPOINT, (state.previous_justified_epoch@.len() + state.previous_justified_root@.len()) as usize)
            .insert(CURRENT_JUSTIFIED_CHECKPOINT, (state.current_justified_epoch@.len() + state.current_justified_root@.len()) as usize)
            .insert(FINALIZED_CHECKPOINT, (state.finalized_epoch@.len() + state.finalized_root@.len()) as usize)
            .insert(CURRENT_SYNC_COMMITTEE, (state.current_sync_committee_pubkeys@.len() + state.current_sync_committee_aggregate_pubkey@.len()) as usize)
            .insert(NEXT_SYNC_COMMITTEE, (state.next_sync_committee_pubkeys@.len() + state.next_sync_committee_aggregate_pubkey@.len()) as usize),
{
    let _ = sizes.insert(FORK, state.fork_previous_version.len() + state.fork_current_version.len() + state.fork_epoch.len());
    let _ = sizes.insert(LATEST_BLOCK_HEADER, state.header_slot.len() + state.header_proposer_index.len() + state.header_parent_root.len() + state.header_state_root.len() + state.header_body_root.len());
    let _ = sizes.insert(ETH1_DATA, state.eth1_deposit_root.len() + state.eth1_deposit_count.len() + state.eth1_block_hash.len());
    let _ = sizes.insert(PREVIOUS_JUSTIFIED_CHECKPOINT, state.previous_justified_epoch.len() + state.previous_justified_root.len());
    let _ = sizes.insert(CURRENT_JUSTIFIED_CHECKPOINT, state.current_justified_epoch.len() + state.current_justified_root.len());
    let _ = sizes.insert(FINALIZED_CHECKPOINT, state.finalized_epoch.len() + state.finalized_root.len());
    let _ = sizes.insert(CURRENT_SYNC_COMMITTEE, state.current_sync_committee_pubkeys.len() + state.current_sync_committee_aggregate_pubkey.len());
    let _ = sizes.insert(NEXT_SYNC_COMMITTEE, state.next_sync_committee_pubkeys.len() + state.next_sync_committee_aggregate_pubkey.len());
}

#[verifier::rlimit(100)]
/// Serializes a beacon state in SSZ: the fixed-size fields with the
/// offset of each variable-size field in its place, then the
/// variable-size fields; returns the serialized state with its table of
/// sizes and its table of offsets. The justification bits, an SSZ
/// `Bitvector[4]`, are written as they are, with no length cap
/// (`length_cap_to_justification_bits` is not applied).
pub fn serialize_beacon_state(state: &SszBeaconState) -> (out: (Vec<u8>, HashMap<u64, usize>, HashMap<u64, usize>))
    requires
        fixed_len(*state) + variable_part(*state).len() < MAXIMUM_LENGTH,
    ensures
        out.0@ == serialized_spec(*state),
        out.1@ == sizes_spec(*state),
        out.2@ == offsets_spec(*state),
{
    let ghost st = *state;
    proof {
        lemma_var_ends(st);
        lemma_fixed_part_len(st);
    }
    let f = fixed_len_of(state) as usize;
    let mut fixed_parts: Vec<u8> = Vec::new();
    let mut variable_parts: Vec<u8> = Vec::new();
    let mut sizes: HashMap<u64, usize> = HashMap::new();
    let mut offsets: HashMap<u64, usize> = HashMap::new();
    add_fixed(&mut fixed_parts, &mut sizes, GENESIS_TIME, state.genesis_time.as_slice());
    add_fixed(&mut fixed_parts, &mut sizes, GENESIS_VALIDATORS_ROOT, state.genesis_validators_root.as_slice());
    add_fixed(&mut fixed_parts, &mut sizes, SLOT, state.slot.as_slice());
    add_fixed(&mut fixed_parts, &mut sizes, FORK_PREVIOUS_VERSION, state.fork_previous_version.as_slice());
    add_fixed(&mut fixed_parts, &mut sizes, FORK_CURRENT_VERSION, state.fork_current_version.as_slice());
    add_fixed(&mut fixed_parts, &mut sizes, FORK_EPOCH, state.fork_epoch.as_slice());
    add_fixed(&mut fixed_parts, &mut sizes, HEADER_SLOT, state.header_slot.as_slice());
    add_fixed(&mut fixed_parts, &mut sizes, HEADER_PROPOSER_INDEX, state.header_proposer_index.as_slice());
    add_fixed(&mut fixed_parts, &mut sizes, HEADER_PARENT_ROOT, state.header_parent_root.as_slice());
    add_fixed(&mut fixed_parts, &mut sizes, HEADER_STATE_ROOT, state.header_state_root.as_slice());
    add_fixed(&mut fixed_parts, &mut sizes, HEADER_BODY_ROOT, state.header_body_root.as_slice());
    add_fixed(&mut fixed_parts, &mut sizes, BLOCK_ROOTS, state.block_roots.as_slice());
    add_fixed(&mut fixed_parts, &mut sizes, STATE_ROOTS, state.state_roots.as_slice());

    // historical roots
    let _ = offsets.insert(HISTORICAL_ROOTS, f + variable_parts.len());
    push_offset(&mut fixed_parts, f + variable_parts.len());
    push_bytes(&mut variable_parts, state.historical_roots.as_slice());
    let _ = sizes.insert(HISTORICAL_ROOTS, state.historical_roots.len());

    add_fixed(&mut fixed_parts, &mut sizes, ETH1_DEPOSIT_ROOT, state.eth1_deposit_root.as_slice());
    add_fixed(&mut fixed_parts, &mut sizes, ETH1_DEPOSIT_COUNT, state.eth1_deposit_count.as_slice());
    add_fixed(&mut fixed_parts, &mut sizes, ETH1_DATA_BLOCK_HASH, state.eth1_block_hash.as_slice());

    // eth1 data votes
    let votes = votes_ssz(&state.eth1_data_votes);
    let _ = offsets.insert(ETH1_DATA_VOTES, f + variable_parts.len());
    push_offset(&mut fixed_parts, f + variable_parts.len());
    push_bytes(&mut variable_parts, votes.as_slice());
    let _ = sizes.insert(ETH1_DATA_VOTES, votes.len());

    add_fixed(&mut fixed_parts, &mut sizes, ETH1_DEPOSIT_INDEX, state.eth1_deposit_index.as_slice());

    // validators and balances
    let _ = offsets.insert(VALIDATORS, f + variable_parts.len());
    push_offset(&mut fixed_parts, f + variable_parts.len());
    push_bytes(&mut variable_parts, state.validators.as_slice());
    let _ = sizes.insert(VALIDATORS, state.validators.len());
    let _ = offsets.insert(BALANCES, f + variable_parts.len());
    push_offset(&mut fixed_parts, f + variable_parts.len());
    push_bytes(&mut variable_parts, state.balances.as_slice());
    let _ = sizes.insert(BALANCES, state.balances.len());

    add_fixed(&mut fixed_parts, &mut sizes, RANDAO_MIXES, state.randao_mixes.as_slice());
    add_fixed(&mut fixed_parts, &mut sizes, SLASHINGS, state.slashings.as_slice());

    // epoch participations
    let _ = offsets.insert(PREVIOUS_EPOCH_PARTICIPATION, f + variable_parts.len());
    push_offset(&mut fixed_parts, f + variable_parts.len());
    push_bytes(&mut variable_parts, state.previous_epoch_participation.as_slice());
    let _ = sizes.insert(PREVIOUS_EPOCH_PARTICIPATION, state.previous_epoch_participation.len());
    let _ = offsets.insert(CURRENT_EPOCH_PARTICIPATION, f + variable_parts.len());
    push_offset(&mut fixed_parts, f + variable_parts.len());
    push_bytes(&mut variable_parts, state.current_epoch_participation.as_slice());
    let _ = sizes.insert(CURRENT_EPOCH_PARTICIPATION, state.current_epoch_participation.len());

    add_fixed(&mut fixed_parts, &mut sizes, JUSTIFICATION_BITS, state.justification_bits.as_slice());
    add_fixed(&mut fixed_parts, &mut sizes, PREVIOUS_CHECKPOINT_EPOCH, state.previous_justified_epoch.as_slice());
    add_fixed(&mut fixed_parts, &mut sizes, PREVIOUS_CHECKPOINT_ROOT, state.previous_justified_root.as_slice());
    add_fixed(&mut fixed_parts, &mut sizes, CURRENT_CHECKPOINT_EPOCH, state.current_justified_epoch.as_slice());
    add_fixed(&mut fixed_parts, &mut sizes, CURRENT_CHECKPOINT_ROOT, state.current_justified_root.as_slice());
    add_fixed(&mut fixed_parts, &mut sizes, FINALIZED_CHECKPOINT_EPOCH, state.finalized_epoch.as_slice());
    add_fixed(&mut fixed_parts, &mut sizes, FINALIZED_CHECKPOINT_ROOT, state.finalized_root.as_slice());

    // inactivity scores
    let _ = offsets.insert(INACTIVITY_SCORES, f + variable_parts.len());
    push_offset(&mut fixed_parts, f + variable_parts.len());
    push_bytes(&mut variable_parts, state.inactivity_scores.as_slice());
    let _ = sizes.insert(INACTIVITY_SCORES, state.inactivity_scores.len());

    add_fixed(&mut fixed_parts, &mut sizes, CURRENT_SYNC_COMMITTEE_PUBKEYS, state.current_sync_committee_pubkeys.as_slice());
    add_fixed(&mut fixed_parts, &mut sizes, CURRENT_SYNC_COMMITTEE_AGG_PUBKEY, state.current_sync_committee_aggregate_pubkey.as_slice());
    add_fixed(&mut fixed_parts, &mut sizes, NEXT_SYNC_COMMITTEE_PUBKEYS, state.next_sync_committee_pubkeys.as_slice());
    add_fixed(&mut fixed_parts, &mut sizes, NEXT_SYNC_COMMITTEE_AGG_PUBKEY, state.next_sync_committee_aggregate_pubkey.as_slice());
    add_container_sizes(&mut sizes, state);

    assert(variable_parts@ =~= variable_part(st));
    assert(fixed_parts@ =~= fixed_part(st));
    let _ = sizes.insert(FIXED_PARTS, f);
    let mut serialized_state: Vec<u8> = Vec::new();
    serialized_state.append(&mut fixed_parts);
    serialized_state.append(&mut variable_parts);
    let _ = sizes.insert(TOTAL_LENGTH, serialized_state.len());
    assert(sizes@ =~= sizes_spec(st));
    assert(offsets@ =~= offsets_spec(st));
    (serialized_state, sizes, offsets)
}

/// Whether the serialized state stays below `MAXIMUM_LENGTH` bytes.
fn serialized_len_below_max(state: &SszBeaconState) -> (ok: bool)
    ensures
        ok == (fixed_len(*state) + variable_part(*state).len() < MAXIMUM_LENGTH),
{
    proof {
        lemma_var_ends(*state);
    }
    let fixed = fixed_len_of(state);
    if fixed >= MAXIMUM_LENGTH as u128 {
        return false;
    }
    let votes = match votes_len_below(&state.eth1_data_votes, MAXIMUM_LENGTH as u128) {
        Some(v) => v,
        None => {
            return false;
        },
    };
    let total: u128 = fixed + state.historical_roots.len() as u128 + votes as u128
        + state.validators.len() as u128 + state.balances.len() as u128
        + state.previous_epoch_participation.len() as u128
        + state.current_epoch_participation.len() as u128 + state.inactivity_scores.len() as u128;
    total < MAXIMUM_LENGTH as u128
}

/// Serializes a beacon state as `serialize_beacon_state` does, when it
/// can: `None` when the serialized state would reach `MAXIMUM_LENGTH`
/// bytes (its offsets would not fit in 4 bytes).
pub fn try_serialize_beacon_state(state: &SszBeaconState) -> (out: Option<(Vec<u8>, HashMap<u64, usize>, HashMap<u64, usize>)>)
    ensures
        out is Some <==> fixed_len(*state) + variable_part(*state).len() < MAXIMUM_LENGTH,
        out matches Some(o) ==> {
            &&& o.0@ == serialized_spec(*state)
            &&& o.1@ == sizes_spec(*state)
            &&& o.2@ == offsets_spec(*state)
        },
{
    if !serialized_len_below_max(state) {
        return None;
    }
    Some(serialize_beacon_state(state))
}

/// The padding that `length_cap_spec` adds after the cap byte.
pub open spec fn cap_padding(n: nat) -> nat {
    if n + 1 < 4 {
        (3 - n) as nat
    } else {
        0
    }
}

/// Law: removing the length cap undoes adding it, but for the byte that
/// held the cap and the padding, which stay as zeros.
#[verifier::spinoff_prover]
pub proof fn lemma_remove_cap_undoes_length_cap(bits: Seq<u8>)
    ensures
        remove_cap_spec(length_cap_spec(bits)) == bits.push(0u8) + zeros(cap_padding(bits.len())),
{
    let z = zeros(cap_padding(bits.len()));
    let capped = bits.push(128u8) + z;
    let cleared = bits.push(0u8) + z;
    assert(length_cap_spec(bits) == capped);
    let n = bits.len() as int;
    lemma_bytes_to_bits_append(bits.push(128u8), z);
    lemma_bytes_to_bits_append(bits.push(0u8), z);
    lemma_bytes_to_bits_append(bits, seq![128u8]);
    lemma_bytes_to_bits_append(bits, seq![0u8]);
    assert(bits.push(128u8) =~= bits + seq![128u8]);
    assert(bits.push(0u8) =~= bits + seq![0u8]);
    let bc = bytes_to_bits(capped);
    let bz = bytes_to_bits(cleared);
    assert(bytes_to_bits(seq![128u8])[0] == byte_bit(128u8, 7));
    assert(bc[8 * n]);
    assert forall|k: int| 8 * n < k < bc.len() implies !bc[k] by {
        if k < 8 * n + 8 {
            let j = k - 8 * n;
            assert(bytes_to_bits(seq![128u8])[j] == byte_bit(128u8, (7 - j) as nat));
        } else {
            let zb = bytes_to_bits(z);
            assert(zb[k - 8 * n - 8] == byte_bit(0u8, (7 - (k - 8 * n - 8) % 8) as nat));
        }
    }
    lemma_clear_last_set_at(bc, 8 * n);
    assert forall|k: int| 0 <= k < bz.len() implies bc.update(8 * n, false)[k] == bz[k] by {
        if 8 * n <= k < 8 * n + 8 {
            let j = k - 8 * n;
            assert(bytes_to_bits(seq![128u8])[j] == byte_bit(128u8, (7 - j) as nat));
            assert(bytes_to_bits(seq![0u8])[j] == byte_bit(0u8, (7 - j) as nat));
        }
    }
    assert(bc.update(8 * n, false) =~= bz);
    lemma_bytes_bits_roundtrip(cleared);
}

/// Law: the tables describe the layout of the serialized state. It is
/// `sizes[TOTAL_LENGTH]` bytes long; the variable part starts at
/// `sizes[FIXED_PARTS]`, where the first offset points; each variable-size
/// field lies at its offset, `sizes[key]` bytes long.
pub proof fn lemma_tables_describe_layout(st: SszBeaconState)
    requires
        fixed_len(st) + variable_part(st).len() < MAXIMUM_LENGTH,
    ensures
        ({
            let s = serialized_spec(st);
            let sz = sizes_spec(st);
            let off = offsets_spec(st);
            &&& sz[TOTAL_LENGTH] == s.len()
            &&& sz[FIXED_PARTS] == fixed_part(st).len()
            &&& off[HISTORICAL_ROOTS] == sz[FIXED_PARTS]
            &&& s.skip(sz[FIXED_PARTS] as int) == variable_part(st)
            &&& s.subrange(off[HISTORICAL_ROOTS] as int, off[HISTORICAL_ROOTS] + sz[HISTORICAL_ROOTS]) == st.historical_roots@
            &&& s.subrange(off[ETH1_DATA_VOTES] as int, off[ETH1_DATA_VOTES] + sz[ETH1_DATA_VOTES]) == votes_bytes(st.eth1_data_votes@)
            &&& s.subrange(off[VALIDATORS] as int, off[VALIDATORS] + sz[VALIDATORS]) == st.validators@
            &&& s.subrange(off[BALANCES] as int, off[BALANCES] + sz[BALANCES]) == st.balances@
            &&& s.subrange(off[PREVIOUS_EPOCH_PARTICIPATION] as int, off[PREVIOUS_EPOCH_PARTICIPATION] + sz[PREVIOUS_EPOCH_PARTICIPATION]) == st.previous_epoch_participation@
            &&& s.subrange(off[CURRENT_EPOCH_PARTICIPATION] as int, off[CURRENT_EPOCH_PARTICIPATION] + sz[CURRENT_EPOCH_PARTICIPATION]) == st.current_epoch_participation@
            &&& s.subrange(off[INACTIVITY_SCORES] as int, off[INACTIVITY_SCORES] + sz[INACTIVITY_SCORES]) == st.inactivity_scores@
            &&& off[INACTIVITY_SCORES] + sz[INACTIVITY_SCORES] == s.len()
        }),
{
    let f = fixed_part(st);
    let h = st.historical_roots@;
    let e = votes_bytes(st.eth1_data_votes@);
    let v = st.validators@;
    let b = st.balances@;
    let p = st.previous_epoch_participation@;
    let c = st.current_epoch_participation@;
    let i = st.inactivity_scores@;
    lemma_var_ends(st);
    lemma_fixed_part_len(st);
    assert(variable_part(st) =~= h + e + v + b + p + c + i);
    lemma_seven_parts(f, h, e, v, b, p, c, i);
}

/// Seven parts laid out after a prefix: each lies between the sums of the
/// lengths before it and up to it.
proof fn lemma_seven_parts(
    f: Seq<u8>,
    h: Seq<u8>,
    e: Seq<u8>,
    v: Seq<u8>,
    b: Seq<u8>,
    p: Seq<u8>,
    c: Seq<u8>,
    i: Seq<u8>,
)
    ensures
        ({
            let all = f + (h + e + v + b + p + c + i);
            let n = f.len() as int;
            let k1 = n + h.len();
            let k2 = k1 + e.len();
            let k3 = k2 + v.len();
            let k4 = k3 + b.len();
            let k5 = k4 + p.len();
            let k6 = k5 + c.len();
            &&& all.skip(n) == h + e + v + b + p + c + i
            &&& all.subrange(n, k1) == h
            &&& all.subrange(k1, k2) == e
            &&& all.subrange(k2, k3) == v
            &&& all.subrange(k3, k4) == b
            &&& all.subrange(k4, k5) == p
            &&& all.subrange(k5, k6) == c
            &&& all.subrange(k6, k6 + i.len()) == i
        }),
{
    let all = f + (h + e + v + b + p + c + i);
    let n = f.len() as int;
    let k1 = n + h.len();
    let k2 = k1 + e.len();
    let k3 = k2 + v.len();
    let k4 = k3 + b.len();
    let k5 = k4 + p.len();
    let k6 = k5 + c.len();
    assert(all.skip(n) =~= h + e + v + b + p + c + i);
    assert(all.subrange(n, k1) =~= h);
    assert(all.subrange(k1, k2) =~= e);
    assert(all.subrange(k2, k3) =~= v);
    assert(all.subrange(k3, k4) =~= b);
    assert(all.subrange(k4, k5) =~= p);
    assert(all.subrange(k5, k6) =~= c);
    assert(all.subrange(k6, k6 + i.len()) =~= i);
}
/// The number that four bytes write in little-endian order.
pub open spec fn u32_le_value(b: Seq<u8>) -> nat {
    b[0] as nat + 256 * (b[1] as nat) + 65536 * (b[2] as nat) + 16777216 * (b[3] as nat)
}

/// An offset below `2 ** 32` is written as four bytes that read back, in
/// little-endian order, as the offset.
pub proof fn lemma_offset_bytes_read_back(n: nat)
    requires
        n < MAXIMUM_LENGTH,
    ensures
        offset_bytes_spec(n).len() == 4,
        u32_le_value(offset_bytes_spec(n)) == n,
{
    let x = n as u64;
    vstd::bytes::spec_u64_to_le_bytes_to_open(x);
    let b = offset_bytes_spec(n);
    assert(b.len() == 4);
    assert(b[0] == (x & 0xff) as u8);
    assert(b[1] == ((x >> 8) & 0xff) as u8);
    assert(b[2] == ((x >> 16) & 0xff) as u8);
    assert(b[3] == ((x >> 24) & 0xff) as u8);
    assert(((x & 0xff) as u8) as u64 + 256 * (((x >> 8) & 0xff) as u8) as u64 + 65536 * (((x >> 16)
        & 0xff) as u8) as u64 + 16777216 * (((x >> 24) & 0xff) as u8) as u64 == x) by (bit_vector)
        requires
            x < 4294967296u64,
    ;
}

} // verus!

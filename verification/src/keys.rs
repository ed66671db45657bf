//! Identifiers of the named entries in the size and offset tables that
//! serialization produces and merkleization reads: one per field name.

use vstd::prelude::*;

verus! {

/// Key of `genesis_time`.
pub const GENESIS_TIME: u64 = 0;

/// Key of `genesis_validators_root`.
pub const GENESIS_VALIDATORS_ROOT: u64 = 1;

/// Key of `slot`.
pub const SLOT: u64 = 2;

/// Key of `fork_epoch`.
pub const FORK_EPOCH: u64 = 5;

/// Key of `header_slot`.
pub const HEADER_SLOT: u64 = 6;

/// Key of `header_proposer_index`.
pub const HEADER_PROPOSER_INDEX: u64 = 7;

/// Key of `header_parent_root`.
pub const HEADER_PARENT_ROOT: u64 = 8;

/// Key of `header_state_root`.
pub const HEADER_STATE_ROOT: u64 = 9;

/// Key of `header_body_root`.
pub const HEADER_BODY_ROOT: u64 = 10;

/// Key of `block_roots`.
pub const BLOCK_ROOTS: u64 = 11;

/// Key of `state_roots`.
pub const STATE_ROOTS: u64 = 12;

/// Key of `historical_roots`.
pub const HISTORICAL_ROOTS: u64 = 13;

/// Key of `eth1_data_block_hash`.
pub const ETH1_DATA_BLOCK_HASH: u64 = 16;

/// Key of `eth1_data_votes`.
pub const ETH1_DATA_VOTES: u64 = 17;

/// Key of `eth1_deposit_index`.
pub const ETH1_DEPOSIT_INDEX: u64 = 18;

/// Key of `validators`.
pub const VALIDATORS: u64 = 19;

/// Key of `balances`.
pub const BALANCES: u64 = 20;

/// Key of `randao_mixes`.
pub const RANDAO_MIXES: u64 = 21;

/// Key of `slashings`.
pub const SLASHINGS: u64 = 22;

/// Key of `previous_epoch_participation`.
pub const PREVIOUS_EPOCH_PARTICIPATION: u64 = 23;

/// Key of `current_epoch_participation`.
pub const CURRENT_EPOCH_PARTICIPATION: u64 = 24;

/// Key of `justification_bits`.
pub const JUSTIFICATION_BITS: u64 = 25;

/// Key of `inactivity_scores`.
pub const INACTIVITY_SCORES: u64 = 32;

/// Key of `fixed_parts`.
pub const FIXED_PARTS: u64 = 37;

/// Key of `total_length`.
pub const TOTAL_LENGTH: u64 = 38;

/// Key of `fork`.
pub const FORK: u64 = 39;

/// Key of `latest_block_header`.
pub const LATEST_BLOCK_HEADER: u64 = 40;

/// Key of `eth1_data`.
pub const ETH1_DATA: u64 = 41;

/// Key of `previous_justified_checkpoint`.
pub const PREVIOUS_JUSTIFIED_CHECKPOINT: u64 = 42;

/// Key of `current_justified_checkpoint`.
pub const CURRENT_JUSTIFIED_CHECKPOINT: u64 = 43;

/// Key of `finalized_checkpoint`.
pub const FINALIZED_CHECKPOINT: u64 = 44;

/// Key of `current_sync_committee`.
pub const CURRENT_SYNC_COMMITTEE: u64 = 45;

/// Key of `next_sync_committee`.
pub const NEXT_SYNC_COMMITTEE: u64 = 46;

/// Key of `fork_previous_version`.
pub const FORK_PREVIOUS_VERSION: u64 = 47;

/// Key of `fork_current_version`.
pub const FORK_CURRENT_VERSION: u64 = 48;

/// Key of `eth1_deposit_root`.
pub const ETH1_DEPOSIT_ROOT: u64 = 49;

/// Key of `eth1_deposit_count`.
pub const ETH1_DEPOSIT_COUNT: u64 = 50;

/// Key of `previous_checkpoint_epoch`.
pub const PREVIOUS_CHECKPOINT_EPOCH: u64 = 51;

/// Key of `previous_checkpoint_root`.
pub const PREVIOUS_CHECKPOINT_ROOT: u64 = 52;

/// Key of `current_checkpoint_epoch`.
pub const CURRENT_CHECKPOINT_EPOCH: u64 = 53;

/// Key of `current_checkpoint_root`.
pub const CURRENT_CHECKPOINT_ROOT: u64 = 54;

/// Key of `finalized_checkpoint_epoch`.
pub const FINALIZED_CHECKPOINT_EPOCH: u64 = 55;

/// Key of `finalized_checkpoint_root`.
pub const FINALIZED_CHECKPOINT_ROOT: u64 = 56;

/// Key of `current_sync_committee_pubkeys`.
pub const CURRENT_SYNC_COMMITTEE_PUBKEYS: u64 = 57;

/// Key of `current_sync_committee_agg_pubkey`.
pub const CURRENT_SYNC_COMMITTEE_AGG_PUBKEY: u64 = 58;

/// Key of `next_sync_committee_pubkeys`.
pub const NEXT_SYNC_COMMITTEE_PUBKEYS: u64 = 59;

/// Key of `next_sync_committee_agg_pubkey`.
pub const NEXT_SYNC_COMMITTEE_AGG_PUBKEY: u64 = 60;

} // verus!

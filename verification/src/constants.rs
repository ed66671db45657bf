use vstd::prelude::*;

verus! {

/// Generalized index of `next_sync_committee` in the beacon state tree.
pub const NEXT_SYNC_COMMITTEE_INDEX: u64 = 55;

/// `floor(log2(NEXT_SYNC_COMMITTEE_INDEX))`: the length of its branch.
pub const NEXT_SYNC_COMMITTEE_INDEX_FLOOR_LOG2: u64 = 5;

/// Generalized index of the finalized checkpoint root in the beacon state tree.
pub const FINALIZED_ROOT_INDEX: u64 = 105;

/// `floor(log2(FINALIZED_ROOT_INDEX))`: the length of its branch.
pub const FINALIZED_ROOT_INDEX_FLOOR_LOG2: u64 = 6;

pub const BYTES_PER_CHUNK: usize = 32;

pub const BYTES_PER_LENGTH_OFFSET: usize = 4;

pub const BITS_PER_BYTE: usize = 8;

/// `2 ** (BYTES_PER_LENGTH_OFFSET * BITS_PER_BYTE)`: a serialized object
/// must be shorter than this.
pub const MAXIMUM_LENGTH: u64 = 4294967296;

pub const N_VARIABLE_LENGTH: usize = 7;

pub const SLOTS_PER_HISTORICAL_ROOT: usize = 8192;

pub const JUSTIFICATION_BITS_LENGTH: u64 = 4;

pub const VALIDATOR_REGISTRY_LIMIT: u64 = 1099511627776;

pub const HISTORICAL_ROOTS_LIMIT: usize = 16777216;

pub const SYNC_COMMITTEE_SIZE: usize = 512;

pub const EPOCHS_PER_SYNC_COMMITTEE_PERIOD: usize = 256;

pub const EPOCHS_PER_SLASHINGS_VECTOR: usize = 8192;

} // verus!

//! Building blocks of an Ethereum beacon-chain light client server:
//! SSZ serialization of the beacon state, packing and merkleization of
//! its fields, and merkle branches for light-client updates.

pub mod constants;
pub mod merkle_proofs;
pub mod keys;
pub mod hashing;
pub mod bitfield;
pub mod chunks;
pub mod merkleize;
pub mod container_roots;
pub mod types;
pub mod expand_vecs;
pub mod serialize;
pub mod serialize_and_merkleize;
pub mod node_discovery;
pub mod text;
pub mod query_node;
pub mod build_objects;
pub mod pipeline;

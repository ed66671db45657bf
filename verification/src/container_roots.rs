//! The roots of the beacon state's small containers, written out as the
//! hashes of their fields' chunks in SSZ order.

use crate::chunks::{lemma_pack_spec_len, pack_spec, packed_len, zeros};
use crate::hashing::sha256_spec;
use crate::keys::{
    ETH1_DATA, FINALIZED_CHECKPOINT,
    CURRENT_JUSTIFIED_CHECKPOINT, PREVIOUS_JUSTIFIED_CHECKPOINT, FORK, FORK_CURRENT_VERSION,
    FORK_PREVIOUS_VERSION, HEADER_BODY_ROOT, HEADER_PARENT_ROOT, HEADER_PROPOSER_INDEX,
    HEADER_SLOT, HEADER_STATE_ROOT, LATEST_BLOCK_HEADER, CURRENT_CHECKPOINT_EPOCH,
    CURRENT_CHECKPOINT_ROOT, FINALIZED_CHECKPOINT_EPOCH, FINALIZED_CHECKPOINT_ROOT,
    PREVIOUS_CHECKPOINT_EPOCH, PREVIOUS_CHECKPOINT_ROOT,
};
use crate::merkleize::{
    chunks_of, container_parts, container_root_spec, hash_pairs, lemma_packed_concat_small,
    merkle_root, packed_concat, root_of_level,
};
use vstd::prelude::*;

verus! {

/// The `i`-th 32-byte chunk of `s`.
pub open spec fn chunk(s: Seq<u8>, i: int) -> Seq<u8> {
    s.subrange(32 * i, 32 * i + 32)
}

/// The merkle root of 64 bytes is the hash of its two chunks.
pub proof fn lemma_root_of_two_chunks(s: Seq<u8>)
    requires
        s.len() == 64,
    ensures
        merkle_root(s) == sha256_spec(chunk(s, 0) + chunk(s, 1)),
{
    let level = chunks_of(s);
    assert(level.len() == 2);
    let up = hash_pairs(level);
    assert(up.len() == 1);
    assert(up[0] == sha256_spec(chunk(s, 0) + chunk(s, 1)));
    reveal_with_fuel(root_of_level, 2);
}

/// The merkle root of 128 bytes is the tree over its four chunks.
pub proof fn lemma_root_of_four_chunks(s: Seq<u8>)
    requires
        s.len() == 128,
    ensures
        merkle_root(s) == sha256_spec(
            sha256_spec(chunk(s, 0) + chunk(s, 1)) + sha256_spec(chunk(s, 2) + chunk(s, 3)),
        ),
{
    let level = chunks_of(s);
    assert(level.len() == 4);
    let l1 = hash_pairs(level);
    assert(l1.len() == 2);
    assert(l1[0] == sha256_spec(chunk(s, 0) + chunk(s, 1)));
    assert(l1[1] == sha256_spec(chunk(s, 2) + chunk(s, 3)));
    let l2 = hash_pairs(l1);
    assert(l2.len() == 1);
    assert(l2[0] == sha256_spec(l1[0] + l1[1]));
    reveal_with_fuel(root_of_level, 3);
}

/// The merkle root of 256 bytes is the tree over its eight chunks.
pub proof fn lemma_root_of_eight_chunks(s: Seq<u8>)
    requires
        s.len() == 256,
    ensures
        merkle_root(s) == sha256_spec(
            sha256_spec(
                sha256_spec(chunk(s, 0) + chunk(s, 1)) + sha256_spec(chunk(s, 2) + chunk(s, 3)),
            ) + sha256_spec(
                sha256_spec(chunk(s, 4) + chunk(s, 5)) + sha256_spec(chunk(s, 6) + chunk(s, 7)),
            ),
        ),
{
    let level = chunks_of(s);
    assert(level.len() == 8);
    let l1 = hash_pairs(level);
    assert(l1.len() == 4);
    assert(l1[0] == sha256_spec(chunk(s, 0) + chunk(s, 1)));
    assert(l1[1] == sha256_spec(chunk(s, 2) + chunk(s, 3)));
    assert(l1[2] == sha256_spec(chunk(s, 4) + chunk(s, 5)));
    assert(l1[3] == sha256_spec(chunk(s, 6) + chunk(s, 7)));
    let l2 = hash_pairs(l1);
    assert(l2.len() == 2);
    assert(l2[0] == sha256_spec(l1[0] + l1[1]));
    assert(l2[1] == sha256_spec(l1[2] + l1[3]));
    let l3 = hash_pairs(l2);
    assert(l3.len() == 1);
    assert(l3[0] == sha256_spec(l2[0] + l2[1]));
    reveal_with_fuel(root_of_level, 4);
}

/// The latest block header's root is the merkle root of its five fields
/// in SSZ order (slot, proposer index, parent root, state root, body
/// root), each cut from `var` after the sizes of the fields before it and
/// padded to a chunk, followed by three zero chunks.
pub proof fn lemma_header_root(var: Seq<u8>, sizes: Map<u64, usize>)
    requires
        sizes[HEADER_SLOT] <= 32,
        sizes[HEADER_PROPOSER_INDEX] <= 32,
        sizes[HEADER_PARENT_ROOT] <= 32,
        sizes[HEADER_STATE_ROOT] <= 32,
        sizes[HEADER_BODY_ROOT] <= 32,
        sizes[HEADER_SLOT] + sizes[HEADER_PROPOSER_INDEX] + sizes[HEADER_PARENT_ROOT]
            + sizes[HEADER_STATE_ROOT] + sizes[HEADER_BODY_ROOT] <= var.len(),
    ensures
        ({
            let a = sizes[HEADER_SLOT] as int;
            let b = a + sizes[HEADER_PROPOSER_INDEX];
            let c = b + sizes[HEADER_PARENT_ROOT];
            let d = c + sizes[HEADER_STATE_ROOT];
            let e = d + sizes[HEADER_BODY_ROOT];
            let slot = pack_spec(var.subrange(0, a));
            let proposer_index = pack_spec(var.subrange(a, b));
            let parent_root = pack_spec(var.subrange(b, c));
            let state_root = pack_spec(var.subrange(c, d));
            let body_root = pack_spec(var.subrange(d, e));
            let z = zeros(32);
            container_root_spec(LATEST_BLOCK_HEADER, var, sizes) == sha256_spec(
                sha256_spec(sha256_spec(slot + proposer_index) + sha256_spec(parent_root + state_root))
                    + sha256_spec(sha256_spec(body_root + z) + sha256_spec(z + z)),
            )
        }),
{
    let a = sizes[HEADER_SLOT] as int;
    let b = a + sizes[HEADER_PROPOSER_INDEX];
    let c = b + sizes[HEADER_PARENT_ROOT];
    let d = c + sizes[HEADER_STATE_ROOT];
    let e = d + sizes[HEADER_BODY_ROOT];
    let parts = container_parts(LATEST_BLOCK_HEADER, var, sizes);
    assert(parts.len() == 5);
    assert(parts[0] == var.subrange(0, a));
    assert(parts[1] == var.subrange(a, b));
    assert(parts[2] == var.subrange(b, c));
    assert(parts[3] == var.subrange(c, d));
    assert(parts[4] == var.subrange(d, e));
    let p0 = pack_spec(parts[0]);
    let p1 = pack_spec(parts[1]);
    let p2 = pack_spec(parts[2]);
    let p3 = pack_spec(parts[3]);
    let p4 = pack_spec(parts[4]);
    lemma_pack_spec_len(parts[0]);
    lemma_pack_spec_len(parts[1]);
    lemma_pack_spec_len(parts[2]);
    lemma_pack_spec_len(parts[3]);
    lemma_pack_spec_len(parts[4]);
    lemma_packed_concat_small(parts);
    let x = packed_concat(parts);
    assert(x == p0 + p1 + p2 + p3 + p4);
    assert(x.len() == 160);
    reveal_with_fuel(crate::chunks::next_pow2, 5);
    assert(packed_len(160) == 256);
    let s = pack_spec(x);
    let z = zeros(32);
    assert(s =~= p0 + p1 + p2 + p3 + p4 + z + z + z);
    lemma_root_of_eight_chunks(s);
    assert(chunk(s, 0) =~= p0);
    assert(chunk(s, 1) =~= p1);
    assert(chunk(s, 2) =~= p2);
    assert(chunk(s, 3) =~= p3);
    assert(chunk(s, 4) =~= p4);
    assert(chunk(s, 5) =~= z);
    assert(chunk(s, 6) =~= z);
    assert(chunk(s, 7) =~= z);
}

/// The fork's root is the merkle root of its previous version, its
/// current version and its epoch (the rest of `var`), in that order, each
/// padded to a chunk, followed by a zero chunk.
pub proof fn lemma_fork_root(var: Seq<u8>, sizes: Map<u64, usize>)
    requires
        sizes[FORK_PREVIOUS_VERSION] <= 32,
        sizes[FORK_CURRENT_VERSION] <= 32,
        sizes[FORK_PREVIOUS_VERSION] + sizes[FORK_CURRENT_VERSION] <= var.len()
            <= sizes[FORK_PREVIOUS_VERSION] + sizes[FORK_CURRENT_VERSION] + 32,
    ensures
        ({
            let a = sizes[FORK_PREVIOUS_VERSION] as int;
            let b = a + sizes[FORK_CURRENT_VERSION];
            let previous_version = pack_spec(var.subrange(0, a));
            let current_version = pack_spec(var.subrange(a, b));
            let epoch = pack_spec(var.subrange(b, var.len() as int));
            container_root_spec(FORK, var, sizes) == sha256_spec(
                sha256_spec(previous_version + current_version) + sha256_spec(epoch + zeros(32)),
            )
        }),
{
    let a = sizes[FORK_PREVIOUS_VERSION] as int;
    let b = a + sizes[FORK_CURRENT_VERSION];
    let parts = container_parts(FORK, var, sizes);
    assert(parts.len() == 3);
    assert(parts[0] == var.subrange(0, a));
    assert(parts[1] == var.subrange(a, b));
    assert(parts[2] == var.subrange(b, var.len() as int));
    let p0 = pack_spec(parts[0]);
    let p1 = pack_spec(parts[1]);
    let p2 = pack_spec(parts[2]);
    lemma_pack_spec_len(parts[0]);
    lemma_pack_spec_len(parts[1]);
    lemma_pack_spec_len(parts[2]);
    lemma_packed_concat_small(parts);
    let x = packed_concat(parts);
    assert(x == p0 + p1 + p2);
    assert(x.len() == 96);
    reveal_with_fuel(crate::chunks::next_pow2, 4);
    assert(packed_len(96) == 128);
    let s = pack_spec(x);
    let z = zeros(32);
    assert(s =~= p0 + p1 + p2 + z);
    lemma_root_of_four_chunks(s);
    assert(chunk(s, 0) =~= p0);
    assert(chunk(s, 1) =~= p1);
    assert(chunk(s, 2) =~= p2);
    assert(chunk(s, 3) =~= z);
}

/// The root of a two-field container whose fields each fit a chunk is the
/// hash of its first field's chunk followed by its second's: the first
/// field is cut from the start of `var`, the second right after it.
proof fn lemma_pair_root(key: u64, var: Seq<u8>, sizes: Map<u64, usize>, first: u64, second: u64)
    requires
        key != FORK,
        key != ETH1_DATA,
        key != LATEST_BLOCK_HEADER,
        crate::merkleize::pair_keys(key) == (first, second),
        sizes[first] <= 32,
        sizes[second] <= 32,
        sizes[first] + sizes[second] <= var.len(),
    ensures
        container_root_spec(key, var, sizes) == sha256_spec(
            pack_spec(var.subrange(0, sizes[first] as int)) + pack_spec(
                var.subrange(sizes[first] as int, sizes[first] + sizes[second]),
            ),
        ),
{
    let a = sizes[first] as int;
    let b = a + sizes[second];
    let parts = container_parts(key, var, sizes);
    assert(parts.len() == 2);
    assert(parts[0] == var.subrange(0, a));
    assert(parts[1] == var.subrange(a, b));
    let p0 = pack_spec(parts[0]);
    let p1 = pack_spec(parts[1]);
    lemma_pack_spec_len(parts[0]);
    lemma_pack_spec_len(parts[1]);
    lemma_packed_concat_small(parts);
    let x = packed_concat(parts);
    assert(x == p0 + p1);
    reveal_with_fuel(crate::chunks::next_pow2, 3);
    assert(packed_len(64) == 64);
    let s = pack_spec(x);
    assert(s =~= p0 + p1);
    lemma_root_of_two_chunks(s);
    assert(chunk(s, 0) =~= p0);
    assert(chunk(s, 1) =~= p1);
}

/// The root of each of the three checkpoints (previous justified, current
/// justified, finalized) is the hash of its epoch's chunk followed by its
/// root's chunk: the epoch is cut from the start of `var`, the root right
/// after it.
pub proof fn lemma_checkpoint_roots(var: Seq<u8>, sizes: Map<u64, usize>)
    ensures
        sizes[PREVIOUS_CHECKPOINT_EPOCH] <= 32 && sizes[PREVIOUS_CHECKPOINT_ROOT] <= 32
            && sizes[PREVIOUS_CHECKPOINT_EPOCH] + sizes[PREVIOUS_CHECKPOINT_ROOT] <= var.len()
            ==> container_root_spec(PREVIOUS_JUSTIFIED_CHECKPOINT, var, sizes) == sha256_spec(
            pack_spec(var.subrange(0, sizes[PREVIOUS_CHECKPOINT_EPOCH] as int)) + pack_spec(
                var.subrange(
                    sizes[PREVIOUS_CHECKPOINT_EPOCH] as int,
                    sizes[PREVIOUS_CHECKPOINT_EPOCH] + sizes[PREVIOUS_CHECKPOINT_ROOT],
                ),
            ),
        ),
        sizes[CURRENT_CHECKPOINT_EPOCH] <= 32 && sizes[CURRENT_CHECKPOINT_ROOT] <= 32
            && sizes[CURRENT_CHECKPOINT_EPOCH] + sizes[CURRENT_CHECKPOINT_ROOT] <= var.len()
            ==> container_root_spec(CURRENT_JUSTIFIED_CHECKPOINT, var, sizes) == sha256_spec(
            pack_spec(var.subrange(0, sizes[CURRENT_CHECKPOINT_EPOCH] as int)) + pack_spec(
                var.subrange(
                    sizes[CURRENT_CHECKPOINT_EPOCH] as int,
                    sizes[CURRENT_CHECKPOINT_EPOCH] + sizes[CURRENT_CHECKPOINT_ROOT],
                ),
            ),
        ),
        sizes[FINALIZED_CHECKPOINT_EPOCH] <= 32 && sizes[FINALIZED_CHECKPOINT_ROOT] <= 32
            && sizes[FINALIZED_CHECKPOINT_EPOCH] + sizes[FINALIZED_CHECKPOINT_ROOT] <= var.len()
            ==> container_root_spec(FINALIZED_CHECKPOINT, var, sizes) == sha256_spec(
            pack_spec(var.subrange(0, sizes[FINALIZED_CHECKPOINT_EPOCH] as int)) + pack_spec(
                var.subrange(
                    sizes[FINALIZED_CHECKPOINT_EPOCH] as int,
                    sizes[FINALIZED_CHECKPOINT_EPOCH] + sizes[FINALIZED_CHECKPOINT_ROOT],
                ),
            ),
        ),
{
    if sizes[PREVIOUS_CHECKPOINT_EPOCH] <= 32 && sizes[PREVIOUS_CHECKPOINT_ROOT] <= 32
        && sizes[PREVIOUS_CHECKPOINT_EPOCH] + sizes[PREVIOUS_CHECKPOINT_ROOT] <= var.len() {
        lemma_pair_root(PREVIOUS_JUSTIFIED_CHECKPOINT, var, sizes, PREVIOUS_CHECKPOINT_EPOCH, PREVIOUS_CHECKPOINT_ROOT);
    }
    if sizes[CURRENT_CHECKPOINT_EPOCH] <= 32 && sizes[CURRENT_CHECKPOINT_ROOT] <= 32
        && sizes[CURRENT_CHECKPOINT_EPOCH] + sizes[CURRENT_CHECKPOINT_ROOT] <= var.len() {
        lemma_pair_root(CURRENT_JUSTIFIED_CHECKPOINT, var, sizes, CURRENT_CHECKPOINT_EPOCH, CURRENT_CHECKPOINT_ROOT);
    }
    if sizes[FINALIZED_CHECKPOINT_EPOCH] <= 32 && sizes[FINALIZED_CHECKPOINT_ROOT] <= 32
        && sizes[FINALIZED_CHECKPOINT_EPOCH] + sizes[FINALIZED_CHECKPOINT_ROOT] <= var.len() {
        lemma_pair_root(FINALIZED_CHECKPOINT, var, sizes, FINALIZED_CHECKPOINT_EPOCH, FINALIZED_CHECKPOINT_ROOT);
    }
}

} // verus!

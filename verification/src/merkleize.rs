//! Packing of serialized fields into 32-byte chunks, merkle roots of
//! chunked values, and the merkle tree of the beacon state's field roots.

use crate::chunks::{
    ceil32, is_pow2, is_power_of_two, lemma_pack_idempotent, lemma_pack_spec_len, lemma_next_pow2, lemma_next_pow2_of_pow2, lemma_pow2_times32,
    lemma_packed_len, next_pow2, next_power_of_two, pack_spec, packed_len, packed_len_checked,
    round_up32, zeros,
};
use crate::bitfield::{
    bitvec_bits, bitvec_from_bytes, bitvec_index, bitvec_len, bitvec_set, bitvec_to_bytes,
    bits_to_bytes, bytes_to_bits, clear_last_set, lemma_clear_last_set_at,
    lemma_clear_last_set_len, lemma_clear_last_set_none,
};
use crate::hashing::{sha256, sha256_spec};
use crate::merkle_proofs::{branch_path, sibling_of};
use crate::constants::BYTES_PER_LENGTH_OFFSET;
use crate::keys::{
    BALANCES, BLOCK_ROOTS, CURRENT_EPOCH_PARTICIPATION, ETH1_DATA_VOTES, ETH1_DEPOSIT_INDEX,
    GENESIS_TIME, GENESIS_VALIDATORS_ROOT, HISTORICAL_ROOTS, INACTIVITY_SCORES,
    JUSTIFICATION_BITS, PREVIOUS_EPOCH_PARTICIPATION, RANDAO_MIXES, SLASHINGS, SLOT,
    STATE_ROOTS, VALIDATORS,
    CURRENT_CHECKPOINT_EPOCH, CURRENT_CHECKPOINT_ROOT, CURRENT_JUSTIFIED_CHECKPOINT,
    CURRENT_SYNC_COMMITTEE, CURRENT_SYNC_COMMITTEE_AGG_PUBKEY, CURRENT_SYNC_COMMITTEE_PUBKEYS,
    ETH1_DATA, ETH1_DEPOSIT_COUNT, ETH1_DEPOSIT_ROOT, FINALIZED_CHECKPOINT,
    FINALIZED_CHECKPOINT_EPOCH, FINALIZED_CHECKPOINT_ROOT, FORK, FORK_CURRENT_VERSION,
    FORK_PREVIOUS_VERSION, HEADER_BODY_ROOT, HEADER_PARENT_ROOT, HEADER_PROPOSER_INDEX,
    HEADER_SLOT, HEADER_STATE_ROOT, LATEST_BLOCK_HEADER, NEXT_SYNC_COMMITTEE,
    NEXT_SYNC_COMMITTEE_AGG_PUBKEY, NEXT_SYNC_COMMITTEE_PUBKEYS, PREVIOUS_CHECKPOINT_EPOCH,
    PREVIOUS_CHECKPOINT_ROOT, PREVIOUS_JUSTIFIED_CHECKPOINT,
};
use std::collections::HashMap;
use vstd::bytes::{spec_u64_to_le_bytes, u64_to_le_bytes};
use vstd::slice::{slice_subrange, slice_to_vec};
use vstd::prelude::*;

verus! {

/// Pads `var` (at most 32 bytes) with zeros to 32 bytes.
pub fn pad_to_32(var: &[u8]) -> (padded_var: Vec<u8>)
    requires
        var@.len() <= 32,
    ensures
        padded_var@ == var@ + zeros((32 - var@.len()) as nat),
        padded_var@.len() == 32,
{
    let mut padded_var: Vec<u8> = Vec::new();
    let n_pad = 32 - var.len();
    let pad = vec![0u8; n_pad];
    let mut i: usize = 0;
    while i < var.len()
        invariant
            i <= var@.len(),
            padded_var@ == var@.subrange(0, i as int),
        decreases var@.len() - i,
    {
        padded_var.push(var[i]);
        i = i + 1;
    }
    padded_var.extend_from_slice(&pad);
    assert(padded_var@ =~= var@ + zeros(n_pad as nat));
    padded_var
}

/// Pads `var` with zeros to the next multiple of 32 bytes.
pub fn pad_to_multiple_of_32(var: &[u8]) -> (padded_var: Vec<u8>)
    requires
        round_up32(var@.len()) <= usize::MAX,
    ensures
        padded_var@ == var@ + zeros((round_up32(var@.len()) - var@.len()) as nat),
{
    let mut padded_var: Vec<u8> = Vec::new();
    let pad = vec![0u8; 1];
    let mut length_mut = var.len();
    let mut i: usize = 0;
    while i < var.len()
        invariant
            i <= var@.len(),
            padded_var@ == var@.subrange(0, i as int),
        decreases var@.len() - i,
    {
        padded_var.push(var[i]);
        i = i + 1;
    }
    assert(padded_var@ =~= var@);
    while length_mut % 32 != 0
        invariant
            var@.len() <= length_mut <= round_up32(var@.len()),
            round_up32(var@.len()) <= usize::MAX,
            padded_var@ == var@ + zeros((length_mut - var@.len()) as nat),
            pad@ == seq![0u8],
        decreases round_up32(var@.len()) - length_mut,
    {
        padded_var.extend_from_slice(&pad);
        assert(padded_var@ =~= var@ + zeros((length_mut + 1 - var@.len()) as nat));
        length_mut = length_mut + 1;
    }
    padded_var
}

/// Law: padding to a multiple of 32 twice is padding once; the padded
/// bytes are a whole number of chunks.
pub proof fn lemma_pad_to_multiple_idempotent(s: Seq<u8>)
    ensures
        ({
            let p = s + zeros((round_up32(s.len()) - s.len()) as nat);
            &&& p.len() % 32 == 0
            &&& p + zeros((round_up32(p.len()) - p.len()) as nat) == p
        }),
{
    let p = s + zeros((round_up32(s.len()) - s.len()) as nat);
    assert(p.len() == round_up32(s.len()));
    assert(round_up32(s.len()) % 32 == 0);
    assert(p + zeros(0) =~= p);
}

/// Pads `var`, a whole number of chunks but not exactly one, with zero
/// chunks up to a power-of-two number of chunks.
pub fn pad_chunks_to_power2(var: &[u8]) -> (padded_var: Vec<u8>)
    requires
        var@.len() % 32 == 0,
        var@.len() / 32 != 1,
        32 * next_pow2(var@.len() / 32) <= usize::MAX,
    ensures
        padded_var@ == var@ + zeros((32 * next_pow2(var@.len() / 32) - var@.len()) as nat),
{
    let n_chunks: usize = var.len() / 32;
    proof {
        lemma_next_pow2(n_chunks as nat);
    }
    if is_power_of_two(n_chunks) {
        proof {
            lemma_next_pow2_of_pow2(n_chunks as nat);
        }
        assert(var@ =~= var@ + zeros(0));
        slice_to_vec(var)
    } else {
        let chunks_to_add = next_power_of_two(n_chunks) - n_chunks;
        let mut padded_var: Vec<u8> = Vec::new();
        let pad = vec![0u8; 32 * chunks_to_add];
        let mut i: usize = 0;
        while i < var.len()
            invariant
                i <= var@.len(),
                padded_var@ == var@.subrange(0, i as int),
            decreases var@.len() - i,
        {
            padded_var.push(var[i]);
            i = i + 1;
        }
        padded_var.extend_from_slice(&pad);
        assert(padded_var@ =~= var@ + zeros((32 * next_pow2(n_chunks as nat) - var@.len()) as nat));
        padded_var
    }
}

/// Packs a serialized value into chunks: pads it with zeros to one chunk
/// if it is at most 32 bytes long, else to a power-of-two number of
/// 32-byte chunks.
pub fn pack(var_as_bytes: Vec<u8>) -> (padded_var: Vec<u8>)
    requires
        packed_len(var_as_bytes@.len()) <= usize::MAX,
    ensures
        padded_var@ == pack_spec(var_as_bytes@),
{
    let n = var_as_bytes.len();
    if n == 32 {
        assert(var_as_bytes@ =~= pack_spec(var_as_bytes@));
        var_as_bytes
    } else if n < 32 {
        pad_to_32(var_as_bytes.as_slice())
    } else {
        proof {
            lemma_next_pow2(ceil32(n as nat));
        }
        if n % 32 == 0 {
            let n_chunks: usize = n / 32;
            assert(ceil32(n as nat) == n_chunks);
            if is_power_of_two(n_chunks) {
                proof {
                    lemma_next_pow2_of_pow2(n_chunks as nat);
                }
                assert(var_as_bytes@ =~= pack_spec(var_as_bytes@));
                var_as_bytes
            } else {
                pad_chunks_to_power2(var_as_bytes.as_slice())
            }
        } else {
            assert(round_up32(n as nat) == 32 * ceil32(n as nat));
            let intermediate_var = pad_to_multiple_of_32(var_as_bytes.as_slice());
            assert(intermediate_var@.len() / 32 == ceil32(n as nat));
            if is_power_of_two(intermediate_var.len()) {
                proof {
                    lemma_pow2_times32(ceil32(n as nat));
                    lemma_next_pow2_of_pow2(ceil32(n as nat));
                }
                assert(intermediate_var@ =~= pack_spec(var_as_bytes@));
                intermediate_var
            } else {
                let padded_var = pad_chunks_to_power2(intermediate_var.as_slice());
                assert(padded_var@ =~= pack_spec(var_as_bytes@));
                padded_var
            }
        }
    }
}

/// The byte views of a sequence of byte vectors.
pub open spec fn views(v: Seq<Vec<u8>>) -> Seq<Seq<u8>> {
    v.map_values(|c: Vec<u8>| c@)
}

/// The 32-byte chunks of `s` (a whole number of chunks).
pub open spec fn chunks_of(s: Seq<u8>) -> Seq<Seq<u8>> {
    Seq::new(s.len() / 32, |i: int| s.subrange(32 * i, 32 * i + 32))
}

/// The next level up of a merkle tree: the hash of each pair of nodes.
pub open spec fn hash_pairs(level: Seq<Seq<u8>>) -> Seq<Seq<u8>> {
    Seq::new(level.len() / 2, |i: int| sha256_spec(level[2 * i] + level[2 * i + 1]))
}

/// The root of the merkle tree whose leaves are `level`.
pub open spec fn root_of_level(level: Seq<Seq<u8>>) -> Seq<u8>
    decreases level.len(),
{
    if level.len() <= 1 {
        level[0]
    } else {
        root_of_level(hash_pairs(level))
    }
}

/// The merkle root of the chunks of `s`.
pub open spec fn merkle_root(s: Seq<u8>) -> Seq<u8> {
    root_of_level(chunks_of(s))
}

/// The nodes of the merkle tree whose leaves are `level`: the root, then
/// level by level down to the leaves, each level left to right (node `g`
/// of generalized index `g` at position `g - 1`).
pub open spec fn tree_nodes(level: Seq<Seq<u8>>) -> Seq<Seq<u8>>
    decreases level.len(),
{
    if level.len() <= 1 {
        level
    } else {
        tree_nodes(hash_pairs(level)) + level
    }
}

/// The merkle tree over `level` indexed by generalized index: the root at
/// position 0 and at position 1, node `g` at position `g`.
pub open spec fn tree_of(level: Seq<Seq<u8>>) -> Seq<Seq<u8>> {
    seq![tree_nodes(level)[0]] + tree_nodes(level)
}

/// The merkle tree of a value: the tree over the chunks of the packed
/// value.
pub open spec fn merkle_tree_spec(chunks: Seq<u8>) -> Seq<Seq<u8>> {
    tree_of(chunks_of(pack_spec(chunks)))
}

/// Node `g` of `t` is the hash of its two children.
pub open spec fn inner_node_ok(t: Seq<Seq<u8>>, g: int) -> bool {
    t[g] == sha256_spec(t[2 * g] + t[2 * g + 1])
}

/// Every node is a 32-byte chunk.
pub open spec fn all_chunks(v: Seq<Seq<u8>>) -> bool {
    forall|k: int| 0 <= k < v.len() ==> (#[trigger] v[k]).len() == 32
}

/// Folds a merkle branch into node `node` of generalized index `idx`: at
/// each level the node is hashed with the next entry of the branch, on the
/// left when its index is even, on the right when it is odd.
pub open spec fn fold_branch(node: Seq<u8>, idx: u64, branch: Seq<Seq<u8>>) -> Seq<u8>
    decreases branch.len(),
{
    if branch.len() == 0 {
        node
    } else {
        let up = if idx % 2 == 0 {
            sha256_spec(node + branch[0])
        } else {
            sha256_spec(branch[0] + node)
        };
        fold_branch(up, idx / 2, branch.skip(1))
    }
}

/// The nodes of `tree` that make up the branch of node `idx`.
pub open spec fn branch_nodes(tree: Seq<Seq<u8>>, idx: u64) -> Seq<Seq<u8>> {
    branch_path(idx).map_values(|g: u64| tree[g as int])
}

/// The 32-byte chunk that carries a length: its 8 little-endian bytes,
/// padded with zeros.
pub open spec fn length_chunk(length: usize) -> Seq<u8> {
    spec_u64_to_le_bytes(length as u64) + zeros(24)
}

proof fn lemma_views_push(v: Seq<Vec<u8>>, c: Vec<u8>)
    ensures
        views(v.push(c)) == views(v).push(c@),
        views(v).len() == v.len(),
{
    assert(views(v.push(c)) =~= views(v).push(c@));
}

/// `a` followed by `b`.
fn concat_bytes(a: &[u8], b: &[u8]) -> (r: Vec<u8>)
    ensures
        r@ == a@ + b@,
{
    let mut r: Vec<u8> = Vec::new();
    let mut i: usize = 0;
    while i < a.len()
        invariant
            i <= a@.len(),
            r@ == a@.subrange(0, i as int),
        decreases a@.len() - i,
    {
        r.push(a[i]);
        i = i + 1;
    }
    let mut j: usize = 0;
    while j < b.len()
        invariant
            j <= b@.len(),
            r@ == a@ + b@.subrange(0, j as int),
        decreases b@.len() - j,
    {
        r.push(b[j]);
        j = j + 1;
    }
    assert(b@.subrange(0, b@.len() as int) =~= b@);
    r
}

/// The chunks of `leaf`, as separate vectors.
fn split_chunks(leaf: &[u8]) -> (chunks: Vec<Vec<u8>>)
    requires
        leaf@.len() % 32 == 0,
    ensures
        views(chunks@) == chunks_of(leaf@),
{
    let len = leaf.len();
    let n = len / 32;
    let mut chunks: Vec<Vec<u8>> = Vec::new();
    let mut k: usize = 0;
    while k < n
        invariant
            n == leaf@.len() / 32,
            32 * n == len,
            len == leaf@.len(),
            k <= n,
            views(chunks@) == chunks_of(leaf@).take(k as int),
        decreases n - k,
    {
        assert(32 * k + 32 <= 32 * n && 32 * k <= 32 * n) by (nonlinear_arith)
            requires
                k < n,
        ;
        let chunk = slice_to_vec(slice_subrange(leaf, 32 * k, 32 * k + 32));
        proof {
            lemma_views_push(chunks@, chunk);
        }
        chunks.push(chunk);
        assert(views(chunks@) =~= chunks_of(leaf@).take(k + 1));
        k = k + 1;
    }
    assert(chunks_of(leaf@).take(n as int) =~= chunks_of(leaf@));
    chunks
}

/// The next level up of a merkle tree: each pair of nodes hashed together.
fn hash_level(level: &Vec<Vec<u8>>) -> (parents: Vec<Vec<u8>>)
    requires
        level@.len() % 2 == 0,
    ensures
        views(parents@) == hash_pairs(views(level@)),
        all_chunks(views(parents@)),
{
    let mut parents: Vec<Vec<u8>> = Vec::new();
    let mut i: usize = 0;
    while i < level.len()
        invariant
            level@.len() % 2 == 0,
            i % 2 == 0,
            i <= level@.len(),
            views(parents@) == hash_pairs(views(level@)).take((i / 2) as int),
            all_chunks(views(parents@)),
        decreases level@.len() - i,
    {
        let data = concat_bytes(level[i].as_slice(), level[i + 1].as_slice());
        let h = sha256(data.as_slice());
        proof {
            lemma_views_push(parents@, h);
        }
        parents.push(h);
        assert(views(parents@) =~= hash_pairs(views(level@)).take((i / 2 + 1) as int));
        i = i + 2;
    }
    assert(hash_pairs(views(level@)).take((level@.len() / 2) as int) =~= hash_pairs(views(level@)));
    parents
}

/// The merkle root of a value of one or more chunks, a power-of-two
/// number of them: the chunk itself when there is one, else the pairs
/// hashed level by level up to the root.
pub fn hash_tree_root(leaf: &Vec<u8>) -> (root: Vec<u8>)
    requires
        leaf@.len() >= 32,
        leaf@.len() % 32 == 0,
        is_pow2(leaf@.len() / 32),
    ensures
        root@ == merkle_root(leaf@),
        root@.len() == 32,
{
    if leaf.len() == 32 {
        let root = leaf.clone();
        assert(root@ =~= leaf@.subrange(0, 32));
        root
    } else {
        let mut chunks = split_chunks(leaf.as_slice());
        assert(chunks@.len() == views(chunks@).len());
        while chunks.len() != 1
            invariant
                is_pow2(chunks@.len() as nat),
                root_of_level(views(chunks@)) == merkle_root(leaf@),
                all_chunks(views(chunks@)),
            decreases chunks@.len(),
        {
            assert(chunks@.len() == views(chunks@).len());
            let next = hash_level(&chunks);
            assert(next@.len() == views(next@).len());
            assert(root_of_level(views(chunks@)) == root_of_level(hash_pairs(views(chunks@))));
            chunks = next;
        }
        let root = chunks[0].clone();
        assert(root@ =~= views(chunks@)[0]);
        root
    }
}

/// Mixes a length into a root: the hash of the root followed by the
/// length as a 32-byte little-endian chunk.
pub fn mix_in_length_data(root: &Vec<u8>, length: &usize) -> (mixed: Vec<u8>)
    ensures
        mixed@ == sha256_spec(root@ + length_chunk(*length)),
        mixed@.len() == 32,
{
    proof {
        vstd::bytes::lemma_auto_spec_u64_to_from_le_bytes();
    }
    let length_bytes = u64_to_le_bytes(*length as u64);
    let length_bytes = pad_to_32(length_bytes.as_slice());
    let data = concat_bytes(root.as_slice(), length_bytes.as_slice());
    sha256(data.as_slice())
}

/// The tree over a power-of-two number of leaves: `2L` positions, the
/// root at 0 and 1, the leaves at `L .. 2L`, and every inner node the hash
/// of its two children.
pub proof fn lemma_tree_of(level: Seq<Seq<u8>>)
    requires
        is_pow2(level.len() as nat),
    ensures
        tree_of(level).len() == 2 * level.len(),
        tree_of(level)[0] == root_of_level(level),
        tree_of(level)[1] == root_of_level(level),
        forall|g: int| level.len() <= g < 2 * level.len() ==> #[trigger] tree_of(level)[g] == level[g - level.len()],
        forall|g: int| 1 <= g < level.len() ==> #[trigger] inner_node_ok(tree_of(level), g),
    decreases level.len(),
{
    let n = level.len() as int;
    if n <= 1 {
        assert(tree_of(level) =~= seq![level[0], level[0]]);
    } else {
        let hp = hash_pairs(level);
        assert(is_pow2(hp.len() as nat));
        lemma_tree_of(hp);
        let h = n / 2;
        let t = tree_of(level);
        let u = tree_of(hp);
        assert(tree_nodes(level) == tree_nodes(hp) + level);
        assert(t =~= u + level);
        assert forall|g: int| n <= g < 2 * n implies #[trigger] t[g] == level[g - n] by {}
        assert forall|g: int| 1 <= g < n implies #[trigger] inner_node_ok(t, g) by {
            if g < h {
                assert(t[g] == u[g]);
                assert(inner_node_ok(u, g));
            } else {
                assert(t[g] == u[g]);
                assert(u[g] == hp[g - h]);
                assert(t[2 * g] == level[2 * g - n]);
                assert(t[2 * g + 1] == level[2 * g + 1 - n]);
            }
        }
    }
}

/// Folding the branch of node `idx` of a tree whose inner nodes hash their
/// children gives its root.
proof fn lemma_fold_tree(t: Seq<Seq<u8>>, n: int, idx: u64)
    requires
        t.len() == 2 * n,
        1 <= idx < 2 * n,
        forall|g: int| 1 <= g < n ==> #[trigger] inner_node_ok(t, g),
    ensures
        fold_branch(t[idx as int], idx, branch_nodes(t, idx)) == t[1],
    decreases idx,
{
    if idx > 1 {
        let p = idx / 2;
        assert(branch_path(idx) == seq![sibling_of(idx)] + branch_path(p));
        assert(branch_nodes(t, idx).skip(1) =~= branch_nodes(t, p));
        assert(branch_nodes(t, idx)[0] == t[sibling_of(idx) as int]);
        assert(inner_node_ok(t, p as int));
        lemma_fold_tree(t, n, p);
    } else {
        assert(branch_nodes(t, idx) =~= Seq::<Seq<u8>>::empty());
    }
}

/// Law: a merkle branch proves its node. Folding the nodes that the branch
/// of node `idx` names in the merkle tree of a value into node `idx`, level
/// by level, gives the tree's root.
pub proof fn lemma_branch_proves_root(chunks: Seq<u8>, idx: u64)
    requires
        1 <= idx < merkle_tree_spec(chunks).len(),
    ensures
        fold_branch(merkle_tree_spec(chunks)[idx as int], idx, branch_nodes(merkle_tree_spec(chunks), idx))
            == merkle_tree_spec(chunks)[0],
{
    lemma_pack_spec_len(chunks);
    let leaves = chunks_of(pack_spec(chunks));
    lemma_tree_of(leaves);
    lemma_fold_tree(merkle_tree_spec(chunks), leaves.len() as int, idx);
}

/// `a` then `b`, node by node.
fn concat_nodes(a: &Vec<Vec<u8>>, b: &Vec<Vec<u8>>) -> (c: Vec<Vec<u8>>)
    ensures
        views(c@) == views(a@) + views(b@),
{
    let mut c: Vec<Vec<u8>> = Vec::new();
    let mut i: usize = 0;
    while i < a.len()
        invariant
            i <= a@.len(),
            views(c@) == views(a@).take(i as int),
        decreases a@.len() - i,
    {
        let node = a[i].clone();
        proof {
            lemma_views_push(c@, node);
        }
        c.push(node);
        assert(views(c@) =~= views(a@).take(i + 1));
        i = i + 1;
    }
    assert(views(a@).take(a@.len() as int) =~= views(a@));
    let mut j: usize = 0;
    while j < b.len()
        invariant
            j <= b@.len(),
            views(c@) == views(a@) + views(b@).take(j as int),
        decreases b@.len() - j,
    {
        let node = b[j].clone();
        proof {
            lemma_views_push(c@, node);
        }
        c.push(node);
        assert(views(c@) =~= views(a@) + views(b@).take(j + 1));
        j = j + 1;
    }
    assert(views(b@).take(b@.len() as int) =~= views(b@));
    c
}

/// The merkle tree of a value, indexed by generalized index: the root at
/// position 0 (and at position 1), the children of node `g` at `2g` and
/// `2g + 1`, the chunks of the packed value as leaves; every node is 32
/// bytes.
pub fn merkle_tree(chunks: Vec<u8>) -> (tree: Vec<Vec<u8>>)
    requires
        packed_len(chunks@.len()) <= usize::MAX,
    ensures
        views(tree@) == merkle_tree_spec(chunks@),
        forall|j: int| 0 <= j < tree@.len() ==> (#[trigger] tree@[j])@.len() == 32,
{
    let ghost orig = chunks@;
    let chunks = pack(chunks);
    proof {
        lemma_pack_spec_len(orig);
    }
    let leaves = split_chunks(chunks.as_slice());
    let ghost l0 = views(leaves@);
    assert(all_chunks(l0));
    let mut below: Vec<Vec<u8>> = Vec::new();
    let mut level = leaves;
    assert(tree_nodes(l0) =~= tree_nodes(views(level@)) + views(below@));
    while level.len() > 1
        invariant
            is_pow2(level@.len() as nat),
            tree_nodes(l0) == tree_nodes(views(level@)) + views(below@),
            all_chunks(views(level@)),
            all_chunks(views(below@)),
        decreases level@.len(),
    {
        proof {
            lemma_views_push(level@, level@[0]);
        }
        let up = hash_level(&level);
        let nb = concat_nodes(&level, &below);
        proof {
            assert(tree_nodes(views(level@)) == tree_nodes(hash_pairs(views(level@))) + views(level@));
            assert(tree_nodes(l0) =~= tree_nodes(views(up@)) + views(nb@));
            lemma_views_push(up@, level@[0]);
        }
        below = nb;
        level = up;
    }
    proof {
        lemma_views_push(level@, level@[0]);
    }
    let root = level[0].clone();
    let mut tree: Vec<Vec<u8>> = Vec::new();
    tree.push(root);
    let nodes = concat_nodes(&level, &below);
    let tree = concat_nodes(&tree, &nodes);
    proof {
        assert(tree_nodes(views(level@)) == views(level@));
        assert(views(tree@) =~= merkle_tree_spec(orig));
        assert forall|j: int| 0 <= j < tree@.len() implies (#[trigger] tree@[j])@.len() == 32 by {
            assert(views(tree@)[j] == tree@[j]@);
        }
    }
    tree
}

/// The justification bits without their length cap: the last set bit
/// cleared.
pub open spec fn remove_cap_spec(bytes: Seq<u8>) -> Seq<u8> {
    bits_to_bytes(clear_last_set(bytes_to_bits(bytes)))
}

/// Removes the length cap from serialized justification bits: clears the
/// last set bit (bits read most significant first within each byte).
pub fn remove_cap_from_justification_bits(justification_bits: &Vec<u8>) -> (bytes: Vec<u8>)
    requires
        8 * justification_bits@.len() <= usize::MAX,
    ensures
        bytes@ == remove_cap_spec(justification_bits@),
        bytes@.len() == justification_bits@.len(),
{
    let mut bits = bitvec_from_bytes(justification_bits.as_slice());
    let ghost b0 = bitvec_bits(bits);
    let n = bitvec_len(&bits);
    let mut i: usize = n;
    let mut hit: bool = false;
    while i > 0 && !hit
        invariant
            n == b0.len(),
            i <= n,
            bitvec_bits(bits) == b0,
            hit ==> i < n && b0[i as int],
            forall|k: int| (if hit { i < k } else { i <= k }) && k < n ==> !b0[k],
        decreases i + (if hit { 0int } else { 1 }),
    {
        i = i - 1;
        hit = bitvec_index(&bits, i);
    }
    if hit {
        bitvec_set(&mut bits, i, false);
        proof {
            lemma_clear_last_set_at(b0, i as int);
        }
    } else {
        proof {
            lemma_clear_last_set_none(b0);
        }
    }
    proof {
        lemma_clear_last_set_len(b0);
    }
    bitvec_to_bytes(&bits)
}

/// The bytes of the field that starts at `start` and is `length` bytes
/// long in a serialized state.
pub open spec fn var_bytes_spec(start: usize, length: usize, serialized_state: Seq<u8>, bit_flag: bool) -> Seq<u8> {
    let var = serialized_state.subrange(start as int, start + length);
    if bit_flag {
        remove_cap_spec(var)
    } else {
        var
    }
}

/// The bytes of a field of a serialized state: `length` bytes from
/// `start`; for the justification bits (`bit_flag`) with the length cap
/// removed.
pub fn get_var_bytes(start: usize, length: usize, serialized_state: &Vec<u8>, bit_flag: &bool) -> (var: Vec<u8>)
    requires
        start + length <= serialized_state@.len(),
        *bit_flag ==> 8 * length <= usize::MAX,
    ensures
        var@ == var_bytes_spec(start, length, serialized_state@, *bit_flag),
        var@.len() == length,
{
    let total = serialized_state.len();
    assert(start + length <= total);
    let stop = start + length;
    let var_as_bytes = slice_subrange(serialized_state.as_slice(), start, stop);
    if *bit_flag {
        remove_cap_from_justification_bits(&slice_to_vec(var_as_bytes))
    } else {
        slice_to_vec(var_as_bytes)
    }
}

/// The keys of the beacon-state fields that are containers.
pub open spec fn is_container_key(key: u64) -> bool {
    ||| key == FORK
    ||| key == ETH1_DATA
    ||| key == LATEST_BLOCK_HEADER
    ||| key == PREVIOUS_JUSTIFIED_CHECKPOINT
    ||| key == CURRENT_JUSTIFIED_CHECKPOINT
    ||| key == FINALIZED_CHECKPOINT
    ||| key == CURRENT_SYNC_COMMITTEE
    ||| key == NEXT_SYNC_COMMITTEE
}

/// The two sub-field keys of the containers that have two sub-fields
/// (checkpoints and sync committees).
pub open spec fn pair_keys(key: u64) -> (u64, u64) {
    if key == PREVIOUS_JUSTIFIED_CHECKPOINT {
        (PREVIOUS_CHECKPOINT_EPOCH, PREVIOUS_CHECKPOINT_ROOT)
    } else if key == CURRENT_JUSTIFIED_CHECKPOINT {
        (CURRENT_CHECKPOINT_EPOCH, CURRENT_CHECKPOINT_ROOT)
    } else if key == FINALIZED_CHECKPOINT {
        (FINALIZED_CHECKPOINT_EPOCH, FINALIZED_CHECKPOINT_ROOT)
    } else if key == CURRENT_SYNC_COMMITTEE {
        (CURRENT_SYNC_COMMITTEE_PUBKEYS, CURRENT_SYNC_COMMITTEE_AGG_PUBKEY)
    } else {
        (NEXT_SYNC_COMMITTEE_PUBKEYS, NEXT_SYNC_COMMITTEE_AGG_PUBKEY)
    }
}

/// The sub-fields that the root of container `key` is made of: slices of
/// `var` whose bounds come from the sizes table. The fork is split at the
/// sizes of its two versions, the rest being its epoch; eth1 data into
/// the deposit root, the deposit count after it, the rest being the block
/// hash; the header into its five fields; the others into
/// their two fields.
pub open spec fn container_parts(key: u64, var: Seq<u8>, sizes: Map<u64, usize>) -> Seq<Seq<u8>> {
    let n = var.len() as int;
    if key == FORK {
        let a = sizes[FORK_PREVIOUS_VERSION] as int;
        let b = sizes[FORK_CURRENT_VERSION] as int;
        seq![var.subrange(0, a), var.subrange(a, a + b), var.subrange(a + b, n)]
    } else if key == ETH1_DATA {
        let r = sizes[ETH1_DEPOSIT_ROOT] as int;
        let c = sizes[ETH1_DEPOSIT_COUNT] as int;
        seq![var.subrange(0, r), var.subrange(r, r + c), var.subrange(r + c, n)]
    } else if key == LATEST_BLOCK_HEADER {
        let s1 = sizes[HEADER_SLOT] as int;
        let s2 = s1 + sizes[HEADER_PROPOSER_INDEX];
        let s3 = s2 + sizes[HEADER_PARENT_ROOT];
        let s4 = s3 + sizes[HEADER_STATE_ROOT];
        let s5 = s4 + sizes[HEADER_BODY_ROOT];
        seq![
            var.subrange(0, s1),
            var.subrange(s1, s2),
            var.subrange(s2, s3),
            var.subrange(s3, s4),
            var.subrange(s4, s5),
        ]
    } else {
        let a = sizes[pair_keys(key).0] as int;
        let b = sizes[pair_keys(key).1] as int;
        seq![var.subrange(0, a), var.subrange(a, a + b)]
    }
}

/// Container `key` can be hashed from `n` bytes: its sub-field sizes are
/// in the table and every slice lies within the bytes.
pub open spec fn container_ok(key: u64, n: int, sizes: Map<u64, usize>) -> bool {
    &&& is_container_key(key)
    &&& if key == FORK {
        let a = sizes[FORK_PREVIOUS_VERSION] as int;
        let b = sizes[FORK_CURRENT_VERSION] as int;
        &&& sizes.contains_key(FORK_PREVIOUS_VERSION)
        &&& sizes.contains_key(FORK_CURRENT_VERSION)
        &&& a + b <= n
    } else if key == ETH1_DATA {
        let r = sizes[ETH1_DEPOSIT_ROOT] as int;
        let c = sizes[ETH1_DEPOSIT_COUNT] as int;
        &&& sizes.contains_key(ETH1_DEPOSIT_ROOT)
        &&& sizes.contains_key(ETH1_DEPOSIT_COUNT)
        &&& r <= n
        &&& c + r <= n
    } else if key == LATEST_BLOCK_HEADER {
        &&& sizes.contains_key(HEADER_SLOT)
        &&& sizes.contains_key(HEADER_PROPOSER_INDEX)
        &&& sizes.contains_key(HEADER_PARENT_ROOT)
        &&& sizes.contains_key(HEADER_STATE_ROOT)
        &&& sizes.contains_key(HEADER_BODY_ROOT)
        &&& sizes[HEADER_SLOT] + sizes[HEADER_PROPOSER_INDEX] + sizes[HEADER_PARENT_ROOT]
            + sizes[HEADER_STATE_ROOT] + sizes[HEADER_BODY_ROOT] <= n
    } else {
        &&& sizes.contains_key(pair_keys(key).0)
        &&& sizes.contains_key(pair_keys(key).1)
        &&& sizes[pair_keys(key).0] + sizes[pair_keys(key).1] <= n
    }
}

/// The packed sub-fields, one after the other.
pub open spec fn packed_concat(parts: Seq<Seq<u8>>) -> Seq<u8>
    decreases parts.len(),
{
    if parts.len() == 0 {
        Seq::empty()
    } else {
        packed_concat(parts.drop_last()) + pack_spec(parts.last())
    }
}

/// The packed sub-fields and their concatenation fit in memory.
pub open spec fn container_fits(key: u64, var: Seq<u8>, sizes: Map<u64, usize>) -> bool {
    let parts = container_parts(key, var, sizes);
    &&& forall|i: int| 0 <= i < parts.len() ==> packed_len(#[trigger] parts[i].len()) <= usize::MAX
    &&& packed_len(packed_concat(parts).len()) <= usize::MAX
}

/// The root of container `key`: the merkle root of its packed sub-fields,
/// packed together.
pub open spec fn container_root_spec(key: u64, var: Seq<u8>, sizes: Map<u64, usize>) -> Seq<u8> {
    merkle_root(pack_spec(packed_concat(container_parts(key, var, sizes))))
}

/// The size that the table holds for `key` (indexing the table, which
/// panics on a missing key).
fn size_of_key(sizes: &HashMap<u64, usize>, key: u64) -> (size: usize)
    requires
        sizes@.contains_key(key),
    ensures
        size == sizes@[key],
{
    *sizes.get(&key).unwrap()
}

/// `var[lo..hi]`, packed.
fn packed_slice(var: &Vec<u8>, lo: usize, hi: usize) -> (packed: Vec<u8>)
    requires
        lo <= hi <= var@.len(),
        packed_len((hi - lo) as nat) <= usize::MAX,
    ensures
        packed@ == pack_spec(var@.subrange(lo as int, hi as int)),
{
    pack(slice_to_vec(slice_subrange(var.as_slice(), lo, hi)))
}

/// The packed concatenation of a short list of parts.
pub proof fn lemma_packed_concat_small(parts: Seq<Seq<u8>>)
    requires
        parts.len() <= 5,
    ensures
        parts.len() == 0 ==> packed_concat(parts) == Seq::<u8>::empty(),
        parts.len() == 1 ==> packed_concat(parts) == pack_spec(parts[0]),
        parts.len() == 2 ==> packed_concat(parts) == pack_spec(parts[0]) + pack_spec(parts[1]),
        parts.len() == 3 ==> packed_concat(parts) == pack_spec(parts[0]) + pack_spec(parts[1])
            + pack_spec(parts[2]),
        parts.len() == 4 ==> packed_concat(parts) == pack_spec(parts[0]) + pack_spec(parts[1])
            + pack_spec(parts[2]) + pack_spec(parts[3]),
        parts.len() == 5 ==> packed_concat(parts) == pack_spec(parts[0]) + pack_spec(parts[1])
            + pack_spec(parts[2]) + pack_spec(parts[3]) + pack_spec(parts[4]),
    decreases parts.len(),
{
    if parts.len() > 0 {
        let q = parts.drop_last();
        lemma_packed_concat_small(q);
        assert(packed_concat(parts) == packed_concat(q) + pack_spec(parts.last()));
        if parts.len() == 1 {
            assert(packed_concat(parts) =~= pack_spec(parts[0]));
        }
    }
}

/// The root of a container field of the beacon state (fork, eth1 data,
/// latest block header, the three checkpoints, the two sync committees):
/// its sub-fields are cut out of `var` at the sizes the table holds for
/// them, each packed, and the merkle root is taken of all of them packed
/// together.
pub fn hash_tree_root_container(key: u64, var: Vec<u8>, sizes: &HashMap<u64, usize>) -> (root: Vec<u8>)
    requires
        container_ok(key, var@.len() as int, sizes@),
        container_fits(key, var@, sizes@),
    ensures
        root@ == container_root_spec(key, var@, sizes@),
        root@.len() == 32,
{
    let ghost parts = container_parts(key, var@, sizes@);
    let n = var.len();
    let mut chunks: Vec<u8> = Vec::new();
    if key == FORK {
        let a = size_of_key(sizes, FORK_PREVIOUS_VERSION);
        let b = size_of_key(sizes, FORK_CURRENT_VERSION);
        assert(packed_len(parts[0].len()) <= usize::MAX);
        assert(packed_len(parts[1].len()) <= usize::MAX);
        assert(packed_len(parts[2].len()) <= usize::MAX);
        let mut fork_previous_version = packed_slice(&var, 0, a);
        let mut fork_current_version = packed_slice(&var, a, a + b);
        let mut fork_epoch = packed_slice(&var, a + b, var.len());
        chunks.append(&mut fork_previous_version);
        chunks.append(&mut fork_current_version);
        chunks.append(&mut fork_epoch);
        proof {
            lemma_packed_concat_small(parts);
            assert(chunks@ =~= packed_concat(parts));
        }
    } else if key == ETH1_DATA {
        let r = size_of_key(sizes, ETH1_DEPOSIT_ROOT);
        let c = size_of_key(sizes, ETH1_DEPOSIT_COUNT);
        assert(packed_len(parts[0].len()) <= usize::MAX);
        assert(packed_len(parts[1].len()) <= usize::MAX);
        assert(packed_len(parts[2].len()) <= usize::MAX);
        let mut deposit_root = packed_slice(&var, 0, r);
        let mut deposit_count = packed_slice(&var, r, r + c);
        let mut block_hash = packed_slice(&var, r + c, var.len());
        chunks.append(&mut deposit_root);
        chunks.append(&mut deposit_count);
        chunks.append(&mut block_hash);
        proof {
            lemma_packed_concat_small(parts);
            assert(chunks@ =~= packed_concat(parts));
        }
    } else if key == LATEST_BLOCK_HEADER {
        let s1 = size_of_key(sizes, HEADER_SLOT);
        let s2 = s1 + size_of_key(sizes, HEADER_PROPOSER_INDEX);
        let s3 = s2 + size_of_key(sizes, HEADER_PARENT_ROOT);
        let s4 = s3 + size_of_key(sizes, HEADER_STATE_ROOT);
        let s5 = s4 + size_of_key(sizes, HEADER_BODY_ROOT);
        assert(packed_len(parts[0].len()) <= usize::MAX);
        assert(packed_len(parts[1].len()) <= usize::MAX);
        assert(packed_len(parts[2].len()) <= usize::MAX);
        assert(packed_len(parts[3].len()) <= usize::MAX);
        assert(packed_len(parts[4].len()) <= usize::MAX);
        let mut slot = packed_slice(&var, 0, s1);
        let mut proposer_index = packed_slice(&var, s1, s2);
        let mut parent_root = packed_slice(&var, s2, s3);
        let mut state_root = packed_slice(&var, s3, s4);
        let mut body_root = packed_slice(&var, s4, s5);
        chunks.append(&mut slot);
        chunks.append(&mut proposer_index);
        chunks.append(&mut parent_root);
        chunks.append(&mut state_root);
        chunks.append(&mut body_root);
        // `parent_root` was emptied by the first append: this adds nothing
        chunks.append(&mut parent_root);
        proof {
            lemma_packed_concat_small(parts);
            assert(chunks@ =~= packed_concat(parts));
        }
    } else {
        let (ka, kb) = if key == PREVIOUS_JUSTIFIED_CHECKPOINT {
            (PREVIOUS_CHECKPOINT_EPOCH, PREVIOUS_CHECKPOINT_ROOT)
        } else if key == CURRENT_JUSTIFIED_CHECKPOINT {
            (CURRENT_CHECKPOINT_EPOCH, CURRENT_CHECKPOINT_ROOT)
        } else if key == FINALIZED_CHECKPOINT {
            (FINALIZED_CHECKPOINT_EPOCH, FINALIZED_CHECKPOINT_ROOT)
        } else if key == CURRENT_SYNC_COMMITTEE {
            (CURRENT_SYNC_COMMITTEE_PUBKEYS, CURRENT_SYNC_COMMITTEE_AGG_PUBKEY)
        } else {
            (NEXT_SYNC_COMMITTEE_PUBKEYS, NEXT_SYNC_COMMITTEE_AGG_PUBKEY)
        };
        assert((ka, kb) == pair_keys(key));
        let a = size_of_key(sizes, ka);
        let b = size_of_key(sizes, kb);
        assert(packed_len(parts[0].len()) <= usize::MAX);
        assert(packed_len(parts[1].len()) <= usize::MAX);
        assert(parts[0] == var@.subrange(0, a as int));
        assert(parts[1] == var@.subrange(a as int, a + b));
        let mut first = packed_slice(&var, 0, a);
        let mut second = packed_slice(&var, a, a + b);
        chunks.append(&mut first);
        chunks.append(&mut second);
        proof {
            lemma_packed_concat_small(parts);
            assert(chunks@ =~= packed_concat(parts));
        }
    }
    let chunks = pack(chunks);
    proof {
        lemma_pack_spec_len(packed_concat(parts));
    }
    hash_tree_root(&chunks)
}

/// The lengths of some parts.
pub open spec fn part_lens(parts: Seq<Seq<u8>>) -> Seq<nat> {
    parts.map_values(|p: Seq<u8>| p.len())
}

/// Some lengths.
pub open spec fn nat_lens(lens: Seq<usize>) -> Seq<nat> {
    lens.map_values(|x: usize| x as nat)
}

/// The packed lengths of some lengths, added up.
pub open spec fn packed_sum(lens: Seq<nat>) -> nat
    decreases lens.len(),
{
    if lens.len() == 0 {
        0
    } else {
        packed_sum(lens.drop_last()) + packed_len(lens.last())
    }
}

/// The packed parts, one after the other, are as long as their packed
/// lengths added up.
pub proof fn lemma_packed_concat_len(parts: Seq<Seq<u8>>)
    ensures
        packed_concat(parts).len() == packed_sum(part_lens(parts)),
    decreases parts.len(),
{
    if parts.len() > 0 {
        lemma_packed_concat_len(parts.drop_last());
        lemma_pack_spec_len(parts.last());
        assert(part_lens(parts).drop_last() =~= part_lens(parts.drop_last()));
    }
}

/// A packed sum is at least the packed sum of a prefix.
proof fn lemma_packed_sum_prefix(lens: Seq<nat>, k: int)
    requires
        0 <= k <= lens.len(),
    ensures
        packed_sum(lens.take(k)) <= packed_sum(lens),
    decreases lens.len(),
{
    if k < lens.len() {
        lemma_packed_sum_prefix(lens.drop_last(), k);
        assert(lens.drop_last().take(k) =~= lens.take(k));
    } else {
        assert(lens.take(k) =~= lens);
    }
}

/// Whether every length packs within a `usize`, and so do the packed
/// lengths added up.
fn packed_parts_fit(lens: &Vec<usize>) -> (ok: bool)
    ensures
        ok == ((forall|i: int| 0 <= i < lens@.len() ==> packed_len(#[trigger] lens@[i] as nat) <= usize::MAX)
            && packed_len(packed_sum(nat_lens(lens@))) <= usize::MAX),
{
    let ghost ls = nat_lens(lens@);
    let mut total: usize = 0;
    let mut i: usize = 0;
    while i < lens.len()
        invariant
            ls == nat_lens(lens@),
            i <= lens@.len(),
            total == packed_sum(ls.take(i as int)),
            forall|k: int| 0 <= k < i ==> packed_len(#[trigger] lens@[k] as nat) <= usize::MAX,
        decreases lens@.len() - i,
    {
        assert(ls.take(i + 1).drop_last() =~= ls.take(i as int));
        match packed_len_checked(lens[i]) {
            None => {
                return false;
            },
            Some(m) => {
                match total.checked_add(m) {
                    None => {
                        proof {
                            lemma_packed_sum_prefix(ls, i + 1);
                            lemma_packed_len(packed_sum(ls));
                        }
                        return false;
                    },
                    Some(t) => {
                        total = t;
                    },
                }
            },
        }
        i = i + 1;
    }
    assert(ls.take(lens@.len() as int) =~= ls);
    packed_len_checked(total).is_some()
}

/// The sub-field lengths of container `key` in a packed field of `n`
/// bytes, when the table holds them and they fit: the lengths that
/// `container_parts` cuts.
fn container_lens(key: u64, n: usize, sizes: &HashMap<u64, usize>) -> (lens: Option<Vec<usize>>)
    requires
        is_container_key(key),
    ensures
        lens is Some <==> container_ok(key, n as int, sizes@),
        lens matches Some(l) ==> forall|var: Seq<u8>|
            var.len() == n ==> nat_lens(l@) == part_lens(#[trigger] container_parts(key, var, sizes@)),
{
    if key == FORK {
        if !sizes.contains_key(&FORK_PREVIOUS_VERSION) || !sizes.contains_key(&FORK_CURRENT_VERSION) {
            return None;
        }
        let a = size_of_key(sizes, FORK_PREVIOUS_VERSION);
        let b = size_of_key(sizes, FORK_CURRENT_VERSION);
        if a > n || b > n - a {
            return None;
        }
        let rest = n - a - b;
        let l = vec![a, b, rest];
        assert forall|var: Seq<u8>| var.len() == n implies nat_lens(l@) == part_lens(
            #[trigger] container_parts(key, var, sizes@),
        ) by {
            assert(nat_lens(l@) =~= part_lens(container_parts(key, var, sizes@)));
        }
        Some(l)
    } else if key == ETH1_DATA {
        if !sizes.contains_key(&ETH1_DEPOSIT_ROOT) || !sizes.contains_key(&ETH1_DEPOSIT_COUNT) {
            return None;
        }
        let r = size_of_key(sizes, ETH1_DEPOSIT_ROOT);
        let c = size_of_key(sizes, ETH1_DEPOSIT_COUNT);
        if r > n || c > n - r {
            return None;
        }
        let rest = n - c - r;
        let l = vec![r, c, rest];
        assert forall|var: Seq<u8>| var.len() == n implies nat_lens(l@) == part_lens(
            #[trigger] container_parts(key, var, sizes@),
        ) by {
            assert(nat_lens(l@) =~= part_lens(container_parts(key, var, sizes@)));
        }
        Some(l)
    } else if key == LATEST_BLOCK_HEADER {
        if !sizes.contains_key(&HEADER_SLOT) || !sizes.contains_key(&HEADER_PROPOSER_INDEX)
            || !sizes.contains_key(&HEADER_PARENT_ROOT) || !sizes.contains_key(&HEADER_STATE_ROOT)
            || !sizes.contains_key(&HEADER_BODY_ROOT) {
            return None;
        }
        let s1 = size_of_key(sizes, HEADER_SLOT);
        let s2 = size_of_key(sizes, HEADER_PROPOSER_INDEX);
        let s3 = size_of_key(sizes, HEADER_PARENT_ROOT);
        let s4 = size_of_key(sizes, HEADER_STATE_ROOT);
        let s5 = size_of_key(sizes, HEADER_BODY_ROOT);
        if s1 > n || s2 > n - s1 || s3 > n - s1 - s2 || s4 > n - s1 - s2 - s3 || s5 > n - s1 - s2
            - s3 - s4 {
            return None;
        }
        let l = vec![s1, s2, s3, s4, s5];
        assert forall|var: Seq<u8>| var.len() == n implies nat_lens(l@) == part_lens(
            #[trigger] container_parts(key, var, sizes@),
        ) by {
            assert(nat_lens(l@) =~= part_lens(container_parts(key, var, sizes@)));
        }
        Some(l)
    } else {
        let (ka, kb) = if key == PREVIOUS_JUSTIFIED_CHECKPOINT {
            (PREVIOUS_CHECKPOINT_EPOCH, PREVIOUS_CHECKPOINT_ROOT)
        } else if key == CURRENT_JUSTIFIED_CHECKPOINT {
            (CURRENT_CHECKPOINT_EPOCH, CURRENT_CHECKPOINT_ROOT)
        } else if key == FINALIZED_CHECKPOINT {
            (FINALIZED_CHECKPOINT_EPOCH, FINALIZED_CHECKPOINT_ROOT)
        } else if key == CURRENT_SYNC_COMMITTEE {
            (CURRENT_SYNC_COMMITTEE_PUBKEYS, CURRENT_SYNC_COMMITTEE_AGG_PUBKEY)
        } else {
            (NEXT_SYNC_COMMITTEE_PUBKEYS, NEXT_SYNC_COMMITTEE_AGG_PUBKEY)
        };
        assert((ka, kb) == pair_keys(key));
        if !sizes.contains_key(&ka) || !sizes.contains_key(&kb) {
            return None;
        }
        let a = size_of_key(sizes, ka);
        let b = size_of_key(sizes, kb);
        if a > n || b > n - a {
            return None;
        }
        let l = vec![a, b];
        assert forall|var: Seq<u8>| var.len() == n implies nat_lens(l@) == part_lens(
            #[trigger] container_parts(key, var, sizes@),
        ) by {
            assert(nat_lens(l@) =~= part_lens(container_parts(key, var, sizes@)));
        }
        Some(l)
    }
}

/// Whether container `key` can be hashed from a packed field of `n` bytes.
fn container_checked(key: u64, n: usize, sizes: &HashMap<u64, usize>) -> (ok: bool)
    requires
        is_container_key(key),
    ensures
        forall|var: Seq<u8>|
            var.len() == n ==> (ok <==> (container_ok(key, n as int, sizes@) && #[trigger] container_fits(
                key,
                var,
                sizes@,
            ))),
{
    match container_lens(key, n, sizes) {
        None => false,
        Some(l) => {
            let ok = packed_parts_fit(&l);
            assert forall|var: Seq<u8>| var.len() == n implies (ok <==> (container_ok(
                key,
                n as int,
                sizes@,
            ) && #[trigger] container_fits(key, var, sizes@))) by {
                let parts = container_parts(key, var, sizes@);
                lemma_packed_concat_len(parts);
                assert(nat_lens(l@) == part_lens(parts));
                assert(parts.len() == l@.len());
                if ok {
                    assert forall|i: int| 0 <= i < parts.len() implies packed_len(
                        #[trigger] parts[i].len(),
                    ) <= usize::MAX by {
                        assert(part_lens(parts)[i] == parts[i].len());
                        assert(nat_lens(l@)[i] == l@[i] as nat);
                    }
                } else if container_fits(key, var, sizes@) {
                    assert forall|i: int| 0 <= i < l@.len() implies packed_len(
                        #[trigger] l@[i] as nat,
                    ) <= usize::MAX by {
                        assert(part_lens(parts)[i] == parts[i].len());
                        assert(nat_lens(l@)[i] == l@[i] as nat);
                        assert(packed_len(parts[i].len()) <= usize::MAX);
                    }
                }
            }
            ok
        },
    }
}

/// The top-level fields of the beacon state, in order.
pub open spec fn top_level_keys() -> Seq<u64> {
    seq![
        GENESIS_TIME,
        GENESIS_VALIDATORS_ROOT,
        SLOT,
        FORK,
        LATEST_BLOCK_HEADER,
        BLOCK_ROOTS,
        STATE_ROOTS,
        HISTORICAL_ROOTS,
        ETH1_DATA,
        ETH1_DATA_VOTES,
        ETH1_DEPOSIT_INDEX,
        VALIDATORS,
        BALANCES,
        RANDAO_MIXES,
        SLASHINGS,
        PREVIOUS_EPOCH_PARTICIPATION,
        CURRENT_EPOCH_PARTICIPATION,
        JUSTIFICATION_BITS,
        PREVIOUS_JUSTIFIED_CHECKPOINT,
        CURRENT_JUSTIFIED_CHECKPOINT,
        FINALIZED_CHECKPOINT,
        INACTIVITY_SCORES,
        CURRENT_SYNC_COMMITTEE,
        NEXT_SYNC_COMMITTEE,
    ]
}

/// The top-level fields whose root has their length mixed in.
pub open spec fn is_list_key(key: u64) -> bool {
    ||| key == HISTORICAL_ROOTS
    ||| key == VALIDATORS
    ||| key == BALANCES
    ||| key == ETH1_DATA_VOTES
    ||| key == PREVIOUS_EPOCH_PARTICIPATION
    ||| key == CURRENT_EPOCH_PARTICIPATION
    ||| key == INACTIVITY_SCORES
}

/// How far the reading position moves past field `key`: the size of an
/// offset for a field in the offsets table, else the field's size.
pub open spec fn field_step(key: u64, sizes: Map<u64, usize>, offsets: Map<u64, usize>) -> int {
    if offsets.contains_key(key) {
        BYTES_PER_LENGTH_OFFSET as int
    } else {
        sizes[key] as int
    }
}

/// Where the bytes of top-level field `i` start.
pub open spec fn field_start(i: nat, sizes: Map<u64, usize>, offsets: Map<u64, usize>) -> int
    decreases i,
{
    if i == 0 {
        0
    } else {
        field_start((i - 1) as nat, sizes, offsets) + field_step(
            top_level_keys()[i - 1],
            sizes,
            offsets,
        )
    }
}

/// The bytes of top-level field `i`.
pub open spec fn field_raw(
    i: nat,
    state: Seq<u8>,
    sizes: Map<u64, usize>,
    offsets: Map<u64, usize>,
) -> Seq<u8> {
    let key = top_level_keys()[i as int];
    var_bytes_spec(field_pos(i, sizes, offsets) as usize, sizes[key], state, false)
}

/// Where the bytes of top-level field `i` are read: at its offset for a
/// variable-size field (one in the offsets table), else at its place in
/// the fixed part.
pub open spec fn field_pos(i: nat, sizes: Map<u64, usize>, offsets: Map<u64, usize>) -> int {
    let key = top_level_keys()[i as int];
    if offsets.contains_key(key) {
        offsets[key] as int
    } else {
        field_start(i, sizes, offsets)
    }
}

/// The root of top-level field `i`: the container root of a container,
/// else the merkle root of the packed bytes; with the field's size mixed
/// in for a list.
pub open spec fn field_root(
    i: nat,
    state: Seq<u8>,
    sizes: Map<u64, usize>,
    offsets: Map<u64, usize>,
) -> Seq<u8> {
    let key = top_level_keys()[i as int];
    let var = pack_spec(field_raw(i, state, sizes, offsets));
    let root = if is_container_key(key) {
        container_root_spec(key, var, sizes)
    } else {
        merkle_root(var)
    };
    if is_list_key(key) {
        sha256_spec(root + length_chunk(sizes[key]))
    } else {
        root
    }
}

/// The roots of the first `n` top-level fields, one after the other.
pub open spec fn chunks_spec(
    n: nat,
    state: Seq<u8>,
    sizes: Map<u64, usize>,
    offsets: Map<u64, usize>,
) -> Seq<u8>
    decreases n,
{
    if n == 0 {
        Seq::empty()
    } else {
        chunks_spec((n - 1) as nat, state, sizes, offsets) + field_root(
            (n - 1) as nat,
            state,
            sizes,
            offsets,
        )
    }
}

/// Top-level field `i` can be read and hashed: its size is in the table,
/// its bytes lie within the state, the reading position stays within
/// `usize`, and its packed bytes (and a container's sub-fields) fit.
pub open spec fn field_ok(i: nat, state: Seq<u8>, sizes: Map<u64, usize>, offsets: Map<u64, usize>) -> bool {
    let key = top_level_keys()[i as int];
    &&& sizes.contains_key(key)
    &&& field_pos(i, sizes, offsets) + sizes[key] <= state.len()
    &&& field_start(i + 1, sizes, offsets) <= usize::MAX
    &&& packed_len(sizes[key] as nat) <= usize::MAX
    &&& is_container_key(key) ==> {
        &&& container_ok(key, packed_len(sizes[key] as nat) as int, sizes)
        &&& container_fits(key, pack_spec(field_raw(i, state, sizes, offsets)), sizes)
    }
}

/// Every top-level field can be read and hashed.
pub open spec fn chunks_ok(state: Seq<u8>, sizes: Map<u64, usize>, offsets: Map<u64, usize>) -> bool {
    forall|i: nat| i < 24 ==> #[trigger] field_ok(i, state, sizes, offsets)
}

/// Whether `key` names a container field.
fn is_container(key: u64) -> (r: bool)
    ensures
        r == is_container_key(key),
{
    key == FORK || key == ETH1_DATA || key == LATEST_BLOCK_HEADER || key
        == PREVIOUS_JUSTIFIED_CHECKPOINT || key == CURRENT_JUSTIFIED_CHECKPOINT || key
        == FINALIZED_CHECKPOINT || key == CURRENT_SYNC_COMMITTEE || key == NEXT_SYNC_COMMITTEE
}

/// The roots of the top-level fields of a serialized beacon state, in
/// order, 32 bytes each: a field in the offsets table is read at its
/// offset and takes the room of an offset in the fixed part, any other is
/// read at its place in the fixed part; each is packed and hashed (a
/// container from its sub-fields), and a list gets its size mixed in.
///
/// The justification bits are an SSZ `Bitvector[4]`: serialized as one
/// byte with no length cap (the serializer adds none), they are read and
/// hashed as they stand, and `remove_cap_from_justification_bits` is not
/// applied to them here.
pub fn generate_chunks(
    serialized_state: &Vec<u8>,
    sizes: &HashMap<u64, usize>,
    offsets: &HashMap<u64, usize>,
) -> (chunks: Vec<u8>)
    requires
        chunks_ok(serialized_state@, sizes@, offsets@),
    ensures
        chunks@ == chunks_spec(24, serialized_state@, sizes@, offsets@),
        chunks@.len() == 768,
        forall|k: int|
            0 <= k < 24 ==> #[trigger] chunks@.subrange(32 * k, 32 * k + 32) == field_root(
                k as nat,
                serialized_state@,
                sizes@,
                offsets@,
            ),
{
    let mut chunks: Vec<u8> = Vec::new();
    let mut start_idx: usize = 0;
    let keys: Vec<u64> = vec![
        GENESIS_TIME,
        GENESIS_VALIDATORS_ROOT,
        SLOT,
        FORK,
        LATEST_BLOCK_HEADER,
        BLOCK_ROOTS,
        STATE_ROOTS,
        HISTORICAL_ROOTS,
        ETH1_DATA,
        ETH1_DATA_VOTES,
        ETH1_DEPOSIT_INDEX,
        VALIDATORS,
        BALANCES,
        RANDAO_MIXES,
        SLASHINGS,
        PREVIOUS_EPOCH_PARTICIPATION,
        CURRENT_EPOCH_PARTICIPATION,
        JUSTIFICATION_BITS,
        PREVIOUS_JUSTIFIED_CHECKPOINT,
        CURRENT_JUSTIFIED_CHECKPOINT,
        FINALIZED_CHECKPOINT,
        INACTIVITY_SCORES,
        CURRENT_SYNC_COMMITTEE,
        NEXT_SYNC_COMMITTEE,
    ];
    assert(keys@ =~= top_level_keys());
    let mut i: usize = 0;
    while i < keys.len()
        invariant
            keys@ == top_level_keys(),
            i <= 24,
            start_idx == field_start(i as nat, sizes@, offsets@),
            chunks@ == chunks_spec(i as nat, serialized_state@, sizes@, offsets@),
            chunks@.len() == 32 * i,
            forall|k: int|
                0 <= k < i ==> #[trigger] chunks@.subrange(32 * k, 32 * k + 32) == field_root(
                    k as nat,
                    serialized_state@,
                    sizes@,
                    offsets@,
                ),
            chunks_ok(serialized_state@, sizes@, offsets@),
        decreases 24 - i,
    {
        let key = keys[i];
        assert(field_ok(i as nat, serialized_state@, sizes@, offsets@));
        let size = size_of_key(sizes, key);
        let pos: usize = if offsets.contains_key(&key) {
            *offsets.get(&key).unwrap()
        } else {
            start_idx
        };
        let var = get_var_bytes(pos, size, serialized_state, &false);
        let ghost raw = var@;
        assert(raw == field_raw(i as nat, serialized_state@, sizes@, offsets@));
        let var: Vec<u8> = pack(var);
        proof {
            lemma_pack_spec_len(raw);
            lemma_pack_idempotent(raw);
            lemma_pack_spec_len(pack_spec(raw));
        }
        let mut root = hash_tree_root(&var);
        if is_container(key) {
            let var: Vec<u8> = pack(var);
            root = hash_tree_root_container(key, var, sizes);
        } else {
            let var: Vec<u8> = pack(var);
            root = hash_tree_root(&var);
        }
        if key == HISTORICAL_ROOTS || key == VALIDATORS || key == BALANCES || key
            == ETH1_DATA_VOTES || key == PREVIOUS_EPOCH_PARTICIPATION || key
            == CURRENT_EPOCH_PARTICIPATION || key == INACTIVITY_SCORES {
            root = mix_in_length_data(&root, &size);
        }
        assert(root@ == field_root(i as nat, serialized_state@, sizes@, offsets@));
        let ghost before = chunks@;
        let ghost r = root@;
        chunks.append(&mut root);
        assert(chunks@ =~= before + r);
        proof {
            assert forall|k: int| 0 <= k < i + 1 implies #[trigger] chunks@.subrange(
                32 * k,
                32 * k + 32,
            ) == field_root(k as nat, serialized_state@, sizes@, offsets@) by {
                if k < i {
                    assert(chunks@.subrange(32 * k, 32 * k + 32) =~= before.subrange(32 * k, 32 * k + 32));
                } else {
                    assert(chunks@.subrange(32 * k, 32 * k + 32) =~= r);
                }
            }
        }
        if offsets.contains_key(&key) {
            start_idx = start_idx + BYTES_PER_LENGTH_OFFSET;
        } else {
            start_idx = start_idx + size;
        }
        i = i + 1;
    }
    chunks
}

/// Whether every top-level field can be read and hashed
/// (`chunks_ok`), tested field by field.
pub fn chunks_readable(
    serialized_state: &Vec<u8>,
    sizes: &HashMap<u64, usize>,
    offsets: &HashMap<u64, usize>,
) -> (ok: bool)
    ensures
        ok == chunks_ok(serialized_state@, sizes@, offsets@),
{
    let keys: Vec<u64> = vec![
        GENESIS_TIME,
        GENESIS_VALIDATORS_ROOT,
        SLOT,
        FORK,
        LATEST_BLOCK_HEADER,
        BLOCK_ROOTS,
        STATE_ROOTS,
        HISTORICAL_ROOTS,
        ETH1_DATA,
        ETH1_DATA_VOTES,
        ETH1_DEPOSIT_INDEX,
        VALIDATORS,
        BALANCES,
        RANDAO_MIXES,
        SLASHINGS,
        PREVIOUS_EPOCH_PARTICIPATION,
        CURRENT_EPOCH_PARTICIPATION,
        JUSTIFICATION_BITS,
        PREVIOUS_JUSTIFIED_CHECKPOINT,
        CURRENT_JUSTIFIED_CHECKPOINT,
        FINALIZED_CHECKPOINT,
        INACTIVITY_SCORES,
        CURRENT_SYNC_COMMITTEE,
        NEXT_SYNC_COMMITTEE,
    ];
    assert(keys@ =~= top_level_keys());
    let mut start: usize = 0;
    let mut i: usize = 0;
    while i < keys.len()
        invariant
            keys@ == top_level_keys(),
            i <= 24,
            start == field_start(i as nat, sizes@, offsets@),
            forall|k: nat| k < i ==> #[trigger] field_ok(k, serialized_state@, sizes@, offsets@),
        decreases 24 - i,
    {
        let key = keys[i];
        let ghost gi = i as nat;
        if !sizes.contains_key(&key) {
            assert(!field_ok(gi, serialized_state@, sizes@, offsets@));
            return false;
        }
        let size = size_of_key(sizes, key);
        let pos: usize = if offsets.contains_key(&key) {
            *offsets.get(&key).unwrap()
        } else {
            start
        };
        match pos.checked_add(size) {
            None => {
                assert(serialized_state@.len() == serialized_state.len());
                assert(!field_ok(gi, serialized_state@, sizes@, offsets@));
                return false;
            },
            Some(end) => {
                if end > serialized_state.len() {
                    assert(!field_ok(gi, serialized_state@, sizes@, offsets@));
                    return false;
                }
            },
        }
        let step: usize = if offsets.contains_key(&key) {
            BYTES_PER_LENGTH_OFFSET
        } else {
            size
        };
        let next = match start.checked_add(step) {
            None => {
                assert(!field_ok(gi, serialized_state@, sizes@, offsets@));
                return false;
            },
            Some(x) => x,
        };
        let n = match packed_len_checked(size) {
            None => {
                assert(!field_ok(gi, serialized_state@, sizes@, offsets@));
                return false;
            },
            Some(n) => n,
        };
        if is_container(key) {
            let ghost raw = field_raw(gi, serialized_state@, sizes@, offsets@);
            proof {
                assert(raw.len() == size);
                lemma_pack_spec_len(raw);
            }
            if !container_checked(key, n, sizes) {
                assert(!container_ok(key, n as int, sizes@) || !container_fits(
                    key,
                    pack_spec(raw),
                    sizes@,
                ));
                assert(!field_ok(gi, serialized_state@, sizes@, offsets@));
                return false;
            }
            assert(container_fits(key, pack_spec(raw), sizes@));
        }
        assert(field_ok(gi, serialized_state@, sizes@, offsets@));
        start = next;
        i = i + 1;
    }
    true
}

/// The roots of the top-level fields of a serialized beacon state, as
/// `generate_chunks` gives them, when every field can be read and hashed;
/// else `None`.
pub fn try_generate_chunks(
    serialized_state: &Vec<u8>,
    sizes: &HashMap<u64, usize>,
    offsets: &HashMap<u64, usize>,
) -> (chunks: Option<Vec<u8>>)
    ensures
        chunks is Some <==> chunks_ok(serialized_state@, sizes@, offsets@),
        chunks matches Some(c) ==> {
            &&& c@ == chunks_spec(24, serialized_state@, sizes@, offsets@)
            &&& c@.len() == 768
            &&& forall|k: int|
                0 <= k < 24 ==> #[trigger] c@.subrange(32 * k, 32 * k + 32) == field_root(
                    k as nat,
                    serialized_state@,
                    sizes@,
                    offsets@,
                )
        },
{
    if chunks_readable(serialized_state, sizes, offsets) {
        Some(generate_chunks(serialized_state, sizes, offsets))
    } else {
        None
    }
}

/// The merkle tree of a value has two positions for each chunk of the
/// packed value.
pub proof fn lemma_merkle_tree_len(chunks: Seq<u8>)
    ensures
        merkle_tree_spec(chunks).len() == 2 * (packed_len(chunks.len()) / 32),
{
    lemma_pack_spec_len(chunks);
    lemma_tree_of(chunks_of(pack_spec(chunks)));
}

/// The bytes of top-level field `i` of a serialized state, read as
/// `generate_chunks` reads them.
pub fn field_bytes(
    serialized_state: &Vec<u8>,
    sizes: &HashMap<u64, usize>,
    offsets: &HashMap<u64, usize>,
    i: usize,
) -> (raw: Vec<u8>)
    requires
        chunks_ok(serialized_state@, sizes@, offsets@),
        i < 24,
    ensures
        raw@ == field_raw(i as nat, serialized_state@, sizes@, offsets@),
{
    let keys: Vec<u64> = vec![
        GENESIS_TIME,
        GENESIS_VALIDATORS_ROOT,
        SLOT,
        FORK,
        LATEST_BLOCK_HEADER,
        BLOCK_ROOTS,
        STATE_ROOTS,
        HISTORICAL_ROOTS,
        ETH1_DATA,
        ETH1_DATA_VOTES,
        ETH1_DEPOSIT_INDEX,
        VALIDATORS,
        BALANCES,
        RANDAO_MIXES,
        SLASHINGS,
        PREVIOUS_EPOCH_PARTICIPATION,
        CURRENT_EPOCH_PARTICIPATION,
        JUSTIFICATION_BITS,
        PREVIOUS_JUSTIFIED_CHECKPOINT,
        CURRENT_JUSTIFIED_CHECKPOINT,
        FINALIZED_CHECKPOINT,
        INACTIVITY_SCORES,
        CURRENT_SYNC_COMMITTEE,
        NEXT_SYNC_COMMITTEE,
    ];
    assert(keys@ =~= top_level_keys());
    let mut start_idx: usize = 0;
    let mut k: usize = 0;
    while k < i
        invariant
            keys@ == top_level_keys(),
            k <= i < 24,
            start_idx == field_start(k as nat, sizes@, offsets@),
            chunks_ok(serialized_state@, sizes@, offsets@),
        decreases i - k,
    {
        assert(field_ok(k as nat, serialized_state@, sizes@, offsets@));
        let key = keys[k];
        let size = size_of_key(sizes, key);
        if offsets.contains_key(&key) {
            start_idx = start_idx + BYTES_PER_LENGTH_OFFSET;
        } else {
            start_idx = start_idx + size;
        }
        k = k + 1;
    }
    assert(field_ok(i as nat, serialized_state@, sizes@, offsets@));
    let key = keys[i];
    let size = size_of_key(sizes, key);
    let pos: usize = if offsets.contains_key(&key) {
        *offsets.get(&key).unwrap()
    } else {
        start_idx
    };
    get_var_bytes(pos, size, serialized_state, &false)
}

/// Law: the first node of the merkle tree of a value is its merkle root,
/// the root that `hash_tree_root` computes from the packed value.
pub proof fn lemma_merkle_tree_root(chunks: Seq<u8>)
    ensures
        merkle_tree_spec(chunks).len() >= 2,
        merkle_tree_spec(chunks)[0] == merkle_root(pack_spec(chunks)),
{
    lemma_pack_spec_len(chunks);
    lemma_tree_of(chunks_of(pack_spec(chunks)));
}

} // verus!

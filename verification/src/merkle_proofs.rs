//! Generalized indices in a binary merkle tree and the branches that link
//! a node to the root.

use vstd::prelude::*;

verus! {

/// `floor(log2(n))` for `n >= 1`; `0` for `n == 0`.
pub open spec fn floor_log2(n: nat) -> nat
    decreases n,
{
    if n <= 1 {
        0
    } else {
        1 + floor_log2(n / 2)
    }
}

/// The sibling of node `idx`: its right neighbour when it is a left child
/// (even), its left neighbour when it is a right child (odd).
pub open spec fn sibling_of(idx: u64) -> u64 {
    if idx % 2 == 0 {
        (idx + 1) as u64
    } else {
        (idx - 1) as u64
    }
}

/// The generalized indices of a merkle branch for node `idx`: the sibling
/// of each node on the path from `idx` up to the root, the root excluded.
pub open spec fn branch_path(idx: u64) -> Seq<u64>
    decreases idx,
{
    if idx <= 1 {
        Seq::empty()
    } else {
        seq![sibling_of(idx)] + branch_path(idx / 2)
    }
}

/// The sibling of a node: `idx ^ 1`, the neighbour it is hashed with.
pub fn generalized_index_sibling(idx: u64) -> (r: u64)
    ensures
        r == idx ^ 1,
        r == sibling_of(idx),
{
    assert((idx % 2 == 0 ==> idx ^ 1 == idx + 1) && (idx % 2 == 1 ==> idx ^ 1 == idx - 1)) by (bit_vector);
    idx ^ 1
}

/// The parent of a node: `floor(idx / 2)`.
pub fn generalized_index_parent(idx: u64) -> (r: u64)
    ensures
        r == idx / 2,
{
    idx / 2
}

/// The length of the branch that links node `tree_idx` to the root,
/// `floor(log2(tree_idx))` (0 for index 0).
pub fn get_generalized_index_length(tree_idx: u64) -> (r: u64)
    ensures
        r == floor_log2(tree_idx as nat),
{
    proof {
        lemma_floor_log2_le(tree_idx as nat);
    }
    let mut n: u64 = tree_idx;
    let mut count: u64 = 0;
    while n > 1
        invariant
            count + floor_log2(n as nat) == floor_log2(tree_idx as nat),
            floor_log2(tree_idx as nat) <= tree_idx,
        decreases n,
    {
        n = n / 2;
        count = count + 1;
    }
    count
}

/// `floor_log2(n)` never exceeds `n`.
proof fn lemma_floor_log2_le(n: nat)
    ensures
        floor_log2(n) <= n,
    decreases n,
{
    if n > 1 {
        lemma_floor_log2_le(n / 2);
    }
}

/// The indices of the nodes whose values make up the branch of node
/// `tree_idx`: the sibling of the node and of each of its ancestors below
/// the root.
pub fn get_branch_indices(tree_idx: u64) -> (o: Vec<u64>)
    ensures
        o@ == branch_path(tree_idx),
{
    let mut o: Vec<u64> = Vec::new();
    let mut node: u64 = tree_idx;
    while node > 1
        invariant
            o@ + branch_path(node) == branch_path(tree_idx),
        decreases node,
    {
        let ghost before = o@;
        o.push(generalized_index_sibling(node));
        assert(before + branch_path(node) =~= o@ + branch_path(node / 2));
        node = generalized_index_parent(node);
    }
    assert(o@ + branch_path(node) =~= o@);
    o
}

/// The values of the nodes on the branch of node `tree_idx`, taken from
/// `tree`, a merkle tree laid out by generalized index.
pub fn get_branch(tree: &Vec<Vec<u8>>, tree_idx: u64) -> (branch: Vec<Vec<u8>>)
    requires
        tree_idx > 1 ==> sibling_of(tree_idx) < tree.len(),
    ensures
        branch.len() == branch_path(tree_idx).len(),
        forall|k: int|
            0 <= k < branch.len() ==> #[trigger] branch[k]@ == tree[branch_path(tree_idx)[k] as int]@,
{
    let mut branch: Vec<Vec<u8>> = Vec::new();
    let branch_idxs: Vec<u64> = get_branch_indices(tree_idx);
    proof {
        lemma_branch_path_bounded(tree_idx);
    }
    let mut j: usize = 0;
    while j < branch_idxs.len()
        invariant
            branch_idxs@ == branch_path(tree_idx),
            tree_idx > 1 ==> sibling_of(tree_idx) < tree.len(),
            forall|k: int| 0 <= k < branch_idxs.len() ==> #[trigger] branch_idxs@[k] <= sibling_of(tree_idx),
            j <= branch_idxs.len(),
            branch.len() == j,
            forall|k: int| 0 <= k < j ==> #[trigger] branch[k]@ == tree[branch_idxs@[k] as int]@,
        decreases branch_idxs.len() - j,
    {
        let i = branch_idxs[j];
        branch.push(tree[i as usize].clone());
        j = j + 1;
    }
    branch
}

/// Every index on the branch of `idx` is at most the sibling of `idx`.
pub proof fn lemma_branch_path_bounded(idx: u64)
    ensures
        forall|k: int|
            0 <= k < branch_path(idx).len() ==> #[trigger] branch_path(idx)[k] <= sibling_of(idx),
    decreases idx,
{
    if idx > 1 {
        lemma_branch_path_bounded(idx / 2);
        assert forall|k: int| 0 <= k < branch_path(idx).len() implies #[trigger] branch_path(
            idx,
        )[k] <= sibling_of(idx) by {
            if k > 0 {
                assert(branch_path(idx)[k] == branch_path(idx / 2)[k - 1]);
                if idx / 2 > 1 {
                    assert(sibling_of(idx / 2) <= idx / 2 + 1);
                }
            }
        }
    }
}

/// Law: the branch of a node is exactly as long as its generalized index
/// length, `floor(log2(idx))`.
pub proof fn lemma_branch_length(idx: u64)
    ensures
        branch_path(idx).len() == floor_log2(idx as nat),
    decreases idx,
{
    if idx > 1 {
        lemma_branch_length(idx / 2);
    }
}

/// Law: entry `k` of the branch of `idx` is the sibling of the `k`-th
/// ancestor of `idx` (`idx` itself for `k == 0`).
pub proof fn lemma_branch_steps(idx: u64)
    ensures
        forall|k: int|
            0 <= k < branch_path(idx).len() ==> #[trigger] branch_path(idx)[k] == sibling_of(
                (idx as nat / vstd::arithmetic::power2::pow2(k as nat)) as u64,
            ),
    decreases idx,
{
    if idx > 1 {
        lemma_branch_steps(idx / 2);
        let p = branch_path(idx);
        let q = branch_path(idx / 2);
        assert forall|k: int| 0 <= k < p.len() implies #[trigger] p[k] == sibling_of(
            (idx as nat / vstd::arithmetic::power2::pow2(k as nat)) as u64,
        ) by {
            if k == 0 {
                vstd::arithmetic::power2::lemma2_to64();
            } else {
                vstd::arithmetic::power2::lemma_pow2_unfold(k as nat);
                assert(p[k] == q[k - 1]);
                vstd::arithmetic::power2::lemma_pow2_pos((k - 1) as nat);
                vstd::arithmetic::div_mod::lemma_div_denominator(
                    idx as int,
                    2,
                    vstd::arithmetic::power2::pow2((k - 1) as nat) as int,
                );
            }
        }
    }
}

} // verus!

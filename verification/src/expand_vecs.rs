//! The serialized form of a list of eth1 data votes.

use crate::types::Eth1Data;
use vstd::bytes::{spec_u64_to_le_bytes, u64_to_le_bytes};
use vstd::prelude::*;

verus! {

/// The serialized form of one eth1 data vote: the deposit root, the
/// deposit count in 8 little-endian bytes, the block hash.
pub open spec fn eth1_data_bytes(vote: Eth1Data) -> Seq<u8> {
    vote.deposit_root@ + spec_u64_to_le_bytes(vote.deposit_count) + vote.block_hash@
}

/// The serialized votes, one after the other.
pub open spec fn votes_bytes(votes: Seq<Eth1Data>) -> Seq<u8>
    decreases votes.len(),
{
    if votes.len() == 0 {
        Seq::empty()
    } else {
        votes_bytes(votes.drop_last()) + eth1_data_bytes(votes.last())
    }
}

/// Appends `bytes` to `out`, byte by byte.
pub(crate) fn push_bytes(out: &mut Vec<u8>, bytes: &[u8])
    ensures
        final(out)@ == old(out)@ + bytes@,
{
    let ghost start = out@;
    let mut j: usize = 0;
    while j < bytes.len()
        invariant
            j <= bytes@.len(),
            out@ == start + bytes@.subrange(0, j as int),
        decreases bytes@.len() - j,
    {
        out.push(bytes[j]);
        assert(out@ =~= start + bytes@.subrange(0, j + 1));
        j = j + 1;
    }
    assert(bytes@.subrange(0, bytes@.len() as int) =~= bytes@);
}

/// The votes serialized one after the other.
pub(crate) fn votes_ssz(eth1_data_votes: &Vec<Eth1Data>) -> (bytes: Vec<u8>)
    ensures
        bytes@ == votes_bytes(eth1_data_votes@),
{
    let mut eth1_data_votes_vec: Vec<u8> = Vec::new();
    let mut i: usize = 0;
    while i < eth1_data_votes.len()
        invariant
            i <= eth1_data_votes@.len(),
            eth1_data_votes_vec@ == votes_bytes(eth1_data_votes@.take(i as int)),
        decreases eth1_data_votes@.len() - i,
    {
        let vote = &eth1_data_votes[i];
        let count = u64_to_le_bytes(vote.deposit_count);
        push_bytes(&mut eth1_data_votes_vec, vote.deposit_root.as_slice());
        push_bytes(&mut eth1_data_votes_vec, count.as_slice());
        push_bytes(&mut eth1_data_votes_vec, vote.block_hash.as_slice());
        assert(eth1_data_votes@.take(i + 1).drop_last() =~= eth1_data_votes@.take(i as int));
        i = i + 1;
    }
    assert(eth1_data_votes@.take(eth1_data_votes@.len() as int) =~= eth1_data_votes@);
    eth1_data_votes_vec
}

/// The votes serialized one after the other; the result must be 72 bytes
/// per vote (32-byte roots and hashes).
pub fn expand_eth1_data_votes(eth1_data_votes: &Vec<Eth1Data>) -> (bytes: Vec<u8>)
    requires
        eth1_data_votes@.len() * 72 <= usize::MAX,
        votes_bytes(eth1_data_votes@).len() == eth1_data_votes@.len() * 72,
    ensures
        bytes@ == votes_bytes(eth1_data_votes@),
        bytes@.len() == eth1_data_votes@.len() * 72,
{
    votes_ssz(eth1_data_votes)
}

/// The serialized length of some votes when it is below `limit`, else
/// `None`.
pub(crate) fn votes_len_below(votes: &Vec<Eth1Data>, limit: u128) -> (r: Option<u128>)
    requires
        0 < limit <= 0x1_0000_0000_0000_0000_0000_0000u128,
    ensures
        r matches Some(n) ==> n == votes_bytes(votes@).len() && n < limit,
        r is None ==> votes_bytes(votes@).len() >= limit,
{
    proof {
        vstd::bytes::lemma_auto_spec_u64_to_from_le_bytes();
    }
    let mut total: u128 = 0;
    let mut i: usize = 0;
    while i < votes.len()
        invariant
            i <= votes@.len(),
            total == votes_bytes(votes@.take(i as int)).len(),
            total < limit,
            limit <= 0x1_0000_0000_0000_0000_0000_0000u128,
        decreases votes@.len() - i,
    {
        proof {
            vstd::bytes::lemma_auto_spec_u64_to_from_le_bytes();
        }
        let ghost pre = votes@.take(i as int);
        assert(votes@.take(i + 1).drop_last() =~= pre);
        assert(votes_bytes(votes@.take(i + 1)) == votes_bytes(pre) + eth1_data_bytes(votes@[i as int]));
        let vote = &votes[i];
        let next: u128 = total as u128 + vote.deposit_root.len() as u128 + 8 + vote.block_hash.len() as u128;
        assert(next == votes_bytes(votes@.take(i + 1)).len());
        if next >= limit {
            proof {
                lemma_votes_len_prefix(votes@, i + 1);
            }
            return None;
        }
        total = next;
        i = i + 1;
    }
    assert(votes@.take(votes@.len() as int) =~= votes@);
    Some(total)
}

/// The serialized votes are at least as long as those of a prefix.
proof fn lemma_votes_len_prefix(votes: Seq<Eth1Data>, k: int)
    requires
        0 <= k <= votes.len(),
    ensures
        votes_bytes(votes.take(k)).len() <= votes_bytes(votes).len(),
    decreases votes.len(),
{
    if k < votes.len() {
        lemma_votes_len_prefix(votes.drop_last(), k);
        assert(votes.drop_last().take(k) =~= votes.take(k));
    } else {
        assert(votes.take(k) =~= votes);
    }
}

/// Serializing one more vote appends its bytes (the deposit root, the
/// deposit count in 8 little-endian bytes, the block hash) after those of
/// the votes before it.
pub proof fn lemma_votes_bytes_push(votes: Seq<Eth1Data>, vote: Eth1Data)
    ensures
        votes_bytes(votes.push(vote)) == votes_bytes(votes) + (vote.deposit_root@
            + spec_u64_to_le_bytes(vote.deposit_count) + vote.block_hash@),
{
    assert(votes.push(vote).drop_last() =~= votes);
}

/// With 32-byte deposit roots and block hashes, the serialized votes are
/// 72 bytes per vote, and the 72 bytes at `72 * k` are vote `k`'s: its
/// deposit root, its deposit count in 8 little-endian bytes, its block
/// hash. The votes come out in list order.
pub proof fn lemma_votes_bytes_at(votes: Seq<Eth1Data>, k: int)
    requires
        forall|j: int|
            0 <= j < votes.len() ==> (#[trigger] votes[j]).deposit_root@.len() == 32
                && votes[j].block_hash@.len() == 32,
        0 <= k < votes.len(),
    ensures
        votes_bytes(votes).len() == 72 * votes.len(),
        votes_bytes(votes).subrange(72 * k, 72 * k + 72) == votes[k].deposit_root@
            + spec_u64_to_le_bytes(votes[k].deposit_count) + votes[k].block_hash@,
    decreases votes.len(),
{
    vstd::bytes::lemma_auto_spec_u64_to_from_le_bytes();
    lemma_votes_bytes_len(votes);
    let n = votes.len() - 1;
    let pre = votes.drop_last();
    lemma_votes_bytes_len(pre);
    let v = votes[n];
    assert(votes_bytes(votes) == votes_bytes(pre) + eth1_data_bytes(v));
    if k < n {
        lemma_votes_bytes_at(pre, k);
        assert(votes_bytes(votes).subrange(72 * k, 72 * k + 72) =~= votes_bytes(pre).subrange(
            72 * k,
            72 * k + 72,
        ));
    } else {
        assert(votes_bytes(votes).subrange(72 * k, 72 * k + 72) =~= eth1_data_bytes(v));
    }
}

/// With 32-byte deposit roots and block hashes, the serialized votes are
/// 72 bytes per vote.
proof fn lemma_votes_bytes_len(votes: Seq<Eth1Data>)
    requires
        forall|j: int|
            0 <= j < votes.len() ==> (#[trigger] votes[j]).deposit_root@.len() == 32
                && votes[j].block_hash@.len() == 32,
    ensures
        votes_bytes(votes).len() == 72 * votes.len(),
    decreases votes.len(),
{
    vstd::bytes::lemma_auto_spec_u64_to_from_le_bytes();
    if votes.len() > 0 {
        let pre = votes.drop_last();
        assert forall|j: int| 0 <= j < pre.len() implies (#[trigger] pre[j]).deposit_root@.len() == 32
            && pre[j].block_hash@.len() == 32 by {
            assert(pre[j] == votes[j]);
        }
        lemma_votes_bytes_len(pre);
        assert(votes[votes.len() - 1].deposit_root@.len() == 32);
    }
}

} // verus!

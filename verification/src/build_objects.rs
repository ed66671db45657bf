//! Light-client objects built from a beacon state.

use crate::merkleize::views;
use crate::types::{BeaconBlockHeader, BeaconState, LightClientSnapshot, SyncCommittee};
use vstd::prelude::*;

verus! {

/// Whether two block headers hold the same values.
pub open spec fn same_header(a: BeaconBlockHeader, b: BeaconBlockHeader) -> bool {
    &&& a.slot == b.slot
    &&& a.proposer_index == b.proposer_index
    &&& a.parent_root@ == b.parent_root@
    &&& a.state_root@ == b.state_root@
    &&& a.body_root@ == b.body_root@
}

/// Whether two sync committees hold the same keys.
pub open spec fn same_committee(a: SyncCommittee, b: SyncCommittee) -> bool {
    &&& views(a.pubkeys@) == views(b.pubkeys@)
    &&& a.aggregate_pubkey@ == b.aggregate_pubkey@
}

/// A copy of some bytes.
fn copy_bytes(v: &Vec<u8>) -> (c: Vec<u8>)
    ensures
        c@ == v@,
{
    let mut c: Vec<u8> = Vec::new();
    let mut i: usize = 0;
    while i < v.len()
        invariant
            i <= v@.len(),
            c@ == v@.take(i as int),
        decreases v@.len() - i,
    {
        c.push(v[i]);
        assert(v@.take(i + 1) =~= v@.take(i as int).push(v@[i as int]));
        i = i + 1;
    }
    assert(v@.take(v@.len() as int) =~= v@);
    c
}

/// A copy of a block header.
pub fn copy_header(h: &BeaconBlockHeader) -> (c: BeaconBlockHeader)
    ensures
        same_header(c, *h),
{
    BeaconBlockHeader {
        slot: h.slot,
        proposer_index: h.proposer_index,
        parent_root: copy_bytes(&h.parent_root),
        state_root: copy_bytes(&h.state_root),
        body_root: copy_bytes(&h.body_root),
    }
}

/// A copy of a sync committee.
pub fn copy_committee(committee: &SyncCommittee) -> (c: SyncCommittee)
    ensures
        same_committee(c, *committee),
{
    let mut keys: Vec<Vec<u8>> = Vec::new();
    let mut i: usize = 0;
    while i < committee.pubkeys.len()
        invariant
            i <= committee.pubkeys@.len(),
            keys@.len() == i,
            forall|k: int| 0 <= k < i ==> (#[trigger] keys@[k])@ == committee.pubkeys@[k]@,
        decreases committee.pubkeys@.len() - i,
    {
        keys.push(copy_bytes(&committee.pubkeys[i]));
        i = i + 1;
    }
    assert(views(keys@) =~= views(committee.pubkeys@));
    SyncCommittee { pubkeys: keys, aggregate_pubkey: copy_bytes(&committee.aggregate_pubkey) }
}

/// The snapshot of a state: its latest block header and its current and
/// next sync committees.
pub fn make_snapshot(state: &BeaconState) -> (snapshot: LightClientSnapshot)
    ensures
        same_header(snapshot.header, state.latest_block_header),
        same_committee(snapshot.current_sync_committee, state.current_sync_committee),
        same_committee(snapshot.next_sync_committee, state.next_sync_committee),
{
    LightClientSnapshot {
        header: copy_header(&state.latest_block_header),
        current_sync_committee: copy_committee(&state.current_sync_committee),
        next_sync_committee: copy_committee(&state.next_sync_committee),
    }
}

} // verus!

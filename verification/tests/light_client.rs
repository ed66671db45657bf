use beacon_light_client::build_objects::make_snapshot;
use beacon_light_client::node_discovery::{get_random_node_id, i16_to_decimal, node_id_of};
use beacon_light_client::query_node::beacon_state_from_text;
use beacon_light_client::query_node::StateText;
use beacon_light_client::types::{
    BeaconBlockHeader, LightClientSnapshot, LightClientStore, LightClientUpdate, SyncCommittee,
};

fn header(slot: u64) -> BeaconBlockHeader {
    BeaconBlockHeader {
        slot,
        proposer_index: 3,
        parent_root: vec![1; 32],
        state_root: vec![2; 32],
        body_root: vec![3; 32],
    }
}

fn committee(key: u8) -> SyncCommittee {
    SyncCommittee { pubkeys: vec![vec![key; 48], vec![key + 1; 48]], aggregate_pubkey: vec![key; 48] }
}

fn snapshot(slot: u64) -> LightClientSnapshot {
    LightClientSnapshot { header: header(slot), current_sync_committee: committee(1), next_sync_committee: committee(5) }
}

fn update(slot: u64) -> LightClientUpdate {
    LightClientUpdate {
        header: header(slot),
        next_sync_committee: committee(7),
        next_sync_committee_branch: vec![9; 32],
        finality_header: header(slot - 1),
        finality_branch: vec![8; 32],
        sync_committee_bits: vec![0xff; 64],
        sync_committee_signature: String::from("0xsig"),
        fork_version: String::from("0x02000000"),
    }
}

#[test]
fn a_new_store_holds_the_snapshot_and_no_updates() {
    let store = LightClientStore::create(snapshot(10));
    assert_eq!(store.snapshot.header.slot, 10);
    assert!(store.valid_updates.is_empty());
}

#[test]
fn updates_are_kept_in_order() {
    let mut store = LightClientStore::create(snapshot(10));
    assert!(store.add_update(update(11)));
    assert!(store.add_update(update(12)));
    assert_eq!(store.valid_updates.len(), 2);
    assert_eq!(store.valid_updates[0].header.slot, 11);
    assert_eq!(store.valid_updates[1].header.slot, 12);
    assert_eq!(store.snapshot.header.slot, 10);
}

#[test]
fn refreshing_the_snapshot_keeps_the_updates() {
    let mut store = LightClientStore::create(snapshot(10));
    assert!(store.add_update(update(11)));
    assert!(store.refresh_snapshot(snapshot(20)));
    assert_eq!(store.snapshot.header.slot, 20);
    assert_eq!(store.valid_updates.len(), 1);
    assert_eq!(store.valid_updates[0].header.slot, 11);
}

fn b(s: &str) -> Vec<u8> {
    s.as_bytes().to_vec()
}

#[test]
fn snapshot_copies_header_and_committees() {
    let text = StateText {
        genesis_time: b("1"),
        genesis_validators_root: b("\"0x00\""),
        slot: b("2"),
        fork_current_version: b("\"0x02\""),
        fork_epoch: b("3"),
        fork_previous_version: b("\"0x01\""),
        header_slot: b("\"40\""),
        header_proposer_index: b("\"5\""),
        header_parent_root: b("\"0xpp\""),
        header_state_root: b("\"0xss\""),
        header_body_root: b("\"0xbb\""),
        block_roots: b("[]"),
        state_roots: b("[]"),
        historical_roots: b("[]"),
        eth1_deposit_root: b("\"0xd\""),
        eth1_deposit_count: b("1"),
        eth1_block_hash: b("\"0xe\""),
        eth1_data_votes: b("[]"),
        eth1_deposit_index: b("0"),
        validators: b("[]"),
        balances: b("[\"1\"]"),
        randao_mixes: b("[]"),
        slashings: b("[\"0\"]"),
        previous_epoch_participation: b("[]"),
        current_epoch_participation: b("[]"),
        justification_bits: b("\"0x00\""),
        previous_justified_checkpoint: b("{\"epoch\":\"1\",\"root\":\"0x1\"}"),
        current_justified_checkpoint: b("{\"epoch\":\"2\",\"root\":\"0x2\"}"),
        finalized_checkpoint: b("{\"epoch\":\"3\",\"root\":\"0x3\"}"),
        inactivity_scores: b("[\"0\"]"),
        current_sync_committee_pubkeys: b("[\"0xc1\",\"0xc2\"]"),
        current_sync_committee_aggregate_pubkey: b("\"0xca\""),
        next_sync_committee_pubkeys: b("[\"0xn1\"]"),
        next_sync_committee_aggregate_pubkey: b("\"0xna\""),
    };
    let state = beacon_state_from_text(&text).unwrap();
    assert!(state.validators.is_empty());
    let snap = make_snapshot(&state);
    assert_eq!(snap.header.slot, 40);
    assert_eq!(snap.header.proposer_index, 5);
    assert_eq!(snap.header.parent_root, b("0xpp"));
    assert_eq!(snap.header.state_root, b("0xss"));
    assert_eq!(snap.header.body_root, b("0xbb"));
    assert_eq!(snap.current_sync_committee.pubkeys, vec![b("0xc1"), b("0xc2")]);
    assert_eq!(snap.current_sync_committee.aggregate_pubkey, b("\"0xca\""));
    assert_eq!(snap.next_sync_committee.pubkeys, vec![b("0xn1")]);
    assert_eq!(snap.next_sync_committee.aggregate_pubkey, b("\"0xna\""));
}

#[test]
fn node_id_is_the_port_in_decimal() {
    assert_eq!(node_id_of(1, 8000), (String::from("8001"), 1));
    assert_eq!(node_id_of(9, 8000), (String::from("8009"), 9));
    assert_eq!(node_id_of(5, -10), (String::from("-5"), 5));
}

#[test]
fn random_node_is_one_of_the_others() {
    assert_eq!(get_random_node_id(2, 8000), (String::from("8001"), 1));
    for _ in 0..50 {
        let (id, n) = get_random_node_id(10, 8000);
        assert!((1..10).contains(&n));
        assert_eq!(id, (8000 + n).to_string());
    }
}

#[test]
fn i16_decimal_forms_match_display() {
    for x in [i16::MIN, -32767, -100, -10, -9, -1, 0, 1, 9, 10, 99, 100, 5052, i16::MAX] {
        assert_eq!(i16_to_decimal(x), x.to_string());
    }
    assert_eq!(i16_to_decimal(-32768), "-32768");
    assert_eq!(i16_to_decimal(5052), "5052");
}

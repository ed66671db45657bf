use beacon_light_client::query_node::{
    beacon_state_from_text, checkpoint_from, entry_value, string_to_bool, string_to_u64, trim_hex,
    state_text_from_json, string_to_vec_u64, string_to_vec_u8, StateText,
};
use beacon_light_client::text::{parse_radix, split_bytes, strip_bytes};

fn b(s: &str) -> Vec<u8> {
    s.as_bytes().to_vec()
}

fn validator(pubkey: &str, balance: &str, slashed: &str) -> String {
    format!(
        "{{\"activation_eligibility_epoch\":\"1\",\"activation_epoch\":\"2\",\"effective_balance\":\"{}\",\"exit_epoch\":\"3\",\"pubkey\":\"{}\",\"slashed\":{},\"withdrawable_epoch\":\"4\",\"withdrawal_credentials\":\"0x00\"}}",
        balance, pubkey, slashed
    )
}

fn vote(hash: &str, count: &str, root: &str) -> String {
    format!(
        "{{\"block_hash\":\"{}\",\"deposit_count\":\"{}\",\"deposit_root\":\"{}\"}}",
        hash, count, root
    )
}

fn sample_text() -> StateText {
    StateText {
        genesis_time: b("\"1606824023\""),
        genesis_validators_root: b("\"0x4b36\""),
        slot: b("\"100\""),
        fork_current_version: b("\"0x02000000\""),
        fork_epoch: b("\"74240\""),
        fork_previous_version: b("\"0x01000000\""),
        header_slot: b("\"99\""),
        header_proposer_index: b("\"7\""),
        header_parent_root: b("\"0xp1\""),
        header_state_root: b("\"0xs1\""),
        header_body_root: b("\"0xb1\""),
        block_roots: b("[\"0xaa\",\"0xbb\"]"),
        state_roots: b("[\"0xcc\"]"),
        historical_roots: b("[]"),
        eth1_deposit_root: b("\"0xd0\""),
        eth1_deposit_count: b("\"12\""),
        eth1_block_hash: b("\"0xe0\""),
        eth1_data_votes: b(&format!(
            "[{},{},{}]",
            vote("0x01", "5", "0x02"),
            vote("0x03", "6", "0x04"),
            vote("0x05", "7", "0x06")
        )),
        eth1_deposit_index: b("\"11\""),
        validators: b(&format!(
            "[{},{}]",
            validator("0xa1", "32000000000", "false"),
            validator("0xa2", "31000000000", "true")
        )),
        balances: b("[\"32000000000\",\"31000000000\"]"),
        randao_mixes: b("[\"0xr1\",\"0xr2\"]"),
        slashings: b("[\"0\",\"5\"]"),
        previous_epoch_participation: b("[\"1\",\"3\",\"7\"]"),
        current_epoch_participation: b("[\"7\"]"),
        justification_bits: b("\"0x0f\""),
        previous_justified_checkpoint: b("{\"epoch\":\"10\",\"root\":\"0xabc\"}"),
        current_justified_checkpoint: b("{\"epoch\":\"11\",\"root\":\"0xdef\"}"),
        finalized_checkpoint: b("{\"epoch\":\"9\",\"root\":\"0x123\"}"),
        inactivity_scores: b("[\"0\",\"1\"]"),
        current_sync_committee_pubkeys: b("[\"0xk1\",\"0xk2\"]"),
        current_sync_committee_aggregate_pubkey: b("\"0xagg\""),
        next_sync_committee_pubkeys: b("[\"0xn1\"]"),
        next_sync_committee_aggregate_pubkey: b("\"0xnagg\""),
    }
}

#[test]
fn reads_the_scalar_fields() {
    let st = beacon_state_from_text(&sample_text()).unwrap();
    assert_eq!(st.genesis_time, 1606824023);
    assert_eq!(st.genesis_validators_root, b("0x4b36"));
    assert_eq!(st.slot, 100);
    assert_eq!(st.fork.current_version, b("0x02000000"));
    assert_eq!(st.fork.epoch, 74240);
    assert_eq!(st.fork.previous_version, b("0x01000000"));
    assert_eq!(st.latest_block_header.slot, 99);
    assert_eq!(st.latest_block_header.proposer_index, 7);
    assert_eq!(st.latest_block_header.parent_root, b("0xp1"));
    assert_eq!(st.latest_block_header.state_root, b("0xs1"));
    assert_eq!(st.latest_block_header.body_root, b("0xb1"));
    assert_eq!(st.block_roots, b("[0xaa,0xbb]"));
    assert_eq!(st.state_roots, b("[0xcc]"));
    assert_eq!(st.historical_roots, b("[]"));
    assert_eq!(st.eth1_data.deposit_root, b("0xd0"));
    assert_eq!(st.eth1_data.deposit_count, 12);
    assert_eq!(st.eth1_data.block_hash, b("0xe0"));
    assert_eq!(st.eth1_deposit_index, 11);
}

#[test]
fn reads_every_vote() {
    let st = beacon_state_from_text(&sample_text()).unwrap();
    assert_eq!(st.eth1_data_votes.len(), 3);
    assert_eq!(st.eth1_data_votes[0].block_hash, b("0x01"));
    assert_eq!(st.eth1_data_votes[0].deposit_count, 5);
    assert_eq!(st.eth1_data_votes[0].deposit_root, b("0x02"));
    assert_eq!(st.eth1_data_votes[2].block_hash, b("0x05"));
    assert_eq!(st.eth1_data_votes[2].deposit_count, 7);
    assert_eq!(st.eth1_data_votes[2].deposit_root, b("0x06"));
    let mut none = sample_text();
    none.eth1_data_votes = b("[]");
    assert_eq!(beacon_state_from_text(&none).unwrap().eth1_data_votes.len(), 0);
    let mut renamed = sample_text();
    renamed.eth1_data_votes = b("[{\"root\":\"0x01\",\"deposit_count\":\"5\",\"deposit_root\":\"0x02\"}]");
    assert!(beacon_state_from_text(&renamed).is_none());
    let mut short = sample_text();
    short.eth1_data_votes = b("[{\"block_hash\":\"0x01\",\"deposit_count\":\"5\"}]");
    assert!(beacon_state_from_text(&short).is_none());
}

#[test]
fn reads_every_validator() {
    let st = beacon_state_from_text(&sample_text()).unwrap();
    assert_eq!(st.validators.len(), 2);
    let v = &st.validators[0];
    assert_eq!(v.pubkey, b("0xa1"));
    assert_eq!(v.withdrawal_credentials, b("0x00"));
    assert_eq!(v.effective_balance, 32000000000);
    assert!(!v.slashed);
    assert_eq!(v.activation_eligibility_epoch, b("1"));
    assert_eq!(v.activation_epoch, 2);
    assert_eq!(v.exit_epoch, 3);
    assert_eq!(v.withdrawable_epoch, 4);
    let w = &st.validators[1];
    assert_eq!(w.pubkey, b("0xa2"));
    assert_eq!(w.effective_balance, 31000000000);
    assert!(w.slashed);
    let mut empty = sample_text();
    empty.validators = b("[]");
    assert_eq!(beacon_state_from_text(&empty).unwrap().validators.len(), 0);
    let mut bad = sample_text();
    bad.validators = b(&format!("[{}]", validator("0xa1", "lots", "false")));
    assert!(beacon_state_from_text(&bad).is_none());
}

#[test]
fn reads_the_lists() {
    let st = beacon_state_from_text(&sample_text()).unwrap();
    assert_eq!(st.balances, vec![32000000000, 31000000000]);
    assert_eq!(st.randao_mixes, vec![b("0xr1"), b("0xr2")]);
    assert_eq!(st.slashings, vec![b("0"), b("5")]);
    assert_eq!(st.previous_epoch_participation, vec![b("1"), b("3"), b("7")]);
    assert_eq!(st.current_epoch_participation, vec![b("7")]);
    assert_eq!(st.justification_bits, vec![15]);
    assert_eq!(st.inactivity_scores, vec![0, 1]);
}

#[test]
fn reads_checkpoints_and_committees() {
    let st = beacon_state_from_text(&sample_text()).unwrap();
    assert_eq!(st.previous_justified_checkpoint.epoch, 10);
    assert_eq!(st.previous_justified_checkpoint.root, b("0xabc"));
    assert_eq!(st.current_justified_checkpoint.epoch, 11);
    assert_eq!(st.current_justified_checkpoint.root, b("0xdef"));
    assert_eq!(st.finalized_checkpoint.epoch, 9);
    assert_eq!(st.finalized_checkpoint.root, b("0x123"));
    assert_eq!(st.current_sync_committee.pubkeys, vec![b("0xk1"), b("0xk2")]);
    assert_eq!(st.current_sync_committee.aggregate_pubkey, b("\"0xagg\""));
    assert_eq!(st.next_sync_committee.pubkeys, vec![b("0xn1")]);
    assert_eq!(st.next_sync_committee.aggregate_pubkey, b("\"0xnagg\""));
}

#[test]
fn unreadable_fields_give_none() {
    let mut t = sample_text();
    t.genesis_time = b("\"abc\"");
    assert!(beacon_state_from_text(&t).is_none());
    let mut t = sample_text();
    t.slot = b("null");
    assert!(beacon_state_from_text(&t).is_none());
    let mut t = sample_text();
    t.balances = b("[\"1\",\"x\"]");
    assert!(beacon_state_from_text(&t).is_none());
    let mut t = sample_text();
    t.balances = b("[]");
    assert_eq!(beacon_state_from_text(&t).unwrap().balances, Vec::<u64>::new());
    let mut t = sample_text();
    t.justification_bits = b("[\"0xzz\"]");
    assert!(beacon_state_from_text(&t).is_none());
    let mut t = sample_text();
    t.finalized_checkpoint = b("{\"epoch\":\"9\"}");
    assert!(beacon_state_from_text(&t).is_none());
    let mut t = sample_text();
    t.inactivity_scores = b("[\"-1\"]");
    assert!(beacon_state_from_text(&t).is_none());
}

#[test]
fn hexadecimal_justification_bits() {
    let mut t = sample_text();
    t.justification_bits = b("[\"0x0f\",\"0x0x10\",\"ff\"]");
    let st = beacon_state_from_text(&t).unwrap();
    assert_eq!(st.justification_bits, vec![15, 16, 255]);
}

#[test]
fn state_text_from_node_json() {
    let body = r#"{"data":{"genesis_time":"5","fork":{"epoch":"2","current_version":"0x02"},"validators":[]}}"#;
    let t = state_text_from_json(body).unwrap();
    assert_eq!(t.genesis_time, b("\"5\""));
    assert_eq!(t.fork_epoch, b("\"2\""));
    assert_eq!(t.fork_current_version, b("\"0x02\""));
    assert_eq!(t.validators, b("[]"));
    assert_eq!(t.slot, b("null"));
    assert!(state_text_from_json("{not json").is_none());
}

#[test]
fn scalar_readers() {
    assert_eq!(string_to_u64(b"\"42\""), Some(42));
    assert_eq!(string_to_u64(b"+7"), Some(7));
    assert_eq!(string_to_u64(b"18446744073709551615"), Some(u64::MAX));
    assert_eq!(string_to_u64(b"18446744073709551616"), None);
    assert_eq!(string_to_u64(b""), None);
    assert_eq!(string_to_bool(b"false"), Some(false));
    assert_eq!(string_to_bool(b"\"true\""), Some(true));
    assert_eq!(string_to_bool(b"\"3\""), Some(true));
    assert_eq!(string_to_bool(b"0"), Some(false));
    assert_eq!(string_to_bool(b"yes"), None);
    assert_eq!(string_to_vec_u8(b"\"a\"b\""), b("ab"));
    assert_eq!(entry_value(b"a:b:c"), Some(b("b")));
    assert_eq!(entry_value(b"a:"), Some(b("")));
    assert_eq!(entry_value(b"abc"), None);
    assert_eq!(trim_hex(b"0x0xff"), b("ff"));
    assert_eq!(trim_hex(b"x0ff"), b("x0ff"));
    assert_eq!(trim_hex(b"0x"), b(""));
    assert_eq!(string_to_vec_u64(b"[\"1\",\"22\"]"), Some(vec![1, 22]));
    assert_eq!(string_to_vec_u64(b"[]"), Some(vec![]));
    assert_eq!(string_to_vec_u64(b"[1,,2]"), None);
    assert_eq!(string_to_vec_u64(b"[1,x]"), None);
}

#[test]
fn checkpoint_reader() {
    let c = checkpoint_from(b"{\"epoch\":\"3\",\"root\":\"0x9\"}").unwrap();
    assert_eq!(c.epoch, 3);
    assert_eq!(c.root, b("0x9"));
    assert!(checkpoint_from(b"{\"epoch\":\"x\",\"root\":\"0x9\"}").is_none());
    assert!(checkpoint_from(b"{\"epoch\":\"3\"}").is_none());
    assert!(checkpoint_from(b"{\"epoch\":\"3\",\"root\"}").is_none());
}

#[test]
fn text_primitives() {
    assert_eq!(strip_bytes(b"[a\"b]", b"[]\""), b("ab"));
    assert_eq!(strip_bytes(b"abc", b""), b("abc"));
    assert_eq!(split_bytes(b"a,,b", b','), vec![b("a"), b(""), b("b")]);
    assert_eq!(split_bytes(b"", b','), vec![b("")]);
    assert_eq!(split_bytes(b"a,", b','), vec![b("a"), b("")]);
    assert_eq!(parse_radix(b"ff", 16), Some(255));
    assert_eq!(parse_radix(b"FF", 16), Some(255));
    assert_eq!(parse_radix(b"+10", 16), Some(16));
    assert_eq!(parse_radix(b"ffffffffffffffff", 16), Some(u64::MAX));
    assert_eq!(parse_radix(b"10000000000000000", 16), None);
    assert_eq!(parse_radix(b"", 10), None);
    assert_eq!(parse_radix(b"+", 10), None);
    assert_eq!(parse_radix(b"12a", 10), None);
    assert_eq!(parse_radix(b"0012", 10), Some(12));
}

use trident::aptos::{find_member, is_valid_api_response, matches_health_schema, JsonMember, JsonValue};

const REPORT: &str = r#"{
    "chain_id": 1,
    "epoch": "6503",
    "ledger_version": "541480458",
    "oldest_ledger_version": "0",
    "ledger_timestamp": "1712345678901234",
    "node_role": "full_node",
    "oldest_block_height": "0",
    "block_height": "165432100",
    "git_hash": "0c3b0f2a5a9d4a8e8a3e5f1b2c4d6e7f8a9b0c1d"
}"#;

fn member(key: &str, value: JsonValue) -> JsonMember {
    JsonMember { key: key.to_string(), value }
}

fn report_members() -> Vec<JsonMember> {
    let mut members = vec![member("chain_id", JsonValue::Unsigned(1))];
    for key in [
        "epoch",
        "ledger_version",
        "oldest_ledger_version",
        "ledger_timestamp",
        "node_role",
        "oldest_block_height",
        "block_height",
        "git_hash",
    ] {
        members.push(member(key, JsonValue::Text));
    }
    members
}

#[test]
fn health_report_is_valid() {
    assert!(is_valid_api_response(REPORT));
}

#[test]
fn unknown_members_are_ignored() {
    let body = REPORT.replacen('{', "{\"extra\": [1, 2, {\"a\": null}],", 1);
    assert!(is_valid_api_response(&body));
}

#[test]
fn missing_member_is_invalid() {
    let body = REPORT.replace("\"git_hash\"", "\"git_hush\"");
    assert!(!is_valid_api_response(&body));
}

#[test]
fn wrongly_typed_member_is_invalid() {
    assert!(!is_valid_api_response(&REPORT.replace("\"6503\"", "6503")));
    assert!(!is_valid_api_response(&REPORT.replace("\"chain_id\": 1", "\"chain_id\": \"1\"")));
    assert!(!is_valid_api_response(&REPORT.replace("\"chain_id\": 1", "\"chain_id\": -1")));
    assert!(!is_valid_api_response(&REPORT.replace("\"chain_id\": 1", "\"chain_id\": 1.5")));
    assert!(!is_valid_api_response(&REPORT.replace("\"full_node\"", "null")));
}

#[test]
fn chain_id_must_fit_32_bits() {
    assert!(is_valid_api_response(&REPORT.replace("\"chain_id\": 1", "\"chain_id\": 4294967295")));
    assert!(!is_valid_api_response(&REPORT.replace("\"chain_id\": 1", "\"chain_id\": 4294967296")));
}

#[test]
fn body_that_is_no_object_is_invalid() {
    assert!(!is_valid_api_response(""));
    assert!(!is_valid_api_response("not json"));
    assert!(!is_valid_api_response("[]"));
    assert!(!is_valid_api_response("\"epoch\""));
    assert!(!is_valid_api_response("{}"));
    assert!(!is_valid_api_response("{\"chain_id\": 1"));
}

#[test]
fn schema_is_checked_member_by_member() {
    assert!(matches_health_schema(&report_members()));
    for drop in 0..9 {
        let mut members = report_members();
        members.remove(drop);
        assert!(!matches_health_schema(&members));
    }
    for spoil in 1..9 {
        let mut members = report_members();
        members[spoil].value = JsonValue::Unsigned(3);
        assert!(!matches_health_schema(&members));
    }
    let mut members = report_members();
    members[0].value = JsonValue::Other;
    assert!(!matches_health_schema(&members));
    members[0].value = JsonValue::Unsigned(u32::MAX as u64 + 1);
    assert!(!matches_health_schema(&members));
    members[0].value = JsonValue::Unsigned(u32::MAX as u64);
    assert!(matches_health_schema(&members));
}

#[test]
fn members_are_found_by_key() {
    let members = report_members();
    assert!(matches!(find_member(&members, "chain_id"), Some(JsonValue::Unsigned(1))));
    assert!(matches!(find_member(&members, "epoch"), Some(JsonValue::Text)));
    assert!(find_member(&members, "Epoch").is_none());
    assert!(find_member(&Vec::new(), "epoch").is_none());
}

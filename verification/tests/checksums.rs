use indexer::error::Error;
use indexer::utils::{
    checksums_from_members, hash_of_value, kind_of_key, parse_checksums, ChecksumMap,
};

#[test]
fn checksum_map_starts_empty_and_defaults_to_unknown() {
    let map = ChecksumMap::new();
    assert_eq!(map.get("abcd"), None);
    assert_eq!(map.kind_of("abcd"), "unknown");
}

#[test]
fn checksum_map_insert_binds_and_replaces() {
    let mut map = ChecksumMap::new();
    map.insert("abcd".to_string(), "tx_bond".to_string());
    assert_eq!(map.get("abcd"), Some("tx_bond".to_string()));
    assert_eq!(map.kind_of("abcd"), "tx_bond");
    map.insert("abcd".to_string(), "tx_unbond".to_string());
    assert_eq!(map.kind_of("abcd"), "tx_unbond");
    assert_eq!(map.kind_of("ABCD"), "unknown");
}

#[test]
fn kind_of_key_is_text_before_first_dot() {
    assert_eq!(kind_of_key("tx_bond.wasm"), "tx_bond");
    assert_eq!(kind_of_key("tx_bond"), "tx_bond");
    assert_eq!(kind_of_key(".wasm"), "");
    assert_eq!(kind_of_key("a.b.c"), "a");
    assert_eq!(kind_of_key(""), "");
}

#[test]
fn hash_of_value_is_text_between_first_two_dots() {
    assert_eq!(hash_of_value("tx_bond.0a1b.wasm"), Some("0a1b".to_string()));
    assert_eq!(hash_of_value("tx_bond.0a1b"), Some("0a1b".to_string()));
    assert_eq!(hash_of_value("tx_bond."), Some(String::new()));
    assert_eq!(hash_of_value("tx_bond"), None);
    assert_eq!(hash_of_value(""), None);
}

#[test]
fn parse_checksums_extracts_hash_to_kind() {
    let text = r#"{
        "tx_bond.wasm": "tx_bond.0123456789abcdef.wasm",
        "tx_ibc.wasm": "tx_ibc.fedcba9876543210.wasm",
        "vp_user.wasm": "vp_user.00ff.wasm"
    }"#;
    let map = parse_checksums(text).unwrap();
    assert_eq!(map.kind_of("0123456789abcdef"), "tx_bond");
    assert_eq!(map.kind_of("fedcba9876543210"), "tx_ibc");
    assert_eq!(map.kind_of("00ff"), "vp_user");
    assert_eq!(map.kind_of("tx_bond.0123456789abcdef.wasm"), "unknown");
    assert_eq!(map.get("ffff"), None);
}

#[test]
fn parse_checksums_of_empty_object_is_empty() {
    let map = parse_checksums("{}").unwrap();
    assert_eq!(map.kind_of("abcd"), "unknown");
}

#[test]
fn parse_checksums_rejects_malformed_json() {
    assert!(matches!(parse_checksums("{ not json"), Err(Error::SerdeJsonError(_))));
    assert!(matches!(parse_checksums(""), Err(Error::SerdeJsonError(_))));
}

#[test]
fn parse_checksums_rejects_json_that_is_no_object() {
    assert!(matches!(parse_checksums("[1, 2]"), Err(Error::InvalidChecksum)));
    assert!(matches!(parse_checksums("\"text\""), Err(Error::InvalidChecksum)));
    assert!(matches!(parse_checksums("null"), Err(Error::InvalidChecksum)));
}

#[test]
fn parse_checksums_rejects_values_that_are_no_strings() {
    assert!(matches!(parse_checksums(r#"{"tx_bond.wasm": 7}"#), Err(Error::InvalidChecksum)));
    assert!(matches!(
        parse_checksums(r#"{"a.wasm": "a.01.wasm", "b.wasm": null}"#),
        Err(Error::InvalidChecksum)
    ));
}

#[test]
fn parse_checksums_rejects_values_without_a_hash() {
    assert!(matches!(
        parse_checksums(r#"{"tx_bond.wasm": "tx_bond"}"#),
        Err(Error::InvalidChecksum)
    ));
}

#[test]
fn checksums_from_members_lets_later_members_override() {
    let members = vec![
        ("tx_bond.wasm".to_string(), Some("tx_bond.aa.wasm".to_string())),
        ("tx_unbond.wasm".to_string(), Some("tx_unbond.aa.wasm".to_string())),
    ];
    let map = checksums_from_members(&members).unwrap();
    assert_eq!(map.kind_of("aa"), "tx_unbond");
}

#[test]
fn checksums_from_members_fails_on_any_bad_member() {
    let members = vec![
        ("tx_bond.wasm".to_string(), Some("tx_bond.aa.wasm".to_string())),
        ("tx_unbond.wasm".to_string(), None),
    ];
    assert!(matches!(checksums_from_members(&members), Err(Error::InvalidChecksum)));
}

#[test]
fn error_texts() {
    assert_eq!(
        Error::InvalidTxData("failed to parse to tx_bond".to_string()).to_string(),
        "Invalid Transaction data, reason: failed to parse to tx_bond"
    );
    assert_eq!(Error::SerdeJsonError("eof".to_string()).to_string(), "serde_json error: eof");
    assert_eq!(Error::InvalidChecksum.to_string(), "Invalid checksum data");
    assert_eq!(Error::EpochNotFound.to_string(), "Epoch not found");
    assert_eq!(Error::ProposalNotFound.to_string(), "Proposal not found");
}

use indexer::chain::{NamadaTx, TxType};
use indexer::database::message::{
    decoded_message, ibc_message, parse_error_message, parse_tx_to_message, same_text,
    DecodeRequest, IbcMessage, TxKind, IBC_MESSAGES,
};
use indexer::database::Message;
use indexer::error::Error;
use indexer::utils::ChecksumMap;

fn code(last: u8) -> [u8; 32] {
    let mut code = [0xabu8; 32];
    code[31] = last;
    code
}

fn hex(last: &str) -> String {
    format!("{}{}", "ab".repeat(31), last)
}

fn checksums() -> ChecksumMap {
    let mut map = ChecksumMap::new();
    map.insert(hex("01"), "tx_bond".to_string());
    map.insert(hex("02"), "tx_ibc".to_string());
    map.insert(hex("03"), "vp_user".to_string());
    map.insert(hex("04"), "unknown".to_string());
    map.insert(hex("05"), "tx_vote_proposal".to_string());
    map
}

fn tx(code: Option<[u8; 32]>, data: Option<&[u8]>) -> NamadaTx {
    NamadaTx {
        tx_type: TxType::Wrapper,
        memo: String::new(),
        code_hash: code,
        data: data.map(|d| d.to_vec()),
    }
}

#[test]
fn same_text_compares_contents() {
    assert!(same_text("tx_bond", "tx_bond"));
    assert!(!same_text("tx_bond", "tx_bonD"));
    assert!(!same_text("tx_bond", "tx_bon"));
    assert!(same_text("", ""));
}

#[test]
fn parse_error_message_names_the_kind() {
    assert_eq!(parse_error_message("tx_bond"), "failed to parse to tx_bond");
    assert_eq!(parse_error_message(""), "failed to parse to ");
}

#[test]
fn tx_kind_from_name_knows_every_kind() {
    let kinds = [
        ("tx_become_validator", TxKind::BecomeValidator),
        ("tx_bond", TxKind::Bond),
        ("tx_bridge_pool", TxKind::BridgePool),
        ("tx_change_consensus_key", TxKind::ChangeConsensusKey),
        ("tx_change_validator_commission", TxKind::ChangeValidatorCommission),
        ("tx_change_validator_metadata", TxKind::ChangeValidatorMetadata),
        ("tx_claim_rewards", TxKind::ClaimRewards),
        ("tx_deactivate_validator", TxKind::DeactivateValidator),
        ("tx_ibc", TxKind::Ibc),
        ("tx_init_account", TxKind::InitAccount),
        ("tx_init_proposal", TxKind::InitProposal),
        ("tx_reactivate_validator", TxKind::ReactivateValidator),
        ("tx_redelegate", TxKind::Redelegate),
        ("tx_resign_steward", TxKind::ResignSteward),
        ("tx_reveal_pk", TxKind::RevealPk),
        ("tx_transfer", TxKind::Transfer),
        ("tx_unbond", TxKind::Unbond),
        ("tx_unjail_validator", TxKind::UnjailValidator),
        ("tx_update_account", TxKind::UpdateAccount),
        ("tx_update_steward_commission", TxKind::UpdateStewardCommission),
        ("tx_vote_proposal", TxKind::VoteProposal),
        ("tx_withdraw", TxKind::Withdraw),
        ("unknown", TxKind::Unknown),
    ];
    for (name, kind) in kinds {
        assert_eq!(TxKind::from_name(name), Some(kind), "{}", name);
    }
    assert_eq!(TxKind::from_name("vp_user"), None);
    assert_eq!(TxKind::from_name("TX_BOND"), None);
    assert_eq!(TxKind::from_name(""), None);
}

#[test]
fn ibc_messages_are_tried_in_a_fixed_order() {
    let names = [
        "MsgCreateClient",
        "MsgUpdateClient",
        "MsgSubmitMisbehaviour",
        "MsgUpgradeClient",
        "MsgConnectionOpenInit",
        "MsgConnectionOpenTry",
        "MsgConnectionOpenAck",
        "MsgConnectionOpenConfirm",
        "MsgChannelOpenInit",
        "MsgChannelOpenTry",
        "MsgChannelOpenAck",
        "MsgChannelOpenConfirm",
        "MsgChannelCloseInit",
        "MsgChannelCloseConfirm",
        "MsgRecvPacket",
        "MsgAcknowledgement",
        "MsgTimeout",
        "MsgTimeoutOnClose",
        "MsgTransfer",
        "MsgShieldedTransfer",
    ];
    assert_eq!(IBC_MESSAGES, names.len());
    for (i, name) in names.iter().enumerate() {
        assert_eq!(IbcMessage::at(i).unwrap().name(), *name);
    }
    assert_eq!(IbcMessage::at(0), Some(IbcMessage::CreateClient));
    assert_eq!(IbcMessage::at(19), Some(IbcMessage::ShieldedTransfer));
    assert_eq!(IbcMessage::at(20), None);
    assert_eq!(IbcMessage::at(usize::MAX), None);
}

#[test]
fn transaction_without_code_yields_no_message() {
    let request = parse_tx_to_message(&checksums(), &tx(None, Some(&[1, 2]))).unwrap();
    assert!(matches!(request, DecodeRequest::Done(None)));
    let request = parse_tx_to_message(&checksums(), &tx(None, None)).unwrap();
    assert!(matches!(request, DecodeRequest::Done(None)));
}

#[test]
fn transaction_without_data_is_an_error() {
    match parse_tx_to_message(&checksums(), &tx(Some(code(1)), None)) {
        Err(Error::InvalidTxData(reason)) => assert_eq!(reason, "transaction data is empty"),
        _ => panic!("expected an error"),
    }
    assert!(matches!(
        parse_tx_to_message(&checksums(), &tx(Some(code(9)), None)),
        Err(Error::InvalidTxData(_))
    ));
}

#[test]
fn known_kind_asks_for_its_payload_decoder() {
    match parse_tx_to_message(&checksums(), &tx(Some(code(1)), Some(&[1]))).unwrap() {
        DecodeRequest::Payload { tx_type, kind } => {
            assert_eq!(tx_type, "tx_bond");
            assert_eq!(kind, TxKind::Bond);
        }
        _ => panic!("expected a payload request"),
    }
    match parse_tx_to_message(&checksums(), &tx(Some(code(5)), Some(&[])))
        .unwrap()
    {
        DecodeRequest::Payload { tx_type, kind } => {
            assert_eq!(tx_type, "tx_vote_proposal");
            assert_eq!(kind, TxKind::VoteProposal);
        }
        _ => panic!("expected a payload request"),
    }
}

#[test]
fn ibc_kind_asks_for_the_cascade() {
    match parse_tx_to_message(&checksums(), &tx(Some(code(2)), Some(&[1])))
        .unwrap()
    {
        DecodeRequest::Ibc { tx_type } => assert_eq!(tx_type, "tx_ibc"),
        _ => panic!("expected an IBC request"),
    }
}

#[test]
fn code_missing_from_the_table_is_unknown_with_empty_value() {
    match parse_tx_to_message(&checksums(), &tx(Some(code(0x77)), Some(&[1]))).unwrap() {
        DecodeRequest::Done(Some((kind, value))) => {
            assert_eq!(kind, "unknown");
            assert_eq!(value, "{}");
        }
        _ => panic!("expected an unknown message"),
    }
    match parse_tx_to_message(&checksums(), &tx(Some(code(4)), Some(&[1])))
        .unwrap()
    {
        DecodeRequest::Done(Some((kind, value))) => {
            assert_eq!(kind, "unknown");
            assert_eq!(value, "{}");
        }
        _ => panic!("expected an unknown message"),
    }
}

#[test]
fn kind_the_decoder_does_not_know_yields_no_message() {
    let request =
        parse_tx_to_message(&checksums(), &tx(Some(code(3)), Some(&[1])))
            .unwrap();
    assert!(matches!(request, DecodeRequest::Done(None)));
}

#[test]
fn code_hash_is_looked_up_in_lower_case() {
    let mut map = ChecksumMap::new();
    map.insert(hex("01").to_uppercase(), "tx_bond".to_string());
    match parse_tx_to_message(&map, &tx(Some(code(1)), Some(&[1]))).unwrap() {
        DecodeRequest::Done(Some((kind, _))) => assert_eq!(kind, "unknown"),
        _ => panic!("expected an unknown message"),
    }
}

#[test]
fn decoded_payload_becomes_the_message() {
    let message = decoded_message("tx_bond".to_string(), Some("{\"amount\":\"1\"}".to_string()));
    assert_eq!(
        message.unwrap(),
        Some(("tx_bond".to_string(), "{\"amount\":\"1\"}".to_string()))
    );
}

#[test]
fn payload_that_does_not_decode_is_invalid_tx_data() {
    match decoded_message("tx_bond".to_string(), None) {
        Err(Error::InvalidTxData(reason)) => assert_eq!(reason, "failed to parse to tx_bond"),
        _ => panic!("expected an error"),
    }
    match decoded_message("tx_redelegate".to_string(), None) {
        Err(Error::InvalidTxData(reason)) => {
            assert_eq!(reason, "failed to parse to tx_redelegate")
        }
        _ => panic!("expected an error"),
    }
}

#[test]
fn ibc_first_success_wins() {
    let mut attempts: Vec<Option<String>> = vec![None; 20];
    attempts[4] = Some("{\"a\":4}".to_string());
    attempts[18] = Some("{\"a\":18}".to_string());
    let (kind, value) = ibc_message("tx_ibc".to_string(), &attempts);
    assert_eq!(kind, "tx_ibc.MsgConnectionOpenInit");
    assert_eq!(value, "{\"a\":4}");
}

#[test]
fn ibc_timeout_is_suffixed_like_the_others() {
    let mut attempts: Vec<Option<String>> = vec![None; 20];
    attempts[16] = Some("{}".to_string());
    assert_eq!(ibc_message("tx_ibc".to_string(), &attempts).0, "tx_ibc.MsgTimeout");
    attempts[16] = None;
    attempts[19] = Some("{\"s\":1}".to_string());
    assert_eq!(
        ibc_message("tx_ibc".to_string(), &attempts),
        ("tx_ibc.MsgShieldedTransfer".to_string(), "{\"s\":1}".to_string())
    );
}

#[test]
fn ibc_without_success_is_the_bare_kind_with_empty_value() {
    let attempts: Vec<Option<String>> = vec![None; 20];
    assert_eq!(
        ibc_message("tx_ibc".to_string(), &attempts),
        ("tx_ibc".to_string(), "{}".to_string())
    );
    assert_eq!(
        ibc_message("tx_ibc".to_string(), &Vec::new()),
        ("tx_ibc".to_string(), "{}".to_string())
    );
}

#[test]
fn ibc_attempts_may_stop_at_the_first_success() {
    let attempts = vec![None, Some("{\"u\":1}".to_string())];
    assert_eq!(
        ibc_message("tx_ibc".to_string(), &attempts),
        ("tx_ibc.MsgUpdateClient".to_string(), "{\"u\":1}".to_string())
    );
}

#[test]
fn ibc_attempts_past_the_last_decoder_do_not_count() {
    let mut attempts: Vec<Option<String>> = vec![None; 21];
    attempts[20] = Some("{}".to_string());
    assert_eq!(ibc_message("tx_ibc".to_string(), &attempts).0, "tx_ibc");
}

#[test]
fn message_from_tx_takes_a_decoded_message() {
    let message = Message::from_tx(
        100,
        "ABCD".to_string(),
        Ok(Some(("tx_bond".to_string(), "{\"x\":1}".to_string()))),
    )
    .unwrap();
    assert_eq!(message.height, 100);
    assert_eq!(message.tx_hash, "ABCD");
    assert_eq!(message.message_type, "tx_bond");
    assert_eq!(message.value, "{\"x\":1}");
}

#[test]
fn message_from_tx_is_absent_on_failure_or_nothing() {
    assert!(Message::from_tx(1, "AB".to_string(), Ok(None)).is_none());
    assert!(Message::from_tx(
        1,
        "AB".to_string(),
        Err(Error::InvalidTxData("failed to parse to tx_bond".to_string()))
    )
    .is_none());
}

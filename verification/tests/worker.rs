use indexer::chain::{
    Commit, CommitSig, ExecTxResult, NamadaTx, Timestamp, TmBlock, TmValidatorInfo, TxType,
};
use indexer::database::message::{decoded_message, parse_tx_to_message, DecodeRequest};
use indexer::database::table::Key;
use indexer::database::block::{sum_total_gas, total_gas_fits};
use indexer::database::{Block, Database, Message, PreCommit};
use indexer::error::Error;
use indexer::modules::StakingModule;
use indexer::node::{CommissionPair, ValidatorDetail};
use indexer::utils::{addr_to_bech32, tx_hash, ChecksumMap};
use indexer::modules::Module;
use indexer::worker::{
    decodes, epoch_fan_out, message_fan_out, pre_commit_rows, process_block, process_commit,
    process_height, process_message, process_tx, requeue, steps, tx_record, tx_steps,
    unknown_signers, validator_rows, EpochTracker, Step, TxAnswer, TxStep,
};

fn validator(address: [u8; 20], power: i64, priority: i64) -> TmValidatorInfo {
    TmValidatorInfo {
        address,
        pub_key: format!("tpknam1key{}", power),
        power,
        proposer_priority: priority,
    }
}

fn result(code: u32, gas_used: i64) -> ExecTxResult {
    ExecTxResult { code, gas_wanted: gas_used + 1, gas_used, log: format!("log{}", code) }
}

fn tm_block(height: u64, data: Vec<Vec<u8>>, last_commit: Option<Commit>) -> TmBlock {
    TmBlock {
        height,
        hash: "F00D".to_string(),
        data,
        proposer_address: [7; 20],
        time: Timestamp::new(1_700_000_000).unwrap(),
        last_commit,
    }
}

fn commit_sig(address: [u8; 20], timestamp: i64, signature: Option<Vec<u8>>) -> CommitSig {
    CommitSig::BlockIdFlagCommit {
        validator_address: address,
        timestamp: Timestamp::new(timestamp).unwrap(),
        signature,
    }
}

fn bond_checksums() -> ChecksumMap {
    let mut map = ChecksumMap::new();
    map.insert("0b".repeat(32), "tx_bond".to_string());
    map
}

fn bond_tx() -> NamadaTx {
    NamadaTx {
        tx_type: TxType::Wrapper,
        memo: "hello".to_string(),
        code_hash: Some([0x0b; 32]),
        data: Some(vec![1, 2, 3]),
    }
}

#[test]
fn epoch_tracker_reports_an_edge_once_per_epoch() {
    let mut tracker = EpochTracker::new();
    assert_eq!(tracker.current(), None);
    assert_eq!(tracker.update_epoch(9), Some(9));
    assert_eq!(tracker.update_epoch(9), None);
    assert_eq!(tracker.update_epoch(10), Some(10));
    assert_eq!(tracker.update_epoch(10), None);
    assert_eq!(tracker.current(), Some(10));
}

#[test]
fn epoch_tracker_never_goes_back() {
    let mut tracker = EpochTracker::new();
    let mut last = None;
    for epoch in [5u64, 3, 5, 7, 6, 7, 0, 8] {
        tracker.update_epoch(epoch);
        assert!(tracker.current() >= last);
        assert!(tracker.current() >= Some(epoch));
        last = tracker.current();
    }
    assert_eq!(last, Some(8));
}

#[test]
fn epoch_tracker_takes_epoch_zero_first() {
    let mut tracker = EpochTracker::new();
    assert_eq!(tracker.update_epoch(0), Some(0));
    assert_eq!(tracker.update_epoch(0), None);
}

#[test]
fn epoch_edge_fires_in_any_interleaving() {
    let heights = [(200u64, 9u64), (201, 9), (202, 10)];
    let orders: [[usize; 3]; 6] =
        [[0, 1, 2], [0, 2, 1], [1, 0, 2], [1, 2, 0], [2, 0, 1], [2, 1, 0]];
    for order in orders {
        let mut tracker = EpochTracker::new();
        let mut edges = Vec::new();
        for i in order {
            let (height, epoch) = heights[i];
            if let Some(e) = tracker.update_epoch(epoch) {
                edges.push((height, e));
            }
        }
        assert_eq!(edges.iter().filter(|(_, e)| *e == 10).count(), 1);
        assert!(edges.iter().filter(|(_, e)| *e == 9).count() <= 1);
        assert!(edges.contains(&(202, 10)));
        if order[0] != 2 {
            assert_eq!(edges.len(), 2);
            assert_eq!(edges[0], (heights[order[0]].0, 9));
        }
    }
}

#[test]
fn validator_rows_encode_addresses() {
    let set = vec![validator([1; 20], 10, 0), validator([2; 20], 20, 0)];
    let rows = validator_rows(&set);
    assert_eq!(rows.len(), 2);
    assert_eq!(rows[0].consensus_address, addr_to_bech32(&[1; 20]));
    assert_eq!(rows[0].consensus_pubkey, "tpknam1key10");
    assert_eq!(rows[1].consensus_address, addr_to_bech32(&[2; 20]));
    assert_eq!(rows[1].consensus_pubkey, "tpknam1key20");
    assert!(validator_rows(&Vec::new()).is_empty());
}

#[test]
fn block_total_gas_is_the_sum_of_gas_used() {
    let results = vec![result(0, 42), result(1, 8), result(0, 0), result(0, 1000)];
    let block = Block::from_tm_block(&tm_block(5, vec![vec![1], vec![2]], None), &results);
    assert_eq!(block.total_gas, 1050);
    assert_eq!(block.num_txs, 2);
    assert_eq!(block.height, 5);
    assert_eq!(block.hash, "F00D");
    assert_eq!(block.timestamp, 1_700_000_000);
    assert_eq!(block.proposer_address, addr_to_bech32(&[7; 20]));
    let empty = Block::from_tm_block(&tm_block(6, Vec::new(), None), &Vec::new());
    assert_eq!(empty.total_gas, 0);
    assert_eq!(empty.num_txs, 0);
}

#[test]
fn block_total_gas_may_pass_through_large_partial_sums() {
    let results = vec![result(0, i64::MAX), result(0, i64::MAX), result(0, -i64::MAX)];
    let block = Block::from_tm_block(&tm_block(5, Vec::new(), None), &results);
    assert_eq!(block.total_gas, i64::MAX);
}

#[test]
fn pre_commits_come_only_from_signed_commit_votes() {
    let set = vec![validator([1; 20], 10, -3), validator([2; 20], 20, 4)];
    let commit = Commit {
        signatures: vec![
            CommitSig::BlockIdFlagAbsent,
            commit_sig([1; 20], 111, Some(vec![9; 64])),
            commit_sig([2; 20], 222, None),
            CommitSig::BlockIdFlagNil {
                validator_address: [2; 20],
                timestamp: Timestamp::new(333).unwrap(),
                signature: Some(vec![9; 64]),
            },
            commit_sig([2; 20], 444, Some(Vec::new())),
            commit_sig([2; 20], 555, Some(vec![1])),
        ],
    };
    let rows = pre_commit_rows(77, &commit, &set);
    assert_eq!(rows.len(), 2);
    assert_eq!(rows[0].validator_address, addr_to_bech32(&[1; 20]));
    assert_eq!(rows[0].timestamp, 111);
    assert_eq!(rows[0].height, 77);
    assert_eq!(rows[0].voting_power, 10);
    assert_eq!(rows[0].proposer_priority, -3);
    assert_eq!(rows[1].validator_address, addr_to_bech32(&[2; 20]));
    assert_eq!(rows[1].timestamp, 555);
    assert_eq!(rows[1].voting_power, 20);
    assert_eq!(rows[1].proposer_priority, 4);
}

#[test]
fn pre_commit_of_unknown_validator_has_zero_power() {
    let set = vec![validator([1; 20], 10, -3)];
    let row = PreCommit::from_tm_commit_sig(5, &[8; 20], &set, Timestamp::new(99).unwrap());
    assert_eq!(row.voting_power, 0);
    assert_eq!(row.proposer_priority, 0);
    assert_eq!(row.validator_address, addr_to_bech32(&[8; 20]));
    assert_eq!(row.height, 5);
    assert_eq!(row.timestamp, 99);
}

#[test]
fn process_commit_writes_the_pre_commits_once() {
    let set = vec![validator([1; 20], 10, -3)];
    let commit = Commit {
        signatures: vec![
            commit_sig([1; 20], 111, Some(vec![9; 64])),
            commit_sig([8; 20], 112, Some(vec![9; 64])),
        ],
    };
    let mut db = Database::new();
    let written = process_commit(&mut db, 77, &commit, &set);
    assert_eq!(written.0.len(), 2);
    process_commit(&mut db, 77, &commit, &set);
    assert_eq!(db.pre_commits.len(), 2);
    let key = Key::IntText(77, addr_to_bech32(&[8; 20]));
    assert_eq!(db.pre_commits.get(&key).unwrap().voting_power, 0);
    let empty = Commit { signatures: Vec::new() };
    assert!(process_commit(&mut db, 78, &empty, &set).0.is_empty());
    assert_eq!(db.pre_commits.len(), 2);
}

#[test]
fn process_tx_writes_the_transaction_record() {
    let mut db = Database::new();
    let raw = vec![1u8, 2, 3];
    let tx = process_tx(&mut db, 100, &result(0, 42), &raw, Some(&bond_tx())).unwrap();
    assert_eq!(tx.hash, tx_hash(raw.clone()));
    assert_eq!(tx.height, 100);
    assert!(tx.success);
    assert_eq!(tx.memo, "hello");
    assert_eq!(tx.tx_type, "wrapper");
    assert_eq!(tx.gas_wanted, 43);
    assert_eq!(tx.gas_used, 42);
    assert_eq!(tx.raw_log, "log0");
    assert_eq!(db.transactions.len(), 1);
    assert!(db.transactions.get(&Key::Text(tx_hash(raw))).unwrap().success);
}

#[test]
fn process_tx_names_the_envelope_kind() {
    let kinds = [
        (TxType::Raw, "raw"),
        (TxType::Wrapper, "wrapper"),
        (TxType::Decrypted, "decrypted"),
        (TxType::Protocol, "protocol"),
    ];
    for (tx_type, name) in kinds {
        let mut db = Database::new();
        let envelope = NamadaTx { tx_type, ..bond_tx() };
        let tx = process_tx(&mut db, 1, &result(3, 1), &vec![9], Some(&envelope)).unwrap();
        assert_eq!(tx.tx_type, name);
        assert_eq!(tx_type.name(), name);
        assert!(!tx.success);
    }
}

#[test]
fn process_tx_rejects_what_is_no_envelope() {
    let mut db = Database::new();
    match process_tx(&mut db, 1, &result(0, 1), &vec![9], None) {
        Err(Error::InvalidTxData(reason)) => assert_eq!(reason, "failed to parse raw transaction"),
        _ => panic!("expected an error"),
    }
    assert_eq!(db.transactions.len(), 0);
}

#[test]
fn requeue_sends_a_failed_height_back() {
    let failed: Result<(), Error> = Err(Error::EpochNotFound);
    let done: Result<(), Error> = Ok(());
    assert_eq!(requeue(50, &failed), Some(50));
    assert_eq!(requeue(50, &done), None);
    let transport: Result<(), String> = Err("timeout".to_string());
    assert_eq!(requeue(u64::MAX, &transport), Some(u64::MAX));
}

#[test]
fn single_happy_block() {
    let mut db = Database::new();
    let mut tracker = EpochTracker::new();
    let set = vec![validator([1; 20], 10, 0)];
    let raw = vec![0xde, 0xad];
    let block = tm_block(100, vec![raw.clone()], None);
    let results = vec![result(0, 42)];

    let (validators, record) = process_block(&mut db, &block, &results, &set);
    assert_eq!(validators.0.len(), 1);
    assert_eq!(record.total_gas, 42);

    let mut epochs = Vec::new();
    if let Some(epoch) = tracker.update_epoch(7) {
        let details = vec![ValidatorDetail {
            address: "tnam1val".to_string(),
            state: None,
            stake: "10".to_string(),
            commission: Some(CommissionPair {
                commission_rate: "0.05".to_string(),
                max_commission_change_per_epoch: "0.01".to_string(),
            }),
            metadata: None,
            consensus_key: None,
        }];
        StakingModule::handle_epoch(&mut db, 100, epoch, &details);
        epochs.push((100u64, epoch));
    }
    assert!(block.last_commit.is_none());

    let tx = process_tx(&mut db, 100, &results[0], &raw, Some(&bond_tx())).unwrap();
    assert!(tx.success);
    let parsed = match parse_tx_to_message(&bond_checksums(), &bond_tx()).unwrap() {
        DecodeRequest::Payload { tx_type, .. } => {
            decoded_message(tx_type, Some("{\"amount\":\"5\"}".to_string()))
        }
        _ => panic!("expected a payload request"),
    };
    let message = process_message(&mut db, 100, tx.hash.clone(), parsed).unwrap();

    assert_eq!(db.validators.len(), 1);
    assert_eq!(db.blocks.len(), 1);
    let stored = db.blocks.get(&Key::Int(100)).unwrap();
    assert_eq!(stored.height, 100);
    assert_eq!(stored.total_gas, 42);
    assert_eq!(db.transactions.len(), 1);
    let stored = db.transactions.get(&Key::Text(tx.hash.clone())).unwrap();
    assert!(stored.success);
    assert_eq!(stored.tx_type, "wrapper");
    assert_eq!(db.messages.len(), 1);
    assert_eq!(message.message_type, "tx_bond");
    assert_eq!(db.messages.get(&Key::Text(tx.hash)).unwrap().message_type, "tx_bond");
    assert_eq!(db.pre_commits.len(), 0);
    assert_eq!(epochs, vec![(100, 7)]);
    assert_eq!(db.validator_infos.len(), 1);
}

#[test]
fn decode_failure_is_not_fatal() {
    let mut db = Database::new();
    let raw = vec![0xba, 0xad];
    let tx = process_tx(&mut db, 100, &result(0, 42), &raw, Some(&bond_tx())).unwrap();
    let parsed = match parse_tx_to_message(&bond_checksums(), &bond_tx()).unwrap() {
        DecodeRequest::Payload { tx_type, .. } => decoded_message(tx_type, None),
        _ => panic!("expected a payload request"),
    };
    assert!(matches!(parsed, Err(Error::InvalidTxData(_))));
    let message = process_message(&mut db, 100, tx.hash.clone(), parsed);
    assert!(message.is_none());
    assert_eq!(db.transactions.len(), 1);
    assert_eq!(db.messages.len(), 0);
    let outcome: Result<(), Error> = Ok(());
    assert_eq!(requeue(100, &outcome), None);
}

#[test]
fn failed_transaction_is_stored_without_a_message() {
    let mut db = Database::new();
    let tx = process_tx(&mut db, 100, &result(5, 42), &vec![1], Some(&bond_tx())).unwrap();
    assert!(!tx.success);
    assert_eq!(db.transactions.len(), 1);
    assert_eq!(db.messages.len(), 0);
}

#[test]
fn transient_failure_requeues_once_and_ends_as_a_clean_run() {
    let set = vec![validator([1; 20], 10, 0)];
    let raw = vec![0xde, 0xad];
    let block = tm_block(50, vec![raw.clone()], None);
    let results = vec![result(0, 42)];
    let run = |db: &mut Database| {
        process_block(db, &block, &results, &set);
        process_tx(db, 50, &results[0], &raw, Some(&bond_tx())).unwrap();
    };

    let mut db = Database::new();
    let mut queue = vec![50u64];
    let mut attempts = 0;
    let mut requeued = 0;
    while let Some(height) = queue.pop() {
        attempts += 1;
        let outcome: Result<(), String> =
            if attempts == 1 { Err("block(50) failed".to_string()) } else { Ok(run(&mut db)) };
        if let Some(again) = requeue(height, &outcome) {
            requeued += 1;
            queue.push(again);
        }
    }
    assert_eq!(requeued, 1);
    assert_eq!(attempts, 2);

    let mut clean = Database::new();
    run(&mut clean);
    assert_eq!(db.blocks.len(), clean.blocks.len());
    assert_eq!(db.transactions.len(), clean.transactions.len());
    assert_eq!(db.validators.len(), clean.validators.len());
    assert_eq!(
        db.blocks.get(&Key::Int(50)).unwrap().total_gas,
        clean.blocks.get(&Key::Int(50)).unwrap().total_gas
    );
}

#[test]
fn processing_a_height_twice_leaves_the_same_rows() {
    let set = vec![validator([1; 20], 10, 0), validator([2; 20], 20, 0)];
    let raw = vec![0xde, 0xad];
    let commit = Commit { signatures: vec![commit_sig([1; 20], 5, Some(vec![1]))] };
    let block = tm_block(60, vec![raw.clone()], Some(commit));
    let results = vec![result(0, 42)];
    let mut db = Database::new();
    for _ in 0..2 {
        process_block(&mut db, &block, &results, &set);
        process_commit(&mut db, 60, block.last_commit.as_ref().unwrap(), &set);
        let tx = process_tx(&mut db, 60, &results[0], &raw, Some(&bond_tx())).unwrap();
        process_message(
            &mut db,
            60,
            tx.hash,
            Ok(Some(("tx_bond".to_string(), "{}".to_string()))),
        );
    }
    assert_eq!(db.blocks.len(), 1);
    assert_eq!(db.validators.len(), 2);
    assert_eq!(db.pre_commits.len(), 1);
    assert_eq!(db.transactions.len(), 1);
    assert_eq!(db.messages.len(), 1);
}

#[test]
fn steps_follow_the_order_of_a_height() {
    let commit = Commit { signatures: Vec::new() };
    let with_commit = tm_block(5, vec![vec![1], vec![2], vec![3]], Some(commit));
    assert_eq!(
        steps(&with_commit),
        vec![
            Step::Validators,
            Step::Block,
            Step::Epoch,
            Step::PreCommits,
            Step::Transaction(0),
            Step::Transaction(1),
            Step::Transaction(2),
        ]
    );
    let without_commit = tm_block(5, vec![vec![1]], None);
    assert_eq!(
        steps(&without_commit),
        vec![Step::Validators, Step::Block, Step::Epoch, Step::Transaction(0)]
    );
    assert_eq!(
        steps(&tm_block(5, Vec::new(), None)),
        vec![Step::Validators, Step::Block, Step::Epoch]
    );
}

#[test]
fn tx_record_builds_without_writing() {
    let raw = vec![7u8, 7, 7];
    let tx = tx_record(9, &result(0, 5), &raw, Some(&bond_tx())).unwrap();
    assert_eq!(tx.hash, tx_hash(raw));
    assert_eq!(tx.height, 9);
    assert!(tx.success);
    assert!(matches!(tx_record(9, &result(0, 5), &vec![1], None), Err(Error::InvalidTxData(_))));
}

#[test]
fn total_gas_fits_tells_when_the_sum_is_a_64_bit_number() {
    assert!(total_gas_fits(&Vec::new()));
    assert!(total_gas_fits(&vec![result(0, 42), result(0, 8)]));
    assert!(total_gas_fits(&vec![result(0, i64::MAX), result(0, i64::MAX), result(0, -i64::MAX)]));
    assert!(!total_gas_fits(&vec![result(0, i64::MAX), result(0, 1)]));
    assert!(!total_gas_fits(&vec![result(0, i64::MIN), result(0, -1)]));
    assert_eq!(sum_total_gas(&vec![result(0, 42), result(0, 8)]), 50);
    assert_eq!(sum_total_gas(&vec![result(0, -5), result(0, 8)]), 3);
}

#[test]
fn every_module_handles_an_epoch_edge_and_none_otherwise() {
    let every = vec![Module::Staking, Module::Governance, Module::ConsensusTime];
    let mut tracker = EpochTracker::new();
    assert_eq!(epoch_fan_out(tracker.update_epoch(7)), every);
    assert_eq!(epoch_fan_out(tracker.update_epoch(7)), Vec::new());
    assert_eq!(epoch_fan_out(tracker.update_epoch(6)), Vec::new());
    assert_eq!(epoch_fan_out(tracker.update_epoch(8)), every);
    assert_eq!(epoch_fan_out(None), Vec::new());
}

#[test]
fn transaction_steps_are_record_message_modules() {
    let mut db = Database::new();
    let message = Some(Message {
        height: 1,
        tx_hash: "AB".into(),
        message_type: "tx_bond".into(),
        value: "{}".into(),
    });
    let ok = process_tx(&mut db, 1, &result(0, 1), &vec![1], Some(&bond_tx())).unwrap();
    let failed = process_tx(&mut db, 1, &result(4, 1), &vec![2], Some(&bond_tx())).unwrap();
    assert!(decodes(&ok));
    assert!(!decodes(&failed));
    assert_eq!(
        tx_steps(&ok, &message),
        vec![
            TxStep::Record,
            TxStep::Message,
            TxStep::HandleMessage(Module::Staking),
            TxStep::HandleMessage(Module::Governance),
            TxStep::HandleMessage(Module::ConsensusTime),
        ]
    );
    assert_eq!(tx_steps(&ok, &None), vec![TxStep::Record]);
    assert_eq!(tx_steps(&failed, &message), vec![TxStep::Record]);
    assert_eq!(message_fan_out(&message).len(), 3);
    assert!(message_fan_out(&None).is_empty());
}

#[test]
fn unknown_signers_are_those_missing_from_the_set() {
    let set = vec![validator([1; 20], 10, -3)];
    let commit = Commit {
        signatures: vec![
            commit_sig([8; 20], 1, Some(vec![9; 64])),
            commit_sig([1; 20], 2, Some(vec![9; 64])),
            commit_sig([7; 20], 3, None),
            CommitSig::BlockIdFlagAbsent,
            commit_sig([6; 20], 4, Some(vec![1])),
        ],
    };
    assert_eq!(unknown_signers(&commit, &set), vec![[8u8; 20], [6u8; 20]]);
    let others = vec![validator([8; 20], 1, 1), validator([6; 20], 1, 1)];
    assert_eq!(unknown_signers(&commit, &others), vec![[1u8; 20]]);
    let all = vec![validator([8; 20], 1, 1), validator([6; 20], 1, 1), validator([1; 20], 1, 1)];
    assert!(unknown_signers(&commit, &all).is_empty());
}

fn answer(envelope: bool, message: Option<&str>) -> TxAnswer {
    TxAnswer {
        envelope: if envelope { Some(bond_tx()) } else { None },
        message: message.map(|kind| (kind.to_string(), "{}".to_string())),
    }
}

#[test]
fn a_height_run_twice_leaves_the_chain_tables_as_after_one_run() {
    let set = vec![validator([1; 20], 10, 0), validator([2; 20], 20, 0)];
    let commit = Commit {
        signatures: vec![
            commit_sig([1; 20], 5, Some(vec![1])),
            commit_sig([9; 20], 6, Some(vec![1])),
        ],
    };
    let block = tm_block(60, vec![vec![1], vec![2], vec![3]], Some(commit));
    let results = vec![result(0, 40), result(7, 1), result(0, 1)];
    let answers =
        vec![answer(true, Some("tx_bond")), answer(true, Some("tx_bond")), answer(true, None)];
    let mut db = Database::new();
    let written = process_height(&mut db, &block, &results, &set, &answers);
    assert!(written.outcome.is_ok());
    assert_eq!(written.validators.0.len(), 2);
    assert_eq!(written.block.height, 60);
    assert_eq!(written.pre_commits.len(), 2);
    assert_eq!(written.transactions.len(), 3);
    assert_eq!(written.transactions[1].hash, tx_hash(vec![2]));
    assert_eq!(written.transactions[1].height, 60);
    assert!(!written.transactions[1].success);
    assert_eq!(written.messages.len(), 1);
    assert_eq!(written.messages[0].tx_hash, tx_hash(vec![1]));
    assert_eq!(written.messages[0].height, 60);
    assert_eq!(written.messages[0].message_type, "tx_bond");
    let counts = |db: &Database| {
        (
            db.validators.len(),
            db.blocks.len(),
            db.pre_commits.len(),
            db.transactions.len(),
            db.messages.len(),
        )
    };
    assert_eq!(counts(&db), (2, 1, 2, 3, 1));
    assert_eq!(db.blocks.get(&Key::Int(60)).unwrap().total_gas, 42);
    assert_eq!(db.messages.get(&Key::Text(tx_hash(vec![1]))).unwrap().message_type, "tx_bond");
    assert!(db.messages.get(&Key::Text(tx_hash(vec![2]))).is_none());
    let mut other = vec![result(0, 40), result(7, 1), result(0, 1)];
    other[0].gas_used = 41;
    assert!(process_height(&mut db, &block, &other, &set, &answers).outcome.is_ok());
    assert_eq!(counts(&db), (2, 1, 2, 3, 1));
    assert_eq!(db.blocks.get(&Key::Int(60)).unwrap().total_gas, 42);
    assert_eq!(db.transactions.get(&Key::Text(tx_hash(vec![1]))).unwrap().gas_used, 40);
}

#[test]
fn a_height_fails_at_the_first_raw_transaction_that_is_no_envelope() {
    let set = vec![validator([1; 20], 10, 0)];
    let block = tm_block(61, vec![vec![1], vec![2], vec![3]], None);
    let results = vec![result(0, 1), result(0, 1), result(0, 1)];
    let answers = vec![answer(true, Some("tx_bond")), answer(false, None), answer(true, None)];
    let mut db = Database::new();
    let written = process_height(&mut db, &block, &results, &set, &answers);
    assert_eq!(written.transactions.len(), 1);
    assert_eq!(written.messages.len(), 1);
    let outcome = written.outcome;
    match &outcome {
        Err(Error::InvalidTxData(reason)) => assert_eq!(reason, "failed to parse raw transaction"),
        _ => panic!("expected a failure"),
    }
    assert_eq!(db.blocks.len(), 1);
    assert_eq!(db.transactions.len(), 1);
    assert_eq!(db.messages.len(), 1);
    assert_eq!(requeue(61, &outcome), Some(61));
}

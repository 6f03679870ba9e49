use indexer::database::store::Rule;
use indexer::database::table::{Key, Table};
use indexer::database::{
    AverageBlockTime, Block, Database, Message, PreCommit, PreCommits, Proposal, ProposalStatus,
    ProposalTallyResult, ProposalVote, TallyResult, TallyType, Tx, Validator,
    ValidatorCommission, ValidatorCommissions, ValidatorConsensusKey, ValidatorDescription,
    ValidatorDescriptions, ValidatorInfo, ValidatorInfos, ValidatorState, ValidatorStatus,
    ValidatorStatuses, ValidatorVotingPower, ValidatorVotingPowers, Validators,
};

fn text(key: &str) -> Key {
    Key::Text(key.to_string())
}

fn block(height: i64, timestamp: i64) -> Block {
    Block {
        height,
        hash: format!("HASH{}", height),
        num_txs: 0,
        total_gas: 0,
        proposer_address: "tnam1proposer".to_string(),
        timestamp,
    }
}

fn status(addr: &str, state: ValidatorState, height: u64) -> ValidatorStatus {
    ValidatorStatus::new(addr.to_string(), state, height)
}

fn proposal(id: u64, start: u64, end: u64, status: ProposalStatus) -> Proposal {
    Proposal::new(
        id,
        format!("title {}", id),
        "details".to_string(),
        &vec![("title".to_string(), format!("title {}", id))],
        "\"Default\"".to_string(),
        1_700_000_000,
        start,
        end,
        end + 2,
        "tnam1author".to_string(),
        status,
    )
}

#[test]
fn key_same_and_duplicate() {
    assert!(Key::Int(4).same(&Key::Int(4)));
    assert!(!Key::Int(4).same(&Key::Int(5)));
    assert!(text("a").same(&text("a")));
    assert!(!text("a").same(&text("b")));
    assert!(!text("4").same(&Key::Int(4)));
    assert!(Key::IntText(1, "v".to_string()).same(&Key::IntText(1, "v".to_string())));
    assert!(!Key::IntText(1, "v".to_string()).same(&Key::IntText(2, "v".to_string())));
    assert!(!Key::IntText(1, "v".to_string()).same(&Key::IntText(1, "w".to_string())));
    assert!(Key::Unit.same(&Key::Unit));
    assert!(!Key::Unit.same(&Key::Int(0)));
    let key = Key::IntText(7, "voter".to_string());
    assert!(key.duplicate().same(&key));
}

#[test]
fn table_insert_if_absent_keeps_the_stored_row() {
    let mut table: Table<u32> = Table::new(Rule::InsertIfAbsent);
    assert_eq!(table.len(), 0);
    table.put(text("a"), 10, 1);
    table.put(text("a"), 20, 2);
    table.put(text("a"), 5, 3);
    assert_eq!(table.len(), 1);
    assert_eq!(table.get(&text("a")), Some(&1));
    assert_eq!(table.height_of(&text("a")), Some(10));
    assert_eq!(table.get(&text("b")), None);
    assert_eq!(table.height_of(&text("b")), None);
}

#[test]
fn table_height_gate_replaces_unless_older() {
    let mut table: Table<u32> = Table::new(Rule::HeightGated);
    table.put(text("a"), 10, 1);
    table.put(text("a"), 9, 2);
    assert_eq!(table.get(&text("a")), Some(&1));
    table.put(text("a"), 10, 3);
    assert_eq!(table.get(&text("a")), Some(&3));
    table.put(text("a"), 11, 4);
    assert_eq!(table.get(&text("a")), Some(&4));
    assert_eq!(table.height_of(&text("a")), Some(11));
    assert_eq!(table.len(), 1);
}

#[test]
fn table_rows_are_kept_apart_by_key() {
    let mut table: Table<u32> = Table::new(Rule::HeightGated);
    table.put(Key::Int(1), 1, 11);
    table.put(Key::Int(2), 1, 22);
    table.put(Key::IntText(1, "x".to_string()), 1, 33);
    table.put(Key::Unit, 1, 44);
    assert_eq!(table.len(), 4);
    assert_eq!(table.get(&Key::Int(2)), Some(&22));
    assert_eq!(table.get(&Key::IntText(1, "x".to_string())), Some(&33));
    assert_eq!(table.get(&Key::Unit), Some(&44));
    assert_eq!(table.row_at(0), (1, &11));
    assert_eq!(table.row_at(3), (1, &44));
}

#[test]
fn table_amend_at_keeps_key_and_height() {
    let mut table: Table<u32> = Table::new(Rule::HeightGated);
    table.put(Key::Int(1), 7, 11);
    table.put(Key::Int(2), 8, 22);
    table.amend_at(1, 99);
    assert_eq!(table.get(&Key::Int(2)), Some(&99));
    assert_eq!(table.height_of(&Key::Int(2)), Some(8));
    assert_eq!(table.get(&Key::Int(1)), Some(&11));
    assert_eq!(table.len(), 2);
}

#[test]
fn table_save_present_skips_absent_rows() {
    let mut table: Table<ValidatorStatus> = Table::new(Rule::HeightGated);
    table.save_present(&vec![
        Some(status("a", ValidatorState::Consensus, 1)),
        None,
        Some(status("b", ValidatorState::Jailed, 1)),
    ]);
    assert_eq!(table.len(), 2);
    assert!(table.get(&text("b")).unwrap().jailed);
}

#[test]
fn new_database_is_empty() {
    let db = Database::new();
    assert_eq!(db.blocks.len(), 0);
    assert_eq!(db.transactions.len(), 0);
    assert_eq!(db.messages.len(), 0);
    assert_eq!(db.pre_commits.len(), 0);
    assert_eq!(db.validators.len(), 0);
    assert_eq!(db.validator_infos.len(), 0);
    assert_eq!(db.validator_voting_powers.len(), 0);
    assert_eq!(db.validator_commissions.len(), 0);
    assert_eq!(db.validator_statuses.len(), 0);
    assert_eq!(db.validator_descriptions.len(), 0);
    assert_eq!(db.proposals.len(), 0);
    assert_eq!(db.proposal_votes.len(), 0);
    assert_eq!(db.proposal_tally_results.len(), 0);
    assert_eq!(db.average_block_time_per_hour.len(), 0);
    assert_eq!(db.average_block_time_per_day.len(), 0);
}

#[test]
fn height_gated_upsert_keeps_the_newer_status() {
    let mut db = Database::new();
    ValidatorStatuses::from(vec![Some(status("A", ValidatorState::BelowCapacity, 100))])
        .save(&mut db);
    ValidatorStatuses::from(vec![Some(status("A", ValidatorState::BelowThreshold, 50))])
        .save(&mut db);
    let row = db.validator_statuses.get(&text("A")).unwrap();
    assert_eq!(row.status, 1);
    assert_eq!(row.height, 100);
    assert_eq!(db.validator_statuses.len(), 1);
}

#[test]
fn height_gated_upsert_is_monotone_in_height() {
    let mut db = Database::new();
    let mut stored = i64::MIN;
    for height in [5u64, 3, 9, 9, 1, 12, 11] {
        ValidatorInfos::from(vec![ValidatorInfo::new(
            "A".to_string(),
            format!("0.{}", height),
            height,
        )])
        .save(&mut db);
        let now = db.validator_infos.height_of(&text("A")).unwrap();
        assert!(now >= stored);
        assert!(now >= height as i64);
        stored = now;
    }
    assert_eq!(stored, 12);
    assert_eq!(db.validator_infos.get(&text("A")).unwrap().max_change_rate, "0.12");
}

#[test]
fn saving_twice_changes_nothing() {
    let mut db = Database::new();
    for _ in 0..2 {
        block(7, 70).save(&mut db);
        Tx::new("AA".into(), 7, true, "".into(), "wrapper".into(), 1, 2, "".into()).save(&mut db);
        PreCommits::from(vec![PreCommit::new("v".into(), 7, 70, 5, 0)]).save(&mut db);
        ValidatorVotingPowers::from(vec![ValidatorVotingPower::new("v".into(), 5, 7)])
            .save(&mut db);
        Validators::from(vec![Validator::new("c".into(), "k".into())]).save(&mut db);
    }
    assert_eq!(db.blocks.len(), 1);
    assert_eq!(db.transactions.len(), 1);
    assert_eq!(db.pre_commits.len(), 1);
    assert_eq!(db.validator_voting_powers.len(), 1);
    assert_eq!(db.validators.len(), 1);
    assert_eq!(db.validator_voting_powers.get(&text("v")).unwrap().voting_power, 5);
}

#[test]
fn replay_in_any_order_leaves_the_same_rows() {
    let rows = |order: &[u64]| -> Vec<ValidatorVotingPower> {
        order
            .iter()
            .flat_map(|h| {
                vec![
                    ValidatorVotingPower::new("a".into(), *h as i64 * 10, *h),
                    ValidatorVotingPower::new("b".into(), *h as i64 * 100, *h),
                ]
            })
            .collect()
    };
    let mut ascending = Database::new();
    ValidatorVotingPowers::from(rows(&[1, 2, 3, 4, 5])).save(&mut ascending);
    for order in [[5u64, 4, 3, 2, 1], [3, 1, 5, 2, 4], [2, 5, 1, 4, 3]] {
        let mut db = Database::new();
        ValidatorVotingPowers::from(rows(&order)).save(&mut db);
        ValidatorVotingPowers::from(rows(&order[1..3])).save(&mut db);
        assert_eq!(db.validator_voting_powers.len(), ascending.validator_voting_powers.len());
        for key in ["a", "b"] {
            let got = db.validator_voting_powers.get(&text(key)).unwrap();
            let want = ascending.validator_voting_powers.get(&text(key)).unwrap();
            assert_eq!(got.voting_power, want.voting_power);
            assert_eq!(got.height, want.height);
            assert_eq!(got.height, 5);
        }
    }
}

#[test]
fn empty_bulk_writes_change_nothing() {
    let mut db = Database::new();
    Validators::from(Vec::new()).save(&mut db);
    ValidatorInfos::from(Vec::new()).save(&mut db);
    ValidatorVotingPowers::from(Vec::new()).save(&mut db);
    ValidatorCommissions::from(Vec::new()).save(&mut db);
    ValidatorStatuses::from(Vec::new()).save(&mut db);
    ValidatorDescriptions::from(Vec::new()).save(&mut db);
    PreCommits::from(Vec::new()).save(&mut db);
    assert_eq!(db.validators.len(), 0);
    assert_eq!(db.validator_infos.len(), 0);
    assert_eq!(db.validator_voting_powers.len(), 0);
    assert_eq!(db.validator_commissions.len(), 0);
    assert_eq!(db.validator_statuses.len(), 0);
    assert_eq!(db.validator_descriptions.len(), 0);
    assert_eq!(db.pre_commits.len(), 0);
}

#[test]
fn bulk_from_optional_rows_keeps_the_present_ones_in_order() {
    let commissions = ValidatorCommissions::from(vec![
        None,
        Some(ValidatorCommission::new("a".into(), "0.05".into(), 3)),
        None,
        Some(ValidatorCommission::new("b".into(), "0.10".into(), 3)),
    ]);
    assert_eq!(commissions.0.len(), 2);
    assert_eq!(commissions.0[0].validator_address, "a");
    assert_eq!(commissions.0[1].validator_address, "b");
    assert_eq!(commissions.0[1].commission_rate, "0.10");
    let statuses = ValidatorStatuses::from(vec![None, None]);
    assert_eq!(statuses.0.len(), 0);
    let descriptions = ValidatorDescriptions::from(vec![Some(ValidatorDescription::new(
        "a".into(),
        "avatar".into(),
        "site".into(),
        "details".into(),
        9,
    ))]);
    assert_eq!(descriptions.0.len(), 1);
    assert_eq!(descriptions.0[0].website, "site");
    assert_eq!(descriptions.0[0].height, 9);
}

#[test]
fn validator_status_new_takes_code_and_jailed_from_state() {
    let codes = [
        (ValidatorState::Consensus, 0, false),
        (ValidatorState::BelowCapacity, 1, false),
        (ValidatorState::BelowThreshold, 2, false),
        (ValidatorState::Inactive, 3, false),
        (ValidatorState::Jailed, 4, true),
    ];
    for (state, code, jailed) in codes {
        let row = status("a", state, 11);
        assert_eq!(row.status, code);
        assert_eq!(row.jailed, jailed);
        assert_eq!(row.height, 11);
        assert_eq!(state.code(), code);
    }
}

#[test]
fn record_constructors_keep_their_arguments() {
    let info = ValidatorInfo::new("c".into(), "0.01".into(), 5);
    assert_eq!((info.consensus_address.as_str(), info.max_change_rate.as_str(), info.height), ("c", "0.01", 5));
    let power = ValidatorVotingPower::new("v".into(), 77, 6);
    assert_eq!((power.validator_address.as_str(), power.voting_power, power.height), ("v", 77, 6));
    let key = ValidatorConsensusKey::new("k".into(), "v".into());
    assert_eq!((key.consensus_pub_key.as_str(), key.validator_address.as_str()), ("k", "v"));
    let validator = Validator::new("c".into(), "k".into());
    assert_eq!((validator.consensus_address.as_str(), validator.consensus_pubkey.as_str()), ("c", "k"));
    assert!(validator.validator_address.is_none());
    let tx = Tx::new("H".into(), 3, false, "memo".into(), "raw".into(), 10, 9, "log".into());
    assert_eq!(tx.hash, "H");
    assert_eq!(tx.height, 3);
    assert!(!tx.success);
    assert_eq!(tx.memo, "memo");
    assert_eq!(tx.tx_type, "raw");
    assert_eq!(tx.gas_wanted, 10);
    assert_eq!(tx.gas_used, 9);
    assert_eq!(tx.raw_log, "log");
    let pre_commit = PreCommit::new("v".into(), 3, 30, 5, -2);
    assert_eq!(pre_commit.proposer_priority, -2);
    assert_eq!(pre_commit.timestamp, 30);
}

#[test]
fn heights_above_the_signed_range_wrap() {
    let info = ValidatorInfo::new("c".into(), "0".into(), u64::MAX);
    assert_eq!(info.height, -1);
    let vote = ProposalVote::new((1u64 << 32) + 5, "v".into(), "yay".into(), 1);
    assert_eq!(vote.proposal_id, 5);
}

#[test]
fn consensus_key_binding_updates_stored_validators_only() {
    let mut db = Database::new();
    ValidatorConsensusKey::new("key".into(), "val1".into()).save(&mut db);
    assert_eq!(db.validators.len(), 0);
    Validators::from(vec![
        Validator::new("c1".into(), "key".into()),
        Validator::new("c2".into(), "other".into()),
        Validator::new("c3".into(), "key".into()),
    ])
    .save(&mut db);
    ValidatorConsensusKey::new("key".into(), "val1".into()).save(&mut db);
    ValidatorConsensusKey::new("key".into(), "val2".into()).save(&mut db);
    ValidatorConsensusKey::new("absent".into(), "val3".into()).save(&mut db);
    assert_eq!(db.validators.len(), 3);
    let address = |db: &Database, key: &str| db.validators.get(&text(key)).unwrap().validator_address.clone();
    assert_eq!(address(&db, "c1"), Some("val2".to_string()));
    assert_eq!(address(&db, "c3"), Some("val2".to_string()));
    assert_eq!(address(&db, "c2"), None);
    Validators::from(vec![Validator::new("c1".into(), "key".into())]).save(&mut db);
    assert_eq!(address(&db, "c1"), Some("val2".to_string()));
}

#[test]
fn latest_block_is_the_highest() {
    let mut db = Database::new();
    assert!(Block::latest_block(&db).is_none());
    for (h, t) in [(5, 50), (9, 90), (7, 70)] {
        block(h, t).save(&mut db);
    }
    let latest = Block::latest_block(&db).unwrap();
    assert_eq!(latest.height, 9);
    assert_eq!(latest.timestamp, 90);
    assert_eq!(latest.hash, "HASH9");
}

#[test]
fn block_before_time_is_the_highest_at_or_before() {
    let mut db = Database::new();
    for (h, t) in [(5, 50), (9, 90), (7, 70)] {
        block(h, t).save(&mut db);
    }
    assert_eq!(Block::block_before_time(&db, 70).unwrap().height, 7);
    assert_eq!(Block::block_before_time(&db, 89).unwrap().height, 7);
    assert_eq!(Block::block_before_time(&db, 90).unwrap().height, 9);
    assert_eq!(Block::block_before_time(&db, 50).unwrap().height, 5);
    assert!(Block::block_before_time(&db, 49).is_none());
}

#[test]
fn block_is_immutable_once_stored() {
    let mut db = Database::new();
    block(5, 50).save(&mut db);
    block(5, 999).save(&mut db);
    assert_eq!(db.blocks.len(), 1);
    assert_eq!(db.blocks.get(&Key::Int(5)).unwrap().timestamp, 50);
}

#[test]
fn average_block_time_singleton_is_height_gated() {
    let mut db = Database::new();
    AverageBlockTime::new(60, 10, 100).save_average_block_time_per_hour(&mut db);
    AverageBlockTime::new(50, 10, 90).save_average_block_time_per_hour(&mut db);
    assert_eq!(db.average_block_time_per_hour.len(), 1);
    assert_eq!(db.average_block_time_per_hour.get(&Key::Unit).unwrap().elapsed_seconds, 60);
    AverageBlockTime::new(70, 10, 100).save_average_block_time_per_hour(&mut db);
    assert_eq!(db.average_block_time_per_hour.get(&Key::Unit).unwrap().elapsed_seconds, 70);
    assert_eq!(db.average_block_time_per_day.len(), 0);
    AverageBlockTime::new(1, 0, 1).save_average_block_time_per_day(&mut db);
    assert!(db.average_block_time_per_day.get(&Key::Unit).unwrap().is_zero());
    assert!(!db.average_block_time_per_hour.get(&Key::Unit).unwrap().is_zero());
}

#[test]
fn proposal_vote_normalizes_yay_and_nay() {
    assert_eq!(ProposalVote::new(1, "v".into(), "yay".into(), 1).option, "yes");
    assert_eq!(ProposalVote::new(1, "v".into(), "nay".into(), 1).option, "no");
    assert_eq!(ProposalVote::new(1, "v".into(), "abstain".into(), 1).option, "abstain");
    assert_eq!(ProposalVote::new(1, "v".into(), "Yay".into(), 1).option, "Yay");
    assert_eq!(ProposalVote::new(1, "v".into(), "".into(), 1).option, "");
}

#[test]
fn proposal_vote_is_keyed_by_proposal_and_voter() {
    let mut db = Database::new();
    ProposalVote::new(1, "v".into(), "yay".into(), 10).save(&mut db);
    ProposalVote::new(1, "w".into(), "nay".into(), 10).save(&mut db);
    ProposalVote::new(2, "v".into(), "abstain".into(), 10).save(&mut db);
    ProposalVote::new(1, "v".into(), "nay".into(), 9).save(&mut db);
    assert_eq!(db.proposal_votes.len(), 3);
    assert_eq!(db.proposal_votes.get(&Key::IntText(1, "v".into())).unwrap().option, "yes");
    ProposalVote::new(1, "v".into(), "nay".into(), 11).save(&mut db);
    assert_eq!(db.proposal_votes.get(&Key::IntText(1, "v".into())).unwrap().option, "no");
}

#[test]
fn tally_result_names_its_type() {
    let names = [
        (TallyType::TwoThirds, "two_thirds"),
        (TallyType::OneHalfOverOneThird, "one_half_over_one_third"),
        (TallyType::LessOneHalfOverOneThirdNay, "less_one_half_over_one_third_nay"),
    ];
    for (tally_type, name) in names {
        let row = ProposalTallyResult::new(
            4,
            tally_type,
            "100".into(),
            "60".into(),
            "30".into(),
            "10".into(),
            77,
        );
        assert_eq!(row.tally_type, name);
        assert_eq!(row.proposal_id, 4);
        assert_eq!((row.total.as_str(), row.yes.as_str(), row.no.as_str(), row.abstain.as_str()), ("100", "60", "30", "10"));
        assert_eq!(row.height, 77);
    }
}

#[test]
fn tally_result_is_height_gated() {
    let mut db = Database::new();
    let tally = |yes: &str, height: u64| {
        ProposalTallyResult::new(4, TallyType::TwoThirds, "9".into(), yes.into(), "0".into(), "0".into(), height)
    };
    tally("1", 10).save(&mut db);
    tally("2", 9).save(&mut db);
    assert_eq!(db.proposal_tally_results.get(&Key::Int(4)).unwrap().yes, "1");
    tally("3", 10).save(&mut db);
    assert_eq!(db.proposal_tally_results.get(&Key::Int(4)).unwrap().yes, "3");
    assert_eq!(db.proposal_tally_results.len(), 1);
}

#[test]
fn proposal_status_names() {
    assert_eq!(ProposalStatus::Init.name(), "PROPOSAL_STATUS_INIT");
    assert_eq!(ProposalStatus::VotingPeriod.name(), "PROPOSAL_STATUS_VOTING_PERIOD");
    assert_eq!(ProposalStatus::Passed.name(), "PROPOSAL_STATUS_PASSED");
    assert_eq!(ProposalStatus::Rejected.name(), "PROPOSAL_STATUS_REJECTED");
    assert!(ProposalStatus::Passed.is_final());
    assert!(ProposalStatus::Rejected.is_final());
    assert!(!ProposalStatus::Init.is_final());
    assert!(!ProposalStatus::VotingPeriod.is_final());
    assert_eq!(TallyResult::Passed.status(), ProposalStatus::Passed);
    assert_eq!(TallyResult::Rejected.status(), ProposalStatus::Rejected);
}

#[test]
fn proposal_new_narrows_its_numbers() {
    let p = proposal(4, 10, 20, ProposalStatus::Init);
    assert_eq!(p.id, 4);
    assert_eq!(p.title, "title 4");
    assert_eq!(p.metadata, "{\"title\":\"title 4\"}");
    assert_eq!(p.content, "\"Default\"");
    assert_eq!(p.voting_start_epoch, 10);
    assert_eq!(p.voting_end_epoch, 20);
    assert_eq!(p.grace_epoch, 22);
    assert_eq!(p.proposer_address, "tnam1author");
    assert_eq!(p.status, ProposalStatus::Init);
    assert_eq!(p.submit_time, 1_700_000_000);
}

#[test]
fn proposal_metadata_is_a_json_object_in_key_order() {
    let metadata = |pairs: &[(&str, &str)]| {
        let pairs: Vec<(String, String)> =
            pairs.iter().map(|(k, v)| (k.to_string(), v.to_string())).collect();
        Proposal::new(
            1,
            String::new(),
            String::new(),
            &pairs,
            "null".to_string(),
            0,
            0,
            0,
            0,
            String::new(),
            ProposalStatus::Init,
        )
        .metadata
    };
    assert_eq!(metadata(&[]), "{}");
    assert_eq!(metadata(&[("a", "1"), ("b", "2")]), "{\"a\":\"1\",\"b\":\"2\"}");
    assert_eq!(
        metadata(&[("A", "1"), ("a", "2"), ("ab", "3")]),
        "{\"A\":\"1\",\"a\":\"2\",\"ab\":\"3\"}"
    );
    assert_eq!(metadata(&[("q", "say \"hi\"")]), "{\"q\":\"say \\\"hi\\\"\"}");
}

#[test]
fn proposal_save_keeps_the_stored_status() {
    let mut db = Database::new();
    proposal(4, 10, 20, ProposalStatus::VotingPeriod).save(&mut db);
    proposal(4, 10, 20, ProposalStatus::Init).save(&mut db);
    assert_eq!(db.proposals.len(), 1);
    assert_eq!(db.proposals.get(&Key::Int(4)).unwrap().status, ProposalStatus::VotingPeriod);
}

#[test]
fn voting_opens_when_the_start_epoch_has_come() {
    let mut db = Database::new();
    proposal(1, 10, 20, ProposalStatus::Init).save(&mut db);
    proposal(2, 11, 20, ProposalStatus::Init).save(&mut db);
    proposal(3, 5, 20, ProposalStatus::Passed).save(&mut db);
    Proposal::update_active_proposals_statuses_from_init(&mut db, 9);
    assert_eq!(db.proposals.get(&Key::Int(1)).unwrap().status, ProposalStatus::Init);
    Proposal::update_active_proposals_statuses_from_init(&mut db, 10);
    assert_eq!(db.proposals.get(&Key::Int(1)).unwrap().status, ProposalStatus::VotingPeriod);
    assert_eq!(db.proposals.get(&Key::Int(2)).unwrap().status, ProposalStatus::Init);
    assert_eq!(db.proposals.get(&Key::Int(3)).unwrap().status, ProposalStatus::Passed);
    assert_eq!(db.proposals.get(&Key::Int(1)).unwrap().title, "title 1");
    assert_eq!(db.proposals.len(), 3);
}

#[test]
fn ended_proposal_is_decided_once() {
    let mut db = Database::new();
    proposal(1, 10, 20, ProposalStatus::VotingPeriod).save(&mut db);
    proposal(2, 10, 30, ProposalStatus::VotingPeriod).save(&mut db);
    Proposal::update_ended_proposal_status(&mut db, 19, 1, TallyResult::Passed);
    assert_eq!(db.proposals.get(&Key::Int(1)).unwrap().status, ProposalStatus::VotingPeriod);
    Proposal::update_ended_proposal_status(&mut db, 20, 1, TallyResult::Rejected);
    assert_eq!(db.proposals.get(&Key::Int(1)).unwrap().status, ProposalStatus::Rejected);
    Proposal::update_ended_proposal_status(&mut db, 25, 1, TallyResult::Passed);
    assert_eq!(db.proposals.get(&Key::Int(1)).unwrap().status, ProposalStatus::Rejected);
    Proposal::update_ended_proposal_status(&mut db, 25, 2, TallyResult::Passed);
    assert_eq!(db.proposals.get(&Key::Int(2)).unwrap().status, ProposalStatus::VotingPeriod);
    Proposal::update_ended_proposal_status(&mut db, 25, 9, TallyResult::Passed);
    assert_eq!(db.proposals.len(), 2);
}

#[test]
fn proposal_statuses_only_move_forward() {
    let rank = |s: ProposalStatus| match s {
        ProposalStatus::Init => 0,
        ProposalStatus::VotingPeriod => 1,
        ProposalStatus::Passed | ProposalStatus::Rejected => 2,
    };
    let mut db = Database::new();
    proposal(1, 3, 6, ProposalStatus::Init).save(&mut db);
    let mut seen = vec![ProposalStatus::Init];
    for epoch in 0..10u64 {
        Proposal::update_active_proposals_statuses_from_init(&mut db, epoch);
        seen.push(db.proposals.get(&Key::Int(1)).unwrap().status);
        let verdict = if epoch % 2 == 0 { TallyResult::Passed } else { TallyResult::Rejected };
        Proposal::update_ended_proposal_status(&mut db, epoch, 1, verdict);
        seen.push(db.proposals.get(&Key::Int(1)).unwrap().status);
    }
    for pair in seen.windows(2) {
        assert!(rank(pair[0]) <= rank(pair[1]));
        if rank(pair[0]) == 2 {
            assert_eq!(pair[0], pair[1]);
        }
    }
    assert_eq!(*seen.last().unwrap(), ProposalStatus::Passed);
}

#[test]
fn proposal_selections() {
    let mut db = Database::new();
    proposal(1, 1, 20, ProposalStatus::Init).save(&mut db);
    proposal(2, 1, 20, ProposalStatus::VotingPeriod).save(&mut db);
    proposal(3, 1, 21, ProposalStatus::VotingPeriod).save(&mut db);
    proposal(4, 1, 10, ProposalStatus::Passed).save(&mut db);
    proposal(5, 1, 10, ProposalStatus::Rejected).save(&mut db);
    let mut voting: Vec<i32> = Proposal::voting_proposals(&db).iter().map(|p| p.id).collect();
    voting.sort();
    assert_eq!(voting, vec![2, 3]);
    let mut ended: Vec<i32> =
        Proposal::voting_ended_proposals(&db, 20).iter().map(|p| p.id).collect();
    ended.sort();
    assert_eq!(ended, vec![1, 2]);
    assert!(Proposal::voting_ended_proposals(&db, 9).is_empty());
    assert_eq!(Proposal::voting_ended_proposals(&db, 21).len(), 3);
}

#[test]
fn message_is_stored_once_per_transaction() {
    let mut db = Database::new();
    let message = |kind: &str| Message {
        height: 3,
        tx_hash: "AB".to_string(),
        message_type: kind.to_string(),
        value: "{}".to_string(),
    };
    message("tx_bond").save(&mut db);
    message("tx_unbond").save(&mut db);
    assert_eq!(db.messages.len(), 1);
    assert_eq!(db.messages.get(&text("AB")).unwrap().message_type, "tx_bond");
}

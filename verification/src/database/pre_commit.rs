//! Pre-commit records: the votes that closed a block.

use crate::chain::{has_date, Timestamp, TmValidatorInfo};
use crate::database::store::{replay, KeyView, Rule};
use crate::database::table::{writes_of, Key, Record};
use crate::database::Database;
use crate::utils::{addr_to_bech32, bech32_encoding, is_first_match, validator_index, ADDRESS_HRP};
use vstd::prelude::*;

verus! {

/// One validator's vote for a block.
pub struct PreCommit {
    pub validator_address: String,
    pub height: i64,
    /// Time of the vote, Unix seconds.
    pub timestamp: i64,
    pub voting_power: i64,
    pub proposer_priority: i64,
}

impl PreCommit {
    /// The record with the given fields.
    pub fn new(
        validator_address: String,
        height: i64,
        timestamp: i64,
        voting_power: i64,
        proposer_priority: i64,
    ) -> (p: Self)
        ensures
            p.validator_address == validator_address,
            p.height == height,
            p.timestamp == timestamp,
            p.voting_power == voting_power,
            p.proposer_priority == proposer_priority,
    {
        PreCommit { validator_address, height, timestamp, voting_power, proposer_priority }
    }

    /// The record of one commit signature. Power and priority are those of
    /// the first validator of the set with the signer's address; both are
    /// zero when the set holds no such validator.
    pub fn from_tm_commit_sig(
        height: u64,
        validator_address: &[u8; 20],
        validators: &Vec<TmValidatorInfo>,
        timestamp: Timestamp,
    ) -> (p: Self)
        ensures
            p.validator_address@ == bech32_encoding(ADDRESS_HRP@, validator_address@),
            p.height == height as i64,
            p.timestamp == timestamp@,
            has_date(p.timestamp),
            forall|i: int| #[trigger]
                is_first_match(validators@, validator_address@, i) ==> p.voting_power
                    == validators@[i].power && p.proposer_priority
                    == validators@[i].proposer_priority,
            (forall|i: int|
                0 <= i < validators@.len() ==> validators@[i].address@ != validator_address@)
                ==> p.voting_power == 0 && p.proposer_priority == 0,
    {
        match validator_index(validators, validator_address) {
            Some(at) => {
                let info = &validators[at];
                assert forall|i: int| #[trigger]
                    is_first_match(validators@, validator_address@, i) implies i == at by {
                    if i < at {
                        assert(validators@[i].address@ != validator_address@);
                    }
                    if at < i {
                        assert(validators@[at as int].address@ != validator_address@);
                    }
                }
                PreCommit::new(
                    addr_to_bech32(validator_address),
                    height as i64,
                    timestamp.seconds(),
                    info.power,
                    info.proposer_priority,
                )
            },
            None => PreCommit::new(
                addr_to_bech32(validator_address),
                height as i64,
                timestamp.seconds(),
                0,
                0,
            ),
        }
    }
}

impl Record for PreCommit {
    open spec fn key_view(&self) -> KeyView {
        KeyView::IntText(self.height as int, self.validator_address@)
    }

    open spec fn version(&self) -> int {
        self.height as int
    }

    fn key(&self) -> (k: Key) {
        Key::IntText(self.height, self.validator_address.clone())
    }

    fn gate(&self) -> (h: i64) {
        self.height
    }

    fn duplicate(&self) -> (copy: Self) {
        PreCommit {
            validator_address: self.validator_address.clone(),
            height: self.height,
            timestamp: self.timestamp,
            voting_power: self.voting_power,
            proposer_priority: self.proposer_priority,
        }
    }
}

/// The pre-commits of one block, written in bulk.
pub struct PreCommits(pub Vec<PreCommit>);

impl PreCommits {
    /// The batch of the given rows.
    pub fn from(pre_commits: Vec<PreCommit>) -> (set: Self)
        ensures
            set.0 == pre_commits,
    {
        PreCommits(pre_commits)
    }

    /// Adds the pre-commits not yet stored. An empty list writes nothing.
    pub fn save(&self, db: &mut Database)
        requires
            old(db).wf(),
        ensures
            final(db).wf(),
            final(db).pre_commits@ == replay(
                Rule::InsertIfAbsent,
                old(db).pre_commits@,
                writes_of(self.0@),
            ),
            *final(db) == (Database { pre_commits: final(db).pre_commits, ..*old(db) }),
    {
        db.pre_commits.save_all(&self.0);
    }
}

} // verus!

//! The persistence sink: typed records and the disciplines under which they
//! are written.
//!
//! `Database` is the sink as a value: what each table holds after the writes
//! made so far. It states what a relational store behind the indexer owes
//! its callers, and it is what the pipeline is verified against.

pub mod block;
pub mod consensus;
pub mod gov;
pub mod message;
pub mod pre_commit;
pub mod store;
pub mod table;
pub mod tx;
pub mod validator;

pub use block::Block;
pub use consensus::AverageBlockTime;
pub use gov::{
    Proposal, ProposalStatus, ProposalTallyResult, ProposalVote, TallyResult, TallyType,
};
pub use message::Message;
pub use pre_commit::{PreCommit, PreCommits};
pub use tx::Tx;
pub use validator::{
    Validator, ValidatorCommission, ValidatorCommissions, ValidatorConsensusKey,
    ValidatorDescription, ValidatorDescriptions, ValidatorInfo, ValidatorInfos, ValidatorState,
    ValidatorStatus, ValidatorStatuses, ValidatorVotingPower, ValidatorVotingPowers, Validators,
};

use store::{KeyView, Rule};
use table::{faithful, Table};
use vstd::prelude::*;

verus! {

/// What the sink holds, table by table.
pub struct Database {
    pub blocks: Table<Block>,
    pub transactions: Table<Tx>,
    pub messages: Table<Message>,
    pub pre_commits: Table<PreCommit>,
    pub validators: Table<Validator>,
    pub validator_infos: Table<ValidatorInfo>,
    pub validator_voting_powers: Table<ValidatorVotingPower>,
    pub validator_commissions: Table<ValidatorCommission>,
    pub validator_statuses: Table<ValidatorStatus>,
    pub validator_descriptions: Table<ValidatorDescription>,
    pub proposals: Table<Proposal>,
    pub proposal_votes: Table<ProposalVote>,
    pub proposal_tally_results: Table<ProposalTallyResult>,
    pub average_block_time_per_hour: Table<AverageBlockTime>,
    pub average_block_time_per_day: Table<AverageBlockTime>,
}

impl Database {
    /// Every table is well-formed, takes writes under its own discipline,
    /// and holds each row under the row's own key and height.
    pub open spec fn wf(&self) -> bool {
        &&& self.blocks.wf() && self.blocks.rule() == Rule::InsertIfAbsent && faithful(
            self.blocks@,
        )
        &&& self.transactions.wf() && self.transactions.rule() == Rule::InsertIfAbsent && faithful(
            self.transactions@,
        )
        &&& self.messages.wf() && self.messages.rule() == Rule::InsertIfAbsent && faithful(
            self.messages@,
        )
        &&& self.pre_commits.wf() && self.pre_commits.rule() == Rule::InsertIfAbsent && faithful(
            self.pre_commits@,
        )
        &&& self.validators.wf() && self.validators.rule() == Rule::InsertIfAbsent && faithful(
            self.validators@,
        )
        &&& self.validator_infos.wf() && self.validator_infos.rule() == Rule::HeightGated
            && faithful(self.validator_infos@)
        &&& self.validator_voting_powers.wf() && self.validator_voting_powers.rule()
            == Rule::HeightGated && faithful(self.validator_voting_powers@)
        &&& self.validator_commissions.wf() && self.validator_commissions.rule()
            == Rule::HeightGated && faithful(self.validator_commissions@)
        &&& self.validator_statuses.wf() && self.validator_statuses.rule() == Rule::HeightGated
            && faithful(self.validator_statuses@)
        &&& self.validator_descriptions.wf() && self.validator_descriptions.rule()
            == Rule::HeightGated && faithful(self.validator_descriptions@)
        &&& self.proposals.wf() && self.proposals.rule() == Rule::InsertIfAbsent && faithful(
            self.proposals@,
        )
        &&& self.proposal_votes.wf() && self.proposal_votes.rule() == Rule::HeightGated
            && faithful(self.proposal_votes@)
        &&& self.proposal_tally_results.wf() && self.proposal_tally_results.rule()
            == Rule::HeightGated && faithful(self.proposal_tally_results@)
        &&& self.average_block_time_per_hour.wf() && self.average_block_time_per_hour.rule()
            == Rule::HeightGated && faithful(self.average_block_time_per_hour@)
        &&& self.average_block_time_per_day.wf() && self.average_block_time_per_day.rule()
            == Rule::HeightGated && faithful(self.average_block_time_per_day@)
    }

    /// An empty sink.
    pub fn new() -> (db: Self)
        ensures
            db.wf(),
            db.is_empty(),
    {
        Database {
            blocks: Table::new(Rule::InsertIfAbsent),
            transactions: Table::new(Rule::InsertIfAbsent),
            messages: Table::new(Rule::InsertIfAbsent),
            pre_commits: Table::new(Rule::InsertIfAbsent),
            validators: Table::new(Rule::InsertIfAbsent),
            validator_infos: Table::new(Rule::HeightGated),
            validator_voting_powers: Table::new(Rule::HeightGated),
            validator_commissions: Table::new(Rule::HeightGated),
            validator_statuses: Table::new(Rule::HeightGated),
            validator_descriptions: Table::new(Rule::HeightGated),
            proposals: Table::new(Rule::InsertIfAbsent),
            proposal_votes: Table::new(Rule::HeightGated),
            proposal_tally_results: Table::new(Rule::HeightGated),
            average_block_time_per_hour: Table::new(Rule::HeightGated),
            average_block_time_per_day: Table::new(Rule::HeightGated),
        }
    }

    /// No table holds a row.
    pub open spec fn is_empty(&self) -> bool {
        &&& self.blocks@.dom() == Set::<KeyView>::empty()
        &&& self.transactions@.dom() == Set::<KeyView>::empty()
        &&& self.messages@.dom() == Set::<KeyView>::empty()
        &&& self.pre_commits@.dom() == Set::<KeyView>::empty()
        &&& self.validators@.dom() == Set::<KeyView>::empty()
        &&& self.validator_infos@.dom() == Set::<KeyView>::empty()
        &&& self.validator_voting_powers@.dom() == Set::<KeyView>::empty()
        &&& self.validator_commissions@.dom() == Set::<KeyView>::empty()
        &&& self.validator_statuses@.dom() == Set::<KeyView>::empty()
        &&& self.validator_descriptions@.dom() == Set::<KeyView>::empty()
        &&& self.proposals@.dom() == Set::<KeyView>::empty()
        &&& self.proposal_votes@.dom() == Set::<KeyView>::empty()
        &&& self.proposal_tally_results@.dom() == Set::<KeyView>::empty()
        &&& self.average_block_time_per_hour@.dom() == Set::<KeyView>::empty()
        &&& self.average_block_time_per_day@.dom() == Set::<KeyView>::empty()
    }
}

} // verus!

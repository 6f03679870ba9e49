//! The staking module: the validator series refreshed at each epoch edge.

use crate::database::store::{replay, Rule};
use crate::database::table::{present, writes_of};
use crate::database::validator::bind_all;
use crate::database::{
    Database, ValidatorCommission, ValidatorConsensusKey, ValidatorDescription, ValidatorInfo,
    ValidatorStatus, ValidatorVotingPower,
};
use crate::modules::PeriodicOperation;
use crate::node::ValidatorDetail;
use crate::utils::{parse_i64, parsed_i64};
use vstd::prelude::*;

verus! {

/// The staking module.
pub struct StakingModule {}

/// The rows that one epoch's validator details amount to, series by series
/// and validator by validator. A series that a validator has nothing for
/// holds `None` in that validator's place.
pub struct StakingUpdate {
    pub infos: Vec<ValidatorInfo>,
    pub voting_powers: Vec<ValidatorVotingPower>,
    pub commissions: Vec<Option<ValidatorCommission>>,
    pub statuses: Vec<Option<ValidatorStatus>>,
    pub descriptions: Vec<Option<ValidatorDescription>>,
    pub consensus_keys: Vec<Option<ValidatorConsensusKey>>,
}

/// The text of an optional text: empty when absent.
pub open spec fn or_empty(text: Option<String>) -> Seq<char> {
    match text {
        Some(t) => t@,
        None => Seq::empty(),
    }
}

/// A validator whose details the update can take: its stake is a 64-bit
/// decimal number, as the voting-power row wants it.
pub open spec fn complete(d: ValidatorDetail) -> bool {
    parsed_i64(d.stake@) is Some
}

/// The info row of a validator: the bound on commission changes, empty for
/// a validator without commission.
pub open spec fn is_info(row: ValidatorInfo, d: ValidatorDetail, height: u64) -> bool {
    &&& row.consensus_address@ == d.address@
    &&& row.max_change_rate@ == match d.commission {
        Some(c) => c.max_commission_change_per_epoch@,
        None => Seq::empty(),
    }
    &&& row.height == height as i64
}

/// The voting-power row of a validator.
pub open spec fn is_voting_power(row: ValidatorVotingPower, d: ValidatorDetail, height: u64) -> bool {
    &&& row.validator_address@ == d.address@
    &&& Some(row.voting_power) == parsed_i64(d.stake@)
    &&& row.height == height as i64
}

/// The commission row of a validator: present where the commission is.
pub open spec fn is_commission(
    row: Option<ValidatorCommission>,
    d: ValidatorDetail,
    height: u64,
) -> bool {
    match d.commission {
        Some(c) => row is Some && row->0.validator_address@ == d.address@
            && row->0.commission_rate@ == c.commission_rate@ && row->0.height == height as i64,
        None => row is None,
    }
}

/// The status row of a validator: present where the state is.
pub open spec fn is_status(row: Option<ValidatorStatus>, d: ValidatorDetail, height: u64) -> bool {
    match d.state {
        Some(s) => row is Some && row->0.validator_address@ == d.address@ && row->0.status
            == s.spec_code() && row->0.jailed == (s == crate::database::ValidatorState::Jailed)
            && row->0.height == height as i64,
        None => row is None,
    }
}

/// The description row of a validator: present where the metadata is, with
/// an empty text for each part the metadata lacks.
pub open spec fn is_description(
    row: Option<ValidatorDescription>,
    d: ValidatorDetail,
    height: u64,
) -> bool {
    match d.metadata {
        Some(m) => row is Some && row->0.validator_address@ == d.address@ && row->0.avatar_url@
            == or_empty(m.avatar) && row->0.website@ == or_empty(m.website) && row->0.details@
            == or_empty(m.description) && row->0.height == height as i64,
        None => row is None,
    }
}

/// The consensus-key row of a validator: present where the key is.
pub open spec fn is_consensus_key(row: Option<ValidatorConsensusKey>, d: ValidatorDetail) -> bool {
    match d.consensus_key {
        Some(k) => row is Some && row->0.consensus_pub_key@ == k@ && row->0.validator_address@
            == d.address@,
        None => row is None,
    }
}

/// One write of a staking update.
#[derive(Clone, Copy, Debug, PartialEq, Eq, Structural)]
pub enum StakingWrite {
    /// The info rows, in one write.
    Infos,
    /// The voting-power rows, in one write.
    VotingPowers,
    /// The commission rows that are present, in one write.
    Commissions,
    /// The status rows that are present, in one write.
    Statuses,
    /// The description rows that are present, in one write.
    Descriptions,
    /// The consensus key of the validator at the given position.
    ConsensusKey(usize),
}

/// The consensus-key writes of a list of optional keys: one for each key
/// that is present, in the validators' order.
pub open spec fn key_writes(keys: Seq<Option<ValidatorConsensusKey>>) -> Seq<StakingWrite>
    decreases keys.len(),
{
    if keys.len() == 0 {
        Seq::empty()
    } else if keys.last() is Some {
        key_writes(keys.drop_last()).push(StakingWrite::ConsensusKey((keys.len() - 1) as usize))
    } else {
        key_writes(keys.drop_last())
    }
}

/// The writes of a staking update, in the order in which they are made:
/// infos, voting powers, commissions, statuses, descriptions, then the
/// consensus keys one by one.
pub open spec fn plan_of(keys: Seq<Option<ValidatorConsensusKey>>) -> Seq<StakingWrite> {
    seq![
        StakingWrite::Infos,
        StakingWrite::VotingPowers,
        StakingWrite::Commissions,
        StakingWrite::Statuses,
        StakingWrite::Descriptions,
    ] + key_writes(keys)
}

impl StakingUpdate {
    /// The writes of the update, in the order in which they are made.
    pub fn plan(&self) -> (plan: Vec<StakingWrite>)
        ensures
            plan@ == plan_of(self.consensus_keys@),
    {
        let mut plan: Vec<StakingWrite> = Vec::new();
        plan.push(StakingWrite::Infos);
        plan.push(StakingWrite::VotingPowers);
        plan.push(StakingWrite::Commissions);
        plan.push(StakingWrite::Statuses);
        plan.push(StakingWrite::Descriptions);
        let ghost head = plan@;
        let mut i: usize = 0;
        while i < self.consensus_keys.len()
            invariant
                i <= self.consensus_keys.len(),
                plan@ == head + key_writes(self.consensus_keys@.subrange(0, i as int)),
            decreases self.consensus_keys.len() - i,
        {
            proof {
                let next = self.consensus_keys@.subrange(0, i + 1);
                assert(next.drop_last() =~= self.consensus_keys@.subrange(0, i as int));
                assert(next.last() == self.consensus_keys@[i as int]);
            }
            if self.consensus_keys[i].is_some() {
                plan.push(StakingWrite::ConsensusKey(i));
            }
            i += 1;
            assert(plan@ =~= head + key_writes(self.consensus_keys@.subrange(0, i as int)));
        }
        assert(self.consensus_keys@.subrange(0, i as int) =~= self.consensus_keys@);
        assert(head =~= seq![
            StakingWrite::Infos,
            StakingWrite::VotingPowers,
            StakingWrite::Commissions,
            StakingWrite::Statuses,
            StakingWrite::Descriptions,
        ]);
        plan
    }

    /// Whether the update holds, for each validator and in the validators'
    /// order, the rows of that validator at that height.
    pub open spec fn describes(&self, details: Seq<ValidatorDetail>, height: u64) -> bool {
        &&& self.infos@.len() == details.len()
        &&& self.voting_powers@.len() == details.len()
        &&& self.commissions@.len() == details.len()
        &&& self.statuses@.len() == details.len()
        &&& self.descriptions@.len() == details.len()
        &&& self.consensus_keys@.len() == details.len()
        &&& forall|i: int|
            0 <= i < details.len() ==> {
                &&& is_info(self.infos@[i], #[trigger] details[i], height)
                &&& is_voting_power(self.voting_powers@[i], details[i], height)
                &&& is_commission(self.commissions@[i], details[i], height)
                &&& is_status(self.statuses@[i], details[i], height)
                &&& is_description(self.descriptions@[i], details[i], height)
                &&& is_consensus_key(self.consensus_keys@[i], details[i])
            }
    }

    /// Whether the five series of `after` are those of `before` with the
    /// update written: each under the height gate, in the validators' order,
    /// absent rows left out.
    pub open spec fn written_series(&self, before: Database, after: Database) -> bool {
        &&& after.validator_infos@ == replay(
            Rule::HeightGated,
            before.validator_infos@,
            writes_of(self.infos@),
        )
        &&& after.validator_voting_powers@ == replay(
            Rule::HeightGated,
            before.validator_voting_powers@,
            writes_of(self.voting_powers@),
        )
        &&& after.validator_commissions@ == replay(
            Rule::HeightGated,
            before.validator_commissions@,
            writes_of(present(self.commissions@)),
        )
        &&& after.validator_statuses@ == replay(
            Rule::HeightGated,
            before.validator_statuses@,
            writes_of(present(self.statuses@)),
        )
        &&& after.validator_descriptions@ == replay(
            Rule::HeightGated,
            before.validator_descriptions@,
            writes_of(present(self.descriptions@)),
        )
    }

    /// Whether `after` is `before` with the update written: the five series,
    /// and the consensus keys bound to the stored validators that have them,
    /// in the validators' order; every other table as it was.
    pub open spec fn written(&self, before: Database, after: Database) -> bool {
        &&& self.written_series(before, after)
        &&& after.validators@ == bind_all(before.validators@, present(self.consensus_keys@))
        &&& after == (Database {
            validator_infos: after.validator_infos,
            validator_voting_powers: after.validator_voting_powers,
            validator_commissions: after.validator_commissions,
            validator_statuses: after.validator_statuses,
            validator_descriptions: after.validator_descriptions,
            validators: after.validators,
            ..before
        })
    }

    /// Whether `after` is `before` with the first `done` writes of the plan
    /// made.
    pub open spec fn written_upto(&self, before: Database, after: Database, done: int) -> bool {
        &&& after.validator_infos@ == if done >= 1 {
            replay(Rule::HeightGated, before.validator_infos@, writes_of(self.infos@))
        } else {
            before.validator_infos@
        }
        &&& after.validator_voting_powers@ == if done >= 2 {
            replay(Rule::HeightGated, before.validator_voting_powers@, writes_of(self.voting_powers@))
        } else {
            before.validator_voting_powers@
        }
        &&& after.validator_commissions@ == if done >= 3 {
            replay(
                Rule::HeightGated,
                before.validator_commissions@,
                writes_of(present(self.commissions@)),
            )
        } else {
            before.validator_commissions@
        }
        &&& after.validator_statuses@ == if done >= 4 {
            replay(Rule::HeightGated, before.validator_statuses@, writes_of(present(self.statuses@)))
        } else {
            before.validator_statuses@
        }
        &&& after.validator_descriptions@ == if done >= 5 {
            replay(
                Rule::HeightGated,
                before.validator_descriptions@,
                writes_of(present(self.descriptions@)),
            )
        } else {
            before.validator_descriptions@
        }
        &&& after.validators@ == if done > 5 {
            bind_all(before.validators@, present(self.consensus_keys@).subrange(0, done - 5))
        } else {
            before.validators@
        }
        &&& after == (Database {
            validator_infos: after.validator_infos,
            validator_voting_powers: after.validator_voting_powers,
            validator_commissions: after.validator_commissions,
            validator_statuses: after.validator_statuses,
            validator_descriptions: after.validator_descriptions,
            validators: after.validators,
            ..before
        })
    }

    /// Makes the writes of the update, one after the other in the order of
    /// its plan.
    pub fn save(&self, db: &mut Database)
        requires
            old(db).wf(),
        ensures
            final(db).wf(),
            self.written(*old(db), *final(db)),
    {
        let plan = self.plan();
        let count = self.consensus_keys.len();
        let ghost keys = present(self.consensus_keys@);
        let ghost head = seq![
            StakingWrite::Infos,
            StakingWrite::VotingPowers,
            StakingWrite::Commissions,
            StakingWrite::Statuses,
            StakingWrite::Descriptions,
        ];
        proof {
            lemma_key_writes(self.consensus_keys@);
        }
        let mut i: usize = 0;
        while i < plan.len()
            invariant
                i <= plan.len(),
                plan@ == plan_of(self.consensus_keys@),
                keys == present(self.consensus_keys@),
                key_writes(self.consensus_keys@).len() == keys.len(),
                forall|j: int|
                    0 <= j < keys.len() ==> names(
                        #[trigger] key_writes(self.consensus_keys@)[j],
                        self.consensus_keys@,
                        keys[j],
                    ),
                head == seq![
                    StakingWrite::Infos,
                    StakingWrite::VotingPowers,
                    StakingWrite::Commissions,
                    StakingWrite::Statuses,
                    StakingWrite::Descriptions,
                ],
                db.wf(),
                self.written_upto(*old(db), *db, i as int),
            decreases plan.len() - i,
        {
            let ghost j = i - 5;
            let ghost prev = *db;
            proof {
                assert(plan@ == head + key_writes(self.consensus_keys@));
                if i < 5 {
                    assert(plan@[i as int] == head[i as int]);
                }
                if i >= 5 {
                    assert(plan@[i as int] == key_writes(self.consensus_keys@)[j]);
                    assert(names(plan@[i as int], self.consensus_keys@, keys[j]));
                    assert(keys.subrange(0, j + 1).drop_last() =~= keys.subrange(0, j));
                    assert(keys.subrange(0, j + 1).last() == keys[j]);
                }
            }
            match plan[i] {
                StakingWrite::Infos => {
                    db.validator_infos.save_all(&self.infos);
                },
                StakingWrite::VotingPowers => {
                    db.validator_voting_powers.save_all(&self.voting_powers);
                },
                StakingWrite::Commissions => {
                    db.validator_commissions.save_present(&self.commissions);
                },
                StakingWrite::Statuses => {
                    db.validator_statuses.save_present(&self.statuses);
                },
                StakingWrite::Descriptions => {
                    db.validator_descriptions.save_present(&self.descriptions);
                },
                StakingWrite::ConsensusKey(at) => {
                    let key = self.consensus_keys[at].as_ref().unwrap();
                    key.save(db);
                    assert(*key == keys[j]);
                    assert(bind_all(old(db).validators@, keys.subrange(0, j)) == prev.validators@) by {
                        if j == 0 {
                            assert(keys.subrange(0, 0).len() == 0);
                        }
                    }
                    assert(db.validators@ == bind_all(old(db).validators@, keys.subrange(0, j + 1)));
                },
            }
            i += 1;
        }
        assert(keys.subrange(0, keys.len() as int) =~= keys);
    }
}

/// Whether a write is the write of the given consensus key, by its position
/// in the list of optional keys.
pub open spec fn names(
    w: StakingWrite,
    keys: Seq<Option<ValidatorConsensusKey>>,
    key: ValidatorConsensusKey,
) -> bool {
    w matches StakingWrite::ConsensusKey(at) && at < keys.len() && keys[at as int] == Some(key)
}

/// The consensus-key writes of a list of optional keys name, one by one and
/// in order, the keys that are present.
proof fn lemma_key_writes(keys: Seq<Option<ValidatorConsensusKey>>)
    requires
        keys.len() <= usize::MAX,
    ensures
        key_writes(keys).len() == present(keys).len(),
        forall|j: int|
            0 <= j < present(keys).len() ==> names(
                #[trigger] key_writes(keys)[j],
                keys,
                present(keys)[j],
            ),
    decreases keys.len(),
{
    if keys.len() > 0 {
        let front = keys.drop_last();
        lemma_key_writes(front);
        assert forall|j: int| 0 <= j < present(keys).len() implies names(
            #[trigger] key_writes(keys)[j],
            keys,
            present(keys)[j],
        ) by {
            if j < present(front).len() {
                assert(key_writes(keys)[j] == key_writes(front)[j]);
                assert(present(keys)[j] == present(front)[j]);
                assert(names(key_writes(front)[j], front, present(front)[j]));
                let at = key_writes(front)[j]->ConsensusKey_0;
                assert(front[at as int] == keys[at as int]);
            }
        }
    }
}

/// The text of an optional text: empty when absent.
fn text_or_empty(text: &Option<String>) -> (t: String)
    ensures
        t@ == or_empty(*text),
{
    match text {
        Some(t) => t.clone(),
        None => String::new(),
    }
}

impl StakingModule {
    /// The module; it holds no state of its own.
    pub fn new() -> (m: Self) {
        StakingModule {  }
    }

    /// Whether the update can take a validator's details: whether its stake
    /// is a 64-bit decimal number.
    pub fn is_complete(detail: &ValidatorDetail) -> (b: bool)
        ensures
            b == complete(*detail),
    {
        parse_i64(detail.stake.as_str()).is_some()
    }

    /// The rows that the validators' details amount to at `height`.
    pub fn validator_rows(height: u64, validator_infos: &Vec<ValidatorDetail>) -> (update:
        StakingUpdate)
        requires
            forall|i: int| 0 <= i < validator_infos@.len() ==> complete(#[trigger] validator_infos@[i]),
        ensures
            update.describes(validator_infos@, height),
    {
        let mut update = StakingUpdate {
            infos: Vec::new(),
            voting_powers: Vec::new(),
            commissions: Vec::new(),
            statuses: Vec::new(),
            descriptions: Vec::new(),
            consensus_keys: Vec::new(),
        };
        let mut i: usize = 0;
        while i < validator_infos.len()
            invariant
                i <= validator_infos.len(),
                forall|j: int|
                    0 <= j < validator_infos@.len() ==> complete(#[trigger] validator_infos@[j]),
                update.describes(validator_infos@.subrange(0, i as int), height),
            decreases validator_infos.len() - i,
        {
            let d = &validator_infos[i];
            let ghost before = update;
            let ghost seen = validator_infos@.subrange(0, i as int);
            let ghost next = validator_infos@.subrange(0, i + 1);
            assert(complete(validator_infos@[i as int]));
            let max_change_rate = match &d.commission {
                Some(c) => c.max_commission_change_per_epoch.clone(),
                None => String::new(),
            };
            update.infos.push(ValidatorInfo::new(d.address.clone(), max_change_rate, height));
            let voting_power = parse_i64(d.stake.as_str()).unwrap();
            update.voting_powers.push(
                ValidatorVotingPower::new(d.address.clone(), voting_power, height),
            );
            update.commissions.push(
                match &d.commission {
                    Some(c) => Some(
                        ValidatorCommission::new(
                            d.address.clone(),
                            c.commission_rate.clone(),
                            height,
                        ),
                    ),
                    None => None,
                },
            );
            update.statuses.push(
                match d.state {
                    Some(state) => Some(ValidatorStatus::new(d.address.clone(), state, height)),
                    None => None,
                },
            );
            update.descriptions.push(
                match &d.metadata {
                    Some(m) => Some(
                        ValidatorDescription::new(
                            d.address.clone(),
                            text_or_empty(&m.avatar),
                            text_or_empty(&m.website),
                            text_or_empty(&m.description),
                            height,
                        ),
                    ),
                    None => None,
                },
            );
            update.consensus_keys.push(
                match &d.consensus_key {
                    Some(k) => Some(ValidatorConsensusKey::new(k.clone(), d.address.clone())),
                    None => None,
                },
            );
            proof {
                assert forall|j: int| 0 <= j < next.len() implies {
                    &&& is_info(update.infos@[j], #[trigger] next[j], height)
                    &&& is_voting_power(update.voting_powers@[j], next[j], height)
                    &&& is_commission(update.commissions@[j], next[j], height)
                    &&& is_status(update.statuses@[j], next[j], height)
                    &&& is_description(update.descriptions@[j], next[j], height)
                    &&& is_consensus_key(update.consensus_keys@[j], next[j])
                } by {
                    if j < i {
                        assert(seen[j] == next[j]);
                        assert(update.infos@[j] == before.infos@[j]);
                        assert(update.voting_powers@[j] == before.voting_powers@[j]);
                        assert(update.commissions@[j] == before.commissions@[j]);
                        assert(update.statuses@[j] == before.statuses@[j]);
                        assert(update.descriptions@[j] == before.descriptions@[j]);
                        assert(update.consensus_keys@[j] == before.consensus_keys@[j]);
                    }
                }
            }
            i += 1;
        }
        assert(validator_infos@.subrange(0, i as int) =~= validator_infos@);
        update
    }

    /// Refreshes the validator series from the validators' details at an
    /// epoch edge; returns what was written.
    pub fn update_validators(
        db: &mut Database,
        height: u64,
        validator_infos: &Vec<ValidatorDetail>,
    ) -> (update: StakingUpdate)
        requires
            old(db).wf(),
            forall|i: int| 0 <= i < validator_infos@.len() ==> complete(#[trigger] validator_infos@[i]),
        ensures
            final(db).wf(),
            update.describes(validator_infos@, height),
            update.written(*old(db), *final(db)),
    {
        let update = Self::validator_rows(height, validator_infos);
        update.save(db);
        update
    }

    /// At an epoch edge the module refreshes the validator series.
    pub fn handle_epoch(
        db: &mut Database,
        height: u64,
        epoch: u64,
        validator_infos: &Vec<ValidatorDetail>,
    ) -> (update: StakingUpdate)
        requires
            old(db).wf(),
            forall|i: int| 0 <= i < validator_infos@.len() ==> complete(#[trigger] validator_infos@[i]),
        ensures
            final(db).wf(),
            update.describes(validator_infos@, height),
            update.written(*old(db), *final(db)),
    {
        Self::update_validators(db, height, validator_infos)
    }

    /// Messages are of no concern to the module.
    pub fn handle_message(db: &mut Database, message: &crate::database::Message)
        ensures
            *final(db) == *old(db),
    {
    }

    /// The module has no periodic work.
    pub fn register_periodic_operations() -> (operations: Vec<PeriodicOperation>)
        ensures
            operations@.len() == 0,
    {
        Vec::new()
    }
}

} // verus!

//! Validator records: the validator set and the per-validator series.

use crate::database::store::{replay, KeyView, Rule, TableView, Versioned};
use crate::database::table::{keep_present, present, writes_of, Key, Record};
use crate::database::Database;
use vstd::prelude::*;

verus! {

/// A member of the validator set.
pub struct Validator {
    pub consensus_address: String,
    pub consensus_pubkey: String,
    /// The validator's own address; unknown until its consensus key is bound
    /// to it.
    pub validator_address: Option<String>,
}

impl Validator {
    /// A member of the validator set whose own address is not known yet.
    pub fn new(consensus_address: String, consensus_pubkey: String) -> (v: Self)
        ensures
            v.consensus_address == consensus_address,
            v.consensus_pubkey == consensus_pubkey,
            v.validator_address is None,
    {
        Validator { consensus_address, consensus_pubkey, validator_address: None }
    }
}

impl Record for Validator {
    open spec fn key_view(&self) -> KeyView {
        KeyView::Text(self.consensus_address@)
    }

    open spec fn version(&self) -> int {
        0
    }

    fn key(&self) -> (k: Key) {
        Key::Text(self.consensus_address.clone())
    }

    fn gate(&self) -> (h: i64) {
        0
    }

    fn duplicate(&self) -> (copy: Self) {
        Validator {
            consensus_address: self.consensus_address.clone(),
            consensus_pubkey: self.consensus_pubkey.clone(),
            validator_address: match &self.validator_address {
                Some(address) => Some(address.clone()),
                None => None,
            },
        }
    }
}

/// A validator set, written in bulk.
pub struct Validators(pub Vec<Validator>);

impl Validators {
    /// The batch of the given rows.
    pub fn from(validators: Vec<Validator>) -> (set: Self)
        ensures
            set.0 == validators,
    {
        Validators(validators)
    }

    /// Adds the members not yet stored; members already stored stay as they
    /// are.
    pub fn save(&self, db: &mut Database)
        requires
            old(db).wf(),
        ensures
            final(db).wf(),
            final(db).validators@ == replay(
                Rule::InsertIfAbsent,
                old(db).validators@,
                writes_of(self.0@),
            ),
            *final(db) == (Database { validators: final(db).validators, ..*old(db) }),
    {
        db.validators.save_all(&self.0);
    }
}

/// A validator's bound on commission changes.
pub struct ValidatorInfo {
    pub consensus_address: String,
    pub max_change_rate: String,
    pub height: i64,
}

impl ValidatorInfo {
    /// The record with the given fields.
    pub fn new(consensus_address: String, max_change_rate: String, height: u64) -> (v: Self)
        ensures
            v.consensus_address == consensus_address,
            v.max_change_rate == max_change_rate,
            v.height == height as i64,
    {
        ValidatorInfo { consensus_address, max_change_rate, height: height as i64 }
    }
}

impl Record for ValidatorInfo {
    open spec fn key_view(&self) -> KeyView {
        KeyView::Text(self.consensus_address@)
    }

    open spec fn version(&self) -> int {
        self.height as int
    }

    fn key(&self) -> (k: Key) {
        Key::Text(self.consensus_address.clone())
    }

    fn gate(&self) -> (h: i64) {
        self.height
    }

    fn duplicate(&self) -> (copy: Self) {
        ValidatorInfo {
            consensus_address: self.consensus_address.clone(),
            max_change_rate: self.max_change_rate.clone(),
            height: self.height,
        }
    }
}

/// Validator infos, written in bulk.
pub struct ValidatorInfos(pub Vec<ValidatorInfo>);

impl ValidatorInfos {
    /// The batch of the given rows.
    pub fn from(infos: Vec<ValidatorInfo>) -> (set: Self)
        ensures
            set.0 == infos,
    {
        ValidatorInfos(infos)
    }

    /// Writes each info unless a newer one is stored for its validator.
    pub fn save(&self, db: &mut Database)
        requires
            old(db).wf(),
        ensures
            final(db).wf(),
            final(db).validator_infos@ == replay(
                Rule::HeightGated,
                old(db).validator_infos@,
                writes_of(self.0@),
            ),
            *final(db) == (Database { validator_infos: final(db).validator_infos, ..*old(db) }),
    {
        db.validator_infos.save_all(&self.0);
    }
}

/// A validator's voting power.
pub struct ValidatorVotingPower {
    pub validator_address: String,
    pub voting_power: i64,
    pub height: i64,
}

impl ValidatorVotingPower {
    /// The record with the given fields.
    pub fn new(validator_address: String, voting_power: i64, height: u64) -> (v: Self)
        ensures
            v.validator_address == validator_address,
            v.voting_power == voting_power,
            v.height == height as i64,
    {
        ValidatorVotingPower { validator_address, voting_power, height: height as i64 }
    }
}

impl Record for ValidatorVotingPower {
    open spec fn key_view(&self) -> KeyView {
        KeyView::Text(self.validator_address@)
    }

    open spec fn version(&self) -> int {
        self.height as int
    }

    fn key(&self) -> (k: Key) {
        Key::Text(self.validator_address.clone())
    }

    fn gate(&self) -> (h: i64) {
        self.height
    }

    fn duplicate(&self) -> (copy: Self) {
        ValidatorVotingPower {
            validator_address: self.validator_address.clone(),
            voting_power: self.voting_power,
            height: self.height,
        }
    }
}

/// Voting powers, written in bulk.
pub struct ValidatorVotingPowers(pub Vec<ValidatorVotingPower>);

impl ValidatorVotingPowers {
    /// The batch of the given rows.
    pub fn from(voting_powers: Vec<ValidatorVotingPower>) -> (set: Self)
        ensures
            set.0 == voting_powers,
    {
        ValidatorVotingPowers(voting_powers)
    }

    /// Writes each power unless a newer one is stored for its validator.
    pub fn save(&self, db: &mut Database)
        requires
            old(db).wf(),
        ensures
            final(db).wf(),
            final(db).validator_voting_powers@ == replay(
                Rule::HeightGated,
                old(db).validator_voting_powers@,
                writes_of(self.0@),
            ),
            *final(db) == (Database {
                validator_voting_powers: final(db).validator_voting_powers,
                ..*old(db)
            }),
    {
        db.validator_voting_powers.save_all(&self.0);
    }
}

/// A validator's commission rate, as decimal text.
pub struct ValidatorCommission {
    pub validator_address: String,
    pub commission_rate: String,
    pub height: i64,
}

impl ValidatorCommission {
    /// The record with the given fields.
    pub fn new(address: String, commission_rate: String, height: u64) -> (v: Self)
        ensures
            v.validator_address == address,
            v.commission_rate == commission_rate,
            v.height == height as i64,
    {
        ValidatorCommission { validator_address: address, commission_rate, height: height as i64 }
    }
}

impl Record for ValidatorCommission {
    open spec fn key_view(&self) -> KeyView {
        KeyView::Text(self.validator_address@)
    }

    open spec fn version(&self) -> int {
        self.height as int
    }

    fn key(&self) -> (k: Key) {
        Key::Text(self.validator_address.clone())
    }

    fn gate(&self) -> (h: i64) {
        self.height
    }

    fn duplicate(&self) -> (copy: Self) {
        ValidatorCommission {
            validator_address: self.validator_address.clone(),
            commission_rate: self.commission_rate.clone(),
            height: self.height,
        }
    }
}

/// Commissions, written in bulk.
pub struct ValidatorCommissions(pub Vec<ValidatorCommission>);

impl ValidatorCommissions {
    /// The commissions that are present, in order.
    pub fn from(commissions: Vec<Option<ValidatorCommission>>) -> (set: Self)
        ensures
            set.0@ == present(commissions@),
    {
        ValidatorCommissions(keep_present(commissions))
    }

    /// Writes each commission unless a newer one is stored for its validator.
    pub fn save(&self, db: &mut Database)
        requires
            old(db).wf(),
        ensures
            final(db).wf(),
            final(db).validator_commissions@ == replay(
                Rule::HeightGated,
                old(db).validator_commissions@,
                writes_of(self.0@),
            ),
            *final(db) == (Database {
                validator_commissions: final(db).validator_commissions,
                ..*old(db)
            }),
    {
        db.validator_commissions.save_all(&self.0);
    }
}

/// The states a validator can be in.
#[derive(Clone, Copy, Debug, PartialEq, Eq, Structural)]
pub enum ValidatorState {
    Consensus,
    BelowCapacity,
    BelowThreshold,
    Inactive,
    Jailed,
}

impl ValidatorState {
    /// The number under which a state is stored: its position in the list
    /// of states.
    pub open spec fn spec_code(self) -> int {
        match self {
            ValidatorState::Consensus => 0,
            ValidatorState::BelowCapacity => 1,
            ValidatorState::BelowThreshold => 2,
            ValidatorState::Inactive => 3,
            ValidatorState::Jailed => 4,
        }
    }

    /// The number under which a state is stored.
    pub fn code(self) -> (c: i64)
        ensures
            c == self.spec_code(),
    {
        match self {
            ValidatorState::Consensus => 0,
            ValidatorState::BelowCapacity => 1,
            ValidatorState::BelowThreshold => 2,
            ValidatorState::Inactive => 3,
            ValidatorState::Jailed => 4,
        }
    }
}

/// A validator's state.
pub struct ValidatorStatus {
    pub validator_address: String,
    pub status: i64,
    pub jailed: bool,
    pub height: i64,
}

impl ValidatorStatus {
    /// The record with the given fields.
    pub fn new(validator_address: String, state: ValidatorState, height: u64) -> (v: Self)
        ensures
            v.validator_address == validator_address,
            v.status == state.spec_code(),
            v.jailed == (state == ValidatorState::Jailed),
            v.height == height as i64,
    {
        ValidatorStatus {
            validator_address,
            status: state.code(),
            jailed: state == ValidatorState::Jailed,
            height: height as i64,
        }
    }
}

impl Record for ValidatorStatus {
    open spec fn key_view(&self) -> KeyView {
        KeyView::Text(self.validator_address@)
    }

    open spec fn version(&self) -> int {
        self.height as int
    }

    fn key(&self) -> (k: Key) {
        Key::Text(self.validator_address.clone())
    }

    fn gate(&self) -> (h: i64) {
        self.height
    }

    fn duplicate(&self) -> (copy: Self) {
        ValidatorStatus {
            validator_address: self.validator_address.clone(),
            status: self.status,
            jailed: self.jailed,
            height: self.height,
        }
    }
}

/// Statuses, written in bulk.
pub struct ValidatorStatuses(pub Vec<ValidatorStatus>);

impl ValidatorStatuses {
    /// The statuses that are present, in order.
    pub fn from(statuses: Vec<Option<ValidatorStatus>>) -> (set: Self)
        ensures
            set.0@ == present(statuses@),
    {
        ValidatorStatuses(keep_present(statuses))
    }

    /// Writes each status unless a newer one is stored for its validator.
    pub fn save(&self, db: &mut Database)
        requires
            old(db).wf(),
        ensures
            final(db).wf(),
            final(db).validator_statuses@ == replay(
                Rule::HeightGated,
                old(db).validator_statuses@,
                writes_of(self.0@),
            ),
            *final(db) == (Database {
                validator_statuses: final(db).validator_statuses,
                ..*old(db)
            }),
    {
        db.validator_statuses.save_all(&self.0);
    }
}

/// What a validator says of itself.
pub struct ValidatorDescription {
    pub validator_address: String,
    pub avatar_url: String,
    pub website: String,
    pub details: String,
    pub height: i64,
}

impl ValidatorDescription {
    /// The record with the given fields.
    pub fn new(
        validator_address: String,
        avatar_url: String,
        website: String,
        details: String,
        height: u64,
    ) -> (v: Self)
        ensures
            v.validator_address == validator_address,
            v.avatar_url == avatar_url,
            v.website == website,
            v.details == details,
            v.height == height as i64,
    {
        ValidatorDescription { validator_address, avatar_url, website, details, height: height as i64 }
    }
}

impl Record for ValidatorDescription {
    open spec fn key_view(&self) -> KeyView {
        KeyView::Text(self.validator_address@)
    }

    open spec fn version(&self) -> int {
        self.height as int
    }

    fn key(&self) -> (k: Key) {
        Key::Text(self.validator_address.clone())
    }

    fn gate(&self) -> (h: i64) {
        self.height
    }

    fn duplicate(&self) -> (copy: Self) {
        ValidatorDescription {
            validator_address: self.validator_address.clone(),
            avatar_url: self.avatar_url.clone(),
            website: self.website.clone(),
            details: self.details.clone(),
            height: self.height,
        }
    }
}

/// Descriptions, written in bulk.
pub struct ValidatorDescriptions(pub Vec<ValidatorDescription>);

impl ValidatorDescriptions {
    /// The descriptions that are present, in order.
    pub fn from(descriptions: Vec<Option<ValidatorDescription>>) -> (set: Self)
        ensures
            set.0@ == present(descriptions@),
    {
        ValidatorDescriptions(keep_present(descriptions))
    }

    /// Writes each description unless a newer one is stored for its
    /// validator.
    pub fn save(&self, db: &mut Database)
        requires
            old(db).wf(),
        ensures
            final(db).wf(),
            final(db).validator_descriptions@ == replay(
                Rule::HeightGated,
                old(db).validator_descriptions@,
                writes_of(self.0@),
            ),
            *final(db) == (Database {
                validator_descriptions: final(db).validator_descriptions,
                ..*old(db)
            }),
    {
        db.validator_descriptions.save_all(&self.0);
    }
}

/// The validator a consensus key belongs to.
pub struct ValidatorConsensusKey {
    pub consensus_pub_key: String,
    pub validator_address: String,
}

/// A stored validator after a consensus key was bound: the validator that
/// has the key takes the address that the key belongs to, any other stays.
pub open spec fn bound(key: ValidatorConsensusKey, v: Validator) -> Validator {
    if v.consensus_pubkey@ == key.consensus_pub_key@ {
        Validator { validator_address: Some(key.validator_address), ..v }
    } else {
        v
    }
}

/// The validator table after a consensus key was bound: the same validators,
/// each bound; no validator is added.
pub open spec fn bind(table: TableView<Validator>, key: ValidatorConsensusKey) -> TableView<
    Validator,
> {
    Map::new(
        |k: KeyView| table.contains_key(k),
        |k: KeyView| Versioned { height: table[k].height, row: bound(key, table[k].row) },
    )
}

/// The validator table after a list of consensus keys was bound, first to
/// last.
pub open spec fn bind_all(table: TableView<Validator>, keys: Seq<ValidatorConsensusKey>) -> TableView<
    Validator,
>
    decreases keys.len(),
{
    if keys.len() == 0 {
        table
    } else {
        bind(bind_all(table, keys.drop_last()), keys.last())
    }
}

impl ValidatorConsensusKey {
    /// The record with the given fields.
    pub fn new(consensus_pub_key: String, validator_address: String) -> (v: Self)
        ensures
            v.consensus_pub_key == consensus_pub_key,
            v.validator_address == validator_address,
    {
        ValidatorConsensusKey { consensus_pub_key, validator_address }
    }

    /// Binds the consensus key to its validator: every stored validator
    /// that has this key takes the address that the key belongs to. Where no
    /// stored validator has the key nothing changes.
    pub fn save(&self, db: &mut Database)
        requires
            old(db).wf(),
        ensures
            final(db).wf(),
            final(db).validators@ == bind(old(db).validators@, *self),
            *final(db) == (Database { validators: final(db).validators, ..*old(db) }),
    {
        let n = db.validators.len();
        let ghost start = db.validators.entries();
        let ghost before = db.validators@;
        let mut i: usize = 0;
        while i < n
            invariant
                i <= n,
                n == start.len(),
                db.wf(),
                *db == (Database { validators: db.validators, ..*old(db) }),
                db.validators.entries().len() == n,
                forall|j: int|
                    0 <= j < i ==> (#[trigger] db.validators.entries()[j]).key == start[j].key
                        && db.validators.entries()[j].value == (Versioned {
                        height: start[j].value.height,
                        row: bound(*self, start[j].value.row),
                    }),
                forall|j: int| i <= j < n ==> #[trigger] db.validators.entries()[j] == start[j],
            decreases n - i,
        {
            let _ = db.validators.len();
            let (_, row) = db.validators.row_at(i);
            if row.consensus_pubkey == self.consensus_pub_key {
                let mut next = row.duplicate();
                next.validator_address = Some(self.validator_address.clone());
                let ghost held = db.validators@;
                let ghost at = db.validators.entries()[i as int];
                assert(held.contains_key(at.key) && held[at.key] == at.value);
                db.validators.amend_at(i, next);
                assert forall|k: KeyView| #[trigger] db.validators@.contains_key(k) implies k
                    == db.validators@[k].row.key_view() && db.validators@[k].height
                    == db.validators@[k].row.version() by {
                    if k != at.key {
                        assert(held.contains_key(k));
                    }
                }
            }
            i += 1;
        }
        let _ = db.validators.len();
        proof {
            let end = db.validators.entries();
            let after = db.validators@;
            let target = bind(before, *self);
            assert forall|k: KeyView| target.contains_key(k) <==> after.contains_key(k) by {
                if before.contains_key(k) {
                    let j = choose|j: int| 0 <= j < start.len() && (#[trigger] start[j]).key == k;
                    assert(after.contains_key(end[j].key));
                }
                if after.contains_key(k) {
                    let j = choose|j: int| 0 <= j < end.len() && (#[trigger] end[j]).key == k;
                    assert(before.contains_key(start[j].key));
                }
            }
            assert forall|k: KeyView| target.contains_key(k) implies after[k] == target[k] by {
                let j = choose|j: int| 0 <= j < start.len() && (#[trigger] start[j]).key == k;
                assert(before[start[j].key] == start[j].value);
                assert(after[end[j].key] == end[j].value);
            }
            assert(after =~= target);
        }
    }
}

} // verus!

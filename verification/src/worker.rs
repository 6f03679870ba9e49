//! What a worker does with one height: the records it writes, in the order
//! in which it writes them, and what it does when the height fails.

use crate::chain::{
    has_date, Commit, CommitSig, ExecTxResult, NamadaTx, TmBlock, TmValidatorInfo,
};
use crate::database::block::total_gas;
use crate::database::store::{
    lemma_replay_absorbed, lemma_replay_holds, put, replay, KeyView, Rule,
};
use crate::database::table::{write_of, writes_of};
use crate::database::{Block, Database, Message, PreCommit, PreCommits, Tx, Validator, Validators};
use crate::error::Error;
use crate::modules::{all_modules, modules, Module};
use crate::utils::{
    addr_to_bech32, bech32_encoding, hex_encoding, is_first_match, sha256_digest, tx_hash,
    validator_index, ADDRESS_HRP,
};
use vstd::prelude::*;

verus! {

/// The epoch last seen by any worker. It never decreases.
pub struct EpochTracker {
    epoch: Option<u64>,
}

/// Whether an observed epoch is ahead of the tracked one.
pub open spec fn advanced(held: Option<u64>, observed: u64) -> bool {
    match held {
        Some(e) => observed > e,
        None => true,
    }
}

/// What is tracked after an epoch is observed.
pub open spec fn held_after(held: Option<u64>, observed: u64) -> Option<u64> {
    if advanced(held, observed) {
        Some(observed)
    } else {
        held
    }
}

/// What is tracked after a sequence of epochs is observed, first to last.
pub open spec fn held_after_all(held: Option<u64>, observed: Seq<u64>) -> Option<u64>
    decreases observed.len(),
{
    if observed.len() == 0 {
        held
    } else {
        held_after(held_after_all(held, observed.drop_last()), observed.last())
    }
}

/// Whether the `i`-th observation of a sequence, made by a tracker that
/// starts with nothing, is reported as an epoch edge.
pub open spec fn fires(observed: Seq<u64>, i: int) -> bool {
    advanced(held_after_all(None, observed.subrange(0, i)), observed[i])
}

impl EpochTracker {
    /// What is tracked.
    pub closed spec fn view(&self) -> Option<u64> {
        self.epoch
    }

    /// A tracker that has seen no epoch.
    pub fn new() -> (t: Self)
        ensures
            t.view() == None::<u64>,
    {
        EpochTracker { epoch: None }
    }

    /// The epoch last seen.
    pub fn current(&self) -> (e: Option<u64>)
        ensures
            e == self.view(),
    {
        self.epoch
    }

    /// Takes an observed epoch. When it is ahead of what is tracked it is
    /// tracked from now on and returned: an epoch edge. Otherwise nothing
    /// changes and nothing is returned.
    pub fn update_epoch(&mut self, epoch: u64) -> (edge: Option<u64>)
        ensures
            final(self).view() == held_after(old(self).view(), epoch),
            edge == if advanced(old(self).view(), epoch) {
                Some(epoch)
            } else {
                None
            },
            !advanced(final(self).view(), epoch),
            old(self).view() matches Some(e) ==> final(self).view() matches Some(f) && f >= e,
    {
        let ahead = match self.epoch {
            Some(e) => epoch > e,
            None => true,
        };
        if ahead {
            self.epoch = Some(epoch);
            Some(epoch)
        } else {
            None
        }
    }
}

/// After a non-empty, non-decreasing sequence of epochs the last one is
/// tracked.
proof fn lemma_sorted_tracks_last(observed: Seq<u64>)
    requires
        observed.len() > 0,
        forall|i: int, j: int| 0 <= i <= j < observed.len() ==> observed[i] <= observed[j],
    ensures
        held_after_all(None, observed) == Some(observed.last()),
    decreases observed.len(),
{
    let front = observed.drop_last();
    if front.len() > 0 {
        assert forall|i: int, j: int| 0 <= i <= j < front.len() implies front[i] <= front[j] by {
            assert(front[i] == observed[i] && front[j] == observed[j]);
        }
        lemma_sorted_tracks_last(front);
        assert(front.last() == observed[observed.len() - 2]);
        assert(observed[observed.len() - 2] <= observed[observed.len() - 1]);
    } else {
        assert(held_after_all(None::<u64>, front) == None::<u64>);
    }
}

/// Over heights whose epochs do not decrease, an epoch edge is reported
/// exactly at the first height of each epoch: once per distinct epoch.
pub proof fn lemma_edge_once_per_epoch(observed: Seq<u64>, i: int)
    requires
        0 <= i < observed.len(),
        forall|a: int, b: int| 0 <= a <= b < observed.len() ==> observed[a] <= observed[b],
    ensures
        fires(observed, i) <==> forall|j: int| 0 <= j < i ==> observed[j] != observed[i],
{
    let seen = observed.subrange(0, i);
    if i > 0 {
        assert forall|a: int, b: int| 0 <= a <= b < seen.len() implies seen[a] <= seen[b] by {
            assert(seen[a] == observed[a] && seen[b] == observed[b]);
        }
        lemma_sorted_tracks_last(seen);
        assert(seen.last() == observed[i - 1]);
        if observed[i - 1] < observed[i] {
            assert forall|j: int| 0 <= j < i implies observed[j] != observed[i] by {
                assert(observed[j] <= observed[i - 1]);
            }
        }
    }
}

/// Whatever the order of the epochs, an epoch that was reported as an edge
/// is never reported again.
pub proof fn lemma_edge_never_twice(observed: Seq<u64>, i: int, j: int)
    requires
        0 <= i < j < observed.len(),
        observed[i] == observed[j],
        fires(observed, i),
    ensures
        !fires(observed, j),
{
    lemma_held_reaches(observed.subrange(0, j), i);
    assert(observed.subrange(0, j).subrange(0, i) =~= observed.subrange(0, i));
}

/// Once an observation was taken, the tracked epoch is at least that
/// observation.
proof fn lemma_held_reaches(observed: Seq<u64>, i: int)
    requires
        0 <= i < observed.len(),
    ensures
        held_after_all(None, observed) matches Some(e) && e >= observed[i],
    decreases observed.len(),
{
    let front = observed.drop_last();
    if i < front.len() {
        lemma_held_reaches(front, i);
    }
}

/// One step of the work on a height.
#[derive(Clone, Copy, Debug, PartialEq, Eq, Structural)]
pub enum Step {
    /// Write the validator set.
    Validators,
    /// Write the block.
    Block,
    /// Ask the node for the height's epoch and, at an epoch edge, let every
    /// module handle it.
    Epoch,
    /// Write the pre-commits of the commit that closed the previous block.
    PreCommits,
    /// Write the transaction at the given position of the block and, if it
    /// succeeded, its message; the modules then hear of the message.
    Transaction(usize),
}

/// The steps of the work on a height, in the order in which they are done:
/// validators, block, epoch, pre-commits where the block carries a commit,
/// then the transactions in block order.
pub open spec fn steps_of(has_commit: bool, txs: nat) -> Seq<Step> {
    seq![Step::Validators, Step::Block, Step::Epoch] + (if has_commit {
        seq![Step::PreCommits]
    } else {
        Seq::empty()
    }) + Seq::new(txs, |i: int| Step::Transaction(i as usize))
}

/// The steps of the work on a block, in the order in which they are done.
pub fn steps(tm_block: &TmBlock) -> (plan: Vec<Step>)
    ensures
        plan@ == steps_of(tm_block.last_commit is Some, tm_block.data@.len()),
{
    let mut plan: Vec<Step> = Vec::new();
    plan.push(Step::Validators);
    plan.push(Step::Block);
    plan.push(Step::Epoch);
    if tm_block.last_commit.is_some() {
        plan.push(Step::PreCommits);
    }
    let ghost head = plan@;
    assert(head =~= seq![Step::Validators, Step::Block, Step::Epoch] + (if tm_block.last_commit
        is Some {
        seq![Step::PreCommits]
    } else {
        Seq::empty()
    }));
    let mut i: usize = 0;
    while i < tm_block.data.len()
        invariant
            i <= tm_block.data.len(),
            plan@ == head + Seq::new(i as nat, |j: int| Step::Transaction(j as usize)),
        decreases tm_block.data.len() - i,
    {
        plan.push(Step::Transaction(i));
        i += 1;
        assert(plan@ =~= head + Seq::new(i as nat, |j: int| Step::Transaction(j as usize)));
    }
    plan
}

/// The modules whose `handle_epoch` is called after an observation of the
/// epoch: every module at an epoch edge, none otherwise.
pub fn epoch_fan_out(edge: Option<u64>) -> (calls: Vec<Module>)
    ensures
        calls@ == if edge is Some {
            all_modules()
        } else {
            Seq::empty()
        },
{
    match edge {
        Some(_) => modules(),
        None => Vec::new(),
    }
}

/// Whether the message of a transaction is decoded once its record is
/// written: it is for a transaction that succeeded.
pub fn decodes(tx: &Tx) -> (b: bool)
    ensures
        b == tx.success,
{
    tx.success
}

/// One step of the work on a transaction.
#[derive(Clone, Copy, Debug, PartialEq, Eq, Structural)]
pub enum TxStep {
    /// Write the transaction record.
    Record,
    /// Write the message.
    Message,
    /// Call `handle_message` on the module.
    HandleMessage(Module),
}

/// The steps of the work on a transaction, in order: the record; then, where
/// the transaction yields a message, the message and after it every module.
pub open spec fn tx_steps_of(has_message: bool) -> Seq<TxStep> {
    if has_message {
        seq![
            TxStep::Record,
            TxStep::Message,
            TxStep::HandleMessage(Module::Staking),
            TxStep::HandleMessage(Module::Governance),
            TxStep::HandleMessage(Module::ConsensusTime),
        ]
    } else {
        seq![TxStep::Record]
    }
}

/// The steps of the work on a transaction whose record is `tx` and whose
/// payload decoded to `message`. A transaction that failed yields no
/// message whatever its payload.
pub fn tx_steps(tx: &Tx, message: &Option<Message>) -> (plan: Vec<TxStep>)
    ensures
        plan@ == tx_steps_of(tx.success && message is Some),
{
    let mut plan: Vec<TxStep> = Vec::new();
    plan.push(TxStep::Record);
    if tx.success && message.is_some() {
        plan.push(TxStep::Message);
        plan.push(TxStep::HandleMessage(Module::Staking));
        plan.push(TxStep::HandleMessage(Module::Governance));
        plan.push(TxStep::HandleMessage(Module::ConsensusTime));
    }
    assert(plan@ =~= tx_steps_of(tx.success && message is Some));
    plan
}

/// The modules whose `handle_message` is called after a message was
/// written: every module for a written message, none where there is none.
pub fn message_fan_out(written: &Option<Message>) -> (calls: Vec<Module>)
    ensures
        calls@ == if written is Some {
            all_modules()
        } else {
            Seq::empty()
        },
{
    match written {
        Some(_) => modules(),
        None => Vec::new(),
    }
}

/// The record of a member of the validator set.
pub open spec fn is_member(row: Validator, v: TmValidatorInfo) -> bool {
    &&& row.consensus_address@ == bech32_encoding(ADDRESS_HRP@, v.address@)
    &&& row.consensus_pubkey@ == v.pub_key@
}

/// Whether a commit signature yields a pre-commit: the validator voted for
/// the block and its signature is not empty.
pub open spec fn counts(sig: CommitSig) -> bool {
    sig matches CommitSig::BlockIdFlagCommit { signature, .. } && signature is Some
        && signature->0@.len() > 0
}

/// The signatures of a commit that yield a pre-commit, in order.
pub open spec fn counted(signatures: Seq<CommitSig>) -> Seq<CommitSig>
    decreases signatures.len(),
{
    if signatures.len() == 0 {
        Seq::empty()
    } else if counts(signatures.last()) {
        counted(signatures.drop_last()).push(signatures.last())
    } else {
        counted(signatures.drop_last())
    }
}

/// Every signature that yields a pre-commit is one of the commit's
/// signatures, is a vote for the block, and carries a signature that is not
/// empty.
pub proof fn lemma_counted_are_signed(signatures: Seq<CommitSig>, i: int)
    requires
        0 <= i < counted(signatures).len(),
    ensures
        counts(counted(signatures)[i]),
        counted(signatures)[i] is BlockIdFlagCommit,
        signatures.contains(counted(signatures)[i]),
    decreases signatures.len(),
{
    if signatures.len() > 0 {
        let front = signatures.drop_last();
        if counts(signatures.last()) && i == counted(front).len() {
            assert(signatures[signatures.len() - 1] == counted(signatures)[i]);
        } else {
            lemma_counted_are_signed(front, i);
            let j = choose|j: int| 0 <= j < front.len() && front[j] == counted(front)[i];
            assert(signatures[j] == counted(signatures)[i]);
        }
    }
}

/// The pre-commit of a signature that counts: the signer's address and the
/// time of the vote, with the power and priority that the validator set
/// gives the signer, both zero when the set does not hold the signer.
pub open spec fn is_pre_commit(
    row: PreCommit,
    sig: CommitSig,
    validators: Seq<TmValidatorInfo>,
    height: u64,
) -> bool {
    &&& sig is BlockIdFlagCommit
    &&& row.validator_address@ == bech32_encoding(
        ADDRESS_HRP@,
        sig->BlockIdFlagCommit_validator_address@,
    )
    &&& row.height == height as i64
    &&& row.timestamp == sig->BlockIdFlagCommit_timestamp@
    &&& has_date(row.timestamp)
    &&& forall|i: int| #[trigger]
        is_first_match(validators, sig->BlockIdFlagCommit_validator_address@, i)
            ==> row.voting_power == validators[i].power && row.proposer_priority
            == validators[i].proposer_priority
    &&& (forall|i: int|
        0 <= i < validators.len() ==> validators[i].address@
            != sig->BlockIdFlagCommit_validator_address@) ==> row.voting_power == 0
        && row.proposer_priority == 0
}

/// The record of a transaction.
pub open spec fn is_tx(
    row: Tx,
    height: u64,
    tx_results: ExecTxResult,
    raw_tx: Seq<u8>,
    namada_tx: NamadaTx,
) -> bool {
    &&& row.hash@ == hex_encoding(sha256_digest(raw_tx), true)
    &&& row.height == height as i64
    &&& row.success == (tx_results.code == 0)
    &&& row.memo@ == namada_tx.memo@
    &&& row.tx_type@ == namada_tx.tx_type.spec_name()
    &&& row.gas_wanted == tx_results.gas_wanted
    &&& row.gas_used == tx_results.gas_used
    &&& row.raw_log@ == tx_results.log@
}

/// The validator set of a block, as records.
pub fn validator_rows(tm_validators: &Vec<TmValidatorInfo>) -> (rows: Vec<Validator>)
    ensures
        rows@.len() == tm_validators@.len(),
        forall|i: int| 0 <= i < rows@.len() ==> is_member(#[trigger] rows@[i], tm_validators@[i]),
{
    let mut rows: Vec<Validator> = Vec::new();
    let mut i: usize = 0;
    while i < tm_validators.len()
        invariant
            i <= tm_validators.len(),
            rows@.len() == i,
            forall|j: int| 0 <= j < i ==> is_member(#[trigger] rows@[j], tm_validators@[j]),
        decreases tm_validators.len() - i,
    {
        let v = &tm_validators[i];
        rows.push(Validator::new(addr_to_bech32(&v.address), v.pub_key.clone()));
        i += 1;
    }
    rows
}

/// Whether the sink holds the block of a height and every member of its
/// validator set already.
pub open spec fn holds_block(db: Database, tm_block: TmBlock, tm_validators: Seq<TmValidatorInfo>) -> bool {
    &&& db.blocks@.contains_key(KeyView::Int(tm_block.height as i64 as int))
    &&& forall|i: int|
        0 <= i < tm_validators.len() ==> db.validators@.contains_key(
            KeyView::Text(bech32_encoding(ADDRESS_HRP@, (#[trigger] tm_validators[i]).address@)),
        )
}

/// Whether the sink holds the pre-commit of every signature of a commit
/// that counts already.
pub open spec fn holds_commit(db: Database, height: u64, commit: Commit) -> bool {
    forall|i: int|
        0 <= i < counted(commit.signatures@).len() ==> db.pre_commits@.contains_key(
            KeyView::IntText(
                height as i64 as int,
                bech32_encoding(
                    ADDRESS_HRP@,
                    (#[trigger] counted(
                        commit.signatures@,
                    )[i])->BlockIdFlagCommit_validator_address@,
                ),
            ),
        )
}

/// The first writes for a height: the validator set, then the block.
/// Returns the two as they were written. Afterwards the sink holds the
/// block and every member of the set; where it held them before, as after
/// an earlier run on the same height, nothing changes.
pub fn process_block(
    db: &mut Database,
    tm_block: &TmBlock,
    txs_results: &Vec<ExecTxResult>,
    tm_validators: &Vec<TmValidatorInfo>,
) -> (written: (Validators, Block))
    requires
        old(db).wf(),
        i64::MIN <= total_gas(txs_results@) <= i64::MAX,
    ensures
        final(db).wf(),
        written.0.0@.len() == tm_validators@.len(),
        forall|i: int|
            0 <= i < tm_validators@.len() ==> is_member(
                #[trigger] written.0.0@[i],
                tm_validators@[i],
            ),
        written.1.height == tm_block.height as i64,
        written.1.hash@ == tm_block.hash@,
        written.1.num_txs == tm_block.data@.len() as i32,
        written.1.total_gas == total_gas(txs_results@),
        written.1.proposer_address@ == bech32_encoding(ADDRESS_HRP@, tm_block.proposer_address@),
        written.1.timestamp == tm_block.time@,
        has_date(written.1.timestamp),
        final(db).validators@ == replay(
            Rule::InsertIfAbsent,
            old(db).validators@,
            writes_of(written.0.0@),
        ),
        final(db).blocks@ == put(Rule::InsertIfAbsent, old(db).blocks@, write_of(written.1)),
        *final(db) == (Database {
            validators: final(db).validators,
            blocks: final(db).blocks,
            ..*old(db)
        }),
        holds_block(*final(db), *tm_block, tm_validators@),
        holds_block(*old(db), *tm_block, tm_validators@) ==> final(db).validators@ == old(
            db,
        ).validators@ && final(db).blocks@ == old(db).blocks@,
{
    let validators = Validators::from(validator_rows(tm_validators));
    validators.save(db);
    let block = Block::from_tm_block(tm_block, txs_results);
    block.save(db);
    proof {
        let writes = writes_of(validators.0@);
        lemma_replay_holds(Rule::InsertIfAbsent, old(db).validators@, writes);
        assert forall|i: int| 0 <= i < tm_validators@.len() implies db.validators@.contains_key(
            KeyView::Text(bech32_encoding(ADDRESS_HRP@, (#[trigger] tm_validators@[i]).address@)),
        ) by {
            assert(is_member(validators.0@[i], tm_validators@[i]));
            assert(writes[i].key == KeyView::Text(validators.0@[i].consensus_address@));
        }
        if holds_block(*old(db), *tm_block, tm_validators@) {
            assert forall|i: int| 0 <= i < writes.len() implies old(db).validators@.contains_key(
                (#[trigger] writes[i]).key,
            ) by {
                assert(is_member(validators.0@[i], tm_validators@[i]));
                assert(old(db).validators@.contains_key(
                    KeyView::Text(bech32_encoding(ADDRESS_HRP@, tm_validators@[i].address@)),
                ));
            }
            lemma_replay_absorbed(old(db).validators@, writes);
        }
    }
    (validators, block)
}

/// Whether a commit signature yields a pre-commit.
fn is_counted(sig: &CommitSig) -> (b: bool)
    ensures
        b == counts(*sig),
{
    match sig {
        CommitSig::BlockIdFlagCommit { validator_address, timestamp, signature } => match signature {
            Some(bytes) => bytes.len() > 0,
            None => false,
        },
        _ => false,
    }
}

/// The pre-commits of a commit: one for each signature that counts, in the
/// order of the signatures.
pub fn pre_commit_rows(height: u64, commit: &Commit, validators: &Vec<TmValidatorInfo>) -> (rows:
    Vec<PreCommit>)
    ensures
        rows@.len() == counted(commit.signatures@).len(),
        forall|i: int|
            0 <= i < rows@.len() ==> is_pre_commit(
                #[trigger] rows@[i],
                counted(commit.signatures@)[i],
                validators@,
                height,
            ),
{
    let mut rows: Vec<PreCommit> = Vec::new();
    let mut i: usize = 0;
    while i < commit.signatures.len()
        invariant
            i <= commit.signatures.len(),
            rows@.len() == counted(commit.signatures@.subrange(0, i as int)).len(),
            forall|j: int|
                0 <= j < rows@.len() ==> is_pre_commit(
                    #[trigger] rows@[j],
                    counted(commit.signatures@.subrange(0, i as int))[j],
                    validators@,
                    height,
                ),
        decreases commit.signatures.len() - i,
    {
        let ghost seen = commit.signatures@.subrange(0, i as int);
        let ghost next = commit.signatures@.subrange(0, i + 1);
        proof {
            assert(next.drop_last() =~= seen);
            assert(next.last() == commit.signatures@[i as int]);
        }
        let sig = &commit.signatures[i];
        if is_counted(sig) {
            match sig {
                CommitSig::BlockIdFlagCommit { validator_address, timestamp, signature } => {
                    let ghost held = rows@;
                    rows.push(
                        PreCommit::from_tm_commit_sig(
                            height,
                            validator_address,
                            validators,
                            *timestamp,
                        ),
                    );
                    proof {
                        assert forall|j: int| 0 <= j < rows@.len() implies is_pre_commit(
                            #[trigger] rows@[j],
                            counted(next)[j],
                            validators@,
                            height,
                        ) by {
                            if j < held.len() {
                                assert(rows@[j] == held[j]);
                                assert(counted(next)[j] == counted(seen)[j]);
                            }
                        }
                    }
                },
                _ => {},
            }
        }
        i += 1;
    }
    assert(commit.signatures@.subrange(0, i as int) =~= commit.signatures@);
    rows
}

/// Whether a commit signature yields a pre-commit of a signer that the
/// validator set does not hold.
pub open spec fn is_stray(sig: CommitSig, validators: Seq<TmValidatorInfo>) -> bool {
    counts(sig) && forall|i: int|
        0 <= i < validators.len() ==> (#[trigger] validators[i]).address@
            != sig->BlockIdFlagCommit_validator_address@
}

/// The signatures of a commit that yield a pre-commit of a signer that the
/// validator set does not hold, in order.
pub open spec fn strays(signatures: Seq<CommitSig>, validators: Seq<TmValidatorInfo>) -> Seq<
    CommitSig,
>
    decreases signatures.len(),
{
    if signatures.len() == 0 {
        Seq::empty()
    } else if is_stray(signatures.last(), validators) {
        strays(signatures.drop_last(), validators).push(signatures.last())
    } else {
        strays(signatures.drop_last(), validators)
    }
}

/// The signers of a commit whose pre-commit is written with no power and no
/// priority because the validator set does not hold them, in the order of
/// the signatures; they are worth a line in the log.
pub fn unknown_signers(commit: &Commit, validators: &Vec<TmValidatorInfo>) -> (signers: Vec<
    [u8; 20],
>)
    ensures
        signers@.len() == strays(commit.signatures@, validators@).len(),
        forall|i: int|
            0 <= i < signers@.len() ==> (#[trigger] signers@[i])@ == strays(
                commit.signatures@,
                validators@,
            )[i]->BlockIdFlagCommit_validator_address@,
{
    let mut signers: Vec<[u8; 20]> = Vec::new();
    let mut i: usize = 0;
    while i < commit.signatures.len()
        invariant
            i <= commit.signatures.len(),
            signers@.len() == strays(commit.signatures@.subrange(0, i as int), validators@).len(),
            forall|j: int|
                0 <= j < signers@.len() ==> (#[trigger] signers@[j])@ == strays(
                    commit.signatures@.subrange(0, i as int),
                    validators@,
                )[j]->BlockIdFlagCommit_validator_address@,
        decreases commit.signatures.len() - i,
    {
        let ghost seen = commit.signatures@.subrange(0, i as int);
        let ghost next = commit.signatures@.subrange(0, i + 1);
        proof {
            assert(next.drop_last() =~= seen);
            assert(next.last() == commit.signatures@[i as int]);
        }
        let sig = &commit.signatures[i];
        if is_counted(sig) {
            match sig {
                CommitSig::BlockIdFlagCommit { validator_address, timestamp, signature } => {
                    let found = validator_index(validators, validator_address);
                    if found.is_none() {
                        let ghost held = signers@;
                        signers.push(*validator_address);
                        proof {
                            assert forall|j: int| 0 <= j < signers@.len() implies (
                            #[trigger] signers@[j])@ == strays(
                                next,
                                validators@,
                            )[j]->BlockIdFlagCommit_validator_address@ by {
                                if j < held.len() {
                                    assert(signers@[j] == held[j]);
                                }
                            }
                        }
                    } else {
                        assert(validators@[found->0 as int].address@ == validator_address@);
                    }
                },
                _ => {},
            }
        }
        i += 1;
    }
    assert(commit.signatures@.subrange(0, i as int) =~= commit.signatures@);
    signers
}

/// Writes the pre-commits of the commit that closed the previous block.
/// Returns them as they were written. Afterwards the sink holds a pre-commit
/// for every signature that counts; where it held them before, as after an
/// earlier run on the same height, nothing changes.
pub fn process_commit(
    db: &mut Database,
    height: u64,
    commit: &Commit,
    validators: &Vec<TmValidatorInfo>,
) -> (written: PreCommits)
    requires
        old(db).wf(),
    ensures
        final(db).wf(),
        written.0@.len() == counted(commit.signatures@).len(),
        forall|i: int|
            0 <= i < written.0@.len() ==> is_pre_commit(
                #[trigger] written.0@[i],
                counted(commit.signatures@)[i],
                validators@,
                height,
            ),
        final(db).pre_commits@ == replay(
            Rule::InsertIfAbsent,
            old(db).pre_commits@,
            writes_of(written.0@),
        ),
        *final(db) == (Database { pre_commits: final(db).pre_commits, ..*old(db) }),
        holds_commit(*final(db), height, *commit),
        holds_commit(*old(db), height, *commit) ==> final(db).pre_commits@ == old(db).pre_commits@,
{
    let pre_commits = PreCommits::from(pre_commit_rows(height, commit, validators));
    pre_commits.save(db);
    proof {
        let writes = writes_of(pre_commits.0@);
        let signed = counted(commit.signatures@);
        lemma_replay_holds(Rule::InsertIfAbsent, old(db).pre_commits@, writes);
        assert forall|i: int| 0 <= i < signed.len() implies db.pre_commits@.contains_key(
            KeyView::IntText(
                height as i64 as int,
                bech32_encoding(
                    ADDRESS_HRP@,
                    (#[trigger] signed[i])->BlockIdFlagCommit_validator_address@,
                ),
            ),
        ) by {
            assert(is_pre_commit(pre_commits.0@[i], signed[i], validators@, height));
            assert(writes[i].key == KeyView::IntText(
                pre_commits.0@[i].height as int,
                pre_commits.0@[i].validator_address@,
            ));
        }
        if holds_commit(*old(db), height, *commit) {
            assert forall|i: int| 0 <= i < writes.len() implies old(db).pre_commits@.contains_key(
                (#[trigger] writes[i]).key,
            ) by {
                assert(is_pre_commit(pre_commits.0@[i], signed[i], validators@, height));
                assert(old(db).pre_commits@.contains_key(
                    KeyView::IntText(
                        height as i64 as int,
                        bech32_encoding(
                            ADDRESS_HRP@,
                            signed[i]->BlockIdFlagCommit_validator_address@,
                        ),
                    ),
                ));
            }
            lemma_replay_absorbed(old(db).pre_commits@, writes);
        }
    }
    pre_commits
}

/// The record of one raw transaction. A raw transaction that is no
/// transaction envelope is an error.
pub fn tx_record(
    height: u64,
    tx_results: &ExecTxResult,
    raw_tx: &Vec<u8>,
    namada_tx: Option<&NamadaTx>,
) -> (record: Result<Tx, Error>)
    ensures
        match namada_tx {
            None => (record matches Err(Error::InvalidTxData(reason)) && reason@
                == "failed to parse raw transaction"@),
            Some(tx) => (record matches Ok(row) && is_tx(row, height, *tx_results, raw_tx@, *tx)),
        },
{
    let namada_tx = match namada_tx {
        Some(tx) => tx,
        None => {
            return Err(Error::InvalidTxData(String::from_str("failed to parse raw transaction")));
        },
    };
    let mut bytes: Vec<u8> = Vec::new();
    let mut i: usize = 0;
    while i < raw_tx.len()
        invariant
            i <= raw_tx.len(),
            bytes@ == raw_tx@.subrange(0, i as int),
        decreases raw_tx.len() - i,
    {
        bytes.push(raw_tx[i]);
        i += 1;
    }
    assert(bytes@ =~= raw_tx@);
    Ok(
        Tx::new(
            tx_hash(bytes),
            height as i64,
            tx_results.is_ok(),
            namada_tx.memo.clone(),
            namada_tx.tx_type.name(),
            tx_results.gas_wanted,
            tx_results.gas_used,
            tx_results.log.clone(),
        ),
    )
}

/// The key under which the record of a raw transaction is stored: its hash.
pub open spec fn tx_key(raw_tx: Seq<u8>) -> KeyView {
    KeyView::Text(hex_encoding(sha256_digest(raw_tx), true))
}

/// Writes the record of one raw transaction and returns it; whether the
/// transaction succeeded decides whether its message is decoded. A raw
/// transaction that is no transaction envelope is an error, and nothing is
/// written. Afterwards the sink holds a record under the transaction's hash;
/// where it held one before, as after an earlier run on the same height,
/// nothing changes.
pub fn process_tx(
    db: &mut Database,
    height: u64,
    tx_results: &ExecTxResult,
    raw_tx: &Vec<u8>,
    namada_tx: Option<&NamadaTx>,
) -> (written: Result<Tx, Error>)
    requires
        old(db).wf(),
    ensures
        final(db).wf(),
        match namada_tx {
            None => (written matches Err(Error::InvalidTxData(reason)) && reason@
                == "failed to parse raw transaction"@) && *final(db) == *old(db),
            Some(tx) => (written matches Ok(row) && is_tx(row, height, *tx_results, raw_tx@, *tx)
                && final(db).transactions@ == put(
                Rule::InsertIfAbsent,
                old(db).transactions@,
                write_of(row),
            )) && *final(db) == (Database { transactions: final(db).transactions, ..*old(db) })
                && final(db).transactions@.contains_key(tx_key(raw_tx@)) && (old(
                db,
            ).transactions@.contains_key(tx_key(raw_tx@)) ==> final(db).transactions@ == old(
                db,
            ).transactions@),
        },
{
    match tx_record(height, tx_results, raw_tx, namada_tx) {
        Ok(tx) => {
            tx.save(db);
            Ok(tx)
        },
        Err(e) => Err(e),
    }
}

/// Writes the message of a transaction, if its payload decoded to one, and
/// returns it; the modules then hear of it. Afterwards the sink holds a
/// message under the transaction's hash; where it held one before, as after
/// an earlier run on the same height, nothing changes.
pub fn process_message(
    db: &mut Database,
    height: u64,
    tx_hash: String,
    parsed: Result<Option<(String, String)>, Error>,
) -> (written: Option<Message>)
    requires
        old(db).wf(),
    ensures
        final(db).wf(),
        match parsed {
            Ok(Some(m)) => (written matches Some(msg) && msg.height == height as i64
                && msg.tx_hash == tx_hash && msg.message_type == m.0 && msg.value == m.1
                && final(db).messages@ == put(
                Rule::InsertIfAbsent,
                old(db).messages@,
                write_of(msg),
            )) && *final(db) == (Database { messages: final(db).messages, ..*old(db) })
                && final(db).messages@.contains_key(KeyView::Text(tx_hash@)) && (old(
                db,
            ).messages@.contains_key(KeyView::Text(tx_hash@)) ==> final(db).messages@ == old(
                db,
            ).messages@),
            _ => written is None && *final(db) == *old(db),
        },
{
    match Message::from_tx(height as i64, tx_hash, parsed) {
        Some(message) => {
            message.save(db);
            Some(message)
        },
        None => None,
    }
}

/// What reading one raw transaction gave: its envelope, if it is one, and
/// the message that its payload decoded to, if it decoded to one.
pub struct TxAnswer {
    pub envelope: Option<NamadaTx>,
    pub message: Option<(String, String)>,
}

/// Whether a transaction yields a message: it succeeded and its payload
/// decoded to one.
pub open spec fn yields_message(result: ExecTxResult, answer: TxAnswer) -> bool {
    result.code == 0 && answer.message is Some
}

/// Whether the sink holds the record of each of the first `n` transactions
/// of a block already, and the message of each that yields one.
pub open spec fn holds_txs(
    db: Database,
    tm_block: TmBlock,
    txs_results: Seq<ExecTxResult>,
    answers: Seq<TxAnswer>,
    n: int,
) -> bool {
    forall|i: int|
        0 <= i < n ==> db.transactions@.contains_key(tx_key((#[trigger] tm_block.data@[i])@)) && (
        yields_message(txs_results[i], answers[i]) ==> db.messages@.contains_key(
            tx_key(tm_block.data@[i]@),
        ))
}

/// Whether the sink holds all that the work on a height writes of the chain
/// itself: validators, block, pre-commits, transactions and messages.
pub open spec fn holds_height(
    db: Database,
    tm_block: TmBlock,
    txs_results: Seq<ExecTxResult>,
    tm_validators: Seq<TmValidatorInfo>,
    answers: Seq<TxAnswer>,
) -> bool {
    &&& holds_block(db, tm_block, tm_validators)
    &&& tm_block.last_commit matches Some(commit) ==> holds_commit(db, tm_block.height, commit)
    &&& holds_txs(db, tm_block, txs_results, answers, tm_block.data@.len() as int)
}

/// Whether two sinks hold the same validators, blocks, pre-commits,
/// transactions and messages.
pub open spec fn same_chain_tables(a: Database, b: Database) -> bool {
    &&& a.validators@ == b.validators@
    &&& a.blocks@ == b.blocks@
    &&& a.pre_commits@ == b.pre_commits@
    &&& a.transactions@ == b.transactions@
    &&& a.messages@ == b.messages@
}

/// Position of the first raw transaction, at or after `from`, that is no
/// envelope; the number of transactions when there is none.
pub open spec fn first_stray(answers: Seq<TxAnswer>, from: int) -> int
    decreases answers.len() - from,
{
    if from >= answers.len() {
        answers.len() as int
    } else if answers[from].envelope is None {
        from
    } else {
        first_stray(answers, from + 1)
    }
}

/// The positions, among the first `n` transactions, of those that yield a
/// message, ascending.
pub open spec fn yielding(txs_results: Seq<ExecTxResult>, answers: Seq<TxAnswer>, n: int) -> Seq<
    int,
>
    decreases n,
{
    if n <= 0 {
        Seq::empty()
    } else if yields_message(txs_results[n - 1], answers[n - 1]) {
        yielding(txs_results, answers, n - 1).push(n - 1)
    } else {
        yielding(txs_results, answers, n - 1)
    }
}

/// Whether `row` is the record of the transaction at position `i`.
pub open spec fn is_tx_at(
    row: Tx,
    tm_block: TmBlock,
    txs_results: Seq<ExecTxResult>,
    answers: Seq<TxAnswer>,
    i: int,
) -> bool {
    answers[i].envelope is Some && is_tx(
        row,
        tm_block.height,
        txs_results[i],
        tm_block.data@[i]@,
        answers[i].envelope->0,
    )
}

/// Whether `msg` is the message of the `j`-th of the first `n` transactions
/// that yield one: under that transaction's hash, what its payload decoded
/// to.
pub open spec fn is_message_at(
    msg: Message,
    tm_block: TmBlock,
    txs_results: Seq<ExecTxResult>,
    answers: Seq<TxAnswer>,
    n: int,
    j: int,
) -> bool {
    let at = yielding(txs_results, answers, n)[j];
    let decoded = answers[at].message->0;
    &&& 0 <= at < n
    &&& yields_message(txs_results[at], answers[at])
    &&& msg.height == tm_block.height as i64
    &&& msg.tx_hash@ == hex_encoding(sha256_digest(tm_block.data@[at]@), true)
    &&& msg.message_type@ == (decoded.0)@
    &&& msg.value@ == (decoded.1)@
}

/// Whether the rows are those that the work on a height starts with: the
/// validator set, the block, and a pre-commit for each signature that
/// counts.
pub open spec fn is_height_start(
    validators: Validators,
    block: Block,
    pre_commits: Seq<PreCommit>,
    tm_block: TmBlock,
    txs_results: Seq<ExecTxResult>,
    tm_validators: Seq<TmValidatorInfo>,
) -> bool {
    &&& validators.0@.len() == tm_validators.len()
    &&& forall|i: int|
        0 <= i < tm_validators.len() ==> is_member(#[trigger] validators.0@[i], tm_validators[i])
    &&& block.height == tm_block.height as i64
    &&& block.hash@ == tm_block.hash@
    &&& block.num_txs == tm_block.data@.len() as i32
    &&& block.total_gas == total_gas(txs_results)
    &&& block.proposer_address@ == bech32_encoding(ADDRESS_HRP@, tm_block.proposer_address@)
    &&& block.timestamp == tm_block.time@
    &&& match tm_block.last_commit {
        Some(commit) => pre_commits.len() == counted(commit.signatures@).len() && forall|i: int|
            0 <= i < pre_commits.len() ==> is_pre_commit(
                #[trigger] pre_commits[i],
                counted(commit.signatures@)[i],
                tm_validators,
                tm_block.height,
            ),
        None => pre_commits.len() == 0,
    }
}

/// What the work on a height wrote of the chain itself, in the order in
/// which it was written, and how the work ended.
pub struct HeightWritten {
    pub validators: Validators,
    pub block: Block,
    pub pre_commits: Vec<PreCommit>,
    pub transactions: Vec<Tx>,
    pub messages: Vec<Message>,
    pub outcome: Result<(), Error>,
}

impl HeightWritten {
    /// Whether the rows are those of the height: the validator set, the
    /// block, a pre-commit for each signature that counts, and, up to the
    /// first raw transaction that is no envelope, the record of each
    /// transaction and the message of each that yields one; and whether the
    /// outcome is a failure exactly when some raw transaction is no
    /// envelope.
    pub open spec fn describes(
        &self,
        tm_block: TmBlock,
        txs_results: Seq<ExecTxResult>,
        tm_validators: Seq<TmValidatorInfo>,
        answers: Seq<TxAnswer>,
    ) -> bool {
        let n = first_stray(answers, 0);
        &&& is_height_start(
            self.validators,
            self.block,
            self.pre_commits@,
            tm_block,
            txs_results,
            tm_validators,
        )
        &&& self.transactions@.len() == n
        &&& forall|i: int|
            0 <= i < n ==> #[trigger] is_tx_at(
                self.transactions@[i],
                tm_block,
                txs_results,
                answers,
                i,
            )
        &&& self.messages@.len() == yielding(txs_results, answers, n).len()
        &&& forall|j: int|
            0 <= j < self.messages@.len() ==> #[trigger] is_message_at(
                self.messages@[j],
                tm_block,
                txs_results,
                answers,
                n,
                j,
            )
        &&& match self.outcome {
            Ok(_) => n == answers.len(),
            Err(e) => n < answers.len() && (e matches Error::InvalidTxData(reason) && reason@
                == "failed to parse raw transaction"@),
        }
    }

    /// Whether `after` is `before` with the rows written, each table taking
    /// its rows first to last and keeping what it held; every other table as
    /// it was.
    pub open spec fn written(&self, before: Database, after: Database) -> bool {
        &&& after.validators@ == replay(
            Rule::InsertIfAbsent,
            before.validators@,
            writes_of(self.validators.0@),
        )
        &&& after.blocks@ == put(Rule::InsertIfAbsent, before.blocks@, write_of(self.block))
        &&& after.pre_commits@ == replay(
            Rule::InsertIfAbsent,
            before.pre_commits@,
            writes_of(self.pre_commits@),
        )
        &&& after.transactions@ == replay(
            Rule::InsertIfAbsent,
            before.transactions@,
            writes_of(self.transactions@),
        )
        &&& after.messages@ == replay(
            Rule::InsertIfAbsent,
            before.messages@,
            writes_of(self.messages@),
        )
        &&& after == (Database {
            validators: after.validators,
            blocks: after.blocks,
            pre_commits: after.pre_commits,
            transactions: after.transactions,
            messages: after.messages,
            ..before
        })
    }
}

/// The work on a height as far as it writes of the chain itself, in the
/// order of the steps: validators, block, pre-commits where the block
/// carries a commit, then for each transaction in block order its record
/// and, where it yields one, its message. What the modules write at an epoch
/// edge or on a message is theirs and is left out here.
///
/// The work ends in failure at the first raw transaction that is no
/// envelope, with all before it written. Where it succeeds the sink holds
/// all of the height afterwards; and where the sink held all of the height
/// before, as after an earlier run on the same height, nothing changes.
pub fn process_height(
    db: &mut Database,
    tm_block: &TmBlock,
    txs_results: &Vec<ExecTxResult>,
    tm_validators: &Vec<TmValidatorInfo>,
    answers: &Vec<TxAnswer>,
) -> (written: HeightWritten)
    requires
        old(db).wf(),
        i64::MIN <= total_gas(txs_results@) <= i64::MAX,
        txs_results@.len() == tm_block.data@.len(),
        answers@.len() == tm_block.data@.len(),
    ensures
        final(db).wf(),
        written.describes(*tm_block, txs_results@, tm_validators@, answers@),
        written.written(*old(db), *final(db)),
        written.outcome is Ok ==> holds_height(
            *final(db),
            *tm_block,
            txs_results@,
            tm_validators@,
            answers@,
        ),
        holds_height(*old(db), *tm_block, txs_results@, tm_validators@, answers@)
            ==> same_chain_tables(*old(db), *final(db)),
{
    let ghost held = holds_height(*old(db), *tm_block, txs_results@, tm_validators@, answers@);
    let (validators, block) = process_block(db, tm_block, txs_results, tm_validators);
    let pre_commits = match &tm_block.last_commit {
        Some(commit) => process_commit(db, tm_block.height, commit, tm_validators).0,
        None => {
            let none: Vec<PreCommit> = Vec::new();
            none
        },
    };
    let ghost mid = *db;
    let mut transactions: Vec<Tx> = Vec::new();
    let mut messages: Vec<Message> = Vec::new();
    let mut i: usize = 0;
    while i < tm_block.data.len()
        invariant
            i <= tm_block.data.len(),
            txs_results@.len() == tm_block.data@.len(),
            answers@.len() == tm_block.data@.len(),
            db.wf(),
            held == holds_height(*old(db), *tm_block, txs_results@, tm_validators@, answers@),
            *db == (Database { transactions: db.transactions, messages: db.messages, ..mid }),
            mid == (Database {
                validators: mid.validators,
                blocks: mid.blocks,
                pre_commits: mid.pre_commits,
                ..*old(db)
            }),
            holds_block(mid, *tm_block, tm_validators@),
            tm_block.last_commit matches Some(commit) ==> holds_commit(mid, tm_block.height, commit),
            is_height_start(
                validators,
                block,
                pre_commits@,
                *tm_block,
                txs_results@,
                tm_validators@,
            ),
            mid.validators@ == replay(
                Rule::InsertIfAbsent,
                old(db).validators@,
                writes_of(validators.0@),
            ),
            mid.blocks@ == put(Rule::InsertIfAbsent, old(db).blocks@, write_of(block)),
            mid.pre_commits@ == replay(
                Rule::InsertIfAbsent,
                old(db).pre_commits@,
                writes_of(pre_commits@),
            ),
            holds_txs(*db, *tm_block, txs_results@, answers@, i as int),
            first_stray(answers@, 0) == first_stray(answers@, i as int),
            transactions@.len() == i,
            forall|j: int|
                0 <= j < i ==> #[trigger] is_tx_at(
                    transactions@[j],
                    *tm_block,
                    txs_results@,
                    answers@,
                    j,
                ),
            db.transactions@ == replay(
                Rule::InsertIfAbsent,
                old(db).transactions@,
                writes_of(transactions@),
            ),
            messages@.len() == yielding(txs_results@, answers@, i as int).len(),
            forall|j: int|
                0 <= j < messages@.len() ==> #[trigger] is_message_at(
                    messages@[j],
                    *tm_block,
                    txs_results@,
                    answers@,
                    i as int,
                    j,
                ),
            db.messages@ == replay(
                Rule::InsertIfAbsent,
                old(db).messages@,
                writes_of(messages@),
            ),
            held ==> same_chain_tables(*old(db), *db),
        decreases tm_block.data.len() - i,
    {
        let ghost before = *db;
        let ghost txs_before = transactions@;
        let ghost msgs_before = messages@;
        let envelope = match &answers[i].envelope {
            Some(envelope) => Some(envelope),
            None => None,
        };
        let tx = match process_tx(db, tm_block.height, &txs_results[i], &tm_block.data[i], envelope) {
            Ok(tx) => tx,
            Err(e) => {
                assert(answers@[i as int].envelope is None);
                return HeightWritten {
                    validators,
                    block,
                    pre_commits,
                    transactions,
                    messages,
                    outcome: Err(e),
                };
            },
        };
        proof {
            if held {
                assert(old(db).transactions@.contains_key(tx_key(tm_block.data@[i as int]@)));
            }
        }
        let decode = decodes(&tx);
        let hash = tx.hash.clone();
        transactions.push(tx);
        proof {
            let writes = writes_of(transactions@);
            assert(writes.drop_last() =~= writes_of(txs_before));
            assert(writes.last() == write_of(tx));
            assert forall|j: int| 0 <= j < i + 1 implies #[trigger] is_tx_at(
                transactions@[j],
                *tm_block,
                txs_results@,
                answers@,
                j,
            ) by {
                if j < i {
                    assert(transactions@[j] == txs_before[j]);
                    assert(is_tx_at(txs_before[j], *tm_block, txs_results@, answers@, j));
                }
            }
        }
        if decode {
            let message = match &answers[i].message {
                Some((message_type, value)) => Ok(Some((message_type.clone(), value.clone()))),
                None => Ok(None),
            };
            proof {
                if held && answers@[i as int].message is Some {
                    assert(yields_message(txs_results@[i as int], answers@[i as int]));
                    assert(old(db).messages@.contains_key(tx_key(tm_block.data@[i as int]@)));
                }
            }
            match process_message(db, tm_block.height, hash, message) {
                Some(msg) => {
                    messages.push(msg);
                    proof {
                        let writes = writes_of(messages@);
                        assert(writes.drop_last() =~= writes_of(msgs_before));
                        assert(writes.last() == write_of(msg));
                    }
                },
                None => {},
            }
        }
        proof {
            let now = yielding(txs_results@, answers@, i + 1);
            let was = yielding(txs_results@, answers@, i as int);
            assert forall|j: int| 0 <= j < messages@.len() implies #[trigger] is_message_at(
                messages@[j],
                *tm_block,
                txs_results@,
                answers@,
                i + 1,
                j,
            ) by {
                if j < msgs_before.len() {
                    assert(messages@[j] == msgs_before[j]);
                    assert(is_message_at(
                        msgs_before[j],
                        *tm_block,
                        txs_results@,
                        answers@,
                        i as int,
                        j,
                    ));
                    assert(now[j] == was[j]);
                }
            }
            assert forall|j: int| 0 <= j < i + 1 implies db.transactions@.contains_key(
                tx_key((#[trigger] tm_block.data@[j])@),
            ) && (yields_message(txs_results@[j], answers@[j]) ==> db.messages@.contains_key(
                tx_key(tm_block.data@[j]@),
            )) by {
                if j < i {
                    assert(before.transactions@.contains_key(tx_key(tm_block.data@[j]@)));
                    if yields_message(txs_results@[j], answers@[j]) {
                        assert(before.messages@.contains_key(tx_key(tm_block.data@[j]@)));
                    }
                }
            }
        }
        i += 1;
    }
    HeightWritten { validators, block, pre_commits, transactions, messages, outcome: Ok(()) }
}

/// What a worker does once a height is through: a height that failed goes
/// back on the queue, whatever the failure; a height that succeeded does
/// not.
pub fn requeue<E>(height: u64, outcome: &Result<(), E>) -> (again: Option<u64>)
    ensures
        again == if outcome is Err {
            Some(height)
        } else {
            None
        },
{
    match outcome {
        Ok(_) => None,
        Err(_) => Some(height),
    }
}

} // verus!

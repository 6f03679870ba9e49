//! What the node client decides: how validator queries are batched, how the
//! answers about one validator are joined, and which absences are errors.

use crate::database::{TallyResult, TallyType, ValidatorState};
use crate::error::Error;
use vstd::prelude::*;

verus! {

/// Number of validators queried at a time.
pub const VALIDATOR_CHUNK: usize = 20;

/// A validator's commission rate and the bound on its change, as decimal
/// text.
pub struct CommissionPair {
    pub commission_rate: String,
    pub max_commission_change_per_epoch: String,
}

/// What a validator says of itself.
pub struct ValidatorMetaData {
    pub email: String,
    pub description: Option<String>,
    pub website: Option<String>,
    pub discord_handle: Option<String>,
    pub avatar: Option<String>,
}

/// All that is known of one validator at one epoch.
pub struct ValidatorDetail {
    /// The validator's address in its text form.
    pub address: String,
    pub state: Option<ValidatorState>,
    /// The validator's stake, as decimal text.
    pub stake: String,
    pub commission: Option<CommissionPair>,
    pub metadata: Option<ValidatorMetaData>,
    /// The validator's consensus key in its bech32 text form.
    pub consensus_key: Option<String>,
}

/// A proposal as the node stores it.
pub struct StorageProposal {
    pub id: u64,
    /// The proposal's content: keys and their texts, the keys in ascending
    /// order and each once.
    pub content: Vec<(String, String)>,
    /// The proposal's type as JSON text.
    pub type_json: String,
    /// The author's address in its text form.
    pub author: String,
    pub voting_start_epoch: u64,
    pub voting_end_epoch: u64,
    pub grace_epoch: u64,
}

/// The tally of a proposal as the node reports it; powers as decimal text.
pub struct ProposalResult {
    pub result: TallyResult,
    pub tally_type: TallyType,
    pub total_voting_power: String,
    pub total_yay_power: String,
    pub total_nay_power: String,
    pub total_abstain_power: String,
}

/// Where the chunk that starts at `start` ends, among `total` validators.
pub open spec fn chunk_end(total: int, start: int) -> int {
    if total - start <= VALIDATOR_CHUNK as int {
        total
    } else {
        start + VALIDATOR_CHUNK as int
    }
}

/// The chunk of validators to query next, as the half-open range of their
/// positions: it starts where the last one ended and holds at most
/// `VALIDATOR_CHUNK` validators. `None` once every validator was queried.
pub fn next_chunk(total: usize, done: usize) -> (chunk: Option<(usize, usize)>)
    ensures
        match chunk {
            Some((start, end)) => done < total && start == done && end == chunk_end(
                total as int,
                done as int,
            ) && start < end <= total,
            None => done >= total,
        },
{
    if done >= total {
        None
    } else if total - done <= VALIDATOR_CHUNK {
        Some((done, total))
    } else {
        Some((done, done + VALIDATOR_CHUNK))
    }
}

/// Position of the first failed answer, at or after `from`; the number of
/// answers when none failed.
pub open spec fn first_failure<T, E>(answers: Seq<Result<T, E>>, from: int) -> int
    decreases answers.len() - from,
{
    if from >= answers.len() {
        answers.len() as int
    } else if answers[from] is Err {
        from
    } else {
        first_failure(answers, from + 1)
    }
}

/// Adds the answers of one chunk to what was collected, in order; fails with
/// the first failure among them, and then adds nothing after it.
pub fn collect_chunk<T, E>(collected: &mut Vec<T>, answers: Vec<Result<T, E>>) -> (outcome: Result<
    (),
    E,
>)
    ensures
        ({
            let stop = first_failure(answers@, 0);
            &&& final(collected)@.len() == old(collected)@.len() + stop
            &&& forall|i: int|
                0 <= i < old(collected)@.len() ==> final(collected)@[i] == old(collected)@[i]
            &&& forall|i: int|
                0 <= i < stop ==> answers@[i] == Ok::<T, E>(
                    #[trigger] final(collected)@[old(collected)@.len() + i],
                )
            &&& match outcome {
                Ok(_) => stop == answers@.len(),
                Err(e) => stop < answers@.len() && answers@[stop] == Err::<T, E>(e),
            }
        }),
{
    let n = answers.len();
    let ghost all = answers@;
    let ghost start = collected@;
    let mut rest = answers;
    let mut taken: Vec<Result<T, E>> = Vec::new();
    // Answers leave `rest` from its end; `taken` then yields them first to
    // last.
    while rest.len() > 0
        invariant
            n == all.len(),
            rest@.len() + taken@.len() == all.len(),
            forall|i: int| 0 <= i < rest@.len() ==> rest@[i] == all[i],
            forall|i: int| 0 <= i < taken@.len() ==> taken@[i] == all[all.len() - 1 - i],
        decreases rest.len(),
    {
        match rest.pop() {
            Some(answer) => taken.push(answer),
            None => {},
        }
    }
    let mut i: usize = 0;
    while taken.len() > 0
        invariant
            all == answers@,
            start == old(collected)@,
            n == all.len(),
            i + taken@.len() == all.len(),
            forall|j: int| 0 <= j < taken@.len() ==> taken@[j] == all[all.len() - 1 - j],
            first_failure(all, 0) == first_failure(all, i as int),
            collected@.len() == start.len() + i,
            forall|j: int| 0 <= j < start.len() ==> collected@[j] == start[j],
            forall|j: int| 0 <= j < i ==> all[j] == Ok::<T, E>(#[trigger] collected@[start.len() + j]),
        decreases taken.len(),
    {
        match taken.pop() {
            Some(Ok(value)) => {
                collected.push(value);
                i += 1;
            },
            Some(Err(e)) => {
                return Err(e);
            },
            None => {},
        }
    }
    Ok(())
}

/// Joins the four answers about one validator. Any failed answer fails the
/// validator: a failed metadata answer first, then state, stake and
/// consensus key, in that order.
pub fn query_validator_info<E>(
    address: String,
    state: Result<Option<ValidatorState>, E>,
    stake: Result<String, E>,
    metadata: Result<(Option<ValidatorMetaData>, Option<CommissionPair>), E>,
    consensus_key: Result<Option<String>, E>,
) -> (joined: Result<ValidatorDetail, E>)
    ensures
        match (metadata, state, stake, consensus_key) {
            (Err(e), _, _, _) => joined == Err::<ValidatorDetail, E>(e),
            (Ok(_), Err(e), _, _) => joined == Err::<ValidatorDetail, E>(e),
            (Ok(_), Ok(_), Err(e), _) => joined == Err::<ValidatorDetail, E>(e),
            (Ok(_), Ok(_), Ok(_), Err(e)) => joined == Err::<ValidatorDetail, E>(e),
            (Ok(m), Ok(s), Ok(k), Ok(c)) => joined == Ok::<ValidatorDetail, E>(
                ValidatorDetail {
                    address,
                    state: s,
                    stake: k,
                    commission: m.1,
                    metadata: m.0,
                    consensus_key: c,
                },
            ),
        },
{
    let (metadata, commission) = match metadata {
        Ok(pair) => pair,
        Err(e) => {
            return Err(e);
        },
    };
    let state = match state {
        Ok(state) => state,
        Err(e) => {
            return Err(e);
        },
    };
    let stake = match stake {
        Ok(stake) => stake,
        Err(e) => {
            return Err(e);
        },
    };
    let consensus_key = match consensus_key {
        Ok(key) => key,
        Err(e) => {
            return Err(e);
        },
    };
    Ok(ValidatorDetail { address, state, stake, commission, metadata, consensus_key })
}

/// The transaction results of a block: none when the node reports none.
pub fn block_results<T>(txs_results: Option<Vec<T>>) -> (results: Vec<T>)
    ensures
        match txs_results {
            Some(r) => results == r,
            None => results@.len() == 0,
        },
{
    match txs_results {
        Some(r) => r,
        None => Vec::new(),
    }
}

/// The epoch of a height: an error when the node knows none.
pub fn epoch(found: Option<u64>) -> (epoch: Result<u64, Error>)
    ensures
        match found {
            Some(e) => epoch == Ok::<u64, Error>(e),
            None => epoch == Err::<u64, Error>(Error::EpochNotFound),
        },
{
    match found {
        Some(e) => Ok(e),
        None => Err(Error::EpochNotFound),
    }
}

/// What a proposal lookup amounts to for its caller: a proposal the node
/// does not know is no failure but an absent proposal; every other failure
/// stands.
pub fn proposal<T>(outcome: Result<T, Error>) -> (found: Result<Option<T>, Error>)
    ensures
        match outcome {
            Ok(p) => found == Ok::<Option<T>, Error>(Some(p)),
            Err(Error::ProposalNotFound) => found == Ok::<Option<T>, Error>(None),
            Err(e) => found == Err::<Option<T>, Error>(e),
        },
{
    match outcome {
        Ok(p) => Ok(Some(p)),
        Err(Error::ProposalNotFound) => Ok(None),
        Err(e) => Err(e),
    }
}

/// What a proposal-result lookup amounts to for its caller; as `proposal`.
pub fn proposal_result<T>(outcome: Result<T, Error>) -> (found: Result<Option<T>, Error>)
    ensures
        match outcome {
            Ok(p) => found == Ok::<Option<T>, Error>(Some(p)),
            Err(Error::ProposalNotFound) => found == Ok::<Option<T>, Error>(None),
            Err(e) => found == Err::<Option<T>, Error>(e),
        },
{
    proposal(outcome)
}

} // verus!

//! The governance module: proposals as they are submitted, voted on and
//! decided.

use crate::database::gov::{
    after_transition, lemma_transitioned_is_after, selected, transitioned, Selection, Transition,
};
use crate::database::store::{put, replay, KeyView, Rule, TableView};
use crate::database::table::{write_of, writes_of, Key, Record};
use crate::database::message::same_text;
use crate::database::{
    Database, Message, Proposal, ProposalStatus, ProposalTallyResult, ProposalVote,
};
use crate::modules::{PeriodicOperation, PeriodicTask};
use crate::node::{ProposalResult, StorageProposal};
use crate::utils::{ascending_keys, json_object_text, pairs_view};
use vstd::prelude::*;

verus! {

/// Seconds between two refreshes of the running tallies.
pub const TALLY_PERIOD_SECONDS: u64 = 600;

/// The governance module.
pub struct GovModule {}

/// What a message means to the governance module.
#[derive(Clone, Copy, Debug, PartialEq, Eq, Structural)]
pub enum GovInterest {
    /// A proposal was submitted.
    InitProposal,
    /// A vote was cast.
    VoteProposal,
    /// The message is of no concern.
    Nothing,
}

/// What a message of the given type means to the module.
pub open spec fn interest_of(message_type: Seq<char>) -> GovInterest {
    if message_type == "tx_init_proposal"@ {
        GovInterest::InitProposal
    } else if message_type == "tx_vote_proposal"@ {
        GovInterest::VoteProposal
    } else {
        GovInterest::Nothing
    }
}

/// What a message holds for the module, once it was read and the node was
/// asked.
pub enum GovContent {
    /// For a submitted proposal: what the node stores under the id that the
    /// message names.
    Proposal(Option<StorageProposal>),
    /// For a vote: the proposal, the voter and the vote as cast.
    Vote { id: u64, voter: String, vote: String },
    /// For any other message.
    Nothing,
}

/// What the module wrote for a message.
pub enum GovWritten {
    Proposal(Proposal),
    Vote(ProposalVote),
    Nothing,
}

/// One write that a result of the node brings about.
pub enum GovWrite {
    /// Write the tally.
    Tally(ProposalTallyResult),
    /// Decide the proposal `id`, if its end epoch has come and it is not
    /// decided yet.
    Decide { epoch: u64, id: i32, result: crate::database::TallyResult },
}

/// What one proposal may become when results come in at an epoch: it stays
/// as it is, or, being undecided and past its end epoch, it is decided; but
/// for its status nothing of it changes.
pub open spec fn decided(before: Proposal, after: Proposal, epoch: u64) -> bool {
    after == before || (after == (Proposal { status: after.status, ..before }) && !(before.status
        is Passed || before.status is Rejected) && before.voting_end_epoch <= epoch as i64 && (
    after.status is Passed || after.status is Rejected))
}

/// Whether every proposal of `before` is in `after`, at its height, as what
/// it may become when results come in at an epoch, and no other proposal is.
pub open spec fn all_decided(
    before: TableView<Proposal>,
    after: TableView<Proposal>,
    epoch: u64,
) -> bool {
    &&& after.dom() == before.dom()
    &&& forall|k: KeyView| #[trigger]
        before.contains_key(k) ==> after[k].height == before[k].height && decided(
            before[k].row,
            after[k].row,
            epoch,
        )
}

/// The proposals table after the node's answers for the ended proposals
/// were taken, first to last: each proposal that the node answered for is
/// decided by the verdict of its answer.
pub open spec fn after_results(
    table: TableView<Proposal>,
    epoch: u64,
    ended: Seq<Proposal>,
    answers: Seq<Option<ProposalResult>>,
) -> TableView<Proposal>
    decreases ended.len(),
{
    if ended.len() == 0 || answers.len() != ended.len() {
        table
    } else {
        let before = after_results(table, epoch, ended.drop_last(), answers.drop_last());
        match answers.last() {
            Some(t) => after_transition(
                before,
                Transition::Decide { epoch, id: ended.last().id, result: t.result },
            ),
            None => before,
        }
    }
}

/// The positions of the answers that hold a result, ascending.
pub open spec fn answered(answers: Seq<Option<ProposalResult>>) -> Seq<int>
    decreases answers.len(),
{
    if answers.len() == 0 {
        Seq::empty()
    } else if answers.last() is Some {
        answered(answers.drop_last()).push(answers.len() - 1)
    } else {
        answered(answers.drop_last())
    }
}

/// Whether `row` is the tally for the `j`-th answer that holds a result:
/// the tally of the proposal that the answer is for, stamped with `height`.
pub open spec fn is_tally_of_answer(
    row: ProposalTallyResult,
    ended: Seq<Proposal>,
    answers: Seq<Option<ProposalResult>>,
    height: u64,
    j: int,
) -> bool {
    let at = answered(answers)[j];
    0 <= at < answers.len() && answers[at] is Some && is_tally(
        row,
        ended[at].id,
        answers[at]->0,
        height,
    )
}

/// Whether `rows` holds, for each answer that holds a result and in the
/// order of the answers, the tally of the proposal that the answer is for,
/// stamped with `height`.
pub open spec fn are_tallies(
    rows: Seq<ProposalTallyResult>,
    ended: Seq<Proposal>,
    answers: Seq<Option<ProposalResult>>,
    height: u64,
) -> bool {
    &&& rows.len() == answered(answers).len()
    &&& forall|j: int|
        0 <= j < rows.len() ==> #[trigger] is_tally_of_answer(rows[j], ended, answers, height, j)
}

/// A proposal's status goes forward, if it goes at all, when results come
/// in: what it becomes may follow what it was.
pub proof fn lemma_decided_advances(before: Proposal, after: Proposal, epoch: u64)
    requires
        decided(before, after, epoch),
    ensures
        crate::database::gov::advances(before.status, after.status),
{
}

/// The text a proposal's content holds under a key, or a fallback. Where a
/// key occurs more than once its last text counts, as in a map filled entry
/// by entry.
pub open spec fn content_or(content: Seq<(String, String)>, key: Seq<char>, fallback: Seq<char>) -> Seq<
    char,
>
    decreases content.len(),
{
    if content.len() == 0 {
        fallback
    } else if content.last().0@ == key {
        content.last().1@
    } else {
        content_or(content.drop_last(), key, fallback)
    }
}

/// Whether `row` is the record of a proposal just submitted: taken from
/// what the node stores, stamped with the time of the block that carried it,
/// in its initial status.
pub open spec fn is_submitted(row: Proposal, p: StorageProposal, submit_time: i64) -> bool {
    &&& row.id == p.id as i32
    &&& row.title@ == content_or(p.content@, "title"@, "No title"@)
    &&& row.description@ == content_or(p.content@, "details"@, "No description"@)
    &&& row.metadata@ == json_object_text(pairs_view(p.content@))
    &&& row.content@ == p.type_json@
    &&& row.submit_time == submit_time
    &&& row.voting_start_epoch == p.voting_start_epoch as i64
    &&& row.voting_end_epoch == p.voting_end_epoch as i64
    &&& row.grace_epoch == p.grace_epoch as i64
    &&& row.proposer_address@ == p.author@
    &&& row.status == ProposalStatus::Init
}

/// Whether `row` is the tally of proposal `id` as the node reported it,
/// stamped with `height`.
pub open spec fn is_tally(row: ProposalTallyResult, id: i32, tally: ProposalResult, height: u64) -> bool {
    &&& row.proposal_id == id
    &&& row.tally_type@ == tally.tally_type.spec_name()
    &&& row.total@ == tally.total_voting_power@
    &&& row.yes@ == tally.total_yay_power@
    &&& row.no@ == tally.total_nay_power@
    &&& row.abstain@ == tally.total_abstain_power@
    &&& row.height == height as i64
}

/// The text a proposal's content holds under a key, or a fallback.
fn content_text(content: &Vec<(String, String)>, key: &str, fallback: &str) -> (text: String)
    ensures
        text@ == content_or(content@, key@, fallback@),
{
    let mut i: usize = content.len();
    assert(content@.subrange(0, i as int) =~= content@);
    while i > 0
        invariant
            i <= content.len(),
            content_or(content@, key@, fallback@) == content_or(
                content@.subrange(0, i as int),
                key@,
                fallback@,
            ),
        decreases i,
    {
        let ghost upto = content@.subrange(0, i as int);
        proof {
            assert(upto.last() == content@[i - 1]);
            assert(upto.drop_last() =~= content@.subrange(0, i - 1));
        }
        i -= 1;
        if same_text(content[i].0.as_str(), key) {
            return content[i].1.clone();
        }
    }
    String::from_str(fallback)
}

impl GovModule {
    /// The module; it holds no state of its own.
    pub fn new() -> (m: Self) {
        GovModule {  }
    }

    /// What a message means to the module, by its type.
    pub fn interest(message: &Message) -> (interest: GovInterest)
        ensures
            interest == interest_of(message.message_type@),
    {
        if same_text(message.message_type.as_str(), "tx_init_proposal") {
            GovInterest::InitProposal
        } else if same_text(message.message_type.as_str(), "tx_vote_proposal") {
            GovInterest::VoteProposal
        } else {
            GovInterest::Nothing
        }
    }

    /// The tally of proposal `id` as the node reported it, stamped with
    /// `height`.
    pub fn tally_row(id: i32, tally: &ProposalResult, height: u64) -> (row: ProposalTallyResult)
        ensures
            is_tally(row, id, *tally, height),
    {
        ProposalTallyResult::new(
            id as i64,
            tally.tally_type,
            tally.total_voting_power.clone(),
            tally.total_yay_power.clone(),
            tally.total_nay_power.clone(),
            tally.total_abstain_power.clone(),
            height,
        )
    }

    /// The record of a proposal just submitted: what the node stores of it,
    /// stamped with the time of the block that carried it, in its initial
    /// status. Title and description come from the proposal's content, under
    /// `title` and `details`.
    pub fn submitted_proposal(proposal: &StorageProposal, submit_time: i64) -> (row: Proposal)
        requires
            ascending_keys(proposal.content@),
        ensures
            is_submitted(row, *proposal, submit_time),
    {
        Proposal::new(
            proposal.id,
            content_text(&proposal.content, "title", "No title"),
            content_text(&proposal.content, "details", "No description"),
            &proposal.content,
            proposal.type_json.clone(),
            submit_time,
            proposal.voting_start_epoch,
            proposal.voting_end_epoch,
            proposal.grace_epoch,
            proposal.author.clone(),
            ProposalStatus::Init,
        )
    }

    /// Records a submitted proposal. `proposal` is what the node stores
    /// under the id that the message names: when the node stores none,
    /// nothing is written. The proposal is stamped with the time of the
    /// block that carried the message, which the sink must hold.
    pub fn handle_init_proposal(
        db: &mut Database,
        message: &Message,
        proposal: Option<&StorageProposal>,
    ) -> (saved: Option<Proposal>)
        requires
            old(db).wf(),
            old(db).blocks@.contains_key(KeyView::Int(message.height as int)),
            proposal matches Some(p) ==> ascending_keys(p.content@),
        ensures
            final(db).wf(),
            match proposal {
                None => saved is None && *final(db) == *old(db),
                Some(p) => saved is Some && is_submitted(
                    saved->0,
                    *p,
                    old(db).blocks@[KeyView::Int(message.height as int)].row.timestamp,
                ) && final(db).proposals@ == put(
                    Rule::InsertIfAbsent,
                    old(db).proposals@,
                    write_of(saved->0),
                ) && *final(db) == (Database { proposals: final(db).proposals, ..*old(db) }),
            },
    {
        let p = match proposal {
            Some(p) => p,
            None => {
                return None;
            },
        };
        let submit_time = db.blocks.get(&Key::Int(message.height)).unwrap().timestamp;
        let row = Self::submitted_proposal(p, submit_time);
        row.save(db);
        Some(row)
    }

    /// Records a vote, with its option normalized, at the height of the
    /// message that carried it.
    pub fn handle_vote_proposal(
        db: &mut Database,
        message: &Message,
        id: u64,
        voter: String,
        vote: String,
    ) -> (saved: ProposalVote)
        requires
            old(db).wf(),
        ensures
            final(db).wf(),
            saved.proposal_id == id as i32,
            saved.voter_address == voter,
            saved.option@ == crate::database::gov::normalized_option(vote@),
            saved.option@ != "yay"@ && saved.option@ != "nay"@,
            saved.height == message.height,
            final(db).proposal_votes@ == put(
                Rule::HeightGated,
                old(db).proposal_votes@,
                write_of(saved),
            ),
            *final(db) == (Database { proposal_votes: final(db).proposal_votes, ..*old(db) }),
    {
        let row = ProposalVote::new(id, voter, vote, message.height);
        row.save(db);
        row
    }

    /// At an epoch edge: opens the voting period of every proposal whose
    /// start epoch has come, then lists the proposals whose end epoch has
    /// come and that are not decided yet. Their results are to be asked of
    /// the node and handed to `handle_proposal_result`.
    pub fn handle_epoch(db: &mut Database, height: u64, epoch: u64) -> (ended: Vec<Proposal>)
        requires
            old(db).wf(),
        ensures
            final(db).wf(),
            transitioned(old(db).proposals@, final(db).proposals@, Transition::Open { epoch }),
            selected(final(db).proposals@, Selection::Ended { epoch }, ended@),
            *final(db) == (Database { proposals: final(db).proposals, ..*old(db) }),
    {
        Proposal::update_active_proposals_statuses_from_init(db, epoch);
        Proposal::voting_ended_proposals(db, epoch)
    }

    /// The writes that the node's result for a proposal whose end epoch has
    /// come brings about, in order: the tally at `height`, then the decision
    /// by its verdict; none when the node has no result.
    pub fn proposal_result_writes(
        height: u64,
        epoch: u64,
        proposal: &Proposal,
        tally: Option<&ProposalResult>,
    ) -> (writes: Vec<GovWrite>)
        ensures
            match tally {
                None => writes@.len() == 0,
                Some(t) => writes@.len() == 2 && (writes@[0] matches GovWrite::Tally(row)
                    && is_tally(row, proposal.id, *t, height)) && writes@[1] == (GovWrite::Decide {
                    epoch,
                    id: proposal.id,
                    result: t.result,
                }),
            },
    {
        let mut writes: Vec<GovWrite> = Vec::new();
        match tally {
            None => {},
            Some(t) => {
                writes.push(GovWrite::Tally(Self::tally_row(proposal.id, t, height)));
                writes.push(GovWrite::Decide { epoch, id: proposal.id, result: t.result });
            },
        }
        writes
    }

    /// Takes the node's result for a proposal whose end epoch has come: when
    /// there is one, its tally is written at `height` and the proposal is
    /// decided by its verdict; when there is none, nothing changes.
    pub fn handle_proposal_result(
        db: &mut Database,
        height: u64,
        epoch: u64,
        proposal: &Proposal,
        tally: Option<&ProposalResult>,
    ) -> (saved: Option<ProposalTallyResult>)
        requires
            old(db).wf(),
        ensures
            final(db).wf(),
            match tally {
                None => saved is None && *final(db) == *old(db),
                Some(t) => saved is Some && is_tally(saved->0, proposal.id, *t, height)
                    && final(db).proposal_tally_results@ == put(
                    Rule::HeightGated,
                    old(db).proposal_tally_results@,
                    write_of(saved->0),
                ) && transitioned(
                    old(db).proposals@,
                    final(db).proposals@,
                    Transition::Decide { epoch, id: proposal.id, result: t.result },
                ) && *final(db) == (Database {
                    proposal_tally_results: final(db).proposal_tally_results,
                    proposals: final(db).proposals,
                    ..*old(db)
                }),
            },
    {
        let writes = Self::proposal_result_writes(height, epoch, proposal, tally);
        if writes.len() != 2 {
            return None;
        }
        let saved = match &writes[0] {
            GovWrite::Tally(row) => {
                row.save(db);
                Some(row.duplicate())
            },
            GovWrite::Decide { epoch, id, result } => None,
        };
        match &writes[1] {
            GovWrite::Decide { epoch, id, result } => {
                Proposal::update_ended_proposal_status(db, *epoch, *id, *result);
            },
            GovWrite::Tally(row) => {},
        }
        saved
    }

    /// Takes the node's results for the proposals whose end epoch has come,
    /// one answer for each proposal and in the same order. For each answer
    /// that holds a result, first to last, the tally is written at `height`
    /// and the proposal is decided by the verdict; the tallies are returned
    /// as they were written. Whatever the answers, every stored proposal
    /// stays stored and either stays as it is or, being undecided and past
    /// its end epoch, is decided.
    pub fn handle_proposal_results(
        db: &mut Database,
        height: u64,
        epoch: u64,
        ended: &Vec<Proposal>,
        answers: &Vec<Option<ProposalResult>>,
    ) -> (written: Vec<ProposalTallyResult>)
        requires
            old(db).wf(),
            ended@.len() == answers@.len(),
        ensures
            final(db).wf(),
            are_tallies(written@, ended@, answers@, height),
            final(db).proposal_tally_results@ == replay(
                Rule::HeightGated,
                old(db).proposal_tally_results@,
                writes_of(written@),
            ),
            final(db).proposals@ == after_results(old(db).proposals@, epoch, ended@, answers@),
            all_decided(old(db).proposals@, final(db).proposals@, epoch),
            forall|k: KeyView| #[trigger]
                old(db).proposals@.contains_key(k) && final(db).proposals@[k].row != old(
                    db,
                ).proposals@[k].row ==> exists|i: int|
                    0 <= i < ended@.len() && (#[trigger] answers@[i]) is Some && ended@[i].id
                        == old(db).proposals@[k].row.id,
            *final(db) == (Database {
                proposal_tally_results: final(db).proposal_tally_results,
                proposals: final(db).proposals,
                ..*old(db)
            }),
    {
        let mut written: Vec<ProposalTallyResult> = Vec::new();
        let mut i: usize = 0;
        while i < ended.len()
            invariant
                i <= ended.len(),
                ended@.len() == answers@.len(),
                db.wf(),
                are_tallies(written@, ended@, answers@.subrange(0, i as int), height),
                db.proposal_tally_results@ == replay(
                    Rule::HeightGated,
                    old(db).proposal_tally_results@,
                    writes_of(written@),
                ),
                db.proposals@ == after_results(
                    old(db).proposals@,
                    epoch,
                    ended@.subrange(0, i as int),
                    answers@.subrange(0, i as int),
                ),
                all_decided(old(db).proposals@, db.proposals@, epoch),
                forall|k: KeyView| #[trigger]
                    old(db).proposals@.contains_key(k) && db.proposals@[k].row != old(
                        db,
                    ).proposals@[k].row ==> exists|j: int|
                        0 <= j < i && (#[trigger] answers@[j]) is Some && ended@[j].id == old(
                            db,
                        ).proposals@[k].row.id,
                *db == (Database {
                    proposal_tally_results: db.proposal_tally_results,
                    proposals: db.proposals,
                    ..*old(db)
                }),
            decreases ended.len() - i,
        {
            let ghost prev = db.proposals@;
            let ghost first = old(db).proposals@;
            let ghost rows = written@;
            let ghost seen = answers@.subrange(0, i as int);
            let ghost next_answers = answers@.subrange(0, i + 1);
            let ghost next_ended = ended@.subrange(0, i + 1);
            proof {
                assert(next_answers.drop_last() =~= seen);
                assert(next_answers.last() == answers@[i as int]);
                assert(next_ended.drop_last() =~= ended@.subrange(0, i as int));
                assert(next_ended.last() == ended@[i as int]);
            }
            let tally = match &answers[i] {
                Some(t) => Some(t),
                None => None,
            };
            match Self::handle_proposal_result(db, height, epoch, &ended[i], tally) {
                Some(row) => {
                    written.push(row);
                    proof {
                        lemma_transitioned_is_after(
                            prev,
                            db.proposals@,
                            Transition::Decide {
                                epoch,
                                id: ended@[i as int].id,
                                result: answers@[i as int]->0.result,
                            },
                        );
                        let writes = writes_of(written@);
                        assert(writes.drop_last() =~= writes_of(rows));
                        assert(writes.last() == write_of(row));
                        assert(answered(next_answers) == answered(seen).push(i as int));
                        assert forall|j: int| 0 <= j < written@.len() implies #[trigger] is_tally_of_answer(
                            written@[j],
                            ended@,
                            next_answers,
                            height,
                            j,
                        ) by {
                            if j < rows.len() {
                                assert(written@[j] == rows[j]);
                                assert(is_tally_of_answer(rows[j], ended@, seen, height, j));
                                assert(answered(next_answers)[j] == answered(seen)[j]);
                                assert(next_answers[answered(seen)[j]] == seen[answered(seen)[j]]);
                            } else {
                                assert(answered(next_answers)[j] == i);
                                assert(next_answers[i as int] == answers@[i as int]);
                            }
                        }
                        assert(written@.len() == answered(next_answers).len());
                        assert(are_tallies(written@, ended@, next_answers, height));
                    }
                },
                None => {
                    proof {
                        assert(answered(next_answers) == answered(seen));
                        assert forall|j: int| 0 <= j < written@.len() implies #[trigger] is_tally_of_answer(
                            written@[j],
                            ended@,
                            next_answers,
                            height,
                            j,
                        ) by {
                            assert(written@[j] == rows[j]);
                            assert(is_tally_of_answer(rows[j], ended@, seen, height, j));
                            assert(next_answers[answered(seen)[j]] == seen[answered(seen)[j]]);
                        }
                        assert(are_tallies(written@, ended@, next_answers, height));
                    }
                },
            }
            proof {
                let next = db.proposals@;
                assert(next.dom() =~= first.dom());
                assert forall|k: KeyView| #[trigger] first.contains_key(k) implies next[k].height
                    == first[k].height && decided(first[k].row, next[k].row, epoch) by {
                    assert(prev.contains_key(k));
                    assert(prev.dom().contains(k));
                }
                assert forall|k: KeyView| #[trigger]
                    first.contains_key(k) && next[k].row != first[k].row implies exists|j: int|
                    0 <= j < i + 1 && (#[trigger] answers@[j]) is Some && ended@[j].id
                        == first[k].row.id by {
                    assert(prev.contains_key(k));
                    if prev[k].row != first[k].row {
                        let j = choose|j: int|
                            0 <= j < i && (#[trigger] answers@[j]) is Some && ended@[j].id
                                == first[k].row.id;
                        assert(answers@[j] is Some);
                    } else {
                        assert(answers@[i as int] is Some);
                    }
                }
            }
            i += 1;
        }
        proof {
            assert(answers@.subrange(0, i as int) =~= answers@);
            assert(ended@.subrange(0, i as int) =~= ended@);
        }
        written
    }

    /// Handles one message: a submitted proposal is recorded as the node
    /// stores it, a vote is recorded with its option normalized, any other
    /// message is of no concern. `content` is what the message holds for the
    /// module; content that does not go with the message's type is left
    /// aside.
    pub fn handle_message(db: &mut Database, message: &Message, content: GovContent) -> (written:
        GovWritten)
        requires
            old(db).wf(),
            interest_of(message.message_type@) is InitProposal ==> (content
                matches GovContent::Proposal(Some(p)) ==> old(db).blocks@.contains_key(
                KeyView::Int(message.height as int),
            ) && ascending_keys(p.content@)),
        ensures
            final(db).wf(),
            match (interest_of(message.message_type@), content) {
                (GovInterest::InitProposal, GovContent::Proposal(Some(p))) => (written
                    matches GovWritten::Proposal(row) && is_submitted(
                    row,
                    p,
                    old(db).blocks@[KeyView::Int(message.height as int)].row.timestamp,
                ) && final(db).proposals@ == put(
                    Rule::InsertIfAbsent,
                    old(db).proposals@,
                    write_of(row),
                )) && *final(db) == (Database { proposals: final(db).proposals, ..*old(db) }),
                (GovInterest::VoteProposal, GovContent::Vote { id, voter, vote }) => (written
                    matches GovWritten::Vote(v) && v.proposal_id == id as i32 && v.voter_address
                    == voter && v.option@ == crate::database::gov::normalized_option(vote@)
                    && v.option@ != "yay"@ && v.option@ != "nay"@ && v.height == message.height
                    && final(db).proposal_votes@ == put(
                    Rule::HeightGated,
                    old(db).proposal_votes@,
                    write_of(v),
                )) && *final(db) == (Database {
                    proposal_votes: final(db).proposal_votes,
                    ..*old(db)
                }),
                _ => written is Nothing && *final(db) == *old(db),
            },
    {
        match (Self::interest(message), content) {
            (GovInterest::InitProposal, GovContent::Proposal(Some(p))) => {
                match Self::handle_init_proposal(db, message, Some(&p)) {
                    Some(row) => GovWritten::Proposal(row),
                    None => GovWritten::Nothing,
                }
            },
            (GovInterest::VoteProposal, GovContent::Vote { id, voter, vote }) => GovWritten::Vote(
                Self::handle_vote_proposal(db, message, id, voter, vote),
            ),
            _ => GovWritten::Nothing,
        }
    }

    /// Takes the node's running result for a proposal in its voting period:
    /// when there is one, its tally is written at `height`, the latest
    /// height of the chain.
    pub fn tally_active_proposals(
        db: &mut Database,
        height: u64,
        proposal: &Proposal,
        tally: Option<&ProposalResult>,
    ) -> (saved: Option<ProposalTallyResult>)
        requires
            old(db).wf(),
        ensures
            final(db).wf(),
            match tally {
                None => saved is None && *final(db) == *old(db),
                Some(t) => saved is Some && is_tally(saved->0, proposal.id, *t, height)
                    && final(db).proposal_tally_results@ == put(
                    Rule::HeightGated,
                    old(db).proposal_tally_results@,
                    write_of(saved->0),
                ) && *final(db) == (Database {
                    proposal_tally_results: final(db).proposal_tally_results,
                    ..*old(db)
                }),
            },
    {
        match tally {
            None => None,
            Some(t) => {
                let row = Self::tally_row(proposal.id, t, height);
                row.save(db);
                Some(row)
            },
        }
    }

    /// The refresh of the running tallies, every ten minutes.
    pub fn register_periodic_operations() -> (operations: Vec<PeriodicOperation>)
        ensures
            operations@.len() == 1,
            operations@[0].every_seconds == TALLY_PERIOD_SECONDS,
            operations@[0].task == PeriodicTask::TallyActiveProposals,
    {
        let mut operations: Vec<PeriodicOperation> = Vec::new();
        operations.push(
            PeriodicOperation { every_seconds: 600, task: PeriodicTask::TallyActiveProposals },
        );
        operations
    }
}

} // verus!

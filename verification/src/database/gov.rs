//! Governance records: proposals, votes and tallies.

use crate::database::store::{put, KeyView, Rule, TableView, Versioned};
use crate::database::table::{write_of, Key, Record};
use crate::database::Database;
use crate::utils::{ascending_keys, json_object, json_object_text, pairs_view};
use vstd::prelude::*;

verus! {

/// Where a proposal stands.
#[derive(Clone, Copy, Debug, PartialEq, Eq, Structural)]
pub enum ProposalStatus {
    Init,
    VotingPeriod,
    Passed,
    Rejected,
}

/// The verdict of a tally.
#[derive(Clone, Copy, Debug, PartialEq, Eq, Structural)]
pub enum TallyResult {
    Passed,
    Rejected,
}

/// The threshold a tally is held to.
#[derive(Clone, Copy, Debug, PartialEq, Eq, Structural)]
pub enum TallyType {
    TwoThirds,
    OneHalfOverOneThird,
    LessOneHalfOverOneThirdNay,
}

/// Whether a status may follow another in the life of one proposal: a
/// proposal stays where it is or moves forward along
/// init, voting period, passed or rejected; once passed or rejected it stays.
pub open spec fn advances(before: ProposalStatus, after: ProposalStatus) -> bool {
    match before {
        ProposalStatus::Init => true,
        ProposalStatus::VotingPeriod => !(after is Init),
        ProposalStatus::Passed => after is Passed,
        ProposalStatus::Rejected => after is Rejected,
    }
}

impl ProposalStatus {
    /// The text under which a status is stored.
    pub open spec fn spec_name(self) -> Seq<char> {
        match self {
            ProposalStatus::Init => "PROPOSAL_STATUS_INIT"@,
            ProposalStatus::VotingPeriod => "PROPOSAL_STATUS_VOTING_PERIOD"@,
            ProposalStatus::Passed => "PROPOSAL_STATUS_PASSED"@,
            ProposalStatus::Rejected => "PROPOSAL_STATUS_REJECTED"@,
        }
    }

    /// The text under which a status is stored.
    pub fn name(&self) -> (s: String)
        ensures
            s@ == self.spec_name(),
    {
        match self {
            ProposalStatus::Init => String::from_str("PROPOSAL_STATUS_INIT"),
            ProposalStatus::VotingPeriod => String::from_str("PROPOSAL_STATUS_VOTING_PERIOD"),
            ProposalStatus::Passed => String::from_str("PROPOSAL_STATUS_PASSED"),
            ProposalStatus::Rejected => String::from_str("PROPOSAL_STATUS_REJECTED"),
        }
    }

    /// Whether the proposal has been decided.
    pub fn is_final(&self) -> (b: bool)
        ensures
            b == (self is Passed || self is Rejected),
    {
        match self {
            ProposalStatus::Passed => true,
            ProposalStatus::Rejected => true,
            _ => false,
        }
    }
}

impl TallyResult {
    /// The status a proposal takes on this verdict.
    pub fn status(&self) -> (s: ProposalStatus)
        ensures
            s == match self {
                TallyResult::Passed => ProposalStatus::Passed,
                TallyResult::Rejected => ProposalStatus::Rejected,
            },
    {
        match self {
            TallyResult::Passed => ProposalStatus::Passed,
            TallyResult::Rejected => ProposalStatus::Rejected,
        }
    }
}

impl TallyType {
    /// The text under which a threshold is stored.
    pub open spec fn spec_name(self) -> Seq<char> {
        match self {
            TallyType::TwoThirds => "two_thirds"@,
            TallyType::OneHalfOverOneThird => "one_half_over_one_third"@,
            TallyType::LessOneHalfOverOneThirdNay => "less_one_half_over_one_third_nay"@,
        }
    }

    /// The text under which a threshold is stored.
    pub fn name(&self) -> (s: String)
        ensures
            s@ == self.spec_name(),
    {
        match self {
            TallyType::TwoThirds => String::from_str("two_thirds"),
            TallyType::OneHalfOverOneThird => String::from_str("one_half_over_one_third"),
            TallyType::LessOneHalfOverOneThirdNay => String::from_str(
                "less_one_half_over_one_third_nay",
            ),
        }
    }
}

/// A governance proposal.
pub struct Proposal {
    pub id: i32,
    pub title: String,
    pub description: String,
    /// The proposal's metadata, as JSON text.
    pub metadata: String,
    /// The proposal's content, as JSON text.
    pub content: String,
    /// Time of the block that carried the proposal, Unix seconds.
    pub submit_time: i64,
    pub voting_start_epoch: i64,
    pub voting_end_epoch: i64,
    pub grace_epoch: i64,
    pub proposer_address: String,
    pub status: ProposalStatus,
}

/// A change of status that an epoch brings about.
pub enum Transition {
    /// Voting opens for every proposal whose start epoch has come.
    Open { epoch: u64 },
    /// One proposal whose end epoch has come is decided.
    Decide { epoch: u64, id: i32, result: TallyResult },
}

/// Whether a transition touches a proposal.
pub open spec fn touches(t: Transition, p: Proposal) -> bool {
    match t {
        Transition::Open { epoch } => p.status is Init && p.voting_start_epoch <= epoch as i64,
        Transition::Decide { epoch, id, result } => p.id == id && p.voting_end_epoch <= epoch as i64
            && !(p.status is Passed || p.status is Rejected),
    }
}

/// The status a transition leads to.
pub open spec fn target(t: Transition) -> ProposalStatus {
    match t {
        Transition::Open { epoch } => ProposalStatus::VotingPeriod,
        Transition::Decide { epoch, id, result } => match result {
            TallyResult::Passed => ProposalStatus::Passed,
            TallyResult::Rejected => ProposalStatus::Rejected,
        },
    }
}

/// A proposal after a transition.
pub open spec fn moved(t: Transition, p: Proposal) -> Proposal {
    if touches(t, p) {
        Proposal { status: target(t), ..p }
    } else {
        p
    }
}

/// The proposals table after a transition: the same proposals, each moved.
pub open spec fn transitioned(
    before: TableView<Proposal>,
    after: TableView<Proposal>,
    t: Transition,
) -> bool {
    &&& after.dom() == before.dom()
    &&& forall|k: KeyView| #[trigger]
        before.contains_key(k) ==> after[k] == (Versioned {
            height: before[k].height,
            row: moved(t, before[k].row),
        })
}

/// The proposals table after a transition: the same proposals, each moved.
pub open spec fn after_transition(table: TableView<Proposal>, t: Transition) -> TableView<Proposal> {
    Map::new(
        |k: KeyView| table.contains_key(k),
        |k: KeyView| Versioned { height: table[k].height, row: moved(t, table[k].row) },
    )
}

/// A table that went through a transition is the table after it.
pub proof fn lemma_transitioned_is_after(
    before: TableView<Proposal>,
    after: TableView<Proposal>,
    t: Transition,
)
    requires
        transitioned(before, after, t),
    ensures
        after == after_transition(before, t),
{
    assert forall|k: KeyView| after.contains_key(k) <==> before.contains_key(k) by {
        assert(after.dom().contains(k) == before.dom().contains(k));
    }
    assert(after =~= after_transition(before, t));
}

/// A transition moves no proposal backwards: every proposal stays stored,
/// and its status after the transition may follow its status before.
pub proof fn lemma_transition_advances(
    before: TableView<Proposal>,
    after: TableView<Proposal>,
    t: Transition,
)
    requires
        transitioned(before, after, t),
    ensures
        forall|k: KeyView| #[trigger]
            before.contains_key(k) ==> after.contains_key(k) && advances(
                before[k].row.status,
                after[k].row.status,
            ),
{
    assert forall|k: KeyView| #[trigger] before.contains_key(k) implies after.contains_key(k)
        && advances(before[k].row.status, after[k].row.status) by {
        assert(after.dom().contains(k));
    }
}

/// What may follow may be followed again: a proposal's statuses over any
/// number of transitions go forward only.
pub proof fn lemma_advances_transitive(a: ProposalStatus, b: ProposalStatus, c: ProposalStatus)
    requires
        advances(a, b),
        advances(b, c),
    ensures
        advances(a, c),
{
}

/// A selection of proposals.
pub enum Selection {
    /// Those in their voting period.
    Voting,
    /// Those whose end epoch has come and that are not decided yet.
    Ended { epoch: u64 },
}

/// Whether a selection takes a proposal.
pub open spec fn selects(s: Selection, p: Proposal) -> bool {
    match s {
        Selection::Voting => p.status is VotingPeriod,
        Selection::Ended { epoch } => p.voting_end_epoch <= epoch as i64 && !(p.status is Passed
            || p.status is Rejected),
    }
}

/// Whether `found` lists exactly the stored proposals that a selection
/// takes, each once.
pub open spec fn selected(table: TableView<Proposal>, s: Selection, found: Seq<Proposal>) -> bool {
    &&& forall|i: int|
        0 <= i < found.len() ==> selects(s, #[trigger] found[i]) && table.contains_key(
            KeyView::Int(found[i].id as int),
        ) && table[KeyView::Int(found[i].id as int)].row == found[i]
    &&& forall|k: KeyView| #[trigger]
        table.contains_key(k) && selects(s, table[k].row) ==> found.contains(table[k].row)
    &&& forall|i: int, j: int|
        0 <= i < found.len() && 0 <= j < found.len() && i != j ==> (#[trigger] found[i]).id != (
        #[trigger] found[j]).id
}

impl Proposal {
    /// A proposal; its metadata is stored as the JSON text of the object
    /// that the given keys and texts make. The keys come in ascending order,
    /// each once, as a sorted map hands them out.
    pub fn new(
        id: u64,
        title: String,
        description: String,
        metadata: &Vec<(String, String)>,
        content: String,
        submit_time: i64,
        voting_start_epoch: u64,
        voting_end_epoch: u64,
        grace_epoch: u64,
        proposer: String,
        status: ProposalStatus,
    ) -> (p: Self)
        requires
            ascending_keys(metadata@),
        ensures
            p.id == id as i32,
            p.title == title,
            p.description == description,
            p.metadata@ == json_object_text(pairs_view(metadata@)),
            p.content == content,
            p.submit_time == submit_time,
            p.voting_start_epoch == voting_start_epoch as i64,
            p.voting_end_epoch == voting_end_epoch as i64,
            p.grace_epoch == grace_epoch as i64,
            p.proposer_address == proposer,
            p.status == status,
    {
        Proposal {
            id: id as i32,
            title,
            description,
            metadata: json_object(metadata),
            content,
            submit_time,
            voting_start_epoch: voting_start_epoch as i64,
            voting_end_epoch: voting_end_epoch as i64,
            grace_epoch: grace_epoch as i64,
            proposer_address: proposer,
            status,
        }
    }

    /// Stores the proposal unless one with its id is stored already; a
    /// stored proposal keeps its status.
    pub fn save(&self, db: &mut Database)
        requires
            old(db).wf(),
        ensures
            final(db).wf(),
            final(db).proposals@ == put(Rule::InsertIfAbsent, old(db).proposals@, write_of(*self)),
            *final(db) == (Database { proposals: final(db).proposals, ..*old(db) }),
    {
        db.proposals.save(self);
    }

    /// Opens the voting period of every stored proposal that is in its
    /// initial status and whose start epoch is at or before `epoch`.
    pub fn update_active_proposals_statuses_from_init(db: &mut Database, epoch: u64)
        requires
            old(db).wf(),
        ensures
            final(db).wf(),
            transitioned(old(db).proposals@, final(db).proposals@, Transition::Open { epoch }),
            *final(db) == (Database { proposals: final(db).proposals, ..*old(db) }),
    {
        apply_transition(db, Transition::Open { epoch });
    }

    /// Decides the stored proposal `id`, if its end epoch is at or before
    /// `epoch` and it is not decided yet.
    pub fn update_ended_proposal_status(db: &mut Database, epoch: u64, id: i32, result: TallyResult)
        requires
            old(db).wf(),
        ensures
            final(db).wf(),
            transitioned(
                old(db).proposals@,
                final(db).proposals@,
                Transition::Decide { epoch, id, result },
            ),
            *final(db) == (Database { proposals: final(db).proposals, ..*old(db) }),
    {
        apply_transition(db, Transition::Decide { epoch, id, result });
    }

    /// The stored proposals that are in their voting period.
    pub fn voting_proposals(db: &Database) -> (found: Vec<Proposal>)
        requires
            db.wf(),
        ensures
            selected(db.proposals@, Selection::Voting, found@),
    {
        select(db, Selection::Voting)
    }

    /// The stored proposals whose end epoch is at or before `epoch` and that
    /// are not decided yet.
    pub fn voting_ended_proposals(db: &Database, epoch: u64) -> (found: Vec<Proposal>)
        requires
            db.wf(),
        ensures
            selected(db.proposals@, Selection::Ended { epoch }, found@),
    {
        select(db, Selection::Ended { epoch })
    }
}

impl Record for Proposal {
    open spec fn key_view(&self) -> KeyView {
        KeyView::Int(self.id as int)
    }

    open spec fn version(&self) -> int {
        0
    }

    fn key(&self) -> (k: Key) {
        Key::Int(self.id as i64)
    }

    fn gate(&self) -> (h: i64) {
        0
    }

    fn duplicate(&self) -> (copy: Self) {
        Proposal {
            id: self.id,
            title: self.title.clone(),
            description: self.description.clone(),
            metadata: self.metadata.clone(),
            content: self.content.clone(),
            submit_time: self.submit_time,
            voting_start_epoch: self.voting_start_epoch,
            voting_end_epoch: self.voting_end_epoch,
            grace_epoch: self.grace_epoch,
            proposer_address: self.proposer_address.clone(),
            status: self.status,
        }
    }
}

/// Whether a transition touches a proposal.
fn is_touched(t: &Transition, p: &Proposal) -> (b: bool)
    ensures
        b == touches(*t, *p),
{
    match t {
        Transition::Open { epoch } => {
            let init = match p.status {
                ProposalStatus::Init => true,
                _ => false,
            };
            init && p.voting_start_epoch <= *epoch as i64
        },
        Transition::Decide { epoch, id, result } => p.id == *id && p.voting_end_epoch
            <= *epoch as i64 && !p.status.is_final(),
    }
}

/// The status a transition leads to.
fn target_of(t: &Transition) -> (s: ProposalStatus)
    ensures
        s == target(*t),
{
    match t {
        Transition::Open { epoch } => ProposalStatus::VotingPeriod,
        Transition::Decide { epoch, id, result } => result.status(),
    }
}

/// Moves every stored proposal that the transition touches.
fn apply_transition(db: &mut Database, t: Transition)
    requires
        old(db).wf(),
    ensures
        final(db).wf(),
        transitioned(old(db).proposals@, final(db).proposals@, t),
        *final(db) == (Database { proposals: final(db).proposals, ..*old(db) }),
{
    let n = db.proposals.len();
    let ghost start = db.proposals.entries();
    let ghost before = db.proposals@;
    let mut i: usize = 0;
    while i < n
        invariant
            i <= n,
            n == start.len(),
            db.wf(),
            *db == (Database { proposals: db.proposals, ..*old(db) }),
            db.proposals.entries().len() == n,
            forall|j: int|
                0 <= j < i ==> (#[trigger] db.proposals.entries()[j]).key == start[j].key
                    && db.proposals.entries()[j].value == (Versioned {
                    height: start[j].value.height,
                    row: moved(t, start[j].value.row),
                }),
            forall|j: int| i <= j < n ==> #[trigger] db.proposals.entries()[j] == start[j],
        decreases n - i,
    {
        let _ = db.proposals.len();
        let (_, row) = db.proposals.row_at(i);
        if is_touched(&t, row) {
            let mut next = row.duplicate();
            next.status = target_of(&t);
            let ghost held = db.proposals@;
            let ghost at = db.proposals.entries()[i as int];
            assert(held.contains_key(at.key) && held[at.key] == at.value);
            db.proposals.amend_at(i, next);
            assert forall|k: KeyView| #[trigger] db.proposals@.contains_key(k) implies k
                == db.proposals@[k].row.key_view() && db.proposals@[k].height
                == db.proposals@[k].row.version() by {
                if k != at.key {
                    assert(held.contains_key(k));
                }
            }
        }
        i += 1;
    }
    let _ = db.proposals.len();
    proof {
        let end = db.proposals.entries();
        let after = db.proposals@;
        assert forall|k: KeyView| before.contains_key(k) <==> after.contains_key(k) by {
            if before.contains_key(k) {
                let j = choose|j: int| 0 <= j < start.len() && (#[trigger] start[j]).key == k;
                assert(after.contains_key(end[j].key));
            }
            if after.contains_key(k) {
                let j = choose|j: int| 0 <= j < end.len() && (#[trigger] end[j]).key == k;
                assert(before.contains_key(start[j].key));
            }
        }
        assert(after.dom() =~= before.dom());
        assert forall|k: KeyView| #[trigger] before.contains_key(k) implies after[k] == (Versioned {
            height: before[k].height,
            row: moved(t, before[k].row),
        }) by {
            let j = choose|j: int| 0 <= j < start.len() && (#[trigger] start[j]).key == k;
            assert(before[start[j].key] == start[j].value);
            assert(after[end[j].key] == end[j].value);
        }
    }
}

/// Whether a selection takes a proposal.
fn is_selected(s: &Selection, p: &Proposal) -> (b: bool)
    ensures
        b == selects(*s, *p),
{
    match s {
        Selection::Voting => match p.status {
            ProposalStatus::VotingPeriod => true,
            _ => false,
        },
        Selection::Ended { epoch } => p.voting_end_epoch <= *epoch as i64 && !p.status.is_final(),
    }
}

/// The stored proposals that a selection takes.
fn select(db: &Database, s: Selection) -> (found: Vec<Proposal>)
    requires
        db.wf(),
    ensures
        selected(db.proposals@, s, found@),
{
    let n = db.proposals.len();
    let ghost entries = db.proposals.entries();
    let ghost table = db.proposals@;
    let mut found: Vec<Proposal> = Vec::new();
    let ghost mut from: Seq<int> = Seq::empty();
    let mut i: usize = 0;
    while i < n
        invariant
            i <= n,
            n == entries.len(),
            entries == db.proposals.entries(),
            from.len() == found@.len(),
            forall|a: int|
                0 <= a < found@.len() ==> 0 <= #[trigger] from[a] < i && found@[a]
                    == entries[from[a]].value.row && selects(s, found@[a]),
            forall|a: int, b: int|
                0 <= a < b < found@.len() ==> #[trigger] from[a] < #[trigger] from[b],
            forall|j: int|
                0 <= j < i && selects(s, (#[trigger] entries[j]).value.row) ==> found@.contains(
                    entries[j].value.row,
                ),
        decreases n - i,
    {
        let (_, row) = db.proposals.row_at(i);
        if is_selected(&s, row) {
            let ghost held = found@;
            let copy = row.duplicate();
            found.push(copy);
            proof {
                from = from.push(i as int);
                assert(found@[found@.len() - 1] == entries[i as int].value.row);
                assert forall|j: int|
                    0 <= j < i + 1 && selects(s, (#[trigger] entries[j]).value.row) implies found@.contains(
                    entries[j].value.row,
                ) by {
                    if j < i {
                        let a = choose|a: int| 0 <= a < held.len() && held[a] == entries[j].value.row;
                        assert(found@[a] == entries[j].value.row);
                    }
                }
            }
        }
        i += 1;
    }
    proof {
        assert forall|a: int| 0 <= a < found@.len() implies selects(s, #[trigger] found@[a])
            && table.contains_key(KeyView::Int(found@[a].id as int)) && table[KeyView::Int(
            found@[a].id as int,
        )].row == found@[a] by {
            let e = entries[from[a]];
            assert(table.contains_key(e.key) && table[e.key] == e.value);
        }
        assert forall|k: KeyView| #[trigger]
            table.contains_key(k) && selects(s, table[k].row) implies found@.contains(table[k].row) by {
            let j = choose|j: int| 0 <= j < entries.len() && (#[trigger] entries[j]).key == k;
            assert(table[entries[j].key] == entries[j].value);
        }
        assert forall|a: int, b: int|
            0 <= a < found@.len() && 0 <= b < found@.len() && a != b implies (#[trigger] found@[a]).id
            != (#[trigger] found@[b]).id by {
            let ea = entries[from[a]];
            let eb = entries[from[b]];
            if a < b {
                assert(from[a] < from[b]);
            } else {
                assert(from[b] < from[a]);
            }
            assert(ea.key != eb.key);
            assert(table.contains_key(ea.key) && table[ea.key] == ea.value);
            assert(table.contains_key(eb.key) && table[eb.key] == eb.value);
        }
    }
    found
}

/// The option a vote is stored under: `yay` becomes `yes`, `nay` becomes
/// `no`, anything else stays.
pub open spec fn normalized_option(option: Seq<char>) -> Seq<char> {
    if option == "yay"@ {
        "yes"@
    } else if option == "nay"@ {
        "no"@
    } else {
        option
    }
}

/// One voter's vote on one proposal.
pub struct ProposalVote {
    pub proposal_id: i32,
    pub voter_address: String,
    pub option: String,
    pub height: i64,
}

impl ProposalVote {
    /// A vote with its option normalized; the stored option is never `yay`
    /// nor `nay`.
    pub fn new(proposal_id: u64, voter: String, option: String, height: i64) -> (v: Self)
        ensures
            v.proposal_id == #[verifier::truncate] (proposal_id as i32),
            v.voter_address == voter,
            v.option@ == normalized_option(option@),
            v.option@ != "yay"@,
            v.option@ != "nay"@,
            v.height == height,
    {
        let yay = String::from_str("yay");
        let nay = String::from_str("nay");
        proof {
            reveal_strlit("yay");
            reveal_strlit("nay");
            reveal_strlit("yes");
            reveal_strlit("no");
            assert("yes"@[1] != "yay"@[1]);
            assert("yes"@[0] != "nay"@[0]);
            assert("no"@.len() != "yay"@.len());
            assert("no"@.len() != "nay"@.len());
        }
        let normal = if option == yay {
            String::from_str("yes")
        } else if option == nay {
            String::from_str("no")
        } else {
            option
        };
        ProposalVote {
            proposal_id: #[verifier::truncate] (proposal_id as i32),
            voter_address: voter,
            option: normal,
            height,
        }
    }

    /// Writes the vote unless a newer one of the same voter on the same
    /// proposal is stored.
    pub fn save(&self, db: &mut Database)
        requires
            old(db).wf(),
        ensures
            final(db).wf(),
            final(db).proposal_votes@ == put(
                Rule::HeightGated,
                old(db).proposal_votes@,
                write_of(*self),
            ),
            *final(db) == (Database { proposal_votes: final(db).proposal_votes, ..*old(db) }),
    {
        db.proposal_votes.save(self);
    }
}

impl Record for ProposalVote {
    open spec fn key_view(&self) -> KeyView {
        KeyView::IntText(self.proposal_id as int, self.voter_address@)
    }

    open spec fn version(&self) -> int {
        self.height as int
    }

    fn key(&self) -> (k: Key) {
        Key::IntText(self.proposal_id as i64, self.voter_address.clone())
    }

    fn gate(&self) -> (h: i64) {
        self.height
    }

    fn duplicate(&self) -> (copy: Self) {
        ProposalVote {
            proposal_id: self.proposal_id,
            voter_address: self.voter_address.clone(),
            option: self.option.clone(),
            height: self.height,
        }
    }
}

/// The running or final tally of one proposal.
pub struct ProposalTallyResult {
    pub proposal_id: i32,
    pub tally_type: String,
    pub total: String,
    pub yes: String,
    pub no: String,
    pub abstain: String,
    pub height: i64,
}

impl ProposalTallyResult {
    /// The record with the given fields.
    pub fn new(
        proposal_id: i64,
        tally_type: TallyType,
        total: String,
        yes: String,
        no: String,
        abstain: String,
        height: u64,
    ) -> (r: Self)
        ensures
            r.proposal_id == proposal_id as i32,
            r.tally_type@ == tally_type.spec_name(),
            r.total == total,
            r.yes == yes,
            r.no == no,
            r.abstain == abstain,
            r.height == height as i64,
    {
        ProposalTallyResult {
            proposal_id: proposal_id as i32,
            tally_type: tally_type.name(),
            total,
            yes,
            no,
            abstain,
            height: height as i64,
        }
    }

    /// Writes the tally unless a newer one of the same proposal is stored.
    pub fn save(&self, db: &mut Database)
        requires
            old(db).wf(),
        ensures
            final(db).wf(),
            final(db).proposal_tally_results@ == put(
                Rule::HeightGated,
                old(db).proposal_tally_results@,
                write_of(*self),
            ),
            *final(db) == (Database {
                proposal_tally_results: final(db).proposal_tally_results,
                ..*old(db)
            }),
    {
        db.proposal_tally_results.save(self);
    }
}

impl Record for ProposalTallyResult {
    open spec fn key_view(&self) -> KeyView {
        KeyView::Int(self.proposal_id as int)
    }

    open spec fn version(&self) -> int {
        self.height as int
    }

    fn key(&self) -> (k: Key) {
        Key::Int(self.proposal_id as i64)
    }

    fn gate(&self) -> (h: i64) {
        self.height
    }

    fn duplicate(&self) -> (copy: Self) {
        ProposalTallyResult {
            proposal_id: self.proposal_id,
            tally_type: self.tally_type.clone(),
            total: self.total.clone(),
            yes: self.yes.clone(),
            no: self.no.clone(),
            abstain: self.abstain.clone(),
            height: self.height,
        }
    }
}

} // verus!

//! Protocol governance: proposals carrying actions, voting with declared power,
//! execution after the voting period and an execution delay, cancellation by the
//! proposer, and delisting proposals with a notice period.
//!
//! Addresses are strings.

use vstd::prelude::*;
use crate::idmap::{distinct_ids, find_id, id_map, lemma_id_map_value, lemma_id_update, upsert_id};
use crate::keyed::{distinct_keys, find_key, to_map, upsert};
use crate::text::{dec_nat, u64_to_dec};

verus! {

/// Total supply the quorum is measured against.
pub const MOCK_TOTAL_SUPPLY: u64 = 10_000;
/// Notice period of a delisting when none is given (7 days).
pub const DEFAULT_NOTICE_PERIOD: u64 = 604_800;
/// Longest title (bytes).
pub const MAX_TITLE_BYTES: usize = 200;
/// Longest description (bytes).
pub const MAX_DESCRIPTION_BYTES: usize = 5000;

/// What a proposal action does.
#[derive(Debug, PartialEq, Eq)]
pub enum ActionType {
    Transfer,
    UpdateParameters,
    UpgradeContract,
    PauseContract,
    UnpauseContract,
    /// Delist an asset after a notice period, force-closing positions at `delist_at`.
    DelistAsset { asset_id: String, notice_period: u64, delist_at: u64 },
    Custom(String),
}

impl Clone for ActionType {
    fn clone(&self) -> (r: Self)
        ensures
            r == *self,
    {
        match self {
            ActionType::Transfer => ActionType::Transfer,
            ActionType::UpdateParameters => ActionType::UpdateParameters,
            ActionType::UpgradeContract => ActionType::UpgradeContract,
            ActionType::PauseContract => ActionType::PauseContract,
            ActionType::UnpauseContract => ActionType::UnpauseContract,
            ActionType::DelistAsset { asset_id, notice_period, delist_at } => ActionType::DelistAsset {
                asset_id: asset_id.clone(),
                notice_period: *notice_period,
                delist_at: *delist_at,
            },
            ActionType::Custom(s) => ActionType::Custom(s.clone()),
        }
    }
}

/// A copy of a list of strings.
pub(crate) fn clone_strings(v: &Vec<String>) -> (r: Vec<String>)
    ensures
        r@ == v@,
{
    let mut out: Vec<String> = Vec::new();
    let mut i: usize = 0;
    while i < v.len()
        invariant
            i <= v@.len(),
            out@ == v@.take(i as int),
        decreases v@.len() - i,
    {
        out.push(v[i].clone());
        proof {
            assert(out@ =~= v@.take(i + 1));
        }
        i = i + 1;
    }
    proof {
        assert(out@ =~= v@);
    }
    out
}

/// An action of a proposal: a call of `function` on `target`.
#[derive(Debug, PartialEq, Eq)]
pub struct ProposalAction {
    pub action_type: ActionType,
    pub target: String,
    pub function: String,
    pub parameters: Vec<String>,
    pub value: Option<u64>,
}

/// An action as a mathematical value.
pub struct ActionRecord {
    pub action_type: ActionType,
    pub target: Seq<char>,
    pub function: Seq<char>,
    pub parameters: Seq<Seq<char>>,
    pub value: Option<u64>,
}

/// The model of an action.
pub open spec fn action_record(a: ProposalAction) -> ActionRecord {
    ActionRecord {
        action_type: a.action_type,
        target: a.target@,
        function: a.function@,
        parameters: a.parameters@.map_values(|p: String| p@),
        value: a.value,
    }
}

/// The models of a list of actions.
pub open spec fn action_records(l: Seq<ProposalAction>) -> Seq<ActionRecord> {
    l.map_values(|a: ProposalAction| action_record(a))
}

impl Clone for ProposalAction {
    fn clone(&self) -> (r: Self)
        ensures
            action_record(r) == action_record(*self),
    {
        ProposalAction {
            action_type: self.action_type.clone(),
            target: self.target.clone(),
            function: self.function.clone(),
            parameters: clone_strings(&self.parameters),
            value: self.value,
        }
    }
}

/// A copy of a list of actions.
fn clone_actions(v: &Vec<ProposalAction>) -> (r: Vec<ProposalAction>)
    ensures
        action_records(r@) == action_records(v@),
{
    let mut out: Vec<ProposalAction> = Vec::new();
    let mut i: usize = 0;
    while i < v.len()
        invariant
            i <= v@.len(),
            action_records(out@) == action_records(v@.take(i as int)),
        decreases v@.len() - i,
    {
        let ghost before = out@;
        let c = v[i].clone();
        out.push(c);
        proof {
            assert(action_records(out@) =~= action_records(before).push(action_record(c)));
            assert(v@.take(i + 1) =~= v@.take(i as int).push(v@[i as int]));
            assert(action_records(v@.take(i + 1)) =~= action_records(v@.take(i as int)).push(action_record(v@[i as int])));
        }
        i = i + 1;
    }
    proof {
        assert(v@.take(v@.len() as int) =~= v@);
    }
    out
}

/// Lifecycle of a proposal.
#[derive(Clone, Copy, Debug, PartialEq, Eq, Structural)]
pub enum ProposalStatus {
    Active,
    Succeeded,
    Executed,
    Defeated,
    Cancelled,
    Expired,
}

/// A governance proposal.
#[derive(Debug, PartialEq, Eq)]
pub struct Proposal {
    pub id: u64,
    pub proposer: String,
    pub title: String,
    pub description: String,
    pub actions: Vec<ProposalAction>,
    pub votes_for: u64,
    pub votes_against: u64,
    pub total_voting_power: u64,
    pub created_at: u64,
    pub voting_deadline: u64,
    pub execution_time: u64,
    pub status: ProposalStatus,
}

/// A proposal as a mathematical value.
pub struct ProposalRecord {
    pub id: u64,
    pub proposer: Seq<char>,
    pub title: Seq<char>,
    pub description: Seq<char>,
    pub actions: Seq<ActionRecord>,
    pub votes_for: u64,
    pub votes_against: u64,
    pub total_voting_power: u64,
    pub created_at: u64,
    pub voting_deadline: u64,
    pub execution_time: u64,
    pub status: ProposalStatus,
}

/// The model of a proposal.
pub open spec fn proposal_record(p: Proposal) -> ProposalRecord {
    ProposalRecord {
        id: p.id,
        proposer: p.proposer@,
        title: p.title@,
        description: p.description@,
        actions: action_records(p.actions@),
        votes_for: p.votes_for,
        votes_against: p.votes_against,
        total_voting_power: p.total_voting_power,
        created_at: p.created_at,
        voting_deadline: p.voting_deadline,
        execution_time: p.execution_time,
        status: p.status,
    }
}

impl Clone for Proposal {
    fn clone(&self) -> (r: Self)
        ensures
            proposal_record(r) == proposal_record(*self),
    {
        Proposal {
            id: self.id,
            proposer: self.proposer.clone(),
            title: self.title.clone(),
            description: self.description.clone(),
            actions: clone_actions(&self.actions),
            votes_for: self.votes_for,
            votes_against: self.votes_against,
            total_voting_power: self.total_voting_power,
            created_at: self.created_at,
            voting_deadline: self.voting_deadline,
            execution_time: self.execution_time,
            status: self.status,
        }
    }
}

/// Parameters of the governance contract.
#[derive(Debug, PartialEq, Eq)]
pub struct GovernanceInfo {
    pub governance_token: String,
    pub quorum_percentage: u32,
    pub voting_period: u64,
    pub execution_delay: u64,
    pub proposal_threshold: u64,
}

/// Mathematical model of the governance contract.
pub struct GovernanceView {
    pub governance_token: Seq<char>,
    /// Quorum (basis points of the total supply).
    pub quorum_percentage: u32,
    pub voting_period: u64,
    pub execution_delay: u64,
    /// Voting power needed to propose.
    pub proposal_threshold: u64,
    /// Proposals by identifier.
    pub proposals: Map<u64, ProposalRecord>,
    /// Power each voter cast, by proposal.
    pub votes: Map<u64, Map<Seq<char>, u64>>,
    /// Identifier of the next proposal.
    pub next_proposal_id: u64,
}

/// The governance contract.
pub struct GovernanceContract {
    governance_token: String,
    quorum_percentage: u32,
    voting_period: u64,
    execution_delay: u64,
    proposal_threshold: u64,
    proposals: Vec<(u64, Proposal)>,
    votes: Vec<(u64, Vec<(String, u64)>)>,
    next_proposal_id: u64,
}

/// The vote tables, as maps.
pub open spec fn vote_map(s: Seq<(u64, Vec<(String, u64)>)>) -> Map<u64, Map<Seq<char>, u64>> {
    id_map(s).map_values(|l: Vec<(String, u64)>| to_map(l@))
}

impl View for GovernanceContract {
    type V = GovernanceView;

    closed spec fn view(&self) -> GovernanceView {
        GovernanceView {
            governance_token: self.governance_token@,
            quorum_percentage: self.quorum_percentage,
            voting_period: self.voting_period,
            execution_delay: self.execution_delay,
            proposal_threshold: self.proposal_threshold,
            proposals: id_map(self.proposals@).map_values(|p: Proposal| proposal_record(p)),
            votes: vote_map(self.votes@),
            next_proposal_id: self.next_proposal_id,
        }
    }
}

/// `r` is the error with text `msg`.
pub open spec fn fails_with<T>(r: Result<T, String>, msg: Seq<char>) -> bool {
    r matches Err(e) && e@ == msg
}

/// Byte length of a text, as `str::len` reports it.
pub open spec fn byte_len(s: Seq<char>) -> usize {
    vstd::utf8::encode_utf8(s).len() as usize
}

/// Votes needed for a quorum.
pub open spec fn quorum_votes(quorum: u32) -> int {
    MOCK_TOTAL_SUPPLY * quorum / 10_000
}

/// Whether a proposal reached the quorum and a majority.
pub open spec fn passed(p: ProposalRecord, quorum: u32) -> bool {
    p.total_voting_power >= quorum_votes(quorum) && p.votes_for > p.votes_against
}

/// Whether `voter` has voted on proposal `id`.
pub open spec fn has_voted(v: GovernanceView, id: u64, voter: Seq<char>) -> bool {
    v.votes.dom().contains(id) && v.votes[id].dom().contains(voter)
}

/// Why a proposal is refused, if it is: the proposer lacks the threshold's
/// voting power (which is 0), the title is not 1 to 200 bytes, the description
/// not 1 to 5 000 bytes, or there is no action.
pub open spec fn creation_refusal(v: GovernanceView, title: Seq<char>, description: Seq<char>, n_actions: nat) -> Option<
    Seq<char>,
> {
    if 0 < v.proposal_threshold {
        Some("Insufficient voting power to create a proposal"@)
    } else if title.len() == 0 || byte_len(title) > MAX_TITLE_BYTES {
        Some("Title must be 1-200 characters"@)
    } else if description.len() == 0 || byte_len(description) > MAX_DESCRIPTION_BYTES {
        Some("Description must be 1-5000 characters"@)
    } else if n_actions == 0 {
        Some("At least one action is required"@)
    } else {
        None
    }
}

/// The contract after a proposal is created at `now` under the next identifier.
pub open spec fn created(
    v: GovernanceView,
    proposer: Seq<char>,
    title: Seq<char>,
    description: Seq<char>,
    actions: Seq<ActionRecord>,
    now: u64,
) -> GovernanceView {
    let id = v.next_proposal_id;
    GovernanceView {
        proposals: v.proposals.insert(
            id,
            ProposalRecord {
                id,
                proposer,
                title,
                description,
                actions,
                votes_for: 0,
                votes_against: 0,
                total_voting_power: 0,
                created_at: now,
                voting_deadline: (now + v.voting_period) as u64,
                execution_time: (now + v.voting_period + v.execution_delay) as u64,
                status: ProposalStatus::Active,
            },
        ),
        next_proposal_id: (id + 1) as u64,
        ..v
    }
}

/// Whether `r` holds a proposal whose model is `rec`.
pub open spec fn returns_proposal(r: Option<Proposal>, rec: ProposalRecord) -> bool {
    match r {
        Some(p) => proposal_record(p) == rec,
        None => false,
    }
}

/// Notice period of a delisting: the given one, or 7 days when 0 is given.
pub open spec fn effective_notice(notice_period: u64) -> u64 {
    if notice_period == 0 { DEFAULT_NOTICE_PERIOD } else { notice_period }
}

/// Title of a delisting proposal.
pub open spec fn delisting_title(asset_id: Seq<char>) -> Seq<char> {
    "Delist asset: "@ + asset_id
}

/// Description of a delisting proposal.
pub open spec fn delisting_description(reason: Seq<char>, notice: u64, delist_at: u64) -> Seq<char> {
    reason + "\n\nNotice period: "@ + dec_nat(notice as nat) + " seconds. Positions can be closed until "@
        + dec_nat(delist_at as nat) + "."@
}

/// The one action of a delisting proposal.
pub open spec fn delisting_action(asset_id: String, notice: u64, delist_at: u64) -> ActionRecord {
    ActionRecord {
        action_type: ActionType::DelistAsset { asset_id, notice_period: notice, delist_at },
        target: "asset_registry"@,
        function: "delist_asset"@,
        parameters: seq![asset_id@, dec_nat(notice as nat), dec_nat(delist_at as nat)],
        value: None,
    }
}

impl GovernanceContract {
    /// Tables have one entry per key and every proposal is stored under its own
    /// identifier.
    pub closed spec fn wf(&self) -> bool {
        &&& distinct_ids(self.proposals@)
        &&& distinct_ids(self.votes@)
        &&& forall|i: int| 0 <= i < self.votes@.len() ==> distinct_keys((#[trigger] self.votes@[i]).1@)
        &&& forall|k: u64| #[trigger] id_map(self.proposals@).dom().contains(k) ==> id_map(self.proposals@)[k].id == k
            && id_map(self.proposals@)[k].votes_for + id_map(self.proposals@)[k].votes_against == id_map(
            self.proposals@,
        )[k].total_voting_power
    }

    /// A contract with the given parameters and no proposals.
    pub fn new(
        governance_token: String,
        quorum_percentage: u32,
        voting_period: u64,
        execution_delay: u64,
        proposal_threshold: u64,
    ) -> (r: Self)
        ensures
            r.wf(),
            r@ == (GovernanceView {
                governance_token: governance_token@,
                quorum_percentage,
                voting_period,
                execution_delay,
                proposal_threshold,
                proposals: Map::empty(),
                votes: Map::empty(),
                next_proposal_id: 1,
            }),
    {
        let r = GovernanceContract {
            governance_token,
            quorum_percentage,
            voting_period,
            execution_delay,
            proposal_threshold,
            proposals: Vec::new(),
            votes: Vec::new(),
            next_proposal_id: 1,
        };
        proof {
            assert(id_map(r.proposals@).map_values(|p: Proposal| proposal_record(p)) =~= Map::<u64, ProposalRecord>::empty());
            assert(vote_map(r.votes@) =~= Map::<u64, Map<Seq<char>, u64>>::empty());
        }
        r
    }

    /// The contract's parameters.
    pub fn get_info(&self) -> (r: GovernanceInfo)
        ensures
            r.governance_token@ == self@.governance_token,
            r.quorum_percentage == self@.quorum_percentage,
            r.voting_period == self@.voting_period,
            r.execution_delay == self@.execution_delay,
            r.proposal_threshold == self@.proposal_threshold,
    {
        GovernanceInfo {
            governance_token: self.governance_token.clone(),
            quorum_percentage: self.quorum_percentage,
            voting_period: self.voting_period,
            execution_delay: self.execution_delay,
            proposal_threshold: self.proposal_threshold,
        }
    }

    /// Voting power of an address; no token balance is consulted, so it is 0.
    pub fn get_voting_power(&self, voter: &str) -> (r: u64)
        ensures
            r == 0,
    {
        0
    }

    /// Create a proposal at `now`: the proposer needs the threshold's voting power,
    /// the title 1 to 200 bytes, the description 1 to 5 000 bytes and at least one
    /// action.  Voting lasts the voting period; execution waits the delay after it.
    pub fn create_proposal(
        &mut self,
        proposer: &str,
        title: String,
        description: String,
        actions: Vec<ProposalAction>,
        now: u64,
    ) -> (r: Result<u64, String>)
        requires
            old(self).wf(),
            old(self)@.next_proposal_id < u64::MAX,
            now + old(self)@.voting_period + old(self)@.execution_delay <= u64::MAX,
        ensures
            final(self).wf(),
            match creation_refusal(old(self)@, title@, description@, actions@.len()) {
                Some(msg) => fails_with(r, msg) && final(self)@ == old(self)@,
                None => r == Ok::<u64, String>(old(self)@.next_proposal_id) && final(self)@ == created(
                    old(self)@,
                    proposer@,
                    title@,
                    description@,
                    action_records(actions@),
                    now,
                ),
            },
    {
        if self.get_voting_power(proposer) < self.proposal_threshold {
            proof {
                reveal_strlit("Insufficient voting power to create a proposal");
            }
            return Err(String::from_str("Insufficient voting power to create a proposal"));
        }
        if title.as_str().is_empty() || title.as_str().len() > MAX_TITLE_BYTES {
            proof {
                reveal_strlit("Title must be 1-200 characters");
            }
            return Err(String::from_str("Title must be 1-200 characters"));
        }
        if description.as_str().is_empty() || description.as_str().len() > MAX_DESCRIPTION_BYTES {
            proof {
                reveal_strlit("Description must be 1-5000 characters");
            }
            return Err(String::from_str("Description must be 1-5000 characters"));
        }
        if actions.len() == 0 {
            proof {
                reveal_strlit("At least one action is required");
            }
            return Err(String::from_str("At least one action is required"));
        }
        let id = self.next_proposal_id;
        self.next_proposal_id = id + 1;
        let proposal = Proposal {
            id,
            proposer: String::from_str(proposer),
            title,
            description,
            actions,
            votes_for: 0,
            votes_against: 0,
            total_voting_power: 0,
            created_at: now,
            voting_deadline: now + self.voting_period,
            execution_time: now + self.voting_period + self.execution_delay,
            status: ProposalStatus::Active,
        };
        let ghost rec = proposal_record(proposal);
        upsert_id(&mut self.proposals, id, proposal);
        proof {
            assert(self@.proposals =~= old(self)@.proposals.insert(id, rec));
        }
        Ok(id)
    }
}


/// The votes on proposal `id`, or none.
pub open spec fn votes_on(v: GovernanceView, id: u64) -> Map<Seq<char>, u64> {
    if v.votes.dom().contains(id) { v.votes[id] } else { Map::empty() }
}

/// The proposal record after a vote of `power`, for or against.
pub open spec fn voted(p: ProposalRecord, support: bool, power: u64) -> ProposalRecord {
    ProposalRecord {
        votes_for: if support { (p.votes_for + power) as u64 } else { p.votes_for },
        votes_against: if support { p.votes_against } else { (p.votes_against + power) as u64 },
        total_voting_power: (p.total_voting_power + power) as u64,
        ..p
    }
}

/// Why a vote is refused, if it is.
pub open spec fn vote_refusal(v: GovernanceView, voter: Seq<char>, id: u64, power: u64) -> Option<Seq<char>> {
    if power == 0 {
        Some("Voting power must be greater than 0"@)
    } else if !v.proposals.dom().contains(id) {
        Some("Proposal not found"@)
    } else if v.proposals[id].status != ProposalStatus::Active {
        Some("Proposal is not active"@)
    } else if has_voted(v, id, voter) {
        Some("Already voted"@)
    } else {
        None
    }
}

/// The contract after `voter` cast `power` for or against proposal `id`.
pub open spec fn after_vote(v: GovernanceView, voter: Seq<char>, id: u64, support: bool, power: u64) -> GovernanceView {
    GovernanceView {
        proposals: v.proposals.insert(id, voted(v.proposals[id], support, power)),
        votes: v.votes.insert(id, votes_on(v, id).insert(voter, power)),
        ..v
    }
}

/// An address votes at most once on a proposal: once its vote is recorded, any
/// further vote of it on that proposal is refused.
pub proof fn lemma_one_vote_per_voter(v: GovernanceView, voter: Seq<char>, id: u64, support: bool, power: u64, later: u64)
    requires
        vote_refusal(v, voter, id, power) is None,
    ensures
        vote_refusal(after_vote(v, voter, id, support, power), voter, id, later) is Some,
{
}

/// An executed proposal stays executed: executing it again is refused and
/// leaves it as it is.
pub proof fn lemma_executed_is_final(v: GovernanceView, id: u64, now: u64, later: u64)
    requires
        execution_outcome(v, id, now) == (Some(ProposalStatus::Executed), None::<Seq<char>>),
    ensures
        execution_outcome(with_status(v, id, ProposalStatus::Executed), id, later).1 is Some,
        execution_outcome(with_status(v, id, ProposalStatus::Executed), id, later).0 is None,
{
}

/// The outcome of executing proposal `id` at `now`: the new status, if any, and
/// the error text, if any.
pub open spec fn execution_outcome(v: GovernanceView, id: u64, now: u64) -> (Option<ProposalStatus>, Option<Seq<char>>) {
    if !v.proposals.dom().contains(id) {
        (None, Some("Proposal not found"@))
    } else {
        let p = v.proposals[id];
        if now < p.voting_deadline {
            (None, Some("Voting period has not ended"@))
        } else if p.status != ProposalStatus::Active && p.status != ProposalStatus::Succeeded {
            (None, Some("Proposal cannot be executed"@))
        } else if !passed(p, v.quorum_percentage) {
            (Some(ProposalStatus::Defeated), Some("Proposal did not pass"@))
        } else if now < p.execution_time {
            (Some(ProposalStatus::Succeeded), Some("Execution delay has not passed"@))
        } else {
            (Some(ProposalStatus::Executed), None)
        }
    }
}

/// Law: a proposal passes exactly when its voters hold a majority for it and
/// their total voting power reaches the quorum share of the token supply — with
/// the quorum in basis points, `supply * quorum < (total + 1) * 10 000` (so with a
/// 50% quorum, 1 000 votes of a 10 000 supply do not pass).
pub proof fn lemma_passed_quorum(p: ProposalRecord, quorum: u32)
    ensures
        passed(p, quorum) <==> (MOCK_TOTAL_SUPPLY * quorum < (p.total_voting_power + 1) * 10_000 && p.votes_for
            > p.votes_against),
{
    let x = MOCK_TOTAL_SUPPLY * quorum;
    let t = p.total_voting_power as int;
    assert(t >= x / 10_000 <==> x < (t + 1) * 10_000) by (nonlinear_arith)
        requires x >= 0, t >= 0;
}

/// Law: a proposal is executed only when it has passed, in the sense of
/// [`lemma_passed_quorum`], its voting period has ended and its execution delay
/// has elapsed.
pub proof fn lemma_execution_needs_quorum(v: GovernanceView, id: u64, now: u64)
    requires
        execution_outcome(v, id, now).1 is None,
    ensures
        v.proposals.dom().contains(id),
        MOCK_TOTAL_SUPPLY * v.quorum_percentage < (v.proposals[id].total_voting_power + 1) * 10_000,
        v.proposals[id].votes_for > v.proposals[id].votes_against,
        now >= v.proposals[id].voting_deadline,
        now >= v.proposals[id].execution_time,
{
    lemma_passed_quorum(v.proposals[id], v.quorum_percentage);
}

/// The contract with proposal `id` in status `st`.
pub open spec fn with_status(v: GovernanceView, id: u64, st: ProposalStatus) -> GovernanceView {
    GovernanceView { proposals: v.proposals.insert(id, ProposalRecord { status: st, ..v.proposals[id] }), ..v }
}

/// The active proposals of a table, in table order.
pub open spec fn active_records(s: Seq<(u64, Proposal)>) -> Seq<ProposalRecord>
    decreases s.len(),
{
    if s.len() == 0 {
        Seq::empty()
    } else if s.last().1.status == ProposalStatus::Active {
        active_records(s.drop_last()).push(proposal_record(s.last().1))
    } else {
        active_records(s.drop_last())
    }
}

impl GovernanceContract {
    /// The proposal table, in creation order.
    pub closed spec fn proposal_table(&self) -> Seq<(u64, Proposal)> {
        self.proposals@
    }

    /// Replace the proposal at position `i`, keeping its identifier.
    fn replace_proposal(&mut self, i: usize, p: Proposal)
        requires
            old(self).wf(),
            i < old(self).proposals@.len(),
            p.id == old(self).proposals@[i as int].0,
            p.votes_for + p.votes_against == p.total_voting_power,
        ensures
            final(self).wf(),
            final(self)@ == (GovernanceView {
                proposals: old(self)@.proposals.insert(p.id, proposal_record(p)),
                ..old(self)@
            }),
    {
        let ghost s0 = self.proposals@;
        let ghost rec = proposal_record(p);
        let (k, _old) = self.proposals.remove(i);
        self.proposals.insert(i, (k, p));
        proof {
            assert(self.proposals@ =~= s0.update(i as int, (k, p)));
            lemma_id_update(s0, i as int, p);
            assert(self@.proposals =~= old(self)@.proposals.insert(k, rec));
        }
    }

    /// Vote on an active proposal with `voting_power`, once per voter.
    pub fn vote(&mut self, voter: &str, proposal_id: u64, support: bool, voting_power: u64) -> (r: Result<(), String>)
        requires
            old(self).wf(),
            vote_refusal(old(self)@, voter@, proposal_id, voting_power) is None ==> old(
                self,
            )@.proposals[proposal_id].total_voting_power + voting_power <= u64::MAX,
        ensures
            final(self).wf(),
            match vote_refusal(old(self)@, voter@, proposal_id, voting_power) {
                Some(msg) => fails_with(r, msg) && final(self)@ == old(self)@,
                None => r is Ok && final(self)@ == after_vote(old(self)@, voter@, proposal_id, support, voting_power),
            },
    {
        proof {
            reveal_strlit("Voting power must be greater than 0");
            reveal_strlit("Proposal not found");
            reveal_strlit("Proposal is not active");
            reveal_strlit("Already voted");
        }
        if voting_power == 0 {
            return Err(String::from_str("Voting power must be greater than 0"));
        }
        let i = match find_id(&self.proposals, proposal_id) {
            Some(i) => i,
            None => return Err(String::from_str("Proposal not found")),
        };
        if self.proposals[i].1.status != ProposalStatus::Active {
            return Err(String::from_str("Proposal is not active"));
        }
        let vj = find_id(&self.votes, proposal_id);
        match vj {
            Some(j) => {
                proof {
                    lemma_id_map_value(self.votes@, j as int);
                }
                if find_key(&self.votes[j].1, voter).is_some() {
                    return Err(String::from_str("Already voted"));
                }
            },
            None => {},
        }
        let ghost v0 = self@;
        let ghost inner0 = votes_on(v0, proposal_id);
        let mut inner: Vec<(String, u64)> = match vj {
            Some(j) => {
                let ghost s0 = self.votes@;
                let (_k, l) = self.votes.remove(j);
                let empty: Vec<(String, u64)> = Vec::new();
                self.votes.insert(j, (proposal_id, empty));
                proof {
                    assert(self.votes@ =~= s0.update(j as int, (proposal_id, empty)));
                    lemma_id_update(s0, j as int, empty);
                    lemma_id_map_value(s0, j as int);
                    assert(to_map(l@) == inner0);
                    assert forall|x: int| 0 <= x < self.votes@.len() implies distinct_keys((#[trigger] self.votes@[x]).1@) by {
                        if x != j {
                            assert(self.votes@[x] == s0[x]);
                        }
                    }
                }
                l
            },
            None => {
                let l: Vec<(String, u64)> = Vec::new();
                proof {
                    assert(to_map(l@) =~= inner0);
                }
                l
            },
        };
        upsert(&mut inner, voter, voting_power);
        let ghost inner_v = inner@;
        let ghost s1 = self.votes@;
        upsert_id(&mut self.votes, proposal_id, inner);
        proof {
            assert forall|x: int| 0 <= x < self.votes@.len() implies distinct_keys((#[trigger] self.votes@[x]).1@) by {
                lemma_id_map_value(self.votes@, x);
                if self.votes@[x].0 != proposal_id {
                    let k = self.votes@[x].0;
                    assert(id_map(s1).dom().contains(k));
                    crate::idmap::lemma_id_map_dom(s1, k);
                    let y = choose|y: int| 0 <= y < s1.len() && s1[y].0 == k;
                    lemma_id_map_value(s1, y);
                }
            }
            assert(vote_map(self.votes@) =~= v0.votes.insert(proposal_id, inner0.insert(voter@, voting_power)));
        }
        let mut p = self.proposals[i].1.clone();
        proof {
            lemma_id_map_value(self.proposals@, i as int);
        }
        let ghost before = proposal_record(p);
        if support {
            p.votes_for = p.votes_for + voting_power;
        } else {
            p.votes_against = p.votes_against + voting_power;
        }
        p.total_voting_power = p.total_voting_power + voting_power;
        proof {
            assert(proposal_record(p) == voted(before, support, voting_power));
        }
        self.replace_proposal(i, p);
        Ok(())
    }

    /// Execute a proposal at `now`: voting must be over and the proposal active or
    /// succeeded; one without quorum or majority is defeated, one whose delay is
    /// still running is marked succeeded, otherwise it is executed.
    pub fn execute_proposal(&mut self, executor: &str, proposal_id: u64, now: u64) -> (r: Result<(), String>)
        requires
            old(self).wf(),
        ensures
            final(self).wf(),
            ({
                let o = execution_outcome(old(self)@, proposal_id, now);
                &&& o.0 is None ==> final(self)@ == old(self)@
                &&& o.0 matches Some(st) ==> final(self)@ == with_status(old(self)@, proposal_id, st)
                &&& o.1 is None ==> r is Ok
                &&& o.1 matches Some(msg) ==> fails_with(r, msg)
            }),
            r is Ok ==> old(self)@.proposals.dom().contains(proposal_id) && MOCK_TOTAL_SUPPLY * old(self)@.quorum_percentage
                < (old(self)@.proposals[proposal_id].total_voting_power + 1) * 10_000,
    {
        proof {
            reveal_strlit("Proposal not found");
            reveal_strlit("Voting period has not ended");
            reveal_strlit("Proposal cannot be executed");
            reveal_strlit("Proposal did not pass");
            reveal_strlit("Execution delay has not passed");
        }
        let i = match find_id(&self.proposals, proposal_id) {
            Some(i) => i,
            None => return Err(String::from_str("Proposal not found")),
        };
        proof {
            lemma_id_map_value(self.proposals@, i as int);
        }
        let mut p = self.proposals[i].1.clone();
        if now < p.voting_deadline {
            return Err(String::from_str("Voting period has not ended"));
        }
        if p.status != ProposalStatus::Active && p.status != ProposalStatus::Succeeded {
            return Err(String::from_str("Proposal cannot be executed"));
        }
        let quorum: u64 = (MOCK_TOTAL_SUPPLY * self.quorum_percentage as u64) / 10_000;
        if p.total_voting_power < quorum || p.votes_for <= p.votes_against {
            p.status = ProposalStatus::Defeated;
            self.replace_proposal(i, p);
            return Err(String::from_str("Proposal did not pass"));
        }
        if now < p.execution_time {
            p.status = ProposalStatus::Succeeded;
            self.replace_proposal(i, p);
            return Err(String::from_str("Execution delay has not passed"));
        }
        p.status = ProposalStatus::Executed;
        self.replace_proposal(i, p);
        Ok(())
    }

    /// Cancel a proposal; only its proposer may, and not once executed.
    pub fn cancel_proposal(&mut self, proposer: &str, proposal_id: u64) -> (r: Result<(), String>)
        requires
            old(self).wf(),
        ensures
            final(self).wf(),
            !old(self)@.proposals.dom().contains(proposal_id) ==> fails_with(r, "Proposal not found"@),
            old(self)@.proposals.dom().contains(proposal_id) && old(self)@.proposals[proposal_id].proposer != proposer@
                ==> fails_with(r, "Only proposer can cancel"@),
            old(self)@.proposals.dom().contains(proposal_id) && old(self)@.proposals[proposal_id].proposer == proposer@
                && old(self)@.proposals[proposal_id].status == ProposalStatus::Executed ==> fails_with(
                r,
                "Cannot cancel executed proposal"@,
            ),
            old(self)@.proposals.dom().contains(proposal_id) && old(self)@.proposals[proposal_id].proposer == proposer@ && old(self)@.proposals[proposal_id].status != ProposalStatus::Executed ==> r is Ok,
            r is Err ==> final(self)@ == old(self)@,
            r is Ok ==> old(self)@.proposals.dom().contains(proposal_id) && final(self)@ == with_status(
                old(self)@,
                proposal_id,
                ProposalStatus::Cancelled,
            ),
    {
        proof {
            reveal_strlit("Proposal not found");
            reveal_strlit("Only proposer can cancel");
            reveal_strlit("Cannot cancel executed proposal");
        }
        let i = match find_id(&self.proposals, proposal_id) {
            Some(i) => i,
            None => return Err(String::from_str("Proposal not found")),
        };
        proof {
            lemma_id_map_value(self.proposals@, i as int);
        }
        let mut p = self.proposals[i].1.clone();
        let who = String::from_str(proposer);
        if p.proposer != who {
            return Err(String::from_str("Only proposer can cancel"));
        }
        if p.status == ProposalStatus::Executed {
            return Err(String::from_str("Cannot cancel executed proposal"));
        }
        p.status = ProposalStatus::Cancelled;
        self.replace_proposal(i, p);
        Ok(())
    }

    /// A proposal, if it exists.
    pub fn get_proposal(&self, proposal_id: u64) -> (r: Option<Proposal>)
        requires
            self.wf(),
        ensures
            self@.proposals.dom().contains(proposal_id) ==> returns_proposal(r, self@.proposals[proposal_id]),
            !self@.proposals.dom().contains(proposal_id) ==> r is None,
    {
        match find_id(&self.proposals, proposal_id) {
            Some(i) => {
                proof {
                    lemma_id_map_value(self.proposals@, i as int);
                }
                Some(self.proposals[i].1.clone())
            },
            None => None,
        }
    }

    /// Every proposal, in creation order.
    pub fn get_all_proposals(&self) -> (r: Vec<Proposal>)
        ensures
            r@.map_values(|p: Proposal| proposal_record(p)) == self.proposal_table().map_values(
                |e: (u64, Proposal)| proposal_record(e.1),
            ),
    {
        let mut out: Vec<Proposal> = Vec::new();
        let mut i: usize = 0;
        while i < self.proposals.len()
            invariant
                i <= self.proposals@.len(),
                out@.map_values(|p: Proposal| proposal_record(p)) == self.proposals@.take(i as int).map_values(
                    |e: (u64, Proposal)| proposal_record(e.1),
                ),
            decreases self.proposals@.len() - i,
        {
            let ghost before = out@;
            let c = self.proposals[i].1.clone();
            out.push(c);
            proof {
                assert(self.proposals@.take(i + 1) =~= self.proposals@.take(i as int).push(self.proposals@[i as int]));
                assert(out@.map_values(|p: Proposal| proposal_record(p)) =~= before.map_values(
                    |p: Proposal| proposal_record(p),
                ).push(proposal_record(c)));
                assert(out@.map_values(|p: Proposal| proposal_record(p)) =~= self.proposals@.take(i + 1).map_values(
                    |e: (u64, Proposal)| proposal_record(e.1),
                ));
            }
            i = i + 1;
        }
        proof {
            assert(self.proposals@.take(self.proposals@.len() as int) =~= self.proposals@);
        }
        out
    }

    /// The active proposals, in creation order.
    pub fn get_active_proposals(&self) -> (r: Vec<Proposal>)
        ensures
            r@.map_values(|p: Proposal| proposal_record(p)) == active_records(self.proposal_table()),
    {
        let mut out: Vec<Proposal> = Vec::new();
        let mut i: usize = 0;
        while i < self.proposals.len()
            invariant
                i <= self.proposals@.len(),
                out@.map_values(|p: Proposal| proposal_record(p)) == active_records(self.proposals@.take(i as int)),
            decreases self.proposals@.len() - i,
        {
            proof {
                assert(self.proposals@.take(i + 1).drop_last() =~= self.proposals@.take(i as int));
            }
            if self.proposals[i].1.status == ProposalStatus::Active {
                let ghost before = out@;
                let c = self.proposals[i].1.clone();
                out.push(c);
                proof {
                    assert(out@.map_values(|p: Proposal| proposal_record(p)) =~= before.map_values(
                        |p: Proposal| proposal_record(p),
                    ).push(proposal_record(c)));
                }
            }
            i = i + 1;
        }
        proof {
            assert(self.proposals@.take(self.proposals@.len() as int) =~= self.proposals@);
        }
        out
    }

    /// Whether a proposal reached the quorum and a majority (false for an unknown
    /// one).
    pub fn has_proposal_passed(&self, proposal_id: u64) -> (r: bool)
        requires
            self.wf(),
        ensures
            r == (self@.proposals.dom().contains(proposal_id) && passed(
                self@.proposals[proposal_id],
                self@.quorum_percentage,
            )),
            r == (self@.proposals.dom().contains(proposal_id) && MOCK_TOTAL_SUPPLY * self@.quorum_percentage < (
            self@.proposals[proposal_id].total_voting_power + 1) * 10_000 && self@.proposals[proposal_id].votes_for
                > self@.proposals[proposal_id].votes_against),
    {
        proof {
            if self@.proposals.dom().contains(proposal_id) {
                lemma_passed_quorum(self@.proposals[proposal_id], self@.quorum_percentage);
            }
        }
        match find_id(&self.proposals, proposal_id) {
            Some(i) => {
                proof {
                    lemma_id_map_value(self.proposals@, i as int);
                }
                let quorum: u64 = (MOCK_TOTAL_SUPPLY * self.quorum_percentage as u64) / 10_000;
                self.proposals[i].1.total_voting_power >= quorum && self.proposals[i].1.votes_for
                    > self.proposals[i].1.votes_against
            },
            None => false,
        }
    }

    /// Change the quorum (at most 100%), voting period and execution delay.
    pub fn update_parameters(&mut self, new_quorum: u32, new_voting_period: u64, new_execution_delay: u64) -> (r: Result<
        (),
        String,
    >)
        requires
            old(self).wf(),
        ensures
            final(self).wf(),
            new_quorum > 10_000 ==> fails_with(r, "Quorum must be <= 10000 basis points"@) && final(self)@ == old(self)@,
            new_quorum <= 10_000 ==> r is Ok && final(self)@ == (GovernanceView {
                quorum_percentage: new_quorum,
                voting_period: new_voting_period,
                execution_delay: new_execution_delay,
                ..old(self)@
            }),
    {
        if new_quorum > 10_000 {
            proof {
                reveal_strlit("Quorum must be <= 10000 basis points");
            }
            return Err(String::from_str("Quorum must be <= 10000 basis points"));
        }
        self.quorum_percentage = new_quorum;
        self.voting_period = new_voting_period;
        self.execution_delay = new_execution_delay;
        Ok(())
    }

    /// Delegate voting power; voting power is not tracked, so nothing changes.
    pub fn delegate(&mut self, delegator: &str, delegatee: &str) -> (r: Result<(), String>)
        ensures
            r is Ok,
            final(self)@ == old(self)@,
    {
        Ok(())
    }

    /// Propose to delist `asset_id` after a notice period (7 days when 0 is given):
    /// one `DelistAsset` action on the asset registry, whose force-close time is
    /// the end of voting plus the execution delay plus the notice period.
    pub fn create_delisting_proposal(
        &mut self,
        proposer: &str,
        asset_id: String,
        reason: String,
        notice_period: u64,
        now: u64,
    ) -> (r: Result<u64, String>)
        requires
            old(self).wf(),
            old(self)@.next_proposal_id < u64::MAX,
            now + old(self)@.voting_period + old(self)@.execution_delay + effective_notice(notice_period) <= u64::MAX,
        ensures
            final(self).wf(),
            ({
                let v0 = old(self)@;
                let notice = effective_notice(notice_period);
                let delist_at = (now + v0.voting_period + v0.execution_delay + notice) as u64;
                let title = delisting_title(asset_id@);
                let description = delisting_description(reason@, notice, delist_at);
                match creation_refusal(v0, title, description, 1) {
                    Some(msg) => fails_with(r, msg) && final(self)@ == v0,
                    None => r == Ok::<u64, String>(v0.next_proposal_id) && final(self)@ == created(
                        v0,
                        proposer@,
                        title,
                        description,
                        seq![delisting_action(asset_id, notice, delist_at)],
                        now,
                    ),
                }
            }),
    {
        let effective: u64 = if notice_period == 0 {
            DEFAULT_NOTICE_PERIOD
        } else {
            notice_period
        };
        let delist_at = now + self.voting_period + self.execution_delay + effective;
        let notice_text = u64_to_dec(effective);
        let delist_text = u64_to_dec(delist_at);
        let ghost asset_v = asset_id@;
        let asset_copy = asset_id.clone();
        let mut parameters: Vec<String> = Vec::new();
        parameters.push(asset_id);
        parameters.push(notice_text.clone());
        parameters.push(delist_text.clone());
        proof {
            assert(parameters@.map_values(|p: String| p@) =~= seq![
                asset_v,
                dec_nat(effective as nat),
                dec_nat(delist_at as nat),
            ]);
        }
        let action = ProposalAction {
            action_type: ActionType::DelistAsset { asset_id: asset_copy, notice_period: effective, delist_at },
            target: String::from_str("asset_registry"),
            function: String::from_str("delist_asset"),
            parameters,
            value: None,
        };
        let title = String::from_str("Delist asset: ").concat(action.parameters[0].as_str());
        let description = reason.concat("\n\nNotice period: ").concat(notice_text.as_str()).concat(
            " seconds. Positions can be closed until ",
        ).concat(delist_text.as_str()).concat(".");
        proof {
            reveal_strlit("Delist asset: ");
            reveal_strlit("\n\nNotice period: ");
            reveal_strlit(" seconds. Positions can be closed until ");
            reveal_strlit(".");
            reveal_strlit("asset_registry");
            reveal_strlit("delist_asset");
        }
        let ghost arec = action_record(action);
        let mut actions: Vec<ProposalAction> = Vec::new();
        actions.push(action);
        proof {
            assert(arec == delisting_action(asset_copy, effective, delist_at));
            assert(action_records(actions@) =~= seq![arec]);
            assert(title@ == delisting_title(asset_v));
        }
        self.create_proposal(proposer, title, description, actions, now)
    }

    /// The delegate of an address; delegations are not tracked, so none.
    pub fn get_delegation(&self, delegator: &str) -> (r: Option<String>)
        ensures
            r is None,
    {
        None
    }
}

} // verus!

//! Governance of the stablecoin system: proposals of typed parameter changes,
//! voting with (possibly delegated) token power, execution after the voting
//! deadline and an execution delay, and an emergency pause.
//!
//! The token balance behind every voting power is a fixed mock amount, and the
//! total supply a fixed mock value.  Executing a proposal publishes the effect of
//! its type; the published effects are kept in order.  A refused call reports the
//! reason and leaves the contract unchanged.

use vstd::prelude::*;
use crate::idmap::{distinct_ids, find_id, id_map, lemma_id_map_value, lemma_id_update, upsert_id};
use crate::keyed::{distinct_keys, find_key, to_map, upsert};

verus! {

/// Shortest voting period (3 days).
pub const MIN_VOTING_PERIOD: u64 = 259_200;
/// Longest voting period (30 days).
pub const MAX_VOTING_PERIOD: u64 = 2_592_000;
/// Voting period after initialization (7 days).
pub const DEFAULT_VOTING_PERIOD: u64 = 604_800;
/// Lowest quorum (5% of the supply).
pub const MIN_QUORUM_BPS: u32 = 500;
/// Highest quorum (50% of the supply).
pub const MAX_QUORUM_BPS: u32 = 5000;
/// Quorum after initialization (10% of the supply).
pub const DEFAULT_QUORUM_BPS: u32 = 1000;
/// Delay between the end of voting and execution (2 days).
pub const EXECUTION_DELAY: u64 = 172_800;
/// Share of the supply needed to propose after initialization (0.1%).
pub const MIN_PROPOSAL_THRESHOLD_BPS: u32 = 10;
/// Voting power of every address (its mock token balance).
pub const MOCK_VOTING_POWER: u64 = 1_000_000;
/// Total supply of the governance token (mock value).
pub const MOCK_TOTAL_SUPPLY: u64 = 100_000_000_000;

/// Governance parameters.
#[derive(Clone, Copy, Debug, PartialEq, Eq, Structural)]
pub struct GovernanceParams {
    pub voting_period: u64,
    pub quorum_bps: u32,
    pub proposal_threshold_bps: u32,
    pub execution_delay: u64,
}

/// What a proposal changes in the stablecoin system.
#[derive(Debug, PartialEq, Eq)]
pub enum ProposalType {
    UpdateCollateralParameters { collateral_address: String, min_ratio: u32, max_ratio: u32 },
    UpdateFees { minting_fee_bps: u32, redemption_fee_bps: u32 },
    AddCollateral { collateral_address: String, collateral_type: String, min_ratio: u32, max_ratio: u32 },
    RemoveCollateral { collateral_address: String },
    UpdateOracle { new_oracle: String },
    EmergencyShutdown,
    Custom(String),
}

impl Clone for ProposalType {
    fn clone(&self) -> (r: Self)
        ensures
            r == *self,
    {
        match self {
            ProposalType::UpdateCollateralParameters { collateral_address, min_ratio, max_ratio } => {
                ProposalType::UpdateCollateralParameters {
                    collateral_address: collateral_address.clone(),
                    min_ratio: *min_ratio,
                    max_ratio: *max_ratio,
                }
            },
            ProposalType::UpdateFees { minting_fee_bps, redemption_fee_bps } => ProposalType::UpdateFees {
                minting_fee_bps: *minting_fee_bps,
                redemption_fee_bps: *redemption_fee_bps,
            },
            ProposalType::AddCollateral { collateral_address, collateral_type, min_ratio, max_ratio } => {
                ProposalType::AddCollateral {
                    collateral_address: collateral_address.clone(),
                    collateral_type: collateral_type.clone(),
                    min_ratio: *min_ratio,
                    max_ratio: *max_ratio,
                }
            },
            ProposalType::RemoveCollateral { collateral_address } => ProposalType::RemoveCollateral {
                collateral_address: collateral_address.clone(),
            },
            ProposalType::UpdateOracle { new_oracle } => ProposalType::UpdateOracle { new_oracle: new_oracle.clone() },
            ProposalType::EmergencyShutdown => ProposalType::EmergencyShutdown,
            ProposalType::Custom(s) => ProposalType::Custom(s.clone()),
        }
    }
}

/// What executing a proposal publishes.
#[derive(Debug, PartialEq, Eq)]
pub enum GovernanceEffect {
    CollateralParamsUpdated { collateral_address: String, min_ratio: u32, max_ratio: u32 },
    FeesUpdated { minting_fee_bps: u32, redemption_fee_bps: u32 },
    CollateralAdded { collateral_address: String, collateral_type: String, min_ratio: u32, max_ratio: u32 },
    CollateralRemoved(String),
    OracleUpdated(String),
    /// Shutdown at the given time.
    EmergencyShutdown(u64),
    /// A custom proposal with the given identifier was executed.
    CustomProposalExecuted(u64),
}

impl Clone for GovernanceEffect {
    fn clone(&self) -> (r: Self)
        ensures
            r == *self,
    {
        match self {
            GovernanceEffect::CollateralParamsUpdated { collateral_address, min_ratio, max_ratio } => {
                GovernanceEffect::CollateralParamsUpdated {
                    collateral_address: collateral_address.clone(),
                    min_ratio: *min_ratio,
                    max_ratio: *max_ratio,
                }
            },
            GovernanceEffect::FeesUpdated { minting_fee_bps, redemption_fee_bps } => GovernanceEffect::FeesUpdated {
                minting_fee_bps: *minting_fee_bps,
                redemption_fee_bps: *redemption_fee_bps,
            },
            GovernanceEffect::CollateralAdded { collateral_address, collateral_type, min_ratio, max_ratio } => {
                GovernanceEffect::CollateralAdded {
                    collateral_address: collateral_address.clone(),
                    collateral_type: collateral_type.clone(),
                    min_ratio: *min_ratio,
                    max_ratio: *max_ratio,
                }
            },
            GovernanceEffect::CollateralRemoved(a) => GovernanceEffect::CollateralRemoved(a.clone()),
            GovernanceEffect::OracleUpdated(a) => GovernanceEffect::OracleUpdated(a.clone()),
            GovernanceEffect::EmergencyShutdown(t) => GovernanceEffect::EmergencyShutdown(*t),
            GovernanceEffect::CustomProposalExecuted(id) => GovernanceEffect::CustomProposalExecuted(*id),
        }
    }
}

/// The effect published for a proposal of type `t` with identifier `id` executed
/// at `now`.
pub open spec fn effect_of(t: ProposalType, id: u64, now: u64) -> GovernanceEffect {
    match t {
        ProposalType::UpdateCollateralParameters { collateral_address, min_ratio, max_ratio } => {
            GovernanceEffect::CollateralParamsUpdated { collateral_address, min_ratio, max_ratio }
        },
        ProposalType::UpdateFees { minting_fee_bps, redemption_fee_bps } => GovernanceEffect::FeesUpdated {
            minting_fee_bps,
            redemption_fee_bps,
        },
        ProposalType::AddCollateral { collateral_address, collateral_type, min_ratio, max_ratio } => {
            GovernanceEffect::CollateralAdded { collateral_address, collateral_type, min_ratio, max_ratio }
        },
        ProposalType::RemoveCollateral { collateral_address } => GovernanceEffect::CollateralRemoved(collateral_address),
        ProposalType::UpdateOracle { new_oracle } => GovernanceEffect::OracleUpdated(new_oracle),
        ProposalType::EmergencyShutdown => GovernanceEffect::EmergencyShutdown(now),
        ProposalType::Custom(_) => GovernanceEffect::CustomProposalExecuted(id),
    }
}

/// A governance proposal.
#[derive(Debug, PartialEq, Eq)]
pub struct GovernanceProposal {
    pub proposal_id: u64,
    pub proposer: String,
    pub proposal_type: ProposalType,
    pub description: String,
    pub created_at: u64,
    pub voting_deadline: u64,
    pub votes_for: u64,
    pub votes_against: u64,
    pub executed: bool,
}

/// A proposal as a mathematical value.
pub struct ProposalRecord {
    pub proposal_id: u64,
    pub proposer: Seq<char>,
    pub proposal_type: ProposalType,
    pub description: Seq<char>,
    pub created_at: u64,
    pub voting_deadline: u64,
    pub votes_for: u64,
    pub votes_against: u64,
    pub executed: bool,
}

/// The model of a proposal.
pub open spec fn proposal_record(p: GovernanceProposal) -> ProposalRecord {
    ProposalRecord {
        proposal_id: p.proposal_id,
        proposer: p.proposer@,
        proposal_type: p.proposal_type,
        description: p.description@,
        created_at: p.created_at,
        voting_deadline: p.voting_deadline,
        votes_for: p.votes_for,
        votes_against: p.votes_against,
        executed: p.executed,
    }
}

impl Clone for GovernanceProposal {
    fn clone(&self) -> (r: Self)
        ensures
            proposal_record(r) == proposal_record(*self),
    {
        GovernanceProposal {
            proposal_id: self.proposal_id,
            proposer: self.proposer.clone(),
            proposal_type: self.proposal_type.clone(),
            description: self.description.clone(),
            created_at: self.created_at,
            voting_deadline: self.voting_deadline,
            votes_for: self.votes_for,
            votes_against: self.votes_against,
            executed: self.executed,
        }
    }
}

/// A cast vote.
#[derive(Debug, PartialEq, Eq)]
pub struct Vote {
    pub support: bool,
    pub voting_power: u64,
    pub timestamp: u64,
    pub reason: Option<String>,
}

/// A cast vote as a mathematical value.
pub struct VoteRecord {
    pub support: bool,
    pub voting_power: u64,
    pub timestamp: u64,
    pub reason: Option<Seq<char>>,
}

/// The model of a vote.
pub open spec fn vote_record(v: Vote) -> VoteRecord {
    VoteRecord {
        support: v.support,
        voting_power: v.voting_power,
        timestamp: v.timestamp,
        reason: match v.reason {
            Some(s) => Some(s@),
            None => None,
        },
    }
}

/// Mathematical model of the contract.
pub struct GovernanceV2View {
    pub admin: Option<Seq<char>>,
    pub paused: bool,
    pub stablecoin: Seq<char>,
    pub next_proposal_id: u64,
    pub params: GovernanceParams,
    pub proposals: Map<u64, ProposalRecord>,
    /// Votes by proposal and voter.
    pub votes: Map<u64, Map<Seq<char>, VoteRecord>>,
    /// Who each address delegated its power to.
    pub delegations: Map<Seq<char>, Seq<char>>,
    /// Effects published by executed proposals, in order.
    pub effects: Seq<GovernanceEffect>,
}

/// The governance contract and its storage.
pub struct GovernanceContractV2 {
    admin: Option<String>,
    paused: bool,
    stablecoin: String,
    next_proposal_id: u64,
    params: GovernanceParams,
    proposals: Vec<(u64, GovernanceProposal)>,
    votes: Vec<(u64, Vec<(String, Vote)>)>,
    delegations: Vec<(String, String)>,
    effects: Vec<GovernanceEffect>,
}

/// The vote tables, as maps.
pub open spec fn vote_tables(s: Seq<(u64, Vec<(String, Vote)>)>) -> Map<u64, Map<Seq<char>, VoteRecord>> {
    id_map(s).map_values(|l: Vec<(String, Vote)>| to_map(l@).map_values(|v: Vote| vote_record(v)))
}

/// The delegation table, as a map of views.
pub open spec fn delegation_map(s: Seq<(String, String)>) -> Map<Seq<char>, Seq<char>> {
    to_map(s).map_values(|d: String| d@)
}

impl View for GovernanceContractV2 {
    type V = GovernanceV2View;

    closed spec fn view(&self) -> GovernanceV2View {
        GovernanceV2View {
            admin: match self.admin {
                Some(a) => Some(a@),
                None => None,
            },
            paused: self.paused,
            stablecoin: self.stablecoin@,
            next_proposal_id: self.next_proposal_id,
            params: self.params,
            proposals: id_map(self.proposals@).map_values(|p: GovernanceProposal| proposal_record(p)),
            votes: vote_tables(self.votes@),
            delegations: delegation_map(self.delegations@),
            effects: self.effects@,
        }
    }
}

/// `r` is the error with text `msg`.
pub open spec fn fails_with<T>(r: Result<T, String>, msg: Seq<char>) -> bool {
    r matches Err(e) && e@ == msg
}

/// Following delegations from `a` reaches, within `n` steps, an address that
/// has not delegated.
pub open spec fn ends_within(m: Map<Seq<char>, Seq<char>>, a: Seq<char>, n: nat) -> bool
    decreases n,
{
    if !m.dom().contains(a) {
        true
    } else if n == 0 {
        false
    } else {
        ends_within(m, m[a], (n - 1) as nat)
    }
}

/// The delegation chain from `a` ends (it runs into no cycle).
pub open spec fn chain_ends(m: Map<Seq<char>, Seq<char>>, a: Seq<char>) -> bool {
    exists|n: nat| ends_within(m, a, n)
}

/// Votes needed for the quorum.
pub open spec fn quorum_votes(params: GovernanceParams) -> int {
    MOCK_TOTAL_SUPPLY * params.quorum_bps / 10_000
}

/// Voting power needed to propose.
pub open spec fn proposal_threshold(params: GovernanceParams) -> int {
    MOCK_TOTAL_SUPPLY * params.proposal_threshold_bps / 10_000
}

/// Whether `voter` has voted on proposal `id`.
pub open spec fn has_voted(v: GovernanceV2View, id: u64, voter: Seq<char>) -> bool {
    v.votes.dom().contains(id) && v.votes[id].dom().contains(voter)
}

/// The votes on proposal `id`, or none.
pub open spec fn votes_on(v: GovernanceV2View, id: u64) -> Map<Seq<char>, VoteRecord> {
    if v.votes.dom().contains(id) { v.votes[id] } else { Map::empty() }
}

/// Why a vote at `now` is refused, if it is.
pub open spec fn vote_refusal(v: GovernanceV2View, voter: Seq<char>, id: u64, now: u64) -> Option<Seq<char>> {
    if v.paused {
        Some("Governance is paused"@)
    } else if !v.proposals.dom().contains(id) {
        Some("Proposal not found"@)
    } else if v.proposals[id].executed {
        Some("Proposal already executed"@)
    } else if now > v.proposals[id].voting_deadline {
        Some("Voting period has ended"@)
    } else if has_voted(v, id, voter) {
        Some("Already voted on this proposal"@)
    } else {
        None
    }
}

/// Why executing proposal `id` at `now` is refused, if it is.
pub open spec fn execution_refusal(v: GovernanceV2View, id: u64, now: u64) -> Option<Seq<char>> {
    if v.paused {
        Some("Governance is paused"@)
    } else if !v.proposals.dom().contains(id) {
        Some("Proposal not found"@)
    } else if v.proposals[id].executed {
        Some("Proposal already executed"@)
    } else if now <= v.proposals[id].voting_deadline {
        Some("Voting period has not ended"@)
    } else if v.proposals[id].votes_for + v.proposals[id].votes_against < quorum_votes(v.params) {
        Some("Quorum not reached"@)
    } else if v.proposals[id].votes_for <= v.proposals[id].votes_against {
        Some("Proposal did not pass"@)
    } else if now < v.proposals[id].voting_deadline + v.params.execution_delay {
        Some("Execution delay has not passed"@)
    } else {
        None
    }
}

/// The contract after `voter` voted on proposal `id` at `now` with its
/// (mock) power, for or against, giving `reason`.
pub open spec fn after_vote(
    v: GovernanceV2View,
    voter: Seq<char>,
    id: u64,
    support: bool,
    reason: Option<Seq<char>>,
    now: u64,
) -> GovernanceV2View {
    let p = v.proposals[id];
    GovernanceV2View {
        proposals: v.proposals.insert(
            id,
            ProposalRecord {
                votes_for: if support { (p.votes_for + MOCK_VOTING_POWER) as u64 } else { p.votes_for },
                votes_against: if support { p.votes_against } else { (p.votes_against + MOCK_VOTING_POWER) as u64 },
                ..p
            },
        ),
        votes: v.votes.insert(
            id,
            votes_on(v, id).insert(
                voter,
                VoteRecord { support, voting_power: MOCK_VOTING_POWER, timestamp: now, reason },
            ),
        ),
        ..v
    }
}

/// The contract after proposal `id` was executed at `now`: marked executed, its
/// effect published.
pub open spec fn after_execution(v: GovernanceV2View, id: u64, now: u64) -> GovernanceV2View {
    GovernanceV2View {
        proposals: v.proposals.insert(id, ProposalRecord { executed: true, ..v.proposals[id] }),
        effects: v.effects.push(effect_of(v.proposals[id].proposal_type, id, now)),
        ..v
    }
}

/// An address votes at most once on a proposal: once its vote is recorded, any
/// further vote of it on that proposal is refused.
pub proof fn lemma_one_vote_per_voter(
    v: GovernanceV2View,
    voter: Seq<char>,
    id: u64,
    support: bool,
    reason: Option<Seq<char>>,
    now: u64,
    later: u64,
)
    requires
        vote_refusal(v, voter, id, now) is None,
    ensures
        vote_refusal(after_vote(v, voter, id, support, reason, now), voter, id, later) is Some,
{
}

/// A proposal is executed at most once: after it was, executing it again is
/// refused.
pub proof fn lemma_executed_once(v: GovernanceV2View, id: u64, now: u64, later: u64)
    requires
        execution_refusal(v, id, now) is None,
    ensures
        execution_refusal(after_execution(v, id, now), id, later) is Some,
        after_execution(v, id, now).effects.len() == v.effects.len() + 1,
{
}

/// The active proposals of a table at `now` (not executed, voting still open),
/// in table order.
pub open spec fn open_records(s: Seq<(u64, GovernanceProposal)>, now: u64) -> Seq<ProposalRecord>
    decreases s.len(),
{
    if s.len() == 0 {
        Seq::empty()
    } else if !s.last().1.executed && now <= s.last().1.voting_deadline {
        open_records(s.drop_last(), now).push(proposal_record(s.last().1))
    } else {
        open_records(s.drop_last(), now)
    }
}

/// Whether `r` holds a proposal whose model is `rec`.
pub open spec fn returns_proposal(r: Result<GovernanceProposal, String>, rec: ProposalRecord) -> bool {
    match r {
        Ok(p) => proposal_record(p) == rec,
        Err(_) => false,
    }
}

/// A copy of a list of effects.
fn clone_effects(v: &Vec<GovernanceEffect>) -> (r: Vec<GovernanceEffect>)
    ensures
        r@ == v@,
{
    let mut out: Vec<GovernanceEffect> = Vec::new();
    let mut i: usize = 0;
    while i < v.len()
        invariant
            i <= v@.len(),
            out@ == v@.take(i as int),
        decreases v@.len() - i,
    {
        out.push(v[i].clone());
        proof {
            assert(out@ =~= v@.take(i + 1));
        }
        i = i + 1;
    }
    proof {
        assert(out@ =~= v@);
    }
    out
}

/// The effect that executing `proposal` at `now` publishes.
pub fn execute_proposal_logic(proposal: &GovernanceProposal, now: u64) -> (r: GovernanceEffect)
    ensures
        r == effect_of(proposal.proposal_type, proposal.proposal_id, now),
{
    match &proposal.proposal_type {
        ProposalType::UpdateCollateralParameters { collateral_address, min_ratio, max_ratio } => {
            GovernanceEffect::CollateralParamsUpdated {
                collateral_address: collateral_address.clone(),
                min_ratio: *min_ratio,
                max_ratio: *max_ratio,
            }
        },
        ProposalType::UpdateFees { minting_fee_bps, redemption_fee_bps } => GovernanceEffect::FeesUpdated {
            minting_fee_bps: *minting_fee_bps,
            redemption_fee_bps: *redemption_fee_bps,
        },
        ProposalType::AddCollateral { collateral_address, collateral_type, min_ratio, max_ratio } => {
            GovernanceEffect::CollateralAdded {
                collateral_address: collateral_address.clone(),
                collateral_type: collateral_type.clone(),
                min_ratio: *min_ratio,
                max_ratio: *max_ratio,
            }
        },
        ProposalType::RemoveCollateral { collateral_address } => GovernanceEffect::CollateralRemoved(
            collateral_address.clone(),
        ),
        ProposalType::UpdateOracle { new_oracle } => GovernanceEffect::OracleUpdated(new_oracle.clone()),
        ProposalType::EmergencyShutdown => GovernanceEffect::EmergencyShutdown(now),
        ProposalType::Custom(_) => GovernanceEffect::CustomProposalExecuted(proposal.proposal_id),
    }
}

impl GovernanceContractV2 {
    /// Tables have one entry per key, the quorum is at most 50%, every proposal
    /// is stored under its own identifier, and no proposal's vote total
    /// overflows.
    pub closed spec fn wf(&self) -> bool {
        &&& distinct_ids(self.proposals@)
        &&& distinct_ids(self.votes@)
        &&& forall|i: int| 0 <= i < self.votes@.len() ==> distinct_keys((#[trigger] self.votes@[i]).1@)
        &&& distinct_keys(self.delegations@)
        &&& self.params.quorum_bps <= MAX_QUORUM_BPS
        &&& forall|k: u64| #[trigger] id_map(self.proposals@).dom().contains(k) ==> id_map(self.proposals@)[k].proposal_id
            == k && id_map(self.proposals@)[k].votes_for + id_map(self.proposals@)[k].votes_against <= u64::MAX
    }

    /// A contract that has not been initialized.
    pub fn new() -> (r: Self)
        ensures
            r.wf(),
            r@ == (GovernanceV2View {
                admin: None,
                paused: false,
                stablecoin: Seq::empty(),
                next_proposal_id: 1,
                params: GovernanceParams {
                    voting_period: DEFAULT_VOTING_PERIOD,
                    quorum_bps: DEFAULT_QUORUM_BPS,
                    proposal_threshold_bps: MIN_PROPOSAL_THRESHOLD_BPS,
                    execution_delay: EXECUTION_DELAY,
                },
                proposals: Map::empty(),
                votes: Map::empty(),
                delegations: Map::empty(),
                effects: Seq::empty(),
            }),
    {
        let r = GovernanceContractV2 {
            admin: None,
            paused: false,
            stablecoin: String::new(),
            next_proposal_id: 1,
            params: GovernanceParams {
                voting_period: DEFAULT_VOTING_PERIOD,
                quorum_bps: DEFAULT_QUORUM_BPS,
                proposal_threshold_bps: MIN_PROPOSAL_THRESHOLD_BPS,
                execution_delay: EXECUTION_DELAY,
            },
            proposals: Vec::new(),
            votes: Vec::new(),
            delegations: Vec::new(),
            effects: Vec::new(),
        };
        proof {
            assert(id_map(r.proposals@).map_values(|p: GovernanceProposal| proposal_record(p)) =~= Map::<
                u64,
                ProposalRecord,
            >::empty());
            assert(vote_tables(r.votes@) =~= Map::<u64, Map<Seq<char>, VoteRecord>>::empty());
            assert(delegation_map(r.delegations@) =~= Map::<Seq<char>, Seq<char>>::empty());
        }
        r
    }

    /// Set the admin and the governance token, unpause, number proposals from 1
    /// and set the default parameters; only once.
    pub fn initialize(&mut self, admin: &str, stablecoin_address: &str) -> (r: Result<(), String>)
        requires
            old(self).wf(),
        ensures
            final(self).wf(),
            old(self)@.admin is Some ==> fails_with(r, "Already initialized"@) && final(self)@ == old(self)@,
            old(self)@.admin is None ==> r is Ok && final(self)@ == (GovernanceV2View {
                admin: Some(admin@),
                paused: false,
                stablecoin: stablecoin_address@,
                next_proposal_id: 1,
                params: GovernanceParams {
                    voting_period: DEFAULT_VOTING_PERIOD,
                    quorum_bps: DEFAULT_QUORUM_BPS,
                    proposal_threshold_bps: MIN_PROPOSAL_THRESHOLD_BPS,
                    execution_delay: EXECUTION_DELAY,
                },
                proposals: Map::empty(),
                votes: Map::empty(),
                delegations: Map::empty(),
                ..old(self)@
            }),
    {
        if self.admin.is_some() {
            proof {
                reveal_strlit("Already initialized");
            }
            return Err(String::from_str("Already initialized"));
        }
        self.admin = Some(String::from_str(admin));
        self.paused = false;
        self.stablecoin = String::from_str(stablecoin_address);
        self.next_proposal_id = 1;
        self.params = GovernanceParams {
            voting_period: DEFAULT_VOTING_PERIOD,
            quorum_bps: DEFAULT_QUORUM_BPS,
            proposal_threshold_bps: MIN_PROPOSAL_THRESHOLD_BPS,
            execution_delay: EXECUTION_DELAY,
        };
        self.proposals = Vec::new();
        self.votes = Vec::new();
        self.delegations = Vec::new();
        proof {
            assert(id_map(self.proposals@).map_values(|p: GovernanceProposal| proposal_record(p)) =~= Map::<
                u64,
                ProposalRecord,
            >::empty());
            assert(vote_tables(self.votes@) =~= Map::<u64, Map<Seq<char>, VoteRecord>>::empty());
            assert(delegation_map(self.delegations@) =~= Map::<Seq<char>, Seq<char>>::empty());
        }
        Ok(())
    }

    /// Voting power of `address`: the power of the address it delegated to, if
    /// any, else its (mock) token balance.
    pub fn get_voting_power(&self, address: &str) -> (r: u64)
        requires
            self.wf(),
            chain_ends(self@.delegations, address@),
        ensures
            r == MOCK_VOTING_POWER,
    {
        let ghost m = self@.delegations;
        let ghost n: nat = choose|n: nat| ends_within(m, address@, n);
        let mut cur = String::from_str(address);
        let ghost mut k: nat = n;
        loop
            invariant
                self.wf(),
                m == self@.delegations,
                ends_within(m, cur@, k),
            decreases k,
        {
            match find_key(&self.delegations, cur.as_str()) {
                Some(i) => {
                    proof {
                        assert(m.dom().contains(cur@));
                        assert(m[cur@] == self.delegations@[i as int].1@);
                        k = (k - 1) as nat;
                    }
                    cur = self.delegations[i].1.clone();
                },
                None => {
                    return MOCK_VOTING_POWER;
                },
            }
        }
    }

    /// The current parameters.
    pub fn get_params(&self) -> (r: GovernanceParams)
        ensures
            r == self@.params,
    {
        self.params
    }

    /// Whether the contract is paused.
    pub fn is_paused(&self) -> (r: bool)
        ensures
            r == self@.paused,
    {
        self.paused
    }

    /// The effects published by executed proposals, in order.
    pub fn published_effects(&self) -> (r: Vec<GovernanceEffect>)
        ensures
            r@ == self@.effects,
    {
        clone_effects(&self.effects)
    }

    /// Create a proposal at `now`.  The proposer's power must reach the threshold
    /// share of the supply.
    pub fn create_proposal(
        &mut self,
        proposer: &str,
        proposal_type: ProposalType,
        description: String,
        now: u64,
    ) -> (r: Result<u64, String>)
        requires
            old(self).wf(),
            old(self)@.admin is Some,
            chain_ends(old(self)@.delegations, proposer@),
            MOCK_TOTAL_SUPPLY * old(self)@.params.proposal_threshold_bps <= u64::MAX,
            old(self)@.next_proposal_id < u64::MAX,
            now + old(self)@.params.voting_period <= u64::MAX,
        ensures
            final(self).wf(),
            old(self)@.paused ==> fails_with(r, "Governance is paused"@),
            !old(self)@.paused && MOCK_VOTING_POWER < proposal_threshold(old(self)@.params) ==> fails_with(
                r,
                "Insufficient voting power to create proposal"@,
            ),
            !old(self)@.paused && MOCK_VOTING_POWER >= proposal_threshold(old(self)@.params) ==> r is Ok,
            r is Err ==> final(self)@ == old(self)@,
            r is Ok ==> !old(self)@.paused && MOCK_VOTING_POWER >= proposal_threshold(old(self)@.params) && r
                == Ok::<u64, String>(old(self)@.next_proposal_id) && final(self)@ == (GovernanceV2View {
                next_proposal_id: (old(self)@.next_proposal_id + 1) as u64,
                proposals: old(self)@.proposals.insert(
                    old(self)@.next_proposal_id,
                    ProposalRecord {
                        proposal_id: old(self)@.next_proposal_id,
                        proposer: proposer@,
                        proposal_type,
                        description: description@,
                        created_at: now,
                        voting_deadline: (now + old(self)@.params.voting_period) as u64,
                        votes_for: 0,
                        votes_against: 0,
                        executed: false,
                    },
                ),
                ..old(self)@
            }),
    {
        proof {
            reveal_strlit("Governance is paused");
            reveal_strlit("Insufficient voting power to create proposal");
        }
        if self.paused {
            return Err(String::from_str("Governance is paused"));
        }
        let power = self.get_voting_power(proposer);
        let threshold: u64 = MOCK_TOTAL_SUPPLY * (self.params.proposal_threshold_bps as u64) / 10_000;
        if power < threshold {
            return Err(String::from_str("Insufficient voting power to create proposal"));
        }
        let id = self.next_proposal_id;
        self.next_proposal_id = id + 1;
        let proposal = GovernanceProposal {
            proposal_id: id,
            proposer: String::from_str(proposer),
            proposal_type,
            description,
            created_at: now,
            voting_deadline: now + self.params.voting_period,
            votes_for: 0,
            votes_against: 0,
            executed: false,
        };
        let ghost rec = proposal_record(proposal);
        upsert_id(&mut self.proposals, id, proposal);
        proof {
            assert(self@.proposals =~= old(self)@.proposals.insert(id, rec));
        }
        Ok(id)
    }

    /// Replace the proposal at position `i`, keeping its identifier.
    fn replace_proposal(&mut self, i: usize, p: GovernanceProposal)
        requires
            old(self).wf(),
            i < old(self).proposals@.len(),
            p.proposal_id == old(self).proposals@[i as int].0,
            p.votes_for + p.votes_against <= u64::MAX,
        ensures
            final(self).wf(),
            final(self)@ == (GovernanceV2View {
                proposals: old(self)@.proposals.insert(p.proposal_id, proposal_record(p)),
                ..old(self)@
            }),
    {
        let ghost s0 = self.proposals@;
        let ghost rec = proposal_record(p);
        let (k, _old) = self.proposals.remove(i);
        self.proposals.insert(i, (k, p));
        proof {
            assert(self.proposals@ =~= s0.update(i as int, (k, p)));
            lemma_id_update(s0, i as int, p);
            assert(self@.proposals =~= old(self)@.proposals.insert(k, rec));
        }
    }

    /// Record a vote, with a reason, on an open proposal at `now`, once per
    /// voter, counting the voter's power for or against it.
    pub fn vote(&mut self, voter: &str, proposal_id: u64, support: bool, reason: Option<String>, now: u64) -> (r:
        Result<(), String>)
        requires
            old(self).wf(),
            old(self)@.admin is Some,
            chain_ends(old(self)@.delegations, voter@),
            old(self)@.proposals.dom().contains(proposal_id) ==> old(self)@.proposals[proposal_id].votes_for
                + old(self)@.proposals[proposal_id].votes_against + MOCK_VOTING_POWER <= u64::MAX,
        ensures
            final(self).wf(),
            match vote_refusal(old(self)@, voter@, proposal_id, now) {
                Some(msg) => fails_with(r, msg) && final(self)@ == old(self)@,
                None => r is Ok && final(self)@ == after_vote(
                    old(self)@,
                    voter@,
                    proposal_id,
                    support,
                    match reason {
                        Some(s) => Some(s@),
                        None => None,
                    },
                    now,
                ),
            },
    {
        proof {
            reveal_strlit("Governance is paused");
            reveal_strlit("Proposal not found");
            reveal_strlit("Proposal already executed");
            reveal_strlit("Voting period has ended");
            reveal_strlit("Already voted on this proposal");
        }
        if self.paused {
            return Err(String::from_str("Governance is paused"));
        }
        let i = match find_id(&self.proposals, proposal_id) {
            Some(i) => i,
            None => return Err(String::from_str("Proposal not found")),
        };
        proof {
            lemma_id_map_value(self.proposals@, i as int);
        }
        if self.proposals[i].1.executed {
            return Err(String::from_str("Proposal already executed"));
        }
        if now > self.proposals[i].1.voting_deadline {
            return Err(String::from_str("Voting period has ended"));
        }
        let vj = find_id(&self.votes, proposal_id);
        match vj {
            Some(j) => {
                proof {
                    lemma_id_map_value(self.votes@, j as int);
                }
                if find_key(&self.votes[j].1, voter).is_some() {
                    return Err(String::from_str("Already voted on this proposal"));
                }
            },
            None => {},
        }
        let voting_power = self.get_voting_power(voter);
        let ghost v0 = self@;
        let ghost inner0 = votes_on(v0, proposal_id);
        let mut inner: Vec<(String, Vote)> = match vj {
            Some(j) => {
                let ghost s0 = self.votes@;
                let (_k, l) = self.votes.remove(j);
                let empty: Vec<(String, Vote)> = Vec::new();
                self.votes.insert(j, (proposal_id, empty));
                proof {
                    assert(self.votes@ =~= s0.update(j as int, (proposal_id, empty)));
                    lemma_id_update(s0, j as int, empty);
                    lemma_id_map_value(s0, j as int);
                    assert(to_map(l@).map_values(|v: Vote| vote_record(v)) == inner0);
                    assert forall|x: int| 0 <= x < self.votes@.len() implies distinct_keys(
                        (#[trigger] self.votes@[x]).1@,
                    ) by {
                        if x != j {
                            assert(self.votes@[x] == s0[x]);
                        }
                    }
                }
                l
            },
            None => {
                let l: Vec<(String, Vote)> = Vec::new();
                proof {
                    assert(to_map(l@).map_values(|v: Vote| vote_record(v)) =~= inner0);
                }
                l
            },
        };
        let entry = Vote { support, voting_power, timestamp: now, reason };
        let ghost erec = vote_record(entry);
        let ghost inner_before = inner@;
        upsert(&mut inner, voter, entry);
        proof {
            assert(to_map(inner@).map_values(|v: Vote| vote_record(v)) =~= to_map(inner_before).map_values(
                |v: Vote| vote_record(v),
            ).insert(voter@, erec));
        }
        let ghost s1 = self.votes@;
        upsert_id(&mut self.votes, proposal_id, inner);
        proof {
            assert forall|x: int| 0 <= x < self.votes@.len() implies distinct_keys((#[trigger] self.votes@[x]).1@) by {
                lemma_id_map_value(self.votes@, x);
                if self.votes@[x].0 != proposal_id {
                    let k = self.votes@[x].0;
                    assert(id_map(s1).dom().contains(k));
                    crate::idmap::lemma_id_map_dom(s1, k);
                    let y = choose|y: int| 0 <= y < s1.len() && s1[y].0 == k;
                    lemma_id_map_value(s1, y);
                }
            }
            assert(vote_tables(self.votes@) =~= v0.votes.insert(proposal_id, inner0.insert(voter@, erec)));
        }
        let mut p = self.proposals[i].1.clone();
        let ghost before = proposal_record(p);
        if support {
            p.votes_for = p.votes_for + voting_power;
        } else {
            p.votes_against = p.votes_against + voting_power;
        }
        self.replace_proposal(i, p);
        Ok(())
    }

    /// Execute a proposal at `now`: after its voting deadline, with the quorum
    /// reached, a majority for it and the execution delay over.  Its effect is
    /// published and it is marked executed.
    pub fn execute_proposal(&mut self, executor: &str, proposal_id: u64, now: u64) -> (r: Result<(), String>)
        requires
            old(self).wf(),
            old(self)@.admin is Some,
            old(self)@.proposals.dom().contains(proposal_id) ==> old(self)@.proposals[proposal_id].voting_deadline
                + old(self)@.params.execution_delay <= u64::MAX,
        ensures
            final(self).wf(),
            match execution_refusal(old(self)@, proposal_id, now) {
                Some(msg) => fails_with(r, msg) && final(self)@ == old(self)@,
                None => r is Ok && final(self)@ == after_execution(old(self)@, proposal_id, now),
            },
    {
        proof {
            reveal_strlit("Governance is paused");
            reveal_strlit("Proposal not found");
            reveal_strlit("Proposal already executed");
            reveal_strlit("Voting period has not ended");
            reveal_strlit("Quorum not reached");
            reveal_strlit("Proposal did not pass");
            reveal_strlit("Execution delay has not passed");
        }
        if self.paused {
            return Err(String::from_str("Governance is paused"));
        }
        let i = match find_id(&self.proposals, proposal_id) {
            Some(i) => i,
            None => return Err(String::from_str("Proposal not found")),
        };
        proof {
            lemma_id_map_value(self.proposals@, i as int);
        }
        let mut p = self.proposals[i].1.clone();
        if p.executed {
            return Err(String::from_str("Proposal already executed"));
        }
        if now <= p.voting_deadline {
            return Err(String::from_str("Voting period has not ended"));
        }
        let quorum: u64 = MOCK_TOTAL_SUPPLY * (self.params.quorum_bps as u64) / 10_000;
        let total_votes = p.votes_for + p.votes_against;
        if total_votes < quorum {
            return Err(String::from_str("Quorum not reached"));
        }
        if p.votes_for <= p.votes_against {
            return Err(String::from_str("Proposal did not pass"));
        }
        if now < p.voting_deadline + self.params.execution_delay {
            return Err(String::from_str("Execution delay has not passed"));
        }
        let effect = execute_proposal_logic(&p, now);
        self.effects.push(effect);
        p.executed = true;
        self.replace_proposal(i, p);
        Ok(())
    }

    /// Delegate `delegator`'s voting power to `delegate` (not to itself).
    pub fn delegate(&mut self, delegator: &str, delegate: &str) -> (r: Result<(), String>)
        requires
            old(self).wf(),
            old(self)@.admin is Some,
        ensures
            final(self).wf(),
            old(self)@.paused ==> fails_with(r, "Governance is paused"@) && final(self)@ == old(self)@,
            !old(self)@.paused && delegator@ == delegate@ ==> fails_with(r, "Cannot delegate to self"@) && final(self)@ == old(self)@,
            !old(self)@.paused && delegator@ != delegate@ ==> r is Ok && final(self)@ == (GovernanceV2View {
                delegations: old(self)@.delegations.insert(delegator@, delegate@),
                ..old(self)@
            }),
    {
        proof {
            reveal_strlit("Governance is paused");
            reveal_strlit("Cannot delegate to self");
        }
        if self.paused {
            return Err(String::from_str("Governance is paused"));
        }
        let a = String::from_str(delegator);
        let b = String::from_str(delegate);
        if a == b {
            return Err(String::from_str("Cannot delegate to self"));
        }
        let ghost d0 = self.delegations@;
        upsert(&mut self.delegations, delegator, b);
        proof {
            assert(delegation_map(self.delegations@) =~= delegation_map(d0).insert(delegator@, delegate@));
        }
        Ok(())
    }

    /// A proposal by identifier.
    pub fn get_proposal(&self, proposal_id: u64) -> (r: Result<GovernanceProposal, String>)
        requires
            self.wf(),
        ensures
            self@.proposals.dom().contains(proposal_id) ==> returns_proposal(r, self@.proposals[proposal_id]),
            !self@.proposals.dom().contains(proposal_id) ==> fails_with(r, "Proposal not found"@),
    {
        proof {
            reveal_strlit("Proposal not found");
        }
        match find_id(&self.proposals, proposal_id) {
            Some(i) => {
                proof {
                    lemma_id_map_value(self.proposals@, i as int);
                }
                Ok(self.proposals[i].1.clone())
            },
            None => Err(String::from_str("Proposal not found")),
        }
    }

    /// The proposal table, in creation order.
    pub closed spec fn proposal_table(&self) -> Seq<(u64, GovernanceProposal)> {
        self.proposals@
    }

    /// The proposals still open for voting at `now`, in creation order.
    pub fn get_active_proposals(&self, now: u64) -> (r: Vec<GovernanceProposal>)
        ensures
            r@.map_values(|p: GovernanceProposal| proposal_record(p)) == open_records(self.proposal_table(), now),
    {
        let mut out: Vec<GovernanceProposal> = Vec::new();
        let mut i: usize = 0;
        while i < self.proposals.len()
            invariant
                i <= self.proposals@.len(),
                out@.map_values(|p: GovernanceProposal| proposal_record(p)) == open_records(
                    self.proposals@.take(i as int),
                    now,
                ),
            decreases self.proposals@.len() - i,
        {
            proof {
                assert(self.proposals@.take(i + 1).drop_last() =~= self.proposals@.take(i as int));
            }
            if !self.proposals[i].1.executed && now <= self.proposals[i].1.voting_deadline {
                let ghost before = out@;
                let c = self.proposals[i].1.clone();
                out.push(c);
                proof {
                    assert(out@.map_values(|p: GovernanceProposal| proposal_record(p)) =~= before.map_values(
                        |p: GovernanceProposal| proposal_record(p),
                    ).push(proposal_record(c)));
                }
            }
            i = i + 1;
        }
        proof {
            assert(self.proposals@.take(self.proposals@.len() as int) =~= self.proposals@);
        }
        out
    }

    /// Replace the parameters; only the contract itself (`contract_address` is
    /// the calling contract) may, with a voting period of 3 to 30 days and a
    /// quorum of 5% to 50%.
    pub fn update_params(&mut self, contract_address: &str, new_params: GovernanceParams) -> (r: Result<
        (),
        String,
    >)
        requires
            old(self).wf(),
            old(self)@.admin is Some,
        ensures
            final(self).wf(),
            old(self)@.admin != Some(contract_address@) ==> fails_with(r, "Not authorized"@),
            old(self)@.admin == Some(contract_address@) && (new_params.voting_period < MIN_VOTING_PERIOD
                || new_params.voting_period > MAX_VOTING_PERIOD) ==> fails_with(r, "Invalid voting period"@),
            old(self)@.admin == Some(contract_address@) && MIN_VOTING_PERIOD <= new_params.voting_period
                <= MAX_VOTING_PERIOD && (new_params.quorum_bps < MIN_QUORUM_BPS || new_params.quorum_bps
                > MAX_QUORUM_BPS) ==> fails_with(r, "Invalid quorum"@),
            old(self)@.admin == Some(contract_address@) && MIN_VOTING_PERIOD <= new_params.voting_period <= MAX_VOTING_PERIOD
                && MIN_QUORUM_BPS <= new_params.quorum_bps <= MAX_QUORUM_BPS ==> r is Ok,
            r is Err ==> final(self)@ == old(self)@,
            r is Ok ==> old(self)@.admin == Some(contract_address@) && MIN_VOTING_PERIOD <= new_params.voting_period
                <= MAX_VOTING_PERIOD && MIN_QUORUM_BPS <= new_params.quorum_bps <= MAX_QUORUM_BPS && final(self)@ == (
            GovernanceV2View { params: new_params, ..old(self)@ }),
    {
        proof {
            reveal_strlit("Not authorized");
            reveal_strlit("Invalid voting period");
            reveal_strlit("Invalid quorum");
        }
        if !self.is_admin(contract_address) {
            return Err(String::from_str("Not authorized"));
        }
        if new_params.voting_period < MIN_VOTING_PERIOD || new_params.voting_period > MAX_VOTING_PERIOD {
            return Err(String::from_str("Invalid voting period"));
        }
        if new_params.quorum_bps < MIN_QUORUM_BPS || new_params.quorum_bps > MAX_QUORUM_BPS {
            return Err(String::from_str("Invalid quorum"));
        }
        self.params = new_params;
        Ok(())
    }

    /// Whether `caller` is the stored admin.
    fn is_admin(&self, caller: &str) -> (r: bool)
        ensures
            r == (self@.admin == Some(caller@)),
    {
        let who = String::from_str(caller);
        match &self.admin {
            Some(a) => *a == who,
            None => false,
        }
    }

    /// Pause governance; only the contract itself may.
    pub fn emergency_pause(&mut self, contract_address: &str) -> (r: Result<(), String>)
        requires
            old(self).wf(),
            old(self)@.admin is Some,
        ensures
            final(self).wf(),
            old(self)@.admin != Some(contract_address@) ==> fails_with(r, "Not authorized"@) && final(self)@ == old(self)@,
            old(self)@.admin == Some(contract_address@) ==> r is Ok && final(self)@ == (GovernanceV2View {
                paused: true,
                ..old(self)@
            }),
    {
        if !self.is_admin(contract_address) {
            proof {
                reveal_strlit("Not authorized");
            }
            return Err(String::from_str("Not authorized"));
        }
        self.paused = true;
        Ok(())
    }

    /// Resume governance; only the contract itself may.
    pub fn unpause(&mut self, contract_address: &str) -> (r: Result<(), String>)
        requires
            old(self).wf(),
            old(self)@.admin is Some,
        ensures
            final(self).wf(),
            old(self)@.admin != Some(contract_address@) ==> fails_with(r, "Not authorized"@) && final(self)@ == old(self)@,
            old(self)@.admin == Some(contract_address@) ==> r is Ok && final(self)@ == (GovernanceV2View {
                paused: false,
                ..old(self)@
            }),
    {
        if !self.is_admin(contract_address) {
            proof {
                reveal_strlit("Not authorized");
            }
            return Err(String::from_str("Not authorized"));
        }
        self.paused = false;
        Ok(())
    }
}

} // verus!

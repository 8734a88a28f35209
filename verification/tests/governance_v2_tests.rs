use stellar_defi_toolkit::governance_v2::{
    execute_proposal_logic, GovernanceContractV2, GovernanceEffect, GovernanceParams, GovernanceProposal,
    ProposalType,
};

const SELF_ADDRESS: &str = "governance";

fn contract() -> GovernanceContractV2 {
    let mut g = GovernanceContractV2::new();
    g.initialize(SELF_ADDRESS, "STABLE").unwrap();
    g
}

fn open_params() -> GovernanceParams {
    GovernanceParams { voting_period: 259_200, quorum_bps: 500, proposal_threshold_bps: 0, execution_delay: 172_800 }
}

#[test]
fn default_threshold_exceeds_mock_power() {
    let mut g = contract();
    assert_eq!(g.get_params().proposal_threshold_bps, 10);
    assert_eq!(g.get_voting_power("alice"), 1_000_000);
    assert_eq!(
        g.create_proposal("alice", ProposalType::EmergencyShutdown, "stop".to_string(), 0),
        Err("Insufficient voting power to create proposal".to_string())
    );
    assert_eq!(g.initialize("x", "y"), Err("Already initialized".to_string()));
}

#[test]
fn parameter_updates_are_validated() {
    let mut g = contract();
    assert_eq!(g.update_params("intruder", open_params()), Err("Not authorized".to_string()));
    let mut bad = open_params();
    bad.voting_period = 10;
    assert_eq!(g.update_params(SELF_ADDRESS, bad), Err("Invalid voting period".to_string()));
    let mut bad = open_params();
    bad.quorum_bps = 6000;
    assert_eq!(g.update_params(SELF_ADDRESS, bad), Err("Invalid quorum".to_string()));
    g.update_params(SELF_ADDRESS, open_params()).unwrap();
    assert_eq!(g.get_params(), open_params());
}

#[test]
fn proposal_lifecycle_publishes_its_effect() {
    let mut g = contract();
    g.update_params(SELF_ADDRESS, open_params()).unwrap();
    let fees = ProposalType::UpdateFees { minting_fee_bps: 30, redemption_fee_bps: 50 };
    let id = g.create_proposal("alice", fees, "fees".to_string(), 1_000).unwrap();
    assert_eq!(id, 1);
    let p = g.get_proposal(id).unwrap();
    assert_eq!(p.voting_deadline, 1_000 + 259_200);
    assert_eq!(g.get_active_proposals(1_000).len(), 1);
    assert_eq!(g.get_active_proposals(1_000 + 259_201).len(), 0);

    // Quorum is 5% of 1e11 = 5e9, i.e. 5 000 votes of 1e6.
    for i in 0..5_000 {
        g.vote(&format!("v{}", i), id, true, None, 2_000).unwrap();
    }
    g.vote("against", id, false, Some("no".to_string()), 2_000).unwrap();
    assert_eq!(g.vote("v0", id, true, None, 2_000), Err("Already voted on this proposal".to_string()));
    assert_eq!(g.vote("late", id, true, None, 1_000 + 259_201), Err("Voting period has ended".to_string()));
    let p = g.get_proposal(id).unwrap();
    assert_eq!((p.votes_for, p.votes_against), (5_000_000_000, 1_000_000));

    assert_eq!(g.execute_proposal("k", id, 1_000 + 259_200), Err("Voting period has not ended".to_string()));
    assert_eq!(g.execute_proposal("k", id, 1_000 + 259_201), Err("Execution delay has not passed".to_string()));
    g.execute_proposal("k", id, 1_000 + 259_200 + 172_800).unwrap();
    assert!(g.get_proposal(id).unwrap().executed);
    assert_eq!(
        g.published_effects(),
        vec![GovernanceEffect::FeesUpdated { minting_fee_bps: 30, redemption_fee_bps: 50 }]
    );
    assert_eq!(g.execute_proposal("k", id, 10_000_000), Err("Proposal already executed".to_string()));
    assert_eq!(g.vote("x", id, true, None, 2_000), Err("Proposal already executed".to_string()));
}

#[test]
fn quorum_and_majority_are_required() {
    let mut g = contract();
    g.update_params(SELF_ADDRESS, open_params()).unwrap();
    let id = g.create_proposal("a", ProposalType::Custom("x".to_string()), "d".to_string(), 0).unwrap();
    g.vote("a", id, true, None, 0).unwrap();
    assert_eq!(g.execute_proposal("k", id, 259_201), Err("Quorum not reached".to_string()));
    assert_eq!(g.get_proposal(9).unwrap_err(), "Proposal not found");
    assert_eq!(g.execute_proposal("k", 9, 0), Err("Proposal not found".to_string()));
}

#[test]
fn pause_and_delegation() {
    let mut g = contract();
    assert_eq!(g.emergency_pause("intruder"), Err("Not authorized".to_string()));
    g.emergency_pause(SELF_ADDRESS).unwrap();
    assert!(g.is_paused());
    assert_eq!(g.delegate("a", "b"), Err("Governance is paused".to_string()));
    g.unpause(SELF_ADDRESS).unwrap();
    assert_eq!(g.delegate("a", "a"), Err("Cannot delegate to self".to_string()));
    g.delegate("a", "b").unwrap();
    g.delegate("b", "c").unwrap();
    assert_eq!(g.get_voting_power("a"), 1_000_000);
}

#[test]
fn effects_follow_the_proposal_type() {
    let p = GovernanceProposal {
        proposal_id: 7,
        proposer: "p".to_string(),
        proposal_type: ProposalType::EmergencyShutdown,
        description: "d".to_string(),
        created_at: 0,
        voting_deadline: 0,
        votes_for: 0,
        votes_against: 0,
        executed: false,
    };
    assert_eq!(execute_proposal_logic(&p, 99), GovernanceEffect::EmergencyShutdown(99));
    let mut q = p.clone();
    q.proposal_type = ProposalType::Custom("c".to_string());
    assert_eq!(execute_proposal_logic(&q, 99), GovernanceEffect::CustomProposalExecuted(7));
    q.proposal_type = ProposalType::RemoveCollateral { collateral_address: "XLM".to_string() };
    assert_eq!(execute_proposal_logic(&q, 99), GovernanceEffect::CollateralRemoved("XLM".to_string()));
}

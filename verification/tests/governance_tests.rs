use stellar_defi_toolkit::governance::{ActionType, GovernanceContract, ProposalAction, ProposalStatus};

fn make_contract(threshold: u64) -> GovernanceContract {
    GovernanceContract::new("GOV_TOKEN".to_string(), 5000, 604_800, 86_400, threshold)
}

fn default_action() -> ProposalAction {
    ProposalAction {
        action_type: ActionType::Transfer,
        target: "TOKEN_CONTRACT".to_string(),
        function: "transfer".to_string(),
        parameters: vec!["RECIPIENT".to_string(), "1000".to_string()],
        value: None,
    }
}

#[test]
fn test_governance_contract_creation() {
    let contract = make_contract(100_000);
    let info = contract.get_info();
    assert_eq!(info.governance_token, "GOV_TOKEN");
    assert_eq!(info.quorum_percentage, 5000);
    assert_eq!(info.voting_period, 604_800);
    assert_eq!(info.execution_delay, 86_400);
    assert_eq!(info.proposal_threshold, 100_000);
}

#[test]
fn test_create_proposal() {
    let mut contract = make_contract(0);
    let proposer = "proposer";

    let proposal_id = contract
        .create_proposal(
            proposer,
            "Test Proposal".to_string(),
            "This is a test proposal".to_string(),
            vec![default_action()],
            100,
        )
        .unwrap();

    assert_eq!(proposal_id, 1);
    let proposal = contract.get_proposal(proposal_id).unwrap();
    assert_eq!(proposal.title, "Test Proposal");
    assert_eq!(proposal.proposer, proposer);
    assert_eq!(proposal.created_at, 100);
    assert_eq!(proposal.voting_deadline, 100 + 604_800);
}

#[test]
fn test_create_proposal_ineligible() {
    let mut contract = make_contract(100_000);

    let result = contract.create_proposal(
        "proposer",
        "Test Proposal".to_string(),
        "This is a test proposal".to_string(),
        vec![default_action()],
        100,
    );

    assert!(result.is_err());
    assert_eq!(result.unwrap_err(), "Insufficient voting power to create a proposal");
}

#[test]
fn test_invalid_proposal_title() {
    let mut contract = make_contract(0);

    let result = contract.create_proposal("proposer", "".to_string(), "desc".to_string(), vec![default_action()], 100);

    assert!(result.is_err());
    assert_eq!(result.unwrap_err(), "Title must be 1-200 characters");
}

#[test]
fn test_vote() {
    let mut contract = make_contract(0);

    let pid = contract
        .create_proposal(
            "proposer",
            "Test Proposal".to_string(),
            "This is a test proposal".to_string(),
            vec![default_action()],
            100,
        )
        .unwrap();

    let result = contract.vote("voter", pid, true, 1000);
    assert!(result.is_ok());
}

#[test]
fn test_invalid_vote_power() {
    let mut contract = make_contract(0);

    let result = contract.vote("voter", 1, true, 0);
    assert!(result.is_err());
    assert_eq!(result.unwrap_err(), "Voting power must be greater than 0");
}

#[test]
fn test_update_parameters() {
    let mut contract = make_contract(100_000);
    contract.update_parameters(6000, 1_209_600, 172_800).unwrap();
    let info = contract.get_info();
    assert_eq!(info.quorum_percentage, 6000);
    assert_eq!(info.voting_period, 1_209_600);
    assert_eq!(info.execution_delay, 172_800);
}

#[test]
fn test_invalid_quorum() {
    let mut contract = make_contract(100_000);
    let result = contract.update_parameters(15_000, 604_800, 86_400);
    assert!(result.is_err());
    assert_eq!(result.unwrap_err(), "Quorum must be <= 10000 basis points");
}

#[test]
fn test_create_delisting_proposal() {
    let mut contract = make_contract(0);
    let now: u64 = 1_000_000;

    let pid = contract
        .create_delisting_proposal(
            "proposer",
            "USDC".to_string(),
            "Asset being deprecated from the protocol".to_string(),
            604_800,
            now,
        )
        .unwrap();

    let proposal = contract.get_proposal(pid).unwrap();
    assert!(proposal.title.contains("USDC"));
    assert_eq!(proposal.actions.len(), 1);

    match &proposal.actions[0].action_type {
        ActionType::DelistAsset { asset_id, notice_period, delist_at } => {
            assert_eq!(asset_id, "USDC");
            assert_eq!(*notice_period, 604_800);
            let expected = now + 604_800 + 86_400 + 604_800;
            assert_eq!(*delist_at, expected);
        },
        _ => panic!("Expected DelistAsset action"),
    }
}

#[test]
fn test_delisting_proposal_default_notice_period() {
    let mut contract = make_contract(0);
    let now: u64 = 1_000_000;

    let pid = contract.create_delisting_proposal("proposer", "XLM".to_string(), "Delisting XLM".to_string(), 0, now).unwrap();

    let proposal = contract.get_proposal(pid).unwrap();
    match &proposal.actions[0].action_type {
        ActionType::DelistAsset { notice_period, .. } => {
            assert_eq!(*notice_period, 604_800);
        },
        _ => panic!("Expected DelistAsset action"),
    }
}

#[test]
fn test_vote_on_delisting_proposal() {
    let mut contract = make_contract(0);
    let now: u64 = 1_000_000;

    let pid = contract.create_delisting_proposal("proposer", "TOKEN".to_string(), "Delisting".to_string(), 604_800, now).unwrap();

    let result = contract.vote("voter", pid, true, 5_000);
    assert!(result.is_ok());

    let proposal = contract.get_proposal(pid).unwrap();
    assert_eq!(proposal.votes_for, 5_000);
}

#[test]
fn test_cancel_delisting_proposal() {
    let mut contract = make_contract(0);
    let now: u64 = 1_000_000;

    let pid = contract.create_delisting_proposal("proposer", "TOKEN".to_string(), "Delisting".to_string(), 604_800, now).unwrap();

    contract.cancel_proposal("proposer", pid).unwrap();

    let proposal = contract.get_proposal(pid).unwrap();
    assert!(matches!(proposal.status, ProposalStatus::Cancelled));
}

#[test]
fn delisting_texts_and_parameters() {
    let mut contract = make_contract(0);
    let pid = contract.create_delisting_proposal("p", "XLM".to_string(), "Old".to_string(), 10, 5).unwrap();
    let proposal = contract.get_proposal(pid).unwrap();
    assert_eq!(proposal.title, "Delist asset: XLM");
    assert_eq!(proposal.description, "Old\n\nNotice period: 10 seconds. Positions can be closed until 691215.");
    assert_eq!(proposal.actions[0].target, "asset_registry");
    assert_eq!(proposal.actions[0].function, "delist_asset");
    assert_eq!(proposal.actions[0].parameters, vec!["XLM".to_string(), "10".to_string(), "691215".to_string()]);
    assert_eq!(proposal.execution_time, 5 + 604_800 + 86_400);
}

#[test]
fn double_vote_and_unknown_proposal_are_refused() {
    let mut contract = make_contract(0);
    let pid = contract.create_proposal("p", "T".to_string(), "D".to_string(), vec![default_action()], 0).unwrap();
    assert_eq!(contract.vote("v", 9, true, 1), Err("Proposal not found".to_string()));
    contract.vote("v", pid, false, 7).unwrap();
    assert_eq!(contract.vote("v", pid, true, 1), Err("Already voted".to_string()));
    let p = contract.get_proposal(pid).unwrap();
    assert_eq!((p.votes_for, p.votes_against, p.total_voting_power), (0, 7, 7));
}

#[test]
fn execution_follows_deadlines_quorum_and_majority() {
    let mut contract = make_contract(0);
    let pid = contract.create_proposal("p", "T".to_string(), "D".to_string(), vec![default_action()], 0).unwrap();
    assert_eq!(contract.execute_proposal("x", pid, 10), Err("Voting period has not ended".to_string()));
    contract.vote("a", pid, true, 6_000).unwrap();
    assert!(contract.has_proposal_passed(pid));
    assert_eq!(contract.execute_proposal("x", pid, 604_800), Err("Execution delay has not passed".to_string()));
    assert_eq!(contract.get_proposal(pid).unwrap().status, ProposalStatus::Succeeded);
    assert_eq!(contract.get_active_proposals().len(), 0);
    assert_eq!(contract.execute_proposal("x", pid, 604_800 + 86_400), Ok(()));
    assert_eq!(contract.get_proposal(pid).unwrap().status, ProposalStatus::Executed);
    assert_eq!(contract.cancel_proposal("p", pid), Err("Cannot cancel executed proposal".to_string()));
    assert_eq!(contract.execute_proposal("x", pid, 10_000_000), Err("Proposal cannot be executed".to_string()));
}

#[test]
fn proposal_without_quorum_is_defeated() {
    let mut contract = make_contract(0);
    let pid = contract.create_proposal("p", "T".to_string(), "D".to_string(), vec![default_action()], 0).unwrap();
    contract.vote("a", pid, true, 100).unwrap();
    assert!(!contract.has_proposal_passed(pid));
    assert_eq!(contract.execute_proposal("x", pid, 700_000), Err("Proposal did not pass".to_string()));
    assert_eq!(contract.get_proposal(pid).unwrap().status, ProposalStatus::Defeated);
    assert_eq!(contract.cancel_proposal("q", pid), Err("Only proposer can cancel".to_string()));
    assert_eq!(contract.get_all_proposals().len(), 1);
}

#[test]
fn create_proposal_checks_description_and_actions() {
    let mut contract = make_contract(0);
    assert_eq!(
        contract.create_proposal("p", "T".to_string(), "".to_string(), vec![default_action()], 0),
        Err("Description must be 1-5000 characters".to_string())
    );
    assert_eq!(
        contract.create_proposal("p", "T".to_string(), "D".to_string(), vec![], 0),
        Err("At least one action is required".to_string())
    );
    assert_eq!(contract.get_voting_power("p"), 0);
    assert_eq!(contract.delegate("p", "q"), Ok(()));
    assert_eq!(contract.get_delegation("p"), None);
}

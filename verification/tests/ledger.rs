use carbon_ledger::error::ContractError;
use carbon_ledger::helpers::verify_zk_proof;
use carbon_ledger::msg::{
    ClaimsResponse, ExecuteMsg, InstantiateMsg, OrganizationsResponse, QueryMsg,
};
use carbon_ledger::queries::{
    claim_response, claims_page, config_response, organization_list_item, organization_response,
    total_carbon_credits_response,
};
use carbon_ledger::state::{Claim, ClaimStatus, OrganizationInfo, Vote, VoteOption};
use carbon_ledger::transitions::{
    add_emission, cast_vote, credit_approved_claim, eligibility_approved, finalize_status,
    initial_config, lend_tokens, narrow_organization_stats, new_claim, parse_u128,
    rename_organization, repay_tokens, reward_voter, vote_was_correct,
};

fn sample_claim(status: ClaimStatus, yes: u128, no: u128, end: u64) -> Claim {
    Claim {
        id: 1,
        organization: "org".to_string(),
        longitudes: vec!["10.5".to_string()],
        latitudes: vec!["47.1".to_string()],
        time_started: 100,
        time_ended: 200,
        demanded_tokens: 40,
        ipfs_hashes: vec!["hash".to_string()],
        status,
        voting_end_time: end,
        yes_votes: yes,
        no_votes: no,
    }
}

fn org_with(credits: u128, debt: u128) -> OrganizationInfo {
    let mut org = OrganizationInfo::fresh();
    org.carbon_credits = credits;
    org.debt = debt;
    org
}

#[test]
fn initial_config_starts_empty() {
    let config = initial_config("owner".to_string(), 3600);
    assert_eq!(config.owner, "owner");
    assert_eq!(config.voting_period, 3600);
    assert_eq!(config.total_carbon_credits, 0);
}

#[test]
fn new_claims_open_a_voting_window() {
    let claim = new_claim(
        7,
        "org".to_string(),
        vec!["1.0".to_string()],
        vec!["2.0".to_string()],
        10,
        20,
        500,
        vec!["h".to_string()],
        1000,
        600,
    );
    assert_eq!(claim.id, 7);
    assert_eq!(claim.status, ClaimStatus::Active);
    assert_eq!(claim.voting_end_time, 1600);
    assert_eq!(claim.yes_votes, 0);
    assert_eq!(claim.no_votes, 0);
}

#[test]
fn votes_tally_by_choice() {
    let claim = sample_claim(ClaimStatus::Active, 2, 3, 1000);
    let updated = cast_vote(claim, VoteOption::Yes, false, 900).expect("open vote");
    assert_eq!(updated.yes_votes, 3);
    assert_eq!(updated.no_votes, 3);
    let again = cast_vote(updated, VoteOption::No, false, 1000).expect("still open");
    assert_eq!(again.yes_votes, 3);
    assert_eq!(again.no_votes, 4);
}

#[test]
fn votes_after_the_window_are_refused() {
    let claim = sample_claim(ClaimStatus::Active, 0, 0, 1000);
    assert_eq!(
        cast_vote(claim, VoteOption::Yes, false, 1001).unwrap_err(),
        ContractError::VotingEnded
    );
}

#[test]
fn double_votes_are_refused() {
    let claim = sample_claim(ClaimStatus::Active, 0, 0, 1000);
    assert_eq!(
        cast_vote(claim, VoteOption::Yes, true, 1000).unwrap_err(),
        ContractError::AlreadyVoted
    );
}

#[test]
fn finalizing_early_is_refused() {
    let claim = sample_claim(ClaimStatus::Active, 5, 1, 1000);
    assert_eq!(
        finalize_status(claim, 1000).unwrap_err(),
        ContractError::VotingNotEnded
    );
}

#[test]
fn ties_approve_a_claim() {
    let claim = sample_claim(ClaimStatus::Active, 2, 2, 1000);
    let (settled, approved) = finalize_status(claim, 1001).expect("window closed");
    assert!(approved);
    assert_eq!(settled.status, ClaimStatus::Approved);
}

#[test]
fn losing_votes_reject_a_claim() {
    let claim = sample_claim(ClaimStatus::Active, 1, 2, 1000);
    let (settled, approved) = finalize_status(claim, 1001).expect("window closed");
    assert!(!approved);
    assert_eq!(settled.status, ClaimStatus::Rejected);
}

#[test]
fn approved_claims_pay_out() {
    let org = org_with(10, 0);
    let config = initial_config("owner".to_string(), 60);
    let (credited, new_config) = credit_approved_claim(org, config, 40);
    assert_eq!(credited.carbon_credits, 50);
    assert_eq!(new_config.total_carbon_credits, 40);
}

#[test]
fn correct_voters_earn_reputation() {
    assert!(vote_was_correct(VoteOption::Yes, true));
    assert!(!vote_was_correct(VoteOption::Yes, false));
    assert!(!vote_was_correct(VoteOption::No, true));
    assert!(vote_was_correct(VoteOption::No, false));
    let org = OrganizationInfo::fresh();
    assert_eq!(reward_voter(org).reputation_score, 1);
}

#[test]
fn lending_moves_credits_and_books_debt() {
    let lender = org_with(100, 0);
    let borrower = org_with(5, 0);
    let (lender_after, borrower_after) =
        lend_tokens(lender, borrower, 30).expect("enough credits");
    assert_eq!(lender_after.carbon_credits, 70);
    assert_eq!(borrower_after.carbon_credits, 35);
    assert_eq!(borrower_after.debt, 30);
    assert_eq!(borrower_after.times_borrowed, 1);
    assert_eq!(borrower_after.total_borrowed, 30);
}

#[test]
fn lending_beyond_the_balance_is_refused() {
    let lender = org_with(10, 0);
    let borrower = org_with(0, 0);
    assert_eq!(
        lend_tokens(lender, borrower, 11).unwrap_err(),
        ContractError::NotEnoughCredits
    );
}

#[test]
fn repayment_clears_debt() {
    let borrower = org_with(50, 30);
    let lender = org_with(0, 0);
    let (borrower_after, lender_after) =
        repay_tokens(borrower, lender, 30).expect("repayable");
    assert_eq!(borrower_after.carbon_credits, 20);
    assert_eq!(borrower_after.debt, 0);
    assert_eq!(borrower_after.total_returned, 30);
    assert_eq!(lender_after.carbon_credits, 30);
}

#[test]
fn repayment_needs_credits_and_debt() {
    assert_eq!(
        repay_tokens(org_with(5, 30), org_with(0, 0), 10).unwrap_err(),
        ContractError::NotEnoughCredits
    );
    assert_eq!(
        repay_tokens(org_with(50, 5), org_with(0, 0), 10).unwrap_err(),
        ContractError::NotEnoughCredits
    );
}

#[test]
fn renaming_keeps_the_counters() {
    let org = org_with(7, 3);
    let renamed = rename_organization(org, "solar".to_string());
    assert_eq!(renamed.name, "solar");
    assert_eq!(renamed.carbon_credits, 7);
    assert_eq!(renamed.debt, 3);
}

#[test]
fn decimal_strings_parse_to_amounts() {
    assert_eq!(parse_u128(&b"0".to_vec()).unwrap(), 0);
    assert_eq!(parse_u128(&b"123".to_vec()).unwrap(), 123);
    assert_eq!(
        parse_u128(&b"340282366920938463463374607431768211455".to_vec()).unwrap(),
        u128::MAX
    );
}

#[test]
fn malformed_decimal_strings_are_refused() {
    assert_eq!(
        parse_u128(&Vec::new()).unwrap_err(),
        ContractError::InvalidNumber
    );
    assert_eq!(
        parse_u128(&b"12a".to_vec()).unwrap_err(),
        ContractError::InvalidNumber
    );
    assert_eq!(
        parse_u128(&b"340282366920938463463374607431768211456".to_vec()).unwrap_err(),
        ContractError::Overflow
    );
}

#[test]
fn emissions_accumulate() {
    let mut org = OrganizationInfo::fresh();
    org.emissions = 100;
    let updated = add_emission(org, &b"23".to_vec()).expect("well-formed amount");
    assert_eq!(updated.emissions, 123);
}

#[test]
fn emissions_overflow_is_refused() {
    let mut org = OrganizationInfo::fresh();
    org.emissions = u128::MAX;
    assert_eq!(
        add_emission(org, &b"1".to_vec()).unwrap_err(),
        ContractError::Overflow
    );
}

#[test]
fn narrow_stats_fit_or_refuse() {
    let mut org = org_with(9, 2);
    org.emissions = 4;
    let stats = narrow_organization_stats(&org).expect("all counters fit");
    assert_eq!(stats.carbon_credits, 9);
    assert_eq!(stats.debt, 2);
    assert_eq!(stats.emissions, 4);
    org.total_borrowed = u128::from(u32::MAX) + 1;
    assert_eq!(
        narrow_organization_stats(&org).unwrap_err(),
        ContractError::ValueTooLarge
    );
}

#[test]
fn eligibility_needs_a_positive_score() {
    assert!(eligibility_approved(1));
    assert!(!eligibility_approved(0));
    assert!(!eligibility_approved(-5));
}

#[test]
fn tallies_hide_while_the_vote_runs() {
    let claim = sample_claim(ClaimStatus::Active, 6, 2, 1000);
    let hidden = claim_response(claim, 999);
    assert_eq!(hidden.yes_votes, 0);
    assert_eq!(hidden.no_votes, 0);
    let claim = sample_claim(ClaimStatus::Active, 6, 2, 1000);
    let shown = claim_response(claim, 1000);
    assert_eq!(shown.yes_votes, 6);
    assert_eq!(shown.no_votes, 2);
}

#[test]
fn claim_pages_filter_and_cut() {
    let claims = vec![
        sample_claim(ClaimStatus::Approved, 1, 0, 10),
        sample_claim(ClaimStatus::Rejected, 0, 1, 10),
        sample_claim(ClaimStatus::Approved, 2, 0, 10),
        sample_claim(ClaimStatus::Approved, 3, 0, 10),
    ];
    let page = claims_page(claims, Some(ClaimStatus::Approved), 2, 20);
    assert_eq!(page.len(), 2);
    assert_eq!(page[0].yes_votes, 1);
    assert_eq!(page[1].yes_votes, 2);

    let claims = vec![
        sample_claim(ClaimStatus::Approved, 1, 0, 10),
        sample_claim(ClaimStatus::Rejected, 0, 1, 10),
    ];
    let all = claims_page(claims, None, 30, 20);
    assert_eq!(all.len(), 2);
}

#[test]
fn query_answers_echo_the_records() {
    let config = initial_config("owner".to_string(), 60);
    assert_eq!(total_carbon_credits_response(&config).total, 0);
    let shaped = config_response(config);
    assert_eq!(shaped.owner, "owner");

    let org = org_with(7, 3);
    let response = organization_response("addr".to_string(), org);
    assert_eq!(response.address, "addr");
    assert_eq!(response.carbon_credits, 7);

    let mut org = org_with(9, 0);
    org.name = "wind".to_string();
    org.reputation_score = 5;
    let row = organization_list_item("addr2".to_string(), org);
    assert_eq!(row.name, "wind");
    assert_eq!(row.reputation_score, 5);
    assert_eq!(row.carbon_credits, 9);
}

#[test]
fn mock_proof_tag_decides_the_check() {
    let ok = verify_zk_proof(&1, &0, &0, &0, &0, &10, "valid_proof").unwrap();
    assert!(ok);
    let bad = verify_zk_proof(&1, &0, &0, &0, &0, &10, "forged").unwrap();
    assert!(!bad);
}

#[test]
fn message_model_carries_its_fields() {
    let init = InstantiateMsg { voting_period: 3600 };
    assert_eq!(init.voting_period, 3600);

    let exec = ExecuteMsg::CastVote { claim_id: 9, vote: VoteOption::No };
    match exec {
        ExecuteMsg::CastVote { claim_id, vote } => {
            assert_eq!(claim_id, 9);
            assert_eq!(vote, VoteOption::No);
        }
        _ => panic!("the message must keep its variant"),
    }

    let query = QueryMsg::GetClaimsByStatus {
        status: ClaimStatus::Active,
        start_after: Some(4),
        limit: Some(10),
    };
    match query {
        QueryMsg::GetClaimsByStatus { status, start_after, limit } => {
            assert_eq!(status, ClaimStatus::Active);
            assert_eq!(start_after, Some(4));
            assert_eq!(limit, Some(10));
        }
        _ => panic!("the query must keep its variant"),
    }

    let vote = Vote { voter: "addr".to_string(), vote: VoteOption::Yes, timestamp: 5 };
    assert_eq!(vote.voter, "addr");

    let page = ClaimsResponse { claims: Vec::new() };
    assert!(page.claims.is_empty());
    let listing = OrganizationsResponse { organizations: Vec::new() };
    assert!(listing.organizations.is_empty());
}

//! The messages the ledger accepts and the responses its queries return.
//!
//! These mirror the stored records of [`crate::state`], with addresses as
//! plain strings and amounts as 128-bit unsigned integers; the surrounding
//! transport layer converts to and from its own wire types.

use vstd::prelude::*;

use crate::state::ClaimStatus;
use crate::state::VoteOption;

verus! {

/// Instantiation parameters.
#[derive(Debug)]
pub struct InstantiateMsg {
    /// Length of every claim's voting window, in seconds.
    pub voting_period: u64,
}

/// The state-changing calls.
#[derive(Debug)]
pub enum ExecuteMsg {
    CreateClaim {
        longitudes: Vec<String>,
        latitudes: Vec<String>,
        time_started: u64,
        time_ended: u64,
        demanded_tokens: u128,
        ipfs_hashes: Vec<String>,
    },
    CastVote { claim_id: u64, vote: VoteOption },
    FinalizeVoting { claim_id: u64 },
    LendTokens { borrower: String, amount: u128 },
    RepayTokens { lender: String, amount: u128 },
    VerifyEligibility { borrower: String, lender: String, amount: u128 },
    UpdateOrganizationName { name: String },
    AddOrganizationEmission { emissions: String },
}

/// The read-only queries.
#[derive(Debug)]
pub enum QueryMsg {
    GetConfig {},
    GetClaim { id: u64 },
    GetOrganization { address: String },
    GetTotalCarbonCredits {},
    GetClaims { start_after: Option<u64>, limit: Option<u32> },
    GetClaimsByStatus {
        status: ClaimStatus,
        start_after: Option<u64>,
        limit: Option<u32>,
    },
    GetAllOrganizations { start_after: Option<String>, limit: Option<u32> },
}

/// The configuration, as a query answer.
#[derive(Debug)]
pub struct ConfigResponse {
    pub owner: String,
    pub voting_period: u64,
    pub total_carbon_credits: u128,
}

/// One claim, as a query answer; tallies are hidden while its vote runs.
#[derive(Debug)]
pub struct ClaimResponse {
    pub id: u64,
    pub organization: String,
    pub longitudes: Vec<String>,
    pub latitudes: Vec<String>,
    pub time_started: u64,
    pub time_ended: u64,
    pub demanded_tokens: u128,
    pub ipfs_hashes: Vec<String>,
    pub status: ClaimStatus,
    pub voting_end_time: u64,
    pub yes_votes: u128,
    pub no_votes: u128,
}

/// One organization, as a query answer.
#[derive(Debug)]
pub struct OrganizationResponse {
    pub address: String,
    pub reputation_score: u128,
    pub carbon_credits: u128,
    pub debt: u128,
    pub times_borrowed: u32,
    pub total_borrowed: u128,
    pub total_returned: u128,
    pub name: String,
    pub emissions: u128,
}

/// The ledger-wide credit total, as a query answer.
#[derive(Debug)]
pub struct TotalCarbonCreditsResponse {
    pub total: u128,
}

/// A page of claims, as a query answer.
#[derive(Debug)]
pub struct ClaimsResponse {
    pub claims: Vec<ClaimResponse>,
}

/// One row of the organization listing.
#[derive(Debug)]
pub struct OrganizationListItem {
    pub address: String,
    pub name: String,
    pub reputation_score: u128,
    pub carbon_credits: u128,
}

/// The organization listing, as a query answer.
#[derive(Debug)]
pub struct OrganizationsResponse {
    pub organizations: Vec<OrganizationListItem>,
}

} // verus!

//! The ledger's stored records: configuration, claims, votes and
//! organizations.
//!
//! Addresses are carried as plain strings and token amounts as 128-bit
//! unsigned integers.  These are the records the surrounding storage layer
//! persists; the rules that change them live in [`crate::transitions`].

use vstd::prelude::*;

verus! {

/// Contract-wide configuration.
#[derive(Debug)]
pub struct Config {
    pub owner: String,
    /// Length of a claim's voting window, in seconds.
    pub voting_period: u64,
    pub total_carbon_credits: u128,
}

/// A ballot cast on a claim.
#[derive(Clone, Copy, Debug, PartialEq, Eq, Structural)]
pub enum VoteOption {
    Yes,
    No,
}

/// One recorded ballot.
#[derive(Debug)]
pub struct Vote {
    pub voter: String,
    pub vote: VoteOption,
    pub timestamp: u64,
}

/// The lifecycle of a claim.
#[derive(Clone, Copy, Debug, PartialEq, Eq, Structural)]
pub enum ClaimStatus {
    Active,
    Approved,
    Rejected,
}

/// A carbon-credit claim under (or past) a vote.
#[derive(Debug)]
pub struct Claim {
    pub id: u64,
    pub organization: String,
    pub longitudes: Vec<String>,
    pub latitudes: Vec<String>,
    pub time_started: u64,
    pub time_ended: u64,
    pub demanded_tokens: u128,
    pub ipfs_hashes: Vec<String>,
    pub status: ClaimStatus,
    pub voting_end_time: u64,
    pub yes_votes: u128,
    pub no_votes: u128,
}

/// An organization's standing on the ledger.
#[derive(Debug)]
pub struct OrganizationInfo {
    pub reputation_score: u128,
    pub carbon_credits: u128,
    pub debt: u128,
    pub times_borrowed: u32,
    pub total_borrowed: u128,
    pub total_returned: u128,
    pub name: String,
    pub emissions: u128,
}

impl OrganizationInfo {
    /// The record an organization starts from: all counters at zero.
    pub fn fresh() -> (r: OrganizationInfo)
        ensures
            r.reputation_score == 0,
            r.carbon_credits == 0,
            r.debt == 0,
            r.times_borrowed == 0,
            r.total_borrowed == 0,
            r.total_returned == 0,
            r.name@ == Seq::<char>::empty(),
            r.emissions == 0,
    {
        OrganizationInfo {
            reputation_score: 0,
            carbon_credits: 0,
            debt: 0,
            times_borrowed: 0,
            total_borrowed: 0,
            total_returned: 0,
            name: String::new(),
            emissions: 0,
        }
    }
}

} // verus!

//! The errors the ledger's rules can answer with.

use vstd::prelude::*;

verus! {

/// Why a call was refused.  Verification outcomes are not errors: a proof
/// that does not check is an ordinary `false`.
#[derive(Clone, Copy, Debug, PartialEq, Eq, Structural)]
pub enum ContractError {
    /// The claim's voting window has closed.
    VotingEnded,
    /// This voter has already cast a ballot on this claim.
    AlreadyVoted,
    /// The claim's voting window is still open.
    VotingNotEnded,
    /// The paying side does not hold what the transfer needs.
    NotEnoughCredits,
    /// The borrower's eligibility score did not clear the bar.
    BorrowerNotEligible,
    /// A stored amount does not fit the narrow integer an interface needs.
    ValueTooLarge,
    /// A numeric string holds something other than decimal digits.
    InvalidNumber,
    /// A counter would leave its representable range.
    Overflow,
}

} // verus!

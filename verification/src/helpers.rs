//! Stand-in eligibility check at the ledger's outer interface.

use vstd::prelude::*;

use crate::error::ContractError;

verus! {

/// A mock of the zero-knowledge eligibility check: the statistics are
/// accepted but not consulted, and exactly the literal tag `valid_proof`
/// passes.  The real check runs a circuit through
/// [`crate::proofs::Proof::verify_proof`].
pub fn verify_zk_proof(
    _reputation_score: &u128,
    _debt: &u128,
    _times_borrowed: &u32,
    _total_borrowed: &u128,
    _total_returned: &u128,
    _amount: &u128,
    proof: &str,
) -> (r: Result<bool, ContractError>)
    ensures
        r matches Ok(b) && b == (proof@ == "valid_proof"@),
{
    let given: String = proof.to_owned();
    let expected: String = "valid_proof".to_owned();
    Ok(given == expected)
}

} // verus!

//! The ledger's rules: how claims, votes, loans and organization records
//! change.
//!
//! Every function here is a pure step from loaded records to stored records;
//! the surrounding storage layer loads its inputs, calls one rule, and
//! persists what comes back.

use vstd::prelude::*;

use crate::error::ContractError;
use crate::state::Claim;
use crate::state::ClaimStatus;
use crate::state::Config;
use crate::state::OrganizationInfo;
use crate::state::VoteOption;

verus! {

/// The configuration a fresh ledger starts from.
pub fn initial_config(owner: String, voting_period: u64) -> (r: Config)
    ensures
        r.owner == owner,
        r.voting_period == voting_period,
        r.total_carbon_credits == 0,
{
    Config { owner, voting_period, total_carbon_credits: 0 }
}

/// A fresh claim: active, unvoted, with its voting window opened now.
pub fn new_claim(
    id: u64,
    organization: String,
    longitudes: Vec<String>,
    latitudes: Vec<String>,
    time_started: u64,
    time_ended: u64,
    demanded_tokens: u128,
    ipfs_hashes: Vec<String>,
    now: u64,
    voting_period: u64,
) -> (r: Claim)
    requires
        now + voting_period <= u64::MAX,
    ensures
        r.id == id,
        r.organization == organization,
        r.longitudes == longitudes,
        r.latitudes == latitudes,
        r.time_started == time_started,
        r.time_ended == time_ended,
        r.demanded_tokens == demanded_tokens,
        r.ipfs_hashes == ipfs_hashes,
        r.status == ClaimStatus::Active,
        r.voting_end_time == now + voting_period,
        r.yes_votes == 0,
        r.no_votes == 0,
{
    Claim {
        id,
        organization,
        longitudes,
        latitudes,
        time_started,
        time_ended,
        demanded_tokens,
        ipfs_hashes,
        status: ClaimStatus::Active,
        voting_end_time: now + voting_period,
        yes_votes: 0,
        no_votes: 0,
    }
}

/// Record one ballot on a claim.
///
/// Refused after the voting window closes and for a voter who already voted;
/// otherwise exactly the chosen tally rises by one.
pub fn cast_vote(claim: Claim, vote: VoteOption, already_voted: bool, now: u64) -> (r: Result<
    Claim,
    ContractError,
>)
    requires
        claim.yes_votes < u128::MAX,
        claim.no_votes < u128::MAX,
    ensures
        now > claim.voting_end_time ==> r == Err::<Claim, _>(ContractError::VotingEnded),
        now <= claim.voting_end_time && already_voted ==> r == Err::<Claim, _>(
            ContractError::AlreadyVoted,
        ),
        now <= claim.voting_end_time && !already_voted ==> (r matches Ok(c)
            && c.yes_votes == claim.yes_votes + (if vote == VoteOption::Yes { 1int } else { 0int })
            && c.no_votes == claim.no_votes + (if vote == VoteOption::No { 1int } else { 0int })
            && c.id == claim.id
            && c.organization == claim.organization
            && c.longitudes == claim.longitudes
            && c.latitudes == claim.latitudes
            && c.time_started == claim.time_started
            && c.time_ended == claim.time_ended
            && c.demanded_tokens == claim.demanded_tokens
            && c.ipfs_hashes == claim.ipfs_hashes
            && c.status == claim.status
            && c.voting_end_time == claim.voting_end_time),
{
    if now > claim.voting_end_time {
        return Err(ContractError::VotingEnded);
    }
    if already_voted {
        return Err(ContractError::AlreadyVoted);
    }
    let mut updated = claim;
    match vote {
        VoteOption::Yes => {
            updated.yes_votes = updated.yes_votes + 1;
        },
        VoteOption::No => {
            updated.no_votes = updated.no_votes + 1;
        },
    }
    Ok(updated)
}

/// Whether the tallies carry a claim: ties approve.
pub open spec fn claim_approved(claim: Claim) -> bool {
    claim.yes_votes >= claim.no_votes
}

/// Close a claim's vote and settle its status.
///
/// Refused while the voting window is still open; otherwise the claim is
/// approved exactly when the yes-tally is at least the no-tally.
pub fn finalize_status(claim: Claim, now: u64) -> (r: Result<(Claim, bool), ContractError>)
    ensures
        now <= claim.voting_end_time ==> r == Err::<(Claim, bool), _>(
            ContractError::VotingNotEnded,
        ),
        now > claim.voting_end_time ==> (r matches Ok(p)
            && p.1 == claim_approved(claim)
            && p.0.status == (if claim_approved(claim) {
                ClaimStatus::Approved
            } else {
                ClaimStatus::Rejected
            })
            && p.0.id == claim.id
            && p.0.organization == claim.organization
            && p.0.longitudes == claim.longitudes
            && p.0.latitudes == claim.latitudes
            && p.0.time_started == claim.time_started
            && p.0.time_ended == claim.time_ended
            && p.0.demanded_tokens == claim.demanded_tokens
            && p.0.ipfs_hashes == claim.ipfs_hashes
            && p.0.voting_end_time == claim.voting_end_time
            && p.0.yes_votes == claim.yes_votes
            && p.0.no_votes == claim.no_votes),
{
    if now <= claim.voting_end_time {
        return Err(ContractError::VotingNotEnded);
    }
    let approved = claim.yes_votes >= claim.no_votes;
    let mut updated = claim;
    updated.status = if approved {
        ClaimStatus::Approved
    } else {
        ClaimStatus::Rejected
    };
    Ok((updated, approved))
}

/// Pay an approved claim out: the claiming organization and the ledger-wide
/// total both grow by the demanded amount.
pub fn credit_approved_claim(org: OrganizationInfo, config: Config, demanded: u128) -> (r: (
    OrganizationInfo,
    Config,
))
    requires
        org.carbon_credits + demanded <= u128::MAX,
        config.total_carbon_credits + demanded <= u128::MAX,
    ensures
        r.0.carbon_credits == org.carbon_credits + demanded,
        r.0.reputation_score == org.reputation_score,
        r.0.debt == org.debt,
        r.0.times_borrowed == org.times_borrowed,
        r.0.total_borrowed == org.total_borrowed,
        r.0.total_returned == org.total_returned,
        r.0.name == org.name,
        r.0.emissions == org.emissions,
        r.1.total_carbon_credits == config.total_carbon_credits + demanded,
        r.1.owner == config.owner,
        r.1.voting_period == config.voting_period,
{
    let mut updated_org = org;
    updated_org.carbon_credits = updated_org.carbon_credits + demanded;
    let mut updated_config = config;
    updated_config.total_carbon_credits = updated_config.total_carbon_credits + demanded;
    (updated_org, updated_config)
}

/// A ballot was on the winning side.
pub fn vote_was_correct(vote: VoteOption, approved: bool) -> (r: bool)
    ensures
        r == ((vote == VoteOption::Yes && approved) || (vote == VoteOption::No && !approved)),
{
    match vote {
        VoteOption::Yes => approved,
        VoteOption::No => !approved,
    }
}

/// Reward a voter who was on the winning side with one reputation point.
pub fn reward_voter(org: OrganizationInfo) -> (r: OrganizationInfo)
    requires
        org.reputation_score < u128::MAX,
    ensures
        r.reputation_score == org.reputation_score + 1,
        r.carbon_credits == org.carbon_credits,
        r.debt == org.debt,
        r.times_borrowed == org.times_borrowed,
        r.total_borrowed == org.total_borrowed,
        r.total_returned == org.total_returned,
        r.name == org.name,
        r.emissions == org.emissions,
{
    let mut updated = org;
    updated.reputation_score = updated.reputation_score + 1;
    updated
}

/// Move credits from a lender to a borrower and book the debt.
///
/// Refused exactly when the lender holds fewer credits than the loan.
pub fn lend_tokens(lender: OrganizationInfo, borrower: OrganizationInfo, amount: u128) -> (r:
    Result<(OrganizationInfo, OrganizationInfo), ContractError>)
    requires
        borrower.carbon_credits + amount <= u128::MAX,
        borrower.debt + amount <= u128::MAX,
        borrower.total_borrowed + amount <= u128::MAX,
        borrower.times_borrowed < u32::MAX,
    ensures
        lender.carbon_credits < amount ==> r == Err::<(OrganizationInfo, OrganizationInfo), _>(
            ContractError::NotEnoughCredits,
        ),
        lender.carbon_credits >= amount ==> (r matches Ok(p)
            && p.0.carbon_credits == lender.carbon_credits - amount
            && p.0.reputation_score == lender.reputation_score
            && p.0.debt == lender.debt
            && p.0.times_borrowed == lender.times_borrowed
            && p.0.total_borrowed == lender.total_borrowed
            && p.0.total_returned == lender.total_returned
            && p.0.name == lender.name
            && p.0.emissions == lender.emissions
            && p.1.carbon_credits == borrower.carbon_credits + amount
            && p.1.debt == borrower.debt + amount
            && p.1.times_borrowed == borrower.times_borrowed + 1
            && p.1.total_borrowed == borrower.total_borrowed + amount
            && p.1.reputation_score == borrower.reputation_score
            && p.1.total_returned == borrower.total_returned
            && p.1.name == borrower.name
            && p.1.emissions == borrower.emissions),
{
    if lender.carbon_credits < amount {
        return Err(ContractError::NotEnoughCredits);
    }
    let mut updated_lender = lender;
    let mut updated_borrower = borrower;
    updated_lender.carbon_credits = updated_lender.carbon_credits - amount;
    updated_borrower.carbon_credits = updated_borrower.carbon_credits + amount;
    updated_borrower.debt = updated_borrower.debt + amount;
    updated_borrower.times_borrowed = updated_borrower.times_borrowed + 1;
    updated_borrower.total_borrowed = updated_borrower.total_borrowed + amount;
    Ok((updated_lender, updated_borrower))
}

/// Return credits from a borrower to a lender and clear that much debt.
///
/// Refused exactly when the borrower holds fewer credits than the repayment
/// or owes less than it.
pub fn repay_tokens(borrower: OrganizationInfo, lender: OrganizationInfo, amount: u128) -> (r:
    Result<(OrganizationInfo, OrganizationInfo), ContractError>)
    requires
        borrower.total_returned + amount <= u128::MAX,
        lender.carbon_credits + amount <= u128::MAX,
    ensures
        borrower.carbon_credits < amount || borrower.debt < amount ==> r == Err::<
            (OrganizationInfo, OrganizationInfo),
            _,
        >(ContractError::NotEnoughCredits),
        borrower.carbon_credits >= amount && borrower.debt >= amount ==> (r matches Ok(p)
            && p.0.carbon_credits == borrower.carbon_credits - amount
            && p.0.debt == borrower.debt - amount
            && p.0.total_returned == borrower.total_returned + amount
            && p.0.reputation_score == borrower.reputation_score
            && p.0.times_borrowed == borrower.times_borrowed
            && p.0.total_borrowed == borrower.total_borrowed
            && p.0.name == borrower.name
            && p.0.emissions == borrower.emissions
            && p.1.carbon_credits == lender.carbon_credits + amount
            && p.1.reputation_score == lender.reputation_score
            && p.1.debt == lender.debt
            && p.1.times_borrowed == lender.times_borrowed
            && p.1.total_borrowed == lender.total_borrowed
            && p.1.total_returned == lender.total_returned
            && p.1.name == lender.name
            && p.1.emissions == lender.emissions),
{
    if borrower.carbon_credits < amount {
        return Err(ContractError::NotEnoughCredits);
    }
    if borrower.debt < amount {
        return Err(ContractError::NotEnoughCredits);
    }
    let mut updated_borrower = borrower;
    let mut updated_lender = lender;
    updated_borrower.carbon_credits = updated_borrower.carbon_credits - amount;
    updated_borrower.debt = updated_borrower.debt - amount;
    updated_borrower.total_returned = updated_borrower.total_returned + amount;
    updated_lender.carbon_credits = updated_lender.carbon_credits + amount;
    Ok((updated_borrower, updated_lender))
}

/// Give an organization a new display name.
pub fn rename_organization(org: OrganizationInfo, name: String) -> (r: OrganizationInfo)
    ensures
        r.name == name,
        r.reputation_score == org.reputation_score,
        r.carbon_credits == org.carbon_credits,
        r.debt == org.debt,
        r.times_borrowed == org.times_borrowed,
        r.total_borrowed == org.total_borrowed,
        r.total_returned == org.total_returned,
        r.emissions == org.emissions,
{
    let mut updated = org;
    updated.name = name;
    updated
}

/// The narrow counters the eligibility pipeline takes.
#[derive(Clone, Copy, Debug)]
pub struct EligibilityStats {
    pub emissions: u32,
    pub total_returned: u32,
    pub total_borrowed: u32,
    pub debt: u32,
    pub carbon_credits: u32,
    pub reputation_score: u32,
}

/// Narrow an organization's counters to what the eligibility pipeline takes.
///
/// Refused exactly when some counter does not fit 32 bits.
pub fn narrow_organization_stats(org: &OrganizationInfo) -> (r: Result<
    EligibilityStats,
    ContractError,
>)
    ensures
        match r {
            Ok(s) => org.emissions <= u32::MAX && org.total_returned <= u32::MAX
                && org.total_borrowed <= u32::MAX && org.debt <= u32::MAX
                && org.carbon_credits <= u32::MAX && org.reputation_score <= u32::MAX
                && s.emissions == org.emissions && s.total_returned == org.total_returned
                && s.total_borrowed == org.total_borrowed && s.debt == org.debt
                && s.carbon_credits == org.carbon_credits
                && s.reputation_score == org.reputation_score,
            Err(e) => e == ContractError::ValueTooLarge && (org.emissions > u32::MAX
                || org.total_returned > u32::MAX || org.total_borrowed > u32::MAX
                || org.debt > u32::MAX || org.carbon_credits > u32::MAX
                || org.reputation_score > u32::MAX),
        },
{
    let limit: u128 = u32::MAX as u128;
    if org.emissions > limit || org.total_returned > limit || org.total_borrowed > limit
        || org.debt > limit || org.carbon_credits > limit || org.reputation_score > limit {
        return Err(ContractError::ValueTooLarge);
    }
    Ok(
        EligibilityStats {
            emissions: org.emissions as u32,
            total_returned: org.total_returned as u32,
            total_borrowed: org.total_borrowed as u32,
            debt: org.debt as u32,
            carbon_credits: org.carbon_credits as u32,
            reputation_score: org.reputation_score as u32,
        },
    )
}

/// Whether an eligibility score clears the bar: only positive scores pass.
pub fn eligibility_approved(score: i64) -> (r: bool)
    ensures
        r == (score > 0),
{
    score > 0
}

/// An ASCII decimal digit.
pub open spec fn is_dec_digit(b: u8) -> bool {
    0x30 <= b <= 0x39
}

/// Every byte of the string is an ASCII decimal digit.
pub open spec fn all_dec_digits(s: Seq<u8>) -> bool {
    forall|i: int| 0 <= i < s.len() ==> is_dec_digit(s[i])
}

/// The number an ASCII decimal string denotes.
pub open spec fn dec_value(s: Seq<u8>) -> nat
    decreases s.len(),
{
    if s.len() == 0 {
        0
    } else {
        (10 * dec_value(s.drop_last()) + (s.last() - 0x30)) as nat
    }
}

/// A longer digit prefix never denotes a smaller number.
proof fn lemma_dec_value_monotonic(s: Seq<u8>, i: int, j: int)
    requires
        all_dec_digits(s),
        0 <= i <= j <= s.len(),
    ensures
        dec_value(s.take(i)) <= dec_value(s.take(j)),
    decreases j - i,
{
    if i < j {
        lemma_dec_value_monotonic(s, i, j - 1);
        assert(s.take(j).drop_last() =~= s.take(j - 1));
        assert(s.take(j).last() == s[j - 1]);
    }
}

/// Parse an ASCII decimal string into a 128-bit amount.
///
/// Exactly the non-empty all-digit strings parse; of those, exactly the ones
/// whose value fits 128 bits succeed.
pub fn parse_u128(digits: &Vec<u8>) -> (r: Result<u128, ContractError>)
    ensures
        match r {
            Ok(v) => digits@.len() > 0 && all_dec_digits(digits@) && v == dec_value(digits@),
            Err(e) => {
                if digits@.len() == 0 || !all_dec_digits(digits@) {
                    e == ContractError::InvalidNumber
                } else {
                    e == ContractError::Overflow && dec_value(digits@) > u128::MAX
                }
            },
        },
{
    let n = digits.len();
    if n == 0 {
        return Err(ContractError::InvalidNumber);
    }
    let mut i: usize = 0;
    while i < n
        invariant
            n == digits@.len(),
            i <= n,
            forall|k: int| 0 <= k < i ==> is_dec_digit(digits@[k]),
        decreases n - i,
    {
        let b = digits[i];
        if b < 0x30 || b > 0x39 {
            return Err(ContractError::InvalidNumber);
        }
        i = i + 1;
    }
    let mut value: u128 = 0;
    let mut k: usize = 0;
    proof {
        assert(digits@.take(0) =~= Seq::<u8>::empty());
    }
    while k < n
        invariant
            n == digits@.len(),
            k <= n,
            all_dec_digits(digits@),
            value == dec_value(digits@.take(k as int)),
        decreases n - k,
    {
        let d: u128 = (digits[k] - 0x30) as u128;
        if value > (u128::MAX - d) / 10 {
            proof {
                assert(digits@.take(k + 1).drop_last() =~= digits@.take(k as int));
                assert(digits@.take(k + 1).last() == digits@[k as int]);
                assert(dec_value(digits@.take(k + 1)) == 10 * value + d);
                assert(10 * value + d > u128::MAX) by (nonlinear_arith)
                    requires
                        value > (u128::MAX - d) / 10,
                        0 <= d <= 9,
                {
                    vstd::arithmetic::div_mod::lemma_fundamental_div_mod(
                        (u128::MAX - d) as int, 10);
                }
                lemma_dec_value_monotonic(digits@, k + 1, n as int);
                assert(digits@.take(n as int) =~= digits@);
            }
            return Err(ContractError::Overflow);
        }
        proof {
            assert(10 * value + d <= u128::MAX) by (nonlinear_arith)
                requires
                    value <= (u128::MAX - d) / 10,
                    0 <= d <= 9,
            {
                vstd::arithmetic::div_mod::lemma_fundamental_div_mod(
                    (u128::MAX - d) as int, 10);
            }
            assert(digits@.take(k + 1).drop_last() =~= digits@.take(k as int));
            assert(digits@.take(k + 1).last() == digits@[k as int]);
        }
        value = value * 10 + d;
        k = k + 1;
    }
    proof {
        assert(digits@.take(n as int) =~= digits@);
    }
    Ok(value)
}

/// Book freshly reported emissions, given as an ASCII decimal amount, onto an
/// organization's record.
///
/// Refused exactly for malformed amounts and for totals that would leave the
/// 128-bit range.
pub fn add_emission(org: OrganizationInfo, digits: &Vec<u8>) -> (r: Result<
    OrganizationInfo,
    ContractError,
>)
    ensures
        match r {
            Ok(o) => digits@.len() > 0 && all_dec_digits(digits@) && org.emissions + dec_value(
                digits@,
            ) <= u128::MAX && o.emissions == org.emissions + dec_value(digits@)
                && o.reputation_score == org.reputation_score && o.carbon_credits
                == org.carbon_credits && o.debt == org.debt && o.times_borrowed
                == org.times_borrowed && o.total_borrowed == org.total_borrowed
                && o.total_returned == org.total_returned && o.name == org.name,
            Err(e) => {
                if digits@.len() == 0 || !all_dec_digits(digits@) {
                    e == ContractError::InvalidNumber
                } else {
                    e == ContractError::Overflow && org.emissions + dec_value(digits@)
                        > u128::MAX
                }
            },
        },
{
    let added = match parse_u128(digits) {
        Ok(v) => v,
        Err(e) => {
            return Err(e);
        },
    };
    let total = match org.emissions.checked_add(added) {
        Some(t) => t,
        None => {
            return Err(ContractError::Overflow);
        },
    };
    let mut updated = org;
    updated.emissions = total;
    Ok(updated)
}

} // verus!

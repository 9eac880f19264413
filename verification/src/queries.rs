//! Shaping stored records into query answers.
//!
//! The one rule with substance: a claim's tallies are hidden — reported as
//! zero — until its voting window has closed.  Claim listings filter by
//! status first and cut to the page limit after, preserving storage order.

use vstd::prelude::*;

use crate::msg::ClaimResponse;
use crate::msg::ConfigResponse;
use crate::msg::OrganizationListItem;
use crate::msg::OrganizationResponse;
use crate::msg::TotalCarbonCreditsResponse;
use crate::state::Claim;
use crate::state::ClaimStatus;
use crate::state::Config;
use crate::state::OrganizationInfo;

verus! {

/// The answer a claim yields at a given time: tallies are zeroed while the
/// voting window is still open.
pub open spec fn response_of(c: Claim, now: u64) -> ClaimResponse {
    (ClaimResponse {
        id: c.id,
        organization: c.organization,
        longitudes: c.longitudes,
        latitudes: c.latitudes,
        time_started: c.time_started,
        time_ended: c.time_ended,
        demanded_tokens: c.demanded_tokens,
        ipfs_hashes: c.ipfs_hashes,
        status: c.status,
        voting_end_time: c.voting_end_time,
        yes_votes: if now >= c.voting_end_time {
            c.yes_votes
        } else {
            0
        },
        no_votes: if now >= c.voting_end_time {
            c.no_votes
        } else {
            0
        },
    })
}

/// Shape one claim into its query answer.
pub fn claim_response(claim: Claim, now: u64) -> (r: ClaimResponse)
    ensures
        r == response_of(claim, now),
{
    let visible = now >= claim.voting_end_time;
    ClaimResponse {
        id: claim.id,
        organization: claim.organization,
        longitudes: claim.longitudes,
        latitudes: claim.latitudes,
        time_started: claim.time_started,
        time_ended: claim.time_ended,
        demanded_tokens: claim.demanded_tokens,
        ipfs_hashes: claim.ipfs_hashes,
        status: claim.status,
        voting_end_time: claim.voting_end_time,
        yes_votes: if visible {
            claim.yes_votes
        } else {
            0
        },
        no_votes: if visible {
            claim.no_votes
        } else {
            0
        },
    }
}

/// Whether a claim passes an optional status filter.
pub open spec fn status_selected(c: Claim, filter: Option<ClaimStatus>) -> bool {
    match filter {
        Option::None => true,
        Option::Some(s) => c.status == s,
    }
}

/// The claims that pass the filter, in their stored order.
pub open spec fn selected_claims(claims: Seq<Claim>, filter: Option<ClaimStatus>) -> Seq<Claim>
    decreases claims.len(),
{
    if claims.len() == 0 {
        Seq::empty()
    } else {
        let prefix = selected_claims(claims.drop_last(), filter);
        if status_selected(claims.last(), filter) {
            prefix.push(claims.last())
        } else {
            prefix
        }
    }
}

/// The selection of a whole string splits at any cut.
proof fn lemma_selected_split(claims: Seq<Claim>, filter: Option<ClaimStatus>, k: int)
    requires
        0 <= k <= claims.len(),
    ensures
        selected_claims(claims, filter) =~= selected_claims(claims.take(k), filter)
            + selected_claims(claims.skip(k), filter),
    decreases claims.len() - k,
{
    if k == claims.len() {
        assert(claims.take(k) =~= claims);
        assert(selected_claims(claims.skip(k), filter) =~= Seq::<Claim>::empty());
    } else {
        lemma_selected_split(claims, filter, k + 1);
        assert(claims.take(k + 1).drop_last() =~= claims.take(k));
        assert(claims.take(k + 1).last() == claims[k]);
        assert(claims.skip(k).take(1).drop_last() =~= Seq::<Claim>::empty());
        assert(claims.skip(k).take(1).last() == claims[k]);
        assert(selected_claims(claims.skip(k).take(1), filter)
            =~= selected_claims(claims.take(k + 1), filter)
                .skip(selected_claims(claims.take(k), filter).len() as int)) by {
            assert(selected_claims(Seq::<Claim>::empty(), filter) =~= Seq::<Claim>::empty());
        }
        lemma_selected_split(claims.skip(k), filter, 1);
        assert(claims.skip(k).skip(1) =~= claims.skip(k + 1));
    }
}

/// A page of query answers: the claims passing the filter, in order, cut to
/// the page limit, each shaped by [`response_of`].
pub open spec fn page_of(
    claims: Seq<Claim>,
    filter: Option<ClaimStatus>,
    limit: nat,
    now: u64,
) -> Seq<ClaimResponse> {
    let sel = selected_claims(claims, filter);
    let cut = if sel.len() <= limit {
        sel.len() as int
    } else {
        limit as int
    };
    sel.take(cut).map(|i: int, c: Claim| response_of(c, now))
}

/// List a page of claims: filter by status, keep storage order, stop at the
/// page limit, and hide tallies of claims whose vote still runs.
pub fn claims_page(
    claims: Vec<Claim>,
    filter: Option<ClaimStatus>,
    limit: usize,
    now: u64,
) -> (r: Vec<ClaimResponse>)
    ensures
        r@ == page_of(claims@, filter, limit as nat, now),
{
    let ghost all = claims@;
    let mut rest = claims;
    let mut out: Vec<ClaimResponse> = Vec::new();
    let ghost k = 0int;
    proof {
        assert(all.take(0) =~= Seq::<Claim>::empty());
        assert(selected_claims(all.take(0), filter) =~= Seq::<Claim>::empty());
        assert(out@ =~= selected_claims(all.take(0), filter)
            .map(|i: int, c: Claim| response_of(c, now)));
    }
    while rest.len() > 0 && out.len() < limit
        invariant
            0 <= k <= all.len(),
            rest@ =~= all.skip(k),
            out@.len() <= limit,
            out@ =~= selected_claims(all.take(k), filter)
                .map(|i: int, c: Claim| response_of(c, now)),
        decreases rest@.len(),
    {
        let claim = rest.remove(0);
        let matches_filter = match filter {
            Option::None => true,
            Option::Some(s) => {
                let claim_status = claim.status;
                claim_status == s
            },
        };
        proof {
            assert(claim == all[k]);
            assert(all.skip(k).remove(0) =~= all.skip(k + 1));
            assert(all.take(k + 1).drop_last() =~= all.take(k));
            assert(all.take(k + 1).last() == all[k]);
        }
        if matches_filter {
            let ghost sel = selected_claims(all.take(k), filter);
            out.push(claim_response(claim, now));
            proof {
                assert(out@ =~= sel.push(all[k]).map(
                    |i: int, c: Claim| response_of(c, now)));
            }
        }
        proof {
            k = k + 1;
        }
    }
    proof {
        let f = |i: int, c: Claim| response_of(c, now);
        let sel_all = selected_claims(all, filter);
        let sel_k = selected_claims(all.take(k), filter);
        lemma_selected_split(all, filter, k);
        if rest@.len() == 0 {
            assert(all.skip(k).len() == 0);
            assert(selected_claims(all.skip(k), filter) =~= Seq::<Claim>::empty());
            assert(sel_all =~= sel_k);
            assert(sel_all.take(sel_all.len() as int) =~= sel_all);
            assert(out@ =~= page_of(all, filter, limit as nat, now));
        } else {
            assert(out@.len() == limit);
            assert(sel_k.len() == limit);
            assert(sel_all.take(limit as int) =~= sel_k);
            assert(out@ =~= page_of(all, filter, limit as nat, now));
        }
    }
    out
}

/// Shape the configuration into its query answer.
pub fn config_response(config: Config) -> (r: ConfigResponse)
    ensures
        r.owner == config.owner,
        r.voting_period == config.voting_period,
        r.total_carbon_credits == config.total_carbon_credits,
{
    ConfigResponse {
        owner: config.owner,
        voting_period: config.voting_period,
        total_carbon_credits: config.total_carbon_credits,
    }
}

/// Shape the ledger-wide credit total into its query answer.
pub fn total_carbon_credits_response(config: &Config) -> (r: TotalCarbonCreditsResponse)
    ensures
        r.total == config.total_carbon_credits,
{
    TotalCarbonCreditsResponse { total: config.total_carbon_credits }
}

/// Shape one organization into its query answer.
pub fn organization_response(address: String, org: OrganizationInfo) -> (r: OrganizationResponse)
    ensures
        r.address == address,
        r.reputation_score == org.reputation_score,
        r.carbon_credits == org.carbon_credits,
        r.debt == org.debt,
        r.times_borrowed == org.times_borrowed,
        r.total_borrowed == org.total_borrowed,
        r.total_returned == org.total_returned,
        r.name == org.name,
        r.emissions == org.emissions,
{
    OrganizationResponse {
        address,
        reputation_score: org.reputation_score,
        carbon_credits: org.carbon_credits,
        debt: org.debt,
        times_borrowed: org.times_borrowed,
        total_borrowed: org.total_borrowed,
        total_returned: org.total_returned,
        name: org.name,
        emissions: org.emissions,
    }
}

/// Shape one organization into a listing row.
pub fn organization_list_item(address: String, org: OrganizationInfo) -> (r: OrganizationListItem)
    ensures
        r.address == address,
        r.name == org.name,
        r.reputation_score == org.reputation_score,
        r.carbon_credits == org.carbon_credits,
{
    OrganizationListItem {
        address,
        name: org.name,
        reputation_score: org.reputation_score,
        carbon_credits: org.carbon_credits,
    }
}

} // verus!

use pallet_funding::contribution::DoContributeParams;
use pallet_funding::pallet::Pallet;
use pallet_funding::types::{
    AcceptedFundingAsset, Error, InvestorType, ParticipantsSize, Project, ProjectStatus,
    TicketSize,
};

const ISSUER: u64 = 1;
const BUYER: u64 = 2;
const OTHER: u64 = 3;
const POLICY: u64 = 7;

/// A pallet with one project standing in its community round at a
/// clearing price of 1 USD per token and the given remaining supply.
fn community_round_pallet(remaining: u128) -> Pallet {
    let mut m = Pallet::new();
    m.set_price(2069, 400_000);
    m.set_price(1984, 1_000_000);
    m.set_plmc_balance(BUYER, 1_000_000_000);
    m.set_asset_balance(BUYER, 1984, 1_000_000_000);
    m.set_plmc_balance(OTHER, 1_000_000_000);
    m.set_asset_balance(OTHER, 1984, 1_000_000_000);
    let project = Project {
        minimum_price: 1_000_000,
        ticket_size: TicketSize { minimum: Some(1), maximum: None },
        participants_size: ParticipantsSize { minimum: Some(2), maximum: None },
        total_allocation_size: remaining,
        policy: Some(POLICY),
        ..Default::default()
    };
    m.create(ISSUER, project).unwrap();
    m.projects[0].details.project_status = ProjectStatus::CommunityRound;
    m.projects[0].details.weighted_average_price = Some(1_000_000);
    m.projects[0].details.remaining_contribution_tokens = remaining;
    m.projects[0].details.community_ends = 100;
    m
}

fn params(contributor: u64, ct_amount: u128) -> DoContributeParams {
    DoContributeParams {
        contributor,
        project_id: 0,
        ct_amount,
        multiplier: 1,
        funding_asset: AcceptedFundingAsset::USDT,
        investor_type: InvestorType::Retail,
        did: contributor,
        whitelisted_policy: POLICY,
    }
}

#[test]
fn oversized_request_is_clamped_and_sells_out_the_project() {
    let mut m = community_round_pallet(50_000);
    assert!(m.do_contribute(params(BUYER, 60_000)).is_ok());
    let c = m.projects[0].contributions[0];
    assert_eq!(c.ct_amount, 50_000);
    assert_eq!(c.usd_contribution_amount, 50_000);
    assert_eq!(m.projects[0].details.remaining_contribution_tokens, 0);
    assert_eq!(m.do_contribute(params(OTHER, 1_000)), Err(Error::ProjectSoldOut));
}

#[test]
fn oversized_multiplier_fails_before_any_escrow() {
    let mut m = community_round_pallet(50_000);
    let plmc_before = m.plmc_balance_of(BUYER);
    let usdt_before = m.asset_balance_of(BUYER, 1984);
    let mut p = params(BUYER, 1_000);
    p.multiplier = 5;
    assert_eq!(m.do_contribute(p), Err(Error::ForbiddenMultiplier));
    assert_eq!(m.plmc_balance_of(BUYER), plmc_before);
    assert_eq!(m.asset_balance_of(BUYER, 1984), usdt_before);
    assert_eq!(m.projects[0].details.remaining_contribution_tokens, 50_000);
}

#[test]
fn zero_multiplier_is_forbidden() {
    let mut m = community_round_pallet(50_000);
    let mut p = params(BUYER, 1_000);
    p.multiplier = 0;
    assert_eq!(m.do_contribute(p), Err(Error::ForbiddenMultiplier));
}

#[test]
fn contribution_outside_its_rounds_is_rejected() {
    let mut m = community_round_pallet(50_000);
    m.projects[0].details.project_status = ProjectStatus::Application;
    assert_eq!(m.do_contribute(params(BUYER, 1_000)), Err(Error::IncorrectRound));
}

#[test]
fn winning_bidder_must_wait_for_the_remainder_round() {
    let mut m = community_round_pallet(50_000);
    m.projects[0].winning_dids.push(BUYER);
    assert_eq!(m.do_contribute(params(BUYER, 1_000)), Err(Error::UserHasWinningBid));
    m.projects[0].details.project_status = ProjectStatus::RemainderRound;
    m.projects[0].details.remainder_ends = 100;
    assert!(m.do_contribute(params(BUYER, 1_000)).is_ok());
}

#[test]
fn late_contribution_is_rejected() {
    let mut m = community_round_pallet(50_000);
    m.set_block_number(100);
    assert_eq!(m.do_contribute(params(BUYER, 1_000)), Err(Error::TooLateForRound));
}

#[test]
fn wrong_policy_is_rejected() {
    let mut m = community_round_pallet(50_000);
    let mut p = params(BUYER, 1_000);
    p.whitelisted_policy = POLICY + 1;
    assert_eq!(m.do_contribute(p), Err(Error::PolicyMismatch));
}

#[test]
fn unaccepted_funding_asset_is_rejected() {
    let mut m = community_round_pallet(50_000);
    let mut p = params(BUYER, 1_000);
    p.funding_asset = AcceptedFundingAsset::DOT;
    assert_eq!(m.do_contribute(p), Err(Error::FundingAssetNotAccepted));
}

#[test]
fn issuer_identity_cannot_buy_its_own_project() {
    let mut m = community_round_pallet(50_000);
    let mut p = params(ISSUER, 1_000);
    p.did = ISSUER;
    assert_eq!(m.do_contribute(p), Err(Error::ParticipationToOwnProject));
}

#[test]
fn missing_clearing_price_is_an_invariant_violation() {
    let mut m = community_round_pallet(50_000);
    m.projects[0].details.weighted_average_price = None;
    assert_eq!(m.do_contribute(params(BUYER, 1_000)), Err(Error::WapNotSet));
}

#[test]
fn ticket_below_class_minimum_is_rejected() {
    let mut m = community_round_pallet(50_000);
    m.projects[0].metadata.contributing_ticket_sizes.retail.minimum = Some(10_000);
    assert_eq!(m.do_contribute(params(BUYER, 1_000)), Err(Error::TooLow));
}

#[test]
fn dust_purchase_may_close_out_the_sale() {
    let mut m = community_round_pallet(500);
    m.projects[0].metadata.contributing_ticket_sizes.retail.minimum = Some(10_000);
    assert!(m.do_contribute(params(BUYER, 600)).is_ok());
    assert_eq!(m.projects[0].details.remaining_contribution_tokens, 0);
}

#[test]
fn identity_cap_is_enforced_and_leaves_supply_unchanged() {
    let mut m = community_round_pallet(50_000);
    m.projects[0].metadata.contributing_ticket_sizes.retail.maximum = Some(10_000);
    assert_eq!(m.do_contribute(params(BUYER, 20_000)), Err(Error::TooHigh));
    assert_eq!(m.projects[0].details.remaining_contribution_tokens, 50_000);
    assert!(m.do_contribute(params(BUYER, 6_000)).is_ok());
    assert_eq!(m.do_contribute(params(BUYER, 6_000)), Err(Error::TooHigh));
    assert_eq!(m.contribution_bought_usd(0, BUYER), 6_000);
    assert_eq!(m.projects[0].details.remaining_contribution_tokens, 44_000);
}

#[test]
fn cumulative_usd_accumulates_per_identity() {
    let mut m = community_round_pallet(50_000);
    assert!(m.do_contribute(params(BUYER, 1_000)).is_ok());
    assert!(m.do_contribute(params(BUYER, 2_000)).is_ok());
    assert_eq!(m.contribution_bought_usd(0, BUYER), 3_000);
    assert_eq!(m.contribution_bought_usd(0, OTHER), 0);
    assert_eq!(m.projects[0].details.funding_amount_reached, 3_000);
}

#[test]
fn too_many_participations_are_rejected() {
    let mut m = community_round_pallet(1_000_000);
    for _ in 0..16 {
        assert!(m.do_contribute(params(BUYER, 10)).is_ok());
    }
    assert_eq!(m.do_contribute(params(BUYER, 10)), Err(Error::TooManyUserParticipations));
}

#[test]
fn insufficient_escrow_is_rejected() {
    let mut m = community_round_pallet(50_000);
    m.set_plmc_balance(BUYER, 0);
    assert_eq!(m.do_contribute(params(BUYER, 1_000)), Err(Error::InsufficientBalance));
}

#[test]
fn missing_oracle_price_is_bad_math() {
    let mut m = community_round_pallet(50_000);
    m.set_price(2069, 0);
    assert_eq!(m.do_contribute(params(BUYER, 1_000)), Err(Error::BadMath));
}

#[test]
fn successful_contribution_escrows_both_amounts() {
    let mut m = community_round_pallet(50_000);
    let plmc_before = m.plmc_balance_of(BUYER);
    let usdt_before = m.asset_balance_of(BUYER, 1984);
    let mut p = params(BUYER, 10_000);
    p.multiplier = 2;
    assert!(m.do_contribute(p).is_ok());
    // Ticket: 10,000 USD; bond at 0.4 USD per native token, halved by
    // the multiplier; funding asset at 1 USD.
    assert_eq!(m.plmc_balance_of(BUYER), plmc_before - 12_500);
    assert_eq!(m.asset_balance_of(BUYER, 1984), usdt_before - 10_000);
    let c = m.projects[0].contributions[0];
    assert_eq!(c.plmc_bond, 12_500);
    assert_eq!(c.funding_asset_amount, 10_000);
    assert_eq!(c.multiplier, 2);
}

#[test]
fn plain_contribute_dispatch_buys_at_the_clearing_price() {
    let mut m = community_round_pallet(50_000);
    assert!(m.contribute(BUYER, 0, 1_000).is_ok());
    assert_eq!(m.projects[0].details.remaining_contribution_tokens, 49_000);
}

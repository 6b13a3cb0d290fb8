use pallet_funding::auction::{calculate_weighted_average_price, settlement_price};
use pallet_funding::types::{AcceptedFundingAsset, BidInfo, BidStatus};

fn bid(id: u32, price: u128, amount: u128) -> BidInfo {
    BidInfo {
        id,
        project_id: 0,
        bidder: 100 + id as u64,
        did: 100 + id as u64,
        status: BidStatus::Pending,
        original_ct_amount: amount,
        original_ct_usd_price: price,
        funding_asset: AcceptedFundingAsset::USDT,
        funding_asset_amount_locked: 0,
        multiplier: 1,
        plmc_bond: 0,
        when: id as u64,
    }
}

#[test]
fn three_bids_against_fifty_thousand_tokens() {
    let bids = vec![
        bid(0, 1_200_000, 20_000),
        bid(1, 1_000_000, 20_000),
        bid(2, 800_000, 20_000),
    ];
    let out = calculate_weighted_average_price(&bids, 50_000).unwrap();
    assert_eq!(out.weighted_average_price, Some(1_040_000));
    assert_eq!(out.total_accepted, 50_000);
    assert_eq!(out.outcomes.len(), 3);
    assert_eq!(out.outcomes[0].id, 0);
    assert_eq!(out.outcomes[0].status, BidStatus::Accepted);
    assert_eq!(out.outcomes[1].id, 1);
    assert_eq!(out.outcomes[1].status, BidStatus::Accepted);
    assert_eq!(out.outcomes[2].id, 2);
    assert_eq!(out.outcomes[2].status, BidStatus::PartiallyAccepted(10_000));
    assert_eq!(out.outcomes[2].accepted_amount, 10_000);
}

#[test]
fn wap_is_independent_of_bid_order() {
    let forward = vec![
        bid(0, 1_200_000, 20_000),
        bid(1, 1_000_000, 20_000),
        bid(2, 800_000, 20_000),
    ];
    let backward = vec![
        bid(2, 800_000, 20_000),
        bid(0, 1_200_000, 20_000),
        bid(1, 1_000_000, 20_000),
    ];
    let a = calculate_weighted_average_price(&forward, 50_000).unwrap();
    let b = calculate_weighted_average_price(&backward, 50_000).unwrap();
    assert_eq!(a.weighted_average_price, b.weighted_average_price);
    assert_eq!(a.total_accepted, b.total_accepted);
    assert_eq!(a.outcomes, b.outcomes);
}

#[test]
fn wap_lies_between_accepted_prices() {
    let bids = vec![bid(0, 3_000_000, 10), bid(1, 1_000_000, 10)];
    let out = calculate_weighted_average_price(&bids, 100).unwrap();
    let wap = out.weighted_average_price.unwrap();
    assert!(1_000_000 <= wap && wap <= 3_000_000);
    assert_eq!(wap, 2_000_000);
}

#[test]
fn ties_break_by_submission_time() {
    let bids = vec![bid(5, 1_000_000, 30), bid(9, 1_000_000, 30)];
    let out = calculate_weighted_average_price(&bids, 40).unwrap();
    assert_eq!(out.outcomes[0].id, 5);
    assert_eq!(out.outcomes[0].status, BidStatus::Accepted);
    assert_eq!(out.outcomes[1].id, 9);
    assert_eq!(out.outcomes[1].status, BidStatus::PartiallyAccepted(10));
}

#[test]
fn no_bids_set_no_clearing_price() {
    let bids: Vec<BidInfo> = vec![];
    let out = calculate_weighted_average_price(&bids, 50_000).unwrap();
    assert_eq!(out.weighted_average_price, None);
    assert_eq!(out.total_accepted, 0);
}

#[test]
fn undersubscribed_auction_accepts_everything() {
    let bids = vec![bid(0, 900_000, 10_000)];
    let out = calculate_weighted_average_price(&bids, 50_000).unwrap();
    assert_eq!(out.weighted_average_price, Some(900_000));
    assert_eq!(out.total_accepted, 10_000);
    assert_eq!(out.outcomes[0].status, BidStatus::Accepted);
}

#[test]
fn total_accepted_never_exceeds_allocation() {
    let bids = vec![bid(0, 2_000_000, 70_000), bid(1, 1_500_000, 90_000)];
    let out = calculate_weighted_average_price(&bids, 50_000).unwrap();
    assert_eq!(out.total_accepted, 50_000);
    assert_eq!(out.outcomes[0].status, BidStatus::PartiallyAccepted(50_000));
    assert_eq!(out.outcomes[1].status, BidStatus::Rejected);
}

#[test]
fn accepted_bids_settle_uniformly_at_the_clearing_price() {
    assert_eq!(settlement_price(BidStatus::Accepted, 1_040_000), Some(1_040_000));
    assert_eq!(settlement_price(BidStatus::PartiallyAccepted(10_000), 1_040_000), Some(1_040_000));
    assert_eq!(settlement_price(BidStatus::Rejected, 1_040_000), None);
    assert_eq!(settlement_price(BidStatus::Pending, 1_040_000), None);
    assert_eq!(settlement_price(BidStatus::Refunded, 1_040_000), None);
}

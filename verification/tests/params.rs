use pallet_funding::ledger::{Accounts, UserToFundingAsset, UserToPLMCBalance, UserToUSDBalance};
use pallet_funding::params::{BidInfoFilter, BidParams, ContributionParams};
use pallet_funding::types::{AcceptedFundingAsset, BidInfo, BidStatus};

fn sample_bid() -> BidInfo {
    BidInfo {
        id: 4,
        project_id: 0,
        bidder: 9,
        did: 9,
        status: BidStatus::Accepted,
        original_ct_amount: 100,
        original_ct_usd_price: 1_000_000,
        funding_asset: AcceptedFundingAsset::USDT,
        funding_asset_amount_locked: 100,
        multiplier: 1,
        plmc_bond: 250,
        when: 38,
    }
}

#[test]
fn default_filter_matches_any_bid() {
    let filter = BidInfoFilter::default();
    assert!(filter.matches_bid(&sample_bid()));
}

#[test]
fn filter_rejects_on_any_set_field() {
    let bid = sample_bid();
    let mut filter = BidInfoFilter::default();
    filter.id = Some(4);
    filter.bidder = Some(9);
    filter.status = Some(BidStatus::Accepted);
    filter.original_ct_amount = Some(100);
    filter.when = Some(38);
    assert!(filter.matches_bid(&bid));
    filter.plmc_bond = Some(251);
    assert!(!filter.matches_bid(&bid));
    filter.plmc_bond = Some(250);
    assert!(filter.matches_bid(&bid));
    filter.status = Some(BidStatus::Rejected);
    assert!(!filter.matches_bid(&bid));
}

#[test]
fn bid_params_builders_fill_defaults() {
    let full = BidParams::new(9, 100, 3, AcceptedFundingAsset::USDC);
    assert_eq!(full.bidder, 9);
    assert_eq!(full.amount, 100);
    assert_eq!(full.multiplier, 3);
    assert_eq!(full.asset, AcceptedFundingAsset::USDC);
    let plain = BidParams::new_with_defaults(9, 100);
    assert_eq!(plain.multiplier, 1);
    assert_eq!(plain.asset, AcceptedFundingAsset::USDT);
    assert_eq!(BidParams::from((9u64, 100u128)), plain);
    assert_eq!(BidParams::from((9u64, 100u128, 3u8, AcceptedFundingAsset::USDC)), full);
    assert_eq!(
        BidParams::from((9u64, 100u128, 3u8)),
        BidParams::new(9, 100, 3, AcceptedFundingAsset::USDT)
    );
    assert_eq!(
        BidParams::from((9u64, 100u128, AcceptedFundingAsset::DOT)),
        BidParams::new(9, 100, 1, AcceptedFundingAsset::DOT)
    );
}

#[test]
fn contribution_params_builders_fill_defaults() {
    let full = ContributionParams::new(9, 100, 3, AcceptedFundingAsset::USDC);
    assert_eq!(full.contributor, 9);
    assert_eq!(full.multiplier, 3);
    let plain = ContributionParams::new_with_defaults(9, 100);
    assert_eq!(plain.multiplier, 1);
    assert_eq!(plain.asset, AcceptedFundingAsset::USDT);
    assert_eq!(ContributionParams::from((9u64, 100u128)), plain);
    assert_eq!(
        ContributionParams::from((9u64, 100u128, 3u8, AcceptedFundingAsset::USDC)),
        full
    );
}

#[test]
fn param_lists_know_their_accounts() {
    let bids = vec![
        BidParams::new_with_defaults(5, 10),
        BidParams::new_with_defaults(2, 10),
        BidParams::new_with_defaults(5, 20),
    ];
    assert_eq!(bids.accounts(), vec![2, 5]);
    let contributions = vec![
        ContributionParams::new_with_defaults(8, 10),
        ContributionParams::new_with_defaults(3, 10),
    ];
    assert_eq!(contributions.accounts(), vec![3, 8]);
}

#[test]
fn ledger_entry_conversions_keep_their_fields() {
    assert_eq!(UserToPLMCBalance::from((1u64, 5u128)), UserToPLMCBalance::new(1, 5));
    assert_eq!(UserToUSDBalance::from((1u64, 5u128)), UserToUSDBalance::new(1, 5));
    assert_eq!(
        UserToFundingAsset::from((1u64, 5u128, 420u32)),
        UserToFundingAsset::new(1, 5, 420)
    );
    assert_eq!(
        UserToFundingAsset::from((1u64, 5u128)),
        UserToFundingAsset::new(1, 5, 1984)
    );
}

#[test]
fn something() {
    assert!(true);
}

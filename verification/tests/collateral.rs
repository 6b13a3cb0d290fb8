use pallet_funding::collateral::{
    calculate_funding_asset_amount, calculate_plmc_bond, calculate_ticket_size, check_multiplier,
    max_multiplier,
};
use pallet_funding::types::{Error, InvestorType};

#[test]
fn bond_divides_converted_ticket_by_the_multiplier() {
    // 50,000 USD at 0.4 USD per native token is 125,000 tokens; a
    // multiplier of 2 halves the bond.
    assert_eq!(calculate_plmc_bond(50_000, 1, 400_000), Ok(125_000));
    assert_eq!(calculate_plmc_bond(50_000, 2, 400_000), Ok(62_500));
}

#[test]
fn bond_fails_on_overflow_or_zero_price() {
    assert_eq!(calculate_plmc_bond(u128::MAX, 1, 400_000), Err(Error::BadMath));
    assert_eq!(calculate_plmc_bond(50_000, 1, 0), Err(Error::BadMath));
    assert_eq!(calculate_plmc_bond(50_000, 0, 400_000), Err(Error::BadMath));
}

#[test]
fn funding_asset_amount_converts_at_the_oracle_price() {
    assert_eq!(calculate_funding_asset_amount(50_000, 1_000_000), Ok(50_000));
    assert_eq!(calculate_funding_asset_amount(50_000, 500_000), Ok(100_000));
    assert_eq!(calculate_funding_asset_amount(50_000, 0), Err(Error::BadMath));
    assert_eq!(calculate_funding_asset_amount(u128::MAX, 1_000_000), Err(Error::BadMath));
}

#[test]
fn ticket_size_is_the_fixed_point_product() {
    assert_eq!(calculate_ticket_size(1_200_000, 20_000), Ok(24_000));
    assert_eq!(calculate_ticket_size(1_000_000, 50_000), Ok(50_000));
    assert_eq!(calculate_ticket_size(u128::MAX, 2), Err(Error::BadMath));
}

#[test]
fn multiplier_bounds_follow_the_investor_class() {
    assert_eq!(max_multiplier(InvestorType::Retail), 2);
    assert_eq!(max_multiplier(InvestorType::Professional), 10);
    assert_eq!(max_multiplier(InvestorType::Institutional), 25);
    assert!(max_multiplier(InvestorType::Retail) < max_multiplier(InvestorType::Professional));
    assert!(
        max_multiplier(InvestorType::Professional) < max_multiplier(InvestorType::Institutional)
    );
}

#[test]
fn multiplier_check_rejects_zero_and_excess() {
    assert_eq!(check_multiplier(InvestorType::Retail, 0), Err(Error::ForbiddenMultiplier));
    assert_eq!(check_multiplier(InvestorType::Retail, 1), Ok(()));
    assert_eq!(check_multiplier(InvestorType::Retail, 2), Ok(()));
    assert_eq!(check_multiplier(InvestorType::Retail, 3), Err(Error::ForbiddenMultiplier));
    assert_eq!(check_multiplier(InvestorType::Professional, 10), Ok(()));
    assert_eq!(check_multiplier(InvestorType::Professional, 11), Err(Error::ForbiddenMultiplier));
    assert_eq!(check_multiplier(InvestorType::Institutional, 25), Ok(()));
    assert_eq!(check_multiplier(InvestorType::Institutional, 26), Err(Error::ForbiddenMultiplier));
}

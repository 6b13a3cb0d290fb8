use pallet_funding::ledger::{
    AccountMerge, Accounts, Deposits, MergeOperation, UserToFundingAsset, UserToPLMCBalance,
    UserToUSDBalance,
};

fn plmc(account: u64, amount: u128) -> UserToPLMCBalance {
    UserToPLMCBalance::new(account, amount)
}

#[test]
fn merge_folds_duplicates_additively() {
    let list = vec![plmc(1, 10), plmc(2, 5), plmc(1, 7)];
    let merged = list.merge_accounts(MergeOperation::Add);
    assert_eq!(merged, vec![plmc(1, 17), plmc(2, 5)]);
}

#[test]
fn merge_subtract_floors_at_zero() {
    let list = vec![plmc(1, 3), plmc(1, 5)];
    let merged = list.merge_accounts(MergeOperation::Subtract);
    assert_eq!(merged, vec![plmc(1, 0)]);
}

#[test]
fn merge_subtract_within_one_list() {
    // The first occurrence is the base; later duplicates subtract from
    // it, which equals subtracting their additive total.
    let list = vec![plmc(1, 5), plmc(1, 3)];
    let merged = list.merge_accounts(MergeOperation::Subtract);
    assert_eq!(merged, vec![plmc(1, 2)]);
}

#[test]
fn merge_of_empty_list_is_empty() {
    let list: Vec<UserToPLMCBalance> = vec![];
    let merged = list.merge_accounts(MergeOperation::Add);
    assert_eq!(merged, vec![]);
}

#[test]
fn merge_saturates_at_the_largest_balance() {
    let list = vec![plmc(1, u128::MAX), plmc(1, 5)];
    let merged = list.merge_accounts(MergeOperation::Add);
    assert_eq!(merged, vec![plmc(1, u128::MAX)]);
}

#[test]
fn sum_accounts_adds_per_account() {
    let a = vec![plmc(1, 10)];
    let b = vec![plmc(2, 5), plmc(1, 1)];
    let summed = a.sum_accounts(b);
    assert_eq!(summed, vec![plmc(1, 11), plmc(2, 5)]);
}

#[test]
fn subtract_combines_own_duplicates_first() {
    // Duplicates inside either list are additive before the subtraction
    // applies between the two lists.
    let a = vec![plmc(1, 10), plmc(1, 3)];
    let b = vec![plmc(1, 5)];
    assert_eq!(a.subtract_accounts(b), vec![plmc(1, 8)]);
    let c = vec![plmc(1, 10)];
    let d = vec![plmc(1, 2), plmc(1, 3)];
    assert_eq!(c.subtract_accounts(d), vec![plmc(1, 5)]);
}

#[test]
fn merge_output_is_sorted_by_account() {
    let list = vec![plmc(9, 1), plmc(4, 2), plmc(7, 3), plmc(4, 5)];
    let merged = list.merge_accounts(MergeOperation::Add);
    assert_eq!(merged, vec![plmc(4, 7), plmc(7, 3), plmc(9, 1)]);
}

#[test]
fn merge_result_is_independent_of_input_order() {
    let forward = vec![plmc(2, 1), plmc(1, 4), plmc(2, 2)];
    let backward = vec![plmc(2, 2), plmc(2, 1), plmc(1, 4)];
    assert_eq!(
        forward.merge_accounts(MergeOperation::Add),
        backward.merge_accounts(MergeOperation::Add)
    );
}

#[test]
fn merging_twice_changes_nothing_and_empty_sum_is_identity() {
    let list = vec![plmc(3, 1), plmc(2, 4), plmc(3, 2)];
    let once = list.merge_accounts(MergeOperation::Add);
    assert_eq!(once.merge_accounts(MergeOperation::Add), once);
    assert_eq!(list.sum_accounts(vec![]), once);
}

#[test]
fn sum_accounts_total_is_commutative_per_account() {
    let a = vec![plmc(1, 10), plmc(3, 2)];
    let b = vec![plmc(2, 5), plmc(1, 1)];
    let ab = a.clone().sum_accounts(b.clone());
    let ba = b.sum_accounts(a);
    for entry in &ab {
        let other = ba.iter().find(|e| e.account == entry.account).unwrap();
        assert_eq!(entry.plmc_amount, other.plmc_amount);
    }
    assert_eq!(ab.len(), ba.len());
}

#[test]
fn subtract_accounts_drops_foreign_accounts() {
    let a = vec![plmc(1, 10), plmc(2, 4)];
    let b = vec![plmc(2, 1), plmc(3, 9)];
    let r = a.subtract_accounts(b);
    assert_eq!(r, vec![plmc(1, 10), plmc(2, 3)]);
    assert!(r.iter().all(|e| e.account != 3));
}

#[test]
fn subtract_accounts_truncates_below_zero() {
    let a = vec![plmc(1, 4)];
    let b = vec![plmc(1, 9)];
    let r = a.subtract_accounts(b);
    assert_eq!(r, vec![plmc(1, 0)]);
}

#[test]
fn accounts_are_sorted_and_deduplicated() {
    let list = vec![plmc(2, 1), plmc(1, 2), plmc(2, 3)];
    assert_eq!(list.accounts(), vec![1, 2]);
}

#[test]
fn usd_merge_matches_plmc_merge() {
    let list = vec![
        UserToUSDBalance::new(7, 3),
        UserToUSDBalance::new(7, 4),
        UserToUSDBalance::new(5, 1),
    ];
    let merged = list.merge_accounts(MergeOperation::Add);
    assert_eq!(merged, vec![UserToUSDBalance::new(5, 1), UserToUSDBalance::new(7, 7)]);
    assert_eq!(list.accounts(), vec![5, 7]);
}

#[test]
fn funding_asset_merge_keys_on_account_and_asset() {
    let list = vec![
        UserToFundingAsset::new(1, 5, 1984),
        UserToFundingAsset::new(1, 7, 420),
        UserToFundingAsset::new(1, 3, 1984),
    ];
    let merged = list.merge_accounts(MergeOperation::Add);
    assert_eq!(
        merged,
        vec![UserToFundingAsset::new(1, 7, 420), UserToFundingAsset::new(1, 8, 1984)]
    );
    assert_eq!(list.accounts(), vec![1]);
}

#[test]
fn funding_asset_subtract_filters_by_account_only() {
    let a = vec![UserToFundingAsset::new(1, 5, 1984)];
    let b = vec![UserToFundingAsset::new(1, 2, 420), UserToFundingAsset::new(2, 9, 1984)];
    let r = a.subtract_accounts(b);
    assert_eq!(
        r,
        vec![UserToFundingAsset::new(1, 2, 420), UserToFundingAsset::new(1, 5, 1984)]
    );
}

#[test]
fn existential_deposits_cover_every_account() {
    let accounts: Vec<u64> = vec![3, 1];
    let deposits = accounts.existential_deposits(500);
    assert_eq!(deposits, vec![plmc(3, 500), plmc(1, 500)]);
}

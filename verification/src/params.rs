//! Parameter carriers for driving campaigns: bid and contribution
//! requests, whole-project fixtures, and a field-wise bid filter.
use vstd::prelude::*;
use crate::types::{
    AccountId, Balance, BlockNumber, ProjectId, Multiplier, AcceptedFundingAsset, BidInfo,
    BidStatus, Project, ProjectStatus,
};
use crate::ledger::{
    Accounts, UserToUSDBalance, is_sorted_account_list, strictly_sorted, insert_sorted,
};

verus! {

/// A bid request: who bids, for how many tokens, under which leverage,
/// paid in which asset.
#[derive(Clone, Copy, PartialEq, Eq, Structural, Debug)]
pub struct BidParams {
    pub bidder: AccountId,
    pub amount: Balance,
    pub multiplier: Multiplier,
    pub asset: AcceptedFundingAsset,
}

impl BidParams {
    pub fn new(bidder: AccountId, amount: Balance, multiplier: u8, asset: AcceptedFundingAsset) -> (r:
        Self)
        ensures
            r == (BidParams { bidder, amount, multiplier, asset }),
    {
        Self { bidder, amount, multiplier, asset }
    }

    /// A bid without leverage, paid in the default funding asset.
    pub fn new_with_defaults(bidder: AccountId, amount: Balance) -> (r: Self)
        ensures
            r == (BidParams {
                bidder,
                amount,
                multiplier: 1u8,
                asset: AcceptedFundingAsset::USDT,
            }),
    {
        Self { bidder, amount, multiplier: 1, asset: AcceptedFundingAsset::USDT }
    }
}

/// A contribution request: who buys, how many tokens, under which
/// leverage, paid in which asset.
#[derive(Clone, Copy, PartialEq, Eq, Structural, Debug)]
pub struct ContributionParams {
    pub contributor: AccountId,
    pub amount: Balance,
    pub multiplier: Multiplier,
    pub asset: AcceptedFundingAsset,
}

impl ContributionParams {
    pub fn new(
        contributor: AccountId,
        amount: Balance,
        multiplier: u8,
        asset: AcceptedFundingAsset,
    ) -> (r: Self)
        ensures
            r == (ContributionParams { contributor, amount, multiplier, asset }),
    {
        Self { contributor, amount, multiplier, asset }
    }

    /// A purchase without leverage, paid in the default funding asset.
    pub fn new_with_defaults(contributor: AccountId, amount: Balance) -> (r: Self)
        ensures
            r == (ContributionParams {
                contributor,
                amount,
                multiplier: 1u8,
                asset: AcceptedFundingAsset::USDT,
            }),
    {
        Self { contributor, amount, multiplier: 1, asset: AcceptedFundingAsset::USDT }
    }
}

/// The accounts a list of bid requests mentions.
pub open spec fn bid_params_account_set(s: Seq<BidParams>) -> Set<AccountId> {
    Set::new(|a: AccountId| exists|i: int| 0 <= i < s.len() && (#[trigger] s[i]).bidder == a)
}

/// The accounts a list of contribution requests mentions.
pub open spec fn contribution_params_account_set(s: Seq<ContributionParams>) -> Set<AccountId> {
    Set::new(|a: AccountId| exists|i: int| 0 <= i < s.len() && (#[trigger] s[i]).contributor == a)
}

impl Accounts for Vec<BidParams> {
    type Account = AccountId;

    open spec fn accounts_post(&self, r: Vec<AccountId>) -> bool {
        is_sorted_account_list(r@, bid_params_account_set(self@))
    }

    fn accounts(&self) -> (r: Vec<AccountId>) {
        let mut out: Vec<AccountId> = Vec::new();
        let mut idx: usize = 0;
        while idx < self.len()
            invariant
                idx <= self@.len(),
                strictly_sorted(out@),
                forall|y: AccountId|
                    out@.contains(y) <==> bid_params_account_set(self@.take(idx as int)).contains(
                        y,
                    ),
            decreases self@.len() - idx,
        {
            let ghost pre = out@;
            insert_sorted(&mut out, self[idx].bidder);
            proof {
                let taken = self@.take(idx as int);
                let taken1 = self@.take(idx as int + 1);
                assert forall|y: AccountId|
                    out@.contains(y) <==> bid_params_account_set(taken1).contains(y) by {
                    if out@.contains(y) {
                        if pre.contains(y) {
                            let w = choose|i: int|
                                0 <= i < taken.len() && (#[trigger] taken[i]).bidder == y;
                            assert(taken1[w].bidder == y);
                        } else {
                            assert(taken1[idx as int].bidder == y);
                        }
                    }
                    if bid_params_account_set(taken1).contains(y) {
                        let w = choose|i: int|
                            0 <= i < taken1.len() && (#[trigger] taken1[i]).bidder == y;
                        if w < idx {
                            assert(taken[w].bidder == y);
                        }
                    }
                }
            }
            idx += 1;
        }
        proof {
            assert(self@.take(self@.len() as int) =~= self@);
            assert forall|m: int| 0 <= m < out@.len() implies bid_params_account_set(
                self@,
            ).contains(#[trigger] out@[m]) by {
                assert(out@.contains(out@[m]));
            }
        }
        out
    }
}

impl Accounts for Vec<ContributionParams> {
    type Account = AccountId;

    open spec fn accounts_post(&self, r: Vec<AccountId>) -> bool {
        is_sorted_account_list(r@, contribution_params_account_set(self@))
    }

    fn accounts(&self) -> (r: Vec<AccountId>) {
        let mut out: Vec<AccountId> = Vec::new();
        let mut idx: usize = 0;
        while idx < self.len()
            invariant
                idx <= self@.len(),
                strictly_sorted(out@),
                forall|y: AccountId|
                    out@.contains(y) <==> contribution_params_account_set(
                        self@.take(idx as int),
                    ).contains(y),
            decreases self@.len() - idx,
        {
            let ghost pre = out@;
            insert_sorted(&mut out, self[idx].contributor);
            proof {
                let taken = self@.take(idx as int);
                let taken1 = self@.take(idx as int + 1);
                assert forall|y: AccountId|
                    out@.contains(y) <==> contribution_params_account_set(taken1).contains(y) by {
                    if out@.contains(y) {
                        if pre.contains(y) {
                            let w = choose|i: int|
                                0 <= i < taken.len() && (#[trigger] taken[i]).contributor == y;
                            assert(taken1[w].contributor == y);
                        } else {
                            assert(taken1[idx as int].contributor == y);
                        }
                    }
                    if contribution_params_account_set(taken1).contains(y) {
                        let w = choose|i: int|
                            0 <= i < taken1.len() && (#[trigger] taken1[i]).contributor == y;
                        if w < idx {
                            assert(taken[w].contributor == y);
                        }
                    }
                }
            }
            idx += 1;
        }
        proof {
            assert(self@.take(self@.len() as int) =~= self@);
            assert forall|m: int| 0 <= m < out@.len() implies contribution_params_account_set(
                self@,
            ).contains(#[trigger] out@[m]) by {
                assert(out@.contains(out@[m]));
            }
        }
        out
    }
}

/// A whole campaign fixture: the state a test drives a project to, and
/// everything recorded on the way there.
#[derive(Clone, PartialEq, Eq, Debug)]
pub struct TestProjectParams {
    pub expected_state: ProjectStatus,
    pub metadata: Project,
    pub issuer: AccountId,
    pub evaluations: Vec<UserToUSDBalance>,
    pub bids: Vec<BidParams>,
    pub community_contributions: Vec<ContributionParams>,
    pub remainder_contributions: Vec<ContributionParams>,
}

/// A field-wise filter over recorded bids: a set field must match the
/// bid's, an unset one accepts anything.
#[derive(Clone, Copy, PartialEq, Eq, Debug)]
pub struct BidInfoFilter {
    pub id: Option<u32>,
    pub project_id: Option<ProjectId>,
    pub bidder: Option<AccountId>,
    pub status: Option<BidStatus>,
    pub original_ct_amount: Option<Balance>,
    pub original_ct_usd_price: Option<Balance>,
    pub funding_asset: Option<AcceptedFundingAsset>,
    pub funding_asset_amount_locked: Option<Balance>,
    pub multiplier: Option<Multiplier>,
    pub plmc_bond: Option<Balance>,
    pub when: Option<BlockNumber>,
}

impl BidInfoFilter {
    /// Whether a bid passes every set field of the filter.
    pub open spec fn spec_matches_bid(self, bid: BidInfo) -> bool {
        &&& (self.id is Some ==> self.id->0 == bid.id)
        &&& (self.project_id is Some ==> self.project_id->0 == bid.project_id)
        &&& (self.bidder is Some ==> self.bidder->0 == bid.bidder)
        &&& (self.status is Some ==> self.status->0 == bid.status)
        &&& (self.original_ct_amount is Some ==> self.original_ct_amount->0 == bid.original_ct_amount)
        &&& (self.original_ct_usd_price is Some ==> self.original_ct_usd_price->0
            == bid.original_ct_usd_price)
        &&& (self.funding_asset is Some ==> self.funding_asset->0 == bid.funding_asset)
        &&& (self.funding_asset_amount_locked is Some ==> self.funding_asset_amount_locked->0
            == bid.funding_asset_amount_locked)
        &&& (self.multiplier is Some ==> self.multiplier->0 == bid.multiplier)
        &&& (self.plmc_bond is Some ==> self.plmc_bond->0 == bid.plmc_bond)
        &&& (self.when is Some ==> self.when->0 == bid.when)
    }

    /// Test a recorded bid against the filter.
    pub fn matches_bid(&self, bid: &BidInfo) -> (r: bool)
        ensures
            r == self.spec_matches_bid(*bid),
    {
        match self.id {
            Some(v) => if v != bid.id {
                return false;
            },
            None => {},
        }
        match self.project_id {
            Some(v) => if v != bid.project_id {
                return false;
            },
            None => {},
        }
        match self.bidder {
            Some(v) => if v != bid.bidder {
                return false;
            },
            None => {},
        }
        match self.status {
            Some(v) => if v != bid.status {
                return false;
            },
            None => {},
        }
        match self.original_ct_amount {
            Some(v) => if v != bid.original_ct_amount {
                return false;
            },
            None => {},
        }
        match self.original_ct_usd_price {
            Some(v) => if v != bid.original_ct_usd_price {
                return false;
            },
            None => {},
        }
        match self.funding_asset {
            Some(v) => if v != bid.funding_asset {
                return false;
            },
            None => {},
        }
        match self.funding_asset_amount_locked {
            Some(v) => if v != bid.funding_asset_amount_locked {
                return false;
            },
            None => {},
        }
        match self.multiplier {
            Some(v) => if v != bid.multiplier {
                return false;
            },
            None => {},
        }
        match self.plmc_bond {
            Some(v) => if v != bid.plmc_bond {
                return false;
            },
            None => {},
        }
        match self.when {
            Some(v) => if v != bid.when {
                return false;
            },
            None => {},
        }
        true
    }
}

impl Default for BidInfoFilter {
    /// The filter with every field unset, accepting every bid.
    fn default() -> (r: Self)
        ensures
            r.id is None,
            r.project_id is None,
            r.bidder is None,
            r.status is None,
            r.original_ct_amount is None,
            r.original_ct_usd_price is None,
            r.funding_asset is None,
            r.funding_asset_amount_locked is None,
            r.multiplier is None,
            r.plmc_bond is None,
            r.when is None,
    {
        BidInfoFilter {
            id: None,
            project_id: None,
            bidder: None,
            status: None,
            original_ct_amount: None,
            original_ct_usd_price: None,
            funding_asset: None,
            funding_asset_amount_locked: None,
            multiplier: None,
            plmc_bond: None,
            when: None,
        }
    }
}

impl From<(AccountId, Balance)> for BidParams {
    fn from(t: (AccountId, Balance)) -> (r: Self) {
        BidParams { bidder: t.0, amount: t.1, multiplier: 1, asset: AcceptedFundingAsset::USDT }
    }
}

impl vstd::std_specs::convert::FromSpecImpl<(AccountId, Balance)> for BidParams {
    open spec fn obeys_from_spec() -> bool {
        true
    }

    open spec fn from_spec(t: (AccountId, Balance)) -> Self {
        BidParams { bidder: t.0, amount: t.1, multiplier: 1, asset: AcceptedFundingAsset::USDT }
    }
}

impl From<(AccountId, Balance, u8)> for BidParams {
    fn from(t: (AccountId, Balance, u8)) -> (r: Self) {
        BidParams { bidder: t.0, amount: t.1, multiplier: t.2, asset: AcceptedFundingAsset::USDT }
    }
}

impl vstd::std_specs::convert::FromSpecImpl<(AccountId, Balance, u8)> for BidParams {
    open spec fn obeys_from_spec() -> bool {
        true
    }

    open spec fn from_spec(t: (AccountId, Balance, u8)) -> Self {
        BidParams { bidder: t.0, amount: t.1, multiplier: t.2, asset: AcceptedFundingAsset::USDT }
    }
}

impl From<(AccountId, Balance, u8, AcceptedFundingAsset)> for BidParams {
    fn from(t: (AccountId, Balance, u8, AcceptedFundingAsset)) -> (r: Self) {
        BidParams { bidder: t.0, amount: t.1, multiplier: t.2, asset: t.3 }
    }
}

impl vstd::std_specs::convert::FromSpecImpl<(AccountId, Balance, u8, AcceptedFundingAsset)> for BidParams {
    open spec fn obeys_from_spec() -> bool {
        true
    }

    open spec fn from_spec(t: (AccountId, Balance, u8, AcceptedFundingAsset)) -> Self {
        BidParams { bidder: t.0, amount: t.1, multiplier: t.2, asset: t.3 }
    }
}

impl From<(AccountId, Balance, AcceptedFundingAsset)> for BidParams {
    fn from(t: (AccountId, Balance, AcceptedFundingAsset)) -> (r: Self) {
        BidParams { bidder: t.0, amount: t.1, multiplier: 1, asset: t.2 }
    }
}

impl vstd::std_specs::convert::FromSpecImpl<(AccountId, Balance, AcceptedFundingAsset)> for BidParams {
    open spec fn obeys_from_spec() -> bool {
        true
    }

    open spec fn from_spec(t: (AccountId, Balance, AcceptedFundingAsset)) -> Self {
        BidParams { bidder: t.0, amount: t.1, multiplier: 1, asset: t.2 }
    }
}

impl From<(AccountId, Balance)> for ContributionParams {
    fn from(t: (AccountId, Balance)) -> (r: Self) {
        ContributionParams {
            contributor: t.0,
            amount: t.1,
            multiplier: 1,
            asset: AcceptedFundingAsset::USDT,
        }
    }
}

impl vstd::std_specs::convert::FromSpecImpl<(AccountId, Balance)> for ContributionParams {
    open spec fn obeys_from_spec() -> bool {
        true
    }

    open spec fn from_spec(t: (AccountId, Balance)) -> Self {
        ContributionParams {
            contributor: t.0,
            amount: t.1,
            multiplier: 1,
            asset: AcceptedFundingAsset::USDT,
        }
    }
}

impl From<(AccountId, Balance, Multiplier)> for ContributionParams {
    fn from(t: (AccountId, Balance, Multiplier)) -> (r: Self) {
        ContributionParams {
            contributor: t.0,
            amount: t.1,
            multiplier: t.2,
            asset: AcceptedFundingAsset::USDT,
        }
    }
}

impl vstd::std_specs::convert::FromSpecImpl<(AccountId, Balance, Multiplier)> for ContributionParams {
    open spec fn obeys_from_spec() -> bool {
        true
    }

    open spec fn from_spec(t: (AccountId, Balance, Multiplier)) -> Self {
        ContributionParams {
            contributor: t.0,
            amount: t.1,
            multiplier: t.2,
            asset: AcceptedFundingAsset::USDT,
        }
    }
}

impl From<(AccountId, Balance, Multiplier, AcceptedFundingAsset)> for ContributionParams {
    fn from(t: (AccountId, Balance, Multiplier, AcceptedFundingAsset)) -> (r: Self) {
        ContributionParams { contributor: t.0, amount: t.1, multiplier: t.2, asset: t.3 }
    }
}

impl vstd::std_specs::convert::FromSpecImpl<(AccountId, Balance, Multiplier, AcceptedFundingAsset)> for ContributionParams {
    open spec fn obeys_from_spec() -> bool {
        true
    }

    open spec fn from_spec(t: (AccountId, Balance, Multiplier, AcceptedFundingAsset)) -> Self {
        ContributionParams { contributor: t.0, amount: t.1, multiplier: t.2, asset: t.3 }
    }
}

} // verus!

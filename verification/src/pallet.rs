//! The engine's state: projects with their rounds, bonds, bids and
//! contributions, account balances standing in for the custody
//! subsystem, oracle prices, and the emitted events.
//!
//! Keyed lookups are modeled by `pair_lookup`: the value of the first
//! entry of a keyed list carrying a key. An update prepends a fresh
//! entry, which shadows any older one, so every store behaves as a map.
use vstd::prelude::*;
use crate::types::{
    AccountId, Balance, BlockNumber, Did, Error, Event, Project, ProjectDetails,
    EvaluationMetadata, BidInfo, ContributionInfo,
};

verus! {

/// The value of the first entry of `s` whose key is `k`, if any.
pub open spec fn pair_lookup<K, V>(s: Seq<(K, V)>, k: K) -> Option<V>
    decreases s.len(),
{
    if s.len() == 0 {
        None
    } else if s.first().0 == k {
        Some(s.first().1)
    } else {
        pair_lookup(s.drop_first(), k)
    }
}

/// A first match is the entry at the first index carrying the key.
pub proof fn lemma_pair_lookup_index<K, V>(s: Seq<(K, V)>, k: K, j: int)
    requires
        0 <= j < s.len(),
        s[j].0 == k,
        forall|m: int| 0 <= m < j ==> (#[trigger] s[m]).0 != k,
    ensures
        pair_lookup(s, k) == Some(s[j].1),
    decreases s.len(),
{
    if j > 0 {
        assert(s.drop_first()[j - 1] == s[j]);
        assert forall|m: int| 0 <= m < j - 1 implies (#[trigger] s.drop_first()[m]).0 != k by {
            assert(s.drop_first()[m] == s[m + 1]);
        }
        lemma_pair_lookup_index(s.drop_first(), k, j - 1);
    } else {
        assert(s[0] == s.first());
    }
}

/// A key no entry carries has no value.
pub proof fn lemma_pair_lookup_absent<K, V>(s: Seq<(K, V)>, k: K)
    requires
        forall|m: int| 0 <= m < s.len() ==> (#[trigger] s[m]).0 != k,
    ensures
        pair_lookup(s, k) is None,
    decreases s.len(),
{
    if s.len() > 0 {
        assert(s[0] == s.first());
        assert forall|m: int| 0 <= m < s.drop_first().len() implies (#[trigger] s.drop_first()[m]).0
            != k by {
            assert(s.drop_first()[m] == s[m + 1]);
        }
        lemma_pair_lookup_absent(s.drop_first(), k);
    }
}

/// A native-token balance of one account.
#[derive(Clone, Copy, PartialEq, Eq, Structural, Debug)]
pub struct AccountBalance {
    pub account: AccountId,
    pub amount: Balance,
}

/// A funding-asset balance of one account.
#[derive(Clone, Copy, PartialEq, Eq, Structural, Debug)]
pub struct AssetBalance {
    pub account: AccountId,
    pub asset_id: u32,
    pub amount: Balance,
}

/// An oracle price for one asset, in `PRICE_UNIT` fixed point USD.
#[derive(Clone, Copy, PartialEq, Eq, Structural, Debug)]
pub struct AssetPrice {
    pub asset_id: u32,
    pub price: Balance,
}

/// The evaluation bond one account holds in one project.
#[derive(Clone, Copy, PartialEq, Eq, Structural, Debug)]
pub struct BondEntry {
    pub account: AccountId,
    pub amount: Balance,
}

/// Cumulative USD one identity has contributed to one project.
#[derive(Clone, Copy, PartialEq, Eq, Structural, Debug)]
pub struct DidUsd {
    pub did: Did,
    pub amount: Balance,
}

/// The keyed view of the native-token balance table.
pub open spec fn balance_pairs(s: Seq<AccountBalance>) -> Seq<(AccountId, Balance)> {
    s.map_values(|e: AccountBalance| (e.account, e.amount))
}

/// The keyed view of the funding-asset balance table.
pub open spec fn asset_balance_pairs(s: Seq<AssetBalance>) -> Seq<((AccountId, u32), Balance)> {
    s.map_values(|e: AssetBalance| ((e.account, e.asset_id), e.amount))
}

/// The keyed view of the oracle price table.
pub open spec fn price_pairs(s: Seq<AssetPrice>) -> Seq<(u32, Balance)> {
    s.map_values(|e: AssetPrice| (e.asset_id, e.price))
}

/// The keyed view of a project's bond list.
pub open spec fn bond_pairs(s: Seq<BondEntry>) -> Seq<(AccountId, Balance)> {
    s.map_values(|e: BondEntry| (e.account, e.amount))
}

/// The keyed view of a project's per-identity USD list.
pub open spec fn did_usd_pairs(s: Seq<DidUsd>) -> Seq<(Did, Balance)> {
    s.map_values(|e: DidUsd| (e.did, e.amount))
}

/// One project with everything recorded against it.
pub struct ProjectRecord {
    pub issuer: AccountId,
    pub metadata: Project,
    pub details: ProjectDetails,
    pub evaluation: EvaluationMetadata,
    pub bonds: Vec<BondEntry>,
    pub bids: Vec<BidInfo>,
    pub contributions: Vec<ContributionInfo>,
    pub bought_usd: Vec<DidUsd>,
    pub winning_dids: Vec<Did>,
}

/// The whole engine state. The balance and price tables stand in for
/// the custody subsystem and the oracle, which the engine only ever
/// reads and debits.
pub struct Pallet {
    pub projects: Vec<ProjectRecord>,
    pub balances: Vec<AccountBalance>,
    pub asset_balances: Vec<AssetBalance>,
    pub prices: Vec<AssetPrice>,
    pub next_bid_id: u32,
    pub next_contribution_id: u32,
    pub current_block: BlockNumber,
    pub events: Vec<Event>,
}

/// The native-token balance of an account; unknown accounts hold zero.
pub open spec fn spec_plmc_balance(s: Pallet, a: AccountId) -> Balance {
    match pair_lookup(balance_pairs(s.balances@), a) {
        Some(v) => v,
        None => 0,
    }
}

/// The funding-asset balance of an account; unknown pairs hold zero.
pub open spec fn spec_asset_balance(s: Pallet, a: AccountId, asset_id: u32) -> Balance {
    match pair_lookup(asset_balance_pairs(s.asset_balances@), (a, asset_id)) {
        Some(v) => v,
        None => 0,
    }
}

/// The oracle price of an asset, if one was fed.
pub open spec fn spec_price(s: Pallet, asset_id: u32) -> Option<Balance> {
    pair_lookup(price_pairs(s.prices@), asset_id)
}

/// The evaluation bond an account holds in a project's bond list.
pub open spec fn spec_bond(bonds: Seq<BondEntry>, a: AccountId) -> Option<Balance> {
    pair_lookup(bond_pairs(bonds), a)
}

/// The cumulative USD an identity bought in a project's list; unknown
/// identities hold zero.
pub open spec fn spec_bought_usd(bought: Seq<DidUsd>, did: Did) -> Balance {
    match pair_lookup(did_usd_pairs(bought), did) {
        Some(v) => v,
        None => 0,
    }
}

impl Pallet {
    /// A fresh engine: no projects, no balances, the clock at zero.
    pub fn new() -> (r: Self)
        ensures
            r.projects@.len() == 0,
            r.balances@.len() == 0,
            r.asset_balances@.len() == 0,
            r.prices@.len() == 0,
            r.next_bid_id == 0,
            r.next_contribution_id == 0,
            r.current_block == 0,
            r.events@.len() == 0,
    {
        Pallet {
            projects: Vec::new(),
            balances: Vec::new(),
            asset_balances: Vec::new(),
            prices: Vec::new(),
            next_bid_id: 0,
            next_contribution_id: 0,
            current_block: 0,
            events: Vec::new(),
        }
    }

    /// The clock, externally advanced.
    pub fn block_number(&self) -> (r: BlockNumber)
        ensures
            r == self.current_block,
    {
        self.current_block
    }

    /// Advance the clock; the hosting environment's scheduler does this.
    pub fn set_block_number(&mut self, now: BlockNumber)
        ensures
            final(self).current_block == now,
            final(self).projects@ == old(self).projects@,
            final(self).balances@ == old(self).balances@,
            final(self).asset_balances@ == old(self).asset_balances@,
            final(self).prices@ == old(self).prices@,
            final(self).next_bid_id == old(self).next_bid_id,
            final(self).next_contribution_id == old(self).next_contribution_id,
            final(self).events@ == old(self).events@,
    {
        self.current_block = now;
    }

    /// The most recently emitted event. At least one event must have
    /// been recorded; the original helper treats an empty list as a
    /// harness error.
    pub fn last_event(&self) -> (r: Event)
        requires
            self.events@.len() > 0,
        ensures
            r == self.events@.last(),
    {
        self.events[self.events.len() - 1]
    }

    /// The native-token balance of an account.
    pub fn plmc_balance_of(&self, account: AccountId) -> (r: Balance)
        ensures
            r == spec_plmc_balance(*self, account),
    {
        let mut j: usize = 0;
        while j < self.balances.len()
            invariant
                j <= self.balances@.len(),
                forall|m: int| 0 <= m < j ==> (#[trigger] self.balances@[m]).account != account,
            decreases self.balances@.len() - j,
        {
            if self.balances[j].account == account {
                proof {
                    lemma_pair_lookup_index(balance_pairs(self.balances@), account, j as int);
                }
                return self.balances[j].amount;
            }
            j += 1;
        }
        proof {
            lemma_pair_lookup_absent(balance_pairs(self.balances@), account);
        }
        0
    }

    /// Overwrite the native-token balance of an account; the test
    /// harness's way of funding accounts, standing in for genesis.
    pub fn set_plmc_balance(&mut self, account: AccountId, amount: Balance)
        ensures
            spec_plmc_balance(*final(self), account) == amount,
            forall|b: AccountId|
                b != account ==> spec_plmc_balance(*final(self), b) == spec_plmc_balance(
                    *old(self),
                    b,
                ),
            final(self).projects@ == old(self).projects@,
            final(self).asset_balances@ == old(self).asset_balances@,
            final(self).prices@ == old(self).prices@,
            final(self).next_bid_id == old(self).next_bid_id,
            final(self).next_contribution_id == old(self).next_contribution_id,
            final(self).current_block == old(self).current_block,
            final(self).events@ == old(self).events@,
    {
        let ghost before = self.balances@;
        self.balances.insert(0, AccountBalance { account, amount });
        proof {
            assert(balance_pairs(self.balances@).first() == (account, amount));
            assert(balance_pairs(self.balances@).drop_first() =~= balance_pairs(before));
        }
    }

    /// The funding-asset balance of an account.
    pub fn asset_balance_of(&self, account: AccountId, asset_id: u32) -> (r: Balance)
        ensures
            r == spec_asset_balance(*self, account, asset_id),
    {
        let mut j: usize = 0;
        while j < self.asset_balances.len()
            invariant
                j <= self.asset_balances@.len(),
                forall|m: int|
                    0 <= m < j ==> !((#[trigger] self.asset_balances@[m]).account == account
                        && self.asset_balances@[m].asset_id == asset_id),
            decreases self.asset_balances@.len() - j,
        {
            if self.asset_balances[j].account == account && self.asset_balances[j].asset_id
                == asset_id {
                proof {
                    lemma_pair_lookup_index(
                        asset_balance_pairs(self.asset_balances@),
                        (account, asset_id),
                        j as int,
                    );
                }
                return self.asset_balances[j].amount;
            }
            j += 1;
        }
        proof {
            lemma_pair_lookup_absent(
                asset_balance_pairs(self.asset_balances@),
                (account, asset_id),
            );
        }
        0
    }

    /// Overwrite the funding-asset balance of an account; the test
    /// harness's way of funding accounts, standing in for genesis.
    pub fn set_asset_balance(&mut self, account: AccountId, asset_id: u32, amount: Balance)
        ensures
            spec_asset_balance(*final(self), account, asset_id) == amount,
            forall|b: AccountId, o: u32|
                !(b == account && o == asset_id) ==> spec_asset_balance(*final(self), b, o)
                    == spec_asset_balance(*old(self), b, o),
            final(self).projects@ == old(self).projects@,
            final(self).balances@ == old(self).balances@,
            final(self).prices@ == old(self).prices@,
            final(self).next_bid_id == old(self).next_bid_id,
            final(self).next_contribution_id == old(self).next_contribution_id,
            final(self).current_block == old(self).current_block,
            final(self).events@ == old(self).events@,
    {
        let ghost before = self.asset_balances@;
        self.asset_balances.insert(0, AssetBalance { account, asset_id, amount });
        proof {
            assert(asset_balance_pairs(self.asset_balances@).first() == ((account, asset_id), amount));
            assert(asset_balance_pairs(self.asset_balances@).drop_first() =~= asset_balance_pairs(before));
        }
    }

    /// Feed the oracle price of an asset, in `PRICE_UNIT` fixed point.
    pub fn set_price(&mut self, asset_id: u32, price: Balance)
        ensures
            spec_price(*final(self), asset_id) == Some(price),
            forall|o: u32|
                o != asset_id ==> spec_price(*final(self), o) == spec_price(*old(self), o),
            final(self).projects@ == old(self).projects@,
            final(self).balances@ == old(self).balances@,
            final(self).asset_balances@ == old(self).asset_balances@,
            final(self).next_bid_id == old(self).next_bid_id,
            final(self).next_contribution_id == old(self).next_contribution_id,
            final(self).current_block == old(self).current_block,
            final(self).events@ == old(self).events@,
    {
        let ghost before = self.prices@;
        self.prices.insert(0, AssetPrice { asset_id, price });
        proof {
            assert(price_pairs(self.prices@).first() == (asset_id, price));
            assert(price_pairs(self.prices@).drop_first() =~= price_pairs(before));
        }
    }

    /// The oracle price of an asset, if one was fed.
    pub fn price_of(&self, asset_id: u32) -> (r: Option<Balance>)
        ensures
            r == spec_price(*self, asset_id),
    {
        let mut j: usize = 0;
        while j < self.prices.len()
            invariant
                j <= self.prices@.len(),
                forall|m: int| 0 <= m < j ==> (#[trigger] self.prices@[m]).asset_id != asset_id,
            decreases self.prices@.len() - j,
        {
            if self.prices[j].asset_id == asset_id {
                proof {
                    lemma_pair_lookup_index(price_pairs(self.prices@), asset_id, j as int);
                }
                return Some(self.prices[j].price);
            }
            j += 1;
        }
        proof {
            lemma_pair_lookup_absent(price_pairs(self.prices@), asset_id);
        }
        None
    }

    /// The mutable project details of a project, as the tests observe
    /// them; the issuer key must match, as in the hosting ledger's
    /// double map.
    pub fn project_info(&self, issuer: AccountId, project_id: u32) -> (r: Option<ProjectDetails>)
        ensures
            match r {
                Some(d) => project_id < self.projects@.len() && self.projects@[project_id as int].issuer
                    == issuer && d == self.projects@[project_id as int].details,
                None => project_id >= self.projects@.len() || self.projects@[project_id as int].issuer
                    != issuer,
            },
    {
        if (project_id as usize) < self.projects.len() {
            let rec = &self.projects[project_id as usize];
            if rec.issuer == issuer {
                return Some(rec.details);
            }
        }
        None
    }

    /// The evaluation aggregate of a project, keyed by its issuer.
    pub fn evaluations(&self, issuer: AccountId, project_id: u32) -> (r: Option<EvaluationMetadata>)
        ensures
            match r {
                Some(d) => project_id < self.projects@.len() && self.projects@[project_id as int].issuer
                    == issuer && d == self.projects@[project_id as int].evaluation,
                None => project_id >= self.projects@.len() || self.projects@[project_id as int].issuer
                    != issuer,
            },
    {
        if (project_id as usize) < self.projects.len() {
            let rec = &self.projects[project_id as usize];
            if rec.issuer == issuer {
                return Some(rec.evaluation);
            }
        }
        None
    }

    /// The evaluation bond an account holds in a project.
    pub fn bonds(&self, account: AccountId, project_id: u32) -> (r: Option<Balance>)
        ensures
            match r {
                Some(v) => project_id < self.projects@.len() && spec_bond(
                    self.projects@[project_id as int].bonds@,
                    account,
                ) == Some(v),
                None => project_id >= self.projects@.len() || spec_bond(
                    self.projects@[project_id as int].bonds@,
                    account,
                ) is None,
            },
    {
        if (project_id as usize) >= self.projects.len() {
            return None;
        }
        let rec = &self.projects[project_id as usize];
        let entries = &rec.bonds;
        let mut j: usize = 0;
        while j < entries.len()
            invariant
                project_id < self.projects@.len(),
                entries@ == self.projects@[project_id as int].bonds@,
                j <= entries@.len(),
                forall|m: int| 0 <= m < j ==> (#[trigger] entries@[m]).account != account,
            decreases entries@.len() - j,
        {
            if entries[j].account == account {
                proof {
                    assert(entries@ == self.projects@[project_id as int].bonds@);
                    assert(bond_pairs(entries@)[j as int] == (
                        entries@[j as int].account,
                        entries@[j as int].amount,
                    ));
                    assert forall|m: int| 0 <= m < j implies (#[trigger] bond_pairs(
                        entries@,
                    )[m]).0 != account by {
                        assert(bond_pairs(entries@)[m] == (
                            entries@[m].account,
                            entries@[m].amount,
                        ));
                    }
                    lemma_pair_lookup_index(bond_pairs(entries@), account, j as int);
                }
                return Some(entries[j].amount);
            }
            j += 1;
        }
        proof {
            lemma_pair_lookup_absent(bond_pairs(entries@), account);
        }
        None
    }

    /// The latest bid an account placed on a project.
    pub fn auctions_info(&self, bidder: AccountId, project_id: u32) -> (r: Option<BidInfo>)
        ensures
            match r {
                Some(b) => project_id < self.projects@.len() && exists|j: int|
                    0 <= j < self.projects@[project_id as int].bids@.len()
                        && #[trigger] self.projects@[project_id as int].bids@[j] == b
                        && self.projects@[project_id as int].bids@[j].bidder == bidder && forall|
                        m: int,
                    |
                        j < m < self.projects@[project_id as int].bids@.len() ==> (
                        #[trigger] self.projects@[project_id as int].bids@[m]).bidder != bidder,
                None => project_id >= self.projects@.len() || forall|m: int|
                    0 <= m < self.projects@[project_id as int].bids@.len() ==> (
                    #[trigger] self.projects@[project_id as int].bids@[m]).bidder != bidder,
            },
    {
        if (project_id as usize) >= self.projects.len() {
            return None;
        }
        let rec = &self.projects[project_id as usize];
        let bids = &rec.bids;
        let mut j: usize = 0;
        let mut found: Option<usize> = None;
        while j < bids.len()
            invariant
                project_id < self.projects@.len(),
                bids@ == self.projects@[project_id as int].bids@,
                j <= bids@.len(),
                match found {
                    Some(w) => w < j && bids@[w as int].bidder == bidder && forall|m: int|
                        w < m < j ==> (#[trigger] bids@[m]).bidder != bidder,
                    None => forall|m: int| 0 <= m < j ==> (#[trigger] bids@[m]).bidder != bidder,
                },
            decreases bids@.len() - j,
        {
            if bids[j].bidder == bidder {
                found = Some(j);
            }
            j += 1;
        }
        match found {
            Some(w) => Some(bids[w]),
            None => None,
        }
    }

    /// How many contributions an account already holds in a project.
    pub fn contribution_count(&self, project_id: u32, contributor: AccountId) -> (r: usize)
        requires
            project_id < self.projects@.len(),
        ensures
            r == spec_contribution_count(
                self.projects@[project_id as int].contributions@,
                contributor,
            ),
    {
        let rec = &self.projects[project_id as usize];
        let entries = &rec.contributions;
        let mut j: usize = 0;
        let mut count: usize = 0;
        while j < entries.len()
            invariant
                project_id < self.projects@.len(),
                entries@ == self.projects@[project_id as int].contributions@,
                j <= entries@.len(),
                count == spec_contribution_count(entries@.take(j as int), contributor),
                count <= j,
            decreases entries@.len() - j,
        {
            proof {
                assert(entries@.take(j as int + 1).drop_last() =~= entries@.take(j as int));
            }
            if entries[j].contributor == contributor {
                count += 1;
            }
            j += 1;
        }
        proof {
            assert(entries@.take(entries@.len() as int) =~= entries@);
        }
        count
    }
}

/// How many contributions of a list belong to one account.
pub open spec fn spec_contribution_count(s: Seq<ContributionInfo>, contributor: AccountId) -> int
    decreases s.len(),
{
    if s.len() == 0 {
        0int
    } else {
        spec_contribution_count(s.drop_last(), contributor) + if s.last().contributor
            == contributor {
            1int
        } else {
            0int
        }
    }
}

} // verus!

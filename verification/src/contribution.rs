//! The contribution processor: validated purchases of the remaining
//! token allocation at the frozen clearing price, during the community
//! and remainder rounds, under investor-class and per-identity caps.
//!
//! Every check runs before any state is written: a rejected call leaves
//! the engine exactly as it was.
use vstd::prelude::*;
use crate::types::{
    AccountId, Balance, ProjectId, Did, Multiplier, Error, Event, ProjectStatus, InvestorType,
    AcceptedFundingAsset, ContributionInfo, MAX_CONTRIBUTIONS_PER_USER, PLMC_ASSET_ID,
};
use crate::pallet::{
    Pallet, ProjectRecord, DidUsd, did_usd_pairs, spec_bought_usd, spec_plmc_balance,
    spec_asset_balance, spec_price, spec_contribution_count,
};
use crate::collateral::{
    multiplier_allowed, check_multiplier, spec_plmc_bond, spec_funding_asset_amount,
    spec_ticket_size, calculate_plmc_bond, calculate_funding_asset_amount, calculate_ticket_size,
};
use crate::rounds::{projects_unchanged_except, state_unchanged};

verus! {

/// Everything a contribution call carries.
#[derive(Clone, Copy, PartialEq, Eq, Structural, Debug)]
pub struct DoContributeParams {
    pub contributor: AccountId,
    pub project_id: ProjectId,
    pub ct_amount: Balance,
    pub multiplier: Multiplier,
    pub funding_asset: AcceptedFundingAsset,
    pub investor_type: InvestorType,
    pub did: Did,
    pub whitelisted_policy: u64,
}

/// The token amount actually buyable: the request clamped to the
/// remaining supply.
pub open spec fn spec_buyable(rec: ProjectRecord, ct_amount: Balance) -> Balance {
    if ct_amount <= rec.details.remaining_contribution_tokens {
        ct_amount
    } else {
        rec.details.remaining_contribution_tokens
    }
}

/// Why a clamped contribution fails once the round gate has passed, in
/// the order the checks run; `None` when it goes through.
pub open spec fn spec_perform_error(s: Pallet, p: DoContributeParams, buyable: Balance) -> Option<
    Error,
> {
    let rec = s.projects@[p.project_id as int];
    let d = rec.details;
    let remaining_after = (d.remaining_contribution_tokens - buyable) as Balance;
    let bounds = rec.metadata.spec_ticket_bounds(p.investor_type);
    if d.weighted_average_price is None {
        Some(Error::WapNotSet)
    } else if rec.metadata.policy is None {
        Some(Error::ImpossibleState)
    } else if spec_ticket_size(d.weighted_average_price->Some_0, buyable) is None {
        Some(Error::BadMath)
    } else {
        let ticket = spec_ticket_size(d.weighted_average_price->Some_0, buyable)->Some_0;
        if rec.metadata.policy->Some_0 != p.whitelisted_policy {
            Some(Error::PolicyMismatch)
        } else if !multiplier_allowed(p.investor_type, p.multiplier) {
            Some(Error::ForbiddenMultiplier)
        } else if !rec.metadata.spec_accepts_asset(p.funding_asset) {
            Some(Error::FundingAssetNotAccepted)
        } else if p.did == d.issuer_did {
            Some(Error::ParticipationToOwnProject)
        } else if spec_contribution_count(rec.contributions@, p.contributor)
            >= MAX_CONTRIBUTIONS_PER_USER {
            Some(Error::TooManyUserParticipations)
        } else if !bounds.spec_above_minimum(ticket) && remaining_after != 0 {
            Some(Error::TooLow)
        } else if !bounds.spec_below_maximum(
            spec_bought_usd(rec.bought_usd@, p.did).saturating_add(ticket),
        ) {
            Some(Error::TooHigh)
        } else if spec_price(s, PLMC_ASSET_ID) is None || spec_plmc_bond(
            ticket,
            p.multiplier,
            spec_price(s, PLMC_ASSET_ID)->Some_0,
        ) is None {
            Some(Error::BadMath)
        } else if spec_price(s, p.funding_asset.spec_id()) is None || spec_funding_asset_amount(
            ticket,
            spec_price(s, p.funding_asset.spec_id())->Some_0,
        ) is None {
            Some(Error::BadMath)
        } else if spec_plmc_balance(s, p.contributor) < spec_plmc_bond(
            ticket,
            p.multiplier,
            spec_price(s, PLMC_ASSET_ID)->Some_0,
        )->Some_0 {
            Some(Error::InsufficientBalance)
        } else if spec_asset_balance(s, p.contributor, p.funding_asset.spec_id())
            < spec_funding_asset_amount(
            ticket,
            spec_price(s, p.funding_asset.spec_id())->Some_0,
        )->Some_0 {
            Some(Error::InsufficientBalance)
        } else if s.next_contribution_id == u32::MAX {
            Some(Error::ImpossibleState)
        } else {
            None
        }
    }
}

/// Why a contribution fails, in the order the checks run: the round
/// gate, the winning-bid bar, the deadline and the supply clamp first,
/// then the clamped purchase itself.
pub open spec fn spec_contribute_error(s: Pallet, p: DoContributeParams) -> Option<Error> {
    if p.project_id >= s.projects@.len() {
        Some(Error::ProjectNotFound)
    } else {
        let rec = s.projects@[p.project_id as int];
        let d = rec.details;
        let in_community = d.project_status == ProjectStatus::CommunityRound;
        let in_remainder = d.project_status == ProjectStatus::RemainderRound;
        if !(in_community || in_remainder) {
            Some(Error::IncorrectRound)
        } else if rec.winning_dids@.contains(p.did) && !in_remainder {
            Some(Error::UserHasWinningBid)
        } else if s.current_block >= (if in_community {
            d.community_ends
        } else {
            d.remainder_ends
        }) {
            Some(Error::TooLateForRound)
        } else if spec_buyable(rec, p.ct_amount) == 0 {
            Some(Error::ProjectSoldOut)
        } else {
            spec_perform_error(s, p, spec_buyable(rec, p.ct_amount))
        }
    }
}

/// What a successful contribution does to the engine: both escrows are
/// taken, the purchase is recorded, the remaining supply shrinks by the
/// clamped amount, and the identity's and the project's USD totals grow
/// by the ticket.
pub open spec fn spec_contribute_effects(
    o: Pallet,
    n: Pallet,
    p: DoContributeParams,
    buyable: Balance,
) -> bool {
    let rec = o.projects@[p.project_id as int];
    let nrec = n.projects@[p.project_id as int];
    let d = rec.details;
    let ticket = spec_ticket_size(d.weighted_average_price->Some_0, buyable)->Some_0;
    let bond = spec_plmc_bond(ticket, p.multiplier, spec_price(o, PLMC_ASSET_ID)->Some_0)->Some_0;
    let funding = spec_funding_asset_amount(
        ticket,
        spec_price(o, p.funding_asset.spec_id())->Some_0,
    )->Some_0;
    &&& projects_unchanged_except(o, n, p.project_id as int)
    &&& spec_plmc_balance(n, p.contributor) == spec_plmc_balance(o, p.contributor) - bond
    &&& forall|b: AccountId|
        b != p.contributor ==> spec_plmc_balance(n, b) == spec_plmc_balance(o, b)
    &&& spec_asset_balance(n, p.contributor, p.funding_asset.spec_id()) == spec_asset_balance(
        o,
        p.contributor,
        p.funding_asset.spec_id(),
    ) - funding
    &&& forall|b: AccountId, a: u32|
        !(b == p.contributor && a == p.funding_asset.spec_id()) ==> spec_asset_balance(n, b, a)
            == spec_asset_balance(o, b, a)
    &&& n.prices@ == o.prices@
    &&& n.next_bid_id == o.next_bid_id
    &&& n.next_contribution_id == o.next_contribution_id + 1
    &&& n.current_block == o.current_block
    &&& nrec.issuer == rec.issuer
    &&& nrec.metadata == rec.metadata
    &&& nrec.evaluation == rec.evaluation
    &&& nrec.bonds@ == rec.bonds@
    &&& nrec.bids@ == rec.bids@
    &&& nrec.winning_dids@ == rec.winning_dids@
    &&& nrec.details == spec_details_after_contribution(d, buyable, ticket)
    &&& nrec.contributions@ == rec.contributions@.push(
        ContributionInfo {
            id: o.next_contribution_id,
            project_id: p.project_id,
            contributor: p.contributor,
            did: p.did,
            ct_amount: buyable,
            usd_contribution_amount: ticket,
            multiplier: p.multiplier,
            funding_asset: p.funding_asset,
            funding_asset_amount: funding,
            plmc_bond: bond,
            when: o.current_block,
        },
    )
    &&& spec_bought_usd(nrec.bought_usd@, p.did) == spec_bought_usd(
        rec.bought_usd@,
        p.did,
    ).saturating_add(ticket)
    &&& forall|dd: Did|
        dd != p.did ==> spec_bought_usd(nrec.bought_usd@, dd) == spec_bought_usd(
            rec.bought_usd@,
            dd,
        )
    &&& n.events@ == o.events@.push(
        Event::Contribution {
            project_id: p.project_id,
            contributor: p.contributor,
            id: o.next_contribution_id,
            ct_amount: buyable,
            funding_asset: p.funding_asset,
            funding_amount: funding,
            plmc_bond: bond,
            multiplier: p.multiplier,
        },
    )
}

/// The project details after a purchase of `buyable` tokens worth
/// `ticket` USD: less supply, more raised.
pub open spec fn spec_details_after_contribution(
    d: crate::types::ProjectDetails,
    buyable: Balance,
    ticket: Balance,
) -> crate::types::ProjectDetails {
    crate::types::ProjectDetails {
        remaining_contribution_tokens: (d.remaining_contribution_tokens - buyable) as Balance,
        funding_amount_reached: d.funding_amount_reached.saturating_add(ticket),
        ..d
    }
}

impl Pallet {
    /// The cumulative USD an identity has contributed to a project.
    pub fn contribution_bought_usd(&self, project_id: ProjectId, did: Did) -> (r: Balance)
        requires
            project_id < self.projects@.len(),
        ensures
            r == spec_bought_usd(self.projects@[project_id as int].bought_usd@, did),
    {
        let rec = &self.projects[project_id as usize];
        let entries = &rec.bought_usd;
        let mut j: usize = 0;
        while j < entries.len()
            invariant
                project_id < self.projects@.len(),
                entries@ == self.projects@[project_id as int].bought_usd@,
                j <= entries@.len(),
                forall|m: int| 0 <= m < j ==> (#[trigger] entries@[m]).did != did,
            decreases entries@.len() - j,
        {
            if entries[j].did == did {
                proof {
                    assert(did_usd_pairs(entries@)[j as int] == (
                        entries@[j as int].did,
                        entries@[j as int].amount,
                    ));
                    assert forall|m: int| 0 <= m < j implies (#[trigger] did_usd_pairs(
                        entries@,
                    )[m]).0 != did by {
                        assert(did_usd_pairs(entries@)[m] == (entries@[m].did, entries@[m].amount));
                    }
                    crate::pallet::lemma_pair_lookup_index(did_usd_pairs(entries@), did, j as int);
                }
                return entries[j].amount;
            }
            j += 1;
        }
        proof {
            assert forall|m: int| 0 <= m < did_usd_pairs(entries@).len() implies (
            #[trigger] did_usd_pairs(entries@)[m]).0 != did by {
                assert(did_usd_pairs(entries@)[m] == (entries@[m].did, entries@[m].amount));
            }
            crate::pallet::lemma_pair_lookup_absent(did_usd_pairs(entries@), did);
        }
        0
    }

    /// Whether a project accepts a funding asset.
    fn accepts_asset(&self, project_id: ProjectId, asset: AcceptedFundingAsset) -> (r: bool)
        requires
            project_id < self.projects@.len(),
        ensures
            r == self.projects@[project_id as int].metadata.spec_accepts_asset(asset),
    {
        let rec = &self.projects[project_id as usize];
        let currencies = &rec.metadata.participation_currencies;
        let mut j: usize = 0;
        while j < currencies.len()
            invariant
                project_id < self.projects@.len(),
                currencies@ == self.projects@[project_id as int].metadata.participation_currencies@,
                j <= currencies@.len(),
                forall|m: int| 0 <= m < j ==> currencies@[m] != asset,
            decreases currencies@.len() - j,
        {
            if currencies[j] == asset {
                return true;
            }
            j += 1;
        }
        false
    }

    /// Buy tokens of a project at the clearing price set by the auction.
    /// Callable during the community round, and during the remainder
    /// round also by identities holding a winning bid; the request is
    /// clamped to the remaining supply.
    pub fn do_contribute(&mut self, params: DoContributeParams) -> (r: Result<(), Error>)
        ensures
            match spec_contribute_error(*old(self), params) {
                Some(e) => r == Err::<(), Error>(e) && state_unchanged(*old(self), *final(self)),
                None => r == Ok::<(), Error>(()) && spec_contribute_effects(
                    *old(self),
                    *final(self),
                    params,
                    spec_buyable(old(self).projects@[params.project_id as int], params.ct_amount),
                ),
            },
    {
        let p = params;
        if (p.project_id as usize) >= self.projects.len() {
            return Err(Error::ProjectNotFound);
        }
        let now = self.current_block;
        let (in_remainder, round_end, remaining) = {
            let probe = &self.projects[p.project_id as usize];
            let d = probe.details;
            let in_community = match d.project_status {
                ProjectStatus::CommunityRound => true,
                _ => false,
            };
            let in_remainder = match d.project_status {
                ProjectStatus::RemainderRound => true,
                _ => false,
            };
            if !(in_community || in_remainder) {
                return Err(Error::IncorrectRound);
            }
            if !in_remainder && crate::rounds::contains_did(&probe.winning_dids, p.did) {
                return Err(Error::UserHasWinningBid);
            }
            let round_end = if in_community {
                d.community_ends
            } else {
                d.remainder_ends
            };
            (in_remainder, round_end, d.remaining_contribution_tokens)
        };
        if now >= round_end {
            return Err(Error::TooLateForRound);
        }
        let buyable = if p.ct_amount <= remaining {
            p.ct_amount
        } else {
            remaining
        };
        if buyable == 0 {
            return Err(Error::ProjectSoldOut);
        }
        self.do_perform_contribution(p, buyable)
    }

    /// Record a clamped purchase: validate the policy, the investor
    /// class, the asset, the caps and the escrows, then write every
    /// effect at once.
    fn do_perform_contribution(&mut self, p: DoContributeParams, buyable: Balance) -> (r: Result<
        (),
        Error,
    >)
        requires
            p.project_id < old(self).projects@.len(),
            buyable > 0,
            buyable <= old(self).projects@[p.project_id as int].details.remaining_contribution_tokens,
            buyable == spec_buyable(old(self).projects@[p.project_id as int], p.ct_amount),
        ensures
            match spec_perform_error(*old(self), p, buyable) {
                Some(e) => r == Err::<(), Error>(e) && state_unchanged(*old(self), *final(self)),
                None => r == Ok::<(), Error>(()) && spec_contribute_effects(
                    *old(self),
                    *final(self),
                    p,
                    buyable,
                ),
            },
    {
        let now = self.current_block;
        let (wap, policy, bounds, issuer_did, remaining) = {
            let probe = &self.projects[p.project_id as usize];
            let wap = match probe.details.weighted_average_price {
                Some(w) => w,
                None => {
                    return Err(Error::WapNotSet);
                },
            };
            let policy = match probe.metadata.policy {
                Some(h) => h,
                None => {
                    return Err(Error::ImpossibleState);
                },
            };
            let bounds = match p.investor_type {
                InvestorType::Retail => probe.metadata.contributing_ticket_sizes.retail,
                InvestorType::Professional => probe.metadata.contributing_ticket_sizes.professional,
                InvestorType::Institutional => probe.metadata.contributing_ticket_sizes.institutional,
            };
            (
                wap,
                policy,
                bounds,
                probe.details.issuer_did,
                probe.details.remaining_contribution_tokens,
            )
        };
        let ticket = match calculate_ticket_size(wap, buyable) {
            Ok(t) => t,
            Err(e) => {
                return Err(e);
            },
        };
        if policy != p.whitelisted_policy {
            return Err(Error::PolicyMismatch);
        }
        match check_multiplier(p.investor_type, p.multiplier) {
            Ok(()) => {},
            Err(e) => {
                return Err(e);
            },
        }
        if !self.accepts_asset(p.project_id, p.funding_asset) {
            return Err(Error::FundingAssetNotAccepted);
        }
        if p.did == issuer_did {
            return Err(Error::ParticipationToOwnProject);
        }
        let existing = self.contribution_count(p.project_id, p.contributor);
        if existing >= MAX_CONTRIBUTIONS_PER_USER {
            return Err(Error::TooManyUserParticipations);
        }
        let remaining_after = remaining - buyable;
        let ticket_above_min = bounds.usd_ticket_above_minimum_per_participation(ticket);
        if !ticket_above_min && remaining_after != 0 {
            return Err(Error::TooLow);
        }
        let bought = self.contribution_bought_usd(p.project_id, p.did);
        if !bounds.usd_ticket_below_maximum_per_did(bought.saturating_add(ticket)) {
            return Err(Error::TooHigh);
        }
        let bond = match self.price_of(PLMC_ASSET_ID) {
            Some(pp) => match calculate_plmc_bond(ticket, p.multiplier, pp) {
                Ok(b) => b,
                Err(e) => {
                    return Err(e);
                },
            },
            None => {
                return Err(Error::BadMath);
            },
        };
        let asset_id = p.funding_asset.id();
        let funding = match self.price_of(asset_id) {
            Some(ap) => match calculate_funding_asset_amount(ticket, ap) {
                Ok(f) => f,
                Err(e) => {
                    return Err(e);
                },
            },
            None => {
                return Err(Error::BadMath);
            },
        };
        let plmc_bal = self.plmc_balance_of(p.contributor);
        if plmc_bal < bond {
            return Err(Error::InsufficientBalance);
        }
        let asset_bal = self.asset_balance_of(p.contributor, asset_id);
        if asset_bal < funding {
            return Err(Error::InsufficientBalance);
        }
        if self.next_contribution_id == u32::MAX {
            return Err(Error::ImpossibleState);
        }
        self.set_plmc_balance(p.contributor, plmc_bal - bond);
        let ghost mid1 = *self;
        self.set_asset_balance(p.contributor, asset_id, asset_bal - funding);
        let ghost mid2 = *self;
        let contribution_id = self.next_contribution_id;
        self.next_contribution_id = contribution_id + 1;
        let total_bought = bought.saturating_add(ticket);
        let rec = &mut self.projects[p.project_id as usize];
        let ghost old_bought = rec.bought_usd@;
        rec.contributions.push(
            ContributionInfo {
                id: contribution_id,
                project_id: p.project_id,
                contributor: p.contributor,
                did: p.did,
                ct_amount: buyable,
                usd_contribution_amount: ticket,
                multiplier: p.multiplier,
                funding_asset: p.funding_asset,
                funding_asset_amount: funding,
                plmc_bond: bond,
                when: now,
            },
        );
        rec.bought_usd.insert(0, DidUsd { did: p.did, amount: total_bought });
        rec.details.remaining_contribution_tokens = remaining_after;
        rec.details.funding_amount_reached = rec.details.funding_amount_reached.saturating_add(
            ticket,
        );
        proof {
            assert(did_usd_pairs(rec.bought_usd@).first() == (p.did, total_bought));
            assert(did_usd_pairs(rec.bought_usd@).drop_first() =~= did_usd_pairs(old_bought));
        }
        self.events.push(
            Event::Contribution {
                project_id: p.project_id,
                contributor: p.contributor,
                id: contribution_id,
                ct_amount: buyable,
                funding_asset: p.funding_asset,
                funding_amount: funding,
                plmc_bond: bond,
                multiplier: p.multiplier,
            },
        );
        proof {
            assert forall|b: AccountId, a: u32| !(b == p.contributor && a
                == p.funding_asset.spec_id()) implies spec_asset_balance(*self, b, a)
                == spec_asset_balance(*old(self), b, a) by {
                assert(spec_asset_balance(mid1, b, a) == spec_asset_balance(*old(self), b, a));
                assert(spec_asset_balance(mid2, b, a) == spec_asset_balance(mid1, b, a));
                assert(spec_asset_balance(*self, b, a) == spec_asset_balance(mid2, b, a));
            }
            assert forall|b: AccountId| b != p.contributor implies spec_plmc_balance(*self, b)
                == spec_plmc_balance(*old(self), b) by {
                assert(spec_plmc_balance(mid1, b) == spec_plmc_balance(*old(self), b));
                assert(spec_plmc_balance(mid2, b) == spec_plmc_balance(mid1, b));
                assert(spec_plmc_balance(*self, b) == spec_plmc_balance(mid2, b));
            }
        }
        Ok(())
    }
}

/// The parameters the plain purchase path hands to the processor: no
/// leverage, the default funding asset, the retail class, the caller's
/// account as its identity, and the project's own policy.
pub open spec fn spec_simple_params(
    s: Pallet,
    caller: AccountId,
    project_id: ProjectId,
    ct_amount: Balance,
) -> DoContributeParams {
    DoContributeParams {
        contributor: caller,
        project_id,
        ct_amount,
        multiplier: 1,
        funding_asset: AcceptedFundingAsset::USDT,
        investor_type: InvestorType::Retail,
        did: caller,
        whitelisted_policy: if project_id < s.projects@.len() {
            match s.projects@[project_id as int].metadata.policy {
                Some(h) => h,
                None => 0,
            }
        } else {
            0
        },
    }
}

impl Pallet {
    /// Buy tokens at the clearing price through the plain command
    /// dispatch: no leverage and the default funding asset. A call
    /// outside the contribution rounds is reported as the auction not
    /// having run its course.
    pub fn contribute(&mut self, caller: AccountId, project_id: ProjectId, ct_amount: Balance) -> (r:
        Result<(), Error>)
        ensures
            ({
                let p = spec_simple_params(*old(self), caller, project_id, ct_amount);
                match spec_contribute_error(*old(self), p) {
                    Some(e) => {
                        &&& r == Err::<(), Error>(
                            if e == Error::IncorrectRound {
                                Error::AuctionNotStarted
                            } else {
                                e
                            },
                        )
                        &&& state_unchanged(*old(self), *final(self))
                    },
                    None => r == Ok::<(), Error>(()) && spec_contribute_effects(
                        *old(self),
                        *final(self),
                        p,
                        spec_buyable(
                            old(self).projects@[project_id as int],
                            ct_amount,
                        ),
                    ),
                }
            }),
    {
        if (project_id as usize) >= self.projects.len() {
            return Err(Error::ProjectNotFound);
        }
        let policy = {
            let probe = &self.projects[project_id as usize];
            match probe.metadata.policy {
                Some(h) => h,
                None => 0,
            }
        };
        let params = DoContributeParams {
            contributor: caller,
            project_id,
            ct_amount,
            multiplier: 1,
            funding_asset: AcceptedFundingAsset::USDT,
            investor_type: InvestorType::Retail,
            did: caller,
            whitelisted_policy: policy,
        };
        match self.do_contribute(params) {
            Ok(()) => Ok(()),
            Err(Error::IncorrectRound) => Err(Error::AuctionNotStarted),
            Err(e) => Err(e),
        }
    }
}

/// Law: a successful contribution keeps the identity's cumulative USD
/// within the ceiling of its investor class; a call that would cross the
/// ceiling is rejected with the cap error and changes nothing, which the
/// processor's contract states.
pub proof fn lemma_contribution_cap(o: Pallet, n: Pallet, p: DoContributeParams, buyable: Balance)
    requires
        p.project_id < o.projects@.len(),
        buyable == spec_buyable(o.projects@[p.project_id as int], p.ct_amount),
        spec_contribute_error(o, p) is None,
        spec_contribute_effects(o, n, p, buyable),
    ensures
        o.projects@[p.project_id as int].metadata.spec_ticket_bounds(
            p.investor_type,
        ).spec_below_maximum(
            spec_bought_usd(n.projects@[p.project_id as int].bought_usd@, p.did),
        ),
{
}

/// Law: a call that reaches the per-identity cap check and would cross
/// the ceiling is rejected with exactly the cap error; by the
/// processor's contract such a rejection leaves the state, and with it
/// the remaining supply, unchanged.
pub proof fn lemma_cap_violation_rejected(o: Pallet, p: DoContributeParams, buyable: Balance)
    requires
        p.project_id < o.projects@.len(),
        buyable == spec_buyable(o.projects@[p.project_id as int], p.ct_amount),
        ({
            let rec = o.projects@[p.project_id as int];
            let d = rec.details;
            let in_community = d.project_status == ProjectStatus::CommunityRound;
            let in_remainder = d.project_status == ProjectStatus::RemainderRound;
            let wap = d.weighted_average_price;
            &&& in_community || in_remainder
            &&& !(rec.winning_dids@.contains(p.did) && !in_remainder)
            &&& o.current_block < (if in_community {
                d.community_ends
            } else {
                d.remainder_ends
            })
            &&& buyable > 0
            &&& rec.metadata.policy is Some
            &&& wap is Some
            &&& spec_ticket_size(wap->Some_0, buyable) is Some
            &&& rec.metadata.policy->Some_0 == p.whitelisted_policy
            &&& multiplier_allowed(p.investor_type, p.multiplier)
            &&& rec.metadata.spec_accepts_asset(p.funding_asset)
            &&& p.did != d.issuer_did
            &&& spec_contribution_count(rec.contributions@, p.contributor)
                < MAX_CONTRIBUTIONS_PER_USER
            &&& rec.metadata.spec_ticket_bounds(p.investor_type).spec_above_minimum(
                spec_ticket_size(wap->Some_0, buyable)->Some_0,
            ) || d.remaining_contribution_tokens == buyable
            &&& !rec.metadata.spec_ticket_bounds(p.investor_type).spec_below_maximum(
                spec_bought_usd(rec.bought_usd@, p.did).saturating_add(
                    spec_ticket_size(wap->Some_0, buyable)->Some_0,
                ),
            )
        }),
    ensures
        spec_contribute_error(o, p) == Some(Error::TooHigh),
{
}

} // verus!

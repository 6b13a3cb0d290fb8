//! The round state machine: project creation, evaluation bonding, the
//! auction, and the block-gated transitions between rounds.
//!
//! Transitions are driven by a periodic tick (`on_initialize`) that
//! compares the clock to each round's stored end block; `advance_round`
//! is idempotent, a tick before any deadline changes nothing.
use vstd::prelude::*;
use crate::types::{
    AccountId, Balance, BlockNumber, ProjectId, Did, Error, Event, Project, ProjectDetails,
    ProjectStatus, AuctionPhase, EvaluationMetadata, BidInfo, BidStatus, AcceptedFundingAsset,
    EVALUATION_DURATION, ENGLISH_AUCTION_DURATION, CANDLE_AUCTION_DURATION,
    COMMUNITY_ROUND_DURATION, REMAINDER_ROUND_DURATION, PLMC_ASSET_ID,
};
use crate::pallet::{
    Pallet, ProjectRecord, BondEntry, bond_pairs, spec_bond, spec_plmc_balance,
    spec_asset_balance, spec_price,
};
use crate::auction::{
    CandidateBid, sorted_bids, fill_amounts, fill_total, weighted_total, spec_wap, status_of,
    calculate_weighted_average_price, lemma_fill_total_bounds, lemma_fill_amounts_len,
};
use crate::collateral::{
    spec_plmc_bond, spec_funding_asset_amount, spec_ticket_size, calculate_plmc_bond,
    calculate_funding_asset_amount, calculate_ticket_size,
};

verus! {

/// Why a project cannot be created, in the order the checks run.
pub open spec fn spec_create_error(p: Project) -> Option<Error> {
    if p.minimum_price == 0 {
        Some(Error::PriceTooLow)
    } else if p.ticket_size.minimum is None && p.ticket_size.maximum is None {
        Some(Error::TicketSizeError)
    } else if p.participants_size.minimum is None && p.participants_size.maximum is None {
        Some(Error::ParticipantsSizeError)
    } else {
        None
    }
}

/// The details a project starts with: everything at rest, the whole
/// allocation still for sale.
pub open spec fn spec_initial_details(issuer: AccountId, p: Project) -> ProjectDetails {
    ProjectDetails {
        project_status: ProjectStatus::Application,
        issuer_did: issuer,
        evaluation_period_ends: 0,
        english_ends: 0,
        candle_ends: 0,
        community_ends: 0,
        remainder_ends: 0,
        weighted_average_price: None,
        remaining_contribution_tokens: p.total_allocation_size,
        funding_amount_reached: 0,
    }
}

/// Whether every other project of the table is untouched.
pub open spec fn projects_unchanged_except(o: Pallet, n: Pallet, pid: int) -> bool {
    &&& n.projects@.len() == o.projects@.len()
    &&& forall|q: int|
        0 <= q < o.projects@.len() && q != pid ==> n.projects@[q] == o.projects@[q]
}

/// Whether the tables beside the project table are untouched.
pub open spec fn stores_unchanged(o: Pallet, n: Pallet) -> bool {
    &&& n.balances@ == o.balances@
    &&& n.asset_balances@ == o.asset_balances@
    &&& n.prices@ == o.prices@
    &&& n.next_bid_id == o.next_bid_id
    &&& n.next_contribution_id == o.next_contribution_id
    &&& n.current_block == o.current_block
}

/// Whether nothing at all changed.
pub open spec fn state_unchanged(o: Pallet, n: Pallet) -> bool {
    &&& n.projects@ == o.projects@
    &&& stores_unchanged(o, n)
    &&& n.events@ == o.events@
}

/// Whether the auction close of this project would overflow the
/// price-weighted sum; such a campaign is aborted.
pub open spec fn spec_close_overflows(rec: ProjectRecord) -> bool {
    weighted_total(sorted_bids(rec.bids@), rec.metadata.total_allocation_size) > u128::MAX
}

/// The status a tick moves a project to at block `now`. Rounds end when
/// their stored end block is reached; thresholds decide between going on
/// and failing.
pub open spec fn spec_tick_status(rec: ProjectRecord, now: BlockNumber) -> ProjectStatus {
    let d = rec.details;
    match d.project_status {
        ProjectStatus::EvaluationRound => if now >= d.evaluation_period_ends {
            if rec.evaluation.amount_bonded >= rec.metadata.evaluation_threshold {
                ProjectStatus::EvaluationEnded
            } else {
                ProjectStatus::FundingFailed
            }
        } else {
            ProjectStatus::EvaluationRound
        },
        ProjectStatus::AuctionRound(AuctionPhase::English) => if now >= d.english_ends {
            ProjectStatus::AuctionRound(AuctionPhase::Candle)
        } else {
            ProjectStatus::AuctionRound(AuctionPhase::English)
        },
        ProjectStatus::AuctionRound(AuctionPhase::Candle) => if now >= d.candle_ends {
            if spec_close_overflows(rec) {
                ProjectStatus::FundingFailed
            } else {
                ProjectStatus::CommunityRound
            }
        } else {
            ProjectStatus::AuctionRound(AuctionPhase::Candle)
        },
        ProjectStatus::CommunityRound => if now >= d.community_ends {
            ProjectStatus::RemainderRound
        } else {
            ProjectStatus::CommunityRound
        },
        ProjectStatus::RemainderRound => if now >= d.remainder_ends {
            if d.funding_amount_reached >= rec.metadata.funding_threshold {
                ProjectStatus::FundingEnded
            } else {
                ProjectStatus::FundingFailed
            }
        } else {
            ProjectStatus::RemainderRound
        },
        st => st,
    }
}

/// The details a tick leaves a project with: the new status, the next
/// round's end block where one opens, and the frozen clearing price and
/// remaining supply when the auction closes.
pub open spec fn spec_tick_details(rec: ProjectRecord, now: BlockNumber) -> ProjectDetails {
    let d = rec.details;
    let st = spec_tick_status(rec, now);
    if st == d.project_status {
        d
    } else if d.project_status == ProjectStatus::AuctionRound(AuctionPhase::Candle) && st
        == ProjectStatus::CommunityRound {
        let s = sorted_bids(rec.bids@);
        let alloc = rec.metadata.total_allocation_size;
        ProjectDetails {
            project_status: ProjectStatus::CommunityRound,
            issuer_did: d.issuer_did,
            evaluation_period_ends: d.evaluation_period_ends,
            english_ends: d.english_ends,
            candle_ends: d.candle_ends,
            community_ends: now.saturating_add(COMMUNITY_ROUND_DURATION),
            remainder_ends: d.remainder_ends,
            weighted_average_price: spec_wap(s, alloc),
            remaining_contribution_tokens: (alloc - fill_total(s, alloc)) as Balance,
            funding_amount_reached: d.funding_amount_reached,
        }
    } else if d.project_status == ProjectStatus::CommunityRound && st
        == ProjectStatus::RemainderRound {
        ProjectDetails {
            project_status: ProjectStatus::RemainderRound,
            issuer_did: d.issuer_did,
            evaluation_period_ends: d.evaluation_period_ends,
            english_ends: d.english_ends,
            candle_ends: d.candle_ends,
            community_ends: d.community_ends,
            remainder_ends: now.saturating_add(REMAINDER_ROUND_DURATION),
            weighted_average_price: d.weighted_average_price,
            remaining_contribution_tokens: d.remaining_contribution_tokens,
            funding_amount_reached: d.funding_amount_reached,
        }
    } else {
        ProjectDetails {
            project_status: st,
            issuer_did: d.issuer_did,
            evaluation_period_ends: d.evaluation_period_ends,
            english_ends: d.english_ends,
            candle_ends: d.candle_ends,
            community_ends: d.community_ends,
            remainder_ends: d.remainder_ends,
            weighted_average_price: d.weighted_average_price,
            remaining_contribution_tokens: d.remaining_contribution_tokens,
            funding_amount_reached: d.funding_amount_reached,
        }
    }
}

/// The status the auction close leaves the bid with the given id in:
/// that of the first bid with this id in auction order, if any.
pub open spec fn first_status(s: Seq<CandidateBid>, fills: Seq<Balance>, id: u32) -> Option<
    BidStatus,
>
    decreases s.len(),
{
    if s.len() == 0 || fills.len() == 0 {
        None
    } else if s.first().id == id {
        Some(status_of(s.first(), fills.first()))
    } else {
        first_status(s.drop_first(), fills.drop_first(), id)
    }
}

/// A first status match is at the first index carrying the id.
pub proof fn lemma_first_status_index(s: Seq<CandidateBid>, fills: Seq<Balance>, id: u32, j: int)
    requires
        fills.len() == s.len(),
        0 <= j < s.len(),
        s[j].id == id,
        forall|m: int| 0 <= m < j ==> (#[trigger] s[m]).id != id,
    ensures
        first_status(s, fills, id) == Some(status_of(s[j], fills[j])),
    decreases s.len(),
{
    if j > 0 {
        assert(s.drop_first()[j - 1] == s[j] && fills.drop_first()[j - 1] == fills[j]);
        assert forall|m: int| 0 <= m < j - 1 implies (#[trigger] s.drop_first()[m]).id != id by {
            assert(s.drop_first()[m] == s[m + 1]);
        }
        lemma_first_status_index(s.drop_first(), fills.drop_first(), id, j - 1);
    } else {
        assert(s[0] == s.first() && fills[0] == fills.first());
    }
}

/// An id no bid carries gets no status.
pub proof fn lemma_first_status_absent(s: Seq<CandidateBid>, fills: Seq<Balance>, id: u32)
    requires
        forall|m: int| 0 <= m < s.len() ==> (#[trigger] s[m]).id != id,
    ensures
        first_status(s, fills, id) is None,
    decreases s.len(),
{
    if s.len() > 0 && fills.len() > 0 {
        assert(s[0] == s.first());
        assert forall|m: int| 0 <= m < s.drop_first().len() implies (#[trigger] s.drop_first()[m]).id
            != id by {
            assert(s.drop_first()[m] == s[m + 1]);
        }
        lemma_first_status_absent(s.drop_first(), fills.drop_first(), id);
    }
}

/// The status the close leaves a recorded bid in.
pub open spec fn spec_closed_status(bids: Seq<BidInfo>, alloc: Balance, b: BidInfo) -> BidStatus {
    let s = sorted_bids(bids);
    match first_status(s, fill_amounts(s, alloc), b.id) {
        Some(st) => st,
        None => b.status,
    }
}

/// A bid after the close: the same bid, in its settled status.
pub open spec fn spec_closed_bid(bids: Seq<BidInfo>, alloc: Balance, b: BidInfo) -> BidInfo {
    BidInfo {
        id: b.id,
        project_id: b.project_id,
        bidder: b.bidder,
        did: b.did,
        status: spec_closed_status(bids, alloc, b),
        original_ct_amount: b.original_ct_amount,
        original_ct_usd_price: b.original_ct_usd_price,
        funding_asset: b.funding_asset,
        funding_asset_amount_locked: b.funding_asset_amount_locked,
        multiplier: b.multiplier,
        plmc_bond: b.plmc_bond,
        when: b.when,
    }
}

/// Whether a settled status has won any amount.
pub open spec fn spec_is_winning(st: BidStatus) -> bool {
    st == BidStatus::Accepted || st matches BidStatus::PartiallyAccepted(_)
}

/// How one tick advances one project record.
pub open spec fn spec_advances(o: ProjectRecord, n: ProjectRecord, now: BlockNumber) -> bool {
    let closing = o.details.project_status == ProjectStatus::AuctionRound(AuctionPhase::Candle)
        && now >= o.details.candle_ends && !spec_close_overflows(o);
    &&& n.issuer == o.issuer
    &&& n.metadata == o.metadata
    &&& n.details == spec_tick_details(o, now)
    &&& n.evaluation == o.evaluation
    &&& n.bonds@ == o.bonds@
    &&& n.contributions@ == o.contributions@
    &&& n.bought_usd@ == o.bought_usd@
    &&& if closing {
        &&& n.bids@.len() == o.bids@.len()
        &&& forall|i: int|
            0 <= i < o.bids@.len() ==> #[trigger] n.bids@[i] == spec_closed_bid(
                o.bids@,
                o.metadata.total_allocation_size,
                o.bids@[i],
            )
        &&& forall|d: Did|
            #[trigger] n.winning_dids@.contains(d) <==> (o.winning_dids@.contains(d) || exists|
                i: int,
            |
                0 <= i < n.bids@.len() && (#[trigger] n.bids@[i]).did == d && spec_is_winning(
                    n.bids@[i].status,
                ))
        &&& forall|i: int, j: int|
            0 <= i < j < n.winning_dids@.len() ==> n.winning_dids@[i] != n.winning_dids@[j]
    } else {
        &&& n.bids@ == o.bids@
        &&& n.winning_dids@ == o.winning_dids@
    }
}

/// Law: a tick never moves a project backwards: the phase index of the
/// next status is at least that of the current one.
pub proof fn lemma_tick_monotonic(rec: ProjectRecord, now: BlockNumber)
    ensures
        spec_tick_status(rec, now).phase_index() >= rec.details.project_status.phase_index(),
{
}

/// Law: a tick before every deadline of the project's current round is
/// a no-op: the status, and with it every detail, stays as it is.
pub proof fn lemma_tick_before_deadline_no_op(rec: ProjectRecord, now: BlockNumber)
    requires
        now < rec.details.evaluation_period_ends || rec.details.project_status
            != ProjectStatus::EvaluationRound,
        now < rec.details.english_ends || rec.details.project_status != ProjectStatus::AuctionRound(
            AuctionPhase::English,
        ),
        now < rec.details.candle_ends || rec.details.project_status != ProjectStatus::AuctionRound(
            AuctionPhase::Candle,
        ),
        now < rec.details.community_ends || rec.details.project_status
            != ProjectStatus::CommunityRound,
        now < rec.details.remainder_ends || rec.details.project_status
            != ProjectStatus::RemainderRound,
    ensures
        spec_tick_status(rec, now) == rec.details.project_status,
        spec_tick_details(rec, now) == rec.details,
{
}

/// Whether a project id names a project.
fn valid_project(s: &Pallet, project_id: ProjectId) -> (r: bool)
    ensures
        r == (project_id < s.projects@.len()),
{
    (project_id as usize) < s.projects.len()
}

impl Pallet {
    /// Register a new project with the given metadata; the caller
    /// becomes its issuer and the next free id is assigned.
    pub fn create(&mut self, issuer: AccountId, project: Project) -> (r: Result<ProjectId, Error>)
        ensures
            match spec_create_error(project) {
                Some(e) => r == Err::<ProjectId, Error>(e) && state_unchanged(*old(self), *final(self)),
                None => if old(self).projects@.len() >= u32::MAX {
                    r == Err::<ProjectId, Error>(Error::ImpossibleState) && state_unchanged(
                        *old(self),
                        *final(self),
                    )
                } else {
                    &&& r == Ok::<ProjectId, Error>(old(self).projects@.len() as ProjectId)
                    &&& final(self).projects@.len() == old(self).projects@.len() + 1
                    &&& forall|q: int|
                        0 <= q < old(self).projects@.len() ==> final(self).projects@[q] == old(
                            self,
                        ).projects@[q]
                    &&& final(self).projects@.last().issuer == issuer
                    &&& final(self).projects@.last().metadata == project
                    &&& final(self).projects@.last().details == spec_initial_details(
                        issuer,
                        project,
                    )
                    &&& final(self).projects@.last().evaluation == EvaluationMetadata {
                        amount_bonded: 0,
                    }
                    &&& final(self).projects@.last().bonds@.len() == 0
                    &&& final(self).projects@.last().bids@.len() == 0
                    &&& final(self).projects@.last().contributions@.len() == 0
                    &&& final(self).projects@.last().bought_usd@.len() == 0
                    &&& final(self).projects@.last().winning_dids@.len() == 0
                    &&& stores_unchanged(*old(self), *final(self))
                    &&& final(self).events@ == old(self).events@.push(
                        Event::Created {
                            project_id: old(self).projects@.len() as ProjectId,
                            issuer,
                        },
                    )
                },
            },
    {
        if project.minimum_price == 0 {
            return Err(Error::PriceTooLow);
        }
        if project.ticket_size.minimum.is_none() && project.ticket_size.maximum.is_none() {
            return Err(Error::TicketSizeError);
        }
        if project.participants_size.minimum.is_none() && project.participants_size.maximum.is_none() {
            return Err(Error::ParticipantsSizeError);
        }
        if self.projects.len() >= u32::MAX as usize {
            return Err(Error::ImpossibleState);
        }
        let project_id = self.projects.len() as u32;
        let details = ProjectDetails {
            project_status: ProjectStatus::Application,
            issuer_did: issuer,
            evaluation_period_ends: 0,
            english_ends: 0,
            candle_ends: 0,
            community_ends: 0,
            remainder_ends: 0,
            weighted_average_price: None,
            remaining_contribution_tokens: project.total_allocation_size,
            funding_amount_reached: 0,
        };
        let record = ProjectRecord {
            issuer,
            metadata: project,
            details,
            evaluation: EvaluationMetadata { amount_bonded: 0 },
            bonds: Vec::new(),
            bids: Vec::new(),
            contributions: Vec::new(),
            bought_usd: Vec::new(),
            winning_dids: Vec::new(),
        };
        self.projects.push(record);
        self.events.push(Event::Created { project_id, issuer });
        Ok(project_id)
    }

    /// Open the evaluation round of a project; only its issuer may, and
    /// only out of the application phase.
    pub fn start_evaluation(&mut self, caller: AccountId, project_id: ProjectId) -> (r: Result<
        (),
        Error,
    >)
        ensures
            ({
                let o = *old(self);
                let n = *final(self);
                if project_id >= o.projects@.len() {
                    r == Err::<(), Error>(Error::ProjectNotFound) && state_unchanged(o, n)
                } else if o.projects@[project_id as int].issuer != caller {
                    r == Err::<(), Error>(Error::NotAllowed) && state_unchanged(o, n)
                } else if o.projects@[project_id as int].details.project_status
                    != ProjectStatus::Application {
                    r == Err::<(), Error>(Error::IncorrectRound) && state_unchanged(o, n)
                } else {
                    &&& r == Ok::<(), Error>(())
                    &&& projects_unchanged_except(o, n, project_id as int)
                    &&& stores_unchanged(o, n)
                    &&& n.projects@[project_id as int] == ProjectRecord {
                        details: ProjectDetails {
                            project_status: ProjectStatus::EvaluationRound,
                            evaluation_period_ends: o.current_block.saturating_add(
                                EVALUATION_DURATION,
                            ),
                            ..o.projects@[project_id as int].details
                        },
                        ..o.projects@[project_id as int]
                    }
                    &&& n.events@ == o.events@.push(Event::EvaluationStarted { project_id })
                }
            }),
    {
        if !valid_project(self, project_id) {
            return Err(Error::ProjectNotFound);
        }
        let now = self.current_block;
        {
            let probe = &self.projects[project_id as usize];
            if probe.issuer != caller {
                return Err(Error::NotAllowed);
            }
            match probe.details.project_status {
                ProjectStatus::Application => {},
                _ => {
                    return Err(Error::IncorrectRound);
                },
            }
        }
        let rec = &mut self.projects[project_id as usize];
        rec.details.project_status = ProjectStatus::EvaluationRound;
        rec.details.evaluation_period_ends = now.saturating_add(EVALUATION_DURATION);
        self.events.push(Event::EvaluationStarted { project_id });
        Ok(())
    }

    /// Bond USD-equivalent value behind a project under evaluation. The
    /// amount is taken from the caller's native balance and added to the
    /// caller's bond and the project's evaluation total.
    pub fn bond(&mut self, caller: AccountId, project_id: ProjectId, amount: Balance) -> (r:
        Result<(), Error>)
        ensures
            ({
                let o = *old(self);
                let n = *final(self);
                if project_id >= o.projects@.len() {
                    r == Err::<(), Error>(Error::ProjectNotFound) && state_unchanged(o, n)
                } else if o.projects@[project_id as int].details.project_status
                    != ProjectStatus::EvaluationRound {
                    r == Err::<(), Error>(Error::EvaluationNotStarted) && state_unchanged(o, n)
                } else if spec_plmc_balance(o, caller) < amount {
                    r == Err::<(), Error>(Error::InsufficientBalance) && state_unchanged(o, n)
                } else {
                    &&& r == Ok::<(), Error>(())
                    &&& projects_unchanged_except(o, n, project_id as int)
                    &&& spec_plmc_balance(n, caller) == spec_plmc_balance(o, caller) - amount
                    &&& forall|b: AccountId|
                        b != caller ==> spec_plmc_balance(n, b) == spec_plmc_balance(o, b)
                    &&& n.asset_balances@ == o.asset_balances@
                    &&& n.prices@ == o.prices@
                    &&& n.next_bid_id == o.next_bid_id
                    &&& n.next_contribution_id == o.next_contribution_id
                    &&& n.current_block == o.current_block
                    &&& n.projects@[project_id as int].issuer == o.projects@[project_id as int].issuer
                    &&& n.projects@[project_id as int].metadata == o.projects@[project_id as int].metadata
                    &&& n.projects@[project_id as int].details == o.projects@[project_id as int].details
                    &&& n.projects@[project_id as int].bids@ == o.projects@[project_id as int].bids@
                    &&& n.projects@[project_id as int].contributions@ == o.projects@[project_id as int].contributions@
                    &&& n.projects@[project_id as int].bought_usd@ == o.projects@[project_id as int].bought_usd@
                    &&& n.projects@[project_id as int].winning_dids@ == o.projects@[project_id as int].winning_dids@
                    &&& n.projects@[project_id as int].evaluation.amount_bonded == o.projects@[project_id as int].evaluation.amount_bonded.saturating_add(amount)
                    &&& spec_bond(n.projects@[project_id as int].bonds@, caller) == Some(
                        (match spec_bond(o.projects@[project_id as int].bonds@, caller) {
                            Some(v) => v,
                            None => 0,
                        }).saturating_add(amount),
                    )
                    &&& forall|b: AccountId|
                        b != caller ==> spec_bond(n.projects@[project_id as int].bonds@, b)
                            == spec_bond(o.projects@[project_id as int].bonds@, b)
                    &&& n.events@ == o.events@.push(
                        Event::Bonded { project_id, account: caller, amount },
                    )
                }
            }),
    {
        if !valid_project(self, project_id) {
            return Err(Error::ProjectNotFound);
        }
        {
            let probe = &self.projects[project_id as usize];
            match probe.details.project_status {
                ProjectStatus::EvaluationRound => {},
                _ => {
                    return Err(Error::EvaluationNotStarted);
                },
            }
        }
        let bal = self.plmc_balance_of(caller);
        if bal < amount {
            return Err(Error::InsufficientBalance);
        }
        let prev = match self.bonds(caller, project_id) {
            Some(v) => v,
            None => 0,
        };
        self.set_plmc_balance(caller, bal - amount);
        let total = prev.saturating_add(amount);
        let prev_bonded = self.projects[project_id as usize].evaluation.amount_bonded;
        let rec = &mut self.projects[project_id as usize];
        let ghost old_bonds = rec.bonds@;
        rec.bonds.insert(0, BondEntry { account: caller, amount: total });
        rec.evaluation = EvaluationMetadata { amount_bonded: prev_bonded.saturating_add(amount) };
        proof {
            assert(bond_pairs(rec.bonds@).first() == (caller, total));
            assert(bond_pairs(rec.bonds@).drop_first() =~= bond_pairs(old_bonds));
        }
        self.events.push(Event::Bonded { project_id, account: caller, amount });
        Ok(())
    }

    /// Open the auction of a project whose evaluation has ended; only
    /// the issuer may. The English sub-phase runs first, the Candle
    /// sub-phase follows it.
    pub fn start_auction(&mut self, caller: AccountId, project_id: ProjectId) -> (r: Result<
        (),
        Error,
    >)
        ensures
            ({
                let o = *old(self);
                let n = *final(self);
                if project_id >= o.projects@.len() {
                    r == Err::<(), Error>(Error::ProjectNotFound) && state_unchanged(o, n)
                } else if o.projects@[project_id as int].issuer != caller {
                    r == Err::<(), Error>(Error::NotAllowed) && state_unchanged(o, n)
                } else if o.projects@[project_id as int].details.project_status
                    == ProjectStatus::Application || o.projects@[project_id as int].details.project_status
                    == ProjectStatus::EvaluationRound {
                    r == Err::<(), Error>(Error::EvaluationNotStarted) && state_unchanged(o, n)
                } else if o.projects@[project_id as int].details.project_status
                    != ProjectStatus::EvaluationEnded {
                    r == Err::<(), Error>(Error::IncorrectRound) && state_unchanged(o, n)
                } else {
                    &&& r == Ok::<(), Error>(())
                    &&& projects_unchanged_except(o, n, project_id as int)
                    &&& stores_unchanged(o, n)
                    &&& n.projects@[project_id as int] == ProjectRecord {
                        details: ProjectDetails {
                            project_status: ProjectStatus::AuctionRound(AuctionPhase::English),
                            english_ends: o.current_block.saturating_add(ENGLISH_AUCTION_DURATION),
                            candle_ends: o.current_block.saturating_add(
                                ENGLISH_AUCTION_DURATION,
                            ).saturating_add(CANDLE_AUCTION_DURATION),
                            ..o.projects@[project_id as int].details
                        },
                        ..o.projects@[project_id as int]
                    }
                    &&& n.events@ == o.events@.push(
                        Event::AuctionStarted { project_id, when: o.current_block },
                    )
                }
            }),
    {
        if !valid_project(self, project_id) {
            return Err(Error::ProjectNotFound);
        }
        let now = self.current_block;
        {
            let probe = &self.projects[project_id as usize];
            if probe.issuer != caller {
                return Err(Error::NotAllowed);
            }
            match probe.details.project_status {
                ProjectStatus::Application | ProjectStatus::EvaluationRound => {
                    return Err(Error::EvaluationNotStarted);
                },
                ProjectStatus::EvaluationEnded => {},
                _ => {
                    return Err(Error::IncorrectRound);
                },
            }
        }
        let english_ends = now.saturating_add(ENGLISH_AUCTION_DURATION);
        let rec = &mut self.projects[project_id as usize];
        rec.details.project_status = ProjectStatus::AuctionRound(AuctionPhase::English);
        rec.details.english_ends = english_ends;
        rec.details.candle_ends = english_ends.saturating_add(CANDLE_AUCTION_DURATION);
        self.events.push(Event::AuctionStarted { project_id, when: now });
        Ok(())
    }

    /// Place a bid during the auction round. The ticket's native-token
    /// bond and funding-asset amount are escrowed from the bidder's
    /// balances before the bid is recorded; the bid settles only when
    /// the auction closes.
    pub fn bid(
        &mut self,
        bidder: AccountId,
        project_id: ProjectId,
        price: Balance,
        ct_amount: Balance,
    ) -> (r: Result<(), Error>)
        ensures
            ({
                let o = *old(self);
                let n = *final(self);
                let usdt = AcceptedFundingAsset::USDT.spec_id();
                if project_id >= o.projects@.len() {
                    r == Err::<(), Error>(Error::ProjectNotFound) && state_unchanged(o, n)
                } else if !(o.projects@[project_id as int].details.project_status matches
                ProjectStatus::AuctionRound(_)) {
                    r == Err::<(), Error>(Error::AuctionNotStarted) && state_unchanged(o, n)
                } else if price < o.projects@[project_id as int].metadata.minimum_price {
                    r == Err::<(), Error>(Error::TooLow) && state_unchanged(o, n)
                } else if spec_ticket_size(price, ct_amount) is None {
                    r == Err::<(), Error>(Error::BadMath) && state_unchanged(o, n)
                } else if spec_price(o, PLMC_ASSET_ID) is None || spec_plmc_bond(
                    spec_ticket_size(price, ct_amount)->Some_0,
                    1,
                    spec_price(o, PLMC_ASSET_ID)->Some_0,
                ) is None {
                    r == Err::<(), Error>(Error::BadMath) && state_unchanged(o, n)
                } else if spec_price(o, usdt) is None || spec_funding_asset_amount(
                    spec_ticket_size(price, ct_amount)->Some_0,
                    spec_price(o, usdt)->Some_0,
                ) is None {
                    r == Err::<(), Error>(Error::BadMath) && state_unchanged(o, n)
                } else if spec_plmc_balance(o, bidder) < spec_plmc_bond(
                    spec_ticket_size(price, ct_amount)->Some_0,
                    1,
                    spec_price(o, PLMC_ASSET_ID)->Some_0,
                )->Some_0 {
                    r == Err::<(), Error>(Error::InsufficientBalance) && state_unchanged(o, n)
                } else if spec_asset_balance(o, bidder, usdt) < spec_funding_asset_amount(
                    spec_ticket_size(price, ct_amount)->Some_0,
                    spec_price(o, usdt)->Some_0,
                )->Some_0 {
                    r == Err::<(), Error>(Error::InsufficientBalance) && state_unchanged(o, n)
                } else if o.next_bid_id == u32::MAX {
                    r == Err::<(), Error>(Error::ImpossibleState) && state_unchanged(o, n)
                } else {
                    let bond = spec_plmc_bond(
                        spec_ticket_size(price, ct_amount)->Some_0,
                        1,
                        spec_price(o, PLMC_ASSET_ID)->Some_0,
                    )->Some_0;
                    let funding = spec_funding_asset_amount(
                        spec_ticket_size(price, ct_amount)->Some_0,
                        spec_price(o, usdt)->Some_0,
                    )->Some_0;
                    &&& r == Ok::<(), Error>(())
                    &&& projects_unchanged_except(o, n, project_id as int)
                    &&& spec_plmc_balance(n, bidder) == spec_plmc_balance(o, bidder) - bond
                    &&& forall|b: AccountId|
                        b != bidder ==> spec_plmc_balance(n, b) == spec_plmc_balance(o, b)
                    &&& spec_asset_balance(n, bidder, usdt) == spec_asset_balance(o, bidder, usdt)
                        - funding
                    &&& forall|b: AccountId, a: u32|
                        !(b == bidder && a == usdt) ==> spec_asset_balance(n, b, a)
                            == spec_asset_balance(o, b, a)
                    &&& n.prices@ == o.prices@
                    &&& n.next_bid_id == o.next_bid_id + 1
                    &&& n.next_contribution_id == o.next_contribution_id
                    &&& n.current_block == o.current_block
                    &&& n.projects@[project_id as int] == ProjectRecord {
                        bids: n.projects@[project_id as int].bids,
                        ..o.projects@[project_id as int]
                    }
                    &&& n.projects@[project_id as int].bids@ == o.projects@[project_id as int].bids@.push(
                        BidInfo {
                            id: o.next_bid_id,
                            project_id,
                            bidder,
                            did: bidder,
                            status: BidStatus::Pending,
                            original_ct_amount: ct_amount,
                            original_ct_usd_price: price,
                            funding_asset: AcceptedFundingAsset::USDT,
                            funding_asset_amount_locked: funding,
                            multiplier: 1,
                            plmc_bond: bond,
                            when: o.current_block,
                        },
                    )
                    &&& n.events@ == o.events@.push(
                        Event::BidPlaced { project_id, bidder, amount: ct_amount, price },
                    )
                }
            }),
    {
        if !valid_project(self, project_id) {
            return Err(Error::ProjectNotFound);
        }
        let now = self.current_block;
        {
            let probe = &self.projects[project_id as usize];
            match probe.details.project_status {
                ProjectStatus::AuctionRound(_) => {},
                _ => {
                    return Err(Error::AuctionNotStarted);
                },
            }
            if price < probe.metadata.minimum_price {
                return Err(Error::TooLow);
            }
        }
        let ticket = match calculate_ticket_size(price, ct_amount) {
            Ok(t) => t,
            Err(e) => {
                return Err(e);
            },
        };
        let bond = match self.price_of(PLMC_ASSET_ID) {
            Some(pp) => match calculate_plmc_bond(ticket, 1, pp) {
                Ok(b) => b,
                Err(e) => {
                    return Err(e);
                },
            },
            None => {
                return Err(Error::BadMath);
            },
        };
        let usdt_id = AcceptedFundingAsset::USDT.id();
        let funding = match self.price_of(usdt_id) {
            Some(ap) => match calculate_funding_asset_amount(ticket, ap) {
                Ok(f) => f,
                Err(e) => {
                    return Err(e);
                },
            },
            None => {
                return Err(Error::BadMath);
            },
        };
        let plmc_bal = self.plmc_balance_of(bidder);
        if plmc_bal < bond {
            return Err(Error::InsufficientBalance);
        }
        let asset_bal = self.asset_balance_of(bidder, usdt_id);
        if asset_bal < funding {
            return Err(Error::InsufficientBalance);
        }
        if self.next_bid_id == u32::MAX {
            return Err(Error::ImpossibleState);
        }
        self.set_plmc_balance(bidder, plmc_bal - bond);
        let ghost mid1 = *self;
        self.set_asset_balance(bidder, usdt_id, asset_bal - funding);
        let ghost mid2 = *self;
        let bid_id = self.next_bid_id;
        self.next_bid_id = bid_id + 1;
        let rec = &mut self.projects[project_id as usize];
        rec.bids.push(
            BidInfo {
                id: bid_id,
                project_id,
                bidder,
                did: bidder,
                status: BidStatus::Pending,
                original_ct_amount: ct_amount,
                original_ct_usd_price: price,
                funding_asset: AcceptedFundingAsset::USDT,
                funding_asset_amount_locked: funding,
                multiplier: 1,
                plmc_bond: bond,
                when: now,
            },
        );
        self.events.push(Event::BidPlaced { project_id, bidder, amount: ct_amount, price });
        proof {
            assert forall|b: AccountId, a: u32| !(b == bidder && a == usdt_id) implies
                spec_asset_balance(*self, b, a) == spec_asset_balance(*old(self), b, a) by {
                assert(spec_asset_balance(mid1, b, a) == spec_asset_balance(*old(self), b, a));
                assert(spec_asset_balance(mid2, b, a) == spec_asset_balance(mid1, b, a));
                assert(spec_asset_balance(*self, b, a) == spec_asset_balance(mid2, b, a));
            }
            assert forall|b: AccountId| b != bidder implies spec_plmc_balance(*self, b)
                == spec_plmc_balance(*old(self), b) by {
                assert(spec_plmc_balance(mid1, b) == spec_plmc_balance(*old(self), b));
                assert(spec_plmc_balance(mid2, b) == spec_plmc_balance(mid1, b));
                assert(spec_plmc_balance(*self, b) == spec_plmc_balance(mid2, b));
            }
        }
        Ok(())
    }

    /// Tick one project: if its current round's end block has been
    /// reached, advance it to the next round, closing the auction on the
    /// way into the community round. Before any deadline this is a
    /// no-op, so the tick is idempotent within a block.
    pub fn advance_round(&mut self, project_id: ProjectId) -> (r: Result<(), Error>)
        ensures
            ({
                let o = *old(self);
                let n = *final(self);
                if project_id >= o.projects@.len() {
                    r == Err::<(), Error>(Error::ProjectNotFound) && state_unchanged(o, n)
                } else {
                    &&& r == Ok::<(), Error>(())
                    &&& projects_unchanged_except(o, n, project_id as int)
                    &&& stores_unchanged(o, n)
                    &&& spec_advances(
                        o.projects@[project_id as int],
                        n.projects@[project_id as int],
                        o.current_block,
                    )
                    &&& if spec_tick_status(o.projects@[project_id as int], o.current_block)
                        != o.projects@[project_id as int].details.project_status {
                        n.events@ == o.events@.push(
                            Event::StatusChanged {
                                project_id,
                                status: spec_tick_status(
                                    o.projects@[project_id as int],
                                    o.current_block,
                                ),
                            },
                        )
                    } else {
                        n.events@ == o.events@
                    }
                }
            }),
    {
        if !valid_project(self, project_id) {
            return Err(Error::ProjectNotFound);
        }
        let now = self.current_block;
        let (d, bonded, eval_threshold, funding_threshold, alloc) = {
            let probe = &self.projects[project_id as usize];
            (
                probe.details,
                probe.evaluation.amount_bonded,
                probe.metadata.evaluation_threshold,
                probe.metadata.funding_threshold,
                probe.metadata.total_allocation_size,
            )
        };
        match d.project_status {
            ProjectStatus::EvaluationRound => {
                if now >= d.evaluation_period_ends {
                    let st = if bonded >= eval_threshold {
                        ProjectStatus::EvaluationEnded
                    } else {
                        ProjectStatus::FundingFailed
                    };
                    let rec = &mut self.projects[project_id as usize];
                    rec.details.project_status = st;
                    self.events.push(Event::StatusChanged { project_id, status: st });
                }
                Ok(())
            },
            ProjectStatus::AuctionRound(AuctionPhase::English) => {
                if now >= d.english_ends {
                    let st = ProjectStatus::AuctionRound(AuctionPhase::Candle);
                    let rec = &mut self.projects[project_id as usize];
                    rec.details.project_status = st;
                    self.events.push(Event::StatusChanged { project_id, status: st });
                }
                Ok(())
            },
            ProjectStatus::AuctionRound(AuctionPhase::Candle) => {
                if now >= d.candle_ends {
                    self.close_auction(project_id, now, alloc, d);
                }
                Ok(())
            },
            ProjectStatus::CommunityRound => {
                if now >= d.community_ends {
                    let rec = &mut self.projects[project_id as usize];
                    rec.details.project_status = ProjectStatus::RemainderRound;
                    rec.details.remainder_ends = now.saturating_add(REMAINDER_ROUND_DURATION);
                    self.events.push(
                        Event::StatusChanged { project_id, status: ProjectStatus::RemainderRound },
                    );
                }
                Ok(())
            },
            ProjectStatus::RemainderRound => {
                if now >= d.remainder_ends {
                    let st = if d.funding_amount_reached >= funding_threshold {
                        ProjectStatus::FundingEnded
                    } else {
                        ProjectStatus::FundingFailed
                    };
                    let rec = &mut self.projects[project_id as usize];
                    rec.details.project_status = st;
                    self.events.push(Event::StatusChanged { project_id, status: st });
                }
                Ok(())
            },
            _ => Ok(()),
        }
    }

    /// Close the auction of a project whose Candle sub-phase has ended:
    /// freeze the clearing price, settle every bid's status, record the
    /// winning identities and open the community round. An overflow of
    /// the price-weighted sum aborts the campaign instead.
    fn close_auction(
        &mut self,
        project_id: ProjectId,
        now: BlockNumber,
        alloc: Balance,
        d: ProjectDetails,
    )
        requires
            project_id < old(self).projects@.len(),
            old(self).projects@[project_id as int].details == d,
            old(self).projects@[project_id as int].metadata.total_allocation_size == alloc,
            d.project_status == ProjectStatus::AuctionRound(AuctionPhase::Candle),
            now >= d.candle_ends,
            old(self).current_block == now,
        ensures
            ({
                let o = *old(self);
                let n = *final(self);
                &&& projects_unchanged_except(o, n, project_id as int)
                &&& stores_unchanged(o, n)
                &&& spec_advances(
                    o.projects@[project_id as int],
                    n.projects@[project_id as int],
                    now,
                )
                &&& n.events@ == o.events@.push(
                    Event::StatusChanged {
                        project_id,
                        status: spec_tick_status(o.projects@[project_id as int], now),
                    },
                )
            }),
    {
        let ghost orec = old(self).projects@[project_id as int];
        let ghost s = sorted_bids(orec.bids@);
        let outcome = {
            let probe = &self.projects[project_id as usize];
            calculate_weighted_average_price(&probe.bids, alloc)
        };
        match outcome {
            Err(_) => {
                let rec = &mut self.projects[project_id as usize];
                rec.details.project_status = ProjectStatus::FundingFailed;
                self.events.push(
                    Event::StatusChanged { project_id, status: ProjectStatus::FundingFailed },
                );
            },
            Ok(out) => {
                proof {
                    lemma_fill_total_bounds(s, alloc);
                    lemma_fill_amounts_len(s, alloc);
                }
                let remaining = alloc - out.total_accepted;
                let wap = out.weighted_average_price;
                let (new_bids, new_winning) = {
                    let probe = &self.projects[project_id as usize];
                    let ghost fills = fill_amounts(s, alloc);
                    let mut new_bids: Vec<BidInfo> = Vec::new();
                    let mut i: usize = 0;
                    while i < probe.bids.len()
                        invariant
                            i <= probe.bids@.len(),
                            new_bids@.len() == i,
                            probe.bids@ == orec.bids@,
                            s == sorted_bids(orec.bids@),
                            fills == fill_amounts(s, alloc),
                            fills.len() == s.len(),
                            out.outcomes@.len() == s.len(),
                            forall|m: int|
                                0 <= m < s.len() ==> {
                                    let oc = #[trigger] out.outcomes@[m];
                                    oc.id == s[m].id && oc.status == status_of(s[m], fills[m])
                                },
                            forall|m: int|
                                0 <= m < i ==> #[trigger] new_bids@[m] == spec_closed_bid(
                                    orec.bids@,
                                    alloc,
                                    orec.bids@[m],
                                ),
                        decreases probe.bids@.len() - i,
                    {
                        let b = probe.bids[i];
                        let settled = settled_status(&out.outcomes, b.id);
                        let st = match settled {
                            Some(st) => {
                                proof {
                                    let j = choose|j: int|
                                        0 <= j < out.outcomes@.len() && (#[trigger] out.outcomes@[j]).id
                                            == b.id && st == out.outcomes@[j].status && forall|
                                            m: int,
                                        | 0 <= m < j ==> (#[trigger] out.outcomes@[m]).id != b.id;
                                    assert forall|m: int| 0 <= m < j implies (#[trigger] s[m]).id
                                        != b.id by {
                                        assert(out.outcomes@[m].id == s[m].id);
                                    }
                                    lemma_first_status_index(s, fills, b.id, j);
                                }
                                st
                            },
                            None => {
                                proof {
                                    assert forall|m: int| 0 <= m < s.len() implies (
                                    #[trigger] s[m]).id != b.id by {
                                        assert(out.outcomes@[m].id == s[m].id);
                                    }
                                    lemma_first_status_absent(s, fills, b.id);
                                }
                                b.status
                            },
                        };
                        new_bids.push(BidInfo { status: st, ..b });
                        i += 1;
                    }
                    let mut new_winning: Vec<Did> = Vec::new();
                    let mut w: usize = 0;
                    while w < probe.winning_dids.len()
                        invariant
                            w <= probe.winning_dids@.len(),
                            probe.winning_dids@ == orec.winning_dids@,
                            forall|i: int, j: int|
                                0 <= i < j < new_winning@.len() ==> new_winning@[i]
                                    != new_winning@[j],
                            forall|dd: Did|
                                #[trigger] new_winning@.contains(dd)
                                    <==> probe.winning_dids@.take(w as int).contains(dd),
                        decreases probe.winning_dids@.len() - w,
                    {
                        let d = probe.winning_dids[w];
                        let ghost prev = new_winning@;
                        let ghost taken = probe.winning_dids@.take(w as int);
                        let ghost taken1 = probe.winning_dids@.take(w as int + 1);
                        if !contains_did(&new_winning, d) {
                            new_winning.push(d);
                            proof {
                                assert forall|i: int, j: int|
                                    0 <= i < j < new_winning@.len() implies new_winning@[i]
                                    != new_winning@[j] by {
                                    if j == new_winning@.len() - 1 {
                                        assert(new_winning@[i] == prev[i]);
                                        assert(prev.contains(prev[i]));
                                    }
                                }
                                assert forall|dd: Did| #[trigger] new_winning@.contains(dd) implies
                                    taken1.contains(dd) by {
                                    let wi = choose|wi: int|
                                        0 <= wi < new_winning@.len() && new_winning@[wi] == dd;
                                    if wi < prev.len() {
                                        assert(prev.contains(dd));
                                        let ti = choose|ti: int|
                                            0 <= ti < taken.len() && taken[ti] == dd;
                                        assert(taken1[ti] == dd);
                                    } else {
                                        assert(taken1[w as int] == d);
                                    }
                                }
                                assert forall|dd: Did| taken1.contains(dd) implies
                                    #[trigger] new_winning@.contains(dd) by {
                                    let ti = choose|ti: int|
                                        0 <= ti < taken1.len() && taken1[ti] == dd;
                                    if ti < w {
                                        assert(taken[ti] == dd);
                                        assert(prev.contains(dd));
                                        let wi = choose|wi: int|
                                            0 <= wi < prev.len() && prev[wi] == dd;
                                        assert(new_winning@[wi] == dd);
                                    } else {
                                        assert(new_winning@[new_winning@.len() - 1] == d);
                                    }
                                }
                            }
                        } else {
                            proof {
                                assert forall|dd: Did| #[trigger] new_winning@.contains(dd) implies
                                    taken1.contains(dd) by {
                                    let ti = choose|ti: int|
                                        0 <= ti < taken.len() && taken[ti] == dd;
                                    assert(taken1[ti] == dd);
                                }
                                assert forall|dd: Did| taken1.contains(dd) implies
                                    #[trigger] new_winning@.contains(dd) by {
                                    let ti = choose|ti: int|
                                        0 <= ti < taken1.len() && taken1[ti] == dd;
                                    if ti < w {
                                        assert(taken[ti] == dd);
                                    } else {
                                        assert(dd == d);
                                    }
                                }
                            }
                        }
                        w += 1;
                    }
                    proof {
                        assert(probe.winning_dids@.take(probe.winning_dids@.len() as int)
                            =~= probe.winning_dids@);
                    }
                    let mut k: usize = 0;
                    while k < new_bids.len()
                        invariant
                            k <= new_bids@.len(),
                            forall|i: int, j: int|
                                0 <= i < j < new_winning@.len() ==> new_winning@[i]
                                    != new_winning@[j],
                            forall|dd: Did|
                                #[trigger] new_winning@.contains(dd) <==> (
                                orec.winning_dids@.contains(dd) || exists|m: int|
                                    0 <= m < k && (#[trigger] new_bids@[m]).did == dd
                                        && spec_is_winning(new_bids@[m].status)),
                        decreases new_bids@.len() - k,
                    {
                        let nb = &new_bids[k];
                        let winning = match nb.status {
                            BidStatus::Accepted => true,
                            BidStatus::PartiallyAccepted(_) => true,
                            _ => false,
                        };
                        if winning {
                            if !contains_did(&new_winning, nb.did) {
                                let ghost prev = new_winning@;
                                new_winning.push(nb.did);
                                proof {
                                    assert forall|i: int, j: int|
                                        0 <= i < j < new_winning@.len() implies new_winning@[i]
                                        != new_winning@[j] by {
                                        if j == new_winning@.len() - 1 {
                                            assert(new_winning@[i] == prev[i]);
                                            assert(prev.contains(prev[i]));
                                        }
                                    }
                                    assert forall|dd: Did| #[trigger] new_winning@.contains(dd)
                                        implies (orec.winning_dids@.contains(dd) || exists|m: int|
                                        0 <= m < k + 1 && (#[trigger] new_bids@[m]).did == dd
                                            && spec_is_winning(new_bids@[m].status)) by {
                                        let wi = choose|wi: int|
                                            0 <= wi < new_winning@.len() && new_winning@[wi] == dd;
                                        if wi < prev.len() {
                                            assert(prev.contains(dd));
                                        } else {
                                            assert(dd == nb.did);
                                            assert(new_bids@[k as int].did == dd
                                                && spec_is_winning(new_bids@[k as int].status));
                                        }
                                    }
                                    assert forall|dd: Did|
                                        (orec.winning_dids@.contains(dd) || exists|m: int|
                                            0 <= m < k + 1 && (#[trigger] new_bids@[m]).did == dd
                                                && spec_is_winning(new_bids@[m].status)) implies
                                        #[trigger] new_winning@.contains(dd) by {
                                        if prev.contains(dd) {
                                            let wi = choose|wi: int|
                                                0 <= wi < prev.len() && prev[wi] == dd;
                                            assert(new_winning@[wi] == dd);
                                        } else {
                                            assert(new_winning@.last() == nb.did);
                                        }
                                    }
                                }
                            } else {
                                proof {
                                    assert forall|dd: Did|
                                        (orec.winning_dids@.contains(dd) || exists|m: int|
                                            0 <= m < k + 1 && (#[trigger] new_bids@[m]).did == dd
                                                && spec_is_winning(new_bids@[m].status)) implies
                                        #[trigger] new_winning@.contains(dd) by {
                                        if dd == nb.did {
                                        }
                                    }
                                }
                            }
                        }
                        k += 1;
                    }
                    (new_bids, new_winning)
                };
                let rec = &mut self.projects[project_id as usize];
                rec.bids = new_bids;
                rec.winning_dids = new_winning;
                rec.details = ProjectDetails {
                    project_status: ProjectStatus::CommunityRound,
                    community_ends: now.saturating_add(COMMUNITY_ROUND_DURATION),
                    weighted_average_price: wap,
                    remaining_contribution_tokens: remaining,
                    ..d
                };
                self.events.push(
                    Event::StatusChanged { project_id, status: ProjectStatus::CommunityRound },
                );
            },
        }
    }

    /// Tick every project at block `now`: set the clock and advance each
    /// project whose round has ended.
    pub fn on_initialize(&mut self, now: BlockNumber)
        requires
            old(self).projects@.len() <= u32::MAX,
        ensures
            final(self).current_block == now,
            final(self).projects@.len() == old(self).projects@.len(),
            forall|q: int|
                0 <= q < old(self).projects@.len() ==> spec_advances(
                    old(self).projects@[q],
                    #[trigger] final(self).projects@[q],
                    now,
                ),
            final(self).balances@ == old(self).balances@,
            final(self).asset_balances@ == old(self).asset_balances@,
            final(self).prices@ == old(self).prices@,
            final(self).next_bid_id == old(self).next_bid_id,
            final(self).next_contribution_id == old(self).next_contribution_id,
            final(self).events@ == old(self).events@ + tick_event_seq(old(self).projects@, now),
    {
        self.set_block_number(now);
        let ghost base = *self;
        let ghost orig = old(self).projects@;
        let mut pid: usize = 0;
        proof {
            assert(tick_event_seq(orig.take(0), now) =~= Seq::<Event>::empty());
            assert(self.events@ =~= old(self).events@ + tick_event_seq(orig.take(0), now));
        }
        while pid < self.projects.len()
            invariant
                pid <= orig.len(),
                orig.len() <= u32::MAX,
                self.projects@.len() == orig.len(),
                self.current_block == now,
                forall|q: int|
                    0 <= q < pid ==> spec_advances(orig[q], #[trigger] self.projects@[q], now),
                forall|q: int| pid <= q < orig.len() ==> self.projects@[q] == orig[q],
                self.balances@ == base.balances@,
                self.asset_balances@ == base.asset_balances@,
                self.prices@ == base.prices@,
                self.next_bid_id == base.next_bid_id,
                self.next_contribution_id == base.next_contribution_id,
                self.events@ == base.events@ + tick_event_seq(orig.take(pid as int), now),
            decreases orig.len() - pid,
        {
            let ghost pre_events = self.events@;

            let _ = self.advance_round(pid as u32);
            proof {
                let t1 = orig.take(pid as int + 1);
                assert(t1.drop_last() =~= orig.take(pid as int));
                assert(t1.last() == orig[pid as int]);
                assert((t1.len() - 1) as ProjectId == pid as u32);
                if spec_tick_status(orig[pid as int], now) != orig[pid as int].details.project_status {
                    let ev = Event::StatusChanged {
                        project_id: pid as u32,
                        status: spec_tick_status(orig[pid as int], now),
                    };
                    assert(tick_event_seq(t1, now) =~= tick_event_seq(
                        orig.take(pid as int),
                        now,
                    ).push(ev));
                    assert(self.events@ =~= pre_events.push(ev));
                    assert(self.events@ =~= base.events@ + tick_event_seq(t1, now));
                } else {
                    assert(tick_event_seq(t1, now) =~= tick_event_seq(orig.take(pid as int), now));
                    assert(self.events@ =~= base.events@ + tick_event_seq(t1, now));
                }
            }
            pid += 1;
        }
        proof {
            assert(orig.take(orig.len() as int) =~= orig);
        }
    }
}

/// Whether a list of identities mentions `x`.
pub(crate) fn contains_did(v: &Vec<Did>, x: Did) -> (r: bool)
    ensures
        r == v@.contains(x),
{
    let mut j: usize = 0;
    while j < v.len()
        invariant
            j <= v@.len(),
            forall|m: int| 0 <= m < j ==> v@[m] != x,
        decreases v@.len() - j,
    {
        if v[j] == x {
            return true;
        }
        j += 1;
    }
    false
}

/// The status-change events one tick of every project emits, in project
/// order.
pub open spec fn tick_event_seq(projects: Seq<ProjectRecord>, now: BlockNumber) -> Seq<Event>
    decreases projects.len(),
{
    if projects.len() == 0 {
        Seq::empty()
    } else {
        let rest = tick_event_seq(projects.drop_last(), now);
        let rec = projects.last();
        if spec_tick_status(rec, now) != rec.details.project_status {
            rest.push(
                Event::StatusChanged {
                    project_id: (projects.len() - 1) as ProjectId,
                    status: spec_tick_status(rec, now),
                },
            )
        } else {
            rest
        }
    }
}

/// The status of the first auction outcome carrying the given bid id.
fn settled_status(outs: &Vec<crate::auction::BidOutcome>, id: u32) -> (r: Option<BidStatus>)
    ensures
        match r {
            Some(st) => exists|j: int|
                0 <= j < outs@.len() && (#[trigger] outs@[j]).id == id && st == outs@[j].status
                    && forall|m: int| 0 <= m < j ==> (#[trigger] outs@[m]).id != id,
            None => forall|m: int| 0 <= m < outs@.len() ==> (#[trigger] outs@[m]).id != id,
        },
{
    let mut j: usize = 0;
    while j < outs.len()
        invariant
            j <= outs@.len(),
            forall|m: int| 0 <= m < j ==> (#[trigger] outs@[m]).id != id,
        decreases outs@.len() - j,
    {
        if outs[j].id == id {
            return Some(outs[j].status);
        }
        j += 1;
    }
    None
}

} // verus!

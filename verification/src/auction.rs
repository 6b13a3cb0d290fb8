//! Auction pricing: bids sorted by price (descending, earlier submission
//! winning ties) are filled greedily against the allocation, and the
//! weighted-average clearing price is the amount-weighted mean of the
//! accepted prices.
//!
//! The whole computation is pinned to a sequence-level model, so the
//! clearing price provably depends only on the multiset of bids, never
//! on the order they arrived in.
use vstd::prelude::*;
use vstd::relations::{sorted_by, total_ordering};
use vstd::seq_lib::{lemma_sorted_unique, group_to_multiset_ensures};
use vstd::multiset::Multiset;
use crate::types::{Balance, BlockNumber, Error, BidInfo, BidStatus};

verus! {

/// The slice of a bid the pricing engine reads: price, submission time,
/// identifier and requested token amount.
#[derive(Clone, Copy, PartialEq, Eq, Structural, Debug)]
pub struct CandidateBid {
    pub price: Balance,
    pub when: BlockNumber,
    pub id: u32,
    pub ct_amount: Balance,
}

/// The auction ordering: higher price first, ties broken by earlier
/// submission, then by lower bid id, then by amount to make the
/// relation a total order.
pub open spec fn bid_leq(a: CandidateBid, b: CandidateBid) -> bool {
    ||| a.price > b.price
    ||| (a.price == b.price && a.when < b.when)
    ||| (a.price == b.price && a.when == b.when && a.id < b.id)
    ||| (a.price == b.price && a.when == b.when && a.id == b.id && a.ct_amount <= b.ct_amount)
}

/// The auction ordering as a relation value.
pub open spec fn bid_ord() -> spec_fn(CandidateBid, CandidateBid) -> bool {
    |a: CandidateBid, b: CandidateBid| bid_leq(a, b)
}

/// The auction ordering is a total order, so a multiset of bids has
/// exactly one sorted arrangement.
pub proof fn lemma_bid_ord_total()
    ensures
        total_ordering(bid_ord()),
{
    let r = bid_ord();
    assert forall|x: CandidateBid, y: CandidateBid| #[trigger] r(x, y) && #[trigger] r(y, x)
        implies x == y by {
        assert(bid_leq(x, y) && bid_leq(y, x));
    }
    assert forall|x: CandidateBid, y: CandidateBid, z: CandidateBid|
        #[trigger] r(x, y) && #[trigger] r(y, z) implies r(x, z) by {
        assert(bid_leq(x, y) && bid_leq(y, z));
        assert(bid_leq(x, z));
    }
    assert forall|x: CandidateBid, y: CandidateBid| #![trigger r(x, y)] true implies r(x, y) || r(
        y,
        x,
    ) by {
        assert(bid_leq(x, y) || bid_leq(y, x));
    }
}

/// Executable counterpart of `bid_leq`.
pub fn bid_precedes(a: &CandidateBid, b: &CandidateBid) -> (r: bool)
    ensures
        r == bid_leq(*a, *b),
{
    if a.price > b.price {
        true
    } else if a.price == b.price && a.when < b.when {
        true
    } else if a.price == b.price && a.when == b.when && a.id < b.id {
        true
    } else {
        a.price == b.price && a.when == b.when && a.id == b.id && a.ct_amount <= b.ct_amount
    }
}

/// The pricing view of a recorded bid.
pub open spec fn candidate_of(b: BidInfo) -> CandidateBid {
    CandidateBid {
        price: b.original_ct_usd_price,
        when: b.when,
        id: b.id,
        ct_amount: b.original_ct_amount,
    }
}

/// The pricing view of a list of recorded bids.
pub open spec fn candidates_view(s: Seq<BidInfo>) -> Seq<CandidateBid> {
    s.map_values(|b: BidInfo| candidate_of(b))
}

/// The bids of a project in auction order: price descending, earlier
/// submission first.
pub open spec fn sorted_bids(s: Seq<BidInfo>) -> Seq<CandidateBid> {
    candidates_view(s).sort_by(bid_ord())
}

/// Greedy fill: walking the sorted bids, each takes its requested
/// amount or whatever allocation remains.
pub open spec fn fill_amounts(s: Seq<CandidateBid>, remaining: Balance) -> Seq<Balance>
    decreases s.len(),
{
    if s.len() == 0 {
        Seq::empty()
    } else {
        let a: Balance = if s.first().ct_amount <= remaining {
            s.first().ct_amount
        } else {
            remaining
        };
        seq![a] + fill_amounts(s.drop_first(), (remaining - a) as Balance)
    }
}

/// Total token amount the greedy fill accepts.
pub open spec fn fill_total(s: Seq<CandidateBid>, remaining: Balance) -> int
    decreases s.len(),
{
    if s.len() == 0 {
        0
    } else {
        let a: Balance = if s.first().ct_amount <= remaining {
            s.first().ct_amount
        } else {
            remaining
        };
        a + fill_total(s.drop_first(), (remaining - a) as Balance)
    }
}

/// Price-weighted token amount the greedy fill accepts.
pub open spec fn weighted_total(s: Seq<CandidateBid>, remaining: Balance) -> int
    decreases s.len(),
{
    if s.len() == 0 {
        0
    } else {
        let a: Balance = if s.first().ct_amount <= remaining {
            s.first().ct_amount
        } else {
            remaining
        };
        s.first().price * a + weighted_total(s.drop_first(), (remaining - a) as Balance)
    }
}

/// The clearing price of a sorted bid sequence: the amount-weighted
/// mean of accepted prices, or nothing when no amount was accepted.
pub open spec fn spec_wap(s: Seq<CandidateBid>, allocation: Balance) -> Option<Balance> {
    if fill_total(s, allocation) == 0 {
        None
    } else {
        Some((weighted_total(s, allocation) / fill_total(s, allocation)) as Balance)
    }
}

/// The status a bid ends in, given its accepted amount.
pub open spec fn status_of(c: CandidateBid, fill: Balance) -> BidStatus {
    if fill == c.ct_amount {
        BidStatus::Accepted
    } else if fill > 0 {
        BidStatus::PartiallyAccepted(fill)
    } else {
        BidStatus::Rejected
    }
}

/// Outcome of one bid at auction close, in auction order.
#[derive(Clone, Copy, PartialEq, Eq, Structural, Debug)]
pub struct BidOutcome {
    pub id: u32,
    pub price: Balance,
    pub accepted_amount: Balance,
    pub status: BidStatus,
}

/// Everything the auction close produces: the frozen clearing price,
/// the total accepted amount, and one outcome per bid in auction order.
#[derive(PartialEq, Eq, Debug)]
pub struct AuctionOutcome {
    pub weighted_average_price: Option<Balance>,
    pub total_accepted: Balance,
    pub outcomes: Vec<BidOutcome>,
}

/// Sort the pricing views of the recorded bids into auction order.
fn sort_candidates(v: &Vec<CandidateBid>) -> (r: Vec<CandidateBid>)
    ensures
        r@ == v@.sort_by(bid_ord()),
{
    broadcast use group_to_multiset_ensures;

    let mut src = v.clone();
    proof {
        assert(src@ =~= v@);
    }
    let mut out: Vec<CandidateBid> = Vec::new();
    proof {
        assert(out@.to_multiset().add(src@.to_multiset()) =~= v@.to_multiset());
    }
    while src.len() > 0
        invariant
            sorted_by(out@, bid_ord()),
            out@.to_multiset().add(src@.to_multiset()) =~= v@.to_multiset(),
            forall|a: int, b: int|
                0 <= a < out@.len() && 0 <= b < src@.len() ==> bid_leq(
                    #[trigger] out@[a],
                    #[trigger] src@[b],
                ),
        decreases src@.len(),
    {
        let mut mi: usize = 0;
        let mut j: usize = 1;
        while j < src.len()
            invariant
                0 < src@.len(),
                mi < j <= src@.len(),
                forall|t: int| 0 <= t < j ==> bid_leq(src@[mi as int], #[trigger] src@[t]),
            decreases src@.len() - j,
        {
            if bid_precedes(&src[j], &src[mi]) {
                let ghost omi = mi as int;
                mi = j;
                proof {
                    assert forall|t: int| 0 <= t < j + 1 implies bid_leq(
                        src@[mi as int],
                        #[trigger] src@[t],
                    ) by {
                        if t < j {
                            assert(bid_leq(src@[omi], src@[t]));
                            assert(bid_leq(src@[j as int], src@[omi]));
                        }
                    }
                }
            }
            j += 1;
        }
        let ghost old_src = src@;
        let ghost old_out = out@;
        let e = src.remove(mi);
        out.push(e);
        proof {
            broadcast use vstd::multiset::group_multiset_axioms;

            vstd::seq_lib::to_multiset_remove(old_src, mi as int);
            vstd::seq_lib::to_multiset_build(old_out, e);
            assert(old_src.contains(e));
            vstd::seq_lib::to_multiset_contains(old_src, e);
            assert(out@.to_multiset() =~= old_out.to_multiset().insert(e));
            assert(src@.to_multiset() =~= old_src.to_multiset().remove(e));
            assert(out@.to_multiset().add(src@.to_multiset()) =~= v@.to_multiset());
            assert forall|a: int, b: int|
                0 <= a < out@.len() && 0 <= b < src@.len() implies bid_leq(
                #[trigger] out@[a],
                #[trigger] src@[b],
            ) by {
                let orig: int = if b < mi {
                    b
                } else {
                    b + 1
                };
                assert(src@[b] == old_src[orig]);
                if a < out@.len() - 1 {
                    assert(bid_leq(old_out[a], old_src[orig]));
                } else {
                    assert(out@[a] == e);
                    assert(bid_leq(old_src[mi as int], old_src[orig]));
                }
            }
            let rr = bid_ord();
            assert forall|a: int, b: int| 0 <= a < b < out@.len() implies #[trigger] rr(
                out@[a],
                out@[b],
            ) by {
                if b < out@.len() - 1 {
                    assert(rr(old_out[a], old_out[b]));
                    assert(bid_leq(out@[a], out@[b]));
                } else {
                    assert(out@[b] == e);
                    assert(bid_leq(old_out[a], old_src[mi as int]));
                }
            }
            assert(sorted_by(out@, bid_ord()));
        }
    }
    proof {
        lemma_bid_ord_total();
        v@.lemma_sort_by_ensures(bid_ord());
        assert(src@.to_multiset() =~= Multiset::empty());
        assert(out@.to_multiset() =~= v@.to_multiset());
        lemma_sorted_unique(out@, v@.sort_by(bid_ord()), bid_ord());
        assert(out@ =~= v@.sort_by(bid_ord()));
    }
    out
}

/// Extract the pricing views of the recorded bids.
fn candidates(bids: &Vec<BidInfo>) -> (r: Vec<CandidateBid>)
    ensures
        r@ == candidates_view(bids@),
{
    let mut out: Vec<CandidateBid> = Vec::new();
    let mut i: usize = 0;
    while i < bids.len()
        invariant
            i <= bids@.len(),
            out@ =~= candidates_view(bids@.take(i as int)),
        decreases bids@.len() - i,
    {
        let b = &bids[i];
        out.push(
            CandidateBid {
                price: b.original_ct_usd_price,
                when: b.when,
                id: b.id,
                ct_amount: b.original_ct_amount,
            },
        );
        proof {
            assert(out@ =~= candidates_view(bids@.take(i as int + 1)));
        }
        i += 1;
    }
    proof {
        assert(bids@.take(bids@.len() as int) =~= bids@);
        assert(out@ =~= candidates_view(bids@));
    }
    out
}

/// Walk the sorted bids, filling each against the remaining allocation,
/// and compute the clearing price. Fails only when the price-weighted
/// sum overflows the balance type.
fn fill_and_price(sorted: &Vec<CandidateBid>, allocation: Balance) -> (r: Result<
    AuctionOutcome,
    Error,
>)
    ensures
        r is Err <==> weighted_total(sorted@, allocation) > u128::MAX,
        r is Err ==> r->Err_0 == Error::BadMath,
        r is Ok ==> r->Ok_0.weighted_average_price == spec_wap(sorted@, allocation),
        r is Ok ==> r->Ok_0.total_accepted == fill_total(sorted@, allocation),
        r is Ok ==> r->Ok_0.outcomes@.len() == sorted@.len(),
        r is Ok ==> forall|i: int|
            0 <= i < sorted@.len() ==> {
                let o = #[trigger] r->Ok_0.outcomes@[i];
                let fill = fill_amounts(sorted@, allocation)[i];
                o.id == sorted@[i].id && o.price == sorted@[i].price && o.accepted_amount == fill
                    && o.status == status_of(sorted@[i], fill)
            },
{
    let ghost full_fills = fill_amounts(sorted@, allocation);
    let mut outcomes: Vec<BidOutcome> = Vec::new();
    let mut remaining: Balance = allocation;
    let mut facc: Balance = 0;
    let mut wacc: Balance = 0;
    let mut i: usize = 0;
    proof {
        assert(sorted@.skip(0) =~= sorted@);
    }
    while i < sorted.len()
        invariant
            i <= sorted@.len(),
            outcomes@.len() == i,
            facc + remaining == allocation,
            full_fills == fill_amounts(sorted@, allocation),
            full_fills =~= outcomes@.map_values(|o: BidOutcome| o.accepted_amount) + fill_amounts(
                sorted@.skip(i as int),
                remaining,
            ),
            fill_total(sorted@, allocation) == facc + fill_total(sorted@.skip(i as int), remaining),
            weighted_total(sorted@, allocation) == wacc + weighted_total(
                sorted@.skip(i as int),
                remaining,
            ),
            forall|j: int|
                0 <= j < i ==> {
                    let o = #[trigger] outcomes@[j];
                    o.id == sorted@[j].id && o.price == sorted@[j].price && o.accepted_amount
                        == full_fills[j] && o.status == status_of(sorted@[j], full_fills[j])
                },
        decreases sorted@.len() - i,
    {
        let c = sorted[i];
        let ghost tail = sorted@.skip(i as int);
        let a: Balance = if c.ct_amount <= remaining {
            c.ct_amount
        } else {
            remaining
        };
        proof {
            assert(tail.first() == c);
            assert(tail.drop_first() =~= sorted@.skip(i as int + 1));
            assert(fill_amounts(tail, remaining) == seq![a] + fill_amounts(
                sorted@.skip(i as int + 1),
                (remaining - a) as Balance,
            ));
        }
        let term = match c.price.checked_mul(a) {
            Some(t) => t,
            None => {
                proof {
                    lemma_weighted_total_nonneg(sorted@.skip(i as int + 1), (remaining - a) as Balance);
                }
                return Err(Error::BadMath);
            },
        };
        let new_wacc = match wacc.checked_add(term) {
            Some(t) => t,
            None => {
                proof {
                    lemma_weighted_total_nonneg(sorted@.skip(i as int + 1), (remaining - a) as Balance);
                }
                return Err(Error::BadMath);
            },
        };
        let status = if a == c.ct_amount {
            BidStatus::Accepted
        } else if a > 0 {
            BidStatus::PartiallyAccepted(a)
        } else {
            BidStatus::Rejected
        };
        let ghost old_outcomes = outcomes@;
        outcomes.push(BidOutcome { id: c.id, price: c.price, accepted_amount: a, status });
        proof {
            lemma_fill_total_bounds(sorted@.skip(i as int + 1), (remaining - a) as Balance);
            assert(outcomes@.map_values(|o: BidOutcome| o.accepted_amount) =~= old_outcomes
                .map_values(|o: BidOutcome| o.accepted_amount).push(a));
            assert(full_fills =~= outcomes@.map_values(|o: BidOutcome| o.accepted_amount)
                + fill_amounts(sorted@.skip(i as int + 1), (remaining - a) as Balance));
            assert(full_fills[i as int] == a);
        }
        wacc = new_wacc;
        facc = facc + a;
        remaining = remaining - a;
        i += 1;
    }
    proof {
        assert(sorted@.skip(sorted@.len() as int) =~= Seq::<CandidateBid>::empty());
        assert(fill_total(sorted@, allocation) == facc);
        assert(weighted_total(sorted@, allocation) == wacc);
    }
    let weighted_average_price = if facc == 0 {
        None
    } else {
        Some(wacc / facc)
    };
    Ok(AuctionOutcome { weighted_average_price, total_accepted: facc, outcomes })
}

/// Close the auction over a project's recorded bids: order them, fill
/// them against the allocation, and derive the clearing price. The
/// result depends only on the multiset of bids.
pub fn calculate_weighted_average_price(bids: &Vec<BidInfo>, allocation: Balance) -> (r: Result<
    AuctionOutcome,
    Error,
>)
    ensures
        r is Err <==> weighted_total(sorted_bids(bids@), allocation) > u128::MAX,
        r is Err ==> r->Err_0 == Error::BadMath,
        r is Ok ==> r->Ok_0.weighted_average_price == spec_wap(sorted_bids(bids@), allocation),
        r is Ok ==> r->Ok_0.total_accepted == fill_total(sorted_bids(bids@), allocation),
        r is Ok ==> r->Ok_0.outcomes@.len() == sorted_bids(bids@).len(),
        r is Ok ==> forall|i: int|
            0 <= i < sorted_bids(bids@).len() ==> {
                let o = #[trigger] r->Ok_0.outcomes@[i];
                let s = sorted_bids(bids@);
                let fill = fill_amounts(s, allocation)[i];
                o.id == s[i].id && o.price == s[i].price && o.accepted_amount == fill && o.status
                    == status_of(s[i], fill)
            },
{
    let cands = candidates(bids);
    let sorted = sort_candidates(&cands);
    fill_and_price(&sorted, allocation)
}

/// The greedy fill assigns one amount to each bid.
pub proof fn lemma_fill_amounts_len(s: Seq<CandidateBid>, remaining: Balance)
    ensures
        fill_amounts(s, remaining).len() == s.len(),
    decreases s.len(),
{
    if s.len() > 0 {
        let a: Balance = if s.first().ct_amount <= remaining {
            s.first().ct_amount
        } else {
            remaining
        };
        lemma_fill_amounts_len(s.drop_first(), (remaining - a) as Balance);
    }
}

/// The weighted total is never negative.
pub proof fn lemma_weighted_total_nonneg(s: Seq<CandidateBid>, remaining: Balance)
    ensures
        weighted_total(s, remaining) >= 0,
    decreases s.len(),
{
    if s.len() > 0 {
        let a: Balance = if s.first().ct_amount <= remaining {
            s.first().ct_amount
        } else {
            remaining
        };
        lemma_weighted_total_nonneg(s.drop_first(), (remaining - a) as Balance);
    }
}

/// Law: the total accepted amount never exceeds the allocation.
pub proof fn lemma_fill_total_bounds(s: Seq<CandidateBid>, remaining: Balance)
    ensures
        0 <= fill_total(s, remaining) <= remaining,
    decreases s.len(),
{
    if s.len() > 0 {
        let a: Balance = if s.first().ct_amount <= remaining {
            s.first().ct_amount
        } else {
            remaining
        };
        lemma_fill_total_bounds(s.drop_first(), (remaining - a) as Balance);
    }
}

/// Any bounds enclosing every accepted price also enclose the weighted
/// sum, linearly in the accepted amount.
proof fn lemma_weighted_total_linear_bounds(s: Seq<CandidateBid>, remaining: Balance, lo: int, hi: int)
    requires
        0 <= lo,
        forall|i: int|
            0 <= i < s.len() && fill_amounts(s, remaining)[i] > 0 ==> lo <= (#[trigger] s[i]).price
                <= hi,
    ensures
        lo * fill_total(s, remaining) <= weighted_total(s, remaining),
        weighted_total(s, remaining) <= hi * fill_total(s, remaining),
    decreases s.len(),
{
    if s.len() == 0 {
    } else {
        let a: Balance = if s.first().ct_amount <= remaining {
            s.first().ct_amount
        } else {
            remaining
        };
        let rest = s.drop_first();
        let rem2 = (remaining - a) as Balance;
        lemma_fill_amounts_len(s, remaining);
        lemma_fill_amounts_len(rest, rem2);
        assert(fill_amounts(s, remaining) == seq![a] + fill_amounts(rest, rem2));
        assert forall|i: int|
            0 <= i < rest.len() && fill_amounts(rest, rem2)[i] > 0 implies lo <= (#[trigger] rest[i]).price
            <= hi by {
            assert(fill_amounts(s, remaining)[i + 1] == fill_amounts(rest, rem2)[i]);
            assert(s[i + 1] == rest[i]);
        }
        lemma_weighted_total_linear_bounds(rest, rem2, lo, hi);
        let p = s.first().price;
        if a > 0 {
            assert(fill_amounts(s, remaining)[0] == a);
            assert(lo <= p <= hi);
            assert(lo * a <= p * a && p * a <= hi * a) by (nonlinear_arith)
                requires
                    lo <= p <= hi,
                    a > 0,
            ;
            assert(lo * (a + fill_total(rest, rem2)) == lo * a + lo * fill_total(rest, rem2))
                by (nonlinear_arith);
            assert(hi * (a + fill_total(rest, rem2)) == hi * a + hi * fill_total(rest, rem2))
                by (nonlinear_arith);
        } else {
            assert(p * a == 0) by (nonlinear_arith)
                requires
                    a == 0,
            ;
            assert(lo * (a + fill_total(rest, rem2)) == lo * fill_total(rest, rem2))
                by (nonlinear_arith)
                requires
                    a == 0,
            ;
            assert(hi * (a + fill_total(rest, rem2)) == hi * fill_total(rest, rem2))
                by (nonlinear_arith)
                requires
                    a == 0,
            ;
        }
    }
}

/// Law: the clearing price lies between the lowest and the highest
/// accepted bid price, inclusive, whenever any amount was accepted.
pub proof fn lemma_wap_within_accepted_prices(
    s: Seq<CandidateBid>,
    allocation: Balance,
    lo: int,
    hi: int,
)
    requires
        0 <= lo,
        fill_total(s, allocation) > 0,
        forall|i: int|
            0 <= i < s.len() && fill_amounts(s, allocation)[i] > 0 ==> lo <= (#[trigger] s[i]).price
                <= hi,
    ensures
        spec_wap(s, allocation) is Some,
        lo <= spec_wap(s, allocation)->Some_0 <= hi,
{
    lemma_fill_amounts_len(s, allocation);
    lemma_weighted_total_linear_bounds(s, allocation, lo, hi);
    lemma_weighted_total_linear_bounds(s, allocation, 0, u128::MAX as int);
    let w = weighted_total(s, allocation);
    let f = fill_total(s, allocation);
    lemma_weighted_total_nonneg(s, allocation);
    assert(lo <= w / f <= hi) by (nonlinear_arith)
        requires
            f > 0,
            0 <= lo,
            0 <= w,
            lo * f <= w,
            w <= hi * f,
    ;
    assert(w / f <= u128::MAX) by (nonlinear_arith)
        requires
            f > 0,
            0 <= w,
            w <= u128::MAX * f,
    ;
    assert(0 <= w / f <= u128::MAX);
}

/// Law: the clearing price is a function of the multiset of bids alone;
/// the order bids are presented in never changes the outcome.
pub proof fn lemma_wap_deterministic(a: Seq<BidInfo>, b: Seq<BidInfo>, allocation: Balance)
    requires
        candidates_view(a).to_multiset() == candidates_view(b).to_multiset(),
    ensures
        sorted_bids(a) == sorted_bids(b),
        spec_wap(sorted_bids(a), allocation) == spec_wap(sorted_bids(b), allocation),
{
    lemma_bid_ord_total();
    candidates_view(a).lemma_sort_by_ensures(bid_ord());
    candidates_view(b).lemma_sort_by_ensures(bid_ord());
    lemma_sorted_unique(sorted_bids(a), sorted_bids(b), bid_ord());
    assert(sorted_bids(a) =~= sorted_bids(b));
}

/// Uniform-price settlement: an accepted or partially accepted bid
/// settles exactly at the clearing price, whether it offered more or,
/// filled by undersupply, less; a bid that won nothing settles nothing
/// and is refunded in full.
pub fn settlement_price(status: BidStatus, wap: Balance) -> (r: Option<Balance>)
    ensures
        r is Some <==> (status == BidStatus::Accepted || status matches BidStatus::PartiallyAccepted(_)),
        r is Some ==> r->Some_0 == wap,
{
    match status {
        BidStatus::Accepted => Some(wap),
        BidStatus::PartiallyAccepted(_) => Some(wap),
        _ => None,
    }
}

} // verus!

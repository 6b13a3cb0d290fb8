//! Balance ledger aggregation: lists of (account, amount) pairs merged,
//! summed and subtracted with saturating arithmetic, one entry per
//! distinct key in the result, returned ascending by key.
//!
//! The mathematical model is `merged`: the map obtained by folding a
//! sequence of keyed amounts with a saturating operation, first
//! occurrence inserted as is. Subtraction of one list from another
//! first collapses each list's duplicates additively (`sub_merged`).
//! Every executable operation is specified against these maps, and the
//! sorted order makes each result the unique listing of its map.
use vstd::prelude::*;
use crate::types::{AccountId, Balance};

verus! {

/// How two amounts of the same key are folded together.
#[derive(Clone, Copy, PartialEq, Eq, Structural, Debug)]
pub enum MergeOperation {
    Add,
    Subtract,
}

/// Saturating fold of two amounts: addition capped at the largest
/// balance, subtraction floored at zero (a shortfall truncates, it does
/// not signal an error).
pub open spec fn combine(op: MergeOperation, a: Balance, b: Balance) -> Balance {
    match op {
        MergeOperation::Add => if a + b > u128::MAX { u128::MAX } else { (a + b) as Balance },
        MergeOperation::Subtract => if a >= b { (a - b) as Balance } else { 0 },
    }
}

/// Executable counterpart of `combine`.
pub fn sat_combine(op: MergeOperation, a: Balance, b: Balance) -> (r: Balance)
    ensures
        r == combine(op, a, b),
{
    match op {
        MergeOperation::Add => a.saturating_add(b),
        MergeOperation::Subtract => a.saturating_sub(b),
    }
}

/// One fold step: an unseen key is inserted as is, a seen key has its
/// amount combined with the new one.
pub open spec fn merge_step<K>(m: Map<K, Balance>, e: (K, Balance), op: MergeOperation) -> Map<
    K,
    Balance,
> {
    if m.dom().contains(e.0) {
        m.insert(e.0, combine(op, m[e.0], e.1))
    } else {
        m.insert(e.0, e.1)
    }
}

/// The map a list of keyed amounts folds to, in list order.
pub open spec fn merged<K>(s: Seq<(K, Balance)>, op: MergeOperation) -> Map<K, Balance>
    decreases s.len(),
{
    if s.len() == 0 {
        Map::empty()
    } else {
        merge_step(merged(s.drop_last(), op), s.last(), op)
    }
}

/// The set of keys appearing in a list.
pub open spec fn key_set<K>(s: Seq<(K, Balance)>) -> Set<K> {
    Set::new(|k: K| exists|i: int| 0 <= i < s.len() && (#[trigger] s[i]).0 == k)
}

/// The entries of `s` whose key lies in `keys`, in order.
pub open spec fn filtered<K>(s: Seq<(K, Balance)>, keys: Set<K>) -> Seq<(K, Balance)>
    decreases s.len(),
{
    if s.len() == 0 {
        Seq::empty()
    } else {
        let prev = filtered(s.drop_last(), keys);
        if keys.contains(s.last().0) {
            prev.push(s.last())
        } else {
            prev
        }
    }
}

/// Whether `rp` lists the merged map `m` exactly: keys pairwise
/// distinct, every entry carrying its key's folded amount, and every
/// key of the map present.
pub open spec fn is_merged_list<K>(rp: Seq<(K, Balance)>, m: Map<K, Balance>) -> bool {
    &&& forall|i: int, j: int|
        0 <= i < j < rp.len() ==> (#[trigger] rp[i]).0 != (#[trigger] rp[j]).0
    &&& forall|i: int|
        0 <= i < rp.len() ==> m.dom().contains((#[trigger] rp[i]).0) && m[rp[i].0] == rp[i].1
    &&& forall|k: K| #[trigger] m.dom().contains(k) ==> exists|i: int|
        0 <= i < rp.len() && (#[trigger] rp[i]).0 == k
}

/// Whether a list of accounts is strictly ascending (so also free of
/// duplicates).
pub open spec fn strictly_sorted(s: Seq<AccountId>) -> bool {
    forall|i: int, j: int| 0 <= i < j < s.len() ==> s[i] < s[j]
}

/// Whether `r` is the sorted, deduplicated listing of the account set
/// `accts`.
pub open spec fn is_sorted_account_list(r: Seq<AccountId>, accts: Set<AccountId>) -> bool {
    &&& strictly_sorted(r)
    &&& forall|m: int| 0 <= m < r.len() ==> accts.contains(#[trigger] r[m])
    &&& forall|a: AccountId| #[trigger] accts.contains(a) ==> r.contains(a)
}


/// Whether a keyed list of account amounts is strictly ascending by
/// account, as the aggregator returns its results.
pub open spec fn sorted_account_pairs(rp: Seq<(AccountId, Balance)>) -> bool {
    forall|i: int, j: int| 0 <= i < j < rp.len() ==> (#[trigger] rp[i]).0 < (#[trigger] rp[j]).0
}

/// The order of composite (account, asset) keys: by account, ties by
/// asset identifier.
pub open spec fn asset_key_lt(x: (AccountId, u32), y: (AccountId, u32)) -> bool {
    x.0 < y.0 || (x.0 == y.0 && x.1 < y.1)
}

/// Whether a composite-keyed list is strictly ascending by key.
pub open spec fn sorted_asset_pairs(rp: Seq<((AccountId, u32), Balance)>) -> bool {
    forall|i: int, j: int|
        0 <= i < j < rp.len() ==> asset_key_lt((#[trigger] rp[i]).0, (#[trigger] rp[j]).0)
}

/// Subtraction between two collapsed maps: each key of the first map
/// keeps its additive total minus the second map's additive total for
/// it, floored at zero; a key only the second map holds enters with its
/// own total.
pub open spec fn sub_merged<K>(am: Map<K, Balance>, fm: Map<K, Balance>) -> Map<K, Balance> {
    Map::new(
        |k: K| am.dom().contains(k) || fm.dom().contains(k),
        |k: K|
            if am.dom().contains(k) {
                combine(
                    MergeOperation::Subtract,
                    am[k],
                    if fm.dom().contains(k) {
                        fm[k]
                    } else {
                        0
                    },
                )
            } else {
                fm[k]
            },
    )
}

/// Dropping the last entry of a merged list drops exactly its key from
/// the map it lists.
pub proof fn lemma_merged_list_drop_last<K>(c: Seq<(K, Balance)>, cm: Map<K, Balance>)
    requires
        is_merged_list(c, cm),
        c.len() > 0,
    ensures
        is_merged_list(c.drop_last(), cm.remove(c.last().0)),
{
    let t = c.drop_last();
    let k0 = c.last().0;
    assert forall|i: int| 0 <= i < t.len() implies cm.remove(k0).dom().contains((#[trigger] t[i]).0)
        && cm.remove(k0)[t[i].0] == t[i].1 by {
        assert(t[i] == c[i]);
        assert(c[i].0 != k0);
    }
    assert forall|k: K| #[trigger] cm.remove(k0).dom().contains(k) implies exists|i: int|
        0 <= i < t.len() && (#[trigger] t[i]).0 == k by {
        let w = choose|i: int| 0 <= i < c.len() && (#[trigger] c[i]).0 == k;
        assert(w < c.len() - 1);
        assert(t[w].0 == k);
    }
    assert forall|i: int, j: int| 0 <= i < j < t.len() implies (#[trigger] t[i]).0 != (
    #[trigger] t[j]).0 by {
        assert(t[i] == c[i] && t[j] == c[j]);
    }
}

/// Merging a list that already holds one entry per key returns exactly
/// the map it lists, under either operation: nothing folds.
pub proof fn lemma_merged_unique_list<K>(c: Seq<(K, Balance)>, cm: Map<K, Balance>, op: MergeOperation)
    ensures
        is_merged_list(c, cm) ==> merged(c, op) =~= cm,
    decreases c.len(),
{
    if is_merged_list(c, cm) {
        if c.len() == 0 {
            assert forall|k: K| !cm.dom().contains(k) by {
                if cm.dom().contains(k) {
                    let w = choose|i: int| 0 <= i < c.len() && (#[trigger] c[i]).0 == k;
                }
            }
        } else {
            let k0 = c.last().0;
            lemma_merged_list_drop_last(c, cm);
            lemma_merged_unique_list(c.drop_last(), cm.remove(k0), op);
            assert(c[c.len() - 1].0 == k0);
            assert(!cm.remove(k0).dom().contains(k0));
            assert(merged(c, op) =~= cm.remove(k0).insert(k0, c.last().1));
            assert(cm.dom().contains(k0) && cm[k0] == c.last().1);
            assert(merged(c, op) =~= cm);
        }
    }
}

/// Concatenating one collapsed list to another and merging with
/// subtraction computes exactly the map-level subtraction of their
/// additive totals: this is how the aggregator subtracts two lists whose
/// duplicates were first combined additively.
pub proof fn lemma_merge_after_collapse<K>(
    c: Seq<(K, Balance)>,
    cm: Map<K, Balance>,
    f: Seq<(K, Balance)>,
    fm: Map<K, Balance>,
)
    requires
        is_merged_list(c, cm),
        is_merged_list(f, fm),
    ensures
        merged(c + f, MergeOperation::Subtract) =~= sub_merged(cm, fm),
    decreases f.len(),
{
    let op = MergeOperation::Subtract;
    if f.len() == 0 {
        assert(c + f =~= c);
        lemma_merged_unique_list(c, cm, op);
        assert forall|k: K| !fm.dom().contains(k) by {
            if fm.dom().contains(k) {
                let w = choose|i: int| 0 <= i < f.len() && (#[trigger] f[i]).0 == k;
            }
        }
        assert(merged(c + f, op) =~= sub_merged(cm, fm));
    } else {
        let k0 = f.last().0;
        let fm2 = fm.remove(k0);
        lemma_merged_list_drop_last(f, fm);
        lemma_merge_after_collapse(c, cm, f.drop_last(), fm2);
        assert((c + f).drop_last() =~= c + f.drop_last());
        assert((c + f).last() == f.last());
        assert(f[f.len() - 1].0 == k0);
        assert(fm.dom().contains(k0) && fm[k0] == f.last().1);
        let prev = sub_merged(cm, fm2);
        assert(merged(c + f, op) == merge_step(prev, f.last(), op));
        if cm.dom().contains(k0) {
            assert(prev.dom().contains(k0) && prev[k0] == cm[k0]);
            assert(merged(c + f, op) =~= sub_merged(cm, fm));
        } else {
            assert(!prev.dom().contains(k0));
            assert(merged(c + f, op) =~= sub_merged(cm, fm));
        }
    }
}

/// Law: the sorted listing of a merged map is unique: any two lists of
/// the same map, both strictly sorted by an asymmetric key order, are
/// the same list. The aggregator's results are therefore functions of
/// their input maps alone.
pub proof fn lemma_sorted_merged_list_unique<K>(
    r1: Seq<(K, Balance)>,
    r2: Seq<(K, Balance)>,
    m: Map<K, Balance>,
    lt: spec_fn(K, K) -> bool,
)
    requires
        is_merged_list(r1, m),
        is_merged_list(r2, m),
        forall|i: int, j: int| 0 <= i < j < r1.len() ==> lt((#[trigger] r1[i]).0, (#[trigger] r1[j]).0),
        forall|i: int, j: int| 0 <= i < j < r2.len() ==> lt((#[trigger] r2[i]).0, (#[trigger] r2[j]).0),
        forall|x: K, y: K| #[trigger] lt(x, y) ==> !lt(y, x),
    ensures
        r1 =~= r2,
    decreases r1.len(),
{
    if r1.len() == 0 {
        if r2.len() > 0 {
            assert(m.dom().contains(r2[0].0));
            let w = choose|i: int| 0 <= i < r1.len() && (#[trigger] r1[i]).0 == r2[0].0;
        }
    } else if r2.len() == 0 {
        assert(m.dom().contains(r1[0].0));
        let w = choose|i: int| 0 <= i < r2.len() && (#[trigger] r2[i]).0 == r1[0].0;
    } else {
        let k1 = r1[0].0;
        let k2 = r2[0].0;
        assert(m.dom().contains(k1) && m.dom().contains(k2));
        let i2 = choose|i: int| 0 <= i < r2.len() && (#[trigger] r2[i]).0 == k1;
        let i1 = choose|i: int| 0 <= i < r1.len() && (#[trigger] r1[i]).0 == k2;
        if i1 > 0 && i2 > 0 {
            assert(lt(k1, k2) && lt(k2, k1));
        }
        assert(k1 == k2);
        assert(r1[0] == r2[0]);
        lemma_merged_list_drop_first(r1, m);
        lemma_merged_list_drop_first(r2, m);
        lemma_sorted_merged_list_unique(r1.drop_first(), r2.drop_first(), m.remove(k1), lt);
        assert forall|i: int| 0 <= i < r1.len() implies r1[i] == r2[i] by {
            if i > 0 {
                assert(r1.drop_first()[i - 1] == r2.drop_first()[i - 1]);
            }
        }
    }
}

/// Dropping the first entry of a merged list drops exactly its key.
pub proof fn lemma_merged_list_drop_first<K>(c: Seq<(K, Balance)>, cm: Map<K, Balance>)
    requires
        is_merged_list(c, cm),
        c.len() > 0,
    ensures
        is_merged_list(c.drop_first(), cm.remove(c[0].0)),
{
    let t = c.drop_first();
    let k0 = c[0].0;
    assert forall|i: int| 0 <= i < t.len() implies cm.remove(k0).dom().contains((#[trigger] t[i]).0)
        && cm.remove(k0)[t[i].0] == t[i].1 by {
        assert(t[i] == c[i + 1]);
        assert(c[i + 1].0 != k0);
    }
    assert forall|k: K| #[trigger] cm.remove(k0).dom().contains(k) implies exists|i: int|
        0 <= i < t.len() && (#[trigger] t[i]).0 == k by {
        let w = choose|i: int| 0 <= i < c.len() && (#[trigger] c[i]).0 == k;
        assert(w > 0);
        assert(t[w - 1].0 == k);
    }
    assert forall|i: int, j: int| 0 <= i < j < t.len() implies (#[trigger] t[i]).0 != (
    #[trigger] t[j]).0 by {
        assert(t[i] == c[i + 1] && t[j] == c[j + 1]);
    }
}

/// The folded amount a single key reaches in a list, if the key occurs.
pub open spec fn key_total<K>(s: Seq<(K, Balance)>, k: K, op: MergeOperation) -> Option<Balance>
    decreases s.len(),
{
    if s.len() == 0 {
        None
    } else {
        let prev = key_total(s.drop_last(), k, op);
        if s.last().0 == k {
            match prev {
                None => Some(s.last().1),
                Some(v) => Some(combine(op, v, s.last().1)),
            }
        } else {
            prev
        }
    }
}

/// The merged map holds exactly the keys that occur, each at its folded
/// amount.
pub proof fn lemma_merged_key_value<K>(s: Seq<(K, Balance)>, op: MergeOperation, k: K)
    ensures
        merged(s, op).dom().contains(k) <==> key_total(s, k, op).is_some(),
        merged(s, op).dom().contains(k) ==> merged(s, op)[k] == key_total(s, k, op)->Some_0,
    decreases s.len(),
{
    if s.len() > 0 {
        lemma_merged_key_value(s.drop_last(), op, k);
    }
}

/// The domain of the merged map is the key set of the list.
pub proof fn lemma_merged_dom<K>(s: Seq<(K, Balance)>, op: MergeOperation)
    ensures
        merged(s, op).dom() =~= key_set(s),
    decreases s.len(),
{
    if s.len() == 0 {
        assert forall|k: K| !key_set(s).contains(k) by {
            if key_set(s).contains(k) {
                let w = choose|i: int| 0 <= i < s.len() && (#[trigger] s[i]).0 == k;
            }
        }
    } else {
        lemma_merged_dom(s.drop_last(), op);
        assert forall|k: K| merged(s, op).dom().contains(k) implies key_set(s).contains(k) by {
            if k == s.last().0 {
                assert(s[s.len() - 1].0 == k);
            } else {
                let w = choose|i: int|
                    0 <= i < s.drop_last().len() && (#[trigger] s.drop_last()[i]).0 == k;
                assert(s[w].0 == k);
            }
        }
        assert forall|k: K| key_set(s).contains(k) implies merged(s, op).dom().contains(k) by {
            let w = choose|i: int| 0 <= i < s.len() && (#[trigger] s[i]).0 == k;
            if w < s.len() - 1 {
                assert(s.drop_last()[w].0 == k);
                assert(key_set(s.drop_last()).contains(k));
            }
        }
    }
}

/// The keys of a concatenation are the union of the keys.
pub proof fn lemma_key_set_concat<K>(a: Seq<(K, Balance)>, b: Seq<(K, Balance)>)
    ensures
        key_set(a + b) =~= key_set(a).union(key_set(b)),
{
    assert forall|k: K| key_set(a + b).contains(k) implies key_set(a).union(key_set(b)).contains(
        k,
    ) by {
        let w = choose|i: int| 0 <= i < (a + b).len() && (#[trigger] (a + b)[i]).0 == k;
        if w < a.len() {
            assert(a[w].0 == k);
        } else {
            assert(b[w - a.len()].0 == k);
        }
    }
    assert forall|k: K| key_set(a).union(key_set(b)).contains(k) implies key_set(a + b).contains(
        k,
    ) by {
        if key_set(a).contains(k) {
            let w = choose|i: int| 0 <= i < a.len() && (#[trigger] a[i]).0 == k;
            assert((a + b)[w].0 == k);
        } else {
            let w = choose|i: int| 0 <= i < b.len() && (#[trigger] b[i]).0 == k;
            assert((a + b)[a.len() + w].0 == k);
        }
    }
}

/// Law: merging two concatenated lists mentions exactly the union of
/// their accounts, under either operation.
pub proof fn lemma_merge_accounts_union<K>(
    a: Seq<(K, Balance)>,
    b: Seq<(K, Balance)>,
    op: MergeOperation,
)
    ensures
        merged(a + b, op).dom() =~= key_set(a).union(key_set(b)),
{
    lemma_merged_dom(a + b, op);
    lemma_key_set_concat(a, b);
}

/// Filtering keeps exactly the keys that lie in the filter set.
pub proof fn lemma_filtered_keys<K>(s: Seq<(K, Balance)>, keys: Set<K>)
    ensures
        key_set(filtered(s, keys)) =~= key_set(s).intersect(keys),
    decreases s.len(),
{
    if s.len() == 0 {
        assert forall|k: K| !key_set(filtered(s, keys)).contains(k) by {
            if key_set(filtered(s, keys)).contains(k) {
                let w = choose|i: int|
                    0 <= i < filtered(s, keys).len() && (#[trigger] filtered(s, keys)[i]).0 == k;
            }
        }
        assert forall|k: K| !key_set(s).contains(k) by {
            if key_set(s).contains(k) {
                let w = choose|i: int| 0 <= i < s.len() && (#[trigger] s[i]).0 == k;
            }
        }
    } else {
        lemma_filtered_keys(s.drop_last(), keys);
        let f = filtered(s, keys);
        let fp = filtered(s.drop_last(), keys);
        assert forall|k: K| key_set(f).contains(k) implies key_set(s).intersect(keys).contains(
            k,
        ) by {
            let w = choose|i: int| 0 <= i < f.len() && (#[trigger] f[i]).0 == k;
            if keys.contains(s.last().0) && w == f.len() - 1 {
                assert(s[s.len() - 1].0 == k);
            } else {
                assert(fp[w].0 == k);
                assert(key_set(fp).contains(k));
                let v = choose|i: int|
                    0 <= i < s.drop_last().len() && (#[trigger] s.drop_last()[i]).0 == k;
                assert(s[v].0 == k);
            }
        }
        assert forall|k: K| key_set(s).intersect(keys).contains(k) implies key_set(f).contains(
            k,
        ) by {
            let w = choose|i: int| 0 <= i < s.len() && (#[trigger] s[i]).0 == k;
            if w < s.len() - 1 {
                assert(s.drop_last()[w].0 == k);
                assert(key_set(s.drop_last()).contains(k));
                assert(key_set(s.drop_last()).intersect(keys).contains(k));
                assert(key_set(fp).contains(k));
                let v = choose|i: int| 0 <= i < fp.len() && (#[trigger] fp[i]).0 == k;
                assert(f[v].0 == k);
            } else {
                assert(keys.contains(s.last().0));
                assert(f[f.len() - 1].0 == k);
            }
        }
    }
}

/// Law: subtraction never introduces an account: the result mentions
/// exactly the accounts of the first list, since the second list is
/// filtered to them before its totals are subtracted.
pub proof fn lemma_subtract_keeps_accounts<K>(a: Seq<(K, Balance)>, b: Seq<(K, Balance)>)
    ensures
        sub_merged(
            merged(a, MergeOperation::Add),
            merged(filtered(b, key_set(a)), MergeOperation::Add),
        ).dom() =~= key_set(a),
{
    lemma_merged_dom(a, MergeOperation::Add);
    lemma_merged_dom(filtered(b, key_set(a)), MergeOperation::Add);
    lemma_filtered_keys(b, key_set(a));
}

/// Law: saturating subtraction floors at zero instead of signalling an
/// error; an amount below the held balance truncates.
pub proof fn lemma_subtract_floors_at_zero(a: Balance, b: Balance)
    ensures
        combine(MergeOperation::Subtract, a, b) == if b <= a {
            (a - b) as Balance
        } else {
            0 as Balance
        },
{
}

/// Saturating addition is commutative and associative.
pub proof fn lemma_sat_add_algebra(x: Balance, y: Balance, z: Balance)
    ensures
        combine(MergeOperation::Add, x, y) == combine(MergeOperation::Add, y, x),
        combine(MergeOperation::Add, combine(MergeOperation::Add, x, y), z) == combine(
            MergeOperation::Add,
            x,
            combine(MergeOperation::Add, y, z),
        ),
{
}

/// The folded amount of a key over a concatenation is the saturating
/// sum of its folded amounts over the parts.
pub proof fn lemma_key_total_concat<K>(a: Seq<(K, Balance)>, b: Seq<(K, Balance)>, k: K)
    ensures
        key_total(a + b, k, MergeOperation::Add) == match key_total(b, k, MergeOperation::Add) {
            None => key_total(a, k, MergeOperation::Add),
            Some(vb) => match key_total(a, k, MergeOperation::Add) {
                None => Some(vb),
                Some(va) => Some(combine(MergeOperation::Add, va, vb)),
            },
        },
    decreases b.len(),
{
    let op = MergeOperation::Add;
    if b.len() == 0 {
        assert(a + b =~= a);
    } else {
        lemma_key_total_concat(a, b.drop_last(), k);
        assert((a + b).drop_last() =~= a + b.drop_last());
        assert((a + b).last() == b.last());
        if b.last().0 == k {
            match key_total(a, k, op) {
                None => {},
                Some(va) => {
                    match key_total(b.drop_last(), k, op) {
                        None => {},
                        Some(vp) => {
                            lemma_sat_add_algebra(va, vp, b.last().1);
                        },
                    }
                },
            }
        }
    }
}

/// Law: summing two lists is commutative: both orders of concatenation
/// merge, under addition, to the same map, so every account ends at the
/// same total.
pub proof fn lemma_sum_commutative<K>(a: Seq<(K, Balance)>, b: Seq<(K, Balance)>)
    ensures
        merged(a + b, MergeOperation::Add) =~= merged(b + a, MergeOperation::Add),
{
    let op = MergeOperation::Add;
    lemma_merge_accounts_union(a, b, op);
    lemma_merge_accounts_union(b, a, op);
    assert(merged(a + b, op).dom() =~= merged(b + a, op).dom());
    assert forall|k: K| merged(a + b, op).dom().contains(k) implies merged(a + b, op)[k] == merged(
        b + a,
        op,
    )[k] by {
        lemma_merged_key_value(a + b, op, k);
        lemma_merged_key_value(b + a, op, k);
        lemma_key_total_concat(a, b, k);
        lemma_key_total_concat(b, a, k);
        match (key_total(a, k, op), key_total(b, k, op)) {
            (Some(va), Some(vb)) => {
                lemma_sat_add_algebra(va, vb, 0);
            },
            _ => {},
        }
    }
}

/// A (account, native-token amount) entry of a ledger aggregate.
#[derive(Clone, Copy, PartialEq, Eq, Structural, Debug)]
pub struct UserToPLMCBalance {
    pub account: AccountId,
    pub plmc_amount: Balance,
}

impl UserToPLMCBalance {
    pub open spec fn pair(self) -> (AccountId, Balance) {
        (self.account, self.plmc_amount)
    }

    pub fn new(account: AccountId, plmc_amount: Balance) -> (r: Self)
        ensures
            r.account == account,
            r.plmc_amount == plmc_amount,
    {
        Self { account, plmc_amount }
    }
}

/// The keyed-amount view of a native-token ledger list.
pub open spec fn plmc_pairs(s: Seq<UserToPLMCBalance>) -> Seq<(AccountId, Balance)> {
    s.map_values(|e: UserToPLMCBalance| e.pair())
}

/// The accounts a ledger list mentions.
pub open spec fn plmc_account_set(s: Seq<UserToPLMCBalance>) -> Set<AccountId> {
    Set::new(|a: AccountId| exists|i: int| 0 <= i < s.len() && (#[trigger] s[i]).account == a)
}

/// Lists that know the deduplicated, sorted set of accounts they mention.
pub trait Accounts: Sized {
    type Account;

    /// What `accounts` returns for this list.
    spec fn accounts_post(&self, r: Vec<Self::Account>) -> bool;

    /// The deduplicated, deterministically ordered accounts of the list.
    fn accounts(&self) -> (r: Vec<Self::Account>)
        ensures
            self.accounts_post(r),
    ;
}

/// Lists of keyed amounts that can be folded into one entry per key.
pub trait AccountMerge: Accounts + Sized {
    /// The entry type of the list.
    type Inner;

    /// What `merge_accounts` returns for this list.
    spec fn merge_post(&self, op: MergeOperation, r: Self) -> bool;

    /// What `subtract_accounts` returns for this list.
    spec fn subtract_post(&self, other: Self, r: Self) -> bool;

    /// What `sum_accounts` returns for this list.
    spec fn sum_post(&self, other: Self, r: Self) -> bool;

    /// Fold the list to one entry per key with the given operation,
    /// ascending by key. Under subtraction a key's first occurrence is
    /// the base and each later duplicate subtracts from it, which, as
    /// saturating subtractions chain, equals subtracting the later
    /// duplicates' additive total from the base.
    fn merge_accounts(&self, op: MergeOperation) -> (r: Self)
        ensures
            self.merge_post(op, r),
    ;

    /// Subtract the other list's amounts from this one. Duplicates
    /// within each list combine additively before the subtraction
    /// applies between the two; keys absent from this list have nothing
    /// to subtract from and are dropped.
    fn subtract_accounts(&self, other_list: Self) -> (r: Self)
        ensures
            self.subtract_post(other_list, r),
    ;

    /// Add the other list's amounts to this one.
    fn sum_accounts(&self, other_list: Self) -> (r: Self)
        ensures
            self.sum_post(other_list, r),
    ;
}

/// Account lists that know the reserve every account must keep.
pub trait Deposits: Sized {
    /// What `existential_deposits` returns for this list.
    spec fn deposits_post(&self, ed: Balance, r: Vec<UserToPLMCBalance>) -> bool;

    /// One native-token entry of amount `ed` per listed account, in
    /// order; `ed` is the hosting ledger's existential deposit.
    fn existential_deposits(&self, ed: Balance) -> (r: Vec<UserToPLMCBalance>)
        ensures
            self.deposits_post(ed, r),
    ;
}

impl Deposits for Vec<AccountId> {
    open spec fn deposits_post(&self, ed: Balance, r: Vec<UserToPLMCBalance>) -> bool {
        &&& r@.len() == self@.len()
        &&& forall|i: int|
            0 <= i < r@.len() ==> (#[trigger] r@[i]).account == self@[i] && r@[i].plmc_amount == ed
    }

    fn existential_deposits(&self, ed: Balance) -> (r: Vec<UserToPLMCBalance>) {
        let mut out: Vec<UserToPLMCBalance> = Vec::new();
        let mut idx: usize = 0;
        while idx < self.len()
            invariant
                idx <= self@.len(),
                out@.len() == idx,
                forall|i: int|
                    0 <= i < idx ==> (#[trigger] out@[i]).account == self@[i]
                        && out@[i].plmc_amount == ed,
            decreases self@.len() - idx,
        {
            out.push(UserToPLMCBalance { account: self[idx], plmc_amount: ed });
            idx += 1;
        }
        out
    }
}

/// Index at which `account` belongs in a list strictly sorted by
/// account: the first entry not below it.
fn find_plmc_position(v: &Vec<UserToPLMCBalance>, account: AccountId) -> (r: usize)
    requires
        forall|i: int, j: int|
            0 <= i < j < v@.len() ==> (#[trigger] v@[i]).account < (#[trigger] v@[j]).account,
    ensures
        r <= v@.len(),
        forall|m: int| 0 <= m < r ==> (#[trigger] v@[m]).account < account,
        r < v@.len() ==> v@[r as int].account >= account,
{
    let mut j: usize = 0;
    while j < v.len()
        invariant
            j <= v@.len(),
            forall|m: int| 0 <= m < j ==> (#[trigger] v@[m]).account < account,
        decreases v@.len() - j,
    {
        if v[j].account >= account {
            return j;
        }
        j += 1;
    }
    j
}

/// Whether a sorted-or-not account list mentions `x`.
fn contains_account(v: &Vec<AccountId>, x: AccountId) -> (r: bool)
    ensures
        r == v@.contains(x),
{
    let mut j: usize = 0;
    while j < v.len()
        invariant
            j <= v@.len(),
            forall|m: int| 0 <= m < j ==> v@[m] != x,
        decreases v@.len() - j,
    {
        if v[j] == x {
            return true;
        }
        j += 1;
    }
    false
}

/// Place `x` into a strictly sorted account list, keeping it strictly
/// sorted; a duplicate is dropped.
#[verifier::rlimit(50)]
pub(crate) fn insert_sorted(v: &mut Vec<AccountId>, x: AccountId)
    requires
        strictly_sorted(old(v)@),
    ensures
        strictly_sorted(final(v)@),
        forall|y: AccountId| final(v)@.contains(y) <==> (old(v)@.contains(y) || y == x),
{
    let mut j: usize = 0;
    while j < v.len()
        invariant
            strictly_sorted(v@),
            v@ == old(v)@,
            j <= v@.len(),
            forall|m: int| 0 <= m < j ==> v@[m] < x,
        decreases v@.len() - j,
    {
        if v[j] == x {
            proof {
                assert(v@[j as int] == x);
                assert(v@.contains(x));
                assert forall|y: AccountId| v@.contains(y) <==> (old(v)@.contains(y) || y == x)
                    by {
                    if y == x {
                        assert(v@.contains(y));
                    }
                }
            }
            return ;
        }
        if v[j] > x {
            let ghost before = v@;
            v.insert(j, x);
            assert forall|p: int, q: int| 0 <= p < q < v@.len() implies v@[p] < v@[q] by {
                if q < j {
                } else if p < j && q == j {
                } else if p < j && q > j {
                    assert(v@[p] == before[p] && v@[q] == before[q - 1]);
                    assert(before[p] < x);
                    assert(x < before[j as int]);
                    if q - 1 > j {
                        assert(before[j as int] < before[q - 1]);
                    }
                } else if p == j {
                    assert(v@[q] == before[q - 1]);
                    if q - 1 == j {
                        assert(x < before[j as int]);
                    } else {
                        assert(before[j as int] < before[q - 1]);
                        assert(x < before[j as int]);
                    }
                } else {
                    assert(v@[p] == before[p - 1] && v@[q] == before[q - 1]);
                }
            }
            assert forall|y: AccountId| v@.contains(y) <==> (before.contains(y) || y == x) by {
                if v@.contains(y) {
                    let w = choose|i: int| 0 <= i < v@.len() && v@[i] == y;
                    if w < j {
                        assert(before[w] == y);
                    } else if w == j {
                    } else {
                        assert(before[w - 1] == y);
                    }
                }
                if before.contains(y) {
                    let w = choose|i: int| 0 <= i < before.len() && before[i] == y;
                    if w < j {
                        assert(v@[w] == y);
                    } else {
                        assert(v@[w + 1] == y);
                    }
                }
                if y == x {
                    assert(v@[j as int] == x);
                }
            }
            return ;
        }
        j += 1;
    }
    let ghost before = v@;
    v.push(x);
    assert forall|y: AccountId| v@.contains(y) <==> (before.contains(y) || y == x) by {
        if before.contains(y) {
            let w = choose|i: int| 0 <= i < before.len() && before[i] == y;
            assert(v@[w] == y);
        }
        if y == x {
            assert(v@[v@.len() - 1] == x);
        }
        if v@.contains(y) {
            let w = choose|i: int| 0 <= i < v@.len() && v@[i] == y;
            if w < before.len() {
                assert(before[w] == y);
            }
        }
    }
}

impl Accounts for Vec<UserToPLMCBalance> {
    type Account = AccountId;

    open spec fn accounts_post(&self, r: Vec<AccountId>) -> bool {
        is_sorted_account_list(r@, plmc_account_set(self@))
    }

    fn accounts(&self) -> (r: Vec<AccountId>) {
        let mut out: Vec<AccountId> = Vec::new();
        let mut idx: usize = 0;
        while idx < self.len()
            invariant
                idx <= self@.len(),
                strictly_sorted(out@),
                forall|y: AccountId|
                    out@.contains(y) <==> plmc_account_set(self@.take(idx as int)).contains(y),
            decreases self@.len() - idx,
        {
            let ghost pre = out@;
            insert_sorted(&mut out, self[idx].account);
            proof {
                let taken = self@.take(idx as int);
                let taken1 = self@.take(idx as int + 1);
                assert forall|y: AccountId|
                    out@.contains(y) <==> plmc_account_set(taken1).contains(y) by {
                    if out@.contains(y) {
                        if pre.contains(y) {
                            let w = choose|i: int|
                                0 <= i < taken.len() && (#[trigger] taken[i]).account == y;
                            assert(taken1[w].account == y);
                        } else {
                            assert(y == self@[idx as int].account);
                            assert(taken1[idx as int].account == y);
                        }
                    }
                    if plmc_account_set(taken1).contains(y) {
                        let w = choose|i: int|
                            0 <= i < taken1.len() && (#[trigger] taken1[i]).account == y;
                        if w < idx {
                            assert(taken[w].account == y);
                        } else {
                            assert(y == self@[idx as int].account);
                        }
                    }
                }
            }
            idx += 1;
        }
        proof {
            assert(self@.take(self@.len() as int) =~= self@);
            assert forall|m: int| 0 <= m < out@.len() implies plmc_account_set(self@).contains(
                #[trigger] out@[m],
            ) by {
                assert(out@.contains(out@[m]));
            }
        }
        out
    }
}

impl AccountMerge for Vec<UserToPLMCBalance> {
    type Inner = UserToPLMCBalance;

    open spec fn merge_post(&self, op: MergeOperation, r: Self) -> bool {
        &&& is_merged_list(plmc_pairs(r@), merged(plmc_pairs(self@), op))
        &&& sorted_account_pairs(plmc_pairs(r@))
    }

    open spec fn subtract_post(&self, other: Self, r: Self) -> bool {
        &&& is_merged_list(
            plmc_pairs(r@),
            sub_merged(
                merged(plmc_pairs(self@), MergeOperation::Add),
                merged(
                    filtered(plmc_pairs(other@), key_set(plmc_pairs(self@))),
                    MergeOperation::Add,
                ),
            ),
        )
        &&& sorted_account_pairs(plmc_pairs(r@))
    }

    open spec fn sum_post(&self, other: Self, r: Self) -> bool {
        &&& is_merged_list(
            plmc_pairs(r@),
            merged(plmc_pairs(self@) + plmc_pairs(other@), MergeOperation::Add),
        )
        &&& sorted_account_pairs(plmc_pairs(r@))
    }

    fn merge_accounts(&self, op: MergeOperation) -> (r: Self) {
        let mut out: Vec<UserToPLMCBalance> = Vec::new();
        let mut idx: usize = 0;
        while idx < self.len()
            invariant
                idx <= self@.len(),
                forall|i: int, j: int|
                    0 <= i < j < out@.len() ==> (#[trigger] out@[i]).account < (
                    #[trigger] out@[j]).account,
                is_merged_list(plmc_pairs(out@), merged(plmc_pairs(self@).take(idx as int), op)),
            decreases self@.len() - idx,
        {
            let e = self[idx];
            let ghost prefix = plmc_pairs(self@).take(idx as int);
            let ghost prefix1 = plmc_pairs(self@).take(idx as int + 1);
            let ghost m = merged(prefix, op);
            let ghost m1 = merged(prefix1, op);
            proof {
                assert(prefix1.drop_last() =~= prefix);
                assert(prefix1.last() == (e.account, e.plmc_amount));
                assert(m1 == merge_step(m, (e.account, e.plmc_amount), op));
            }
            let ghost pre = plmc_pairs(out@);
            let pos = find_plmc_position(&out, e.account);
            if pos < out.len() && out[pos].account == e.account {
                let old_amount = out[pos].plmc_amount;
                let new_amount = sat_combine(op, old_amount, e.plmc_amount);
                proof {
                    assert(pre[pos as int] == (e.account, old_amount));
                    assert(m.dom().contains(e.account) && m[e.account] == old_amount);
                    assert(m1 == m.insert(e.account, combine(op, old_amount, e.plmc_amount)));
                }
                out[pos] = UserToPLMCBalance { account: e.account, plmc_amount: new_amount };
                proof {
                    let np = plmc_pairs(out@);
                    assert(np =~= pre.update(pos as int, (e.account, new_amount)));
                    assert forall|k: AccountId| #[trigger] m1.dom().contains(k) implies exists|
                        i: int,
                    | 0 <= i < np.len() && (#[trigger] np[i]).0 == k by {
                        let w = choose|i: int| 0 <= i < pre.len() && (#[trigger] pre[i]).0 == k;
                        assert(np[w].0 == k);
                    }
                }
            } else {
                proof {
                    assert forall|w: int| 0 <= w < out@.len() implies (#[trigger] out@[w]).account
                        != e.account by {
                        if w >= pos {
                            assert(out@[pos as int].account > e.account);
                        }
                    }
                    if m.dom().contains(e.account) {
                        let w = choose|i: int|
                            0 <= i < pre.len() && (#[trigger] pre[i]).0 == e.account;
                        assert(out@[w].account == e.account);
                    }
                    assert(!m.dom().contains(e.account));
                    assert(m1 == m.insert(e.account, e.plmc_amount));
                }
                let ghost before = out@;
                out.insert(pos, e);
                proof {
                    let np = plmc_pairs(out@);
                    assert forall|i: int, j: int| 0 <= i < j < out@.len() implies (
                    #[trigger] out@[i]).account < (#[trigger] out@[j]).account by {
                        if j < pos {
                        } else if i < pos && j == pos {
                        } else if i < pos && j > pos {
                            assert(out@[i] == before[i] && out@[j] == before[j - 1]);
                            if j - 1 == pos {
                                assert(before[pos as int].account > e.account);
                            } else {
                                assert(before[pos as int].account > e.account);
                                assert(before[pos as int].account < before[j - 1].account);
                            }
                        } else if i == pos {
                            assert(out@[j] == before[j - 1]);
                            if j - 1 == pos {
                                assert(before[pos as int].account > e.account);
                            } else {
                                assert(before[pos as int].account > e.account);
                                assert(before[pos as int].account < before[j - 1].account);
                            }
                        } else {
                            assert(out@[i] == before[i - 1] && out@[j] == before[j - 1]);
                        }
                    }
                    assert(np =~= pre.insert(pos as int, (e.account, e.plmc_amount)));
                    assert forall|i: int| 0 <= i < np.len() implies m1.dom().contains(
                        (#[trigger] np[i]).0,
                    ) && m1[np[i].0] == np[i].1 by {
                        if i < pos {
                            assert(np[i] == pre[i]);
                            assert(pre[i].0 != e.account);
                        } else if i == pos {
                        } else {
                            assert(np[i] == pre[i - 1]);
                            assert(pre[i - 1].0 != e.account);
                        }
                    }
                    assert forall|k: AccountId| #[trigger] m1.dom().contains(k) implies exists|
                        i: int,
                    | 0 <= i < np.len() && (#[trigger] np[i]).0 == k by {
                        if k == e.account {
                            assert(np[pos as int].0 == k);
                        } else {
                            let w = choose|i: int| 0 <= i < pre.len() && (#[trigger] pre[i]).0 == k;
                            if w < pos {
                                assert(np[w].0 == k);
                            } else {
                                assert(np[w + 1].0 == k);
                            }
                        }
                    }
                    assert forall|i: int, j: int| 0 <= i < j < np.len() implies (
                    #[trigger] np[i]).0 != (#[trigger] np[j]).0 by {
                        assert(np[i].0 == out@[i].account && np[j].0 == out@[j].account);
                    }
                }
            }
            idx += 1;
        }
        proof {
            assert(plmc_pairs(self@).take(self@.len() as int) =~= plmc_pairs(self@));
            assert forall|i: int, j: int| 0 <= i < j < plmc_pairs(out@).len() implies (
            #[trigger] plmc_pairs(out@)[i]).0 < (#[trigger] plmc_pairs(out@)[j]).0 by {
                assert(plmc_pairs(out@)[i].0 == out@[i].account);
                assert(plmc_pairs(out@)[j].0 == out@[j].account);
            }
        }
        out
    }

    fn subtract_accounts(&self, other_list: Self) -> (r: Self) {
        let collapsed_self = self.merge_accounts(MergeOperation::Add);
        let current_accounts = self.accounts();
        let mut kept: Vec<UserToPLMCBalance> = Vec::new();
        proof {
            assert(plmc_pairs(kept@) =~= filtered(
                plmc_pairs(other_list@).take(0),
                key_set(plmc_pairs(self@)),
            ));
        }
        let mut k: usize = 0;
        while k < other_list.len()
            invariant
                k <= other_list@.len(),
                self.accounts_post(current_accounts),
                plmc_pairs(kept@) =~= filtered(
                    plmc_pairs(other_list@).take(k as int),
                    key_set(plmc_pairs(self@)),
                ),
            decreases other_list@.len() - k,
        {
            let e = other_list[k];
            let ghost keys = key_set(plmc_pairs(self@));
            let ghost taken = plmc_pairs(other_list@).take(k as int);
            let ghost taken1 = plmc_pairs(other_list@).take(k as int + 1);
            proof {
                assert(taken1.drop_last() =~= taken);
                assert(taken1.last() == (e.account, e.plmc_amount));
            }
            let present = contains_account(&current_accounts, e.account);
            proof {
                if present {
                    assert(plmc_account_set(self@).contains(e.account));
                    let w = choose|i: int|
                        0 <= i < self@.len() && (#[trigger] self@[i]).account == e.account;
                    assert(plmc_pairs(self@)[w].0 == e.account);
                    assert(keys.contains(e.account));
                } else {
                    if keys.contains(e.account) {
                        let w = choose|i: int|
                            0 <= i < plmc_pairs(self@).len() && (#[trigger] plmc_pairs(
                                self@,
                            )[i]).0 == e.account;
                        assert(self@[w].account == e.account);
                        assert(plmc_account_set(self@).contains(e.account));
                    }
                    assert(!keys.contains(e.account));
                }
            }
            if present {
                let ghost prevp = plmc_pairs(kept@);
                kept.push(e);
                proof {
                    assert(plmc_pairs(kept@) =~= prevp.push((e.account, e.plmc_amount)));
                    assert(filtered(taken1, keys) =~= filtered(taken, keys).push(
                        (e.account, e.plmc_amount),
                    ));
                    assert(plmc_pairs(kept@) =~= filtered(taken1, keys));
                }
            } else {
                proof {
                    assert(filtered(taken1, keys) =~= filtered(taken, keys));
                }
            }
            k += 1;
        }
        proof {
            assert(plmc_pairs(other_list@).take(other_list@.len() as int) =~= plmc_pairs(
                other_list@,
            ));
        }
        let collapsed_other = kept.merge_accounts(MergeOperation::Add);
        let mut combined = collapsed_self;
        let ghost base = combined@;
        let ghost cp = plmc_pairs(base);
        let mut w: usize = 0;
        while w < collapsed_other.len()
            invariant
                w <= collapsed_other@.len(),
                combined@ =~= base + collapsed_other@.take(w as int),
            decreases collapsed_other@.len() - w,
        {
            combined.push(collapsed_other[w]);
            proof {
                assert(combined@ =~= base + collapsed_other@.take(w as int + 1));
            }
            w += 1;
        }
        proof {
            assert(collapsed_other@.take(collapsed_other@.len() as int) =~= collapsed_other@);
            assert(combined@ =~= base + collapsed_other@);
            assert(plmc_pairs(combined@) =~= cp + plmc_pairs(collapsed_other@));
            lemma_merge_after_collapse(
                cp,
                merged(plmc_pairs(self@), MergeOperation::Add),
                plmc_pairs(collapsed_other@),
                merged(
                    filtered(plmc_pairs(other_list@), key_set(plmc_pairs(self@))),
                    MergeOperation::Add,
                ),
            );
        }
        combined.merge_accounts(MergeOperation::Subtract)
    }

    fn sum_accounts(&self, other_list: Self) -> (r: Self) {
        let mut combined = self.clone();
        proof {
            assert(combined@ =~= self@);
        }
        let mut k: usize = 0;
        while k < other_list.len()
            invariant
                k <= other_list@.len(),
                combined@ =~= self@ + other_list@.take(k as int),
            decreases other_list@.len() - k,
        {
            combined.push(other_list[k]);
            proof {
                assert(combined@ =~= self@ + other_list@.take(k as int + 1));
            }
            k += 1;
        }
        proof {
            assert(other_list@.take(other_list@.len() as int) =~= other_list@);
            assert(plmc_pairs(self@ + other_list@) =~= plmc_pairs(self@) + plmc_pairs(
                other_list@,
            ));
        }
        combined.merge_accounts(MergeOperation::Add)
    }
}

/// An (account, USD amount) entry of a ledger aggregate.
#[derive(Clone, Copy, PartialEq, Eq, Structural, Debug)]
pub struct UserToUSDBalance {
    pub account: AccountId,
    pub usd_amount: Balance,
}

impl UserToUSDBalance {
    pub open spec fn pair(self) -> (AccountId, Balance) {
        (self.account, self.usd_amount)
    }

    pub fn new(account: AccountId, usd_amount: Balance) -> (r: Self)
        ensures
            r.account == account,
            r.usd_amount == usd_amount,
    {
        Self { account, usd_amount }
    }
}

/// The keyed-amount view of a USD ledger list.
pub open spec fn usd_pairs(s: Seq<UserToUSDBalance>) -> Seq<(AccountId, Balance)> {
    s.map_values(|e: UserToUSDBalance| e.pair())
}

/// The accounts a ledger list mentions.
pub open spec fn usd_account_set(s: Seq<UserToUSDBalance>) -> Set<AccountId> {
    Set::new(|a: AccountId| exists|i: int| 0 <= i < s.len() && (#[trigger] s[i]).account == a)
}

/// Index at which `account` belongs in a list strictly sorted by
/// account: the first entry not below it.
fn find_usd_position(v: &Vec<UserToUSDBalance>, account: AccountId) -> (r: usize)
    requires
        forall|i: int, j: int|
            0 <= i < j < v@.len() ==> (#[trigger] v@[i]).account < (#[trigger] v@[j]).account,
    ensures
        r <= v@.len(),
        forall|m: int| 0 <= m < r ==> (#[trigger] v@[m]).account < account,
        r < v@.len() ==> v@[r as int].account >= account,
{
    let mut j: usize = 0;
    while j < v.len()
        invariant
            j <= v@.len(),
            forall|m: int| 0 <= m < j ==> (#[trigger] v@[m]).account < account,
        decreases v@.len() - j,
    {
        if v[j].account >= account {
            return j;
        }
        j += 1;
    }
    j
}

impl Accounts for Vec<UserToUSDBalance> {
    type Account = AccountId;

    open spec fn accounts_post(&self, r: Vec<AccountId>) -> bool {
        is_sorted_account_list(r@, usd_account_set(self@))
    }

    fn accounts(&self) -> (r: Vec<AccountId>) {
        let mut out: Vec<AccountId> = Vec::new();
        let mut idx: usize = 0;
        while idx < self.len()
            invariant
                idx <= self@.len(),
                strictly_sorted(out@),
                forall|y: AccountId|
                    out@.contains(y) <==> usd_account_set(self@.take(idx as int)).contains(y),
            decreases self@.len() - idx,
        {
            let ghost pre = out@;
            insert_sorted(&mut out, self[idx].account);
            proof {
                let taken = self@.take(idx as int);
                let taken1 = self@.take(idx as int + 1);
                assert forall|y: AccountId|
                    out@.contains(y) <==> usd_account_set(taken1).contains(y) by {
                    if out@.contains(y) {
                        if pre.contains(y) {
                            let w = choose|i: int|
                                0 <= i < taken.len() && (#[trigger] taken[i]).account == y;
                            assert(taken1[w].account == y);
                        } else {
                            assert(y == self@[idx as int].account);
                            assert(taken1[idx as int].account == y);
                        }
                    }
                    if usd_account_set(taken1).contains(y) {
                        let w = choose|i: int|
                            0 <= i < taken1.len() && (#[trigger] taken1[i]).account == y;
                        if w < idx {
                            assert(taken[w].account == y);
                        } else {
                            assert(y == self@[idx as int].account);
                        }
                    }
                }
            }
            idx += 1;
        }
        proof {
            assert(self@.take(self@.len() as int) =~= self@);
            assert forall|m: int| 0 <= m < out@.len() implies usd_account_set(self@).contains(
                #[trigger] out@[m],
            ) by {
                assert(out@.contains(out@[m]));
            }
        }
        out
    }
}

impl AccountMerge for Vec<UserToUSDBalance> {
    type Inner = UserToUSDBalance;

    open spec fn merge_post(&self, op: MergeOperation, r: Self) -> bool {
        &&& is_merged_list(usd_pairs(r@), merged(usd_pairs(self@), op))
        &&& sorted_account_pairs(usd_pairs(r@))
    }

    open spec fn subtract_post(&self, other: Self, r: Self) -> bool {
        &&& is_merged_list(
            usd_pairs(r@),
            sub_merged(
                merged(usd_pairs(self@), MergeOperation::Add),
                merged(
                    filtered(usd_pairs(other@), key_set(usd_pairs(self@))),
                    MergeOperation::Add,
                ),
            ),
        )
        &&& sorted_account_pairs(usd_pairs(r@))
    }

    open spec fn sum_post(&self, other: Self, r: Self) -> bool {
        &&& is_merged_list(
            usd_pairs(r@),
            merged(usd_pairs(self@) + usd_pairs(other@), MergeOperation::Add),
        )
        &&& sorted_account_pairs(usd_pairs(r@))
    }

    fn merge_accounts(&self, op: MergeOperation) -> (r: Self) {
        let mut out: Vec<UserToUSDBalance> = Vec::new();
        let mut idx: usize = 0;
        while idx < self.len()
            invariant
                idx <= self@.len(),
                forall|i: int, j: int|
                    0 <= i < j < out@.len() ==> (#[trigger] out@[i]).account < (
                    #[trigger] out@[j]).account,
                is_merged_list(usd_pairs(out@), merged(usd_pairs(self@).take(idx as int), op)),
            decreases self@.len() - idx,
        {
            let e = self[idx];
            let ghost prefix = usd_pairs(self@).take(idx as int);
            let ghost prefix1 = usd_pairs(self@).take(idx as int + 1);
            let ghost m = merged(prefix, op);
            let ghost m1 = merged(prefix1, op);
            proof {
                assert(prefix1.drop_last() =~= prefix);
                assert(prefix1.last() == (e.account, e.usd_amount));
                assert(m1 == merge_step(m, (e.account, e.usd_amount), op));
            }
            let ghost pre = usd_pairs(out@);
            let pos = find_usd_position(&out, e.account);
            if pos < out.len() && out[pos].account == e.account {
                let old_amount = out[pos].usd_amount;
                let new_amount = sat_combine(op, old_amount, e.usd_amount);
                proof {
                    assert(pre[pos as int] == (e.account, old_amount));
                    assert(m.dom().contains(e.account) && m[e.account] == old_amount);
                    assert(m1 == m.insert(e.account, combine(op, old_amount, e.usd_amount)));
                }
                out[pos] = UserToUSDBalance { account: e.account, usd_amount: new_amount };
                proof {
                    let np = usd_pairs(out@);
                    assert(np =~= pre.update(pos as int, (e.account, new_amount)));
                    assert forall|k: AccountId| #[trigger] m1.dom().contains(k) implies exists|
                        i: int,
                    | 0 <= i < np.len() && (#[trigger] np[i]).0 == k by {
                        let w = choose|i: int| 0 <= i < pre.len() && (#[trigger] pre[i]).0 == k;
                        assert(np[w].0 == k);
                    }
                }
            } else {
                proof {
                    assert forall|w: int| 0 <= w < out@.len() implies (#[trigger] out@[w]).account
                        != e.account by {
                        if w >= pos {
                            assert(out@[pos as int].account > e.account);
                        }
                    }
                    if m.dom().contains(e.account) {
                        let w = choose|i: int|
                            0 <= i < pre.len() && (#[trigger] pre[i]).0 == e.account;
                        assert(out@[w].account == e.account);
                    }
                    assert(!m.dom().contains(e.account));
                    assert(m1 == m.insert(e.account, e.usd_amount));
                }
                let ghost before = out@;
                out.insert(pos, e);
                proof {
                    let np = usd_pairs(out@);
                    assert forall|i: int, j: int| 0 <= i < j < out@.len() implies (
                    #[trigger] out@[i]).account < (#[trigger] out@[j]).account by {
                        if j < pos {
                        } else if i < pos && j == pos {
                        } else if i < pos && j > pos {
                            assert(out@[i] == before[i] && out@[j] == before[j - 1]);
                            if j - 1 == pos {
                                assert(before[pos as int].account > e.account);
                            } else {
                                assert(before[pos as int].account > e.account);
                                assert(before[pos as int].account < before[j - 1].account);
                            }
                        } else if i == pos {
                            assert(out@[j] == before[j - 1]);
                            if j - 1 == pos {
                                assert(before[pos as int].account > e.account);
                            } else {
                                assert(before[pos as int].account > e.account);
                                assert(before[pos as int].account < before[j - 1].account);
                            }
                        } else {
                            assert(out@[i] == before[i - 1] && out@[j] == before[j - 1]);
                        }
                    }
                    assert(np =~= pre.insert(pos as int, (e.account, e.usd_amount)));
                    assert forall|i: int| 0 <= i < np.len() implies m1.dom().contains(
                        (#[trigger] np[i]).0,
                    ) && m1[np[i].0] == np[i].1 by {
                        if i < pos {
                            assert(np[i] == pre[i]);
                            assert(pre[i].0 != e.account);
                        } else if i == pos {
                        } else {
                            assert(np[i] == pre[i - 1]);
                            assert(pre[i - 1].0 != e.account);
                        }
                    }
                    assert forall|k: AccountId| #[trigger] m1.dom().contains(k) implies exists|
                        i: int,
                    | 0 <= i < np.len() && (#[trigger] np[i]).0 == k by {
                        if k == e.account {
                            assert(np[pos as int].0 == k);
                        } else {
                            let w = choose|i: int| 0 <= i < pre.len() && (#[trigger] pre[i]).0 == k;
                            if w < pos {
                                assert(np[w].0 == k);
                            } else {
                                assert(np[w + 1].0 == k);
                            }
                        }
                    }
                    assert forall|i: int, j: int| 0 <= i < j < np.len() implies (
                    #[trigger] np[i]).0 != (#[trigger] np[j]).0 by {
                        assert(np[i].0 == out@[i].account && np[j].0 == out@[j].account);
                    }
                }
            }
            idx += 1;
        }
        proof {
            assert(usd_pairs(self@).take(self@.len() as int) =~= usd_pairs(self@));
            assert forall|i: int, j: int| 0 <= i < j < usd_pairs(out@).len() implies (
            #[trigger] usd_pairs(out@)[i]).0 < (#[trigger] usd_pairs(out@)[j]).0 by {
                assert(usd_pairs(out@)[i].0 == out@[i].account);
                assert(usd_pairs(out@)[j].0 == out@[j].account);
            }
        }
        out
    }

    fn subtract_accounts(&self, other_list: Self) -> (r: Self) {
        let collapsed_self = self.merge_accounts(MergeOperation::Add);
        let current_accounts = self.accounts();
        let mut kept: Vec<UserToUSDBalance> = Vec::new();
        proof {
            assert(usd_pairs(kept@) =~= filtered(
                usd_pairs(other_list@).take(0),
                key_set(usd_pairs(self@)),
            ));
        }
        let mut k: usize = 0;
        while k < other_list.len()
            invariant
                k <= other_list@.len(),
                self.accounts_post(current_accounts),
                usd_pairs(kept@) =~= filtered(
                    usd_pairs(other_list@).take(k as int),
                    key_set(usd_pairs(self@)),
                ),
            decreases other_list@.len() - k,
        {
            let e = other_list[k];
            let ghost keys = key_set(usd_pairs(self@));
            let ghost taken = usd_pairs(other_list@).take(k as int);
            let ghost taken1 = usd_pairs(other_list@).take(k as int + 1);
            proof {
                assert(taken1.drop_last() =~= taken);
                assert(taken1.last() == (e.account, e.usd_amount));
            }
            let present = contains_account(&current_accounts, e.account);
            proof {
                if present {
                    assert(usd_account_set(self@).contains(e.account));
                    let w = choose|i: int|
                        0 <= i < self@.len() && (#[trigger] self@[i]).account == e.account;
                    assert(usd_pairs(self@)[w].0 == e.account);
                    assert(keys.contains(e.account));
                } else {
                    if keys.contains(e.account) {
                        let w = choose|i: int|
                            0 <= i < usd_pairs(self@).len() && (#[trigger] usd_pairs(
                                self@,
                            )[i]).0 == e.account;
                        assert(self@[w].account == e.account);
                        assert(usd_account_set(self@).contains(e.account));
                    }
                    assert(!keys.contains(e.account));
                }
            }
            if present {
                let ghost prevp = usd_pairs(kept@);
                kept.push(e);
                proof {
                    assert(usd_pairs(kept@) =~= prevp.push((e.account, e.usd_amount)));
                    assert(filtered(taken1, keys) =~= filtered(taken, keys).push(
                        (e.account, e.usd_amount),
                    ));
                    assert(usd_pairs(kept@) =~= filtered(taken1, keys));
                }
            } else {
                proof {
                    assert(filtered(taken1, keys) =~= filtered(taken, keys));
                }
            }
            k += 1;
        }
        proof {
            assert(usd_pairs(other_list@).take(other_list@.len() as int) =~= usd_pairs(
                other_list@,
            ));
        }
        let collapsed_other = kept.merge_accounts(MergeOperation::Add);
        let mut combined = collapsed_self;
        let ghost base = combined@;
        let ghost cp = usd_pairs(base);
        let mut w: usize = 0;
        while w < collapsed_other.len()
            invariant
                w <= collapsed_other@.len(),
                combined@ =~= base + collapsed_other@.take(w as int),
            decreases collapsed_other@.len() - w,
        {
            combined.push(collapsed_other[w]);
            proof {
                assert(combined@ =~= base + collapsed_other@.take(w as int + 1));
            }
            w += 1;
        }
        proof {
            assert(collapsed_other@.take(collapsed_other@.len() as int) =~= collapsed_other@);
            assert(combined@ =~= base + collapsed_other@);
            assert(usd_pairs(combined@) =~= cp + usd_pairs(collapsed_other@));
            lemma_merge_after_collapse(
                cp,
                merged(usd_pairs(self@), MergeOperation::Add),
                usd_pairs(collapsed_other@),
                merged(
                    filtered(usd_pairs(other_list@), key_set(usd_pairs(self@))),
                    MergeOperation::Add,
                ),
            );
        }
        combined.merge_accounts(MergeOperation::Subtract)
    }

    fn sum_accounts(&self, other_list: Self) -> (r: Self) {
        let mut combined = self.clone();
        proof {
            assert(combined@ =~= self@);
        }
        let mut k: usize = 0;
        while k < other_list.len()
            invariant
                k <= other_list@.len(),
                combined@ =~= self@ + other_list@.take(k as int),
            decreases other_list@.len() - k,
        {
            combined.push(other_list[k]);
            proof {
                assert(combined@ =~= self@ + other_list@.take(k as int + 1));
            }
            k += 1;
        }
        proof {
            assert(other_list@.take(other_list@.len() as int) =~= other_list@);
            assert(usd_pairs(self@ + other_list@) =~= usd_pairs(self@) + usd_pairs(
                other_list@,
            ));
        }
        combined.merge_accounts(MergeOperation::Add)
    }
}

/// An (account, amount, funding asset) entry of a ledger aggregate;
/// aggregation keys on account and asset together.
#[derive(Clone, Copy, PartialEq, Eq, Structural, Debug)]
pub struct UserToFundingAsset {
    pub account: AccountId,
    pub asset_amount: Balance,
    pub asset_id: u32,
}

impl UserToFundingAsset {
    pub open spec fn pair(self) -> ((AccountId, u32), Balance) {
        ((self.account, self.asset_id), self.asset_amount)
    }

    pub fn new(account: AccountId, asset_amount: Balance, asset_id: u32) -> (r: Self)
        ensures
            r.account == account,
            r.asset_amount == asset_amount,
            r.asset_id == asset_id,
    {
        Self { account, asset_amount, asset_id }
    }
}

/// The keyed-amount view of a funding-asset ledger list.
pub open spec fn fasset_pairs(s: Seq<UserToFundingAsset>) -> Seq<((AccountId, u32), Balance)> {
    s.map_values(|e: UserToFundingAsset| e.pair())
}

/// The accounts a funding-asset list mentions, over all assets.
pub open spec fn fasset_account_set(s: Seq<UserToFundingAsset>) -> Set<AccountId> {
    Set::new(|a: AccountId| exists|i: int| 0 <= i < s.len() && (#[trigger] s[i]).account == a)
}

/// The entries of `s` whose account lies in `accts`, in order, whatever
/// their asset.
pub open spec fn fasset_filtered(s: Seq<UserToFundingAsset>, accts: Set<AccountId>) -> Seq<
    UserToFundingAsset,
>
    decreases s.len(),
{
    if s.len() == 0 {
        Seq::empty()
    } else {
        let prev = fasset_filtered(s.drop_last(), accts);
        if accts.contains(s.last().account) {
            prev.push(s.last())
        } else {
            prev
        }
    }
}

/// Index at which the (account, asset) key belongs in a list strictly
/// sorted by that composite key: the first entry not below it.
fn find_fasset_position(v: &Vec<UserToFundingAsset>, account: AccountId, asset_id: u32) -> (r:
    usize)
    requires
        forall|i: int, j: int|
            0 <= i < j < v@.len() ==> asset_key_lt(
                ((#[trigger] v@[i]).account, v@[i].asset_id),
                ((#[trigger] v@[j]).account, v@[j].asset_id),
            ),
    ensures
        r <= v@.len(),
        forall|m: int|
            0 <= m < r ==> asset_key_lt(
                ((#[trigger] v@[m]).account, v@[m].asset_id),
                (account, asset_id),
            ),
        r < v@.len() ==> !asset_key_lt(
            (v@[r as int].account, v@[r as int].asset_id),
            (account, asset_id),
        ),
{
    let mut j: usize = 0;
    while j < v.len()
        invariant
            j <= v@.len(),
            forall|m: int|
                0 <= m < j ==> asset_key_lt(
                    ((#[trigger] v@[m]).account, v@[m].asset_id),
                    (account, asset_id),
                ),
        decreases v@.len() - j,
    {
        let below = v[j].account < account || (v[j].account == account && v[j].asset_id < asset_id);
        if !below {
            return j;
        }
        j += 1;
    }
    j
}

impl Accounts for Vec<UserToFundingAsset> {
    type Account = AccountId;

    open spec fn accounts_post(&self, r: Vec<AccountId>) -> bool {
        is_sorted_account_list(r@, fasset_account_set(self@))
    }

    fn accounts(&self) -> (r: Vec<AccountId>) {
        let mut out: Vec<AccountId> = Vec::new();
        let mut idx: usize = 0;
        while idx < self.len()
            invariant
                idx <= self@.len(),
                strictly_sorted(out@),
                forall|y: AccountId|
                    out@.contains(y) <==> fasset_account_set(self@.take(idx as int)).contains(y),
            decreases self@.len() - idx,
        {
            let ghost pre = out@;
            insert_sorted(&mut out, self[idx].account);
            proof {
                let taken = self@.take(idx as int);
                let taken1 = self@.take(idx as int + 1);
                assert forall|y: AccountId|
                    out@.contains(y) <==> fasset_account_set(taken1).contains(y) by {
                    if out@.contains(y) {
                        if pre.contains(y) {
                            let w = choose|i: int|
                                0 <= i < taken.len() && (#[trigger] taken[i]).account == y;
                            assert(taken1[w].account == y);
                        } else {
                            assert(y == self@[idx as int].account);
                            assert(taken1[idx as int].account == y);
                        }
                    }
                    if fasset_account_set(taken1).contains(y) {
                        let w = choose|i: int|
                            0 <= i < taken1.len() && (#[trigger] taken1[i]).account == y;
                        if w < idx {
                            assert(taken[w].account == y);
                        } else {
                            assert(y == self@[idx as int].account);
                        }
                    }
                }
            }
            idx += 1;
        }
        proof {
            assert(self@.take(self@.len() as int) =~= self@);
            assert forall|m: int| 0 <= m < out@.len() implies fasset_account_set(self@).contains(
                #[trigger] out@[m],
            ) by {
                assert(out@.contains(out@[m]));
            }
        }
        out
    }
}

impl AccountMerge for Vec<UserToFundingAsset> {
    type Inner = UserToFundingAsset;

    open spec fn merge_post(&self, op: MergeOperation, r: Self) -> bool {
        &&& is_merged_list(fasset_pairs(r@), merged(fasset_pairs(self@), op))
        &&& sorted_asset_pairs(fasset_pairs(r@))
    }

    open spec fn subtract_post(&self, other: Self, r: Self) -> bool {
        &&& is_merged_list(
            fasset_pairs(r@),
            sub_merged(
                merged(fasset_pairs(self@), MergeOperation::Add),
                merged(
                    fasset_pairs(fasset_filtered(other@, fasset_account_set(self@))),
                    MergeOperation::Add,
                ),
            ),
        )
        &&& sorted_asset_pairs(fasset_pairs(r@))
    }

    open spec fn sum_post(&self, other: Self, r: Self) -> bool {
        &&& is_merged_list(
            fasset_pairs(r@),
            merged(fasset_pairs(self@) + fasset_pairs(other@), MergeOperation::Add),
        )
        &&& sorted_asset_pairs(fasset_pairs(r@))
    }

    fn merge_accounts(&self, op: MergeOperation) -> (r: Self) {
        let mut out: Vec<UserToFundingAsset> = Vec::new();
        let mut idx: usize = 0;
        while idx < self.len()
            invariant
                idx <= self@.len(),
                forall|i: int, j: int|
                    0 <= i < j < out@.len() ==> asset_key_lt(
                        ((#[trigger] out@[i]).account, out@[i].asset_id),
                        ((#[trigger] out@[j]).account, out@[j].asset_id),
                    ),
                is_merged_list(fasset_pairs(out@), merged(fasset_pairs(self@).take(idx as int), op)),
            decreases self@.len() - idx,
        {
            let e = self[idx];
            let ghost key = (e.account, e.asset_id);
            let ghost prefix = fasset_pairs(self@).take(idx as int);
            let ghost prefix1 = fasset_pairs(self@).take(idx as int + 1);
            let ghost m = merged(prefix, op);
            let ghost m1 = merged(prefix1, op);
            proof {
                assert(prefix1.drop_last() =~= prefix);
                assert(prefix1.last() == (key, e.asset_amount));
                assert(m1 == merge_step(m, (key, e.asset_amount), op));
            }
            let ghost pre = fasset_pairs(out@);
            let pos = find_fasset_position(&out, e.account, e.asset_id);
            if pos < out.len() && out[pos].account == e.account && out[pos].asset_id == e.asset_id {
                let old_amount = out[pos].asset_amount;
                let new_amount = sat_combine(op, old_amount, e.asset_amount);
                proof {
                    assert(pre[pos as int] == (key, old_amount));
                    assert(m.dom().contains(key) && m[key] == old_amount);
                    assert(m1 == m.insert(key, combine(op, old_amount, e.asset_amount)));
                }
                out[pos] = UserToFundingAsset {
                    account: e.account,
                    asset_amount: new_amount,
                    asset_id: e.asset_id,
                };
                proof {
                    let np = fasset_pairs(out@);
                    assert(np =~= pre.update(pos as int, (key, new_amount)));
                    assert forall|k: (AccountId, u32)| #[trigger] m1.dom().contains(k) implies
                        exists|i: int| 0 <= i < np.len() && (#[trigger] np[i]).0 == k by {
                        let w = choose|i: int| 0 <= i < pre.len() && (#[trigger] pre[i]).0 == k;
                        assert(np[w].0 == k);
                    }
                }
            } else {
                proof {
                    assert forall|w: int| 0 <= w < out@.len() implies !((
                    #[trigger] out@[w]).account == e.account && out@[w].asset_id == e.asset_id) by {
                        if w >= pos {
                            assert(asset_key_lt(key, (out@[pos as int].account, out@[pos as int].asset_id)));
                        }
                    }
                    if m.dom().contains(key) {
                        let w = choose|i: int| 0 <= i < pre.len() && (#[trigger] pre[i]).0 == key;
                        assert(out@[w].account == e.account && out@[w].asset_id == e.asset_id);
                    }
                    assert(!m.dom().contains(key));
                    assert(m1 == m.insert(key, e.asset_amount));
                }
                let ghost before = out@;
                out.insert(pos, e);
                proof {
                    let np = fasset_pairs(out@);
                    assert forall|i: int, j: int| 0 <= i < j < out@.len() implies asset_key_lt(
                        ((#[trigger] out@[i]).account, out@[i].asset_id),
                        ((#[trigger] out@[j]).account, out@[j].asset_id),
                    ) by {
                        if j < pos {
                        } else if i < pos && j == pos {
                        } else if i < pos && j > pos {
                            assert(out@[i] == before[i] && out@[j] == before[j - 1]);
                            assert(asset_key_lt(key, (before[pos as int].account, before[pos as int].asset_id)));
                            if j - 1 > pos {
                                assert(asset_key_lt(
                                    (before[pos as int].account, before[pos as int].asset_id),
                                    (before[j - 1].account, before[j - 1].asset_id),
                                ));
                            }
                        } else if i == pos {
                            assert(out@[j] == before[j - 1]);
                            assert(asset_key_lt(key, (before[pos as int].account, before[pos as int].asset_id)));
                            if j - 1 > pos {
                                assert(asset_key_lt(
                                    (before[pos as int].account, before[pos as int].asset_id),
                                    (before[j - 1].account, before[j - 1].asset_id),
                                ));
                            }
                        } else {
                            assert(out@[i] == before[i - 1] && out@[j] == before[j - 1]);
                        }
                    }
                    assert(np =~= pre.insert(pos as int, (key, e.asset_amount)));
                    assert forall|i: int| 0 <= i < np.len() implies m1.dom().contains(
                        (#[trigger] np[i]).0,
                    ) && m1[np[i].0] == np[i].1 by {
                        if i < pos {
                            assert(np[i] == pre[i]);
                            assert(pre[i].0 != key);
                        } else if i == pos {
                        } else {
                            assert(np[i] == pre[i - 1]);
                            assert(pre[i - 1].0 != key);
                        }
                    }
                    assert forall|k: (AccountId, u32)| #[trigger] m1.dom().contains(k) implies
                        exists|i: int| 0 <= i < np.len() && (#[trigger] np[i]).0 == k by {
                        if k == key {
                            assert(np[pos as int].0 == k);
                        } else {
                            let w = choose|i: int| 0 <= i < pre.len() && (#[trigger] pre[i]).0 == k;
                            if w < pos {
                                assert(np[w].0 == k);
                            } else {
                                assert(np[w + 1].0 == k);
                            }
                        }
                    }
                    assert forall|i: int, j: int| 0 <= i < j < np.len() implies (
                    #[trigger] np[i]).0 != (#[trigger] np[j]).0 by {
                        assert(np[i].0 == (out@[i].account, out@[i].asset_id));
                        assert(np[j].0 == (out@[j].account, out@[j].asset_id));
                    }
                }
            }
            idx += 1;
        }
        proof {
            assert(fasset_pairs(self@).take(self@.len() as int) =~= fasset_pairs(self@));
            assert forall|i: int, j: int| 0 <= i < j < fasset_pairs(out@).len() implies
                asset_key_lt(
                (#[trigger] fasset_pairs(out@)[i]).0,
                (#[trigger] fasset_pairs(out@)[j]).0,
            ) by {
                assert(fasset_pairs(out@)[i].0 == (out@[i].account, out@[i].asset_id));
                assert(fasset_pairs(out@)[j].0 == (out@[j].account, out@[j].asset_id));
            }
        }
        out
    }

    fn subtract_accounts(&self, other_list: Self) -> (r: Self) {
        let collapsed_self = self.merge_accounts(MergeOperation::Add);
        let current_accounts = self.accounts();
        let mut kept: Vec<UserToFundingAsset> = Vec::new();
        proof {
            assert(kept@ =~= fasset_filtered(other_list@.take(0), fasset_account_set(self@)));
        }
        let mut k: usize = 0;
        while k < other_list.len()
            invariant
                k <= other_list@.len(),
                self.accounts_post(current_accounts),
                kept@ =~= fasset_filtered(other_list@.take(k as int), fasset_account_set(self@)),
            decreases other_list@.len() - k,
        {
            let e = other_list[k];
            let ghost accts = fasset_account_set(self@);
            let ghost taken = other_list@.take(k as int);
            let ghost taken1 = other_list@.take(k as int + 1);
            proof {
                assert(taken1.drop_last() =~= taken);
                assert(taken1.last() == e);
            }
            let present = contains_account(&current_accounts, e.account);
            proof {
                if present {
                    assert(accts.contains(e.account));
                } else {
                    assert(!accts.contains(e.account));
                }
            }
            if present {
                kept.push(e);
                proof {
                    assert(fasset_filtered(taken1, accts) =~= fasset_filtered(taken, accts).push(
                        e,
                    ));
                    assert(kept@ =~= fasset_filtered(taken1, accts));
                }
            } else {
                proof {
                    assert(fasset_filtered(taken1, accts) =~= fasset_filtered(taken, accts));
                }
            }
            k += 1;
        }
        proof {
            assert(other_list@.take(other_list@.len() as int) =~= other_list@);
        }
        let collapsed_other = kept.merge_accounts(MergeOperation::Add);
        let mut combined = collapsed_self;
        let ghost base = combined@;
        let ghost cp = fasset_pairs(base);
        let mut w: usize = 0;
        while w < collapsed_other.len()
            invariant
                w <= collapsed_other@.len(),
                combined@ =~= base + collapsed_other@.take(w as int),
            decreases collapsed_other@.len() - w,
        {
            combined.push(collapsed_other[w]);
            proof {
                assert(combined@ =~= base + collapsed_other@.take(w as int + 1));
            }
            w += 1;
        }
        proof {
            assert(collapsed_other@.take(collapsed_other@.len() as int) =~= collapsed_other@);
            assert(combined@ =~= base + collapsed_other@);
            assert(fasset_pairs(combined@) =~= cp + fasset_pairs(collapsed_other@));
            lemma_merge_after_collapse(
                cp,
                merged(fasset_pairs(self@), MergeOperation::Add),
                fasset_pairs(collapsed_other@),
                merged(
                    fasset_pairs(fasset_filtered(other_list@, fasset_account_set(self@))),
                    MergeOperation::Add,
                ),
            );
        }
        combined.merge_accounts(MergeOperation::Subtract)
    }

    fn sum_accounts(&self, other_list: Self) -> (r: Self) {
        let mut combined = self.clone();
        proof {
            assert(combined@ =~= self@);
        }
        let mut k: usize = 0;
        while k < other_list.len()
            invariant
                k <= other_list@.len(),
                combined@ =~= self@ + other_list@.take(k as int),
            decreases other_list@.len() - k,
        {
            combined.push(other_list[k]);
            proof {
                assert(combined@ =~= self@ + other_list@.take(k as int + 1));
            }
            k += 1;
        }
        proof {
            assert(other_list@.take(other_list@.len() as int) =~= other_list@);
            assert(fasset_pairs(self@ + other_list@) =~= fasset_pairs(self@) + fasset_pairs(
                other_list@,
            ));
        }
        combined.merge_accounts(MergeOperation::Add)
    }
}

impl From<(AccountId, Balance)> for UserToPLMCBalance {
    fn from(t: (AccountId, Balance)) -> (r: Self) {
        UserToPLMCBalance::new(t.0, t.1)
    }
}

impl vstd::std_specs::convert::FromSpecImpl<(AccountId, Balance)> for UserToPLMCBalance {
    open spec fn obeys_from_spec() -> bool {
        true
    }

    open spec fn from_spec(t: (AccountId, Balance)) -> Self {
        UserToPLMCBalance { account: t.0, plmc_amount: t.1 }
    }
}

impl From<(AccountId, Balance)> for UserToUSDBalance {
    fn from(t: (AccountId, Balance)) -> (r: Self) {
        UserToUSDBalance::new(t.0, t.1)
    }
}

impl vstd::std_specs::convert::FromSpecImpl<(AccountId, Balance)> for UserToUSDBalance {
    open spec fn obeys_from_spec() -> bool {
        true
    }

    open spec fn from_spec(t: (AccountId, Balance)) -> Self {
        UserToUSDBalance { account: t.0, usd_amount: t.1 }
    }
}

impl From<(AccountId, Balance, u32)> for UserToFundingAsset {
    fn from(t: (AccountId, Balance, u32)) -> (r: Self) {
        UserToFundingAsset::new(t.0, t.1, t.2)
    }
}

impl vstd::std_specs::convert::FromSpecImpl<(AccountId, Balance, u32)> for UserToFundingAsset {
    open spec fn obeys_from_spec() -> bool {
        true
    }

    open spec fn from_spec(t: (AccountId, Balance, u32)) -> Self {
        UserToFundingAsset { account: t.0, asset_amount: t.1, asset_id: t.2 }
    }
}

impl From<(AccountId, Balance)> for UserToFundingAsset {
    fn from(t: (AccountId, Balance)) -> (r: Self) {
        UserToFundingAsset::new(t.0, t.1, crate::types::AcceptedFundingAsset::USDT.id())
    }
}

impl vstd::std_specs::convert::FromSpecImpl<(AccountId, Balance)> for UserToFundingAsset {
    open spec fn obeys_from_spec() -> bool {
        true
    }

    open spec fn from_spec(t: (AccountId, Balance)) -> Self {
        UserToFundingAsset {
            account: t.0,
            asset_amount: t.1,
            asset_id: crate::types::AcceptedFundingAsset::USDT.spec_id(),
        }
    }
}

} // verus!

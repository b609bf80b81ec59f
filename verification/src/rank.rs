//! Stable ranking of scored items.
//!
//! Every candidate carries its exact final score and its position in the
//! providers' fan-out order. Ranking sorts by score, descending; items with
//! equal scores keep their fan-out order. With distinct positions that
//! ordering is total, so the ranked sequence is uniquely determined.
use crate::model::SearchItem;
use crate::score::{clamp_raw, cmp_frac, combined_num, final_den, final_score, ScoreCmp};
use vstd::prelude::*;

verus! {

/// A candidate item together with its exact final score (`num / den`) and
/// its position in the fan-out order.
pub struct RankedItem {
    pub item: SearchItem,
    pub num: u128,
    pub den: u128,
    pub pos: usize,
}

impl RankedItem {
    /// The carried fraction is well formed.
    pub open spec fn wf(self) -> bool {
        0 < self.den && self.num <= self.den
    }

    /// The two items score equally.
    pub open spec fn score_eq(self, other: RankedItem) -> bool {
        self.num * other.den == other.num * self.den
    }

    /// `self` scores strictly below `other`.
    pub open spec fn score_lt(self, other: RankedItem) -> bool {
        self.num * other.den < other.num * self.den
    }
}

/// `a` comes strictly before `b` in the ranking: a strictly higher score, or
/// an equal score and an earlier fan-out position.
pub open spec fn precedes(a: RankedItem, b: RankedItem) -> bool {
    b.score_lt(a) || (a.score_eq(b) && a.pos < b.pos)
}

/// Every pair of a sequence is ordered by `precedes`.
pub open spec fn ranked_sorted(s: Seq<RankedItem>) -> bool {
    forall|i: int, j: int| 0 <= i < j < s.len() ==> precedes(#[trigger] s[i], #[trigger] s[j])
}

/// All carried fractions of a sequence are well formed.
pub open spec fn all_wf(s: Seq<RankedItem>) -> bool {
    forall|i: int| 0 <= i < s.len() ==> (#[trigger] s[i]).wf()
}

/// No two elements share a fan-out position, and `x` shares none of them.
pub open spec fn fresh_pos(s: Seq<RankedItem>, x: RankedItem) -> bool {
    forall|i: int| 0 <= i < s.len() ==> (#[trigger] s[i]).pos != x.pos
}

/// Insert `x` into the ranked sequence `s`, right before the first element
/// that `x` precedes.
pub open spec fn spec_insert(s: Seq<RankedItem>, x: RankedItem) -> Seq<RankedItem>
    decreases s.len(),
{
    if s.len() == 0 {
        seq![x]
    } else if precedes(x, s[0]) {
        seq![x] + s
    } else {
        seq![s[0]] + spec_insert(s.drop_first(), x)
    }
}

/// Rank a whole sequence, stably: insert its elements in fan-out order.
pub open spec fn spec_rank(s: Seq<RankedItem>) -> Seq<RankedItem>
    decreases s.len(),
{
    if s.len() == 0 {
        Seq::empty()
    } else {
        spec_insert(spec_rank(s.drop_last()), s.last())
    }
}

/// Exact comparison of fractions carried over to `precedes`.
fn ranked_precedes(a: &RankedItem, b: &RankedItem) -> (r: bool)
    requires
        a.wf(),
        b.wf(),
    ensures
        r == precedes(*a, *b),
{
    match cmp_frac(a.num, a.den, b.num, b.den) {
        ScoreCmp::Larger => true,
        ScoreCmp::Same => a.pos < b.pos,
        ScoreCmp::Smaller => false,
    }
}

/// Inserting at the first position whose element `x` precedes is exactly
/// `spec_insert`.
proof fn lemma_insert_at(s: Seq<RankedItem>, x: RankedItem, j: int)
    requires
        0 <= j <= s.len(),
        forall|k: int| 0 <= k < j ==> !precedes(x, #[trigger] s[k]),
        j < s.len() ==> precedes(x, s[j]),
    ensures
        spec_insert(s, x) == s.insert(j, x),
    decreases j,
{
    if s.len() == 0 {
        assert(spec_insert(s, x) =~= s.insert(0, x));
    } else if j == 0 {
        assert(precedes(x, s[0]));
        assert(spec_insert(s, x) =~= s.insert(0, x));
    } else {
        assert(!precedes(x, s[0]));
        let t = s.drop_first();
        assert(forall|k: int| 0 <= k < j - 1 ==> !precedes(x, #[trigger] t[k]));
        lemma_insert_at(t, x, j - 1);
        assert(seq![s[0]] + t.insert(j - 1, x) =~= s.insert(j, x));
    }
}

/// What `spec_insert` holds: `x` and the elements of `s`, nothing else.
proof fn lemma_insert_contents(s: Seq<RankedItem>, x: RankedItem)
    ensures
        spec_insert(s, x).len() == s.len() + 1,
        spec_insert(s, x).to_multiset() == s.to_multiset().insert(x),
        forall|e: RankedItem| spec_insert(s, x).contains(e) <==> (s.contains(e) || e == x),
    decreases s.len(),
{
    broadcast use vstd::seq_lib::group_to_multiset_ensures;
    broadcast use vstd::multiset::group_multiset_axioms;

    if s.len() == 0 {
        assert(seq![x] =~= Seq::<RankedItem>::empty().push(x));
    } else if precedes(x, s[0]) {
        vstd::seq_lib::lemma_multiset_commutative(seq![x], s);
        assert(seq![x] =~= Seq::<RankedItem>::empty().push(x));
        assert((seq![x] + s).to_multiset() =~= s.to_multiset().insert(x));
    } else {
        let t = s.drop_first();
        lemma_insert_contents(t, x);
        let r = seq![s[0]] + spec_insert(t, x);
        vstd::seq_lib::lemma_multiset_commutative(seq![s[0]], spec_insert(t, x));
        assert(s =~= seq![s[0]] + t);
        vstd::seq_lib::lemma_multiset_commutative(seq![s[0]], t);
        assert(seq![s[0]] =~= Seq::<RankedItem>::empty().push(s[0]));
        assert(r.to_multiset() =~= s.to_multiset().insert(x));
    }
    assert forall|e: RankedItem| spec_insert(s, x).contains(e) <==> (s.contains(e) || e == x) by {
        assert(spec_insert(s, x).contains(e) <==> spec_insert(s, x).to_multiset().count(e) > 0);
        assert(s.contains(e) <==> s.to_multiset().count(e) > 0);
        assert(s.to_multiset().insert(x).count(e) == s.to_multiset().count(e) + (
        if e == x {
            1int
        } else {
            0int
        }));
    }
}

/// Transitivity of the fraction ordering, with mixed strict and equal steps.
proof fn lemma_frac_trans(n1: int, d1: int, n2: int, d2: int, n3: int, d3: int)
    requires
        d1 > 0,
        d2 > 0,
        d3 > 0,
    ensures
        n1 * d2 < n2 * d1 && n2 * d3 < n3 * d2 ==> n1 * d3 < n3 * d1,
        n1 * d2 < n2 * d1 && n2 * d3 == n3 * d2 ==> n1 * d3 < n3 * d1,
        n1 * d2 == n2 * d1 && n2 * d3 < n3 * d2 ==> n1 * d3 < n3 * d1,
        n1 * d2 == n2 * d1 && n2 * d3 == n3 * d2 ==> n1 * d3 == n3 * d1,
{
    if n1 * d2 < n2 * d1 && n2 * d3 < n3 * d2 {
        assert(n1 * d3 < n3 * d1) by (nonlinear_arith)
            requires
                d1 > 0,
                d2 > 0,
                d3 > 0,
                n1 * d2 < n2 * d1,
                n2 * d3 < n3 * d2,
        ;
    }
    if n1 * d2 < n2 * d1 && n2 * d3 == n3 * d2 {
        assert(n1 * d3 < n3 * d1) by (nonlinear_arith)
            requires
                d1 > 0,
                d2 > 0,
                d3 > 0,
                n1 * d2 < n2 * d1,
                n2 * d3 == n3 * d2,
        ;
    }
    if n1 * d2 == n2 * d1 && n2 * d3 < n3 * d2 {
        assert(n1 * d3 < n3 * d1) by (nonlinear_arith)
            requires
                d1 > 0,
                d2 > 0,
                d3 > 0,
                n1 * d2 == n2 * d1,
                n2 * d3 < n3 * d2,
        ;
    }
    if n1 * d2 == n2 * d1 && n2 * d3 == n3 * d2 {
        assert(n1 * d3 == n3 * d1) by (nonlinear_arith)
            requires
                d1 > 0,
                d2 > 0,
                d3 > 0,
                n1 * d2 == n2 * d1,
                n2 * d3 == n3 * d2,
        ;
    }
}

/// The ranking order is transitive.
proof fn lemma_precedes_trans(a: RankedItem, b: RankedItem, c: RankedItem)
    requires
        a.wf(),
        b.wf(),
        c.wf(),
        precedes(a, b),
        precedes(b, c),
    ensures
        precedes(a, c),
{
    lemma_frac_trans(
        c.num as int,
        c.den as int,
        b.num as int,
        b.den as int,
        a.num as int,
        a.den as int,
    );
}

/// Two items on distinct fan-out positions are always ordered, one way or
/// the other.
proof fn lemma_precedes_total(a: RankedItem, b: RankedItem)
    requires
        a.pos != b.pos,
    ensures
        precedes(a, b) || precedes(b, a),
{
}

/// Inserting an element on a fresh position into a ranked sequence keeps it
/// ranked.
proof fn lemma_insert_keeps_sorted(s: Seq<RankedItem>, x: RankedItem)
    requires
        all_wf(s),
        x.wf(),
        ranked_sorted(s),
        fresh_pos(s, x),
    ensures
        ranked_sorted(spec_insert(s, x)),
    decreases s.len(),
{
    lemma_insert_contents(s, x);
    if s.len() == 0 {
    } else if precedes(x, s[0]) {
        let r = seq![x] + s;
        assert forall|i: int, j: int| 0 <= i < j < r.len() implies precedes(r[i], r[j]) by {
            if i == 0 {
                if j == 1 {
                } else {
                    lemma_precedes_trans(x, s[0], s[j - 1]);
                }
            }
        }
    } else {
        let t = s.drop_first();
        lemma_insert_contents(t, x);
        lemma_insert_keeps_sorted(t, x);
        lemma_precedes_total(s[0], x);
        let r = seq![s[0]] + spec_insert(t, x);
        assert forall|i: int, j: int| 0 <= i < j < r.len() implies precedes(r[i], r[j]) by {
            if i == 0 {
                let e = spec_insert(t, x)[j - 1];
                assert(spec_insert(t, x).contains(e)) by {
                    assert(spec_insert(t, x)[j - 1] == e);
                }
                if e == x {
                    assert(precedes(s[0], x));
                } else {
                    assert(t.contains(e));
                    let k = choose|k: int| 0 <= k < t.len() && t[k] == e;
                    assert(s[k + 1] == e);
                    assert(precedes(s[0], s[k + 1]));
                }
            }
        }
    }
}

/// Ranking keeps the items of the input, exactly.
proof fn lemma_rank_contents(s: Seq<RankedItem>)
    ensures
        spec_rank(s).len() == s.len(),
        spec_rank(s).to_multiset() == s.to_multiset(),
        forall|e: RankedItem| spec_rank(s).contains(e) <==> s.contains(e),
    decreases s.len(),
{
    broadcast use vstd::seq_lib::group_to_multiset_ensures;

    if s.len() == 0 {
    } else {
        let t = s.drop_last();
        lemma_rank_contents(t);
        lemma_insert_contents(spec_rank(t), s.last());
        assert(t.push(s.last()) =~= s);
        assert(spec_rank(s).to_multiset() =~= s.to_multiset());
        assert forall|e: RankedItem| spec_rank(s).contains(e) <==> s.contains(e) by {
            assert(spec_rank(s).contains(e) <==> spec_rank(s).to_multiset().count(e) > 0);
            assert(s.contains(e) <==> s.to_multiset().count(e) > 0);
        }
    }
}

/// No two elements share a fan-out position.
pub open spec fn distinct_pos(s: Seq<RankedItem>) -> bool {
    forall|i: int, j: int|
        0 <= i < j < s.len() ==> (#[trigger] s[i]).pos != (#[trigger] s[j]).pos
}

/// Ranking a sequence of well-formed items on distinct positions yields a
/// ranked sequence.
proof fn lemma_rank_sorted(s: Seq<RankedItem>)
    requires
        all_wf(s),
        distinct_pos(s),
    ensures
        ranked_sorted(spec_rank(s)),
    decreases s.len(),
{
    if s.len() > 0 {
        let t = s.drop_last();
        let x = s.last();
        assert(all_wf(t) && distinct_pos(t)) by {
            assert(forall|i: int| 0 <= i < t.len() ==> t[i] == s[i]);
        }
        lemma_rank_sorted(t);
        lemma_rank_contents(t);
        assert(all_wf(spec_rank(t))) by {
            assert forall|i: int| 0 <= i < spec_rank(t).len() implies (#[trigger] spec_rank(
                t,
            )[i]).wf() by {
                let e = spec_rank(t)[i];
                assert(spec_rank(t).contains(e)) by {
                    assert(spec_rank(t)[i] == e);
                }
                assert(t.contains(e));
                let k = choose|k: int| 0 <= k < t.len() && t[k] == e;
                assert(s[k] == e);
            }
        }
        assert(fresh_pos(spec_rank(t), x)) by {
            assert forall|i: int| 0 <= i < spec_rank(t).len() implies (#[trigger] spec_rank(
                t,
            )[i]).pos != x.pos by {
                let e = spec_rank(t)[i];
                assert(spec_rank(t).contains(e)) by {
                    assert(spec_rank(t)[i] == e);
                }
                assert(t.contains(e));
                let k = choose|k: int| 0 <= k < t.len() && t[k] == e;
                assert(s[k] == e && s[s.len() - 1] == x);
            }
        }
        lemma_insert_keeps_sorted(spec_rank(t), x);
    }
}

/// The ranking law: ranking loses and invents nothing, orders the items by
/// final score, non-increasing, and items with equal scores keep their
/// original fan-out order.
pub proof fn lemma_rank_stable(s: Seq<RankedItem>)
    requires
        all_wf(s),
        distinct_pos(s),
    ensures
        spec_rank(s).len() == s.len(),
        spec_rank(s).to_multiset() == s.to_multiset(),
        forall|i: int, j: int|
            0 <= i < j < s.len() ==> !(#[trigger] spec_rank(s)[i]).score_lt(
                #[trigger] spec_rank(s)[j],
            ),
        forall|i: int, j: int|
            0 <= i < j < s.len() && (#[trigger] spec_rank(s)[i]).score_eq(
                #[trigger] spec_rank(s)[j],
            ) ==> spec_rank(s)[i].pos < spec_rank(s)[j].pos,
{
    lemma_rank_contents(s);
    lemma_rank_sorted(s);
    let r = spec_rank(s);
    assert forall|i: int, j: int| 0 <= i < j < s.len() implies !(#[trigger] r[i]).score_lt(
        #[trigger] r[j],
    ) && (r[i].score_eq(r[j]) ==> r[i].pos < r[j].pos) by {
        assert(precedes(r[i], r[j]));
    }
}

/// The first position in a ranked vector whose element `x` precedes.
fn find_pos(v: &Vec<RankedItem>, x: &RankedItem) -> (j: usize)
    requires
        all_wf(v@),
        x.wf(),
    ensures
        j <= v@.len(),
        forall|k: int| 0 <= k < j ==> !precedes(*x, #[trigger] v@[k]),
        j < v@.len() ==> precedes(*x, v@[j as int]),
{
    let n = v.len();
    let mut j: usize = 0;
    while j < n
        invariant
            n == v@.len(),
            j <= n,
            all_wf(v@),
            x.wf(),
            forall|k: int| 0 <= k < j ==> !precedes(*x, #[trigger] v@[k]),
        decreases n - j,
    {
        if ranked_precedes(x, &v[j]) {
            return j;
        }
        j += 1;
    }
    j
}

/// Insert one scored item into an already ranked vector.
fn insert_ranked(v: &mut Vec<RankedItem>, x: RankedItem)
    requires
        all_wf(old(v)@),
        x.wf(),
    ensures
        final(v)@ == spec_insert(old(v)@, x),
{
    let j = find_pos(v, &x);
    proof {
        lemma_insert_at(v@, x, j as int);
    }
    v.insert(j, x);
}

/// Sort a vector of scored items, stably, descending by score.
pub fn sort_ranked(items: Vec<RankedItem>) -> (r: Vec<RankedItem>)
    requires
        all_wf(items@),
    ensures
        r@ == spec_rank(items@),
{
    let ghost orig = items@;
    let mut src = items;
    let mut out: Vec<RankedItem> = Vec::new();
    while src.len() > 0
        invariant
            all_wf(orig),
            out@.len() + src@.len() == orig.len(),
            src@ == orig.skip(out@.len() as int),
            out@ == spec_rank(orig.take(out@.len() as int)),
            all_wf(out@),
        decreases src@.len(),
    {
        let ghost k = out@.len() as int;
        let x = src.remove(0);
        proof {
            assert(x == orig[k]);
            assert(x.wf());
        }
        insert_ranked(&mut out, x);
        proof {
            assert(orig.take(k + 1).drop_last() =~= orig.take(k));
            assert(orig.take(k + 1).last() == orig[k]);
            lemma_insert_contents(spec_rank(orig.take(k)), x);
            lemma_rank_contents(orig.take(k));
            assert forall|i: int| 0 <= i < out@.len() implies (#[trigger] out@[i]).wf() by {
                let e = out@[i];
                assert(out@.contains(e)) by {
                    assert(out@[i] == e);
                }
                if e != x {
                    assert(spec_rank(orig.take(k)).contains(e));
                    assert(orig.take(k).contains(e));
                    let m = choose|m: int|
                        0 <= m < orig.take(k).len() && orig.take(k)[m] == e;
                    assert(orig[m] == e);
                }
            }
            assert(src@ =~= orig.skip(out@.len() as int));
        }
    }
    proof {
        assert(orig.take(orig.len() as int) =~= orig);
    }
    out
}


/// The scored, indexed form of a list of candidates: the element at `i`
/// carries the item, its fan-out position `i`, and the exact final score
/// computed from the item's layer, its raw score and its history count.
pub open spec fn ranked_indexing(rk: Seq<RankedItem>, items: Seq<SearchItem>, counts: Seq<u32>) -> bool {
    &&& rk.len() == items.len()
    &&& counts.len() == items.len()
    &&& forall|i: int|
        0 <= i < rk.len() ==> {
            &&& (#[trigger] rk[i]).item == items[i]
            &&& rk[i].pos == i
            &&& rk[i].wf()
            &&& rk[i].num as int == combined_num(
                items[i].layer.spec_weight(),
                clamp_raw(items[i].score as int),
                counts[i] as int,
            )
            &&& rk[i].den as int == final_den(
                clamp_raw(items[i].score as int),
                counts[i] as int,
            )
        }
}

/// An indexed sequence is well formed and carries distinct positions, so
/// the ranking law applies to everything `rank_items` reports.
pub proof fn lemma_indexing_ranks(rk: Seq<RankedItem>, items: Seq<SearchItem>, counts: Seq<u32>)
    requires
        ranked_indexing(rk, items, counts),
    ensures
        all_wf(rk),
        distinct_pos(rk),
        spec_rank(rk).len() == rk.len(),
        spec_rank(rk).to_multiset() == rk.to_multiset(),
        forall|i: int, j: int|
            0 <= i < j < rk.len() ==> !(#[trigger] spec_rank(rk)[i]).score_lt(
                #[trigger] spec_rank(rk)[j],
            ),
        forall|i: int, j: int|
            0 <= i < j < rk.len() && (#[trigger] spec_rank(rk)[i]).score_eq(
                #[trigger] spec_rank(rk)[j],
            ) ==> spec_rank(rk)[i].pos < spec_rank(rk)[j].pos,
{
    lemma_rank_stable(rk);
}

/// The first `cap` items of a ranked sequence, as items.
pub open spec fn ranked_items_of(s: Seq<RankedItem>, cap: int) -> Seq<SearchItem> {
    (if cap < s.len() {
        s.take(cap)
    } else {
        s
    }).map_values(|r: RankedItem| r.item)
}

/// Score, rank and truncate a list of candidates: item `i` is scored with
/// history count `counts[i]`, the list is sorted by final score, descending
/// and stable in the fan-out order, and the first `cap` items come back.
pub fn rank_items(items: Vec<SearchItem>, counts: &Vec<u32>, cap: usize) -> (r: Vec<SearchItem>)
    requires
        counts@.len() == items@.len(),
    ensures
        exists|rk: Seq<RankedItem>|
            #[trigger] ranked_indexing(rk, items@, counts@) && r@ == ranked_items_of(
                spec_rank(rk),
                cap as int,
            ),
{
    let ghost orig = items@;
    let n = counts.len();
    let mut src = items;
    let mut rk: Vec<RankedItem> = Vec::new();
    let mut i: usize = 0;
    while src.len() > 0
        invariant
            n == orig.len(),
            i + src@.len() == orig.len(),
            src@ == orig.skip(i as int),
            counts@.len() == orig.len(),
            i == rk@.len(),
            forall|k: int|
                0 <= k < i ==> {
                    &&& (#[trigger] rk@[k]).item == orig[k]
                    &&& rk@[k].pos == k
                    &&& rk@[k].wf()
                    &&& rk@[k].num as int == combined_num(
                        orig[k].layer.spec_weight(),
                        clamp_raw(orig[k].score as int),
                        counts@[k] as int,
                    )
                    &&& rk@[k].den as int == final_den(
                        clamp_raw(orig[k].score as int),
                        counts@[k] as int,
                    )
                },
        decreases src@.len(),
    {
        let x = src.remove(0);
        proof {
            assert(x == orig[i as int]);
            assert(src@ =~= orig.skip(i + 1));
        }
        let c = counts[i];
        let sc = final_score(x.layer, x.score, c);
        rk.push(RankedItem { item: x, num: sc.num, den: sc.den, pos: i });
        i += 1;
    }
    let ghost rkv = rk@;
    proof {
        assert(ranked_indexing(rkv, orig, counts@));
        assert(all_wf(rkv));
    }
    let mut sorted = sort_ranked(rk);
    if cap < sorted.len() {
        sorted.truncate(cap);
        proof {
            assert(sorted@ == spec_rank(rkv).take(cap as int)) by {
                assert(spec_rank(rkv).subrange(0, cap as int) =~= spec_rank(rkv).take(cap as int));
            }
        }
    }
    let ghost strunc = sorted@;
    let total = sorted.len();
    let mut out: Vec<SearchItem> = Vec::new();
    let mut j: usize = 0;
    proof {
        assert(out@ =~= strunc.take(0).map_values(|r: RankedItem| r.item));
    }
    while sorted.len() > 0
        invariant
            total == strunc.len(),
            j + sorted@.len() == strunc.len(),
            sorted@ == strunc.skip(j as int),
            out@ == strunc.take(j as int).map_values(|r: RankedItem| r.item),
        decreases sorted@.len(),
    {
        let e = sorted.remove(0);
        proof {
            assert(e == strunc[j as int]);
            assert(sorted@ =~= strunc.skip(j + 1));
        }
        out.push(e.item);
        j += 1;
        proof {
            assert(strunc.take(j as int).map_values(|r: RankedItem| r.item) =~= strunc.take(
                j - 1,
            ).map_values(|r: RankedItem| r.item).push(strunc[j - 1].item));
        }
    }
    proof {
        assert(strunc.take(strunc.len() as int) =~= strunc);
        assert(out@ =~= ranked_items_of(spec_rank(rkv), cap as int));
    }
    out
}

} // verus!

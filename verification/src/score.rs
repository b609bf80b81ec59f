//! The score-blending algorithm.
//!
//! A candidate item starts from three signals: the raw relevance score `s`
//! handed back by the matcher, the usage-history count `h`, and the layer
//! weight `w` of the item's priority band. They blend as
//!
//! ```text
//! relative    = 1 - 1/(s/10 + 1)          s in [0, oo) -> [0, 1)
//! historyTerm = 1 - 1/(h/50 + 1)          h in [0, oo) -> [0, 1)
//! combined    = min(w + relative + historyTerm, 3)
//! finalScore  = combined / 3
//! ```
//!
//! Both saturating terms are rationals, so `finalScore` is the exact rational
//!
//! ```text
//! finalScore = min(w*(s+10)*(h+50) + s*(h+50) + h*(s+10), 3*(s+10)*(h+50))
//!              -----------------------------------------------------------
//!                                3*(s+10)*(h+50)
//! ```
//!
//! and this module computes that numerator and denominator exactly in `u128`
//! (they stay below 2^99) instead of approximating in floating point, and
//! compares two scores exactly with a Euclidean fraction comparison.
use crate::model::ItemLayer;
use vstd::arithmetic::div_mod::lemma_fundamental_div_mod;
use vstd::prelude::*;

verus! {

/// Raw relevance below zero carries no relevance signal: the saturating map
/// is only defined on `[0, oo)`, so negative raw scores are treated as zero.
pub open spec fn clamp_raw(s: int) -> int {
    if s < 0 {
        0
    } else {
        s
    }
}

/// Common denominator of the two saturating terms for raw score `s` and
/// history count `h`.
pub open spec fn term_den(s: int, h: int) -> int {
    (s + 10) * (h + 50)
}

/// Numerator of `w + relative + historyTerm` over `term_den(s, h)`,
/// before the cap at 3.
pub open spec fn blend_num(w: int, s: int, h: int) -> int {
    w * ((s + 10) * (h + 50)) + s * (h + 50) + h * (s + 10)
}

/// Numerator of `combined = min(w + relative + historyTerm, 3)` over
/// `term_den(s, h)`.
pub open spec fn combined_num(w: int, s: int, h: int) -> int {
    if blend_num(w, s, h) > 3 * term_den(s, h) {
        3 * term_den(s, h)
    } else {
        blend_num(w, s, h)
    }
}

/// Denominator of `finalScore = combined / 3`.
pub open spec fn final_den(s: int, h: int) -> int {
    3 * term_den(s, h)
}

/// A final score, held exactly as the fraction `num / den`.
pub struct Score {
    pub num: u128,
    pub den: u128,
}

impl Score {
    /// The fraction is well formed: a positive denominator, and a value
    /// inside `[0, 1]`.
    pub open spec fn wf(self) -> bool {
        0 < self.den && self.num <= self.den
    }

    /// `self` and `other` denote the same rational.
    pub open spec fn spec_eq(self, other: Score) -> bool {
        self.num * other.den == other.num * self.den
    }

    /// `self` denotes a strictly smaller rational than `other`.
    pub open spec fn spec_lt(self, other: Score) -> bool {
        self.num * other.den < other.num * self.den
    }

    /// This score is the final score of an item with layer weight `w`, raw
    /// relevance `s` and history count `h`.
    pub open spec fn is_final_score_of(self, w: int, s: int, h: int) -> bool {
        self.num == combined_num(w, clamp_raw(s), h) && self.den == final_den(clamp_raw(s), h)
    }
}

/// Outcome of an exact comparison of two scores.
#[derive(Debug, Clone, Copy, PartialEq, Eq, Structural)]
pub enum ScoreCmp {
    Smaller,
    Same,
    Larger,
}

/// `finalScore` for an item of layer `layer` with raw relevance `raw` and
/// usage-history count `history`, as an exact rational.
pub fn final_score(layer: ItemLayer, raw: i64, history: u32) -> (sc: Score)
    ensures
        sc.is_final_score_of(layer.spec_weight(), raw as int, history as int),
        sc.wf(),
{
    let w: u128 = layer.weight() as u128;
    let s: u128 = if raw < 0 {
        0
    } else {
        raw as u128
    };
    let h: u128 = history as u128;
    proof {
        assert(s <= 0x8000_0000_0000_0000);
        assert(h <= 0x1_0000_0000);
        assert((s + 10) * (h + 50) <= 0x8000_0000_0000_000a * 0x1_0000_0032) by (nonlinear_arith)
            requires
                s <= 0x8000_0000_0000_0000,
                h <= 0x1_0000_0000,
        ;
        assert(w * ((s + 10) * (h + 50)) <= 2 * ((s + 10) * (h + 50))) by (nonlinear_arith)
            requires
                w <= 2,
                0 <= (s + 10) * (h + 50),
        ;
        assert(s * (h + 50) <= (s + 10) * (h + 50) && h * (s + 10) <= (h + 50) * (s + 10))
            by (nonlinear_arith)
            requires
                0 <= s,
                0 <= h,
        ;
    }
    let sd: u128 = s + 10;
    let hd: u128 = h + 50;
    let den_term: u128 = sd * hd;
    let blended: u128 = w * den_term + s * hd + h * sd;
    let cap: u128 = 3 * den_term;
    let num: u128 = if blended > cap {
        cap
    } else {
        blended
    };
    proof {
        assert(den_term > 0) by (nonlinear_arith)
            requires
                den_term == (s + 10) * (h + 50),
                s >= 0,
                h >= 0,
        ;
        assert(h * sd == h * (s + 10));
    }
    Score { num, den: cap }
}

/// Exact comparison of the rationals `n1/d1` and `n2/d2`, by the Euclidean
/// method: compare the integer parts, then recurse on the reciprocals of the
/// fractional parts. Never overflows, whatever the operands.
pub fn cmp_frac(n1: u128, d1: u128, n2: u128, d2: u128) -> (r: ScoreCmp)
    requires
        d1 > 0,
        d2 > 0,
    ensures
        (r == ScoreCmp::Smaller <==> n1 * d2 < n2 * d1),
        (r == ScoreCmp::Same <==> n1 * d2 == n2 * d1),
        (r == ScoreCmp::Larger <==> n1 * d2 > n2 * d1),
    decreases d1 + d2,
{
    let q1 = n1 / d1;
    let r1 = n1 % d1;
    let q2 = n2 / d2;
    let r2 = n2 % d2;
    proof {
        lemma_fundamental_div_mod(n1 as int, d1 as int);
        lemma_fundamental_div_mod(n2 as int, d2 as int);
        lemma_cross_of_parts(n1 as int, d1 as int, q1 as int, r1 as int, n2 as int, d2 as int, q2 as int, r2 as int);
    }
    if q1 < q2 {
        proof {
            assert(n1 * d2 < n2 * d1);
        }
        ScoreCmp::Smaller
    } else if q2 < q1 {
        proof {
            assert(n1 * d2 > n2 * d1);
        }
        ScoreCmp::Larger
    } else if r1 == 0 && r2 == 0 {
        proof {
            assert(r1 * d2 == 0 && r2 * d1 == 0) by (nonlinear_arith)
                requires
                    r1 == 0,
                    r2 == 0,
            ;
            assert(n1 * d2 == n2 * d1);
        }
        ScoreCmp::Same
    } else if r1 == 0 {
        proof {
            assert(r1 * d2 == 0 && r2 * d1 > 0) by (nonlinear_arith)
                requires
                    r1 == 0,
                    r2 > 0,
                    d1 > 0,
            ;
            assert(n1 * d2 < n2 * d1);
        }
        ScoreCmp::Smaller
    } else if r2 == 0 {
        proof {
            assert(r2 * d1 == 0 && r1 * d2 > 0) by (nonlinear_arith)
                requires
                    r2 == 0,
                    r1 > 0,
                    d2 > 0,
            ;
            assert(n1 * d2 > n2 * d1);
        }
        ScoreCmp::Larger
    } else {
        // r1/d1 versus r2/d2 is d2/r2 versus d1/r1, reversed.
        let sub = cmp_frac(d1, r1, d2, r2);
        proof {
            assert(d1 as int * r2 as int == r2 as int * d1 as int) by (nonlinear_arith);
            assert(d2 as int * r1 as int == r1 as int * d2 as int) by (nonlinear_arith);
            assert(n1 * d2 - n2 * d1 == r1 * d2 - r2 * d1);
        }
        match sub {
            ScoreCmp::Smaller => {
                proof {
                    assert(d1 * r2 < d2 * r1);
                    assert(n1 * d2 > n2 * d1);
                }
                ScoreCmp::Larger
            },
            ScoreCmp::Same => {
                proof {
                    assert(d1 * r2 == d2 * r1);
                    assert(n1 * d2 == n2 * d1);
                }
                ScoreCmp::Same
            },
            ScoreCmp::Larger => {
                proof {
                    assert(d1 * r2 > d2 * r1);
                    assert(n1 * d2 < n2 * d1);
                }
                ScoreCmp::Smaller
            },
        }
    }
}

/// With `n = q*d + r` on both sides and equal quotients, the cross products
/// differ exactly as the cross products of the remainders; with a smaller
/// quotient on the left, the left cross product is strictly smaller.
proof fn lemma_cross_of_parts(n1: int, d1: int, q1: int, r1: int, n2: int, d2: int, q2: int, r2: int)
    requires
        d1 > 0,
        d2 > 0,
        n1 == q1 * d1 + r1,
        n2 == q2 * d2 + r2,
        0 <= r1 < d1,
        0 <= r2 < d2,
    ensures
        q1 == q2 ==> n1 * d2 - n2 * d1 == r1 * d2 - r2 * d1,
        q1 < q2 ==> n1 * d2 < n2 * d1,
        q2 < q1 ==> n2 * d1 < n1 * d2,
{
    assert(n1 * d2 == q1 * (d1 * d2) + r1 * d2) by (nonlinear_arith)
        requires
            n1 == q1 * d1 + r1,
    ;
    assert(n2 * d1 == q2 * (d1 * d2) + r2 * d1) by (nonlinear_arith)
        requires
            n2 == q2 * d2 + r2,
    ;
    if q1 < q2 {
        assert(q1 * (d1 * d2) + r1 * d2 < q2 * (d1 * d2) + r2 * d1) by (nonlinear_arith)
            requires
                q1 < q2,
                d1 > 0,
                d2 > 0,
                0 <= r1 < d1,
                0 <= r2 < d2,
        ;
    }
    if q2 < q1 {
        assert(q2 * (d1 * d2) + r2 * d1 < q1 * (d1 * d2) + r1 * d2) by (nonlinear_arith)
            requires
                q2 < q1,
                d1 > 0,
                d2 > 0,
                0 <= r1 < d1,
                0 <= r2 < d2,
        ;
    }
}

/// The final score always lies in `[0, 1]` — equivalently, `combined` never
/// exceeds 3 — and it is zero only for a Bottom-layer item with zero raw
/// relevance and zero history.
pub proof fn lemma_score_bounds(w: int, s: int, h: int)
    requires
        0 <= w <= 2,
        0 <= s,
        0 <= h,
    ensures
        0 <= combined_num(w, s, h) <= final_den(s, h),
        combined_num(w, s, h) <= 3 * term_den(s, h),
        w > 0 || s > 0 || h > 0 ==> combined_num(w, s, h) > 0,
{
    assert(term_den(s, h) > 0) by (nonlinear_arith)
        requires
            0 <= s,
            0 <= h,
    ;
    assert(w * ((s + 10) * (h + 50)) >= 0 && s * (h + 50) >= 0 && h * (s + 10) >= 0)
        by (nonlinear_arith)
        requires
            0 <= w,
            0 <= s,
            0 <= h,
    ;
    if w > 0 {
        assert(w * ((s + 10) * (h + 50)) > 0) by (nonlinear_arith)
            requires
                w > 0,
                (s + 10) * (h + 50) > 0,
        ;
    }
    if s > 0 {
        assert(s * (h + 50) > 0) by (nonlinear_arith)
            requires
                s > 0,
                h >= 0,
        ;
    }
    if h > 0 {
        assert(h * (s + 10) > 0) by (nonlinear_arith)
            requires
                h > 0,
                s >= 0,
        ;
    }
}

/// At equal layer and history, a strictly larger raw relevance gives a
/// strictly larger final score — as long as the larger input does not hit
/// the cap `combined = 3`, where the blend saturates and the two scores tie.
pub proof fn lemma_score_monotone_in_relevance(w: int, s1: int, s2: int, h: int)
    requires
        0 <= w <= 2,
        0 <= s1 < s2,
        0 <= h,
        blend_num(w, s2, h) <= 3 * term_den(s2, h),
    ensures
        combined_num(w, s1, h) * final_den(s2, h) < combined_num(w, s2, h) * final_den(s1, h),
{
    let b1 = blend_num(w, s1, h);
    let b2 = blend_num(w, s2, h);
    let d1 = term_den(s1, h);
    let d2 = term_den(s2, h);
    assert(d1 > 0 && d2 > 0) by (nonlinear_arith)
        requires
            0 <= s1,
            0 <= s2,
            0 <= h,
            d1 == term_den(s1, h),
            d2 == term_den(s2, h),
    ;
    let hh = h + 50;
    assert(b2 * d1 == w * (d2 * d1) + (s2 * hh) * d1 + (h * (s2 + 10)) * d1) by (nonlinear_arith)
        requires
            b2 == w * d2 + s2 * hh + h * (s2 + 10),
    ;
    assert(b1 * d2 == w * (d1 * d2) + (s1 * hh) * d2 + (h * (s1 + 10)) * d2) by (nonlinear_arith)
        requires
            b1 == w * d1 + s1 * hh + h * (s1 + 10),
    ;
    assert(w * (d2 * d1) == w * (d1 * d2)) by (nonlinear_arith);
    assert((s2 * hh) * d1 - (s1 * hh) * d2 == 10 * (hh * hh) * (s2 - s1)) by (nonlinear_arith)
        requires
            d1 == (s1 + 10) * hh,
            d2 == (s2 + 10) * hh,
    ;
    assert((h * (s2 + 10)) * d1 == (h * (s1 + 10)) * d2) by (nonlinear_arith)
        requires
            d1 == (s1 + 10) * hh,
            d2 == (s2 + 10) * hh,
    ;
    assert(b2 * d1 - b1 * d2 == 10 * ((h + 50) * (h + 50)) * (s2 - s1));
    assert(10 * ((h + 50) * (h + 50)) * (s2 - s1) > 0) by (nonlinear_arith)
        requires
            0 <= h,
            s1 < s2,
    ;
    // The smaller side cannot be capped when the larger one is not.
    assert(b1 * d2 < b2 * d1 && b2 * d1 <= (3 * d2) * d1 ==> b1 < 3 * d1) by (nonlinear_arith)
        requires
            d1 > 0,
            d2 > 0,
    ;
    assert(b2 * d1 <= (3 * d2) * d1) by (nonlinear_arith)
        requires
            b2 <= 3 * d2,
            d1 > 0,
    ;
    assert(combined_num(w, s1, h) == b1 && combined_num(w, s2, h) == b2);
    assert(b1 * (3 * d2) < b2 * (3 * d1)) by (nonlinear_arith)
        requires
            b1 * d2 < b2 * d1,
    ;
}

/// At equal layer and raw relevance, a strictly larger history count gives a
/// strictly larger final score — as long as the larger input does not hit
/// the cap `combined = 3`, where the blend saturates and the two scores tie.
pub proof fn lemma_score_monotone_in_history(w: int, s: int, h1: int, h2: int)
    requires
        0 <= w <= 2,
        0 <= s,
        0 <= h1 < h2,
        blend_num(w, s, h2) <= 3 * term_den(s, h2),
    ensures
        combined_num(w, s, h1) * final_den(s, h2) < combined_num(w, s, h2) * final_den(s, h1),
{
    let b1 = blend_num(w, s, h1);
    let b2 = blend_num(w, s, h2);
    let d1 = term_den(s, h1);
    let d2 = term_den(s, h2);
    assert(d1 > 0 && d2 > 0) by (nonlinear_arith)
        requires
            0 <= s,
            0 <= h1,
            0 <= h2,
            d1 == term_den(s, h1),
            d2 == term_den(s, h2),
    ;
    let ss = s + 10;
    assert(b2 * d1 == w * (d2 * d1) + (s * (h2 + 50)) * d1 + (h2 * ss) * d1) by (nonlinear_arith)
        requires
            b2 == w * d2 + s * (h2 + 50) + h2 * ss,
    ;
    assert(b1 * d2 == w * (d1 * d2) + (s * (h1 + 50)) * d2 + (h1 * ss) * d2) by (nonlinear_arith)
        requires
            b1 == w * d1 + s * (h1 + 50) + h1 * ss,
    ;
    assert(w * (d2 * d1) == w * (d1 * d2)) by (nonlinear_arith);
    assert((s * (h2 + 50)) * d1 == (s * (h1 + 50)) * d2) by (nonlinear_arith)
        requires
            d1 == ss * (h1 + 50),
            d2 == ss * (h2 + 50),
    ;
    assert((h2 * ss) * d1 - (h1 * ss) * d2 == 50 * (ss * ss) * (h2 - h1)) by (nonlinear_arith)
        requires
            d1 == ss * (h1 + 50),
            d2 == ss * (h2 + 50),
    ;
    assert(b2 * d1 - b1 * d2 == 50 * ((s + 10) * (s + 10)) * (h2 - h1));
    assert(50 * ((s + 10) * (s + 10)) * (h2 - h1) > 0) by (nonlinear_arith)
        requires
            0 <= s,
            h1 < h2,
    ;
    assert(b1 * d2 < b2 * d1 && b2 * d1 <= (3 * d2) * d1 ==> b1 < 3 * d1) by (nonlinear_arith)
        requires
            d1 > 0,
            d2 > 0,
    ;
    assert(b2 * d1 <= (3 * d2) * d1) by (nonlinear_arith)
        requires
            b2 <= 3 * d2,
            d1 > 0,
    ;
    assert(combined_num(w, s, h1) == b1 && combined_num(w, s, h2) == b2);
    assert(b1 * (3 * d2) < b2 * (3 * d1)) by (nonlinear_arith)
        requires
            b1 * d2 < b2 * d1,
    ;
}

/// Exact comparison of two final scores.
pub fn cmp_scores(a: &Score, b: &Score) -> (r: ScoreCmp)
    requires
        a.wf(),
        b.wf(),
    ensures
        (r == ScoreCmp::Smaller <==> a.spec_lt(*b)),
        (r == ScoreCmp::Same <==> a.spec_eq(*b)),
        (r == ScoreCmp::Larger <==> b.spec_lt(*a)),
{
    cmp_frac(a.num, a.den, b.num, b.den)
}

} // verus!

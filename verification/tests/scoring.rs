use launcher::{cmp_frac, cmp_scores, final_score, ItemLayer, ScoreCmp};

/// The worked end-to-end ranking example: `A` (Top, raw 0), `B` (Middle,
/// raw 100), `C` (Bottom, raw 100), all with no history, order `A, B, C`.
#[test]
fn layer_dominates_low_relevance() {
    let a = final_score(ItemLayer::Top, 0, 0);
    let b = final_score(ItemLayer::Middle, 100, 0);
    let c = final_score(ItemLayer::Bottom, 100, 0);
    // Exact values straight from the formula, not an approximation:
    // A: (2 + 0 + 0) / 3      = 1000 / 1500        = 2/3
    // B: (1 + 100/110 + 0) /3 = 10500 / 16500      = 7/11
    // C: (0 + 100/110 + 0) /3 = 5000 / 16500       = 10/33
    assert_eq!(a.num, 1000);
    assert_eq!(a.den, 1500);
    assert_eq!(b.num, 10500);
    assert_eq!(b.den, 16500);
    assert_eq!(c.num, 5000);
    assert_eq!(c.den, 16500);
    assert!(matches!(cmp_scores(&a, &b), ScoreCmp::Larger));
    assert!(matches!(cmp_scores(&b, &c), ScoreCmp::Larger));
    assert!(matches!(cmp_scores(&a, &c), ScoreCmp::Larger));
}

#[test]
fn relevance_is_monotonic() {
    let low = final_score(ItemLayer::Middle, 10, 7);
    let high = final_score(ItemLayer::Middle, 20, 7);
    assert!(matches!(cmp_scores(&low, &high), ScoreCmp::Smaller));
}

#[test]
fn history_is_monotonic() {
    let low = final_score(ItemLayer::Middle, 10, 0);
    let high = final_score(ItemLayer::Middle, 10, 50);
    assert!(matches!(cmp_scores(&low, &high), ScoreCmp::Smaller));
}

#[test]
fn combined_caps_at_three() {
    // A Top item with overwhelming relevance and history saturates at
    // combined = 3, so the final score is exactly 1.
    let sc = final_score(ItemLayer::Top, i64::MAX, u32::MAX);
    assert_eq!(sc.num, sc.den);
    // Two saturated scores tie, whatever their raw inputs.
    let other = final_score(ItemLayer::Top, 1_000_000, u32::MAX);
    assert!(matches!(cmp_scores(&sc, &other), ScoreCmp::Same));
}

#[test]
fn final_score_stays_in_unit_interval() {
    let cases: [(ItemLayer, i64, u32); 6] = [
        (ItemLayer::Bottom, 0, 0),
        (ItemLayer::Bottom, 1, 0),
        (ItemLayer::Middle, 0, 1),
        (ItemLayer::Top, 123456, 42),
        (ItemLayer::Top, i64::MAX, 0),
        (ItemLayer::Bottom, i64::MAX, u32::MAX),
    ];
    for (layer, raw, h) in cases {
        let sc = final_score(layer, raw, h);
        assert!(sc.num <= sc.den);
        assert!(sc.den > 0);
    }
    // Zero only for a Bottom item with no relevance and no history.
    assert_eq!(final_score(ItemLayer::Bottom, 0, 0).num, 0);
    assert!(final_score(ItemLayer::Bottom, 1, 0).num > 0);
    assert!(final_score(ItemLayer::Bottom, 0, 1).num > 0);
    assert!(final_score(ItemLayer::Middle, 0, 0).num > 0);
}

#[test]
fn negative_raw_scores_count_as_zero() {
    let neg = final_score(ItemLayer::Middle, -25, 3);
    let zero = final_score(ItemLayer::Middle, 0, 3);
    assert!(matches!(cmp_scores(&neg, &zero), ScoreCmp::Same));
    assert_eq!(neg.num, zero.num);
    assert_eq!(neg.den, zero.den);
}

#[test]
fn exact_fraction_comparison() {
    assert!(matches!(cmp_frac(1, 2, 2, 4), ScoreCmp::Same));
    assert!(matches!(cmp_frac(1, 3, 1, 2), ScoreCmp::Smaller));
    assert!(matches!(cmp_frac(7, 11, 2, 3), ScoreCmp::Smaller));
    assert!(matches!(cmp_frac(u128::MAX, u128::MAX - 1, 1, 1), ScoreCmp::Larger));
}

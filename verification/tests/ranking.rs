use launcher::{rank_items, sort_ranked, ItemLayer, RankedItem, SearchItem, SelectAction};

fn item(id: &str, raw: i64) -> SearchItem {
    SearchItem {
        id: id.to_string(),
        title: None,
        subtitle: None,
        icon: None,
        image: None,
        score: raw,
        action: SelectAction::Noop,
        layer: ItemLayer::Middle,
        source: "stdin".to_string(),
    }
}

/// Sorting is descending in the score and stable: items with equal scores
/// keep their fan-out order.
#[test]
fn sort_is_descending_and_stable() {
    let ranked = vec![
        RankedItem { item: item("half-early", 0), num: 1, den: 2, pos: 0 },
        RankedItem { item: item("two-thirds", 0), num: 2, den: 3, pos: 1 },
        RankedItem { item: item("half-late", 0), num: 2, den: 4, pos: 2 },
        RankedItem { item: item("tenth", 0), num: 1, den: 10, pos: 3 },
    ];
    let sorted = sort_ranked(ranked);
    let order: Vec<&str> = sorted.iter().map(|r| r.item.id.as_str()).collect();
    // 2/3 first; then the two equal halves in their original order (2/4 is
    // the same rational as 1/2); then 1/10.
    assert_eq!(order, vec!["two-thirds", "half-early", "half-late", "tenth"]);
}

/// Ranking scores the items from raw score and history count, sorts, and
/// truncates to the cap.
#[test]
fn rank_items_scores_and_truncates() {
    let items = vec![item("low", 1), item("high", 1000), item("mid", 30)];
    let counts = vec![0u32, 0, 0];
    let top_two = rank_items(items, &counts, 2);
    let order: Vec<&str> = top_two.iter().map(|r| r.id.as_str()).collect();
    assert_eq!(order, vec!["high", "mid"]);
}

use launcher::{History, RETENTION_SECONDS};

/// Recording a selection makes its count positive.
#[test]
fn record_then_count() {
    let mut ledger = History::new_in_memory().unwrap();
    assert_eq!(ledger.get("item-a"), 0);
    ledger.add("item-a", 1_000_000).unwrap();
    assert!(ledger.get("item-a") >= 1);
    assert_eq!(ledger.get("item-a"), 1);
}

#[test]
fn counts_reflect_frequency() {
    let mut ledger = History::new_in_memory().unwrap();
    ledger.add("often", 1_000).unwrap();
    ledger.add("often", 2_000).unwrap();
    ledger.add("often", 3_000).unwrap();
    ledger.add("rare", 3_000).unwrap();
    assert_eq!(ledger.get("often"), 3);
    assert_eq!(ledger.get("rare"), 1);
    assert_eq!(ledger.get("never"), 0);
}

/// After thirty-one days with no further writes, a write for another
/// identity prunes the first identity's facts.
#[test]
fn thirty_one_days_prune_old_facts() {
    let mut ledger = History::new_in_memory().unwrap();
    let t0: i64 = 1_000_000;
    ledger.add("old-item", t0).unwrap();
    assert_eq!(ledger.get("old-item"), 1);
    let t1 = t0 + 31 * 24 * 60 * 60;
    ledger.add("new-item", t1).unwrap();
    assert_eq!(ledger.get("old-item"), 0);
    assert_eq!(ledger.get("new-item"), 1);
}

#[test]
fn facts_inside_the_window_survive() {
    let mut ledger = History::new_in_memory().unwrap();
    let t0: i64 = 1_000_000;
    ledger.add("kept", t0).unwrap();
    // Twenty-nine days later the fact is still inside the window.
    let t1 = t0 + 29 * 24 * 60 * 60;
    ledger.add("other", t1).unwrap();
    assert_eq!(ledger.get("kept"), 1);
}

#[test]
fn retention_window_is_thirty_days() {
    assert_eq!(RETENTION_SECONDS, 30 * 24 * 60 * 60);
}

#[test]
fn explicit_prune_drops_only_aged_facts() {
    let mut ledger = History::new_in_memory().unwrap();
    ledger.add("a", 1_000).unwrap();
    let later = 1_000 + RETENTION_SECONDS + 1;
    ledger.prune_old(later).unwrap();
    assert_eq!(ledger.get("a"), 0);
}

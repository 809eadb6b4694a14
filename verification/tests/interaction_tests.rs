use iced_aksel::interaction::{Interaction, InteractionsCache};

#[test]
fn interaction_defaults_to_lowest_priority() {
    let i = Interaction::new(5, "area");
    assert_eq!(i.id, 5);
    assert_eq!(i.priority, 255);
    assert_eq!(i.area, "area");
    let i = i.priority(0);
    assert_eq!(i.priority, 0);
    assert_eq!(i.id, 5);
}

#[test]
fn registry_keeps_registration_order_and_one_entry_per_id() {
    let mut cache = InteractionsCache::new();
    cache.insert(10, 4);
    cache.insert(20, 2);
    cache.insert(10, 1);
    assert_eq!(cache.len(), 2);
    assert_eq!(cache.entry_at(0), Some((10, 1)));
    assert_eq!(cache.entry_at(1), Some((20, 2)));
    assert_eq!(cache.entry_at(2), None);
    assert_eq!(cache.get(10), Some(1));
    assert_eq!(cache.get(30), None);
    cache.clear();
    assert_eq!(cache.len(), 0);
    assert_eq!(cache.get(10), None);
}

#[test]
fn query_lists_hits_topmost_first() {
    let mut cache = InteractionsCache::new();
    cache.insert(1, 9);
    cache.insert(2, 9);
    cache.insert(3, 9);
    cache.insert(4, 9);
    assert_eq!(cache.query(&vec![true, false, true, true]), vec![(4, 9), (3, 9), (1, 9)]);
    // Positions without a hit flag count as missed.
    assert_eq!(cache.query(&vec![true]), vec![(1, 9)]);
}

#[test]
fn prioritized_query_prefers_lowest_value_then_latest() {
    let mut cache = InteractionsCache::new();
    cache.insert(1, 5);
    cache.insert(2, 3);
    cache.insert(3, 3);
    cache.insert(4, 7);
    assert_eq!(cache.query_prioritized(&vec![true, true, true, true]), Some((3, 3)));
    assert_eq!(cache.query_prioritized(&vec![true, true, false, true]), Some((2, 3)));
    assert_eq!(cache.query_prioritized(&vec![true, false, false, true]), Some((1, 5)));
    assert_eq!(cache.query_prioritized(&vec![false, false, false, false]), None);
    assert_eq!(cache.query_prioritized(&vec![]), None);
}

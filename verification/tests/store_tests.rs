use state_cache::ExpiringStore;

fn key(s: &str) -> String {
    String::from(s)
}

#[test]
fn get_on_fresh_store_is_absent() {
    let st = ExpiringStore::new(8, 60);
    assert!(st.get(&key("c1"), &key("balance"), 0).is_none());
    assert_eq!(st.len(), 0);
}

#[test]
fn put_then_get_before_expiry_returns_value() {
    let mut st = ExpiringStore::new(8, 60);
    st.put(&key("c1"), &key("balance"), vec![1, 2, 3], Some(10), 100);
    assert_eq!(st.get(&key("c1"), &key("balance"), 100), Some(&vec![1, 2, 3]));
    assert_eq!(st.get(&key("c1"), &key("balance"), 109), Some(&vec![1, 2, 3]));
}

#[test]
fn put_then_get_at_or_after_expiry_is_absent() {
    let mut st = ExpiringStore::new(8, 60);
    st.put(&key("c1"), &key("balance"), vec![1, 2, 3], Some(10), 100);
    assert!(st.get(&key("c1"), &key("balance"), 110).is_none());
    assert!(st.get(&key("c1"), &key("balance"), 200).is_none());
}

#[test]
fn expired_entry_is_absent_before_physical_purge() {
    let mut st = ExpiringStore::new(8, 60);
    st.put(&key("c1"), &key("balance"), vec![9], Some(5), 0);
    // the entry is still resident, but a read at its expiry sees nothing
    assert_eq!(st.len(), 1);
    assert!(st.get(&key("c1"), &key("balance"), 5).is_none());
}

#[test]
fn invalidate_then_get_is_absent() {
    let mut st = ExpiringStore::new(8, 60);
    st.put(&key("c1"), &key("balance"), vec![4], None, 0);
    st.invalidate(&key("c1"), &key("balance"));
    assert!(st.get(&key("c1"), &key("balance"), 1).is_none());
    assert_eq!(st.len(), 0);
}

#[test]
fn invalidate_is_idempotent_and_ignores_absent_keys() {
    let mut st = ExpiringStore::new(8, 60);
    st.put(&key("c1"), &key("balance"), vec![4], None, 0);
    st.invalidate(&key("c1"), &key("nonce"));
    assert_eq!(st.len(), 1);
    st.invalidate(&key("c1"), &key("balance"));
    st.invalidate(&key("c1"), &key("balance"));
    assert_eq!(st.len(), 0);
}

#[test]
fn default_ttl_applies_when_no_ttl_is_named() {
    let mut st = ExpiringStore::new(8, 60);
    st.put(&key("c1"), &key("balance"), vec![4], None, 100);
    assert!(st.get(&key("c1"), &key("balance"), 159).is_some());
    assert!(st.get(&key("c1"), &key("balance"), 160).is_none());
}

#[test]
fn capacity_plus_one_distinct_keys_leave_at_most_capacity() {
    let mut st = ExpiringStore::new(3, 60);
    st.put(&key("c1"), &key("k1"), vec![1], None, 0);
    st.put(&key("c1"), &key("k2"), vec![2], None, 1);
    st.put(&key("c1"), &key("k3"), vec![3], None, 2);
    st.put(&key("c1"), &key("k4"), vec![4], None, 3);
    assert_eq!(st.len(), 3);
}

#[test]
fn eviction_is_fifo_by_insertion() {
    let mut st = ExpiringStore::new(3, 60);
    st.put(&key("c1"), &key("k1"), vec![1], None, 0);
    st.put(&key("c1"), &key("k2"), vec![2], None, 1);
    st.put(&key("c1"), &key("k3"), vec![3], None, 2);
    st.put(&key("c1"), &key("k4"), vec![4], None, 3);
    // the earliest insertion went; the three newest stay
    assert!(st.get(&key("c1"), &key("k1"), 4).is_none());
    assert_eq!(st.get(&key("c1"), &key("k2"), 4), Some(&vec![2]));
    assert_eq!(st.get(&key("c1"), &key("k3"), 4), Some(&vec![3]));
    assert_eq!(st.get(&key("c1"), &key("k4"), 4), Some(&vec![4]));
}

#[test]
fn overwrite_refreshes_insertion_order() {
    let mut st = ExpiringStore::new(2, 60);
    st.put(&key("c1"), &key("k1"), vec![1], None, 0);
    st.put(&key("c1"), &key("k2"), vec![2], None, 1);
    // overwriting k1 makes it the newest insertion
    st.put(&key("c1"), &key("k1"), vec![9], None, 2);
    st.put(&key("c1"), &key("k3"), vec![3], None, 3);
    // k2, now the oldest, was evicted; refreshed k1 survived
    assert!(st.get(&key("c1"), &key("k2"), 4).is_none());
    assert_eq!(st.get(&key("c1"), &key("k1"), 4), Some(&vec![9]));
    assert_eq!(st.get(&key("c1"), &key("k3"), 4), Some(&vec![3]));
    assert_eq!(st.len(), 2);
}

#[test]
fn overwrite_replaces_value_and_expiry() {
    let mut st = ExpiringStore::new(8, 60);
    st.put(&key("c1"), &key("balance"), vec![1], Some(10), 0);
    st.put(&key("c1"), &key("balance"), vec![2], Some(10), 5);
    assert_eq!(st.len(), 1);
    assert_eq!(st.get(&key("c1"), &key("balance"), 12), Some(&vec![2]));
    assert!(st.get(&key("c1"), &key("balance"), 15).is_none());
}

#[test]
fn zero_capacity_store_holds_nothing_and_does_not_fail() {
    let mut st = ExpiringStore::new(0, 60);
    st.put(&key("c1"), &key("balance"), vec![1], None, 0);
    assert_eq!(st.len(), 0);
    assert!(st.get(&key("c1"), &key("balance"), 0).is_none());
}

#[test]
fn distinct_contracts_do_not_collide_on_equal_state_keys() {
    let mut st = ExpiringStore::new(8, 60);
    st.put(&key("c1"), &key("balance"), vec![1], None, 0);
    st.put(&key("c2"), &key("balance"), vec![2], None, 0);
    assert_eq!(st.get(&key("c1"), &key("balance"), 1), Some(&vec![1]));
    assert_eq!(st.get(&key("c2"), &key("balance"), 1), Some(&vec![2]));
    st.invalidate(&key("c1"), &key("balance"));
    assert!(st.get(&key("c1"), &key("balance"), 1).is_none());
    assert_eq!(st.get(&key("c2"), &key("balance"), 1), Some(&vec![2]));
}

#[test]
fn purge_drops_exactly_the_expired_entries() {
    let mut st = ExpiringStore::new(8, 60);
    st.put(&key("c1"), &key("short"), vec![1], Some(5), 0);
    st.put(&key("c1"), &key("long"), vec![2], Some(50), 0);
    assert_eq!(st.len(), 2);
    st.purge_expired(10);
    assert_eq!(st.len(), 1);
    // reads cannot tell: the expired key was absent before the purge too
    assert!(st.get(&key("c1"), &key("short"), 10).is_none());
    assert_eq!(st.get(&key("c1"), &key("long"), 10), Some(&vec![2]));
}

#[test]
fn purge_frees_room_in_the_capacity_budget() {
    let mut st = ExpiringStore::new(2, 60);
    st.put(&key("c1"), &key("k1"), vec![1], Some(5), 0);
    st.put(&key("c1"), &key("k2"), vec![2], Some(50), 0);
    st.purge_expired(10);
    // the freed slot takes the new key without evicting k2
    st.put(&key("c1"), &key("k3"), vec![3], Some(50), 10);
    assert_eq!(st.get(&key("c1"), &key("k2"), 11), Some(&vec![2]));
    assert_eq!(st.get(&key("c1"), &key("k3"), 11), Some(&vec![3]));
}

#[test]
fn alternating_writes_and_reads_always_see_whole_values() {
    // the sequential shadow of the torn-read property: with every operation
    // linearized, a read sees exactly the payload of the latest put, whole,
    // or nothing — never a mixture of two payloads
    let mut st = ExpiringStore::new(4, 1_000_000);
    let a = vec![0xAAu8; 100];
    let b = vec![0xBBu8; 100];
    for round in 0..1000u64 {
        let payload = if round % 2 == 0 { a.clone() } else { b.clone() };
        st.put(&key("c1"), &key("balance"), payload.clone(), None, round);
        let got = st.get(&key("c1"), &key("balance"), round).expect("a just-put key must hit");
        assert_eq!(got, &payload);
        assert!(got == &a || got == &b);
    }
}

#[test]
fn ttl_saturates_instead_of_wrapping() {
    let mut st = ExpiringStore::new(8, 60);
    st.put(&key("c1"), &key("balance"), vec![1], Some(u64::MAX), 100);
    // now + ttl saturates at u64::MAX, so the entry is live at any instant
    // strictly below it
    assert!(st.get(&key("c1"), &key("balance"), u64::MAX - 1).is_some());
}

use cluster::registry::{RoundRobinDashMap, RoundRobinSet};

#[test]
fn test_round_robin() {
    let mut map = RoundRobinDashMap::new();

    // Insert test data
    map.insert("test".to_string(), 1);
    map.insert("test".to_string(), 2);

    // Test round robin selection
    let first = map.get_round_robin("test");
    let second = map.get_round_robin("test");
    assert!(first.is_some());
    assert!(second.is_some());
    assert_ne!(first, second);
}

#[test]
fn select_on_missing_or_empty_set_is_none() {
    let mut map = RoundRobinDashMap::new();
    assert_eq!(map.get_round_robin("ping"), None);
    map.insert("ping".to_string(), 7);
    assert!(map.remove("ping".to_string(), 7));
    assert!(map.contains_key("ping"));
    assert_eq!(map.get_round_robin("ping"), None);
}

#[test]
fn rotation_follows_set_order_from_counter_zero() {
    let mut map = RoundRobinDashMap::new();
    map.insert("svc".to_string(), 30);
    map.insert("svc".to_string(), 10);
    map.insert("svc".to_string(), 20);
    map.insert("svc".to_string(), 10);
    let picks: Vec<Option<u128>> = (0..5).map(|_| map.get_round_robin("svc")).collect();
    assert_eq!(picks, vec![Some(10), Some(20), Some(30), Some(10), Some(20)]);
}

#[test]
fn three_peers_share_three_hundred_selections_evenly() {
    let mut map = RoundRobinDashMap::new();
    for p in [0x1a2bu128, 0x3c4d, 0x5e6f] {
        map.insert("ping".to_string(), p);
    }
    let mut counts = std::collections::HashMap::new();
    for _ in 0..300 {
        let p = map.get_round_robin("ping").unwrap();
        *counts.entry(p).or_insert(0) += 1;
    }
    assert_eq!(counts.len(), 3);
    for c in counts.values() {
        assert_eq!(*c, 100);
    }
}

#[test]
fn uneven_run_gives_floor_or_ceiling() {
    let mut map = RoundRobinDashMap::new();
    for p in [1u128, 2, 3] {
        map.insert("s".to_string(), p);
    }
    map.get_round_robin("s");
    let mut counts = [0u32; 4];
    for _ in 0..10 {
        counts[map.get_round_robin("s").unwrap() as usize] += 1;
    }
    let mut got: Vec<u32> = counts[1..].to_vec();
    got.sort();
    assert_eq!(got, vec![3, 3, 4]);
}

#[test]
fn removed_peer_is_not_selected_until_reinserted() {
    let mut map = RoundRobinDashMap::new();
    for p in [1u128, 2, 3] {
        map.insert("s".to_string(), p);
    }
    assert!(map.remove("s".to_string(), 2));
    for _ in 0..20 {
        assert_ne!(map.get_round_robin("s"), Some(2));
    }
    map.insert("s".to_string(), 2);
    let seen: Vec<Option<u128>> = (0..3).map(|_| map.get_round_robin("s")).collect();
    assert!(seen.contains(&Some(2)));
}

#[test]
fn remove_of_unknown_peer_reports_false() {
    let mut map = RoundRobinDashMap::new();
    assert!(!map.remove("s".to_string(), 9));
    assert!(!map.contains_key("s"));
    map.insert("s".to_string(), 1);
    assert!(!map.remove("s".to_string(), 9));
    assert_eq!(map.get_round_robin("s"), Some(1));
}

#[test]
fn keys_len_and_update() {
    let mut map = RoundRobinDashMap::new();
    assert!(map.is_empty());
    map.insert("a".to_string(), 1);
    map.insert("b".to_string(), 2);
    assert_eq!(map.len(), 2);
    let mut keys = map.keys();
    keys.sort();
    assert_eq!(keys, vec!["a".to_string(), "b".to_string()]);
    assert!(map.update("a", &vec![5, 4, 5]));
    assert_eq!(map.get_round_robin("a"), Some(4));
    assert_eq!(map.get_round_robin("a"), Some(5));
    assert_eq!(map.get_round_robin("a"), Some(4));
}

#[test]
fn round_robin_set_basics() {
    let mut set = RoundRobinSet::from_set(&vec![3, 1, 2, 1]);
    assert_eq!(set.len(), 3);
    assert!(set.contains(2));
    assert!(!set.insert(2));
    assert!(set.insert(0));
    assert_eq!(set.next(), Some(0));
    assert!(set.remove(0));
    assert!(!set.remove(0));
    assert_eq!(set.next(), Some(2));
    let mut empty = RoundRobinSet::new();
    assert!(empty.is_empty());
    assert_eq!(empty.next(), None);
}

use ruleco::directory::Component;
use ruleco::directory::Directory;

#[test]
fn directory_insert_and_get() {
    let mut d = Directory::new();
    assert!(d.get(&b"a".to_vec()).is_none());
    d.insert(b"a".to_vec(), Component::build(&b"id_a".to_vec(), 5));
    let c = d.get(&b"a".to_vec()).unwrap();
    assert_eq!(c.identity, b"id_a".to_vec());
    assert_eq!(c.last_seen, 5);
}

#[test]
fn directory_insert_replaces_same_name() {
    let mut d = Directory::new();
    d.insert(b"a".to_vec(), Component::build(&b"id_1".to_vec(), 5));
    d.insert(b"a".to_vec(), Component::build(&b"id_2".to_vec(), 9));
    let c = d.get(&b"a".to_vec()).unwrap();
    assert_eq!(c.identity, b"id_2".to_vec());
    assert_eq!(c.last_seen, 9);
}

#[test]
fn directory_touch_updates_time_only() {
    let mut d = Directory::new();
    d.insert(b"a".to_vec(), Component::build(&b"id_a".to_vec(), 5));
    assert!(d.touch(&b"a".to_vec(), 42));
    let c = d.get(&b"a".to_vec()).unwrap();
    assert_eq!(c.identity, b"id_a".to_vec());
    assert_eq!(c.last_seen, 42);
    assert!(!d.touch(&b"b".to_vec(), 50));
}

#[test]
fn directory_remove() {
    let mut d = Directory::new();
    d.insert(b"a".to_vec(), Component::build(&b"id_a".to_vec(), 5));
    d.insert(b"b".to_vec(), Component::build(&b"id_b".to_vec(), 6));
    d.remove(&b"a".to_vec());
    assert!(d.get(&b"a".to_vec()).is_none());
    assert!(d.get(&b"b".to_vec()).is_some());
    d.remove(&b"missing".to_vec());
    assert!(d.get(&b"b".to_vec()).is_some());
}

#[test]
fn directory_stale_entries_and_evict() {
    let mut d = Directory::new();
    d.insert(b"old".to_vec(), Component::build(&b"id_o".to_vec(), 10));
    d.insert(b"new".to_vec(), Component::build(&b"id_n".to_vec(), 95));
    let stale = d.stale_entries(100, 30);
    assert_eq!(stale.len(), 1);
    assert_eq!(stale[0].0, b"old".to_vec());
    assert_eq!(stale[0].1, b"id_o".to_vec());
    d.evict(100, 30);
    assert!(d.get(&b"old".to_vec()).is_none());
    assert!(d.get(&b"new".to_vec()).is_some());
}

#[test]
fn directory_evict_boundary_is_inclusive() {
    let mut d = Directory::new();
    d.insert(b"edge".to_vec(), Component::build(&b"id_e".to_vec(), 70));
    // idle exactly the threshold: evicted
    d.evict(100, 30);
    assert!(d.get(&b"edge".to_vec()).is_none());
}

use redis_lite::store::RedisStore;

#[test]
fn set_without_expiry_then_get() {
    let mut s = RedisStore::new();
    s.set("k", "v", None);
    assert_eq!(s.get_at("k", 0), Some("v".to_string()));
    assert_eq!(s.get_at("k", u64::MAX), Some("v".to_string()));
    assert_eq!(s.get("k"), Some("v".to_string()));
}

#[test]
fn never_set_key_is_absent() {
    let mut s = RedisStore::new();
    assert_eq!(s.get_at("missing", 5), None);
}

#[test]
fn expiry_takes_effect_at_its_timestamp() {
    let mut s = RedisStore::new();
    s.set("k", "v", Some(1010));
    assert_eq!(s.get_at("k", 1000), Some("v".to_string()));
    assert_eq!(s.get_at("k", 1009), Some("v".to_string()));
    assert_eq!(s.get_at("k", 1010), None);
    // the read deleted the entry
    assert_eq!(s.get_at("k", 0), None);
}

#[test]
fn overwrite_replaces_value_and_expiry() {
    let mut s = RedisStore::new();
    s.set("k", "old", Some(10));
    s.set("k", "new", None);
    assert_eq!(s.get_at("k", 100), Some("new".to_string()));
}

#[test]
fn remove_deletes_whatever_the_expiry() {
    let mut s = RedisStore::new();
    s.set("a", "1", Some(500));
    s.set("b", "2", None);
    s.remove("a");
    s.remove("missing");
    assert_eq!(s.get_at("a", 0), None);
    assert_eq!(s.get_at("b", 0), Some("2".to_string()));
}

#[test]
fn next_expiration_is_the_earliest_pending() {
    let mut s = RedisStore::new();
    assert_eq!(s.next_expiration(), None);
    s.set("a", "1", Some(300));
    s.set("b", "2", Some(100));
    s.set("c", "3", None);
    s.set("d", "4", Some(200));
    assert_eq!(s.next_expiration(), Some(100));
}

#[test]
fn sweep_removes_only_what_has_expired() {
    let mut s = RedisStore::new();
    s.set("a", "1", Some(100));
    s.set("b", "2", Some(200));
    s.set("c", "3", None);
    s.clean_expired_keys_at(150);
    assert_eq!(s.get_at("a", 0), None);
    assert_eq!(s.get_at("b", 0), Some("2".to_string()));
    assert_eq!(s.get_at("c", 0), Some("3".to_string()));
    assert_eq!(s.next_expiration(), Some(200));
    s.clean_expired_keys_at(200);
    assert_eq!(s.get_at("b", 0), None);
    assert_eq!(s.next_expiration(), None);
}

#[test]
fn sweep_ignores_stale_index_entries() {
    let mut s = RedisStore::new();
    s.set("k", "v1", Some(100));
    s.set("k", "v2", Some(1000));
    s.set("j", "w1", Some(100));
    s.set("j", "w2", None);
    s.clean_expired_keys_at(500);
    assert_eq!(s.get_at("k", 500), Some("v2".to_string()));
    assert_eq!(s.get_at("j", 500), Some("w2".to_string()));
    assert_eq!(s.next_expiration(), Some(1000));
}

#[test]
fn sweep_against_the_clock_keeps_future_keys() {
    let mut s = RedisStore::new();
    s.set("old", "1", Some(1));
    s.set("future", "2", Some(u64::MAX));
    s.clean_expired_keys();
    assert_eq!(s.get_at("old", 0), None);
    assert_eq!(s.get_at("future", 0), Some("2".to_string()));
}

use license_core::sessions::{Outcome, SessionStore};

fn s(x: &str) -> String {
    x.to_string()
}

#[test]
fn insert_then_refresh_keeps_count() {
    let mut store = SessionStore::new();
    let k = s("k");
    assert_eq!(store.touch_or_insert(&k, &s("a"), &s("m"), 2, 100, 120), Outcome::Inserted);
    assert_eq!(store.count(&k), 1);
    assert!(store.touch(&k, &s("a"), 150));
    assert_eq!(store.count(&k), 1);
    assert_eq!(store.touch_or_insert(&k, &s("a"), &s("m"), 2, 160, 120), Outcome::Refreshed);
    assert_eq!(store.count(&k), 1);
    assert!(!store.touch(&k, &s("zz"), 170));
    assert!(!store.touch(&s("other"), &s("a"), 170));
}

#[test]
fn limit_reached_changes_nothing() {
    let mut store = SessionStore::new();
    let k = s("k");
    assert_eq!(store.touch_or_insert(&k, &s("a"), &s("m"), 1, 100, 120), Outcome::Inserted);
    assert_eq!(
        store.touch_or_insert(&k, &s("b"), &s("m"), 1, 110, 120),
        Outcome::LimitReached { current: 1, max: 1 }
    );
    assert_eq!(store.count(&k), 1);
    assert!(store.has_session(&k, &s("a")));
    assert!(!store.has_session(&k, &s("b")));
}

#[test]
fn zero_max_refuses_everything() {
    let mut store = SessionStore::new();
    assert_eq!(
        store.touch_or_insert(&s("k"), &s("a"), &s("m"), 0, 100, 120),
        Outcome::LimitReached { current: 0, max: 0 }
    );
    assert_eq!(store.count(&s("k")), 0);
}

#[test]
fn idle_sessions_do_not_count_against_the_limit() {
    let mut store = SessionStore::new();
    let k = s("k");
    assert_eq!(store.touch_or_insert(&k, &s("a"), &s("m"), 1, 100, 120), Outcome::Inserted);
    // 120 s later the first session is idle and makes room
    assert_eq!(store.touch_or_insert(&k, &s("b"), &s("m"), 1, 220, 120), Outcome::Inserted);
    assert_eq!(store.count(&k), 1);
    assert!(store.has_session(&k, &s("b")));
    assert!(!store.has_session(&k, &s("a")));
}

#[test]
fn evict_idle_drops_sessions_and_empty_keys() {
    let mut store = SessionStore::new();
    store.touch_or_insert(&s("k1"), &s("a"), &s("m"), 5, 100, 120);
    store.touch_or_insert(&s("k1"), &s("b"), &s("m"), 5, 200, 120);
    store.touch_or_insert(&s("k2"), &s("c"), &s("m"), 5, 100, 120);
    assert_eq!(store.total_count(), 3);
    store.evict_idle(220, 120);
    assert_eq!(store.count(&s("k1")), 1);
    assert!(store.has_session(&s("k1"), &s("b")));
    assert_eq!(store.count(&s("k2")), 0);
    assert_eq!(store.total_count(), 1);
    store.evict_idle(1000, 120);
    assert_eq!(store.total_count(), 0);
}

#[test]
fn drop_all_removes_every_session_of_a_key() {
    let mut store = SessionStore::new();
    store.touch_or_insert(&s("k1"), &s("a"), &s("m"), 5, 100, 120);
    store.touch_or_insert(&s("k1"), &s("b"), &s("m"), 5, 100, 120);
    store.touch_or_insert(&s("k2"), &s("c"), &s("m"), 5, 100, 120);
    store.drop_all(&s("k1"));
    assert_eq!(store.count(&s("k1")), 0);
    assert_eq!(store.count(&s("k2")), 1);
}

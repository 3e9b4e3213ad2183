use prometheus::db::{
    cache_key, ConfigStore, EntryID, Record, RecordKind, ServerConfig, StoreError, WelcomeConfig,
    CACHE_TTL_SECONDS,
};

#[test]
fn cache_roundtrip_before_ttl() {
    let mut store = ConfigStore::new();
    let rec = WelcomeConfig {
        server_id: 1,
        channel_id: 2,
    };
    store.create_welcome(rec, 0).unwrap();

    // Before the TTL passes, the read is served by the cache.
    assert_eq!(
        store.cache_lookup(RecordKind::Welcome, 1, 0),
        Some(Record::Welcome(rec))
    );
    assert_eq!(
        store.cache_lookup(RecordKind::Welcome, 1, CACHE_TTL_SECONDS - 1),
        Some(Record::Welcome(rec))
    );
    assert_eq!(store.get_welcome(1, CACHE_TTL_SECONDS - 1), Some(rec));

    // From the TTL on, the cache misses and the durable store answers.
    assert_eq!(store.cache_lookup(RecordKind::Welcome, 1, CACHE_TTL_SECONDS), None);
    assert_eq!(store.get_welcome(1, CACHE_TTL_SECONDS), Some(rec));
    assert_eq!(store.get_welcome(1, u64::MAX - CACHE_TTL_SECONDS), Some(rec));
}

#[test]
fn server_cache_roundtrip() {
    let mut store = ConfigStore::new();
    let rec = ServerConfig {
        id: 9,
        beta_program: true,
    };
    store.create_server(rec, 100).unwrap();
    assert_eq!(
        store.cache_lookup(RecordKind::Server, 9, 100 + CACHE_TTL_SECONDS - 1),
        Some(Record::Server(rec))
    );
    assert_eq!(
        store.cache_lookup(RecordKind::Server, 9, 100 + CACHE_TTL_SECONDS),
        None
    );
    assert_eq!(store.get_server(9, 100), Some(rec));
    assert_eq!(store.get_server(9, 100 + CACHE_TTL_SECONDS), Some(rec));
    assert_eq!(store.get_server(8, 100), None);
}

#[test]
fn delete_then_read_is_absent() {
    let mut store = ConfigStore::new();
    let rec = WelcomeConfig {
        server_id: 5,
        channel_id: 6,
    };
    store.create_welcome(rec, 0).unwrap();
    store.delete_welcome(5);

    // Absent at once, with no dependence on the TTL clock.
    assert_eq!(store.get_welcome(5, 0), None);
    assert_eq!(store.get_welcome(5, 1), None);
    assert_eq!(store.get_welcome(5, CACHE_TTL_SECONDS - 1), None);
    assert_eq!(store.cache_lookup(RecordKind::Welcome, 5, 0), None);
}

#[test]
fn delete_missing_record_is_quiet() {
    let mut store = ConfigStore::new();
    store.delete_welcome(42);
    assert_eq!(store.get_welcome(42, 0), None);
}

#[test]
fn duplicate_create_is_surfaced() {
    let mut store = ConfigStore::new();
    let rec = WelcomeConfig {
        server_id: 3,
        channel_id: 4,
    };
    assert!(store.create_welcome(rec, 0).is_ok());
    assert_eq!(
        store.create_welcome(rec, 0),
        Err(StoreError::UniqueViolation)
    );
    let srv = ServerConfig {
        id: 3,
        beta_program: false,
    };
    assert!(store.create_server(srv, 0).is_ok());
    assert_eq!(store.create_server(srv, 0), Err(StoreError::UniqueViolation));
}

#[test]
fn update_is_an_upsert_with_cache_refresh() {
    let mut store = ConfigStore::new();
    let first = WelcomeConfig {
        server_id: 7,
        channel_id: 1,
    };
    // Upsert into an empty store inserts.
    store.update_welcome(first, 0);
    assert_eq!(store.get_welcome(7, 0), Some(first));

    // Upsert over an existing record replaces it, and the cache sees
    // the new value at once.
    let second = WelcomeConfig {
        server_id: 7,
        channel_id: 2,
    };
    store.update_welcome(second, 10);
    assert_eq!(
        store.cache_lookup(RecordKind::Welcome, 7, 10),
        Some(Record::Welcome(second))
    );
    assert_eq!(store.get_welcome(7, 10), Some(second));

    let srv = ServerConfig {
        id: 7,
        beta_program: false,
    };
    store.update_server(srv, 0);
    let srv2 = ServerConfig {
        id: 7,
        beta_program: true,
    };
    store.update_server(srv2, 1);
    assert_eq!(store.get_server(7, 1), Some(srv2));
}

#[test]
fn cache_keys_are_namespaced() {
    assert_eq!(cache_key(RecordKind::Server, 42), "server_42");
    assert_eq!(cache_key(RecordKind::Welcome, 7), "welcome_7");
    let base = EntryID::Base("plain".to_string());
    assert_eq!(base.key_string(), "plain");
    let with_id = EntryID::WithID(("server".to_string(), 123456789));
    assert_eq!(with_id.key_string(), "server_123456789");
}

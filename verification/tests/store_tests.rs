use kvstore::error::KVStoreError;
use kvstore::store::KVStore;

fn setup() -> KVStore {
    let mut store = KVStore::new();
    store.register_token("store-test-token");
    store
}

#[test]
fn test_new_kvstore() {
    let store = KVStore::new();
    assert!(store.health_check().is_ok());
}

#[test]
fn test_set_and_get() {
    let mut store = KVStore::new();
    store.register_token("test-token");

    store.set("test-token", "test-key", "test-value", None).unwrap();

    let value = store.get("test-token", "test-key").unwrap();
    assert_eq!(value, "test-value");

    store.delete("test-token", "test-key").unwrap();
}

#[test]
fn test_delete() {
    let mut store = KVStore::new();
    store.register_token("test-token");

    store.set("test-token", "test-key-del", "test-value", None).unwrap();

    store.delete("test-token", "test-key-del").unwrap();

    let result = store.get("test-token", "test-key-del");
    assert!(result.is_err());
}

#[test]
fn store_test_health_check() {
    let store = KVStore::new();
    let healthy = store.health_check().unwrap();
    assert!(healthy);
}

#[test]
fn test_set_get_delete() {
    let mut store = setup();

    store.set("store-test-token", "key1", "value1", None).unwrap();

    let value = store.get("store-test-token", "key1").unwrap();
    assert_eq!(value, "value1");

    store.delete("store-test-token", "key1").unwrap();

    let result = store.get("store-test-token", "key1");
    assert!(result.is_err());
}

#[test]
fn test_set_with_ttl() {
    let mut store = setup();

    store.set("store-test-token", "ttl-key", "ttl-value", Some(2)).unwrap();

    let value = store.get("store-test-token", "ttl-key").unwrap();
    assert_eq!(value, "ttl-value");

    // Wait past the TTL.
    store.advance_clock(3);

    let result = store.get("store-test-token", "ttl-key");
    assert!(result.is_err());
}

#[test]
fn test_ttl_boundary() {
    let mut store = setup();

    store.set("store-test-token", "ttl-key", "ttl-value", Some(5)).unwrap();

    // Still there just before the TTL lapses…
    store.advance_clock(4);
    assert_eq!(store.get("store-test-token", "ttl-key").unwrap(), "ttl-value");

    // …and gone once it does.
    store.advance_clock(1);
    let result = store.get("store-test-token", "ttl-key");
    assert!(matches!(result, Err(KVStoreError::KeyNotFound(k)) if k == "ttl-key"));
}

#[test]
fn test_set_clears_previous_ttl() {
    let mut store = setup();

    store.set("store-test-token", "k", "v1", Some(2)).unwrap();
    // A second write without a TTL clears the previous expiry.
    store.set("store-test-token", "k", "v2", None).unwrap();

    store.advance_clock(10);
    assert_eq!(store.get("store-test-token", "k").unwrap(), "v2");
}

#[test]
fn test_list_keys() {
    let mut store = setup();

    store.set("store-test-token", "list:key1", "value1", None).unwrap();
    store.set("store-test-token", "list:key2", "value2", None).unwrap();
    store.set("store-test-token", "other:key", "value3", None).unwrap();

    let keys = store.list("store-test-token", "list:").unwrap();
    assert_eq!(keys.len(), 2);
    assert!(keys.contains(&"list:key1".to_string()));
    assert!(keys.contains(&"list:key2".to_string()));

    store.delete("store-test-token", "list:key1").unwrap();
    store.delete("store-test-token", "list:key2").unwrap();
    store.delete("store-test-token", "other:key").unwrap();
}

#[test]
fn test_list_empty_prefix_lists_namespace() {
    let mut store = setup();
    store.register_token("other-token");

    store.set("store-test-token", "a", "1", None).unwrap();
    store.set("store-test-token", "b", "2", None).unwrap();
    store.set("other-token", "c", "3", None).unwrap();

    let keys = store.list("store-test-token", "").unwrap();
    assert_eq!(keys.len(), 2);
    assert!(keys.contains(&"a".to_string()));
    assert!(keys.contains(&"b".to_string()));
}

#[test]
fn test_list_skips_lapsed_keys() {
    let mut store = setup();

    store.set("store-test-token", "stays", "1", None).unwrap();
    store.set("store-test-token", "lapses", "2", Some(1)).unwrap();
    store.advance_clock(2);

    let keys = store.list("store-test-token", "").unwrap();
    assert_eq!(keys, vec!["stays".to_string()]);
}

#[test]
fn test_validate_token() {
    let store = setup();

    let is_valid = store.validate_token("store-test-token").unwrap();
    assert!(is_valid);

    let is_valid = store.validate_token("invalid-token-xyz").unwrap();
    assert!(!is_valid);
}

#[test]
fn integration_tests_test_health_check() {
    let store = setup();
    let healthy = store.health_check().unwrap();
    assert!(healthy);
}

#[test]
fn test_namespace_isolation() {
    // Two credentials writing the same logical key never see each other's
    // value.
    let mut store = KVStore::new();
    store.register_token("alice");
    store.register_token("bob");

    store.set("alice", "k", "alice-value", None).unwrap();
    store.set("bob", "k", "bob-value", None).unwrap();

    assert_eq!(store.get("alice", "k").unwrap(), "alice-value");
    assert_eq!(store.get("bob", "k").unwrap(), "bob-value");

    store.delete("alice", "k").unwrap();
    assert!(store.get("alice", "k").is_err());
    assert_eq!(store.get("bob", "k").unwrap(), "bob-value");
}

#[test]
fn test_delete_is_idempotent() {
    let mut store = setup();

    store.set("store-test-token", "gone", "v", None).unwrap();
    assert!(store.delete("store-test-token", "gone").is_ok());
    // The second delete of an absent key still succeeds.
    assert!(store.delete("store-test-token", "gone").is_ok());
    // So does deleting a key that never existed.
    assert!(store.delete("store-test-token", "never-there").is_ok());
}

#[test]
fn test_get_missing_is_key_not_found() {
    let store = setup();
    let result = store.get("store-test-token", "absent");
    assert!(matches!(result, Err(KVStoreError::KeyNotFound(k)) if k == "absent"));
}

#[test]
fn test_set_is_idempotent() {
    let mut store = setup();
    store.set("store-test-token", "k", "v", None).unwrap();
    store.set("store-test-token", "k", "v", None).unwrap();
    assert_eq!(store.get("store-test-token", "k").unwrap(), "v");
    let keys = store.list("store-test-token", "").unwrap();
    assert_eq!(keys, vec!["k".to_string()]);
}

#[test]
fn test_list_drops_empty_logical_key() {
    // A physical key no longer than `token:` itself strips to nothing and
    // is defensively dropped from a listing, though it can still be read.
    let mut store = setup();

    store.set("store-test-token", "", "v", None).unwrap();
    assert_eq!(store.get("store-test-token", "").unwrap(), "v");

    let keys = store.list("store-test-token", "").unwrap();
    assert!(keys.is_empty());
}

#[test]
fn test_list_sees_delimiter_bearing_credential() {
    // The namespacing scheme leaves a credential containing the delimiter
    // ambiguous: its physical keys also parse as keys of the shorter
    // credential, so the shorter credential's listing enumerates them. The
    // isolation law therefore speaks only of delimiter-free credentials.
    let mut store = KVStore::new();
    store.register_token("a");
    store.register_token("a:b");

    store.set("a:b", "k", "v", None).unwrap();

    let keys = store.list("a", "").unwrap();
    assert_eq!(keys, vec!["b:k".to_string()]);
}

#[test]
fn test_interpret_ping() {
    assert!(KVStore::interpret_ping("PONG"));
    assert!(!KVStore::interpret_ping("PING"));
    assert!(!KVStore::interpret_ping(""));
}

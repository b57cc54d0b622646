use kvstore::error::KVStoreError;
use kvstore::http::{delete_key, get_key, healthcheck, post_value, SetValueRequest};
use kvstore::store::KVStore;

fn create_test_store() -> KVStore {
    let mut store = KVStore::new();
    store.register_token("test-token");
    store
}

#[test]
fn test_healthcheck() {
    let store = create_test_store();
    let response = healthcheck(&store).unwrap();
    assert_eq!(response.message, "OK");
}

#[test]
fn test_unauthorized_access() {
    let store = create_test_store();
    // No Authorization header at all.
    let result = get_key(&store, None, "test-key");
    let err = result.unwrap_err();
    assert_eq!(err.into_response().status, 401);
}

#[test]
fn test_http_healthcheck() {
    let store = create_test_store();
    let response = healthcheck(&store).unwrap();
    assert_eq!(response.message, "OK");
}

#[test]
fn test_http_unauthorized() {
    let store = create_test_store();
    let result = get_key(&store, None, "test-key");
    assert_eq!(result.unwrap_err().into_response().status, 401);
}

#[test]
fn test_http_set_and_get() {
    let mut store = create_test_store();

    let payload = SetValueRequest { value: "test-value".to_string(), ttl_seconds: None };
    let response = post_value(
        &mut store,
        Some("Bearer test-token"),
        "test-key-http",
        payload,
    )
    .unwrap();
    assert_eq!(response.message, "OK");

    let response = get_key(&store, Some("Bearer test-token"), "test-key-http").unwrap();
    assert_eq!(response.value, "test-value");

    store.delete("test-token", "test-key-http").unwrap();
}

#[test]
fn test_http_delete() {
    let mut store = create_test_store();

    store.set("test-token", "test-key-del-http", "test-value", None).unwrap();

    let response = delete_key(&mut store, Some("Bearer test-token"), "test-key-del-http")
        .unwrap();
    assert_eq!(response.message, "OK");

    let result = store.get("test-token", "test-key-del-http");
    assert!(result.is_err());
}

#[test]
fn test_http_malformed_header() {
    let store = create_test_store();
    // A header without the bearer scheme is rejected before the facade runs.
    let result = get_key(&store, Some("Basic dXNlcjpwdw=="), "k");
    let err = result.unwrap_err();
    assert!(matches!(
        &err,
        KVStoreError::Unauthorized(m) if m == "Missing or invalid Authorization header"
    ));
    assert_eq!(err.into_response().status, 401);
}

#[test]
fn test_http_unregistered_token() {
    let mut store = create_test_store();
    let payload = SetValueRequest { value: "v".to_string(), ttl_seconds: None };
    let result = post_value(&mut store, Some("Bearer bad"), "k", payload);
    let err = result.unwrap_err();
    assert!(matches!(&err, KVStoreError::Unauthorized(m) if m == "Invalid token"));
    // The rejected write never reached the store.
    assert!(store.get("bad", "k").is_err());
    assert!(store.get("test-token", "k").is_err());
}

#[test]
fn test_http_post_rejects_non_positive_ttl() {
    let mut store = create_test_store();
    let payload = SetValueRequest { value: "v".to_string(), ttl_seconds: Some(0) };
    let err = post_value(&mut store, Some("Bearer test-token"), "k", payload).unwrap_err();
    assert!(matches!(&err, KVStoreError::InvalidRequest(m) if m == "ttl_seconds must be positive"));
    assert_eq!(err.into_response().status, 400);
    assert!(store.get("test-token", "k").is_err());
}

#[test]
fn test_http_bearer_with_empty_token() {
    // "Bearer " carries an empty credential: extracted, looked up, and
    // rejected as unregistered rather than as a malformed header.
    let store = create_test_store();
    let err = get_key(&store, Some("Bearer "), "k").unwrap_err();
    assert!(matches!(&err, KVStoreError::Unauthorized(m) if m == "Invalid token"));
}

#[test]
fn test_http_get_missing_key_is_404() {
    let store = create_test_store();
    let err = get_key(&store, Some("Bearer test-token"), "absent").unwrap_err();
    assert!(matches!(&err, KVStoreError::KeyNotFound(k) if k == "absent"));
    assert_eq!(err.into_response().status, 404);
}

use kvstore::error::{KVStoreError, RpcCode};

#[test]
fn test_error_display() {
    let error = KVStoreError::KeyNotFound("test_key".to_string());
    assert_eq!(error.message(), "Key not found: test_key");

    let error = KVStoreError::Unauthorized("Invalid token".to_string());
    assert_eq!(error.message(), "Authentication failed: Invalid token");
}

#[test]
fn test_error_into_status_code() {
    let error = KVStoreError::KeyNotFound("test".to_string());
    let response = error.into_response();
    assert_eq!(response.status, 404);

    let error = KVStoreError::Unauthorized("test".to_string());
    let response = error.into_response();
    assert_eq!(response.status, 401);
}

#[test]
fn test_http_projection_statuses() {
    assert_eq!(KVStoreError::Redis("boom".to_string()).into_response().status, 500);
    assert_eq!(KVStoreError::Io("boom".to_string()).into_response().status, 500);
    assert_eq!(KVStoreError::InvalidRequest("bad body".to_string()).into_response().status, 400);
    assert_eq!(KVStoreError::Internal("oops".to_string()).into_response().status, 500);
    assert_eq!(KVStoreError::Utf8("bad byte".to_string()).into_response().status, 500);
}

#[test]
fn test_http_projection_hides_backend_text() {
    // Raw backend error text is never echoed; only an invalid request's
    // message is.
    let response = KVStoreError::Redis("connection refused at 10.0.0.1".to_string())
        .into_response();
    assert_eq!(response.error, "Database error");

    let response = KVStoreError::InvalidRequest("ttl_seconds must be positive".to_string())
        .into_response();
    assert_eq!(response.error, "ttl_seconds must be positive");
}

#[test]
fn test_rpc_projection_codes() {
    let s = KVStoreError::Redis("boom".to_string()).into_rpc_status();
    assert_eq!(s.code, RpcCode::Internal);
    assert_eq!(s.message, "Database error");

    let s = KVStoreError::Io("boom".to_string()).into_rpc_status();
    assert_eq!(s.code, RpcCode::Internal);

    let s = KVStoreError::Unauthorized("Invalid token".to_string()).into_rpc_status();
    assert_eq!(s.code, RpcCode::Unauthenticated);
    assert_eq!(s.message, "Invalid token");

    let s = KVStoreError::KeyNotFound("k1".to_string()).into_rpc_status();
    assert_eq!(s.code, RpcCode::NotFound);
    assert_eq!(s.message, "Key not found: k1");

    let s = KVStoreError::InvalidRequest("bad".to_string()).into_rpc_status();
    assert_eq!(s.code, RpcCode::InvalidArgument);
    assert_eq!(s.message, "bad");

    let s = KVStoreError::Internal("oops".to_string()).into_rpc_status();
    assert_eq!(s.code, RpcCode::Internal);
    assert_eq!(s.message, "oops");

    let s = KVStoreError::Utf8("bad".to_string()).into_rpc_status();
    assert_eq!(s.code, RpcCode::Internal);
    assert_eq!(s.message, "Encoding error");
}

#[test]
fn test_error_messages() {
    assert_eq!(KVStoreError::Redis("x".to_string()).message(), "Redis error: x");
    assert_eq!(KVStoreError::Io("x".to_string()).message(), "IO error: x");
    assert_eq!(KVStoreError::InvalidRequest("x".to_string()).message(), "Invalid request: x");
    assert_eq!(KVStoreError::Internal("x".to_string()).message(), "Internal error: x");
    assert_eq!(KVStoreError::Utf8("x".to_string()).message(), "UTF-8 error: x");
}

use kvstore::error::RpcCode;
use kvstore::grpc::{
    create_service, DeleteRequest, GetRequest, HealthCheckRequest, ListRequest, SetRequest,
};
use kvstore::store::KVStore;

fn setup_grpc_test() -> kvstore::grpc::KVStoreService {
    let mut store = KVStore::new();
    store.register_token("grpc-test-token");
    create_service(store)
}

#[test]
fn test_service_creation() {
    // This is a basic smoke test
    let _service = create_service(KVStore::new());
}

#[test]
fn test_grpc_health_check() {
    let service = setup_grpc_test();

    let response = service.health_check(HealthCheckRequest {}).unwrap();

    assert!(response.healthy);
}

#[test]
fn test_grpc_set_and_get() {
    let mut service = setup_grpc_test();

    let set_response = service
        .set(SetRequest {
            key: "grpc-test-key".to_string(),
            value: "grpc-test-value".to_string(),
            token: "grpc-test-token".to_string(),
            ttl_seconds: None,
        })
        .unwrap();

    assert!(set_response.success);

    let get_response = service
        .get(GetRequest {
            key: "grpc-test-key".to_string(),
            token: "grpc-test-token".to_string(),
        })
        .unwrap();

    assert!(get_response.found);
    assert_eq!(get_response.value, "grpc-test-value");
}

#[test]
fn test_grpc_delete() {
    let mut service = setup_grpc_test();

    service
        .set(SetRequest {
            key: "grpc-test-key-del".to_string(),
            value: "test-value".to_string(),
            token: "grpc-test-token".to_string(),
            ttl_seconds: None,
        })
        .unwrap();

    let delete_response = service
        .delete(DeleteRequest {
            key: "grpc-test-key-del".to_string(),
            token: "grpc-test-token".to_string(),
        })
        .unwrap();

    assert!(delete_response.success);

    let get_response = service
        .get(GetRequest {
            key: "grpc-test-key-del".to_string(),
            token: "grpc-test-token".to_string(),
        })
        .unwrap();
    assert!(!get_response.found);
}

#[test]
fn test_grpc_unauthorized() {
    let service = setup_grpc_test();

    let result = service.get(GetRequest {
        key: "test-key".to_string(),
        token: "invalid-token".to_string(),
    });

    assert!(result.is_err());
    let status = result.unwrap_err();
    assert_eq!(status.code, RpcCode::Unauthenticated);
}

#[test]
fn test_grpc_get_absent_key_is_found_false() {
    // An absent key on a read is a normal reply, not an error.
    let service = setup_grpc_test();
    let response = service
        .get(GetRequest { key: "absent".to_string(), token: "grpc-test-token".to_string() })
        .unwrap();
    assert!(!response.found);
    assert_eq!(response.value, "");
}

#[test]
fn test_grpc_list_streams_each_key_once() {
    let mut service = setup_grpc_test();

    for (k, v) in [("list:a", "1"), ("list:b", "2"), ("other", "3")] {
        service
            .set(SetRequest {
                key: k.to_string(),
                value: v.to_string(),
                token: "grpc-test-token".to_string(),
                ttl_seconds: None,
            })
            .unwrap();
    }

    let items = service
        .list(ListRequest {
            token: "grpc-test-token".to_string(),
            prefix: "list:".to_string(),
        })
        .unwrap();

    let mut keys: Vec<String> = items.into_iter().map(|item| item.key).collect();
    keys.sort();
    assert_eq!(keys, vec!["list:a".to_string(), "list:b".to_string()]);
}

#[test]
fn test_grpc_list_unauthorized() {
    let service = setup_grpc_test();
    let status = service
        .list(ListRequest { token: "bad".to_string(), prefix: "".to_string() })
        .unwrap_err();
    assert_eq!(status.code, RpcCode::Unauthenticated);
    assert_eq!(status.message, "Invalid token");
}

#[test]
fn test_grpc_set_rejects_non_positive_ttl() {
    let mut service = setup_grpc_test();
    let status = service
        .set(SetRequest {
            key: "k".to_string(),
            value: "v".to_string(),
            token: "grpc-test-token".to_string(),
            ttl_seconds: Some(-1),
        })
        .unwrap_err();
    assert_eq!(status.code, RpcCode::InvalidArgument);
    assert_eq!(status.message, "ttl_seconds must be positive");
}

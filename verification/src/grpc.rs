//! The RPC adapter's decision logic.
//!
//! One method per facade operation, each running the auth gate itself —
//! the RPC surface has no shared middleware stage. An absent key on a read
//! is a normal reply with `found` false, not an error; `list` is the one
//! streaming method, and the verified part here produces the full sequence
//! of typed messages the stream emits, leaving the bounded channel and the
//! consumer-closed signal to the transport plumbing around it.

use vstd::prelude::*;

use crate::error::{ErrorSpec, KVStoreError, RpcCode, RpcStatus};
use crate::store::{
    spec_delete, spec_get, spec_list_member, spec_set, spec_ttl, validate_ttl, KVStore,
};

verus! {

/// A typed read request: the credential and the logical key.
#[derive(Debug)]
pub struct GetRequest {
    pub token: String,
    pub key: String,
}

/// A typed read reply: the value, and whether the key was bound.
#[derive(Debug)]
pub struct GetResponse {
    pub value: String,
    pub found: bool,
}

/// A typed write request.
#[derive(Debug)]
pub struct SetRequest {
    pub token: String,
    pub key: String,
    pub value: String,
    pub ttl_seconds: Option<i64>,
}

/// A typed write reply.
#[derive(Debug)]
pub struct SetResponse {
    pub success: bool,
    pub message: String,
}

/// A typed delete request.
#[derive(Debug)]
pub struct DeleteRequest {
    pub token: String,
    pub key: String,
}

/// A typed delete reply.
#[derive(Debug)]
pub struct DeleteResponse {
    pub success: bool,
    pub message: String,
}

/// A typed list request: the credential and the logical-key prefix.
#[derive(Debug)]
pub struct ListRequest {
    pub token: String,
    pub prefix: String,
}

/// One streamed list item: a logical key.
#[derive(Debug)]
pub struct ListResponse {
    pub key: String,
}

impl View for ListResponse {
    type V = Seq<char>;

    open spec fn view(&self) -> Seq<char> {
        self.key@
    }
}

impl DeepView for ListResponse {
    type V = Seq<char>;

    open spec fn deep_view(&self) -> Seq<char> {
        self.key@
    }
}

/// A typed liveness request.
#[derive(Debug)]
pub struct HealthCheckRequest {}

/// A typed liveness reply.
#[derive(Debug)]
pub struct HealthCheckResponse {
    pub healthy: bool,
    pub message: String,
}

/// The auth gate as each RPC method runs it: a registered credential
/// proceeds, an unregistered one is rejected as unauthenticated, and a
/// failure of the membership check itself becomes an internal status — not
/// a rejection.
pub fn rpc_authorize(validation: Result<bool, KVStoreError>) -> (r: Result<(), RpcStatus>)
    ensures
        validation matches Ok(true) ==> r is Ok,
        validation matches Ok(false) ==> (r matches Err(s) && s.code == RpcCode::Unauthenticated
            && s.message@ == "Invalid token"@),
        validation is Err ==> (r matches Err(s) && s.code == RpcCode::Internal && s.message@
            == "Token validation failed"@),
{
    match validation {
        Err(_) => Err(
            RpcStatus {
                code: RpcCode::Internal,
                message: String::from_str("Token validation failed"),
            },
        ),
        Ok(b) => match crate::auth::authorize(Ok(b)) {
            Ok(_) => Ok(()),
            Err(e) => Err(e.into_rpc_status()),
        },
    }
}

/// Turns a facade read's outcome into the typed reply: a value found, an
/// absent key as a normal reply with `found` false, and any other failure
/// as the mapped status.
pub fn get_reply(result: Result<String, KVStoreError>) -> (r: Result<GetResponse, RpcStatus>)
    ensures
        result matches Ok(v) ==> (r matches Ok(g) && g.value == v && g.found),
        result matches Err(e) ==> e@ matches ErrorSpec::KeyNotFound(_) ==> (r matches Ok(g)
            && g.value@ == Seq::<char>::empty() && !g.found),
        result matches Err(e) ==> !(e@ matches ErrorSpec::KeyNotFound(_)) ==> (r matches Err(s)
            && s.code == crate::error::rpc_code_spec(e@) && s.message@
            == crate::error::rpc_message_spec(e@)),
{
    match result {
        Ok(value) => Ok(GetResponse { value, found: true }),
        Err(e) => match e {
            KVStoreError::KeyNotFound(_) => Ok(GetResponse { value: String::new(), found: false }),
            _ => Err(e.into_rpc_status()),
        },
    }
}

/// Turns the liveness probe's answer into the typed reply.
pub fn health_reply(healthy: bool) -> (r: HealthCheckResponse)
    ensures
        r.healthy == healthy,
        healthy ==> r.message@ == "OK"@,
        !healthy ==> r.message@ == "Unhealthy"@,
{
    if healthy {
        HealthCheckResponse { healthy: true, message: String::from_str("OK") }
    } else {
        HealthCheckResponse { healthy: false, message: String::from_str("Unhealthy") }
    }
}

/// The RPC service: the store facade behind the typed methods.
pub struct KVStoreService {
    store: KVStore,
}

impl KVStoreService {
    /// The service's store.
    pub closed spec fn store_spec(&self) -> KVStore {
        self.store
    }

    /// Wraps a store facade in the typed service.
    pub fn new(store: KVStore) -> (r: Self)
        ensures
            r.store_spec() == store,
    {
        KVStoreService { store }
    }

    /// The read method: authenticates, then answers the value under the
    /// caller's logical key, or `found` false when it is absent.
    pub fn get(&self, request: GetRequest) -> (r: Result<GetResponse, RpcStatus>)
        requires
            self.store_spec().wf(),
        ensures
            !self.store_spec().tokens_set().contains(request.token@) ==> (r matches Err(s)
                && s.code == RpcCode::Unauthenticated && s.message@ == "Invalid token"@),
            self.store_spec().tokens_set().contains(request.token@) ==> match spec_get(
                self.store_spec().contents(),
                self.store_spec().now(),
                request.token@,
                request.key@,
            ) {
                Some(v) => r matches Ok(g) && g.value@ == v && g.found,
                None => r matches Ok(g) && g.value@ == Seq::<char>::empty() && !g.found,
            },
    {
        match rpc_authorize(self.store.validate_token(request.token.as_str())) {
            Ok(_) => {},
            Err(s) => {
                return Err(s);
            },
        }
        get_reply(self.store.get(request.token.as_str(), request.key.as_str()))
    }

    /// The write method: authenticates, checks the TTL, then binds the
    /// caller's logical key. An unauthenticated or invalid request leaves
    /// the store unchanged.
    pub fn set(&mut self, request: SetRequest) -> (r: Result<SetResponse, RpcStatus>)
        requires
            old(self).store_spec().wf(),
        ensures
            final(self).store_spec().wf(),
            final(self).store_spec().tokens_set() == old(self).store_spec().tokens_set(),
            final(self).store_spec().now() == old(self).store_spec().now(),
            !old(self).store_spec().tokens_set().contains(request.token@) ==> (r matches Err(s)
                && s.code == RpcCode::Unauthenticated && s.message@ == "Invalid token"@ && final(self).store_spec().contents() == old(self).store_spec().contents()),
            old(self).store_spec().tokens_set().contains(request.token@) ==> match request.ttl_seconds {
                Some(t) if t < 1 => r matches Err(s) && s.code == RpcCode::InvalidArgument
                    && s.message@ == "ttl_seconds must be positive"@ && final(self).store_spec().contents() == old(self).store_spec().contents(),
                _ => r matches Ok(v) && v.success && v.message@ == "OK"@ && final(self).store_spec().contents() == spec_set(
                    old(self).store_spec().contents(),
                    old(self).store_spec().now(),
                    request.token@,
                    request.key@,
                    request.value@,
                    spec_ttl(request.ttl_seconds),
                ),
            },
    {
        match rpc_authorize(self.store.validate_token(request.token.as_str())) {
            Ok(_) => {},
            Err(s) => {
                return Err(s);
            },
        }
        let ttl = match validate_ttl(request.ttl_seconds) {
            Ok(t) => t,
            Err(e) => {
                return Err(e.into_rpc_status());
            },
        };
        match self.store.set(
            request.token.as_str(),
            request.key.as_str(),
            request.value.as_str(),
            ttl,
        ) {
            Ok(_) => Ok(SetResponse { success: true, message: String::from_str("OK") }),
            Err(e) => Err(e.into_rpc_status()),
        }
    }

    /// The delete method: authenticates, then unbinds the caller's logical
    /// key, reporting success whether or not it was bound.
    pub fn delete(&mut self, request: DeleteRequest) -> (r: Result<DeleteResponse, RpcStatus>)
        requires
            old(self).store_spec().wf(),
        ensures
            final(self).store_spec().wf(),
            final(self).store_spec().tokens_set() == old(self).store_spec().tokens_set(),
            final(self).store_spec().now() == old(self).store_spec().now(),
            !old(self).store_spec().tokens_set().contains(request.token@) ==> (r matches Err(s)
                && s.code == RpcCode::Unauthenticated && s.message@ == "Invalid token"@ && final(self).store_spec().contents() == old(self).store_spec().contents()),
            old(self).store_spec().tokens_set().contains(request.token@) ==> (r matches Ok(v)
                && v.success && v.message@ == "OK"@ && final(self).store_spec().contents()
                == spec_delete(
                old(self).store_spec().contents(),
                request.token@,
                request.key@,
            )),
    {
        match rpc_authorize(self.store.validate_token(request.token.as_str())) {
            Ok(_) => {},
            Err(s) => {
                return Err(s);
            },
        }
        match self.store.delete(request.token.as_str(), request.key.as_str()) {
            Ok(_) => Ok(DeleteResponse { success: true, message: String::from_str("OK") }),
            Err(e) => Err(e.into_rpc_status()),
        }
    }

    /// The liveness method: unauthenticated, answering whether the
    /// backend's probe round-trips.
    pub fn health_check(&self, _request: HealthCheckRequest) -> (r: Result<
        HealthCheckResponse,
        RpcStatus,
    >)
        ensures
            r matches Ok(h) && h.healthy && h.message@ == "OK"@,
    {
        match self.store.health_check() {
            Ok(h) => Ok(health_reply(h)),
            Err(_) => Err(
                RpcStatus {
                    code: RpcCode::Internal,
                    message: String::from_str("Health check failed"),
                },
            ),
        }
    }

    /// The streaming list method: authenticates, then produces the typed
    /// messages the stream emits — one per logical key of the caller's
    /// namespace under the prefix, each exactly once, in the backend's
    /// unspecified enumeration order.
    pub fn list(&self, request: ListRequest) -> (r: Result<Vec<ListResponse>, RpcStatus>)
        requires
            self.store_spec().wf(),
            request.token@.len() < usize::MAX,
        ensures
            !self.store_spec().tokens_set().contains(request.token@) ==> (r matches Err(s)
                && s.code == RpcCode::Unauthenticated && s.message@ == "Invalid token"@),
            self.store_spec().tokens_set().contains(request.token@) ==> (r matches Ok(items) && {
                &&& forall|k: Seq<char>|
                    #![trigger items.deep_view().contains(k)]
                    items.deep_view().contains(k) <==> spec_list_member(
                        self.store_spec().contents(),
                        self.store_spec().now(),
                        request.token@,
                        request.prefix@,
                        k,
                    )
                &&& forall|a: int, b: int| 0 <= a < b < items@.len() ==> items@[a]@ != items@[b]@
            }),
    {
        match rpc_authorize(self.store.validate_token(request.token.as_str())) {
            Ok(_) => {},
            Err(s) => {
                return Err(s);
            },
        }
        let keys = match self.store.list(request.token.as_str(), request.prefix.as_str()) {
            Ok(ks) => ks,
            Err(e) => {
                return Err(e.into_rpc_status());
            },
        };
        let mut items: Vec<ListResponse> = Vec::new();
        let mut i: usize = 0;
        while i < keys.len()
            invariant
                i <= keys@.len(),
                items@.len() == i,
                forall|j: int| 0 <= j < i ==> #[trigger] items@[j].key@ == keys@[j]@,
            decreases keys@.len() - i,
        {
            let k = keys[i].clone();
            items.push(ListResponse { key: k });
            i += 1;
        }
        proof {
            assert(items.deep_view() =~= keys.deep_view());
            assert forall|a: int, b: int| 0 <= a < b < items@.len() implies items@[a]@
                != items@[b]@ by {
                assert(items@[a].key@ == keys@[a]@);
                assert(items@[b].key@ == keys@[b]@);
            }
        }
        Ok(items)
    }
}

/// Wraps a store facade in the RPC service.
pub fn create_service(store: KVStore) -> (r: KVStoreService)
    ensures
        r.store_spec() == store,
{
    KVStoreService::new(store)
}

} // verus!

//! The HTTP adapter's decision logic.
//!
//! The REST surface offers an unauthenticated health probe and per-key
//! get/set/delete, all protected by one auth stage that runs ahead of the
//! three handlers rather than inside each. The functions here are the
//! handlers' decisions — header to credential, facade outcome to response
//! envelope — verified against the model store; a deployment's router runs
//! the same functions around its transport and backend plumbing.

use vstd::prelude::*;

use crate::auth::{authorize, bearer_token, bearer_token_spec, missing_header_error};
use crate::error::{ErrorSpec, KVStoreError};
use crate::store::{spec_get, spec_set, spec_ttl, validate_ttl, KVStore};

verus! {

/// Request payload for setting a value: the value and an optional TTL in
/// seconds.
#[derive(Debug)]
pub struct SetValueRequest {
    pub value: String,
    pub ttl_seconds: Option<i64>,
}

/// The uniform success envelope.
#[derive(Debug)]
pub struct SuccessResponse {
    pub message: String,
}

/// The success envelope of a get.
#[derive(Debug)]
pub struct GetResponse {
    pub value: String,
}

/// Turns the liveness probe's answer into the health route's response:
/// the success envelope when the backend is healthy, an internal error
/// otherwise.
pub fn health_response(healthy: bool) -> (r: Result<SuccessResponse, KVStoreError>)
    ensures
        healthy ==> (r matches Ok(s) && s.message@ == "OK"@),
        !healthy ==> (r matches Err(e) && e@ == ErrorSpec::Internal("Health check failed"@)),
{
    if healthy {
        Ok(SuccessResponse { message: String::from_str("OK") })
    } else {
        Err(KVStoreError::Internal(String::from_str("Health check failed")))
    }
}

/// The health probe route: unauthenticated, answering the uniform success
/// envelope iff the backend's probe round-trips.
pub fn healthcheck(store: &KVStore) -> (r: Result<SuccessResponse, KVStoreError>)
    ensures
        r matches Ok(s) && s.message@ == "OK"@,
{
    let healthy = match store.health_check() {
        Ok(h) => h,
        Err(e) => {
            return Err(e);
        },
    };
    health_response(healthy)
}

/// The auth stage ahead of the protected routes: extracts the bearer
/// credential from the `Authorization` header and asks the store whether it
/// is registered. A missing or malformed header and an unregistered
/// credential are rejected as unauthorized before any protected handler
/// runs; a failure of the membership check itself surfaces as the backend's
/// error, not as a rejection.
pub fn auth_middleware(store: &KVStore, auth_header: Option<&str>) -> (r: Result<
    String,
    KVStoreError,
>)
    ensures
        bearer_token_spec(auth_header.deep_view()) is None ==> (r matches Err(e) && e@
            == ErrorSpec::Unauthorized("Missing or invalid Authorization header"@)),
        bearer_token_spec(auth_header.deep_view()) matches Some(t) ==> {
            if store.tokens_set().contains(t) {
                r matches Ok(token) && token@ == t
            } else {
                r matches Err(e) && e@ == ErrorSpec::Unauthorized("Invalid token"@)
            }
        },
{
    let token = match bearer_token(auth_header) {
        None => {
            return Err(missing_header_error());
        },
        Some(t) => t,
    };
    match authorize(store.validate_token(token.as_str())) {
        Ok(_) => Ok(token),
        Err(e) => Err(e),
    }
}

/// Whether the auth stage lets this header through to a protected handler
/// of this store: it carries a bearer credential that is registered.
pub open spec fn spec_authorized(store: KVStore, header: Option<Seq<char>>) -> bool {
    bearer_token_spec(header) matches Some(t) && store.tokens_set().contains(t)
}

/// The credential the auth stage attaches to an authorized request.
pub open spec fn spec_auth_token(header: Option<Seq<char>>) -> Seq<char>
    recommends
        bearer_token_spec(header) is Some,
{
    bearer_token_spec(header)->Some_0
}

/// The protected read route: the value stored under the caller's logical
/// key, or `KeyNotFound`. An unauthorized request is rejected with 401
/// before the facade's read runs.
pub fn get_key(store: &KVStore, auth_header: Option<&str>, key: &str) -> (r: Result<
    GetResponse,
    KVStoreError,
>)
    requires
        store.wf(),
    ensures
        bearer_token_spec(auth_header.deep_view()) is None ==> (r matches Err(e) && e@
            == ErrorSpec::Unauthorized("Missing or invalid Authorization header"@)),
        !spec_authorized(*store, auth_header.deep_view()) ==> (r matches Err(e) && e@ matches
            ErrorSpec::Unauthorized(_)),
        bearer_token_spec(auth_header.deep_view()) matches Some(t) ==> !store.tokens_set().contains(
            t,
        ) ==> (r matches Err(e) && e@ == ErrorSpec::Unauthorized("Invalid token"@)),
        spec_authorized(*store, auth_header.deep_view()) ==> match spec_get(
            store.contents(),
            store.now(),
            spec_auth_token(auth_header.deep_view()),
            key@,
        ) {
            Some(v) => r matches Ok(g) && g.value@ == v,
            None => r matches Err(e) && e@ == ErrorSpec::KeyNotFound(key@),
        },
{
    let token = match auth_middleware(store, auth_header) {
        Ok(t) => t,
        Err(e) => {
            return Err(e);
        },
    };
    match store.get(token.as_str(), key) {
        Ok(v) => Ok(GetResponse { value: v }),
        Err(e) => Err(e),
    }
}

/// The protected write route: binds the caller's logical key to the body's
/// value, with the body's optional TTL. An unauthorized request is rejected
/// with 401 before the facade's write runs, and leaves the store unchanged;
/// a non-positive TTL is rejected as an invalid request, likewise without a
/// write.
pub fn post_value(store: &mut KVStore, auth_header: Option<&str>, key: &str, payload:
    SetValueRequest) -> (r: Result<SuccessResponse, KVStoreError>)
    requires
        old(store).wf(),
    ensures
        final(store).wf(),
        final(store).tokens_set() == old(store).tokens_set(),
        final(store).now() == old(store).now(),
        bearer_token_spec(auth_header.deep_view()) is None ==> (r matches Err(e) && e@
            == ErrorSpec::Unauthorized("Missing or invalid Authorization header"@)),
        !spec_authorized(*old(store), auth_header.deep_view()) ==> (r matches Err(e) && e@ matches
            ErrorSpec::Unauthorized(_) && final(store).contents() == old(store).contents()),
        bearer_token_spec(auth_header.deep_view()) matches Some(t) ==> !old(
            store,
        ).tokens_set().contains(t) ==> (r matches Err(e) && e@ == ErrorSpec::Unauthorized(
            "Invalid token"@,
        )),
        spec_authorized(*old(store), auth_header.deep_view()) ==> match payload.ttl_seconds {
            Some(t) if t < 1 => r matches Err(e) && e@ == ErrorSpec::InvalidRequest(
                "ttl_seconds must be positive"@,
            ) && final(store).contents() == old(store).contents(),
            _ => r matches Ok(s) && s.message@ == "OK"@ && final(store).contents() == spec_set(
                old(store).contents(),
                old(store).now(),
                spec_auth_token(auth_header.deep_view()),
                key@,
                payload.value@,
                spec_ttl(payload.ttl_seconds),
            ),
        },
{
    let token = match auth_middleware(store, auth_header) {
        Ok(t) => t,
        Err(e) => {
            return Err(e);
        },
    };
    let ttl = match validate_ttl(payload.ttl_seconds) {
        Ok(t) => t,
        Err(e) => {
            return Err(e);
        },
    };
    match store.set(token.as_str(), key, payload.value.as_str(), ttl) {
        Ok(_) => Ok(SuccessResponse { message: String::from_str("OK") }),
        Err(e) => Err(e),
    }
}

/// The protected delete route: unbinds the caller's logical key, reporting
/// success whether or not it was bound. An unauthorized request is rejected
/// with 401 before the facade's delete runs, and leaves the store
/// unchanged.
pub fn delete_key(store: &mut KVStore, auth_header: Option<&str>, key: &str) -> (r: Result<
    SuccessResponse,
    KVStoreError,
>)
    requires
        old(store).wf(),
    ensures
        final(store).wf(),
        final(store).tokens_set() == old(store).tokens_set(),
        final(store).now() == old(store).now(),
        bearer_token_spec(auth_header.deep_view()) is None ==> (r matches Err(e) && e@
            == ErrorSpec::Unauthorized("Missing or invalid Authorization header"@)),
        !spec_authorized(*old(store), auth_header.deep_view()) ==> (r matches Err(e) && e@ matches
            ErrorSpec::Unauthorized(_) && final(store).contents() == old(store).contents()),
        bearer_token_spec(auth_header.deep_view()) matches Some(t) ==> !old(
            store,
        ).tokens_set().contains(t) ==> (r matches Err(e) && e@ == ErrorSpec::Unauthorized(
            "Invalid token"@,
        )),
        spec_authorized(*old(store), auth_header.deep_view()) ==> (r matches Ok(s) && s.message@
            == "OK"@ && final(store).contents() == crate::store::spec_delete(
            old(store).contents(),
            spec_auth_token(auth_header.deep_view()),
            key@,
        )),
{
    let token = match auth_middleware(store, auth_header) {
        Ok(t) => t,
        Err(e) => {
            return Err(e);
        },
    };
    match store.delete(token.as_str(), key) {
        Ok(_) => Ok(SuccessResponse { message: String::from_str("OK") }),
        Err(e) => Err(e),
    }
}

} // verus!

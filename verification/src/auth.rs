//! The auth gate shared by both transports.
//!
//! A credential reaches the gateway either as the value of an HTTP
//! `Authorization` header, from which the bearer token is extracted, or as
//! an explicit field of an RPC message. Either way the one decision below
//! turns the backend's membership answer into proceed, reject, or a
//! surfaced backend failure — a failed membership check is never conflated
//! with a negative one.

use vstd::prelude::*;

use crate::error::{ErrorSpec, KVStoreError};
use crate::text::{str_skip, str_starts_with};

verus! {

/// The bearer token of an `Authorization` header value, if the header is
/// present and carries the `Bearer ` scheme.
pub open spec fn bearer_token_spec(header: Option<Seq<char>>) -> Option<Seq<char>> {
    match header {
        Some(h) => if "Bearer "@.is_prefix_of(h) {
            Some(h.skip("Bearer "@.len() as int))
        } else {
            None
        },
        None => None,
    }
}

/// Extracts the bearer token from an `Authorization` header value.
pub fn bearer_token(header: Option<&str>) -> (r: Option<String>)
    ensures
        r.deep_view() == bearer_token_spec(header.deep_view()),
{
    match header {
        None => None,
        Some(h) => {
            let scheme = "Bearer ";
            if str_starts_with(h, scheme) {
                let token = str_skip(h, scheme.unicode_len());
                Some(token)
            } else {
                None
            }
        },
    }
}

/// Decides what follows from the credential membership answer.
/// A registered credential passes; an unregistered one is rejected as
/// unauthorized; a failed membership lookup is surfaced unchanged rather
/// than conflated with a negative answer.
pub fn authorize(validation: Result<bool, KVStoreError>) -> (r: Result<(), KVStoreError>)
    ensures
        validation matches Ok(true) ==> r is Ok,
        validation matches Ok(false) ==> r matches Err(e) && e@ == ErrorSpec::Unauthorized(
            "Invalid token"@,
        ),
        validation matches Err(e) ==> r == Result::<(), KVStoreError>::Err(e),
{
    match validation {
        Ok(true) => Ok(()),
        Ok(false) => Err(KVStoreError::Unauthorized(String::from_str("Invalid token"))),
        Err(e) => Err(e),
    }
}

/// The error with which both transports reject a request whose
/// `Authorization` header is missing or does not carry a bearer token.
pub fn missing_header_error() -> (r: KVStoreError)
    ensures
        r@ == ErrorSpec::Unauthorized("Missing or invalid Authorization header"@),
{
    KVStoreError::Unauthorized(String::from_str("Missing or invalid Authorization header"))
}

} // verus!
